use crate::models::{CanisterState, CanisterStateView};
use crate::principal::{lemma_position_from, position_from, position_of, Principal};
use crate::text::text_of;
use vstd::prelude::*;

verus! {

impl CanisterStateView {
    /// The writers of the store; none where it has no list.
    pub open spec fn writers(self) -> Seq<Seq<u8>> {
        match self.controllers {
            Some(controllers) => controllers,
            None => Seq::empty(),
        }
    }
}

/// Whether a caller may write: the controllers of the canister may, and
/// so may the writers that the store lists.
pub fn is_controller(state: &CanisterState, caller: &Principal, canister_controller: bool) -> (r:
    Result<(), String>)
    ensures
        match r {
            Ok(_) => canister_controller || state@.writers().contains(caller@),
            Err(e) => !canister_controller && !state@.writers().contains(caller@) && e@
                == "You are not authorized to perform this action."@,
        },
{
    if canister_controller {
        return Ok(());
    }
    let listed = match &state.controllers {
        Some(controllers) => position_of(controllers, caller).is_some(),
        None => false,
    };
    if listed {
        Ok(())
    } else {
        Err(text_of("You are not authorized to perform this action."))
    }
}

/// The writers that the store lists.
pub fn get_controllers(state: &CanisterState) -> (r: Vec<Principal>)
    ensures
        r.deep_view() == state@.writers(),
{
    match &state.controllers {
        Some(controllers) => {
            let r = controllers.clone();
            proof {
                assert(r.deep_view() =~= controllers.deep_view());
            }
            r
        },
        None => {
            let r: Vec<Principal> = Vec::new();
            proof {
                assert(r.deep_view() =~= Seq::empty());
            }
            r
        },
    }
}

/// Adds a writer at the end of the list, which is made where the store
/// has none. A writer that the list holds already is refused.
pub fn add_controller(state: &mut CanisterState, new_controller: Principal) -> (r: Result<
    (),
    String,
>)
    ensures
        match r {
            Ok(_) => !old(state)@.writers().contains(new_controller@) && final(state)@ == (
            CanisterStateView {
                controllers: Some(old(state)@.writers().push(new_controller@)),
                ..old(state)@
            }),
            Err(e) => old(state)@.writers().contains(new_controller@) && final(state)@ == old(state)@ && e@ == "Controller already exists."@,
        },
{
    let mut controllers = match state.controllers.take() {
        Some(controllers) => controllers,
        None => Vec::new(),
    };
    proof {
        assert(controllers.deep_view() =~= old(state)@.writers());
    }
    if position_of(&controllers, &new_controller).is_some() {
        state.controllers = Some(controllers);
        return Err(text_of("Controller already exists."));
    }
    let ghost before = controllers.deep_view();
    controllers.push(new_controller);
    proof {
        assert(controllers.deep_view() =~= before.push(new_controller@));
    }
    state.controllers = Some(controllers);
    Ok(())
}

/// Takes a writer from the list: the first entry that holds it. A writer
/// that the list does not hold is refused.
pub fn remove_controller(state: &mut CanisterState, controller_to_remove: Principal) -> (r: Result<
    (),
    String,
>)
    ensures
        match r {
            Ok(_) => position_from(old(state)@.writers(), controller_to_remove@, 0) is Some
                && final(state)@ == (CanisterStateView {
                controllers: Some(
                    old(state)@.writers().remove(
                        position_from(old(state)@.writers(), controller_to_remove@, 0)->0,
                    ),
                ),
                ..old(state)@
            }),
            Err(e) => !old(state)@.writers().contains(controller_to_remove@) && final(state)@
                == old(state)@ && e@ == "Controller not found."@,
        },
{
    let found = match &state.controllers {
        Some(controllers) => position_of(controllers, &controller_to_remove),
        None => None,
    };
    match found {
        Some(at) => {
            let mut controllers = match state.controllers.take() {
                Some(controllers) => controllers,
                None => Vec::new(),
            };
            let ghost before = controllers.deep_view();
            proof {
                assert(before =~= old(state)@.writers());
                lemma_position_from(before, controller_to_remove@, 0);
            }
            controllers.remove(at);
            proof {
                assert(controllers.deep_view() =~= before.remove(at as int));
            }
            state.controllers = Some(controllers);
            Ok(())
        },
        None => {
            proof {
                if state.controllers is None {
                    assert(!Seq::<Seq<u8>>::empty().contains(controller_to_remove@));
                }
            }
            Err(text_of("Controller not found."))
        },
    }
}

} // verus!
