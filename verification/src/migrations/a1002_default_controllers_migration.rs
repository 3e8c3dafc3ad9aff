use crate::migration::Migration;
use crate::models::{CanisterState, CanisterStateView};
use crate::principal::{
    anonymous_view, position_from, position_of, principal_text_decoding, Principal,
};
use crate::text::{decimal_digits, decimal_text, text_of};
use vstd::prelude::*;
use vstd::string::StringExecFns;

verus! {

/// Gives a store without writers the default ones.
pub struct AddDefaultControllersMigration;

/// The number of default writers.
pub const DEFAULT_CONTROLLER_COUNT: usize = 2;

/// The default writers, as texts.
pub open spec fn default_controller_texts() -> Seq<Seq<char>> {
    seq![
        "znxnh-f2v3a-dwwtd-jhyr2-tzdg7-xrm43-xf6xc-q4nfk-arhfb-54k5n-zae"@,
        "krnjz-sqido-sjhrl-jprhc-g6ezq-xidpq-futvc-3mwtc-cpee4-z3cls-wqe"@,
    ]
}

/// The text that says that a default writer could not be read. Positions
/// are counted from one.
pub open spec fn parse_fault(position: nat, error: Seq<char>) -> Seq<char> {
    "Failed to parse default controller "@ + decimal_digits(position) + " principal: "@ + error
}

/// The identities that the texts stand for, or the fault of the first
/// text that stands for none.
pub open spec fn parsed_controllers(texts: Seq<Seq<char>>) -> Result<Seq<Seq<u8>>, Seq<char>>
    decreases texts.len(),
{
    if texts.len() == 0 {
        Ok(Seq::empty())
    } else {
        match parsed_controllers(texts.drop_last()) {
            Err(fault) => Err(fault),
            Ok(parsed) => match principal_text_decoding(texts.last()) {
                Ok(bytes) => Ok(parsed.push(bytes)),
                Err(error) => Err(parse_fault(texts.len(), error)),
            },
        }
    }
}

/// Whether a list of writers holds the given identities and nothing
/// beside them: it is as long as they are, and holds each of them.
pub open spec fn only_defaults(controllers: Seq<Seq<u8>>, defaults: Seq<Seq<u8>>) -> bool {
    controllers.len() == defaults.len() && forall|i: int|
        0 <= i < defaults.len() ==> controllers.contains(#[trigger] defaults[i])
}

/// The first position from `i` on at which a list holds the anonymous
/// identity.
pub open spec fn first_anonymous(controllers: Seq<Seq<u8>>) -> Option<int> {
    position_from(controllers, anonymous_view(), 0)
}

/// The text that says that the writer at a position is anonymous.
pub open spec fn anonymous_fault(position: nat) -> Seq<char> {
    "Validation failed: controller at index "@ + decimal_digits(position)
        + " is anonymous principal"@
}

impl CanisterStateView {
    /// The store with the given writers, where it had none: no list, or
    /// an empty one. A store with writers keeps them.
    pub open spec fn seeded(self, defaults: Seq<Seq<u8>>) -> Self {
        match self.controllers {
            Some(controllers) if controllers.len() > 0 => self,
            _ => CanisterStateView { controllers: Some(defaults), ..self },
        }
    }

    /// The store without a list of writers, where its list held the given
    /// ones and nothing beside them. Any other store stays as it is.
    pub open spec fn unseeded(self, defaults: Seq<Seq<u8>>) -> Self {
        match self.controllers {
            Some(controllers) if only_defaults(controllers, defaults) => CanisterStateView {
                controllers: None,
                ..self
            },
            _ => self,
        }
    }

    /// What is wrong with the writers of a store: no list, or an
    /// anonymous writer in it.
    pub open spec fn controllers_fault(self) -> Option<Seq<char>> {
        match self.controllers {
            None => Some(
                "Validation failed: controllers field should be initialized after migration"@,
            ),
            Some(controllers) => match first_anonymous(controllers) {
                Some(position) => Some(anonymous_fault(position as nat)),
                None => None,
            },
        }
    }
}

/// The text that says that the default writer at a position, counted
/// from one, could not be read.
pub fn parse_fault_text(position: usize, error: &str) -> (r: String)
    ensures
        r@ == parse_fault(position as nat, error@),
{
    let mut fault = text_of("Failed to parse default controller ");
    fault.append(decimal_text(position as u64).as_str());
    fault.append(" principal: ");
    fault.append(error);
    fault
}

fn default_controller_text(i: usize) -> (r: &'static str)
    requires
        i < DEFAULT_CONTROLLER_COUNT,
    ensures
        r@ == default_controller_texts()[i as int],
{
    if i == 0 {
        "znxnh-f2v3a-dwwtd-jhyr2-tzdg7-xrm43-xf6xc-q4nfk-arhfb-54k5n-zae"
    } else {
        "krnjz-sqido-sjhrl-jprhc-g6ezq-xidpq-futvc-3mwtc-cpee4-z3cls-wqe"
    }
}

/// The default writers, or the fault of the first whose text stands for
/// no identity.
pub fn parse_default_controllers() -> (r: Result<Vec<Principal>, String>)
    ensures
        match r {
            Ok(parsed) => parsed_controllers(default_controller_texts()) == Ok::<
                Seq<Seq<u8>>,
                Seq<char>,
            >(parsed.deep_view()),
            Err(fault) => parsed_controllers(default_controller_texts()) == Err::<
                Seq<Seq<u8>>,
                Seq<char>,
            >(fault@),
        },
{
    let ghost texts = default_controller_texts();
    let mut parsed: Vec<Principal> = Vec::new();
    let mut i: usize = 0;
    proof {
        assert(parsed.deep_view() =~= Seq::empty());
        assert(texts.take(0) =~= Seq::empty());
    }
    while i < DEFAULT_CONTROLLER_COUNT
        invariant
            i <= DEFAULT_CONTROLLER_COUNT,
            texts == default_controller_texts(),
            texts.len() == DEFAULT_CONTROLLER_COUNT,
            parsed_controllers(texts.take(i as int)) == Ok::<Seq<Seq<u8>>, Seq<char>>(
                parsed.deep_view(),
            ),
        decreases DEFAULT_CONTROLLER_COUNT - i,
    {
        let ghost so_far = parsed.deep_view();
        proof {
            assert(texts.take(i + 1).drop_last() =~= texts.take(i as int));
            assert(texts.take(i + 1).last() == texts[i as int]);
        }
        match Principal::from_text(default_controller_text(i)) {
            Ok(principal) => {
                parsed.push(principal);
                proof {
                    assert(parsed.deep_view() =~= so_far.push(principal@));
                }
            },
            Err(error) => {
                proof {
                    lemma_parse_fault_stays(texts, i + 1);
                }
                return Err(parse_fault_text(i + 1, error.as_str()));
            },
        }
        i += 1;
    }
    proof {
        assert(texts.take(DEFAULT_CONTROLLER_COUNT as int) =~= texts);
    }
    Ok(parsed)
}

/// A fault among the first texts is the fault of the whole list.
proof fn lemma_parse_fault_stays(texts: Seq<Seq<char>>, n: int)
    requires
        0 <= n <= texts.len(),
        parsed_controllers(texts.take(n)) is Err,
    ensures
        parsed_controllers(texts) == parsed_controllers(texts.take(n)),
    decreases texts.len() - n,
{
    if n < texts.len() {
        assert(texts.take(n + 1).drop_last() =~= texts.take(n));
        lemma_parse_fault_stays(texts, n + 1);
    } else {
        assert(texts.take(n) =~= texts);
    }
}

/// Gives a store the given writers, where it had none.
pub fn seed_controllers(state: &mut CanisterState, defaults: Vec<Principal>)
    ensures
        final(state)@ == old(state)@.seeded(defaults.deep_view()),
{
    let has_writers = match &state.controllers {
        Some(controllers) => controllers.len() > 0,
        None => false,
    };
    if !has_writers {
        state.controllers = Some(defaults);
    }
}

/// Whether a list of writers holds the given identities and nothing beside
/// them.
pub fn holds_only(controllers: &Vec<Principal>, defaults: &Vec<Principal>) -> (r: bool)
    ensures
        r == only_defaults(controllers.deep_view(), defaults.deep_view()),
{
    if controllers.len() != defaults.len() {
        return false;
    }
    let ghost wanted = defaults.deep_view();
    let n = defaults.len();
    let mut i: usize = 0;
    while i < n
        invariant
            i <= n,
            n == defaults.len(),
            wanted == defaults.deep_view(),
            controllers.len() == n,
            forall|k: int| 0 <= k < i ==> controllers.deep_view().contains(#[trigger] wanted[k]),
        decreases n - i,
    {
        proof {
            assert(wanted[i as int] == defaults[i as int]@);
        }
        if position_of(controllers, &defaults[i]).is_none() {
            return false;
        }
        i += 1;
    }
    true
}

/// Takes the list of writers from a store, where it holds the given ones
/// and nothing beside them.
pub fn unseed_controllers(state: &mut CanisterState, defaults: Vec<Principal>)
    ensures
        final(state)@ == old(state)@.unseeded(defaults.deep_view()),
{
    let only = match &state.controllers {
        Some(controllers) => holds_only(controllers, &defaults),
        None => false,
    };
    if only {
        state.controllers = None;
    }
}

impl Migration for AddDefaultControllersMigration {
    open spec fn version_spec(&self) -> u64 {
        1002
    }

    open spec fn description_spec(&self) -> Seq<char> {
        "Add default controllers to the canister if not already set"@
    }

    open spec fn up_result(&self, before: CanisterStateView) -> CanisterStateView {
        match parsed_controllers(default_controller_texts()) {
            Ok(defaults) => before.seeded(defaults),
            Err(_) => before,
        }
    }

    open spec fn up_fault(&self, before: CanisterStateView) -> Option<Seq<char>> {
        match parsed_controllers(default_controller_texts()) {
            Ok(_) => None,
            Err(fault) => Some(fault),
        }
    }

    open spec fn down_result(&self, before: CanisterStateView) -> CanisterStateView {
        match parsed_controllers(default_controller_texts()) {
            Ok(defaults) => before.unseeded(defaults),
            Err(_) => before,
        }
    }

    open spec fn down_fault(&self, before: CanisterStateView) -> Option<Seq<char>> {
        match parsed_controllers(default_controller_texts()) {
            Ok(_) => None,
            Err(fault) => Some(fault),
        }
    }

    open spec fn validation_fault(&self, state: CanisterStateView) -> Option<Seq<char>> {
        state.controllers_fault()
    }

    fn version(&self) -> (v: u64) {
        1002
    }

    fn description(&self) -> (d: &str) {
        "Add default controllers to the canister if not already set"
    }

    /// Gives the store the default writers, where it has no list of
    /// writers or an empty one. It fails, and changes nothing, where a
    /// default writer cannot be read.
    fn migrate_up(&self, state: &mut CanisterState) -> (r: Result<(), String>) {
        match parse_default_controllers() {
            Ok(defaults) => {
                seed_controllers(state, defaults);
                Ok(())
            },
            Err(fault) => Err(fault),
        }
    }

    /// Takes the list of writers away, where it still holds the default
    /// writers and nothing beside them.
    fn migrate_down(&self, state: &mut CanisterState) -> (r: Result<(), String>) {
        match parse_default_controllers() {
            Ok(defaults) => {
                unseed_controllers(state, defaults);
                Ok(())
            },
            Err(fault) => Err(fault),
        }
    }

    /// Refuses a store without a list of writers, and one whose list holds
    /// the anonymous identity.
    fn validate(&self, state: &CanisterState) -> (r: Result<(), String>) {
        match &state.controllers {
            None => Err(
                text_of(
                    "Validation failed: controllers field should be initialized after migration",
                ),
            ),
            Some(controllers) => {
                let anonymous = Principal::anonymous();
                match position_of(controllers, &anonymous) {
                    Some(position) => {
                        let mut fault = text_of("Validation failed: controller at index ");
                        fault.append(decimal_text(position as u64).as_str());
                        fault.append(" is anonymous principal");
                        Err(fault)
                    },
                    None => Ok(()),
                }
            },
        }
    }
}

} // verus!
