use crate::models::booking_details::{Booking, BookingId, BookingIdView, BookingView};
use crate::models::payment_details::{PaymentDetails, PaymentDetailsView};
use crate::booking_order::{
    lemma_bookings_upto, lemma_held_has_position, lemma_position_is_held, lemma_positions_in_order,
    stands_among, stands_under, views_of,
};
use crate::models::{CanisterState, CanisterStateView, Slot};
use crate::ordered_map::OrderedMap;
use crate::text::{join3, same_text, text_of};
use vstd::prelude::*;

verus! {

/// The text that says that a payment reference belongs to another booking.
pub open spec fn reference_taken_message(reference: Seq<char>) -> Seq<char> {
    "payment_id_v2 '"@ + reference + "' is already used by other booking"@
}

/// The index after a booking has changed its payment reference from
/// `old_reference` to `new_reference`: the old reference leaves, where there
/// was one and it differs, and the new one points to the booking.
pub open spec fn reindexed(
    index: Map<Seq<char>, BookingIdView>,
    old_reference: Seq<char>,
    new_reference: Seq<char>,
    id: BookingIdView,
) -> Map<Seq<char>, BookingIdView> {
    (if old_reference.len() > 0 && old_reference != new_reference {
        index.remove(old_reference)
    } else {
        index
    }).insert(new_reference, id)
}

impl CanisterStateView {
    /// The index from payment reference to booking; empty where the store
    /// has none.
    pub open spec fn index_or_empty(self) -> Map<Seq<char>, BookingIdView> {
        match self.payment_id_index {
            Some(index) => index,
            None => Map::empty(),
        }
    }

    /// Why new payment details are refused for a booking, where they are:
    /// an empty payment reference, a reference that belongs to another
    /// booking, no such user, or no such booking.
    pub open spec fn payment_fault(self, id: BookingIdView, payment: PaymentDetailsView) -> Option<
        Seq<char>,
    > {
        let reference = payment.payment_api_response.payment_id_v2;
        if reference.len() == 0 {
            Some("payment_id_v2 cannot be empty"@)
        } else if self.index_or_empty().dom().contains(reference) && self.index_or_empty()[reference]
            != id {
            Some(reference_taken_message(reference))
        } else {
            self.lookup_fault(id)
        }
    }

    /// The store after a booking has taken new payment details: the
    /// booking holds them, with the status that follows from them, and the
    /// index points from their reference to the booking.
    pub open spec fn with_payment(self, id: BookingIdView, payment: PaymentDetailsView) -> Self {
        let booking = self.users[id.email].bookings[id];
        CanisterStateView {
            payment_id_index: Some(
                reindexed(
                    self.index_or_empty(),
                    booking.payment_reference(),
                    payment.payment_api_response.payment_id_v2,
                    id,
                ),
            ),
            ..self.with_booking(id, booking.with_payment(payment))
        }
    }

    /// The user with the given e-mail holds a booking under the given
    /// identifier.
    pub open spec fn holds(self, email: Seq<char>, id: BookingIdView) -> bool {
        self.users.dom().contains(email) && self.users[email].bookings.dom().contains(id)
    }

    /// Every booking stands with the user of its identifier's e-mail,
    /// under its own identifier.
    pub open spec fn well_keyed(self) -> bool {
        forall|email: Seq<char>, id: BookingIdView| #[trigger]
            self.holds(email, id) ==> id.email == email
                && self.users[email].bookings[id].booking_id == id
    }

    /// The index agrees with the bookings: the store has an index; every
    /// booking stands under its own identifier; each booking with a
    /// payment reference is found under that reference; and each entry of
    /// the index leads to a booking with that reference.
    pub open spec fn index_consistent(self) -> bool {
        &&& self.payment_id_index is Some
        &&& self.well_keyed()
        &&& forall|email: Seq<char>, id: BookingIdView| #[trigger]
            self.holds(email, id) && self.users[email].bookings[id].payment_reference().len() > 0
                ==> self.index_or_empty().dom().contains(
                self.users[email].bookings[id].payment_reference(),
            ) && self.index_or_empty()[self.users[email].bookings[id].payment_reference()] == id
        &&& forall|reference: Seq<char>| #[trigger]
            self.index_or_empty().dom().contains(reference) ==> reference.len() > 0 && self.holds(
                self.index_or_empty()[reference].email,
                self.index_or_empty()[reference],
            ) && self.booking_of(self.index_or_empty()[reference])->0.payment_reference()
                == reference
    }
}

/// New payment details that are accepted keep the index in agreement with
/// the bookings.
pub proof fn lemma_payment_keeps_index_consistent(
    state: CanisterStateView,
    id: BookingIdView,
    payment: PaymentDetailsView,
)
    requires
        state.index_consistent(),
        state.payment_fault(id, payment) is None,
    ensures
        state.with_payment(id, payment).index_consistent(),
{
    let after = state.with_payment(id, payment);
    let new_reference = payment.payment_api_response.payment_id_v2;
    let booking = state.users[id.email].bookings[id];
    let old_reference = booking.payment_reference();
    let index = state.index_or_empty();
    let new_index = after.index_or_empty();
    assert(state.holds(id.email, id));
    assert forall|email: Seq<char>, other: BookingIdView| #[trigger]
        after.holds(email, other) implies state.holds(email, other) && (other != id
        ==> after.users[email].bookings[other] == state.users[email].bookings[other]) && (other
        == id ==> after.users[email].bookings[other] == booking.with_payment(payment)) by {
        if email == id.email {
            assert(after.users[email].bookings == state.users[email].bookings.insert(
                id,
                booking.with_payment(payment),
            ));
        }
    }
    assert forall|email: Seq<char>, other: BookingIdView| #[trigger]
        after.holds(email, other) && after.users[email].bookings[other].payment_reference().len()
            > 0 implies new_index.dom().contains(
        after.users[email].bookings[other].payment_reference(),
    ) && new_index[after.users[email].bookings[other].payment_reference()] == other by {
        assert(state.holds(email, other));
        if other != id {
            let reference = state.users[email].bookings[other].payment_reference();
            assert(index[reference] == other);
            if reference == old_reference && old_reference.len() > 0 {
                assert(index[old_reference] == id);
            }
        }
    }
    assert forall|reference: Seq<char>| #[trigger]
        new_index.dom().contains(reference) implies reference.len() > 0 && after.holds(
        new_index[reference].email,
        new_index[reference],
    ) && after.booking_of(new_index[reference])->0.payment_reference() == reference by {
        if reference != new_reference {
            assert(index.dom().contains(reference));
            let target = index[reference];
            assert(state.holds(target.email, target));
            if target == id {
                assert(old_reference == reference);
            }
            assert(after.holds(target.email, target));
        } else {
            assert(after.holds(id.email, id));
        }
    }
    assert forall|email: Seq<char>, other: BookingIdView| #[trigger]
        after.holds(email, other) implies other.email == email
        && after.users[email].bookings[other].booking_id == other by {
        assert(state.holds(email, other));
    }
}

/// A store that differs from one whose index agrees with the bookings
/// only in what its bookings hold beside identifier and payment reference
/// has an index that agrees with the bookings too.
pub proof fn lemma_same_references_keep_index_consistent(
    before: CanisterStateView,
    after: CanisterStateView,
)
    requires
        before.index_consistent(),
        after.payment_id_index == before.payment_id_index,
        forall|email: Seq<char>, id: BookingIdView|
            before.holds(email, id) <==> #[trigger] after.holds(email, id),
        forall|email: Seq<char>, id: BookingIdView| #[trigger]
            after.holds(email, id) ==> after.users[email].bookings[id].booking_id
                == before.users[email].bookings[id].booking_id
                && after.users[email].bookings[id].payment_reference()
                == before.users[email].bookings[id].payment_reference(),
    ensures
        after.index_consistent(),
{
    assert forall|email: Seq<char>, id: BookingIdView| #[trigger]
        after.holds(email, id) implies id.email == email
        && after.users[email].bookings[id].booking_id == id by {
        assert(before.holds(email, id));
    }
    assert forall|email: Seq<char>, id: BookingIdView| #[trigger]
        after.holds(email, id) && after.users[email].bookings[id].payment_reference().len()
            > 0 implies after.index_or_empty().dom().contains(
        after.users[email].bookings[id].payment_reference(),
    ) && after.index_or_empty()[after.users[email].bookings[id].payment_reference()] == id by {
        assert(before.holds(email, id));
    }
    assert forall|reference: Seq<char>| #[trigger]
        after.index_or_empty().dom().contains(reference) implies reference.len() > 0
        && after.holds(after.index_or_empty()[reference].email, after.index_or_empty()[reference])
        && after.booking_of(after.index_or_empty()[reference])->0.payment_reference()
        == reference by {
        let target = before.index_or_empty()[reference];
        assert(before.holds(target.email, target));
        assert(after.holds(target.email, target));
    }
}

/// A booking that changes in what it holds beside identifier and payment
/// reference leaves the index in agreement with the bookings.
pub proof fn lemma_changed_booking_keeps_index_consistent(
    before: CanisterStateView,
    id: BookingIdView,
    booking: BookingView,
)
    requires
        before.index_consistent(),
        before.holds(id.email, id),
        booking.booking_id == before.users[id.email].bookings[id].booking_id,
        booking.payment_reference() == before.users[id.email].bookings[id].payment_reference(),
    ensures
        before.with_booking(id, booking).index_consistent(),
{
    let after = before.with_booking(id, booking);
    assert forall|email: Seq<char>, other: BookingIdView|
        before.holds(email, other) <==> #[trigger] after.holds(email, other) by {
        if email == id.email {
            assert(after.users[email].bookings == before.users[email].bookings.insert(
                id,
                booking,
            ));
        }
    }
    assert forall|email: Seq<char>, other: BookingIdView| #[trigger]
        after.holds(email, other) implies after.users[email].bookings[other].booking_id
        == before.users[email].bookings[other].booking_id
        && after.users[email].bookings[other].payment_reference()
        == before.users[email].bookings[other].payment_reference() by {
        if email == id.email {
            assert(after.users[email].bookings == before.users[email].bookings.insert(
                id,
                booking,
            ));
        }
    }
    lemma_same_references_keep_index_consistent(before, after);
}

/// A booking without a payment reference that is added under its own
/// identifier, with the user of the identifier's e-mail, leaves the index
/// in agreement with the bookings.
pub proof fn lemma_added_booking_keeps_index_consistent(
    before: CanisterStateView,
    booking: BookingView,
)
    requires
        before.index_consistent(),
        booking.payment_reference().len() == 0,
        !before.holds(booking.booking_id.email, booking.booking_id),
    ensures
        (CanisterStateView {
            users: before.users.insert(
                booking.booking_id.email,
                before.user_or_empty(booking.booking_id.email).with_booking(
                    booking.booking_id,
                    booking,
                ),
            ),
            ..before
        }).index_consistent(),
{
    let email = booking.booking_id.email;
    let id = booking.booking_id;
    let after = CanisterStateView {
        users: before.users.insert(email, before.user_or_empty(email).with_booking(id, booking)),
        ..before
    };
    assert forall|e: Seq<char>, other: BookingIdView| #[trigger] after.holds(e, other) implies (e
        == email && other == id && after.users[e].bookings[other] == booking) || (before.holds(
        e,
        other,
    ) && after.users[e].bookings[other] == before.users[e].bookings[other]) by {
        if e == email {
            assert(after.users[e].bookings == before.user_or_empty(email).bookings.insert(
                id,
                booking,
            ));
        }
    }
    assert forall|reference: Seq<char>| #[trigger]
        after.index_or_empty().dom().contains(reference) implies reference.len() > 0
        && after.holds(after.index_or_empty()[reference].email, after.index_or_empty()[reference])
        && after.booking_of(after.index_or_empty()[reference])->0.payment_reference()
        == reference by {
        let target = before.index_or_empty()[reference];
        assert(before.holds(target.email, target));
        assert(after.holds(target.email, target));
    }
    assert forall|e: Seq<char>, other: BookingIdView| #[trigger] after.holds(e, other) implies other.email
        == e && after.users[e].bookings[other].booking_id == other by {
        if !(e == email && other == id) {
            assert(before.holds(e, other));
        }
    }
    assert forall|e: Seq<char>, other: BookingIdView| #[trigger]
        after.holds(e, other) && after.users[e].bookings[other].payment_reference().len()
            > 0 implies after.index_or_empty().dom().contains(
        after.users[e].bookings[other].payment_reference(),
    ) && after.index_or_empty()[after.users[e].bookings[other].payment_reference()]
        == other by {
        if !(e == email && other == id) {
            assert(before.holds(e, other));
        }
    }
}

/// Where the index agrees with the bookings, no two bookings have the same
/// payment reference.
pub proof fn lemma_consistent_references_unique(
    state: CanisterStateView,
    first_email: Seq<char>,
    first: BookingIdView,
    second_email: Seq<char>,
    second: BookingIdView,
)
    requires
        state.index_consistent(),
        state.holds(first_email, first),
        state.holds(second_email, second),
        state.users[first_email].bookings[first].payment_reference().len() > 0,
        state.users[first_email].bookings[first].payment_reference()
            == state.users[second_email].bookings[second].payment_reference(),
    ensures
        first == second,
        first_email == second_email,
{
}

impl CanisterState {
    /// Gives a booking new payment details. They are refused where their
    /// payment reference is empty or belongs to another booking, and where
    /// the store has no such booking; nothing changes then. Otherwise the
    /// booking holds them, with the payment status that follows from the
    /// gateway's answer, the index points from their reference to the
    /// booking, and the booking's former reference leaves the index.
    pub fn update_payment_details(&mut self, booking_id: BookingId, payment_details: PaymentDetails) -> (r:
        Result<Booking, String>)
        ensures
            match r {
                Ok(booking) => old(self)@.payment_fault(booking_id@, payment_details@) is None
                    && final(self)@ == old(self)@.with_payment(booking_id@, payment_details@)
                    && booking@ == old(self)@.users[booking_id@.email].bookings[booking_id@].with_payment(
                    payment_details@,
                ),
                Err(e) => old(self)@.payment_fault(booking_id@, payment_details@) == Some(e@)
                    && final(self)@ == old(self)@,
            },
            old(self)@.index_consistent() ==> final(self)@.index_consistent(),
    {
        let new_reference = payment_details.payment_api_response.payment_id_v2.clone();
        if new_reference.as_str().is_empty() {
            return Err(text_of("payment_id_v2 cannot be empty"));
        }
        match &self.payment_id_index {
            Some(index) => {
                match index.get(&new_reference) {
                    Some(owner) => {
                        if !(*owner == booking_id) {
                            return Err(
                                join3(
                                    "payment_id_v2 '",
                                    new_reference.as_str(),
                                    "' is already used by other booking",
                                ),
                            );
                        }
                    },
                    None => {},
                }
            },
            None => {},
        }
        let (i, j) = match self.locate(&booking_id) {
            Slot::NoUser => {
                return Err(
                    join3("User with email '", booking_id.get_user_email(), "' not found"),
                );
            },
            Slot::NoBooking => {
                return Err(
                    join3(
                        "Booking with app_reference '",
                        booking_id.get_app_reference(),
                        "' not found",
                    ),
                );
            },
            Slot::At(i, j) => (i, j),
        };
        let mut booking = self.exchange_booking(i, j, Booking::default());
        let old_reference = booking.payment_details.payment_api_response.payment_id_v2.clone();
        booking.update_payment_details_with_api_response(payment_details);
        let result = booking.clone();
        self.exchange_booking(i, j, booking);
        let mut index = match self.payment_id_index.take() {
            Some(index) => index,
            None => OrderedMap::new(),
        };
        let ghost index_before = index@.map_values(|id: BookingId| id@);
        if !old_reference.as_str().is_empty() && !same_text(
            old_reference.as_str(),
            new_reference.as_str(),
        ) {
            index.remove(&old_reference);
        }
        let ghost index_between = index@.map_values(|id: BookingId| id@);
        index.insert(new_reference, booking_id);
        proof {
            let email = booking_id@.email;
            let id = booking_id@;
            let u0 = old(self)@.users[email];
            let b1 = u0.bookings[id].with_payment(payment_details@);
            assert(u0.bookings.insert(id, BookingView::empty()).insert(id, b1)
                =~= u0.bookings.insert(id, b1));
            assert(u0.with_booking(id, BookingView::empty()).with_booking(id, b1)
                == u0.with_booking(id, b1));
            assert(index_before =~= old(self)@.index_or_empty());
            if old_reference@.len() > 0 && old_reference@ != new_reference@ {
                assert(index_between =~= index_before.remove(old_reference@));
            } else {
                assert(index_between =~= index_before);
            }
            assert(index@.map_values(|id: BookingId| id@) =~= index_between.insert(
                new_reference@,
                id,
            ));
        }
        self.payment_id_index = Some(index);
        proof {
            let email = booking_id@.email;
            let id = booking_id@;
            let u0 = old(self)@.users[email];
            let b1 = u0.bookings[id].with_payment(payment_details@);
            assert(self@.users =~= old(self)@.users.insert(email, u0.with_booking(id, b1)));
            assert(self@ == old(self)@.with_payment(id, payment_details@));
            if old(self)@.index_consistent() {
                lemma_payment_keeps_index_consistent(old(self)@, id, payment_details@);
            }
        }
        Ok(result)
    }
}

/// The index after the payment references of `bookings` have been noted
/// in it, one booking after the other: a booking without a reference is
/// passed over, and a later booking takes a reference from an earlier one.
pub open spec fn indexed(index: Map<Seq<char>, BookingIdView>, bookings: Seq<BookingView>) -> Map<
    Seq<char>,
    BookingIdView,
>
    decreases bookings.len(),
{
    if bookings.len() == 0 {
        index
    } else {
        let rest = indexed(index, bookings.drop_last());
        let booking = bookings.last();
        if booking.payment_reference().len() > 0 {
            rest.insert(booking.payment_reference(), booking.booking_id)
        } else {
            rest
        }
    }
}

/// Noting two runs of bookings one after the other is noting them as one
/// run.
pub proof fn lemma_indexed_concat(
    index: Map<Seq<char>, BookingIdView>,
    first: Seq<BookingView>,
    second: Seq<BookingView>,
)
    ensures
        indexed(index, first + second) == indexed(indexed(index, first), second),
    decreases second.len(),
{
    if second.len() == 0 {
        assert(first + second =~= first);
    } else {
        assert((first + second).drop_last() =~= first + second.drop_last());
        lemma_indexed_concat(index, first, second.drop_last());
    }
}

impl CanisterStateView {
    /// No two bookings have the same payment reference.
    pub open spec fn references_unique(self) -> bool {
        forall|first_email: Seq<char>, first: BookingIdView, second_email: Seq<char>, second: BookingIdView|
            #![trigger self.holds(first_email, first), self.holds(second_email, second)]
            self.holds(first_email, first) && self.holds(second_email, second)
                && self.users[first_email].bookings[first].payment_reference().len() > 0
                && self.users[first_email].bookings[first].payment_reference()
                == self.users[second_email].bookings[second].payment_reference() ==> first
                == second && first_email == second_email
    }
}

/// Bookings with the same payment reference have the same identifier.
pub open spec fn one_owner_each(bookings: Seq<BookingView>) -> bool {
    forall|a: int, b: int|
        0 <= a < bookings.len() && 0 <= b < bookings.len() && (
        #[trigger] bookings[a]).payment_reference().len() > 0 && bookings[a].payment_reference()
            == (#[trigger] bookings[b]).payment_reference() ==> bookings[a].booking_id
            == bookings[b].booking_id
}

/// An index built from bookings of which no two with different
/// identifiers share a payment reference holds exactly the references of
/// the bookings, each with the identifier of its booking.
pub proof fn lemma_indexed_entries(bookings: Seq<BookingView>)
    requires
        one_owner_each(bookings),
    ensures
        forall|k: int|
            0 <= k < bookings.len() && (#[trigger] bookings[k]).payment_reference().len() > 0
                ==> indexed(Map::empty(), bookings).dom().contains(
                bookings[k].payment_reference(),
            ) && indexed(Map::empty(), bookings)[bookings[k].payment_reference()]
                == bookings[k].booking_id,
        forall|reference: Seq<char>| #[trigger]
            indexed(Map::empty(), bookings).dom().contains(reference) ==> reference.len() > 0
                && exists|k: int|
                0 <= k < bookings.len() && (#[trigger] bookings[k]).payment_reference()
                    == reference,
    decreases bookings.len(),
{
    if bookings.len() > 0 {
        let rest = bookings.drop_last();
        let last = bookings.last();
        assert forall|a: int, b: int|
            0 <= a < rest.len() && 0 <= b < rest.len() && (
            #[trigger] rest[a]).payment_reference().len() > 0 && rest[a].payment_reference() == (
            #[trigger] rest[b]).payment_reference() implies rest[a].booking_id
            == rest[b].booking_id by {
            assert(rest[a] == bookings[a] && rest[b] == bookings[b]);
        }
        lemma_indexed_entries(rest);
        let built = indexed(Map::empty(), bookings);
        let before = indexed(Map::empty(), rest);
        assert forall|k: int|
            0 <= k < bookings.len() && (#[trigger] bookings[k]).payment_reference().len()
                > 0 implies built.dom().contains(bookings[k].payment_reference())
            && built[bookings[k].payment_reference()] == bookings[k].booking_id by {
            if k < rest.len() {
                assert(rest[k] == bookings[k]);
                assert(bookings[bookings.len() - 1] == last);
            }
        }
        assert forall|reference: Seq<char>| #[trigger]
            built.dom().contains(reference) implies reference.len() > 0 && exists|k: int|
            0 <= k < bookings.len() && (#[trigger] bookings[k]).payment_reference()
                == reference by {
            if before.dom().contains(reference) {
                let k = choose|k: int|
                    0 <= k < rest.len() && (#[trigger] rest[k]).payment_reference() == reference;
                assert(bookings[k].payment_reference() == reference);
            } else {
                assert(bookings[bookings.len() - 1].payment_reference() == reference);
            }
        }
    }
}

/// In a store where no two bookings have the same payment reference, the
/// run of all bookings has one identifier for each reference.
proof fn lemma_all_bookings_one_owner(state: CanisterState)
    requires
        state.maps_in_order(),
        state@.references_unique(),
        state@.well_keyed(),
    ensures
        one_owner_each(state.all_bookings()),
{
    let view = state@;
    let all = state.all_bookings();
    let n = state.users.value_seq().len() as int;
    state.users.lemma_entries();
    lemma_bookings_upto(state, n);
    assert forall|a: int, b: int|
        0 <= a < all.len() && 0 <= b < all.len() && (#[trigger] all[a]).payment_reference().len()
            > 0 && all[a].payment_reference() == (
        #[trigger] all[b]).payment_reference() implies all[a].booking_id
        == all[b].booking_id by {
        assert(stands_among(state, n, all[a]) && stands_among(state, n, all[b]));
        let (i1, j1) = choose|i: int, j: int|
            #![trigger state.booking_at(i, j)]
            state.in_range(i, j) && i < n && state.booking_at(i, j) == all[a];
        let (i2, j2) = choose|i: int, j: int|
            #![trigger state.booking_at(i, j)]
            state.in_range(i, j) && i < n && state.booking_at(i, j) == all[b];
        lemma_position_is_held(state, i1, j1);
        lemma_position_is_held(state, i2, j2);
        let e1 = state.users.key_seq()[i1];
        let d1 = state.booking_ids_at(i1)[j1];
        let e2 = state.users.key_seq()[i2];
        let d2 = state.booking_ids_at(i2)[j2];
        assert(view.holds(e1, d1) && view.holds(e2, d2));
        assert(d1 == d2);
    }
}

/// Where every booking stands under its own identifier and no two
/// bookings have the same payment reference, the index built from all
/// bookings agrees with them.
pub proof fn lemma_built_index_is_consistent(state: CanisterState)
    requires
        state.maps_in_order(),
        state@.well_keyed(),
        state@.references_unique(),
    ensures
        (CanisterStateView {
            payment_id_index: Some(indexed(Map::empty(), state.all_bookings())),
            ..state@
        }).index_consistent(),
{
    let view = state@;
    let all = state.all_bookings();
    let n = state.users.value_seq().len() as int;
    state.users.lemma_entries();
    lemma_bookings_upto(state, n);
    lemma_all_bookings_one_owner(state);
    lemma_indexed_entries(all);
    let built = indexed(Map::empty(), all);
    let after = CanisterStateView { payment_id_index: Some(built), ..view };
    assert(after.users == view.users);
    assert(after.index_or_empty() == built);
    assert forall|email: Seq<char>, id: BookingIdView| #[trigger]
        after.holds(email, id) && after.users[email].bookings[id].payment_reference().len()
            > 0 implies built.dom().contains(after.users[email].bookings[id].payment_reference())
        && built[after.users[email].bookings[id].payment_reference()] == id by {
        assert(view.holds(email, id));
        lemma_held_has_position(state, email, id);
        assert(stands_under(state, email, id));
        let (i, j) = choose|i: int, j: int|
            #![trigger state.in_range(i, j)]
            state.in_range(i, j) && state.users.key_seq()[i] == email
                && state.booking_ids_at(i)[j] == id;
        lemma_position_is_held(state, i, j);
        assert(state.in_range(i, j) && i < n);
        assert(all.contains(state.booking_at(i, j)));
        let k = choose|k: int| 0 <= k < all.len() && all[k] == state.booking_at(i, j);
        assert(all[k] == view.users[email].bookings[id]);
        assert(all[k].payment_reference().len() > 0);
    }
    assert forall|reference: Seq<char>| #[trigger]
        built.dom().contains(reference) implies reference.len() > 0 && after.holds(
        built[reference].email,
        built[reference],
    ) && after.booking_of(built[reference])->0.payment_reference() == reference by {
        let k = choose|k: int|
            0 <= k < all.len() && (#[trigger] all[k]).payment_reference() == reference;
        assert(stands_among(state, n, all[k]));
        let (i, j) = choose|i: int, j: int|
            #![trigger state.booking_at(i, j)]
            state.in_range(i, j) && i < n && state.booking_at(i, j) == all[k];
        lemma_position_is_held(state, i, j);
        let email = state.users.key_seq()[i];
        let id = state.booking_ids_at(i)[j];
        assert(view.holds(email, id));
        assert(view.users[email].bookings[id] == all[k]);
        assert(built[reference] == all[k].booking_id);
        assert(id.email == email && all[k].booking_id == id);
    }
    assert forall|email: Seq<char>, id: BookingIdView| #[trigger]
        after.holds(email, id) implies id.email == email
        && after.users[email].bookings[id].booking_id == id by {
        assert(view.holds(email, id));
    }
}

/// Builds the index from payment reference to booking where the store has
/// none or an empty one: every booking with a payment reference is noted
/// under it. An index that holds an entry is left as it is.
pub fn rebuild_payment_id_index(state: &mut CanisterState)
    ensures
        old(state)@.index_or_empty() != Map::<Seq<char>, BookingIdView>::empty() ==> final(state)@
            == old(state)@,
        old(state)@.index_or_empty() == Map::<Seq<char>, BookingIdView>::empty() ==> final(state)@
            == (CanisterStateView {
            payment_id_index: Some(indexed(Map::empty(), old(state)@.all_bookings())),
            ..old(state)@
        }),
        old(state)@.index_or_empty() == Map::<Seq<char>, BookingIdView>::empty() && old(state)@.well_keyed() && old(state)@.references_unique() ==> final(state)@.index_consistent(),
{
    match &state.payment_id_index {
        Some(index) => {
            if !index.is_empty() {
                proof {
                    use_type_invariant(index);
                    index.lemma_entries();
                    let view = index@.map_values(|id: BookingId| id@);
                    assert(view.dom().contains(index.key_seq()[0]));
                }
                return ;
            }
            proof {
                assert(index@.map_values(|id: BookingId| id@) =~= Map::empty());
            }
        },
        None => {},
    }
    proof {
        assert(old(state)@.index_or_empty() =~= Map::empty());
    }
    let mut index: OrderedMap<String, BookingId> = OrderedMap::new();
    let n = state.users.len();
    let mut i: usize = 0;
    proof {
        assert(index@.map_values(|id: BookingId| id@) =~= Map::empty());
    }
    while i < n
        invariant
            i <= n,
            n == state.users.key_seq().len(),
            n == state.users.value_seq().len(),
            forall|k: int|
                0 <= k < i ==> (#[trigger] state.users.value_seq()[k]).bookings.wf(),
            index@.map_values(|id: BookingId| id@) == indexed(
                Map::empty(),
                state.bookings_upto(i as int),
            ),
        decreases n - i,
    {
        let user = state.users.value_at(i);
        proof {
            use_type_invariant(&user.bookings);
        }
        let m = user.bookings.len();
        let ghost row = views_of(user.bookings.value_seq());
        let ghost done = state.bookings_upto(i as int);
        let mut j: usize = 0;
        proof {
            assert(done + row.take(0) =~= done);
        }
        while j < m
            invariant
                j <= m,
                m == user.bookings.value_seq().len(),
                m == user.bookings.key_seq().len(),
                row == views_of(user.bookings.value_seq()),
                index@.map_values(|id: BookingId| id@) == indexed(
                    Map::empty(),
                    done + row.take(j as int),
                ),
            decreases m - j,
        {
            let booking = user.bookings.value_at(j);
            let reference = &booking.payment_details.payment_api_response.payment_id_v2;
            let ghost before = index@.map_values(|id: BookingId| id@);
            if !reference.as_str().is_empty() {
                index.insert(reference.clone(), booking.booking_id.clone());
            }
            proof {
                let next = done + row.take(j + 1);
                assert(next.drop_last() =~= done + row.take(j as int));
                assert(next.last() == booking@);
                if reference@.len() > 0 {
                    assert(index@.map_values(|id: BookingId| id@) =~= before.insert(
                        reference@,
                        booking@.booking_id,
                    ));
                }
            }
            j += 1;
        }
        proof {
            assert(row.take(m as int) =~= row);
        }
        i += 1;
    }
    proof {
        use_type_invariant(&state.users);
        lemma_positions_in_order(*state);
        if state@.well_keyed() && state@.references_unique() {
            lemma_built_index_is_consistent(*state);
        }
    }
    state.payment_id_index = Some(index);
}

} // verus!
