use crate::models::booking_details::{
    Booking, BookingId, BookingIdView, BookingSummaryView, BookingView,
};
use crate::models::user_details::UserInfoAndBookingsView;
use crate::models::{summaries_of, CanisterState, CanisterStateView};
use crate::ordered_map::ascending_keys;
use vstd::prelude::*;

verus! {

/// The views of a run of bookings.
pub open spec fn views_of(bookings: Seq<Booking>) -> Seq<BookingView> {
    bookings.map_values(|b: Booking| b@)
}

impl CanisterState {
    /// The bookings of the first `n` users, user by user.
    pub open spec fn bookings_upto(&self, n: int) -> Seq<BookingView>
        decreases n,
    {
        if n <= 0 {
            Seq::empty()
        } else {
            self.bookings_upto(n - 1) + views_of(self.bookings_at(n - 1))
        }
    }

    /// All bookings: user by user in the order of their e-mails, and for
    /// each user in the order of the identifiers.
    pub open spec fn all_bookings(&self) -> Seq<BookingView> {
        self.bookings_upto(self.users.key_seq().len() as int)
    }
}

impl CanisterState {
    /// The maps of the store are in order.
    pub open spec fn maps_in_order(&self) -> bool {
        &&& self.users.wf()
        &&& forall|i: int|
            0 <= i < self.users.value_seq().len() ==> (
            #[trigger] self.users.value_seq()[i]).bookings.wf()
    }

    /// The booking at position `j` of the user at position `i`.
    pub open spec fn booking_at(&self, i: int, j: int) -> BookingView {
        self.bookings_at(i)[j]@
    }

    /// Whether `i` and `j` are the positions of a booking.
    pub open spec fn in_range(&self, i: int, j: int) -> bool {
        0 <= i < self.users.value_seq().len() && 0 <= j < self.bookings_at(i).len()
    }
}

/// Whether a booking stands at a position of one of the first `n` users.
pub open spec fn stands_among(state: CanisterState, n: int, booking: BookingView) -> bool {
    exists|i: int, j: int|
        #![trigger state.booking_at(i, j)]
        state.in_range(i, j) && i < n && state.booking_at(i, j) == booking
}

/// The bookings of the first `n` users are exactly those at the positions
/// of these users.
pub proof fn lemma_bookings_upto(state: CanisterState, n: int)
    requires
        0 <= n <= state.users.value_seq().len(),
    ensures
        forall|k: int|
            0 <= k < state.bookings_upto(n).len() ==> stands_among(
                state,
                n,
                #[trigger] state.bookings_upto(n)[k],
            ),
        forall|i: int, j: int|
            #![trigger state.booking_at(i, j)]
            state.in_range(i, j) && i < n ==> state.bookings_upto(n).contains(
                state.booking_at(i, j),
            ),
    decreases n,
{
    if n > 0 {
        lemma_bookings_upto(state, n - 1);
        let before = state.bookings_upto(n - 1);
        let row = views_of(state.bookings_at(n - 1));
        let all = state.bookings_upto(n);
        assert(all == before + row);
        assert forall|k: int| 0 <= k < all.len() implies stands_among(
            state,
            n,
            #[trigger] all[k],
        ) by {
            if k < before.len() {
                assert(all[k] == before[k]);
                assert(stands_among(state, n - 1, before[k]));
                let (i, j) = choose|i: int, j: int|
                    #![trigger state.booking_at(i, j)]
                    state.in_range(i, j) && i < n - 1 && state.booking_at(i, j) == before[k];
                assert(state.in_range(i, j) && i < n && state.booking_at(i, j) == all[k]);
            } else {
                let j = k - before.len();
                assert(all[k] == row[j]);
                assert(state.in_range(n - 1, j) && state.booking_at(n - 1, j) == all[k]);
            }
        }
        assert forall|i: int, j: int|
            #![trigger state.booking_at(i, j)]
            state.in_range(i, j) && i < n implies all.contains(state.booking_at(i, j)) by {
            if i < n - 1 {
                let k = choose|k: int|
                    0 <= k < before.len() && before[k] == state.booking_at(i, j);
                assert(all[k] == state.booking_at(i, j));
            } else {
                assert(all[before.len() + j] == row[j]);
            }
        }
    }
}

/// Whether the user with the given e-mail holds a booking under the
/// given identifier at some position.
pub open spec fn stands_under(state: CanisterState, email: Seq<char>, id: BookingIdView) -> bool {
    exists|i: int, j: int|
        #![trigger state.in_range(i, j)]
        state.in_range(i, j) && state.users.key_seq()[i] == email && state.booking_ids_at(i)[j]
            == id
}

/// The booking at each position of a store whose maps are in order is
/// held by the user at that position, under the identifier at that
/// position.
pub proof fn lemma_position_is_held(state: CanisterState, i: int, j: int)
    requires
        state.maps_in_order(),
        state.in_range(i, j),
    ensures
        state@.holds(state.users.key_seq()[i], state.booking_ids_at(i)[j]),
        state@.users[state.users.key_seq()[i]].bookings[state.booking_ids_at(i)[j]]
            == state.booking_at(i, j),
{
    state.users.lemma_entries();
    let emails = state.users.key_seq();
    let user = state.users.value_seq()[i];
    assert(user.bookings.wf());
    user.bookings.lemma_entries();
    assert(state.users@[emails[i]] == user);
    assert(user.bookings@[user.bookings.key_seq()[j]] == user.bookings.value_seq()[j]);
}

/// Every booking that a user of a store holds stands at a position.
pub proof fn lemma_held_has_position(state: CanisterState, email: Seq<char>, id: BookingIdView)
    requires
        state.maps_in_order(),
        state@.holds(email, id),
    ensures
        stands_under(state, email, id),
{
    state.users.lemma_entries();
    let emails = state.users.key_seq();
    let i = emails.index_of(email);
    assert(emails[i] == email);
    let user = state.users.value_seq()[i];
    assert(state.users@[emails[i]] == user);
    assert(user.bookings.wf());
    user.bookings.lemma_entries();
    let j = user.bookings.key_seq().index_of(id);
    assert(user.bookings.key_seq()[j] == id);
    assert(state.in_range(i, j) && state.users.key_seq()[i] == email && state.booking_ids_at(
        i,
    )[j] == id);
}

/// The summaries of a run of bookings of the user with the given e-mail.
pub open spec fn summaries_in_order(email: Seq<char>, bookings: Seq<BookingView>) -> Seq<
    BookingSummaryView,
> {
    bookings.map_values(
        |b: BookingView|
            BookingSummaryView::of(
                email,
                b,
                b.user_selected_hotel_room_details.date_range.nights() as u32,
            ),
    )
}

impl UserInfoAndBookingsView {
    /// The bookings of the user, in ascending order of their identifiers.
    pub open spec fn bookings_in_order(self) -> Seq<BookingView> {
        ascending_keys::<BookingId>(self.bookings.dom()).map_values(
            |id: BookingIdView| self.bookings[id],
        )
    }
}

impl CanisterStateView {
    /// The bookings of the users with the given e-mails: user by user,
    /// and for each user in ascending order of the identifiers.
    pub open spec fn bookings_of_users(self, emails: Seq<Seq<char>>) -> Seq<BookingView>
        decreases emails.len(),
    {
        if emails.len() == 0 {
            Seq::empty()
        } else {
            self.bookings_of_users(emails.drop_last())
                + self.users[emails.last()].bookings_in_order()
        }
    }

    /// All bookings: user by user in ascending order of the e-mails, and
    /// for each user in ascending order of the identifiers.
    pub open spec fn all_bookings(self) -> Seq<BookingView> {
        self.bookings_of_users(ascending_keys::<String>(self.users.dom()))
    }

    /// The summaries of the bookings of the users with the given e-mails.
    pub open spec fn summaries_of_users(self, emails: Seq<Seq<char>>) -> Seq<BookingSummaryView>
        decreases emails.len(),
    {
        if emails.len() == 0 {
            Seq::empty()
        } else {
            self.summaries_of_users(emails.drop_last()) + summaries_in_order(
                emails.last(),
                self.users[emails.last()].bookings_in_order(),
            )
        }
    }

    /// The summaries of all bookings, in the order of `all_bookings`.
    pub open spec fn all_summaries(self) -> Seq<BookingSummaryView> {
        self.summaries_of_users(ascending_keys::<String>(self.users.dom()))
    }
}

/// The bookings at the positions of a user are the user's bookings in
/// ascending order of their identifiers.
pub proof fn lemma_row_in_order(state: CanisterState, i: int)
    requires
        state.maps_in_order(),
        0 <= i < state.users.value_seq().len(),
    ensures
        state@.users.dom().contains(state.users.key_seq()[i]),
        views_of(state.bookings_at(i)) == state@.users[state.users.key_seq()[i]].bookings_in_order(),
{
    state.users.lemma_entries();
    let user = state.users.value_seq()[i];
    assert(user.bookings.wf());
    user.bookings.lemma_entries();
    user.bookings.lemma_key_order();
    assert(state.users@[state.users.key_seq()[i]] == user);
    assert(user@.bookings.dom() =~= user.bookings@.dom());
    let ids = user.bookings.key_seq();
    let row = views_of(state.bookings_at(i));
    let wanted = user@.bookings_in_order();
    assert forall|j: int| 0 <= j < ids.len() implies row[j] == wanted[j] by {
        assert(user.bookings@[ids[j]] == user.bookings.value_seq()[j]);
    }
    assert(row =~= wanted);
}

/// The bookings and the summaries at the positions of the first `n` users
/// are those of these users, in the order of their e-mails.
pub proof fn lemma_rows_in_order(state: CanisterState, n: int)
    requires
        state.maps_in_order(),
        0 <= n <= state.users.value_seq().len(),
    ensures
        state.bookings_upto(n) == state@.bookings_of_users(state.users.key_seq().take(n)),
        state.summaries_upto(n) == state@.summaries_of_users(state.users.key_seq().take(n)),
    decreases n,
{
    state.users.lemma_entries();
    let emails = state.users.key_seq();
    if n > 0 {
        lemma_rows_in_order(state, n - 1);
        lemma_row_in_order(state, n - 1);
        assert(emails.take(n).drop_last() =~= emails.take(n - 1));
        assert(emails.take(n).last() == emails[n - 1]);
        let bookings = state.bookings_at(n - 1);
        assert(summaries_of(emails[n - 1], bookings) =~= summaries_in_order(
            emails[n - 1],
            views_of(bookings),
        ));
    } else {
        assert(emails.take(0) =~= Seq::empty());
    }
}

/// The bookings and the summaries at the positions of a store whose maps
/// are in order are those of the store, in ascending order of e-mails and
/// identifiers.
pub proof fn lemma_positions_in_order(state: CanisterState)
    requires
        state.maps_in_order(),
    ensures
        state.all_bookings() == state@.all_bookings(),
        state.all_summaries() == state@.all_summaries(),
{
    state.users.lemma_entries();
    state.users.lemma_key_order();
    let emails = state.users.key_seq();
    lemma_rows_in_order(state, emails.len() as int);
    assert(emails.take(emails.len() as int) =~= emails);
    assert(state@.users.dom() =~= state.users@.dom());
}

} // verus!
