use crate::migration::Migration;
use crate::models::booking_details::{Booking, BookingId, BookingIdView, BookingView};
use crate::models::payment_details::{BEPaymentApiResponseView, PaymentDetailsView};
use crate::models::user_details::{UserInfoAndBookings, UserInfoAndBookingsView};
use crate::models::{CanisterState, CanisterStateView};
use crate::ordered_map::ascending_keys;
use crate::text::{decimal_digits, decimal_text, text_of};
use vstd::prelude::*;
use vstd::string::StringExecFns;

verus! {

/// Fills the payment reference of every booking from its numeric payment
/// id of old.
pub struct AddPaymentIdV2Migration;

impl BookingView {
    /// The booking with another payment reference.
    pub open spec fn with_reference(self, reference: Seq<char>) -> BookingView {
        BookingView {
            payment_details: PaymentDetailsView {
                payment_api_response: BEPaymentApiResponseView {
                    payment_id_v2: reference,
                    ..self.payment_details.payment_api_response
                },
                ..self.payment_details
            },
            ..self
        }
    }

    /// The numeric payment id of old; zero where the booking has none.
    pub open spec fn legacy_payment_id(self) -> u64 {
        self.payment_details.payment_api_response.payment_id
    }

    /// The booking with its payment reference filled from the numeric
    /// id, where it has such an id and no reference yet.
    pub open spec fn backfilled(self) -> BookingView {
        if self.payment_reference().len() == 0 && self.legacy_payment_id() != 0 {
            self.with_reference(decimal_digits(self.legacy_payment_id() as nat))
        } else {
            self
        }
    }

    /// The booking without a payment reference.
    pub open spec fn cleared(self) -> BookingView {
        self.with_reference(Seq::empty())
    }

    /// The booking as a rewrite leaves it: filled on the way up, cleared
    /// on the way down.
    pub open spec fn rewritten(self, up: bool) -> BookingView {
        if up {
            self.backfilled()
        } else {
            self.cleared()
        }
    }

    /// What is wrong with the references of a booking that the user with
    /// the given e-mail holds under the given identifier: a numeric id
    /// without a reference, or a reference that is not the numeric id.
    pub open spec fn reference_fault(self, email: Seq<char>, id: BookingIdView) -> Option<
        Seq<char>,
    > {
        let digits = decimal_digits(self.legacy_payment_id() as nat);
        if self.legacy_payment_id() == 0 {
            None
        } else if self.payment_reference().len() == 0 {
            Some(
                "Booking "@ + id.app_reference + " for user "@ + email + " has payment_id "@
                    + digits + " but missing payment_id_v2"@,
            )
        } else if self.payment_reference() != digits {
            Some(
                "Booking "@ + id.app_reference + " for user "@ + email
                    + " has mismatched payment_id ("@ + digits + ") and payment_id_v2 ("@
                    + self.payment_reference() + ")"@,
            )
        } else {
            None
        }
    }
}

impl UserInfoAndBookingsView {
    /// The user with every booking rewritten.
    pub open spec fn rewritten(self, up: bool) -> Self {
        UserInfoAndBookingsView {
            bookings: self.bookings.map_values(|b: BookingView| b.rewritten(up)),
            ..self
        }
    }

    /// The faults of the bookings with the given identifiers, in their
    /// order.
    pub open spec fn reference_faults(self, email: Seq<char>, ids: Seq<BookingIdView>) -> Seq<
        Seq<char>,
    >
        decreases ids.len(),
    {
        if ids.len() == 0 {
            Seq::empty()
        } else {
            let rest = self.reference_faults(email, ids.drop_last());
            match self.bookings[ids.last()].reference_fault(email, ids.last()) {
                Some(fault) => rest.push(fault),
                None => rest,
            }
        }
    }
}

impl CanisterStateView {
    /// The store with every booking rewritten.
    pub open spec fn rewritten(self, up: bool) -> Self {
        CanisterStateView {
            users: self.users.map_values(|u: UserInfoAndBookingsView| u.rewritten(up)),
            ..self
        }
    }

    /// The faults of the bookings of the users with the given e-mails:
    /// user by user, and for each user in ascending order of the
    /// identifiers.
    pub open spec fn reference_faults(self, emails: Seq<Seq<char>>) -> Seq<Seq<char>>
        decreases emails.len(),
    {
        if emails.len() == 0 {
            Seq::empty()
        } else {
            let user = self.users[emails.last()];
            self.reference_faults(emails.drop_last()) + user.reference_faults(
                emails.last(),
                ascending_keys::<BookingId>(user.bookings.dom()),
            )
        }
    }

    /// The faults of all bookings, in ascending order of the users'
    /// e-mails.
    pub open spec fn all_reference_faults(self) -> Seq<Seq<char>> {
        self.reference_faults(ascending_keys::<String>(self.users.dom()))
    }
}

/// The texts of `parts`, with "; " between them.
pub open spec fn joined(parts: Seq<Seq<char>>) -> Seq<char>
    decreases parts.len(),
{
    if parts.len() == 0 {
        Seq::empty()
    } else if parts.len() == 1 {
        parts[0]
    } else {
        joined(parts.drop_last()) + "; "@ + parts.last()
    }
}

/// What the validation reports for a list of faults.
pub open spec fn validation_report(faults: Seq<Seq<char>>) -> Option<Seq<char>> {
    if faults.len() == 0 {
        None
    } else {
        Some("Validation failed: "@ + joined(faults))
    }
}

impl UserInfoAndBookings {
    /// Rewrites the payment reference of every booking of the user: on
    /// the way up it is filled from the numeric id, on the way down it is
    /// cleared.
    pub fn rewrite_references(&mut self, up: bool)
        ensures
            final(self)@ == old(self)@.rewritten(up),
            final(self).bookings.key_seq() == old(self).bookings.key_seq(),
    {
        proof {
            use_type_invariant(&self.bookings);
            self.bookings.lemma_entries();
        }
        let n = self.bookings.len();
        let ghost ids = self.bookings.key_seq();
        let ghost before = self.bookings.value_seq();
        let mut i: usize = 0;
        while i < n
            invariant
                i <= n,
                n == ids.len(),
                n == before.len(),
                self.bookings.key_seq() == ids,
                self.bookings.value_seq().len() == n,
                self.primary_user == old(self).primary_user,
                forall|k: int|
                    0 <= k < i ==> (#[trigger] self.bookings.value_seq()[k])@
                        == before[k]@.rewritten(up),
                forall|k: int| i <= k < n ==> #[trigger] self.bookings.value_seq()[k] == before[k],
            decreases n - i,
        {
            let booking = self.bookings.value_at(i);
            let response = &booking.payment_details.payment_api_response;
            let change = if up {
                response.payment_id_v2.as_str().is_empty() && response.payment_id != 0
            } else {
                !response.payment_id_v2.as_str().is_empty()
            };
            if change {
                let reference = if up {
                    decimal_text(response.payment_id)
                } else {
                    String::new()
                };
                let mut booking = self.bookings.replace_value_at(i, Booking::default());
                booking.payment_details.payment_api_response.payment_id_v2 = reference;
                self.bookings.replace_value_at(i, booking);
            } else {
                proof {
                    if !up {
                        assert(before[i as int]@.payment_reference() =~= Seq::empty());
                        assert(before[i as int]@.cleared() == before[i as int]@);
                    }
                }
            }
            i += 1;
        }
        proof {
            use_type_invariant(&self.bookings);
            self.bookings.lemma_entries();
            let target = old(self)@.rewritten(up);
            assert forall|id: BookingIdView| self@.bookings.dom().contains(id) implies
                self@.bookings[id] == target.bookings[id] by {
                let k = ids.index_of(id);
                assert(ids[k] == id);
                assert(self.bookings@[ids[k]] == self.bookings.value_seq()[k]);
                assert(old(self).bookings@[ids[k]] == before[k]);
            }
            assert(self@.bookings =~= target.bookings);
        }
    }
}

impl UserInfoAndBookings {
    /// The faults of the user's bookings, in ascending order of the
    /// identifiers.
    pub fn reference_faults(&self, email: &str) -> (r: Vec<String>)
        ensures
            r.deep_view() == self@.reference_faults(
                email@,
                ascending_keys::<BookingId>(self@.bookings.dom()),
            ),
    {
        proof {
            use_type_invariant(&self.bookings);
            self.bookings.lemma_entries();
            self.bookings.lemma_key_order();
            assert(self@.bookings.dom() =~= self.bookings@.dom());
        }
        let ghost ids = self.bookings.key_seq();
        let n = self.bookings.len();
        let mut faults: Vec<String> = Vec::new();
        let mut i: usize = 0;
        proof {
            assert(faults.deep_view() =~= self@.reference_faults(email@, ids.take(0)));
        }
        while i < n
            invariant
                i <= n,
                n == ids.len(),
                ids == self.bookings.key_seq(),
                n == self.bookings.value_seq().len(),
                forall|k: int|
                    0 <= k < n ==> self@.bookings.dom().contains(#[trigger] ids[k])
                        && self@.bookings[ids[k]] == self.bookings.value_seq()[k]@,
                faults.deep_view() == self@.reference_faults(email@, ids.take(i as int)),
            decreases n - i,
        {
            let booking = self.bookings.value_at(i);
            let id = self.bookings.key_at(i);
            let response = &booking.payment_details.payment_api_response;
            let ghost so_far = faults.deep_view();
            proof {
                assert(ids.take(i + 1).drop_last() =~= ids.take(i as int));
                assert(ids.take(i + 1).last() == ids[i as int]);
            }
            if response.payment_id != 0 {
                let digits = decimal_text(response.payment_id);
                if response.payment_id_v2.as_str().is_empty() {
                    let mut fault = text_of("Booking ");
                    fault.append(id.get_app_reference());
                    fault.append(" for user ");
                    fault.append(email);
                    fault.append(" has payment_id ");
                    fault.append(digits.as_str());
                    fault.append(" but missing payment_id_v2");
                    faults.push(fault);
                    proof {
                        assert(faults.deep_view() =~= so_far.push(fault@));
                    }
                } else if !crate::text::same_text(
                    response.payment_id_v2.as_str(),
                    digits.as_str(),
                ) {
                    let mut fault = text_of("Booking ");
                    fault.append(id.get_app_reference());
                    fault.append(" for user ");
                    fault.append(email);
                    fault.append(" has mismatched payment_id (");
                    fault.append(digits.as_str());
                    fault.append(") and payment_id_v2 (");
                    fault.append(response.payment_id_v2.as_str());
                    fault.append(")");
                    faults.push(fault);
                    proof {
                        assert(faults.deep_view() =~= so_far.push(fault@));
                    }
                }
            }
            i += 1;
        }
        proof {
            assert(ids.take(n as int) =~= ids);
        }
        faults
    }
}

/// The texts of `parts`, with "; " between them.
pub fn join_faults(parts: &Vec<String>) -> (r: String)
    ensures
        r@ == joined(parts.deep_view()),
{
    let ghost all = parts.deep_view();
    let n = parts.len();
    let mut r = String::new();
    let mut i: usize = 0;
    proof {
        assert(r@ =~= joined(all.take(0)));
    }
    while i < n
        invariant
            i <= n,
            n == parts.len(),
            all == parts.deep_view(),
            r@ == joined(all.take(i as int)),
        decreases n - i,
    {
        proof {
            assert(all.take(i + 1).drop_last() =~= all.take(i as int));
            assert(all.take(i + 1).last() == parts[i as int]@);
            if i == 0 {
                assert(all.take(1)[0] == parts[0]@);
                assert(Seq::<char>::empty() + parts[0]@ =~= parts[0]@);
            }
        }
        if i > 0 {
            r.append("; ");
        }
        r.append(parts[i].as_str());
        i += 1;
    }
    proof {
        assert(all.take(n as int) =~= all);
    }
    r
}

impl CanisterState {
    /// Rewrites the payment reference of every booking: on the way up it
    /// is filled from the numeric id, on the way down it is cleared.
    pub fn rewrite_references(&mut self, up: bool)
        ensures
            final(self)@ == old(self)@.rewritten(up),
    {
        proof {
            use_type_invariant(&self.users);
            self.users.lemma_entries();
        }
        let n = self.users.len();
        let ghost emails = self.users.key_seq();
        let ghost before = self.users.value_seq();
        let mut i: usize = 0;
        while i < n
            invariant
                i <= n,
                n == emails.len(),
                n == before.len(),
                self.users.key_seq() == emails,
                self.users.value_seq().len() == n,
                self.email_sent == old(self).email_sent,
                self.controllers == old(self).controllers,
                self.payment_id_index == old(self).payment_id_index,
                self.schema_metadata == old(self).schema_metadata,
                forall|k: int|
                    0 <= k < i ==> (#[trigger] self.users.value_seq()[k])@ == before[k]@.rewritten(
                        up,
                    ),
                forall|k: int| i <= k < n ==> #[trigger] self.users.value_seq()[k] == before[k],
            decreases n - i,
        {
            let mut user = self.users.replace_value_at(i, UserInfoAndBookings::default());
            user.rewrite_references(up);
            self.users.replace_value_at(i, user);
            i += 1;
        }
        proof {
            use_type_invariant(&self.users);
            self.users.lemma_entries();
            let target = old(self)@.rewritten(up);
            assert forall|email: Seq<char>| self@.users.dom().contains(email) implies
                self@.users[email] == target.users[email] by {
                let k = emails.index_of(email);
                assert(emails[k] == email);
                assert(self.users@[emails[k]] == self.users.value_seq()[k]);
                assert(old(self).users@[emails[k]] == before[k]);
            }
            assert(self@.users =~= target.users);
        }
    }

    /// The faults of the references of all bookings, in ascending order of
    /// the users' e-mails and, for each user, of the identifiers.
    pub fn reference_faults(&self) -> (r: Vec<String>)
        ensures
            r.deep_view() == self@.all_reference_faults(),
    {
        proof {
            use_type_invariant(&self.users);
            self.users.lemma_entries();
            self.users.lemma_key_order();
            assert(self@.users.dom() =~= self.users@.dom());
        }
        let ghost emails = self.users.key_seq();
        let n = self.users.len();
        let mut faults: Vec<String> = Vec::new();
        let mut i: usize = 0;
        proof {
            assert(faults.deep_view() =~= self@.reference_faults(emails.take(0)));
        }
        while i < n
            invariant
                i <= n,
                n == emails.len(),
                emails == self.users.key_seq(),
                n == self.users.value_seq().len(),
                forall|k: int|
                    0 <= k < n ==> self@.users.dom().contains(#[trigger] emails[k])
                        && self@.users[emails[k]] == self.users.value_seq()[k]@,
                faults.deep_view() == self@.reference_faults(emails.take(i as int)),
            decreases n - i,
        {
            let email = self.users.key_at(i);
            let user = self.users.value_at(i);
            let ghost so_far = faults.deep_view();
            let mut found = user.reference_faults(email.as_str());
            let ghost added = found.deep_view();
            faults.append(&mut found);
            proof {
                assert(emails.take(i + 1).drop_last() =~= emails.take(i as int));
                assert(emails.take(i + 1).last() == emails[i as int]);
                assert(faults.deep_view() =~= so_far + added);
            }
            i += 1;
        }
        proof {
            assert(emails.take(n as int) =~= emails);
        }
        faults
    }
}

impl Migration for AddPaymentIdV2Migration {
    open spec fn version_spec(&self) -> u64 {
        1001
    }

    open spec fn description_spec(&self) -> Seq<char> {
        "Add payment_id_v2 field and migrate existing payment_id data"@
    }

    open spec fn up_result(&self, before: CanisterStateView) -> CanisterStateView {
        before.rewritten(true)
    }

    open spec fn up_fault(&self, before: CanisterStateView) -> Option<Seq<char>> {
        None
    }

    open spec fn down_result(&self, before: CanisterStateView) -> CanisterStateView {
        before.rewritten(false)
    }

    open spec fn down_fault(&self, before: CanisterStateView) -> Option<Seq<char>> {
        None
    }

    open spec fn validation_fault(&self, state: CanisterStateView) -> Option<Seq<char>> {
        validation_report(state.all_reference_faults())
    }

    fn version(&self) -> (v: u64) {
        1001
    }

    fn description(&self) -> (d: &str) {
        "Add payment_id_v2 field and migrate existing payment_id data"
    }

    /// Fills the payment reference of every booking that has a numeric
    /// payment id and no reference yet with the digits of the id.
    fn migrate_up(&self, state: &mut CanisterState) -> (r: Result<(), String>) {
        state.rewrite_references(true);
        Ok(())
    }

    /// Clears the payment reference of every booking.
    fn migrate_down(&self, state: &mut CanisterState) -> (r: Result<(), String>) {
        state.rewrite_references(false);
        Ok(())
    }

    /// Refuses a store in which a booking has a numeric payment id and no
    /// reference, or a reference that is not the digits of the id; the
    /// error lists every such booking.
    fn validate(&self, state: &CanisterState) -> (r: Result<(), String>) {
        let faults = state.reference_faults();
        if faults.len() == 0 {
            Ok(())
        } else {
            let mut report = text_of("Validation failed: ");
            report.append(join_faults(&faults).as_str());
            Err(report)
        }
    }
}

} // verus!
