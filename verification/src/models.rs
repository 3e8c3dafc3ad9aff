use crate::migration::{SchemaMetadata, SchemaMetadataView};
use crate::models::booking_details::{
    invalid_transition_message, BEBookRoomResponse, Booking, BookingId, BookingIdView,
    BookingSummary, BookingSummaryView, BookingView,
};
use crate::models::user_details::{UserInfoAndBookings, UserInfoAndBookingsView};
use crate::ordered_map::OrderedMap;
use crate::payment_index::{
    lemma_added_booking_keeps_index_consistent, lemma_changed_booking_keeps_index_consistent,
    lemma_same_references_keep_index_consistent,
};
use crate::principal::Principal;
use crate::text::{join3, text_of};
use vstd::prelude::*;
use vstd::string::StringExecFns;

pub mod booking_details;
pub mod date_range;
pub mod greet;
pub mod payment_details;
pub mod user_details;

verus! {

/// For which bookings the e-mail to the guest was sent.
#[derive(Debug)]
pub struct EmailSentStruct {
    pub email_sent: OrderedMap<BookingId, bool>,
}

impl View for EmailSentStruct {
    type V = Map<BookingIdView, bool>;

    open spec fn view(&self) -> Map<BookingIdView, bool> {
        self.email_sent@
    }
}

impl DeepView for EmailSentStruct {
    type V = Map<BookingIdView, bool>;

    open spec fn deep_view(&self) -> Map<BookingIdView, bool> {
        self@
    }
}

impl Default for EmailSentStruct {
    fn default() -> (r: Self)
        ensures
            r@ == Map::<BookingIdView, bool>::empty(),
    {
        EmailSentStruct { email_sent: OrderedMap::new() }
    }
}

impl Clone for EmailSentStruct {
    fn clone(&self) -> (r: Self)
        ensures
            r@ == self@,
    {
        let email_sent = self.email_sent.clone();
        proof {
            use_type_invariant(&self.email_sent);
            use_type_invariant(&email_sent);
            self.email_sent.lemma_mapped_views_agree(email_sent, |sent: bool| sent);
            assert(self.email_sent@.map_values(|sent: bool| sent) =~= self.email_sent@);
            assert(email_sent@.map_values(|sent: bool| sent) =~= email_sent@);
        }
        EmailSentStruct { email_sent }
    }
}

impl EmailSentStruct {
    /// Notes for a booking whether the e-mail was sent. A booking that has
    /// a note already keeps it, and the call is refused.
    pub fn update_email_sent(&mut self, booking_id: BookingId, sent: bool) -> (r: Result<
        (),
        String,
    >)
        ensures
            match r {
                Ok(_) => !old(self)@.dom().contains(booking_id@) && final(self)@ == old(self)@.insert(booking_id@, sent),
                Err(e) => old(self)@.dom().contains(booking_id@) && final(self)@ == old(self)@
                    && e@ == "Email already sent"@,
            },
    {
        if self.email_sent.contains_key(&booking_id) {
            return Err(text_of("Email already sent"));
        }
        self.email_sent.insert(booking_id, sent);
        Ok(())
    }

    /// The note for a booking, where there is one.
    pub fn get_email_sent_status_for_booking_id(&self, booking_id: &BookingId) -> (r: Option<
        bool,
    >)
        ensures
            r == (if self@.dom().contains(booking_id@) {
                Some(self@[booking_id@])
            } else {
                None
            }),
    {
        match self.email_sent.get(booking_id) {
            Some(sent) => Some(*sent),
            None => None,
        }
    }
}

/// Everything that the store holds: the users with their bookings, the
/// notes on e-mails sent, the identities that may write, the index from
/// payment reference to booking, and the version of the data.
#[derive(Debug)]
pub struct CanisterState {
    /// The users, by e-mail.
    pub users: OrderedMap<String, UserInfoAndBookings>,
    pub email_sent: Option<EmailSentStruct>,
    pub controllers: Option<Vec<Principal>>,
    /// The booking that each payment reference belongs to.
    pub payment_id_index: Option<OrderedMap<String, BookingId>>,
    pub schema_metadata: SchemaMetadata,
}

/// What a `CanisterState` holds, as mathematical values.
pub struct CanisterStateView {
    pub users: Map<Seq<char>, UserInfoAndBookingsView>,
    pub email_sent: Option<Map<BookingIdView, bool>>,
    pub controllers: Option<Seq<Seq<u8>>>,
    pub payment_id_index: Option<Map<Seq<char>, BookingIdView>>,
    pub schema_metadata: SchemaMetadataView,
}

/// The view of an index from payment reference to booking.
pub open spec fn index_view(index: Option<OrderedMap<String, BookingId>>) -> Option<
    Map<Seq<char>, BookingIdView>,
> {
    match index {
        Some(map) => Some(map@.map_values(|id: BookingId| id@)),
        None => None,
    }
}

impl View for CanisterState {
    type V = CanisterStateView;

    open spec fn view(&self) -> CanisterStateView {
        CanisterStateView {
            users: self.users@.map_values(|u: UserInfoAndBookings| u@),
            email_sent: self.email_sent.deep_view(),
            controllers: self.controllers.deep_view(),
            payment_id_index: index_view(self.payment_id_index),
            schema_metadata: self.schema_metadata@,
        }
    }
}

/// The text that says that no user has the given e-mail.
pub open spec fn user_not_found_message(email: Seq<char>) -> Seq<char> {
    "User with email '"@ + email + "' not found"@
}

/// The text that says that the user has no booking with the given
/// reference.
pub open spec fn booking_not_found_message(app_reference: Seq<char>) -> Seq<char> {
    "Booking with app_reference '"@ + app_reference + "' not found"@
}

impl CanisterStateView {
    /// A store that holds nothing, at the base version.
    pub open spec fn initial() -> CanisterStateView {
        CanisterStateView {
            users: Map::empty(),
            email_sent: None,
            controllers: None,
            payment_id_index: None,
            schema_metadata: SchemaMetadataView::initial(),
        }
    }

    /// The user with the given e-mail, or a user without bookings where the
    /// store has none.
    pub open spec fn user_or_empty(self, email: Seq<char>) -> UserInfoAndBookingsView {
        if self.users.dom().contains(email) {
            self.users[email]
        } else {
            UserInfoAndBookingsView::empty()
        }
    }

    /// The booking with the given identifier: the one that the user with
    /// the identifier's e-mail holds under it.
    pub open spec fn booking_of(self, id: BookingIdView) -> Option<BookingView> {
        if self.users.dom().contains(id.email) && self.users[id.email].bookings.dom().contains(id) {
            Some(self.users[id.email].bookings[id])
        } else {
            None
        }
    }

    /// The store with another booking in the place of the one with the
    /// given identifier.
    pub open spec fn with_booking(self, id: BookingIdView, booking: BookingView) -> Self {
        CanisterStateView {
            users: self.users.insert(id.email, self.users[id.email].with_booking(id, booking)),
            ..self
        }
    }

    /// Why no booking is found under an identifier, where none is: no such
    /// user, or no such booking of the user.
    pub open spec fn lookup_fault(self, id: BookingIdView) -> Option<Seq<char>> {
        if !self.users.dom().contains(id.email) {
            Some(user_not_found_message(id.email))
        } else if !self.users[id.email].bookings.dom().contains(id) {
            Some(booking_not_found_message(id.app_reference))
        } else {
            None
        }
    }

    /// The notes on e-mails sent; none where they were never set up.
    pub open spec fn email_notes(self) -> Map<BookingIdView, bool> {
        match self.email_sent {
            Some(notes) => notes,
            None => Map::empty(),
        }
    }
}

impl Clone for CanisterState {
    fn clone(&self) -> (r: Self)
        ensures
            r@ == self@,
    {
        let users = self.users.clone();
        let email_sent = match &self.email_sent {
            Some(notes) => Some(notes.clone()),
            None => None,
        };
        let controllers = match &self.controllers {
            Some(list) => {
                let copy = list.clone();
                proof {
                    assert(copy.deep_view() =~= list.deep_view());
                }
                Some(copy)
            },
            None => None,
        };
        let payment_id_index = match &self.payment_id_index {
            Some(index) => {
                let copy = index.clone();
                proof {
                    use_type_invariant(index);
                    use_type_invariant(&copy);
                    index.lemma_mapped_views_agree(copy, |id: BookingId| id@);
                }
                Some(copy)
            },
            None => None,
        };
        proof {
            use_type_invariant(&self.users);
            use_type_invariant(&users);
            self.users.lemma_mapped_views_agree(users, |u: UserInfoAndBookings| u@);
        }
        CanisterState {
            users,
            email_sent,
            controllers,
            payment_id_index,
            schema_metadata: self.schema_metadata.clone(),
        }
    }
}

impl Default for CanisterState {
    fn default() -> (r: Self)
        ensures
            r@ == CanisterStateView::initial(),
    {
        CanisterState::new()
    }
}

impl CanisterState {
    /// A store that holds nothing, at the base version.
    pub fn new() -> (r: Self)
        ensures
            r@ == CanisterStateView::initial(),
            r.users.key_seq() == Seq::<Seq<char>>::empty(),
    {
        let r = CanisterState {
            users: OrderedMap::new(),
            email_sent: None,
            controllers: None,
            payment_id_index: None,
            schema_metadata: SchemaMetadata::default(),
        };
        proof {
            assert(r@.users =~= Map::empty());
        }
        r
    }

    /// The current version and the description under which it was applied.
    pub fn get_current_migration_info(&self) -> (r: (u64, String))
        ensures
            r.0 == self@.schema_metadata.current_version,
            r.1@ == self@.schema_metadata.current_description(),
    {
        (self.schema_metadata.current_version, self.schema_metadata.current_description())
    }

    /// The user with the given e-mail.
    pub fn get_user_profile(&self, email: &str) -> (r: Option<&UserInfoAndBookings>)
        ensures
            match r {
                Some(user) => self@.users.dom().contains(email@) && user@ == self@.users[email@],
                None => !self@.users.dom().contains(email@),
            },
    {
        let key = text_of(email);
        self.users.get(&key)
    }

    /// The booking with the given identifier.
    pub fn get_booking_by_id(&self, booking_id: &BookingId) -> (r: Option<&Booking>)
        ensures
            match r {
                Some(booking) => self@.booking_of(booking_id@) == Some(booking@),
                None => self@.booking_of(booking_id@) is None,
            },
    {
        let key = text_of(booking_id.get_user_email());
        match self.users.get(&key) {
            Some(user) => user.get_booking_by_id(booking_id),
            None => None,
        }
    }

    /// The bookings of the user with the given e-mail.
    pub fn get_user_bookings(&self, email: &str) -> (r: Option<&OrderedMap<BookingId, Booking>>)
        ensures
            match r {
                Some(bookings) => self@.users.dom().contains(email@) && bookings@.map_values(
                    |b: Booking| b@,
                ) == self@.users[email@].bookings,
                None => !self@.users.dom().contains(email@),
            },
    {
        let key = text_of(email);
        match self.users.get(&key) {
            Some(user) => Some(&user.bookings),
            None => None,
        }
    }

    /// Adds a booking to the user with the given e-mail, who is made where
    /// the store does not have them yet. A booking whose identifier that
    /// user already has is refused, and nothing changes.
    pub fn add_booking_and_user(&mut self, email: &str, booking: Booking) -> (r: Result<
        String,
        String,
    >)
        ensures
            match r {
                Ok(s) => s@ == "Success"@ && !old(self)@.user_or_empty(email@).bookings.dom().contains(
                    booking@.booking_id,
                ) && final(self)@ == (CanisterStateView {
                    users: old(self)@.users.insert(
                        email@,
                        old(self)@.user_or_empty(email@).with_booking(booking@.booking_id, booking@),
                    ),
                    ..old(self)@
                }),
                Err(e) => old(self)@.user_or_empty(email@).bookings.dom().contains(
                    booking@.booking_id,
                ) && final(self)@ == old(self)@ && e@ == "Booking ID already exists"@,
            },
            old(self)@.index_consistent() && booking@.payment_reference().len() == 0
                && booking@.booking_id.email == email@ ==> final(self)@.index_consistent(),
    {
        proof {
            if old(self)@.index_consistent() && booking@.payment_reference().len() == 0
                && booking@.booking_id.email == email@ && !old(self)@.holds(
                email@,
                booking@.booking_id,
            ) {
                lemma_added_booking_keeps_index_consistent(old(self)@, booking@);
            }
        }
        let key = text_of(email);
        proof {
            use_type_invariant(&self.users);
            self.users.lemma_entries();
        }
        match self.users.position(&key) {
            Some(i) => {
                let mut user = self.users.replace_value_at(i, UserInfoAndBookings::default());
                let added = user.add_booking(booking);
                self.users.replace_value_at(i, user);
                match added {
                    Ok(_) => {
                        proof {
                            assert(self@.users =~= old(self)@.users.insert(
                                email@,
                                old(self)@.user_or_empty(email@).with_booking(
                                    booking@.booking_id,
                                    booking@,
                                ),
                            ));
                        }
                        Ok(text_of("Success"))
                    },
                    Err(e) => {
                        proof {
                            assert(self@.users =~= old(self)@.users);
                        }
                        Err(e)
                    },
                }
            },
            None => {
                let mut user = UserInfoAndBookings::default();
                let _ = user.add_booking(booking);
                self.users.insert(key, user);
                proof {
                    assert(self@.users =~= old(self)@.users.insert(
                        email@,
                        old(self)@.user_or_empty(email@).with_booking(booking@.booking_id, booking@),
                    ));
                }
                Ok(text_of("Success"))
            },
        }
    }
}

/// The text that says that the user has no booking with the given
/// reference, as the update of a room confirmation words it.
pub open spec fn room_booking_not_found_message(app_reference: Seq<char>) -> Seq<char> {
    "Booking with app_refrence '"@ + app_reference + "' not found"@
}

/// The text that says that nothing is known of a booking.
pub open spec fn unknown_booking_message(id: BookingIdView) -> Seq<char> {
    "Booking does not exist with booking_id "@ + id.debug() + " "@
}

impl CanisterStateView {
    /// The store with another booking under the given identifier, with the
    /// user of the given e-mail.
    pub open spec fn with_user_booking(
        self,
        email: Seq<char>,
        id: BookingIdView,
        booking: BookingView,
    ) -> Self {
        CanisterStateView {
            users: self.users.insert(email, self.users[email].with_booking(id, booking)),
            ..self
        }
    }

    /// Why a room confirmation with the status `to` is refused for a
    /// booking, where it is: no such user, no such booking, or a step that
    /// is not allowed.
    pub open spec fn room_response_fault(
        self,
        id: BookingIdView,
        to: crate::models::booking_details::ResolvedBookingStatus,
    ) -> Option<Seq<char>> {
        if !self.users.dom().contains(id.email) {
            Some(user_not_found_message(id.email))
        } else if !self.users[id.email].bookings.dom().contains(id) {
            Some(room_booking_not_found_message(id.app_reference))
        } else if !self.users[id.email].bookings[id].resolved_status().allows(to) {
            Some(invalid_transition_message(self.users[id.email].bookings[id].resolved_status(), to))
        } else {
            None
        }
    }

    /// Why a message is refused for a booking, where it is: no such user,
    /// or no such booking.
    pub open spec fn message_fault(self, id: BookingIdView) -> Option<Seq<char>> {
        if !self.users.dom().contains(id.email) {
            Some(user_not_found_message(id.email))
        } else if !self.users[id.email].bookings.dom().contains(id) {
            Some("Booking ID does not exist"@)
        } else {
            None
        }
    }
}

/// Where a booking stands in the store.
pub(crate) enum Slot {
    /// The positions of the user and, among the user's bookings, of the
    /// booking.
    At(usize, usize),
    NoUser,
    NoBooking,
}

impl CanisterState {
    /// The bookings of the user at position `i`, in the order of their
    /// identifiers.
    pub open spec fn bookings_at(&self, i: int) -> Seq<Booking> {
        self.users.value_seq()[i].bookings.value_seq()
    }

    /// The identifiers of the bookings of the user at position `i`, in
    /// ascending order.
    pub open spec fn booking_ids_at(&self, i: int) -> Seq<BookingIdView> {
        self.users.value_seq()[i].bookings.key_seq()
    }

    /// Where the booking with the given identifier stands.
    pub(crate) fn locate(&self, booking_id: &BookingId) -> (r: Slot)
        ensures
            match r {
                Slot::At(i, j) => i < self.users.key_seq().len() && self.users.key_seq()[i as int]
                    == booking_id@.email && j < self.booking_ids_at(i as int).len()
                    && self.booking_ids_at(i as int)[j as int] == booking_id@
                    && self@.booking_of(booking_id@) == Some(self.bookings_at(i as int)[j as int]@),
                Slot::NoUser => !self@.users.dom().contains(booking_id@.email),
                Slot::NoBooking => self@.users.dom().contains(booking_id@.email)
                    && !self@.users[booking_id@.email].bookings.dom().contains(booking_id@),
            },
    {
        let key = text_of(booking_id.get_user_email());
        proof {
            use_type_invariant(&self.users);
            self.users.lemma_entries();
        }
        match self.users.position(&key) {
            None => Slot::NoUser,
            Some(i) => {
                let user = self.users.value_at(i);
                proof {
                    use_type_invariant(&user.bookings);
                    user.bookings.lemma_entries();
                }
                match user.bookings.position(booking_id) {
                    None => Slot::NoBooking,
                    Some(j) => Slot::At(i, j),
                }
            },
        }
    }

    /// Puts `booking` in the place of the booking at position `j` of the
    /// user at position `i`, and returns the booking that stood there.
    pub(crate) fn exchange_booking(&mut self, i: usize, j: usize, booking: Booking) -> (r: Booking)
        requires
            i < old(self).users.key_seq().len(),
            j < old(self).booking_ids_at(i as int).len(),
        ensures
            r == old(self).bookings_at(i as int)[j as int],
            final(self).users.key_seq() == old(self).users.key_seq(),
            final(self).users.value_seq().len() == old(self).users.value_seq().len(),
            forall|k: int|
                0 <= k < old(self).users.value_seq().len() && k != i ==> final(self).users.value_seq()[k] == old(self).users.value_seq()[k],
            final(self).users.value_seq()[i as int].primary_user == old(self).users.value_seq()[i as int].primary_user,
            final(self).booking_ids_at(i as int) == old(self).booking_ids_at(i as int),
            final(self).bookings_at(i as int) == old(self).bookings_at(i as int).update(
                j as int,
                booking,
            ),
            final(self)@ == old(self)@.with_user_booking(
                old(self).users.key_seq()[i as int],
                old(self).booking_ids_at(i as int)[j as int],
                booking@,
            ),
            final(self).email_sent == old(self).email_sent,
            final(self).controllers == old(self).controllers,
            final(self).payment_id_index == old(self).payment_id_index,
            final(self).schema_metadata == old(self).schema_metadata,
    {
        proof {
            use_type_invariant(&self.users);
            self.users.lemma_entries();
        }
        let mut user = self.users.replace_value_at(i, UserInfoAndBookings::default());
        proof {
            use_type_invariant(&user.bookings);
            user.bookings.lemma_entries();
        }
        let previous = user.bookings.replace_value_at(j, booking);
        self.users.replace_value_at(i, user);
        proof {
            let email = old(self).users.key_seq()[i as int];
            let id = old(self).booking_ids_at(i as int)[j as int];
            assert(self@.users[email].bookings =~= old(self)@.users[email].bookings.insert(
                id,
                booking@,
            ));
            assert(self@.users =~= old(self)@.users.insert(
                email,
                old(self)@.users[email].with_booking(id, booking@),
            ));
        }
        previous
    }

    /// Takes a new room confirmation for a booking, where the step from
    /// its present status is allowed.
    pub fn update_book_room_response(
        &mut self,
        booking_id: BookingId,
        book_room_response: BEBookRoomResponse,
    ) -> (r: Result<String, String>)
        ensures
            match r {
                Ok(s) => s@ == "Success"@ && old(self)@.room_response_fault(
                    booking_id@,
                    book_room_response@.commit_booking.resolved_booking_status,
                ) is None && final(self)@ == old(self)@.with_booking(
                    booking_id@,
                    BookingView {
                        book_room_status: Some(book_room_response@),
                        ..old(self)@.users[booking_id@.email].bookings[booking_id@]
                    },
                ),
                Err(e) => old(self)@.room_response_fault(
                    booking_id@,
                    book_room_response@.commit_booking.resolved_booking_status,
                ) == Some(e@) && final(self)@ == old(self)@,
            },
            old(self)@.index_consistent() ==> final(self)@.index_consistent(),
    {
        match self.locate(&booking_id) {
            Slot::NoUser => Err(
                join3("User with email '", booking_id.get_user_email(), "' not found"),
            ),
            Slot::NoBooking => Err(
                join3(
                    "Booking with app_refrence '",
                    booking_id.get_app_reference(),
                    "' not found",
                ),
            ),
            Slot::At(i, j) => {
                let mut booking = self.exchange_booking(i, j, Booking::default());
                let updated = booking.update_book_room_status(book_room_response);
                self.exchange_booking(i, j, booking);
                proof {
                    let email = booking_id@.email;
                    let id = booking_id@;
                    let u0 = old(self)@.users[email];
                    assert(u0.with_booking(id, BookingView::empty()).with_booking(id, booking@)
                        =~= u0.with_booking(id, booking@)) by {
                        assert(u0.bookings.insert(id, BookingView::empty()).insert(id, booking@)
                            =~= u0.bookings.insert(id, booking@));
                    }
                    assert(self@.users =~= old(self)@.users.insert(
                        email,
                        u0.with_booking(id, booking@),
                    ));
                    if updated is Err {
                        assert(u0.bookings.insert(id, booking@) =~= u0.bookings);
                        assert(self@.users =~= old(self)@.users);
                    }
                }
                proof {
                    if old(self)@.index_consistent() {
                        lemma_changed_booking_keeps_index_consistent(
                            old(self)@,
                            booking_id@,
                            booking@,
                        );
                    }
                }
                match updated {
                    Ok(_) => Ok(text_of("Success")),
                    Err(e) => Err(e),
                }
            },
        }
    }

    /// Sets the front end's message on a booking.
    pub fn update_booking_message(&mut self, booking_id: BookingId, message: String) -> (r: Result<
        String,
        String,
    >)
        ensures
            match r {
                Ok(s) => s@ == "Message updated successfully"@ && old(self)@.message_fault(
                    booking_id@,
                ) is None && final(self)@ == old(self)@.with_booking(
                    booking_id@,
                    old(self)@.users[booking_id@.email].bookings[booking_id@].with_message(
                        message@,
                    ),
                ),
                Err(e) => old(self)@.message_fault(booking_id@) == Some(e@) && final(self)@ == old(self)@,
            },
            old(self)@.index_consistent() ==> final(self)@.index_consistent(),
    {
        let key = text_of(booking_id.get_user_email());
        proof {
            use_type_invariant(&self.users);
            self.users.lemma_entries();
        }
        let i = match self.users.position(&key) {
            Some(i) => i,
            None => {
                return Err(join3("User with email '", booking_id.get_user_email(), "' not found"));
            },
        };
        let mut user = self.users.replace_value_at(i, UserInfoAndBookings::default());
        let updated = user.update_booking_message(&booking_id, message);
        self.users.replace_value_at(i, user);
        proof {
            let email = booking_id@.email;
            if updated is Ok {
                assert(self@.users =~= old(self)@.users.insert(
                    email,
                    old(self)@.users[email].with_booking(
                        booking_id@,
                        old(self)@.users[email].bookings[booking_id@].with_message(message@),
                    ),
                ));
                if old(self)@.index_consistent() {
                    lemma_changed_booking_keeps_index_consistent(
                        old(self)@,
                        booking_id@,
                        old(self)@.users[email].bookings[booking_id@].with_message(message@),
                    );
                }
            } else {
                assert(self@.users =~= old(self)@.users);
            }
        }
        match updated {
            Ok(_) => Ok(text_of("Message updated successfully")),
            Err(e) => Err(e),
        }
    }

    fn initialize_email_sent_if_not_already(&mut self)
        ensures
            final(self)@ == (CanisterStateView {
                email_sent: Some(old(self)@.email_notes()),
                ..old(self)@
            }),
            final(self).email_sent is Some,
            final(self).users == old(self).users,
    {
        if self.email_sent.is_none() {
            self.email_sent = Some(EmailSentStruct::default());
        }
    }

    /// Notes for a booking whether the e-mail was sent. The notes are set
    /// up where they were not. A booking that has a note already keeps it,
    /// and the call is refused.
    pub fn update_email_sent(&mut self, booking_id: BookingId, sent: bool) -> (r: Result<
        (),
        String,
    >)
        ensures
            match r {
                Ok(_) => !old(self)@.email_notes().dom().contains(booking_id@) && final(self)@ == (
                CanisterStateView {
                    email_sent: Some(old(self)@.email_notes().insert(booking_id@, sent)),
                    ..old(self)@
                }),
                Err(e) => old(self)@.email_notes().dom().contains(booking_id@) && final(self)@ == (
                CanisterStateView {
                    email_sent: Some(old(self)@.email_notes()),
                    ..old(self)@
                }) && e@ == "Email already sent"@,
            },
            old(self)@.index_consistent() ==> final(self)@.index_consistent(),
    {
        self.initialize_email_sent_if_not_already();
        let mut notes = match self.email_sent.take() {
            Some(notes) => notes,
            None => EmailSentStruct::default(),
        };
        let updated = notes.update_email_sent(booking_id, sent);
        self.email_sent = Some(notes);
        proof {
            if old(self)@.index_consistent() {
                lemma_same_references_keep_index_consistent(old(self)@, self@);
            }
        }
        updated
    }

    /// Whether the e-mail for a booking was sent. The notes are set up
    /// where they were not. A booking of the store without a note gets the
    /// note that it was not; a booking that the store does not have is
    /// refused.
    pub fn get_email_sent(&mut self, booking_id: &BookingId) -> (r: Result<bool, String>)
        ensures
            match r {
                Ok(sent) => if old(self)@.email_notes().dom().contains(booking_id@) {
                    sent == old(self)@.email_notes()[booking_id@] && final(self)@ == (
                    CanisterStateView { email_sent: Some(old(self)@.email_notes()), ..old(self)@ })
                } else {
                    !sent && old(self)@.booking_of(booking_id@) is Some && final(self)@ == (
                    CanisterStateView {
                        email_sent: Some(old(self)@.email_notes().insert(booking_id@, false)),
                        ..old(self)@
                    })
                },
                Err(e) => !old(self)@.email_notes().dom().contains(booking_id@) && old(self)@.booking_of(booking_id@) is None && e@ == unknown_booking_message(booking_id@)
                    && final(self)@ == (CanisterStateView {
                    email_sent: Some(old(self)@.email_notes()),
                    ..old(self)@
                }),
            },
            old(self)@.index_consistent() ==> final(self)@.index_consistent(),
    {
        self.initialize_email_sent_if_not_already();
        proof {
            if old(self)@.index_consistent() {
                lemma_same_references_keep_index_consistent(old(self)@, self@);
            }
        }
        let known = match &self.email_sent {
            Some(notes) => notes.get_email_sent_status_for_booking_id(booking_id),
            None => None,
        };
        if let Some(sent) = known {
            return Ok(sent);
        }
        if self.get_booking_by_id(booking_id).is_none() {
            let mut message = text_of("Booking does not exist with booking_id ");
            message.append(booking_id.debug_string().as_str());
            message.append(" ");
            return Err(message);
        }
        let mut notes = match self.email_sent.take() {
            Some(notes) => notes,
            None => EmailSentStruct::default(),
        };
        let _ = notes.update_email_sent(booking_id.clone(), false);
        self.email_sent = Some(notes);
        proof {
            if old(self)@.index_consistent() {
                lemma_same_references_keep_index_consistent(old(self)@, self@);
            }
        }
        Ok(false)
    }
}


/// The summaries of the bookings of one user, in the order of the
/// bookings.
pub open spec fn summaries_of(email: Seq<char>, bookings: Seq<Booking>) -> Seq<BookingSummaryView> {
    Seq::new(
        bookings.len(),
        |j: int|
            BookingSummaryView::of(
                email,
                bookings[j]@,
                bookings[j]@.user_selected_hotel_room_details.date_range.nights() as u32,
            ),
    )
}

impl CanisterState {
    /// The summaries of the bookings of the first `n` users.
    pub open spec fn summaries_upto(&self, n: int) -> Seq<BookingSummaryView>
        decreases n,
    {
        if n <= 0 {
            Seq::empty()
        } else {
            self.summaries_upto(n - 1) + summaries_of(
                self.users.key_seq()[n - 1],
                self.bookings_at(n - 1),
            )
        }
    }

    /// The summaries of all bookings: user by user in the order of their
    /// e-mails, and for each user in the order of the identifiers.
    pub open spec fn all_summaries(&self) -> Seq<BookingSummaryView> {
        self.summaries_upto(self.users.key_seq().len() as int)
    }

    /// The summaries of all bookings: user by user in ascending order of
    /// the e-mails, and for each user in ascending order of the
    /// identifiers.
    pub fn get_all_bookings(&self) -> (r: Vec<BookingSummary>)
        ensures
            r.deep_view() == self@.all_summaries(),
    {
        let mut result: Vec<BookingSummary> = Vec::new();
        let n = self.users.len();
        let mut i: usize = 0;
        assert(result.deep_view() =~= self.summaries_upto(0));
        while i < n
            invariant
                i <= n,
                n == self.users.key_seq().len(),
                n == self.users.value_seq().len(),
                forall|k: int|
                    0 <= k < i ==> (#[trigger] self.users.value_seq()[k]).bookings.wf(),
                result.deep_view() == self.summaries_upto(i as int),
            decreases n - i,
        {
            let email = self.users.key_at(i);
            let user = self.users.value_at(i);
            proof {
                use_type_invariant(&user.bookings);
            }
            let m = user.bookings.len();
            let ghost row = summaries_of(email@, user.bookings.value_seq());
            let mut j: usize = 0;
            assert(result.deep_view() =~= self.summaries_upto(i as int) + row.take(0));
            while j < m
                invariant
                    j <= m,
                    m == user.bookings.value_seq().len(),
                    m == user.bookings.key_seq().len(),
                    row == summaries_of(email@, user.bookings.value_seq()),
                    result.deep_view() == self.summaries_upto(i as int) + row.take(j as int),
                decreases m - j,
            {
                let booking = user.bookings.value_at(j);
                let ghost before = result.deep_view();
                result.push(BookingSummary::from((email.as_str(), booking)));
                proof {
                    assert(result.deep_view() =~= before.push(row[j as int]));
                    assert(row.take(j + 1) =~= row.take(j as int).push(row[j as int]));
                    assert(result.deep_view() =~= self.summaries_upto(i as int) + row.take(j + 1));
                }
                j += 1;
            }
            proof {
                assert(row.take(m as int) =~= row);
            }
            i += 1;
        }
        proof {
            use_type_invariant(&self.users);
            crate::booking_order::lemma_positions_in_order(*self);
        }
        result
    }
}


impl CanisterState {
    /// Whether the booking with the given identifier is paid. A booking
    /// that the store does not have is not.
    pub fn is_booking_paid(&self, booking_id: &BookingId) -> (r: bool)
        ensures
            r == match self@.booking_of(booking_id@) {
                Some(booking) => booking.payment_details.payment_status is Paid,
                None => false,
            },
    {
        match self.get_booking_by_id(booking_id) {
            Some(booking) => booking.payment_details.is_paid(),
            None => false,
        }
    }

    /// The booking that a payment reference belongs to, by the index.
    pub fn get_booking_id_by_payment_id_v2(&self, payment_id_v2: &str) -> (r: Option<BookingId>)
        ensures
            r.deep_view() == (if self@.index_or_empty().dom().contains(payment_id_v2@) {
                Some(self@.index_or_empty()[payment_id_v2@])
            } else {
                None
            }),
    {
        match &self.payment_id_index {
            Some(index) => {
                let key = text_of(payment_id_v2);
                match index.get(&key) {
                    Some(id) => Some(id.clone()),
                    None => None,
                }
            },
            None => None,
        }
    }

    /// The bookings of the user with the given e-mail, in ascending
    /// order of their identifiers.
    pub fn list_user_bookings(&self, email: &str) -> (r: Option<Vec<Booking>>)
        ensures
            match r {
                Some(list) => self@.users.dom().contains(email@) && list.deep_view().len()
                    == self@.users[email@].bookings.dom().len() && list.deep_view()
                    == crate::ordered_map::ascending_keys::<BookingId>(
                    self@.users[email@].bookings.dom(),
                ).map_values(|id: BookingIdView| self@.users[email@].bookings[id]),
                None => !self@.users.dom().contains(email@),
            },
    {
        let key = text_of(email);
        match self.users.get(&key) {
            None => None,
            Some(user) => {
                proof {
                    use_type_invariant(&user.bookings);
                    user.bookings.lemma_entries();
                    user.bookings.lemma_key_order();
                    assert(user@.bookings.dom() =~= user.bookings@.dom());
                }
                let ghost ids = user.bookings.key_seq();
                let n = user.bookings.len();
                let mut list: Vec<Booking> = Vec::new();
                let mut i: usize = 0;
                while i < n
                    invariant
                        i <= n,
                        n == user.bookings.key_seq().len(),
                        n == user.bookings.value_seq().len(),
                        list.deep_view().len() == i,
                        forall|k: int|
                            0 <= k < i ==> #[trigger] list.deep_view()[k]
                                == user.bookings.value_seq()[k]@,
                    decreases n - i,
                {
                    let ghost so_far = list.deep_view();
                    list.push(user.bookings.value_at(i).clone());
                    proof {
                        assert(list.deep_view() =~= so_far.push(user.bookings.value_seq()[i as int]@));
                    }
                    i += 1;
                }
                proof {
                    let wanted = ids.map_values(|id: BookingIdView| user@.bookings[id]);
                    assert forall|k: int| 0 <= k < n implies list.deep_view()[k] == wanted[k] by {
                        assert(user.bookings@[ids[k]] == user.bookings.value_seq()[k]);
                    }
                    assert(list.deep_view() =~= wanted);
                }
                Some(list)
            },
        }
    }
}

} // verus!
