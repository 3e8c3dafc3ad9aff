use crate::models::booking_details::{
    BEBookRoomResponse, BEBookRoomResponseView, Booking, BookingDetails, BookingDetailsView,
    BookingId, BookingIdView, BookingView,
};
use crate::ordered_map::OrderedMap;
use crate::text::{clone_opt_text, join2, same_opt_text, same_text, text_of};
use vstd::prelude::*;

verus! {

/// An adult guest. Only the first adult of a booking gives e-mail and phone.
#[derive(Debug)]
pub struct AdultDetail {
    pub first_name: String,
    pub last_name: Option<String>,
    pub email: Option<String>,
    pub phone: Option<String>,
}

/// What a `AdultDetail` holds, as mathematical values.
pub struct AdultDetailView {
    pub first_name: Seq<char>,
    pub last_name: Option<Seq<char>>,
    pub email: Option<Seq<char>>,
    pub phone: Option<Seq<char>>,
}

impl View for AdultDetail {
    type V = AdultDetailView;

    open spec fn view(&self) -> AdultDetailView {
        AdultDetailView {
            first_name: self.first_name@,
            last_name: self.last_name.deep_view(),
            email: self.email.deep_view(),
            phone: self.phone.deep_view(),
        }
    }
}

impl DeepView for AdultDetail {
    type V = AdultDetailView;

    open spec fn deep_view(&self) -> AdultDetailView {
        self@
    }
}

impl AdultDetailView {
    /// An adult of whom nothing is known.
    pub open spec fn empty() -> AdultDetailView {
        AdultDetailView { first_name: Seq::empty(), last_name: None, email: None, phone: None }
    }

    /// E-mail and phone, where both are given.
    pub open spec fn contact(self) -> Option<(Seq<char>, Seq<char>)> {
        match (self.email, self.phone) {
            (Some(email), Some(phone)) => Some((email, phone)),
            _ => None,
        }
    }
}

impl Clone for AdultDetail {
    fn clone(&self) -> (r: Self)
        ensures
            r@ == self@,
    {
        AdultDetail {
            first_name: self.first_name.clone(),
            last_name: clone_opt_text(&self.last_name),
            email: clone_opt_text(&self.email),
            phone: clone_opt_text(&self.phone),
        }
    }
}

impl PartialEq for AdultDetail {
    fn eq(&self, other: &Self) -> (r: bool) {
        same_text(self.first_name.as_str(), other.first_name.as_str()) && same_opt_text(
            &self.last_name,
            &other.last_name,
        ) && same_opt_text(&self.email, &other.email) && same_opt_text(&self.phone, &other.phone)
    }
}

impl vstd::std_specs::cmp::PartialEqSpecImpl for AdultDetail {
    open spec fn obeys_eq_spec() -> bool {
        true
    }

    open spec fn eq_spec(&self, other: &Self) -> bool {
        self@ == other@
    }
}

impl Default for AdultDetail {
    fn default() -> (r: Self)
        ensures
            r@ == AdultDetailView::empty(),
    {
        AdultDetail { first_name: String::new(), last_name: None, email: None, phone: None }
    }
}

impl AdultDetail {
    /// E-mail and phone, where both are given.
    pub fn contact(&self) -> (r: Option<(String, String)>)
        ensures
            r.deep_view() == self@.contact(),
    {
        match (&self.email, &self.phone) {
            (Some(email), Some(phone)) => Some((email.clone(), phone.clone())),
            _ => None,
        }
    }
}

/// A child guest.
#[derive(Debug)]
pub struct ChildDetail {
    pub first_name: String,
    pub last_name: Option<String>,
    pub age: u8,
}

/// What a `ChildDetail` holds, as mathematical values.
pub struct ChildDetailView {
    pub first_name: Seq<char>,
    pub last_name: Option<Seq<char>>,
    pub age: u8,
}

impl View for ChildDetail {
    type V = ChildDetailView;

    open spec fn view(&self) -> ChildDetailView {
        ChildDetailView {
            first_name: self.first_name@,
            last_name: self.last_name.deep_view(),
            age: self.age,
        }
    }
}

impl DeepView for ChildDetail {
    type V = ChildDetailView;

    open spec fn deep_view(&self) -> ChildDetailView {
        self@
    }
}

impl Clone for ChildDetail {
    fn clone(&self) -> (r: Self)
        ensures
            r@ == self@,
    {
        ChildDetail {
            first_name: self.first_name.clone(),
            last_name: clone_opt_text(&self.last_name),
            age: self.age,
        }
    }
}

impl PartialEq for ChildDetail {
    fn eq(&self, other: &Self) -> (r: bool) {
        same_text(self.first_name.as_str(), other.first_name.as_str()) && same_opt_text(
            &self.last_name,
            &other.last_name,
        ) && self.age == other.age
    }
}

impl vstd::std_specs::cmp::PartialEqSpecImpl for ChildDetail {
    open spec fn obeys_eq_spec() -> bool {
        true
    }

    open spec fn eq_spec(&self, other: &Self) -> bool {
        self@ == other@
    }
}

impl Default for ChildDetail {
    fn default() -> (r: Self)
        ensures
            r@ == (ChildDetailView { first_name: Seq::empty(), last_name: None, age: 0 }),
    {
        ChildDetail { first_name: String::new(), last_name: None, age: 0 }
    }
}

/// The guests of a booking.
#[derive(Debug)]
pub struct UserDetails {
    pub adults: Vec<AdultDetail>,
    pub children: Vec<ChildDetail>,
}

/// What a `UserDetails` holds, as mathematical values.
pub struct UserDetailsView {
    pub adults: Seq<AdultDetailView>,
    pub children: Seq<ChildDetailView>,
}

impl View for UserDetails {
    type V = UserDetailsView;

    open spec fn view(&self) -> UserDetailsView {
        UserDetailsView { adults: self.adults.deep_view(), children: self.children.deep_view() }
    }
}

impl DeepView for UserDetails {
    type V = UserDetailsView;

    open spec fn deep_view(&self) -> UserDetailsView {
        self@
    }
}

impl UserDetailsView {
    /// E-mail and phone of the first adult, where both are given.
    pub open spec fn primary_contact(self) -> Option<(Seq<char>, Seq<char>)> {
        if self.adults.len() == 0 {
            None
        } else {
            self.adults[0].contact()
        }
    }

    /// What `validate` finds wrong with the guests, if anything.
    pub open spec fn fault(self) -> Option<Seq<char>> {
        if self.adults.len() == 0 {
            Some("At least one adult required"@)
        } else if self.adults[0].email is None || self.adults[0].phone is None {
            Some("Primary adult must provide email and phone"@)
        } else {
            None
        }
    }
}

impl Clone for UserDetails {
    fn clone(&self) -> (r: Self)
        ensures
            r@ == self@,
    {
        let adults = self.adults.clone();
        let children = self.children.clone();
        proof {
            assert(adults.deep_view() =~= self.adults.deep_view());
            assert(children.deep_view() =~= self.children.deep_view());
        }
        UserDetails { adults, children }
    }
}

impl Default for UserDetails {
    fn default() -> (r: Self)
        ensures
            r@ == (UserDetailsView { adults: Seq::empty(), children: Seq::empty() }),
    {
        let r = UserDetails { adults: Vec::new(), children: Vec::new() };
        proof {
            assert(r.adults.deep_view() =~= Seq::empty());
            assert(r.children.deep_view() =~= Seq::empty());
        }
        r
    }
}

impl UserDetails {
    /// Guests with nobody in them.
    pub fn new() -> (r: Self)
        ensures
            r@ == (UserDetailsView { adults: Seq::empty(), children: Seq::empty() }),
    {
        UserDetails::default()
    }

    /// E-mail and phone of the first adult, where both are given.
    pub fn get_primary_contact(&self) -> (r: Option<(String, String)>)
        ensures
            r.deep_view() == self@.primary_contact(),
    {
        if self.adults.len() == 0 {
            None
        } else {
            self.adults[0].contact()
        }
    }

    /// Accepts guests with at least one adult whose first adult gives
    /// e-mail and phone.
    pub fn validate(&self) -> (r: Result<(), String>)
        ensures
            match r {
                Ok(_) => self@.fault() is None,
                Err(e) => self@.fault() == Some(e@),
            },
    {
        if self.adults.len() == 0 {
            return Err(text_of("At least one adult required"));
        }
        let adult = &self.adults[0];
        if adult.email.is_none() || adult.phone.is_none() {
            return Err(text_of("Primary adult must provide email and phone"));
        }
        Ok(())
    }
}


/// A user: the main contact and the user's bookings, by identifier.
#[derive(Debug)]
pub struct UserInfoAndBookings {
    pub primary_user: AdultDetail,
    pub bookings: OrderedMap<BookingId, Booking>,
}

/// What a `UserInfoAndBookings` holds, as mathematical values.
pub struct UserInfoAndBookingsView {
    pub primary_user: AdultDetailView,
    pub bookings: Map<BookingIdView, BookingView>,
}

impl View for UserInfoAndBookings {
    type V = UserInfoAndBookingsView;

    open spec fn view(&self) -> UserInfoAndBookingsView {
        UserInfoAndBookingsView {
            primary_user: self.primary_user@,
            bookings: self.bookings@.map_values(|b: Booking| b@),
        }
    }
}

impl DeepView for UserInfoAndBookings {
    type V = UserInfoAndBookingsView;

    open spec fn deep_view(&self) -> UserInfoAndBookingsView {
        self@
    }
}

/// The message of a booking as the front end set it.
pub open spec fn frontend_message(message: Seq<char>) -> Seq<char> {
    "[frontend] "@ + message
}

impl BookingView {
    /// The booking with the front end's message in its room confirmation;
    /// a booking without a confirmation gets one that holds the message
    /// alone.
    pub open spec fn with_message(self, message: Seq<char>) -> BookingView {
        BookingView {
            book_room_status: Some(
                match self.book_room_status {
                    Some(response) => BEBookRoomResponseView {
                        message: frontend_message(message),
                        ..response
                    },
                    None => BEBookRoomResponseView {
                        status: "Updated"@,
                        message: frontend_message(message),
                        commit_booking: BookingDetailsView::empty(),
                    },
                },
            ),
            ..self
        }
    }
}

impl UserInfoAndBookingsView {
    /// A user of whom nothing is known, without bookings.
    pub open spec fn empty() -> UserInfoAndBookingsView {
        UserInfoAndBookingsView { primary_user: AdultDetailView::empty(), bookings: Map::empty() }
    }

    /// The user with one booking put in place, under its identifier.
    pub open spec fn with_booking(self, id: BookingIdView, booking: BookingView) -> Self {
        UserInfoAndBookingsView { bookings: self.bookings.insert(id, booking), ..self }
    }
}

impl Default for UserInfoAndBookings {
    fn default() -> (r: Self)
        ensures
            r@ == UserInfoAndBookingsView::empty(),
            r.bookings.key_seq() == Seq::<BookingIdView>::empty(),
    {
        let r = UserInfoAndBookings {
            primary_user: AdultDetail::default(),
            bookings: OrderedMap::new(),
        };
        proof {
            assert(r@.bookings =~= Map::empty());
        }
        r
    }
}

impl Clone for UserInfoAndBookings {
    fn clone(&self) -> (r: Self)
        ensures
            r@ == self@,
            r.bookings.key_seq() == self.bookings.key_seq(),
    {
        let bookings = self.bookings.clone();
        let r = UserInfoAndBookings { primary_user: self.primary_user.clone(), bookings };
        proof {
            use_type_invariant(&self.bookings);
            use_type_invariant(&r.bookings);
            self.bookings.lemma_mapped_views_agree(r.bookings, |b: Booking| b@);
        }
        r
    }
}

impl UserInfoAndBookings {
    /// The booking with the given identifier, if the user has it.
    pub fn get_booking_by_id(&self, booking_id: &BookingId) -> (r: Option<&Booking>)
        ensures
            match r {
                Some(booking) => self@.bookings.dom().contains(booking_id@)
                    && booking@ == self@.bookings[booking_id@],
                None => !self@.bookings.dom().contains(booking_id@),
            },
    {
        self.bookings.get(booking_id)
    }

    /// E-mail and phone of the main contact, where both are given.
    pub fn get_contact_info(&self) -> (r: Option<(String, String)>)
        ensures
            r.deep_view() == self@.primary_user.contact(),
    {
        self.primary_user.contact()
    }

    /// Adds a booking under its identifier. A booking whose identifier the
    /// user already has is refused, and nothing changes.
    pub fn add_booking(&mut self, booking: Booking) -> (r: Result<(), String>)
        ensures
            match r {
                Ok(_) => !old(self)@.bookings.dom().contains(booking@.booking_id)
                    && final(self)@ == old(self)@.with_booking(booking@.booking_id, booking@),
                Err(e) => old(self)@.bookings.dom().contains(booking@.booking_id)
                    && final(self)@ == old(self)@ && e@ == "Booking ID already exists"@,
            },
    {
        if self.bookings.contains_key(&booking.booking_id) {
            return Err(text_of("Booking ID already exists"));
        }
        let key = booking.booking_id.clone();
        self.bookings.insert(key, booking);
        proof {
            assert(self@.bookings =~= old(self)@.bookings.insert(booking@.booking_id, booking@));
        }
        Ok(())
    }

    /// Sets the front end's message on a booking of the user.
    pub fn update_booking_message(&mut self, booking_id: &BookingId, message: String) -> (r:
        Result<(), String>)
        ensures
            match r {
                Ok(_) => old(self)@.bookings.dom().contains(booking_id@) && final(self)@ == old(self)@.with_booking(
                    booking_id@,
                    old(self)@.bookings[booking_id@].with_message(message@),
                ),
                Err(e) => !old(self)@.bookings.dom().contains(booking_id@) && final(self)@ == old(self)@ && e@ == "Booking ID does not exist"@,
            },
    {
        let i = match self.bookings.position(booking_id) {
            Some(i) => i,
            None => {
                return Err(text_of("Booking ID does not exist"));
            },
        };
        proof {
            use_type_invariant(&self.bookings);
            self.bookings.lemma_entries();
        }
        let mut booking = self.bookings.replace_value_at(i, Booking::default());
        let frontend_text = join2("[frontend] ", message.as_str());
        let status = match booking.book_room_status {
            Some(response) => BEBookRoomResponse {
                status: response.status,
                message: frontend_text,
                commit_booking: response.commit_booking,
            },
            None => BEBookRoomResponse {
                status: text_of("Updated"),
                message: frontend_text,
                commit_booking: BookingDetails::default(),
            },
        };
        booking.book_room_status = Some(status);
        self.bookings.replace_value_at(i, booking);
        proof {
            assert(self@.bookings =~= old(self)@.bookings.insert(
                booking_id@,
                old(self)@.bookings[booking_id@].with_message(message@),
            ));
        }
        Ok(())
    }
}

} // verus!
