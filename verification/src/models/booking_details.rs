use crate::models::date_range::{iso_date_text, SelectedDateRange};
use crate::models::payment_details::{
    BEPaymentApiResponse, BackendPaymentStatus, PaymentDetails, PaymentDetailsView, PaymentStatus,
    PaymentStatusView,
};
use crate::models::user_details::{UserDetails, UserDetailsView};
use crate::ordered_map::{KeyOrder, OrderedKey};
use crate::text::{
    compare_text, debug_text, debug_text_of, decimal_digits, decimal_text, join2, join3,
    lemma_text_lt_irreflexive, lemma_text_lt_total, lemma_text_lt_transitive, same_text, text_lt,
    text_of, to_uppercase, uppercase_of,
};
use vstd::prelude::*;
use vstd::string::StringExecFns;

verus! {

pub type AppReference = String;

pub type UserEmail = String;

/// The key of a booking: the application's reference and the owner's e-mail.
#[derive(Debug)]
pub struct BookingId {
    app_reference: AppReference,
    email: UserEmail,
}

/// What a `BookingId` holds, as mathematical values.
pub struct BookingIdView {
    pub app_reference: Seq<char>,
    pub email: Seq<char>,
}

impl View for BookingId {
    type V = BookingIdView;

    closed spec fn view(&self) -> BookingIdView {
        BookingIdView { app_reference: self.app_reference@, email: self.email@ }
    }
}

impl DeepView for BookingId {
    type V = BookingIdView;

    open spec fn deep_view(&self) -> BookingIdView {
        self@
    }
}

impl BookingIdView {
    pub open spec fn empty() -> BookingIdView {
        BookingIdView { app_reference: Seq::empty(), email: Seq::empty() }
    }

    /// Identifiers are ordered by reference, and by e-mail where the
    /// references are the same.
    pub open spec fn lt(self, other: BookingIdView) -> bool {
        text_lt(self.app_reference, other.app_reference) || (self.app_reference
            == other.app_reference && text_lt(self.email, other.email))
    }
}

impl BookingId {
    pub fn new(app_reference: String, email: String) -> (r: Self)
        ensures
            r@ == (BookingIdView { app_reference: app_reference@, email: email@ }),
    {
        BookingId { app_reference, email }
    }

    pub fn get_app_reference(&self) -> (r: &str)
        ensures
            r@ == self@.app_reference,
    {
        self.app_reference.as_str()
    }

    pub fn get_user_email(&self) -> (r: &str)
        ensures
            r@ == self@.email,
    {
        self.email.as_str()
    }
}

/// An identifier as `Debug` writes it, from its two texts in quotes: the
/// name of the type and the two fields in braces.
pub open spec fn debug_of_quoted(app_reference: Seq<char>, email: Seq<char>) -> Seq<char> {
    "BookingId { app_reference: "@ + app_reference + ", email: "@ + email + " }"@
}

/// An identifier as `Debug` writes it, from its two texts in quotes.
pub fn debug_from_quoted(app_reference: &str, email: &str) -> (r: String)
    ensures
        r@ == debug_of_quoted(app_reference@, email@),
{
    let mut r = text_of("BookingId { app_reference: ");
    r.append(app_reference);
    r.append(", email: ");
    r.append(email);
    r.append(" }");
    r
}

impl BookingIdView {
    /// The identifier as `Debug` writes it.
    pub open spec fn debug(self) -> Seq<char> {
        debug_of_quoted(debug_text_of(self.app_reference), debug_text_of(self.email))
    }
}

impl BookingId {
    /// The identifier as `Debug` writes it.
    pub fn debug_string(&self) -> (r: String)
        ensures
            r@ == self@.debug(),
    {
        let app_reference = debug_text(self.app_reference.as_str());
        let email = debug_text(self.email.as_str());
        debug_from_quoted(app_reference.as_str(), email.as_str())
    }
}

impl Clone for BookingId {
    fn clone(&self) -> (r: Self)
        ensures
            r@ == self@,
    {
        BookingId { app_reference: self.app_reference.clone(), email: self.email.clone() }
    }
}

impl Default for BookingId {
    fn default() -> (r: Self)
        ensures
            r@ == BookingIdView::empty(),
    {
        BookingId { app_reference: String::new(), email: String::new() }
    }
}

impl PartialEq for BookingId {
    fn eq(&self, other: &Self) -> (r: bool) {
        self.app_reference == other.app_reference && self.email == other.email
    }
}

impl Eq for BookingId {}

impl vstd::std_specs::cmp::PartialEqSpecImpl for BookingId {
    open spec fn obeys_eq_spec() -> bool {
        true
    }

    open spec fn eq_spec(&self, other: &Self) -> bool {
        self@ == other@
    }
}

impl OrderedKey for BookingId {
    open spec fn key_lt(a: BookingIdView, b: BookingIdView) -> bool {
        a.lt(b)
    }

    proof fn lemma_strict_total_order(a: BookingIdView, b: BookingIdView, c: BookingIdView) {
        lemma_text_lt_irreflexive(a.app_reference);
        lemma_text_lt_irreflexive(a.email);
        lemma_text_lt_irreflexive(b.app_reference);
        lemma_text_lt_total(a.app_reference, b.app_reference);
        lemma_text_lt_total(a.email, b.email);
        if a.lt(b) && b.lt(c) {
            if text_lt(a.app_reference, b.app_reference) && text_lt(
                b.app_reference,
                c.app_reference,
            ) {
                lemma_text_lt_transitive(a.app_reference, b.app_reference, c.app_reference);
            }
            if text_lt(a.email, b.email) && text_lt(b.email, c.email) {
                lemma_text_lt_transitive(a.email, b.email, c.email);
            }
        }
    }

    fn compare(&self, other: &Self) -> (r: KeyOrder) {
        proof {
            lemma_text_lt_irreflexive(self@.app_reference);
            lemma_text_lt_irreflexive(other@.app_reference);
        }
        match compare_text(self.app_reference.as_str(), other.app_reference.as_str()) {
            KeyOrder::Before => KeyOrder::Before,
            KeyOrder::After => KeyOrder::After,
            KeyOrder::Same => compare_text(self.email.as_str(), other.email.as_str()),
        }
    }

    fn duplicate(&self) -> (r: Self) {
        self.clone()
    }
}

/// Whether the gateway's status word says that the payment went through.
pub open spec fn is_success_status(status: Seq<char>) -> bool {
    status == "completed"@ || status == "finished"@
}

/// The payment status that follows from the gateway's status word, the
/// payment reference and the upper-case form of the status word.
pub open spec fn backend_status_of(
    status: Seq<char>,
    reference: Seq<char>,
    upper: Seq<char>,
) -> PaymentStatusView {
    if is_success_status(status) {
        PaymentStatusView::Paid(reference + " - COMPLETED"@)
    } else {
        PaymentStatusView::Unpaid(Some(reference + " - "@ + upper))
    }
}

/// The payment status for a status word whose upper-case form is `upper`.
pub fn backend_status_from_uppercase(status: &str, payment_id_v2: String, upper: &str) -> (r:
    BackendPaymentStatus)
    ensures
        r@ == backend_status_of(status@, payment_id_v2@, upper@),
{
    if same_text(status, "completed") || same_text(status, "finished") {
        PaymentStatus::Paid(join2(payment_id_v2.as_str(), " - COMPLETED"))
    } else {
        PaymentStatus::Unpaid(Some(join3(payment_id_v2.as_str(), " - ", upper)))
    }
}

/// The payment status that follows from the gateway's status word:
/// "completed" and "finished" mean paid, every other word means unpaid,
/// with the word itself, in upper case, as the reason.
pub fn payment_status_to_backend_status(status: &str, payment_id_v2: String) -> (r:
    BackendPaymentStatus)
    ensures
        r@ == backend_status_of(status@, payment_id_v2@, uppercase_of(status@)),
{
    let upper = to_uppercase(status);
    backend_status_from_uppercase(status, payment_id_v2, upper.as_str())
}

/// The hotel that a booking is for.
#[derive(Debug)]
pub struct HotelDetails {
    pub hotel_name: String,
    pub hotel_code: String,
    pub hotel_image: String,
    pub hotel_location: String,
    pub block_room_id: String,
    pub hotel_token: String,
}

/// What a `HotelDetails` holds, as mathematical values.
pub struct HotelDetailsView {
    pub hotel_name: Seq<char>,
    pub hotel_code: Seq<char>,
    pub hotel_image: Seq<char>,
    pub hotel_location: Seq<char>,
    pub block_room_id: Seq<char>,
    pub hotel_token: Seq<char>,
}

impl View for HotelDetails {
    type V = HotelDetailsView;

    open spec fn view(&self) -> HotelDetailsView {
        HotelDetailsView {
            hotel_name: self.hotel_name@,
            hotel_code: self.hotel_code@,
            hotel_image: self.hotel_image@,
            hotel_location: self.hotel_location@,
            block_room_id: self.block_room_id@,
            hotel_token: self.hotel_token@,
        }
    }
}

impl HotelDetailsView {
    pub open spec fn empty() -> HotelDetailsView {
        HotelDetailsView {
            hotel_name: Seq::empty(),
            hotel_code: Seq::empty(),
            hotel_image: Seq::empty(),
            hotel_location: Seq::empty(),
            block_room_id: Seq::empty(),
            hotel_token: Seq::empty(),
        }
    }
}

impl Clone for HotelDetails {
    fn clone(&self) -> (r: Self)
        ensures
            r@ == self@,
    {
        HotelDetails {
            hotel_name: self.hotel_name.clone(),
            hotel_code: self.hotel_code.clone(),
            hotel_image: self.hotel_image.clone(),
            hotel_location: self.hotel_location.clone(),
            block_room_id: self.block_room_id.clone(),
            hotel_token: self.hotel_token.clone(),
        }
    }
}

impl Default for HotelDetails {
    fn default() -> (r: Self)
        ensures
            r@ == HotelDetailsView::empty(),
    {
        HotelDetails {
            hotel_name: String::new(),
            hotel_code: String::new(),
            hotel_image: String::new(),
            hotel_location: String::new(),
            block_room_id: String::new(),
            hotel_token: String::new(),
        }
    }
}

/// The place that a booking is for.
#[derive(Debug)]
pub struct Destination {
    pub city: String,
    pub country_name: String,
    pub country_code: String,
    pub city_id: String,
}

/// What a `Destination` holds, as mathematical values.
pub struct DestinationView {
    pub city: Seq<char>,
    pub country_name: Seq<char>,
    pub country_code: Seq<char>,
    pub city_id: Seq<char>,
}

impl View for Destination {
    type V = DestinationView;

    open spec fn view(&self) -> DestinationView {
        DestinationView {
            city: self.city@,
            country_name: self.country_name@,
            country_code: self.country_code@,
            city_id: self.city_id@,
        }
    }
}

impl DeepView for Destination {
    type V = DestinationView;

    open spec fn deep_view(&self) -> DestinationView {
        self@
    }
}

impl Clone for Destination {
    fn clone(&self) -> (r: Self)
        ensures
            r@ == self@,
    {
        Destination {
            city: self.city.clone(),
            country_name: self.country_name.clone(),
            country_code: self.country_code.clone(),
            city_id: self.city_id.clone(),
        }
    }
}

impl PartialEq for Destination {
    fn eq(&self, other: &Self) -> (r: bool) {
        same_text(self.city.as_str(), other.city.as_str()) && same_text(
            self.country_name.as_str(),
            other.country_name.as_str(),
        ) && same_text(self.country_code.as_str(), other.country_code.as_str()) && same_text(
            self.city_id.as_str(),
            other.city_id.as_str(),
        )
    }
}

impl vstd::std_specs::cmp::PartialEqSpecImpl for Destination {
    open spec fn obeys_eq_spec() -> bool {
        true
    }

    open spec fn eq_spec(&self, other: &Self) -> bool {
        self@ == other@
    }
}

/// One room of a booking. The price is held as the bits of a 32-bit float.
#[derive(Debug)]
pub struct RoomDetails {
    pub room_type_name: String,
    pub room_unique_id: String,
    pub room_price_bits: u32,
}

/// What a `RoomDetails` holds, as mathematical values.
pub struct RoomDetailsView {
    pub room_type_name: Seq<char>,
    pub room_unique_id: Seq<char>,
    pub room_price_bits: u32,
}

impl View for RoomDetails {
    type V = RoomDetailsView;

    open spec fn view(&self) -> RoomDetailsView {
        RoomDetailsView {
            room_type_name: self.room_type_name@,
            room_unique_id: self.room_unique_id@,
            room_price_bits: self.room_price_bits,
        }
    }
}

impl DeepView for RoomDetails {
    type V = RoomDetailsView;

    open spec fn deep_view(&self) -> RoomDetailsView {
        self@
    }
}

impl Clone for RoomDetails {
    fn clone(&self) -> (r: Self)
        ensures
            r@ == self@,
    {
        RoomDetails {
            room_type_name: self.room_type_name.clone(),
            room_unique_id: self.room_unique_id.clone(),
            room_price_bits: self.room_price_bits,
        }
    }
}

impl Default for RoomDetails {
    fn default() -> (r: Self)
        ensures
            r@ == (RoomDetailsView {
                room_type_name: Seq::empty(),
                room_unique_id: Seq::empty(),
                room_price_bits: 0,
            }),
    {
        RoomDetails {
            room_type_name: String::new(),
            room_unique_id: String::new(),
            room_price_bits: 0,
        }
    }
}


/// What a guest chose: hotel, dates, place and rooms. The amount that was
/// asked for is held as the bits of a 64-bit float.
#[derive(Debug)]
pub struct HotelRoomDetails {
    pub hotel_details: HotelDetails,
    pub date_range: SelectedDateRange,
    pub destination: Option<Destination>,
    pub room_details: Vec<RoomDetails>,
    pub requested_payment_amount_bits: u64,
}

/// What a `HotelRoomDetails` holds, as mathematical values.
pub struct HotelRoomDetailsView {
    pub hotel_details: HotelDetailsView,
    pub date_range: SelectedDateRange,
    pub destination: Option<DestinationView>,
    pub room_details: Seq<RoomDetailsView>,
    pub requested_payment_amount_bits: u64,
}

impl View for HotelRoomDetails {
    type V = HotelRoomDetailsView;

    open spec fn view(&self) -> HotelRoomDetailsView {
        HotelRoomDetailsView {
            hotel_details: self.hotel_details@,
            date_range: self.date_range,
            destination: self.destination.deep_view(),
            room_details: self.room_details.deep_view(),
            requested_payment_amount_bits: self.requested_payment_amount_bits,
        }
    }
}

impl HotelRoomDetailsView {
    pub open spec fn empty() -> HotelRoomDetailsView {
        HotelRoomDetailsView {
            hotel_details: HotelDetailsView::empty(),
            date_range: SelectedDateRange { start: (0u32, 0u32, 0u32), end: (0u32, 0u32, 0u32) },
            destination: None,
            room_details: Seq::empty(),
            requested_payment_amount_bits: 0,
        }
    }

    /// The city of the destination, where there is one.
    pub open spec fn city(self) -> Option<Seq<char>> {
        match self.destination {
            Some(destination) => Some(destination.city),
            None => None,
        }
    }
}

impl Clone for HotelRoomDetails {
    fn clone(&self) -> (r: Self)
        ensures
            r@ == self@,
    {
        let destination = match &self.destination {
            Some(d) => Some(d.clone()),
            None => None,
        };
        let room_details = self.room_details.clone();
        proof {
            assert(room_details.deep_view() =~= self.room_details.deep_view());
        }
        HotelRoomDetails {
            hotel_details: self.hotel_details.clone(),
            date_range: self.date_range,
            destination,
            room_details,
            requested_payment_amount_bits: self.requested_payment_amount_bits,
        }
    }
}

impl Default for HotelRoomDetails {
    fn default() -> (r: Self)
        ensures
            r@ == HotelRoomDetailsView::empty(),
    {
        let r = HotelRoomDetails {
            hotel_details: HotelDetails::default(),
            date_range: SelectedDateRange::default(),
            destination: None,
            room_details: Vec::new(),
            requested_payment_amount_bits: 0,
        };
        proof {
            assert(r.room_details.deep_view() =~= Seq::empty());
        }
        r
    }
}

/// What the provider's interface said of a booking.
#[derive(Clone, Copy, Debug, PartialEq, Eq, Structural)]
pub enum BookingStatus {
    BookFailed,
    Confirmed,
}

impl Default for BookingStatus {
    fn default() -> (r: Self)
        ensures
            r == BookingStatus::BookFailed,
    {
        BookingStatus::BookFailed
    }
}

/// Where a booking stands in its room confirmation.
#[derive(Clone, Copy, Debug, PartialEq, Eq, Structural)]
pub enum ResolvedBookingStatus {
    BookingConfirmed,
    /// On hold: to be asked again until it is confirmed, cancelled or failed.
    BookingOnHold,
    BookingCancelled,
    BookingFailed,
    Unknown,
}

impl Default for ResolvedBookingStatus {
    fn default() -> (r: Self)
        ensures
            r == ResolvedBookingStatus::Unknown,
    {
        ResolvedBookingStatus::Unknown
    }
}

impl ResolvedBookingStatus {
    /// Confirmed, cancelled and failed are final.
    pub open spec fn terminal(self) -> bool {
        self is BookingConfirmed || self is BookingCancelled || self is BookingFailed
    }

    /// The steps that a booking may take: anything from `Unknown`; from
    /// `BookingOnHold` to any final status; from `BookingConfirmed` to
    /// itself; none from `BookingCancelled` or `BookingFailed`.
    pub open spec fn allows(self, next: ResolvedBookingStatus) -> bool {
        match self {
            ResolvedBookingStatus::Unknown => true,
            ResolvedBookingStatus::BookingConfirmed => next is BookingConfirmed,
            ResolvedBookingStatus::BookingOnHold => next.terminal(),
            ResolvedBookingStatus::BookingFailed => false,
            ResolvedBookingStatus::BookingCancelled => false,
        }
    }

    /// The name of the status.
    pub open spec fn name(self) -> Seq<char> {
        match self {
            ResolvedBookingStatus::BookingConfirmed => "BookingConfirmed"@,
            ResolvedBookingStatus::BookingOnHold => "BookingOnHold"@,
            ResolvedBookingStatus::BookingCancelled => "BookingCancelled"@,
            ResolvedBookingStatus::BookingFailed => "BookingFailed"@,
            ResolvedBookingStatus::Unknown => "Unknown"@,
        }
    }

    pub fn is_terminal(&self) -> (r: bool)
        ensures
            r == self.terminal(),
    {
        match self {
            ResolvedBookingStatus::BookingConfirmed => true,
            ResolvedBookingStatus::BookingCancelled => true,
            ResolvedBookingStatus::BookingFailed => true,
            _ => false,
        }
    }

    pub fn is_valid_transition(&self, next: &ResolvedBookingStatus) -> (r: bool)
        ensures
            r == self.allows(*next),
    {
        match self {
            ResolvedBookingStatus::Unknown => true,
            ResolvedBookingStatus::BookingConfirmed => match next {
                ResolvedBookingStatus::BookingConfirmed => true,
                _ => false,
            },
            ResolvedBookingStatus::BookingOnHold => next.is_terminal(),
            ResolvedBookingStatus::BookingFailed => false,
            ResolvedBookingStatus::BookingCancelled => false,
        }
    }

    /// The name of the status, as a text.
    pub fn name_text(&self) -> (r: &'static str)
        ensures
            r@ == self.name(),
    {
        match self {
            ResolvedBookingStatus::BookingConfirmed => "BookingConfirmed",
            ResolvedBookingStatus::BookingOnHold => "BookingOnHold",
            ResolvedBookingStatus::BookingCancelled => "BookingCancelled",
            ResolvedBookingStatus::BookingFailed => "BookingFailed",
            ResolvedBookingStatus::Unknown => "Unknown",
        }
    }
}

/// A final status allows no step but from confirmed to confirmed.
pub proof fn lemma_terminal_status_is_final(from: ResolvedBookingStatus, to: ResolvedBookingStatus)
    requires
        from.terminal(),
    ensures
        from.allows(to) <==> (from is BookingConfirmed && to is BookingConfirmed),
{
}

/// The provider's record of a booking.
#[derive(Debug)]
pub struct BookingDetails {
    pub booking_id: BookingId,
    pub travelomatrix_id: String,
    pub booking_ref_no: String,
    pub confirmation_no: String,
    pub api_status: BookingStatus,
    pub resolved_booking_status: ResolvedBookingStatus,
    pub booking_status: String,
}

/// What a `BookingDetails` holds, as mathematical values.
pub struct BookingDetailsView {
    pub booking_id: BookingIdView,
    pub travelomatrix_id: Seq<char>,
    pub booking_ref_no: Seq<char>,
    pub confirmation_no: Seq<char>,
    pub api_status: BookingStatus,
    pub resolved_booking_status: ResolvedBookingStatus,
    pub booking_status: Seq<char>,
}

impl View for BookingDetails {
    type V = BookingDetailsView;

    open spec fn view(&self) -> BookingDetailsView {
        BookingDetailsView {
            booking_id: self.booking_id@,
            travelomatrix_id: self.travelomatrix_id@,
            booking_ref_no: self.booking_ref_no@,
            confirmation_no: self.confirmation_no@,
            api_status: self.api_status,
            resolved_booking_status: self.resolved_booking_status,
            booking_status: self.booking_status@,
        }
    }
}

impl BookingDetailsView {
    pub open spec fn empty() -> BookingDetailsView {
        BookingDetailsView {
            booking_id: BookingIdView::empty(),
            travelomatrix_id: Seq::empty(),
            booking_ref_no: Seq::empty(),
            confirmation_no: Seq::empty(),
            api_status: BookingStatus::BookFailed,
            resolved_booking_status: ResolvedBookingStatus::Unknown,
            booking_status: Seq::empty(),
        }
    }
}

impl Clone for BookingDetails {
    fn clone(&self) -> (r: Self)
        ensures
            r@ == self@,
    {
        BookingDetails {
            booking_id: self.booking_id.clone(),
            travelomatrix_id: self.travelomatrix_id.clone(),
            booking_ref_no: self.booking_ref_no.clone(),
            confirmation_no: self.confirmation_no.clone(),
            api_status: self.api_status,
            resolved_booking_status: self.resolved_booking_status,
            booking_status: self.booking_status.clone(),
        }
    }
}

impl PartialEq for BookingDetails {
    fn eq(&self, other: &Self) -> (r: bool) {
        self.booking_id == other.booking_id && same_text(
            self.travelomatrix_id.as_str(),
            other.travelomatrix_id.as_str(),
        ) && same_text(self.booking_ref_no.as_str(), other.booking_ref_no.as_str()) && same_text(
            self.confirmation_no.as_str(),
            other.confirmation_no.as_str(),
        ) && self.api_status == other.api_status && self.resolved_booking_status
            == other.resolved_booking_status && same_text(
            self.booking_status.as_str(),
            other.booking_status.as_str(),
        )
    }
}

impl vstd::std_specs::cmp::PartialEqSpecImpl for BookingDetails {
    open spec fn obeys_eq_spec() -> bool {
        true
    }

    open spec fn eq_spec(&self, other: &Self) -> bool {
        self@ == other@
    }
}

impl Default for BookingDetails {
    fn default() -> (r: Self)
        ensures
            r@ == BookingDetailsView::empty(),
    {
        BookingDetails {
            booking_id: BookingId::default(),
            travelomatrix_id: String::new(),
            booking_ref_no: String::new(),
            confirmation_no: String::new(),
            api_status: BookingStatus::BookFailed,
            resolved_booking_status: ResolvedBookingStatus::Unknown,
            booking_status: String::new(),
        }
    }
}

/// The answer to a request to book a room.
#[derive(Debug)]
pub struct BEBookRoomResponse {
    pub status: String,
    pub message: String,
    pub commit_booking: BookingDetails,
}

/// What a `BEBookRoomResponse` holds, as mathematical values.
pub struct BEBookRoomResponseView {
    pub status: Seq<char>,
    pub message: Seq<char>,
    pub commit_booking: BookingDetailsView,
}

impl View for BEBookRoomResponse {
    type V = BEBookRoomResponseView;

    open spec fn view(&self) -> BEBookRoomResponseView {
        BEBookRoomResponseView {
            status: self.status@,
            message: self.message@,
            commit_booking: self.commit_booking@,
        }
    }
}

impl DeepView for BEBookRoomResponse {
    type V = BEBookRoomResponseView;

    open spec fn deep_view(&self) -> BEBookRoomResponseView {
        self@
    }
}

impl Clone for BEBookRoomResponse {
    fn clone(&self) -> (r: Self)
        ensures
            r@ == self@,
    {
        BEBookRoomResponse {
            status: self.status.clone(),
            message: self.message.clone(),
            commit_booking: self.commit_booking.clone(),
        }
    }
}

impl Default for BEBookRoomResponse {
    fn default() -> (r: Self)
        ensures
            r@ == (BEBookRoomResponseView {
                status: Seq::empty(),
                message: Seq::empty(),
                commit_booking: BookingDetailsView::empty(),
            }),
    {
        BEBookRoomResponse {
            status: String::new(),
            message: String::new(),
            commit_booking: BookingDetails::default(),
        }
    }
}


/// A booking of one user.
#[derive(Debug)]
pub struct Booking {
    pub booking_id: BookingId,
    pub guests: UserDetails,
    /// The room confirmation, once the provider has answered.
    pub book_room_status: Option<BEBookRoomResponse>,
    pub user_selected_hotel_room_details: HotelRoomDetails,
    pub payment_details: PaymentDetails,
}

/// What a `Booking` holds, as mathematical values.
pub struct BookingView {
    pub booking_id: BookingIdView,
    pub guests: UserDetailsView,
    pub book_room_status: Option<BEBookRoomResponseView>,
    pub user_selected_hotel_room_details: HotelRoomDetailsView,
    pub payment_details: PaymentDetailsView,
}

impl View for Booking {
    type V = BookingView;

    open spec fn view(&self) -> BookingView {
        BookingView {
            booking_id: self.booking_id@,
            guests: self.guests@,
            book_room_status: self.book_room_status.deep_view(),
            user_selected_hotel_room_details: self.user_selected_hotel_room_details@,
            payment_details: self.payment_details@,
        }
    }
}

impl DeepView for Booking {
    type V = BookingView;

    open spec fn deep_view(&self) -> BookingView {
        self@
    }
}

/// The payment status that follows from a gateway answer.
pub open spec fn derived_status(
    response: crate::models::payment_details::BEPaymentApiResponseView,
) -> PaymentStatusView {
    backend_status_of(
        response.payment_status,
        response.payment_id_v2,
        uppercase_of(response.payment_status),
    )
}

/// The text that says which step of the room confirmation was refused.
pub open spec fn invalid_transition_message(
    from: ResolvedBookingStatus,
    to: ResolvedBookingStatus,
) -> Seq<char> {
    "Invalid status transition from "@ + from.name() + " to "@ + to.name()
}

impl BookingView {
    /// A booking with the default in every field.
    pub open spec fn empty() -> BookingView {
        BookingView {
            booking_id: BookingIdView::empty(),
            guests: UserDetailsView { adults: Seq::empty(), children: Seq::empty() },
            book_room_status: None,
            user_selected_hotel_room_details: HotelRoomDetailsView::empty(),
            payment_details: PaymentDetailsView::fresh(BookingIdView::empty()),
        }
    }

    /// A booking needs at least one adult guest.
    pub open spec fn valid(self) -> bool {
        self.guests.adults.len() > 0
    }

    /// Where the booking stands in its room confirmation: `Unknown` until
    /// the provider has answered.
    pub open spec fn resolved_status(self) -> ResolvedBookingStatus {
        match self.book_room_status {
            Some(response) => response.commit_booking.resolved_booking_status,
            None => ResolvedBookingStatus::Unknown,
        }
    }

    /// The provider's word for the booking's status.
    pub open spec fn booking_status(self) -> Seq<char> {
        match self.book_room_status {
            Some(response) => response.commit_booking.booking_status,
            None => "BookFailed"@,
        }
    }

    pub open spec fn api_status(self) -> BookingStatus {
        match self.book_room_status {
            Some(response) => response.commit_booking.api_status,
            None => BookingStatus::BookFailed,
        }
    }

    /// The payment reference of the booking; empty where it has none.
    pub open spec fn payment_reference(self) -> Seq<char> {
        self.payment_details.payment_api_response.payment_id_v2
    }

    /// The booking with new payment details, whose status is derived from
    /// the gateway answer that they hold.
    pub open spec fn with_payment(self, payment: PaymentDetailsView) -> BookingView {
        BookingView {
            payment_details: PaymentDetailsView {
                payment_status: derived_status(payment.payment_api_response),
                ..payment
            },
            ..self
        }
    }

    /// One line on the booking, for a stay of `nights` nights.
    pub open spec fn summary_line(self, nights: nat) -> Seq<char> {
        let city = match self.user_selected_hotel_room_details.city() {
            Some(city) => city,
            None => "Unknown"@,
        };
        self.user_selected_hotel_room_details.hotel_details.hotel_name + " at "@ + city + " ("@
            + decimal_digits(nights) + " nights) - "@ + self.payment_details.payment_status.display()
    }
}

impl Clone for Booking {
    fn clone(&self) -> (r: Self)
        ensures
            r@ == self@,
    {
        let book_room_status = match &self.book_room_status {
            Some(response) => Some(response.clone()),
            None => None,
        };
        Booking {
            booking_id: self.booking_id.clone(),
            guests: self.guests.clone(),
            book_room_status,
            user_selected_hotel_room_details: self.user_selected_hotel_room_details.clone(),
            payment_details: self.payment_details.clone(),
        }
    }
}

impl Default for Booking {
    fn default() -> (r: Self)
        ensures
            r@ == BookingView::empty(),
    {
        Booking {
            booking_id: BookingId::default(),
            guests: UserDetails::default(),
            book_room_status: None,
            user_selected_hotel_room_details: HotelRoomDetails::default(),
            payment_details: PaymentDetails::default(),
        }
    }
}

impl Booking {
    /// A booking of the given parts. It is refused without an adult guest.
    pub fn new(
        booking_id: BookingId,
        guests: UserDetails,
        book_room_status: Option<BEBookRoomResponse>,
        user_selected_hotel_room_details: HotelRoomDetails,
        payment_details: PaymentDetails,
    ) -> (r: Result<Self, String>)
        ensures
            match r {
                Ok(booking) => guests@.adults.len() > 0 && booking@ == (BookingView {
                    booking_id: booking_id@,
                    guests: guests@,
                    book_room_status: book_room_status.deep_view(),
                    user_selected_hotel_room_details: user_selected_hotel_room_details@,
                    payment_details: payment_details@,
                }),
                Err(e) => guests@.adults.len() == 0 && e@ == "At least one adult guest required"@,
            },
    {
        let booking = Booking {
            booking_id,
            guests,
            book_room_status,
            user_selected_hotel_room_details,
            payment_details,
        };
        match booking.validate() {
            Ok(_) => Ok(booking),
            Err(e) => Err(e),
        }
    }

    /// Accepts a booking with at least one adult guest.
    pub fn validate(&self) -> (r: Result<(), String>)
        ensures
            match r {
                Ok(_) => self@.valid(),
                Err(e) => !self@.valid() && e@ == "At least one adult guest required"@,
            },
    {
        if self.guests.adults.len() == 0 {
            return Err(text_of("At least one adult guest required"));
        }
        Ok(())
    }

    /// The provider's word for the booking's status; "BookFailed" until
    /// the provider has answered.
    pub fn get_booking_status(&self) -> (r: String)
        ensures
            r@ == self@.booking_status(),
    {
        match &self.book_room_status {
            Some(response) => response.commit_booking.booking_status.clone(),
            None => text_of("BookFailed"),
        }
    }

    pub fn get_booking_api_status(&self) -> (r: BookingStatus)
        ensures
            r == self@.api_status(),
    {
        match &self.book_room_status {
            Some(response) => response.commit_booking.api_status,
            None => BookingStatus::BookFailed,
        }
    }

    /// The amount that was asked for, as the bits of a 64-bit float.
    pub fn get_requested_payment_amount_bits(&self) -> (r: u64)
        ensures
            r == self@.user_selected_hotel_room_details.requested_payment_amount_bits,
    {
        self.user_selected_hotel_room_details.requested_payment_amount_bits
    }

    /// One line on the booking: hotel, city, nights and payment.
    pub fn get_booking_summary(&self) -> (r: String)
        ensures
            r@ == self@.summary_line(
                self@.user_selected_hotel_room_details.date_range.nights() as nat,
            ),
    {
        let nights = self.user_selected_hotel_room_details.date_range.no_of_nights();
        self.summary_for_nights(nights)
    }

    /// One line on the booking, for a stay of `nights` nights.
    pub fn summary_for_nights(&self, nights: u32) -> (r: String)
        ensures
            r@ == self@.summary_line(nights as nat),
    {
        let mut r = self.user_selected_hotel_room_details.hotel_details.hotel_name.clone();
        r.append(" at ");
        match &self.user_selected_hotel_room_details.destination {
            Some(destination) => {
                r.append(destination.city.as_str());
            },
            None => {
                r.append("Unknown");
            },
        }
        r.append(" (");
        r.append(decimal_text(nights as u64).as_str());
        r.append(" nights) - ");
        r.append(self.payment_details.get_status_display().as_str());
        r
    }

    fn update_payment_status(&mut self, new_status: BackendPaymentStatus)
        ensures
            final(self)@ == (BookingView {
                payment_details: PaymentDetailsView {
                    payment_status: new_status@,
                    ..old(self)@.payment_details
                },
                ..old(self)@
            }),
    {
        self.payment_details.payment_status = new_status;
    }

    /// Sets the payment status to the one that follows from a gateway
    /// answer.
    pub fn update_backend_payment_status_from_api(&mut self, api_response: &BEPaymentApiResponse)
        ensures
            final(self)@ == (BookingView {
                payment_details: PaymentDetailsView {
                    payment_status: derived_status(api_response@),
                    ..old(self)@.payment_details
                },
                ..old(self)@
            }),
    {
        let payment_status = payment_status_to_backend_status(
            api_response.payment_status.as_str(),
            api_response.payment_id_v2.clone(),
        );
        self.update_payment_status(payment_status);
    }

    pub fn get_book_room_status(&self) -> (r: Option<&BEBookRoomResponse>)
        ensures
            match r {
                Some(response) => self.book_room_status == Some(*response),
                None => self.book_room_status is None,
            },
    {
        self.book_room_status.as_ref()
    }

    /// Takes a new room confirmation where the step from the present
    /// status to its status is allowed, and refuses it otherwise, leaving
    /// the booking as it was.
    pub fn update_book_room_status(&mut self, new_status: BEBookRoomResponse) -> (r: Result<
        (),
        String,
    >)
        ensures
            match r {
                Ok(_) => old(self)@.resolved_status().allows(
                    new_status@.commit_booking.resolved_booking_status,
                ) && final(self)@ == (BookingView {
                    book_room_status: Some(new_status@),
                    ..old(self)@
                }),
                Err(e) => !old(self)@.resolved_status().allows(
                    new_status@.commit_booking.resolved_booking_status,
                ) && final(self)@ == old(self)@ && e@ == invalid_transition_message(
                    old(self)@.resolved_status(),
                    new_status@.commit_booking.resolved_booking_status,
                ),
            },
    {
        let current_status = match &self.book_room_status {
            Some(status) => status.commit_booking.resolved_booking_status,
            None => ResolvedBookingStatus::Unknown,
        };
        let next_status = new_status.commit_booking.resolved_booking_status;
        if !current_status.is_valid_transition(&next_status) {
            let mut message = text_of("Invalid status transition from ");
            message.append(current_status.name_text());
            message.append(" to ");
            message.append(next_status.name_text());
            return Err(message);
        }
        self.book_room_status = Some(new_status);
        Ok(())
    }

    /// Takes new payment details and derives the payment status from the
    /// gateway answer that they hold.
    pub fn update_payment_details_with_api_response(&mut self, payment_details: PaymentDetails)
        ensures
            final(self)@ == old(self)@.with_payment(payment_details@),
    {
        let api_response = payment_details.payment_api_response.clone();
        self.payment_details = payment_details;
        self.update_backend_payment_status_from_api(&api_response);
    }
}

/// What a list of all bookings shows of one booking.
#[derive(Debug)]
pub struct BookingSummary {
    pub booking_id: BookingId,
    pub payment_id: String,
    pub user_email: String,
    pub hotel_name: String,
    pub destination: String,
    pub booking_dates: String,
    pub nights: u32,
    pub payment_status: String,
    pub booking_status: String,
}

/// What a `BookingSummary` holds, as mathematical values.
pub struct BookingSummaryView {
    pub booking_id: BookingIdView,
    pub payment_id: Seq<char>,
    pub user_email: Seq<char>,
    pub hotel_name: Seq<char>,
    pub destination: Seq<char>,
    pub booking_dates: Seq<char>,
    pub nights: u32,
    pub payment_status: Seq<char>,
    pub booking_status: Seq<char>,
}

impl View for BookingSummary {
    type V = BookingSummaryView;

    open spec fn view(&self) -> BookingSummaryView {
        BookingSummaryView {
            booking_id: self.booking_id@,
            payment_id: self.payment_id@,
            user_email: self.user_email@,
            hotel_name: self.hotel_name@,
            destination: self.destination@,
            booking_dates: self.booking_dates@,
            nights: self.nights,
            payment_status: self.payment_status@,
            booking_status: self.booking_status@,
        }
    }
}

impl DeepView for BookingSummary {
    type V = BookingSummaryView;

    open spec fn deep_view(&self) -> BookingSummaryView {
        self@
    }
}

impl BookingSummaryView {
    /// The summary of a booking of the user with the given e-mail, for a
    /// stay of `nights` nights.
    pub open spec fn of(email: Seq<char>, booking: BookingView, nights: u32) -> BookingSummaryView {
        let range = booking.user_selected_hotel_room_details.date_range;
        BookingSummaryView {
            booking_id: booking.booking_id,
            payment_id: decimal_digits(booking.payment_details.payment_api_response.payment_id as nat),
            user_email: email,
            hotel_name: booking.user_selected_hotel_room_details.hotel_details.hotel_name,
            destination: match booking.user_selected_hotel_room_details.city() {
                Some(city) => city,
                None => Seq::empty(),
            },
            booking_dates: iso_date_text(range.start) + " - "@ + iso_date_text(range.end),
            nights,
            payment_status: booking.payment_details.payment_status.display(),
            booking_status: booking.booking_status(),
        }
    }
}

impl Clone for BookingSummary {
    fn clone(&self) -> (r: Self)
        ensures
            r@ == self@,
    {
        BookingSummary {
            booking_id: self.booking_id.clone(),
            payment_id: self.payment_id.clone(),
            user_email: self.user_email.clone(),
            hotel_name: self.hotel_name.clone(),
            destination: self.destination.clone(),
            booking_dates: self.booking_dates.clone(),
            nights: self.nights,
            payment_status: self.payment_status.clone(),
            booking_status: self.booking_status.clone(),
        }
    }
}

impl BookingSummary {
    /// The summary of a booking of the user with the given e-mail, for a
    /// stay of `nights` nights.
    pub fn for_nights(email: &str, booking: &Booking, nights: u32) -> (r: Self)
        ensures
            r@ == BookingSummaryView::of(email@, booking@, nights),
    {
        let destination = match &booking.user_selected_hotel_room_details.destination {
            Some(d) => d.city.clone(),
            None => String::new(),
        };
        BookingSummary {
            booking_id: booking.booking_id.clone(),
            payment_id: decimal_text(booking.payment_details.payment_api_response.payment_id),
            user_email: text_of(email),
            hotel_name: booking.user_selected_hotel_room_details.hotel_details.hotel_name.clone(),
            destination,
            nights,
            payment_status: booking.payment_details.get_status_display(),
            booking_status: booking.get_booking_status(),
            booking_dates: booking.user_selected_hotel_room_details.date_range.to_string(),
        }
    }
}

impl<'a> From<(&'a str, &'a Booking)> for BookingSummary {
    /// The summary of a booking of the user with the given e-mail.
    fn from(pair: (&'a str, &'a Booking)) -> (r: Self)
        ensures
            r@ == BookingSummaryView::of(
                pair.0@,
                pair.1@,
                pair.1@.user_selected_hotel_room_details.date_range.nights() as u32,
            ),
    {
        let nights = pair.1.user_selected_hotel_room_details.date_range.no_of_nights();
        BookingSummary::for_nights(pair.0, pair.1, nights)
    }
}

impl<'a> vstd::std_specs::convert::FromSpecImpl<(&'a str, &'a Booking)> for BookingSummary {
    open spec fn obeys_from_spec() -> bool {
        false
    }

    open spec fn from_spec(pair: (&'a str, &'a Booking)) -> Self {
        arbitrary()
    }
}

} // verus!
