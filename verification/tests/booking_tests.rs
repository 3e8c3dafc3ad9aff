use backend::{
    greeting, payment_status_to_backend_status, AdultDetail, BEBookRoomResponse, Booking,
    BookingDetails, BookingId, BookingStatus, BookingSummary, CanisterState, ChildDetail,
    Destination, EmailSentStruct, GreetParams, HotelRoomDetails, PaymentDetails, PaymentStatus,
    ResolvedBookingStatus, SelectedDateRange, UserDetails, UserInfoAndBookings,
};

fn adult(email: Option<&str>, phone: Option<&str>) -> AdultDetail {
    AdultDetail {
        first_name: "John".to_string(),
        last_name: Some("Doe".to_string()),
        email: email.map(|s| s.to_string()),
        phone: phone.map(|s| s.to_string()),
    }
}

fn booking_for(app_ref: &str, email: &str) -> Booking {
    let booking_id = BookingId::new(app_ref.to_string(), email.to_string());
    let mut details = HotelRoomDetails::default();
    details.hotel_details.hotel_name = "Test Hotel".to_string();
    details.date_range = SelectedDateRange { start: (2023, 1, 1), end: (2023, 1, 5) };
    details.destination = Some(Destination {
        city: "Test City".to_string(),
        country_name: "Test Country".to_string(),
        country_code: "TC".to_string(),
        city_id: "TC001".to_string(),
    });
    Booking::new(
        booking_id.clone(),
        UserDetails { adults: vec![adult(Some(email), Some("1234567890"))], children: vec![] },
        None,
        details,
        PaymentDetails::new(booking_id),
    )
    .unwrap()
}

fn response_with(status: ResolvedBookingStatus, id: &BookingId) -> BEBookRoomResponse {
    BEBookRoomResponse {
        status: "Success".to_string(),
        message: "Room booked".to_string(),
        commit_booking: BookingDetails {
            booking_id: id.clone(),
            travelomatrix_id: "TM123".to_string(),
            booking_ref_no: "REF123".to_string(),
            confirmation_no: "CONF123".to_string(),
            api_status: BookingStatus::Confirmed,
            resolved_booking_status: status,
            booking_status: "Confirmed".to_string(),
        },
    }
}

const ALL_STATUSES: [ResolvedBookingStatus; 5] = [
    ResolvedBookingStatus::Unknown,
    ResolvedBookingStatus::BookingOnHold,
    ResolvedBookingStatus::BookingConfirmed,
    ResolvedBookingStatus::BookingCancelled,
    ResolvedBookingStatus::BookingFailed,
];

fn allowed(from: ResolvedBookingStatus, to: ResolvedBookingStatus) -> bool {
    match (from, to) {
        (ResolvedBookingStatus::Unknown, _) => true,
        (ResolvedBookingStatus::BookingOnHold, ResolvedBookingStatus::BookingConfirmed) => true,
        (ResolvedBookingStatus::BookingOnHold, ResolvedBookingStatus::BookingCancelled) => true,
        (ResolvedBookingStatus::BookingOnHold, ResolvedBookingStatus::BookingFailed) => true,
        (ResolvedBookingStatus::BookingConfirmed, ResolvedBookingStatus::BookingConfirmed) => true,
        _ => false,
    }
}

#[test]
fn transition_table_is_the_one_of_the_state_machine() {
    for from in ALL_STATUSES {
        for to in ALL_STATUSES {
            assert_eq!(from.is_valid_transition(&to), allowed(from, to));
        }
    }
    assert!(!ResolvedBookingStatus::Unknown.is_terminal());
    assert!(!ResolvedBookingStatus::BookingOnHold.is_terminal());
    assert!(ResolvedBookingStatus::BookingConfirmed.is_terminal());
    assert!(ResolvedBookingStatus::BookingCancelled.is_terminal());
    assert!(ResolvedBookingStatus::BookingFailed.is_terminal());
    assert_eq!(ResolvedBookingStatus::default(), ResolvedBookingStatus::Unknown);
}

#[test]
fn every_refused_step_leaves_the_status_as_it_was() {
    for from in ALL_STATUSES {
        for to in ALL_STATUSES {
            let mut booking = booking_for("APP1", "a@example.com");
            let id = booking.booking_id.clone();
            if from != ResolvedBookingStatus::Unknown {
                booking.book_room_status = Some(response_with(from, &id));
            }
            let result = booking.update_book_room_status(response_with(to, &id));
            let now = booking
                .get_book_room_status()
                .map(|r| r.commit_booking.resolved_booking_status)
                .unwrap_or(ResolvedBookingStatus::Unknown);
            if allowed(from, to) {
                assert!(result.is_ok());
                assert_eq!(now, to);
            } else {
                assert_eq!(
                    result.unwrap_err(),
                    format!("Invalid status transition from {:?} to {:?}", from, to)
                );
                assert_eq!(now, from);
            }
        }
    }
}

#[test]
fn on_hold_may_be_cancelled_and_cancelled_is_final() {
    let mut state = CanisterState::new();
    let booking = booking_for("APP1", "a@example.com");
    let id = booking.booking_id.clone();
    state.add_booking_and_user("a@example.com", booking).unwrap();

    assert_eq!(
        state
            .update_book_room_response(id.clone(), response_with(ResolvedBookingStatus::BookingOnHold, &id))
            .unwrap(),
        "Success"
    );
    assert!(state
        .update_book_room_response(id.clone(), response_with(ResolvedBookingStatus::BookingCancelled, &id))
        .is_ok());
    let now = state.get_booking_by_id(&id).unwrap();
    assert_eq!(
        now.book_room_status.as_ref().unwrap().commit_booking.resolved_booking_status,
        ResolvedBookingStatus::BookingCancelled
    );

    let error = state
        .update_book_room_response(id.clone(), response_with(ResolvedBookingStatus::BookingConfirmed, &id))
        .unwrap_err();
    assert_eq!(error, "Invalid status transition from BookingCancelled to BookingConfirmed");
    let now = state.get_booking_by_id(&id).unwrap();
    assert_eq!(
        now.book_room_status.as_ref().unwrap().commit_booking.resolved_booking_status,
        ResolvedBookingStatus::BookingCancelled
    );
}

#[test]
fn room_response_for_an_unknown_booking_is_refused() {
    let mut state = CanisterState::new();
    let booking = booking_for("APP1", "a@example.com");
    let id = booking.booking_id.clone();
    state.add_booking_and_user("a@example.com", booking).unwrap();
    let stranger = BookingId::new("APP1".to_string(), "b@example.com".to_string());
    assert_eq!(
        state.update_book_room_response(stranger.clone(), response_with(ResolvedBookingStatus::Unknown, &id)).unwrap_err(),
        "User with email 'b@example.com' not found"
    );
    let missing = BookingId::new("APP2".to_string(), "a@example.com".to_string());
    assert_eq!(
        state.update_book_room_response(missing, response_with(ResolvedBookingStatus::Unknown, &id)).unwrap_err(),
        "Booking with app_refrence 'APP2' not found"
    );
}

#[test]
fn adding_a_booking_twice_fails_and_changes_nothing() {
    let mut state = CanisterState::new();
    let booking = booking_for("APP1", "a@example.com");
    let id = booking.booking_id.clone();
    assert_eq!(state.add_booking_and_user("a@example.com", booking).unwrap(), "Success");

    let mut again = booking_for("APP1", "a@example.com");
    again.user_selected_hotel_room_details.hotel_details.hotel_name = "Other Hotel".to_string();
    assert_eq!(
        state.add_booking_and_user("a@example.com", again).unwrap_err(),
        "Booking ID already exists"
    );
    assert_eq!(state.users.len(), 1);
    assert_eq!(state.get_user_bookings("a@example.com").unwrap().len(), 1);
    assert_eq!(
        state.get_booking_by_id(&id).unwrap().user_selected_hotel_room_details.hotel_details.hotel_name,
        "Test Hotel"
    );

    let mut user = UserInfoAndBookings::default();
    assert!(user.add_booking(booking_for("APP1", "a@example.com")).is_ok());
    assert_eq!(
        user.add_booking(booking_for("APP1", "a@example.com")).unwrap_err(),
        "Booking ID already exists"
    );
    assert_eq!(user.bookings.len(), 1);
}

#[test]
fn users_are_made_with_their_first_booking() {
    let mut state = CanisterState::new();
    assert!(state.get_user_profile("a@example.com").is_none());
    assert!(state.get_user_bookings("a@example.com").is_none());
    state.add_booking_and_user("a@example.com", booking_for("APP2", "a@example.com")).unwrap();
    state.add_booking_and_user("a@example.com", booking_for("APP1", "a@example.com")).unwrap();
    state.add_booking_and_user("0@example.com", booking_for("APP3", "0@example.com")).unwrap();
    assert!(state.get_user_profile("a@example.com").is_some());
    let bookings = state.get_user_bookings("a@example.com").unwrap();
    assert_eq!(bookings.len(), 2);
    assert_eq!(bookings.key_at(0).get_app_reference(), "APP1");
    assert_eq!(bookings.key_at(1).get_app_reference(), "APP2");
    assert_eq!(state.users.key_at(0), "0@example.com");
    let list = state.list_user_bookings("a@example.com").unwrap();
    assert_eq!(list.len(), 2);
    assert_eq!(list[1].booking_id.get_app_reference(), "APP2");
    assert!(state.list_user_bookings("x@example.com").is_none());
}

#[test]
fn booking_needs_an_adult() {
    let id = BookingId::new("APP1".to_string(), "a@example.com".to_string());
    let result = Booking::new(
        id.clone(),
        UserDetails::new(),
        None,
        HotelRoomDetails::default(),
        PaymentDetails::new(id),
    );
    assert_eq!(result.unwrap_err(), "At least one adult guest required");
    assert!(booking_for("APP1", "a@example.com").validate().is_ok());
}

#[test]
fn guests_are_validated() {
    assert_eq!(UserDetails::new().validate().unwrap_err(), "At least one adult required");
    let no_phone = UserDetails { adults: vec![adult(Some("a@b.c"), None)], children: vec![] };
    assert_eq!(no_phone.validate().unwrap_err(), "Primary adult must provide email and phone");
    assert!(no_phone.get_primary_contact().is_none());
    let full = UserDetails {
        adults: vec![adult(Some("a@b.c"), Some("123")), adult(None, None)],
        children: vec![ChildDetail { first_name: "Kid".to_string(), last_name: None, age: 7 }],
    };
    assert!(full.validate().is_ok());
    assert_eq!(full.get_primary_contact(), Some(("a@b.c".to_string(), "123".to_string())));
    assert!(UserDetails::new().get_primary_contact().is_none());
    let user = UserInfoAndBookings { primary_user: adult(Some("a@b.c"), Some("123")), bookings: backend::OrderedMap::new() };
    assert_eq!(user.get_contact_info(), Some(("a@b.c".to_string(), "123".to_string())));
    assert!(UserInfoAndBookings::default().get_contact_info().is_none());
}

#[test]
fn payment_status_follows_the_gateway_word() {
    for word in ["completed", "finished"] {
        match payment_status_to_backend_status(word, "TX9".to_string()) {
            PaymentStatus::Paid(reference) => assert_eq!(reference, "TX9 - COMPLETED"),
            other => panic!("{:?}", other),
        }
    }
    for word in ["failed", "cancelled", "expired", "refunded", "waiting", "Straße", ""] {
        match payment_status_to_backend_status(word, "TX9".to_string()) {
            PaymentStatus::Unpaid(Some(reason)) => {
                assert_eq!(reason, format!("TX9 - {}", word.to_uppercase()))
            }
            other => panic!("{:?}", other),
        }
    }
    match payment_status_to_backend_status("failed", "TX9".to_string()) {
        PaymentStatus::Unpaid(Some(reason)) => assert_eq!(reason, "TX9 - FAILED"),
        other => panic!("{:?}", other),
    }
}

#[test]
fn payment_details_tell_their_status() {
    let id = BookingId::new("APP1".to_string(), "a@example.com".to_string());
    let mut payment = PaymentDetails::new(id);
    assert!(!payment.is_paid());
    assert_eq!(payment.get_status_display(), "Awaiting payment");
    assert!(payment.process_payment("TX1".to_string()).is_ok());
    assert!(payment.is_paid());
    assert_eq!(payment.get_status_display(), "Payment confirmed (Ref: TX1)");
    payment.mark_payment_failed("declined".to_string());
    assert!(!payment.is_paid());
    assert_eq!(payment.get_status_display(), "Payment failed: declined");
    assert!(matches!(PaymentStatus::default(), PaymentStatus::Unpaid(None)));
}

#[test]
fn date_range_counts_nights_and_writes_dates() {
    let range = SelectedDateRange { start: (2023, 1, 1), end: (2023, 1, 5) };
    assert_eq!(range.no_of_nights(), 4);
    assert_eq!(range.to_string(), "2023-01-01 - 2023-01-05");
    assert_eq!(range.format_as_human_readable_date(), "Sun, Jan 01 - Thu, Jan 05");
    assert_eq!(SelectedDateRange::format_date((2023, 1, 5)), "05-01-2023");
    assert_eq!(SelectedDateRange::format_date((12345, 12, 31)), "31-12-12345");

    let leap = SelectedDateRange { start: (2024, 2, 28), end: (2024, 3, 1) };
    assert_eq!(leap.no_of_nights(), 2);
    let backwards = SelectedDateRange { start: (2023, 1, 5), end: (2023, 1, 1) };
    assert_eq!(backwards.no_of_nights(), 0);
    let same = SelectedDateRange { start: (2023, 1, 5), end: (2023, 1, 5) };
    assert_eq!(same.no_of_nights(), 0);
    let unset = SelectedDateRange::default();
    assert_eq!(unset.no_of_nights(), 0);
    assert_eq!(unset.to_string(), "0000-00-00 - 0000-00-00");
    assert_eq!(unset.format_as_human_readable_date(), " - ");
    let half_set = SelectedDateRange { start: (0, 0, 0), end: (2023, 1, 5) };
    assert_eq!(half_set.no_of_nights(), 0);
    let no_such_day = SelectedDateRange { start: (2023, 2, 30), end: (2023, 3, 5) };
    assert_eq!(no_such_day.no_of_nights(), 0);
    assert_eq!(no_such_day.format_as_human_readable_date(), " - Sun, Mar 05");
    let long = SelectedDateRange { start: (1, 1, 1), end: (2023, 1, 1) };
    assert_eq!(long.no_of_nights(), 738520);
}

#[test]
fn booking_is_summed_up() {
    let mut booking = booking_for("APP1", "a@example.com");
    booking.payment_details.payment_api_response.payment_id = 42;
    assert_eq!(booking.get_booking_summary(), "Test Hotel at Test City (4 nights) - Awaiting payment");
    assert_eq!(booking.summary_for_nights(10), "Test Hotel at Test City (10 nights) - Awaiting payment");
    assert_eq!(booking.get_booking_status(), "BookFailed");
    assert_eq!(booking.get_booking_api_status(), BookingStatus::BookFailed);
    assert_eq!(booking.get_requested_payment_amount_bits(), 0);

    let summary = BookingSummary::from(("a@example.com", &booking));
    assert_eq!(summary.booking_id, booking.booking_id);
    assert_eq!(summary.payment_id, "42");
    assert_eq!(summary.user_email, "a@example.com");
    assert_eq!(summary.hotel_name, "Test Hotel");
    assert_eq!(summary.destination, "Test City");
    assert_eq!(summary.booking_dates, "2023-01-01 - 2023-01-05");
    assert_eq!(summary.nights, 4);
    assert_eq!(summary.payment_status, "Awaiting payment");
    assert_eq!(summary.booking_status, "BookFailed");

    booking.user_selected_hotel_room_details.destination = None;
    let id = booking.booking_id.clone();
    booking.book_room_status = Some(response_with(ResolvedBookingStatus::BookingConfirmed, &id));
    assert_eq!(booking.get_booking_summary(), "Test Hotel at Unknown (4 nights) - Awaiting payment");
    assert_eq!(booking.get_booking_status(), "Confirmed");
    assert_eq!(booking.get_booking_api_status(), BookingStatus::Confirmed);
    assert_eq!(BookingSummary::from(("a@example.com", &booking)).destination, "");
}

#[test]
fn all_bookings_are_listed_in_order() {
    let mut state = CanisterState::new();
    state.add_booking_and_user("b@example.com", booking_for("APP2", "b@example.com")).unwrap();
    state.add_booking_and_user("b@example.com", booking_for("APP1", "b@example.com")).unwrap();
    state.add_booking_and_user("a@example.com", booking_for("APP9", "a@example.com")).unwrap();
    let listed: Vec<(String, String)> = state
        .get_all_bookings()
        .iter()
        .map(|s| (s.user_email.clone(), s.booking_id.get_app_reference().to_string()))
        .collect();
    assert_eq!(
        listed,
        vec![
            ("a@example.com".to_string(), "APP9".to_string()),
            ("b@example.com".to_string(), "APP1".to_string()),
            ("b@example.com".to_string(), "APP2".to_string()),
        ]
    );
    assert!(CanisterState::new().get_all_bookings().is_empty());
}

#[test]
fn booking_message_is_set_by_the_front_end() {
    let mut state = CanisterState::new();
    let booking = booking_for("APP1", "a@example.com");
    let id = booking.booking_id.clone();
    state.add_booking_and_user("a@example.com", booking).unwrap();

    assert_eq!(
        state.update_booking_message(id.clone(), "Test message".to_string()).unwrap(),
        "Message updated successfully"
    );
    let status = state.get_booking_by_id(&id).unwrap().book_room_status.as_ref().unwrap();
    assert_eq!(status.status, "Updated");
    assert_eq!(status.message, "[frontend] Test message");
    assert_eq!(status.commit_booking.resolved_booking_status, ResolvedBookingStatus::Unknown);

    state.update_book_room_response(id.clone(), response_with(ResolvedBookingStatus::BookingOnHold, &id)).unwrap();
    state.update_booking_message(id.clone(), "Again".to_string()).unwrap();
    let status = state.get_booking_by_id(&id).unwrap().book_room_status.as_ref().unwrap();
    assert_eq!(status.status, "Success");
    assert_eq!(status.message, "[frontend] Again");
    assert_eq!(status.commit_booking.resolved_booking_status, ResolvedBookingStatus::BookingOnHold);

    let missing = BookingId::new("NONE".to_string(), "a@example.com".to_string());
    assert_eq!(
        state.update_booking_message(missing, "x".to_string()).unwrap_err(),
        "Booking ID does not exist"
    );
    let stranger = BookingId::new("APP1".to_string(), "z@example.com".to_string());
    assert_eq!(
        state.update_booking_message(stranger, "x".to_string()).unwrap_err(),
        "User with email 'z@example.com' not found"
    );
}

#[test]
fn email_note_is_set_once() {
    let mut state = CanisterState::new();
    let booking = booking_for("APP1", "a@example.com");
    let id = booking.booking_id.clone();
    state.add_booking_and_user("a@example.com", booking).unwrap();

    assert_eq!(state.get_email_sent(&id), Ok(false));
    assert_eq!(state.update_email_sent(id.clone(), true).unwrap_err(), "Email already sent");
    assert_eq!(state.get_email_sent(&id), Ok(false));

    let other = booking_for("APP2", "a@example.com");
    let other_id = other.booking_id.clone();
    state.add_booking_and_user("a@example.com", other).unwrap();
    assert!(state.update_email_sent(other_id.clone(), true).is_ok());
    assert_eq!(state.get_email_sent(&other_id), Ok(true));

    let unknown = BookingId::new("NO\"PE".to_string(), "a@example.com".to_string());
    assert_eq!(
        state.get_email_sent(&unknown).unwrap_err(),
        "Booking does not exist with booking_id BookingId { app_reference: \"NO\\\"PE\", email: \"a@example.com\" } "
    );
    assert_eq!(
        state.get_email_sent(&unknown).unwrap_err(),
        format!("Booking does not exist with booking_id {:?} ", unknown)
    );

    let mut notes = EmailSentStruct::default();
    assert_eq!(notes.get_email_sent_status_for_booking_id(&id), None);
    assert!(notes.update_email_sent(id.clone(), false).is_ok());
    assert_eq!(notes.get_email_sent_status_for_booking_id(&id), Some(false));
    assert_eq!(notes.update_email_sent(id.clone(), true).unwrap_err(), "Email already sent");
}

#[test]
fn booking_ids_are_ordered_by_reference_then_email() {
    let mut map = backend::OrderedMap::new();
    for (reference, email) in [("B", "a"), ("A", "z"), ("A", "b"), ("", "x"), ("Ab", "a"), ("é", "a")] {
        map.insert(BookingId::new(reference.to_string(), email.to_string()), 0u8);
    }
    let keys: Vec<(String, String)> = (0..map.len())
        .map(|i| (map.key_at(i).get_app_reference().to_string(), map.key_at(i).get_user_email().to_string()))
        .collect();
    let mut sorted = keys.clone();
    sorted.sort();
    assert_eq!(keys, sorted);
    assert_eq!(keys[0].0, "");
    assert_eq!(keys[5].0, "é");
    assert_eq!(map.insert(BookingId::new("A".to_string(), "b".to_string()), 7), Some(0));
    assert_eq!(map.len(), 6);
    assert_eq!(map.remove(&BookingId::new("A".to_string(), "b".to_string())), Some(7));
    assert_eq!(map.remove(&BookingId::new("A".to_string(), "b".to_string())), None);
    assert_eq!(map.len(), 5);
    assert_eq!(map.position(&BookingId::new("B".to_string(), "a".to_string())), Some(3));
    assert_eq!(map.replace_value_at(3, 9), 0);
    assert_eq!(map.get(&BookingId::new("B".to_string(), "a".to_string())), Some(&9));
    assert!(!map.is_empty());
    let copy = map.clone();
    assert_eq!(copy.len(), 5);
    assert_eq!(*copy.value_at(3), 9);
}

#[test]
fn greeting_names_the_one_greeted() {
    assert_eq!(greeting(&GreetParams("World".to_string())).0, "Hello, World!");
}
