use backend::{
    rebuild_payment_id_index, AdultDetail, Booking, BookingId, CanisterState, HotelRoomDetails,
    OrderedMap, PaymentDetails, UserDetails, UserInfoAndBookings,
};

fn booking_with_payment_id_v2(app_ref: &str, email: &str, payment_id_v2: &str) -> (BookingId, Booking) {
    let booking_id = BookingId::new(app_ref.to_string(), email.to_string());
    let mut payment_details = PaymentDetails::new(booking_id.clone());
    payment_details.payment_api_response.payment_id_v2 = payment_id_v2.to_string();
    payment_details.payment_api_response.provider = "test_provider".to_string();

    let booking = Booking {
        booking_id: booking_id.clone(),
        guests: UserDetails::default(),
        book_room_status: None,
        user_selected_hotel_room_details: HotelRoomDetails::default(),
        payment_details,
    };

    (booking_id, booking)
}

fn state_with_multiple_bookings() -> CanisterState {
    let mut state = CanisterState::new();

    let (booking_id1, booking1) =
        booking_with_payment_id_v2("APP001", "user1@example.com", "payment_abc123");
    let (booking_id2, booking2) =
        booking_with_payment_id_v2("APP002", "user1@example.com", "payment_xyz789");
    let (booking_id3, booking3) =
        booking_with_payment_id_v2("APP003", "user2@example.com", "payment_def456");

    let mut user1_bookings = OrderedMap::new();
    user1_bookings.insert(booking_id1, booking1);
    user1_bookings.insert(booking_id2, booking2);

    let user1_info = UserInfoAndBookings {
        primary_user: AdultDetail::default(),
        bookings: user1_bookings,
    };

    let mut user2_bookings = OrderedMap::new();
    user2_bookings.insert(booking_id3, booking3);

    let user2_info = UserInfoAndBookings {
        primary_user: AdultDetail::default(),
        bookings: user2_bookings,
    };

    state.users.insert("user1@example.com".to_string(), user1_info);
    state.users.insert("user2@example.com".to_string(), user2_info);

    state
}

fn rebuild_index_for_state(state: &mut CanisterState) {
    if let Some(ref payment_index) = state.payment_id_index {
        if !payment_index.is_empty() {
            return;
        }
    }

    let mut payment_mappings = Vec::new();
    for i in 0..state.users.len() {
        let user_info = state.users.value_at(i);
        for j in 0..user_info.bookings.len() {
            let booking = user_info.bookings.value_at(j);
            let payment_id_v2 = &booking.payment_details.payment_api_response.payment_id_v2;
            if !payment_id_v2.is_empty() {
                payment_mappings.push((payment_id_v2.clone(), booking.booking_id.clone()));
            }
        }
    }

    let mut payment_index = OrderedMap::new();
    for (payment_id, booking_id) in payment_mappings {
        payment_index.insert(payment_id, booking_id);
    }
    state.payment_id_index = Some(payment_index);
}

#[test]
fn test_rebuild_payment_id_index_empty_state() {
    let mut state = CanisterState::new();

    rebuild_payment_id_index(&mut state);

    assert!(state.payment_id_index.is_some());
    assert!(state.payment_id_index.as_ref().unwrap().is_empty());
}

#[test]
fn test_rebuild_payment_id_index_with_bookings() {
    let mut state = state_with_multiple_bookings();

    rebuild_payment_id_index(&mut state);

    let index = state.payment_id_index.as_ref().unwrap();

    assert_eq!(index.len(), 3);

    let booking_id1 = BookingId::new("APP001".to_string(), "user1@example.com".to_string());
    let booking_id2 = BookingId::new("APP002".to_string(), "user1@example.com".to_string());
    let booking_id3 = BookingId::new("APP003".to_string(), "user2@example.com".to_string());

    assert_eq!(index.get(&"payment_abc123".to_string()), Some(&booking_id1));
    assert_eq!(index.get(&"payment_xyz789".to_string()), Some(&booking_id2));
    assert_eq!(index.get(&"payment_def456".to_string()), Some(&booking_id3));
}

#[test]
fn test_rebuild_payment_id_index_skips_empty_payment_id_v2() {
    let mut state = CanisterState::new();

    let (booking_id, mut booking) = booking_with_payment_id_v2("APP001", "user@example.com", "");

    booking.payment_details.payment_api_response.payment_id_v2 = "".to_string();

    let mut user_bookings = OrderedMap::new();
    user_bookings.insert(booking_id, booking);

    let user_info = UserInfoAndBookings {
        primary_user: AdultDetail::default(),
        bookings: user_bookings,
    };

    state.users.insert("user@example.com".to_string(), user_info);

    rebuild_payment_id_index(&mut state);

    let index = state.payment_id_index.as_ref().unwrap();

    assert!(index.is_empty());
}

#[test]
fn test_rebuild_payment_id_index_doesnt_rebuild_if_exists() {
    let mut state = state_with_multiple_bookings();

    let mut existing_index = OrderedMap::new();
    existing_index.insert(
        "existing_key".to_string(),
        BookingId::new("EXISTING".to_string(), "existing@example.com".to_string()),
    );
    state.payment_id_index = Some(existing_index);

    rebuild_payment_id_index(&mut state);

    let index = state.payment_id_index.as_ref().unwrap();

    assert_eq!(index.len(), 1);
    assert!(index.contains_key(&"existing_key".to_string()));
    assert!(!index.contains_key(&"payment_abc123".to_string()));
}

#[test]
fn test_update_payment_details_updates_index() {
    let mut state = state_with_multiple_bookings();

    state.payment_id_index = Some(OrderedMap::new());

    let booking_id = BookingId::new("APP001".to_string(), "user1@example.com".to_string());
    let mut payment_details = PaymentDetails::new(booking_id.clone());
    payment_details.payment_api_response.payment_id_v2 = "new_payment_id_123".to_string();

    let result = state.update_payment_details(booking_id.clone(), payment_details);
    assert!(result.is_ok());

    let index = state.payment_id_index.as_ref().unwrap();
    assert_eq!(index.get(&"new_payment_id_123".to_string()), Some(&booking_id));
}

#[test]
fn test_update_payment_details_prevents_duplicate_payment_id_v2() {
    let mut state = state_with_multiple_bookings();

    state.payment_id_index = Some(OrderedMap::new());
    rebuild_index_for_state(&mut state);

    let booking_id = BookingId::new("APP002".to_string(), "user1@example.com".to_string());
    let mut payment_details = PaymentDetails::new(booking_id.clone());
    payment_details.payment_api_response.payment_id_v2 = "payment_abc123".to_string();

    let result = state.update_payment_details(booking_id, payment_details);
    assert!(result.is_err());
    assert!(result.unwrap_err().contains("already used by other booking"));
}

#[test]
fn test_update_payment_details_allows_same_booking_same_payment_id_v2() {
    let mut state = state_with_multiple_bookings();

    state.payment_id_index = Some(OrderedMap::new());
    rebuild_index_for_state(&mut state);

    let booking_id = BookingId::new("APP001".to_string(), "user1@example.com".to_string());
    let mut payment_details = PaymentDetails::new(booking_id.clone());
    payment_details.payment_api_response.payment_id_v2 = "payment_abc123".to_string();

    let result = state.update_payment_details(booking_id, payment_details);
    assert!(result.is_ok());
}

#[test]
fn test_update_payment_details_removes_old_index_entry() {
    let mut state = state_with_multiple_bookings();

    state.payment_id_index = Some(OrderedMap::new());
    rebuild_index_for_state(&mut state);

    let booking_id = BookingId::new("APP001".to_string(), "user1@example.com".to_string());

    assert!(state
        .payment_id_index
        .as_ref()
        .unwrap()
        .contains_key(&"payment_abc123".to_string()));

    let mut payment_details = PaymentDetails::new(booking_id.clone());
    payment_details.payment_api_response.payment_id_v2 = "new_payment_xyz".to_string();

    let result = state.update_payment_details(booking_id.clone(), payment_details);
    assert!(result.is_ok());

    let index = state.payment_id_index.as_ref().unwrap();

    assert!(!index.contains_key(&"payment_abc123".to_string()));

    assert_eq!(index.get(&"new_payment_xyz".to_string()), Some(&booking_id));
}

#[test]
fn test_update_payment_details_rejects_empty_payment_id_v2() {
    let mut state = state_with_multiple_bookings();
    state.payment_id_index = Some(OrderedMap::new());

    let booking_id = BookingId::new("APP001".to_string(), "user1@example.com".to_string());
    let mut payment_details = PaymentDetails::new(booking_id);
    payment_details.payment_api_response.payment_id_v2 = "".to_string();

    let result = state.update_payment_details(
        BookingId::new("APP001".to_string(), "user1@example.com".to_string()),
        payment_details,
    );
    assert!(result.is_err());
    assert!(result.unwrap_err().contains("cannot be empty"));
}

#[test]
fn test_get_booking_id_by_payment_id_v2_query() {
    let mut state = state_with_multiple_bookings();

    state.payment_id_index = Some(OrderedMap::new());
    rebuild_index_for_state(&mut state);

    let result = state.get_booking_id_by_payment_id_v2("payment_abc123");
    let expected_booking_id = BookingId::new("APP001".to_string(), "user1@example.com".to_string());
    assert_eq!(result, Some(expected_booking_id));

    let result = state.get_booking_id_by_payment_id_v2("non_existent");
    assert_eq!(result, None);
}

#[test]
fn second_booking_cannot_take_the_reference_of_the_first() {
    let mut state = state_with_multiple_bookings();
    rebuild_payment_id_index(&mut state);

    let first = BookingId::new("APP001".to_string(), "user1@example.com".to_string());
    let second = BookingId::new("APP002".to_string(), "user1@example.com".to_string());
    let mut payment_details = PaymentDetails::new(second.clone());
    payment_details.payment_api_response.payment_id_v2 = "payment_abc123".to_string();

    let error = state.update_payment_details(second.clone(), payment_details).unwrap_err();
    assert_eq!(error, "payment_id_v2 'payment_abc123' is already used by other booking");

    let index = state.payment_id_index.as_ref().unwrap();
    assert_eq!(index.len(), 3);
    assert_eq!(index.get(&"payment_abc123".to_string()), Some(&first));
    assert_eq!(index.get(&"payment_xyz789".to_string()), Some(&second));
    let kept = state.get_booking_by_id(&second).unwrap();
    assert_eq!(kept.payment_details.payment_api_response.payment_id_v2, "payment_xyz789");
}

#[test]
fn index_follows_a_run_of_payment_updates() {
    let mut state = state_with_multiple_bookings();
    rebuild_payment_id_index(&mut state);
    let ids = [
        BookingId::new("APP001".to_string(), "user1@example.com".to_string()),
        BookingId::new("APP002".to_string(), "user1@example.com".to_string()),
        BookingId::new("APP003".to_string(), "user2@example.com".to_string()),
    ];
    let updates = [(0, "r1"), (1, "r2"), (0, "r3"), (2, "r1"), (1, "r3"), (1, "payment_abc123")];
    for (which, reference) in updates {
        let mut payment_details = PaymentDetails::new(ids[which].clone());
        payment_details.payment_api_response.payment_id_v2 = reference.to_string();
        let _ = state.update_payment_details(ids[which].clone(), payment_details);

        let index = state.payment_id_index.as_ref().unwrap();
        assert_eq!(index.len(), 3);
        for id in ids.iter() {
            let booking = state.get_booking_by_id(id).unwrap();
            let held = &booking.payment_details.payment_api_response.payment_id_v2;
            assert_eq!(index.get(held), Some(id));
        }
    }
    let index = state.payment_id_index.as_ref().unwrap();
    assert_eq!(index.get(&"r3".to_string()), Some(&ids[0]));
    assert_eq!(index.get(&"payment_abc123".to_string()), Some(&ids[1]));
    assert_eq!(index.get(&"r1".to_string()), Some(&ids[2]));
}

#[test]
fn payment_update_derives_the_status_from_the_answer() {
    let mut state = state_with_multiple_bookings();
    let id = BookingId::new("APP001".to_string(), "user1@example.com".to_string());

    let mut payment_details = PaymentDetails::new(id.clone());
    payment_details.payment_api_response.payment_id_v2 = "ref9".to_string();
    payment_details.payment_api_response.payment_status = "finished".to_string();
    let booking = state.update_payment_details(id.clone(), payment_details).unwrap();
    assert!(booking.payment_details.is_paid());
    assert_eq!(booking.payment_details.get_status_display(), "Payment confirmed (Ref: ref9 - COMPLETED)");
    assert!(state.is_booking_paid(&id));

    let mut payment_details = PaymentDetails::new(id.clone());
    payment_details.payment_api_response.payment_id_v2 = "ref9".to_string();
    payment_details.payment_api_response.payment_status = "expired".to_string();
    let booking = state.update_payment_details(id.clone(), payment_details).unwrap();
    assert!(!booking.payment_details.is_paid());
    assert_eq!(booking.payment_details.get_status_display(), "Payment failed: ref9 - EXPIRED");
    assert!(!state.is_booking_paid(&id));
}

#[test]
fn payment_update_for_an_unknown_booking_is_refused() {
    let mut state = state_with_multiple_bookings();
    let unknown_user = BookingId::new("APP001".to_string(), "nobody@example.com".to_string());
    let mut payment_details = PaymentDetails::new(unknown_user.clone());
    payment_details.payment_api_response.payment_id_v2 = "x".to_string();
    assert_eq!(
        state.update_payment_details(unknown_user, payment_details).unwrap_err(),
        "User with email 'nobody@example.com' not found"
    );
    let unknown_booking = BookingId::new("APP999".to_string(), "user1@example.com".to_string());
    let mut payment_details = PaymentDetails::new(unknown_booking.clone());
    payment_details.payment_api_response.payment_id_v2 = "x".to_string();
    assert_eq!(
        state.update_payment_details(unknown_booking, payment_details).unwrap_err(),
        "Booking with app_reference 'APP999' not found"
    );
    assert!(state.payment_id_index.is_none());
}

#[test]
fn rebuild_lets_a_later_booking_take_a_shared_reference() {
    let mut state = CanisterState::new();
    let (_, first) = booking_with_payment_id_v2("A", "u@example.com", "same");
    let (second_id, second) = booking_with_payment_id_v2("B", "u@example.com", "same");
    state.add_booking_and_user("u@example.com", first).unwrap();
    state.add_booking_and_user("u@example.com", second).unwrap();
    rebuild_payment_id_index(&mut state);
    let index = state.payment_id_index.as_ref().unwrap();
    assert_eq!(index.len(), 1);
    assert_eq!(index.get(&"same".to_string()), Some(&second_id));
}
