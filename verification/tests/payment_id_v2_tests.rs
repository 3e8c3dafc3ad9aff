use backend::{
    AddPaymentIdV2Migration, AdultDetail, Booking, BookingId, CanisterState, HotelRoomDetails,
    Migration, OrderedMap, PaymentDetails, UserDetails, UserInfoAndBookings,
};

fn state_with_payment(payment_id: u64, payment_id_v2: &str) -> CanisterState {
    let mut state = CanisterState::new();

    let booking_id = BookingId::new("TEST123".to_string(), "test@example.com".to_string());
    let mut payment_details = PaymentDetails::new(booking_id.clone());
    payment_details.payment_api_response.payment_id = payment_id;
    payment_details.payment_api_response.payment_id_v2 = payment_id_v2.to_string();

    let booking = Booking {
        booking_id: booking_id.clone(),
        guests: UserDetails::default(),
        book_room_status: None,
        user_selected_hotel_room_details: HotelRoomDetails::default(),
        payment_details,
    };

    let mut user_bookings = OrderedMap::new();
    user_bookings.insert(booking_id.clone(), booking);

    let user_info = UserInfoAndBookings {
        primary_user: AdultDetail::default(),
        bookings: user_bookings,
    };

    state.users.insert("test@example.com".to_string(), user_info);
    state
}

fn first_reference(state: &CanisterState) -> String {
    state
        .users
        .get(&"test@example.com".to_string())
        .unwrap()
        .bookings
        .value_at(0)
        .payment_details
        .payment_api_response
        .payment_id_v2
        .clone()
}

#[test]
fn test_payment_id_v2_migration_version() {
    let migration = AddPaymentIdV2Migration;
    assert_eq!(migration.version(), 1001);
}

#[test]
fn test_payment_id_v2_migration_up() {
    let migration = AddPaymentIdV2Migration;
    let mut state = state_with_payment(12345, "");

    assert_eq!(first_reference(&state), "");

    let result = migration.migrate_up(&mut state);
    assert!(result.is_ok());

    assert_eq!(first_reference(&state), "12345");
}

#[test]
fn test_payment_id_v2_migration_skip_zero_payment_id() {
    let migration = AddPaymentIdV2Migration;
    let mut state = state_with_payment(0, "");

    let result = migration.migrate_up(&mut state);
    assert!(result.is_ok());

    assert_eq!(first_reference(&state), "");
}

#[test]
fn test_payment_id_v2_migration_skip_existing_payment_id_v2() {
    let migration = AddPaymentIdV2Migration;
    let mut state = state_with_payment(12345, "existing_value");

    let result = migration.migrate_up(&mut state);
    assert!(result.is_ok());

    assert_eq!(first_reference(&state), "existing_value");
}

#[test]
fn payment_id_v2_migration_down_clears_the_reference() {
    let migration = AddPaymentIdV2Migration;
    let mut state = state_with_payment(12345, "");
    migration.migrate_up(&mut state).unwrap();
    assert_eq!(first_reference(&state), "12345");
    assert!(migration.migrate_down(&mut state).is_ok());
    assert_eq!(first_reference(&state), "");
}

#[test]
fn payment_id_v2_migration_validates_after_up() {
    let migration = AddPaymentIdV2Migration;
    let mut state = state_with_payment(12345, "");
    migration.migrate_up(&mut state).unwrap();
    assert!(migration.validate(&state).is_ok());
}

#[test]
fn payment_id_v2_migration_validation_names_a_missing_reference() {
    let migration = AddPaymentIdV2Migration;
    let state = state_with_payment(12345, "");
    assert_eq!(
        migration.validate(&state).unwrap_err(),
        "Validation failed: Booking TEST123 for user test@example.com has payment_id 12345 but missing payment_id_v2"
    );
}

#[test]
fn payment_id_v2_migration_validation_lists_every_fault_in_order() {
    let migration = AddPaymentIdV2Migration;
    let mut state = state_with_payment(12345, "existing_value");
    let other_id = BookingId::new("AAA".to_string(), "b@example.com".to_string());
    let mut other_payment = PaymentDetails::new(other_id.clone());
    other_payment.payment_api_response.payment_id = 7;
    let other = Booking {
        booking_id: other_id.clone(),
        guests: UserDetails::default(),
        book_room_status: None,
        user_selected_hotel_room_details: HotelRoomDetails::default(),
        payment_details: other_payment,
    };
    state.add_booking_and_user("b@example.com", other).unwrap();
    assert_eq!(
        migration.validate(&state).unwrap_err(),
        "Validation failed: Booking AAA for user b@example.com has payment_id 7 but missing payment_id_v2; Booking TEST123 for user test@example.com has mismatched payment_id (12345) and payment_id_v2 (existing_value)"
    );
}

#[test]
fn payment_id_v2_migration_describes_itself() {
    let migration = AddPaymentIdV2Migration;
    assert_eq!(
        migration.description(),
        "Add payment_id_v2 field and migrate existing payment_id data"
    );
}

#[test]
fn payment_id_v2_migration_up_writes_all_digits() {
    let migration = AddPaymentIdV2Migration;
    let mut state = state_with_payment(u64::MAX, "");
    migration.migrate_up(&mut state).unwrap();
    assert_eq!(first_reference(&state), "18446744073709551615");
}
