use backend::{
    AdultDetail, Booking, BookingId, CanisterState, HotelRoomDetails, Migration, MigrationEngine,
    MigrationStep, OrderedMap, PaymentDetails, SchemaMetadata, UserDetails, UserInfoAndBookings,
};

fn engine_test_state() -> CanisterState {
    let mut state = CanisterState::new();

    let booking_id = BookingId::new("TEST123".to_string(), "test@example.com".to_string());
    let mut payment_details = PaymentDetails::new(booking_id.clone());
    payment_details.payment_api_response.payment_id = 12345;
    payment_details.payment_api_response.payment_id_v2 = "".to_string();

    let booking = Booking {
        booking_id: booking_id.clone(),
        guests: UserDetails::default(),
        book_room_status: None,
        user_selected_hotel_room_details: HotelRoomDetails::default(),
        payment_details,
    };

    let mut user_bookings = OrderedMap::new();
    user_bookings.insert(booking_id.clone(), booking);

    let user_info = UserInfoAndBookings {
        primary_user: AdultDetail::default(),
        bookings: user_bookings,
    };

    state.users.insert("test@example.com".to_string(), user_info);
    state
}

struct TestMigration;

impl Migration for TestMigration {
    fn version(&self) -> u64 {
        1002
    }

    fn description(&self) -> &str {
        "Test migration"
    }

    fn migrate_up(&self, _state: &mut CanisterState) -> Result<(), String> {
        Ok(())
    }

    fn migrate_down(&self, _state: &mut CanisterState) -> Result<(), String> {
        Ok(())
    }

    fn validate(&self, _state: &CanisterState) -> Result<(), String> {
        Ok(())
    }
}

#[test]
fn test_schema_metadata_default() {
    let metadata = SchemaMetadata::default();
    assert_eq!(metadata.current_version, 1000);
    assert!(metadata.applied_migrations.is_empty());
    assert!(metadata.target_version.is_none());
}

#[test]
fn test_migration_engine_new() {
    let engine = MigrationEngine::new();
    assert_eq!(engine.len(), 1);
}

#[test]
fn test_migration_engine_no_pending_migrations() {
    let engine = MigrationEngine::new();
    let mut state = engine_test_state();
    state.schema_metadata.current_version = 2000;

    let result = engine.apply_migrations(&mut state, 0);
    assert!(result.is_ok());
    assert_eq!(state.schema_metadata.current_version, 2000);
}

#[test]
fn test_get_pending_migrations() {
    let engine = MigrationEngine::new();
    let state = engine_test_state();

    let pending = engine.get_pending_migrations(&state);
    assert_eq!(pending.len(), 1);
    assert_eq!(pending[0].version(), 1001);
}

#[test]
fn test_get_applied_migrations() {
    let engine = MigrationEngine::new();
    let mut state = engine_test_state();

    let result = engine.apply_migrations(&mut state, 0);
    assert!(result.is_ok());

    let applied = engine.get_applied_migrations(&state);
    assert_eq!(applied.len(), 1);
    assert_eq!(applied[0].version, 1001);
    assert_eq!(
        applied[0].description,
        "Add payment_id_v2 field and migrate existing payment_id data"
    );
}

#[test]
fn test_migration_engine_add_migration() {
    let mut engine = MigrationEngine::new();
    let initial_count = engine.len();

    engine.add_migration(MigrationStep::Other(Box::new(TestMigration)));
    assert_eq!(engine.len(), initial_count + 1);
}

#[test]
fn test_canister_state_with_schema_metadata() {
    let state = CanisterState::new();
    assert_eq!(state.schema_metadata.current_version, 1000);
    assert!(state.schema_metadata.applied_migrations.is_empty());
}

#[test]
fn apply_fills_reference_and_records_one_step() {
    let engine = MigrationEngine::new();
    let mut state = engine_test_state();

    let result = engine.apply_migrations(&mut state, 77);
    assert_eq!(result.unwrap(), 1);

    let user = state.users.get(&"test@example.com".to_string()).unwrap();
    let booking = user.bookings.value_at(0);
    assert_eq!(booking.payment_details.payment_api_response.payment_id_v2, "12345");
    assert_eq!(state.schema_metadata.current_version, 1001);
    assert_eq!(state.schema_metadata.applied_migrations.len(), 1);
    assert_eq!(state.schema_metadata.applied_migrations[0].applied_at, 77);
}

#[test]
fn second_run_applies_nothing() {
    let engine = MigrationEngine::with_all_steps();
    let mut state = engine_test_state();

    assert_eq!(engine.apply_migrations(&mut state, 5).unwrap(), 2);
    assert_eq!(state.schema_metadata.current_version, 1002);
    assert_eq!(state.schema_metadata.applied_migrations.len(), 2);

    assert_eq!(engine.apply_migrations(&mut state, 9).unwrap(), 0);
    assert_eq!(state.schema_metadata.current_version, 1002);
    assert_eq!(state.schema_metadata.applied_migrations.len(), 2);
    assert_eq!(state.schema_metadata.applied_migrations[1].applied_at, 5);
    assert_eq!(state.controllers.as_ref().unwrap().len(), 2);
}

#[test]
fn steps_are_held_in_order_of_version() {
    let mut engine = MigrationEngine::empty();
    engine.add_migration(MigrationStep::DefaultControllers(backend::AddDefaultControllersMigration));
    engine.add_migration(MigrationStep::PaymentIdV2(backend::AddPaymentIdV2Migration));
    let state = CanisterState::new();
    let pending = engine.get_pending_migrations(&state);
    assert_eq!(pending.len(), 2);
    assert_eq!(pending[0].version(), 1001);
    assert_eq!(pending[1].version(), 1002);
    assert_eq!(pending[1].description(), "Add default controllers to the canister if not already set");
}

struct FailingUp;

impl Migration for FailingUp {
    fn version(&self) -> u64 {
        1500
    }

    fn description(&self) -> &str {
        "Fails on the way up"
    }

    fn migrate_up(&self, _state: &mut CanisterState) -> Result<(), String> {
        Err("no way up".to_string())
    }

    fn migrate_down(&self, _state: &mut CanisterState) -> Result<(), String> {
        Err("no way down".to_string())
    }

    fn validate(&self, _state: &CanisterState) -> Result<(), String> {
        Ok(())
    }
}

struct FailingValidation;

impl Migration for FailingValidation {
    fn version(&self) -> u64 {
        1400
    }

    fn description(&self) -> &str {
        "Fails its validation"
    }

    fn migrate_up(&self, state: &mut CanisterState) -> Result<(), String> {
        state.controllers = Some(Vec::new());
        Ok(())
    }

    fn migrate_down(&self, _state: &mut CanisterState) -> Result<(), String> {
        Ok(())
    }

    fn validate(&self, _state: &CanisterState) -> Result<(), String> {
        Err("not valid".to_string())
    }
}

#[test]
fn failed_step_stops_the_run_and_keeps_earlier_steps() {
    let mut engine = MigrationEngine::new();
    engine.add_migration(MigrationStep::Other(Box::new(FailingUp)));
    let mut state = engine_test_state();

    let error = engine.apply_migrations(&mut state, 3).unwrap_err();
    assert!(matches!(error, backend::MigrationError::MigrateUp { version: 1500, .. }));
    assert_eq!(error.message(), "no way up");
    assert_eq!(state.schema_metadata.current_version, 1001);
    assert_eq!(state.schema_metadata.applied_migrations.len(), 1);
}

#[test]
fn failed_validation_is_told_apart_and_leaves_the_change() {
    let mut engine = MigrationEngine::empty();
    engine.add_migration(MigrationStep::Other(Box::new(FailingValidation)));
    let mut state = CanisterState::new();

    let error = engine.apply_migrations(&mut state, 3).unwrap_err();
    assert!(matches!(error, backend::MigrationError::Validation { version: 1400, .. }));
    assert_eq!(error.message(), "not valid");
    assert!(state.controllers.is_some());
    assert_eq!(state.schema_metadata.current_version, 1000);
    assert!(state.schema_metadata.applied_migrations.is_empty());
}

#[test]
fn rollback_rejects_a_target_that_is_not_lower() {
    let engine = MigrationEngine::new();
    let mut state = engine_test_state();
    let error = engine.rollback_to_version(&mut state, 1000).unwrap_err();
    assert!(matches!(error, backend::MigrationError::TargetNotLower));
    assert_eq!(error.message(), "Target version must be lower than current version");
    assert_eq!(state.schema_metadata.current_version, 1000);
}

#[test]
fn rollback_undoes_steps_last_first_and_forgets_them() {
    let engine = MigrationEngine::with_all_steps();
    let mut state = engine_test_state();
    assert_eq!(engine.apply_migrations(&mut state, 1).unwrap(), 2);

    assert!(engine.rollback_to_version(&mut state, 1001).is_ok());
    assert_eq!(state.schema_metadata.current_version, 1001);
    assert_eq!(state.schema_metadata.applied_migrations.len(), 1);
    assert_eq!(state.schema_metadata.applied_migrations[0].version, 1001);
    assert!(state.controllers.is_none());
    let user = state.users.get(&"test@example.com".to_string()).unwrap();
    assert_eq!(user.bookings.value_at(0).payment_details.payment_api_response.payment_id_v2, "12345");

    assert!(engine.rollback_to_version(&mut state, 1000).is_ok());
    assert_eq!(state.schema_metadata.current_version, 1000);
    assert!(state.schema_metadata.applied_migrations.is_empty());
    let user = state.users.get(&"test@example.com".to_string()).unwrap();
    assert_eq!(user.bookings.value_at(0).payment_details.payment_api_response.payment_id_v2, "");
}

#[test]
fn failed_rollback_step_is_reported() {
    let mut engine = MigrationEngine::empty();
    engine.add_migration(MigrationStep::Other(Box::new(FailingUp)));
    let mut state = CanisterState::new();
    state.schema_metadata.current_version = 1500;
    let error = engine.rollback_to_version(&mut state, 1000).unwrap_err();
    assert!(matches!(error, backend::MigrationError::MigrateDown { version: 1500, .. }));
    assert_eq!(state.schema_metadata.current_version, 1500);
}

#[test]
fn run_migrations_reports_in_words() {
    let engine = MigrationEngine::with_all_steps();
    let mut state = engine_test_state();
    assert_eq!(
        backend::run_migrations(&engine, &mut state, 0).unwrap(),
        "Successfully applied 2 migration(s)"
    );
    assert_eq!(
        backend::run_migrations(&engine, &mut state, 0).unwrap(),
        "No pending migrations to run"
    );
    let mut failing = MigrationEngine::empty();
    failing.add_migration(MigrationStep::Other(Box::new(FailingUp)));
    assert_eq!(
        backend::run_migrations(&failing, &mut state, 0).unwrap_err(),
        "Migration failed: no way up"
    );
}

#[test]
fn current_migration_info_gives_version_and_description() {
    let engine = MigrationEngine::new();
    let mut state = engine_test_state();
    assert_eq!(state.get_current_migration_info(), (1000, "".to_string()));
    engine.apply_migrations(&mut state, 0).unwrap();
    assert_eq!(
        state.get_current_migration_info(),
        (1001, "Add payment_id_v2 field and migrate existing payment_id data".to_string())
    );
}
