use backend::{
    add_controller, get_controllers, is_controller, remove_controller,
    AddDefaultControllersMigration, CanisterState, Migration, Principal,
};

fn default_principal_1() -> Principal {
    Principal::from_text("znxnh-f2v3a-dwwtd-jhyr2-tzdg7-xrm43-xf6xc-q4nfk-arhfb-54k5n-zae").unwrap()
}

fn default_principal_2() -> Principal {
    Principal::from_text("krnjz-sqido-sjhrl-jprhc-g6ezq-xidpq-futvc-3mwtc-cpee4-z3cls-wqe").unwrap()
}

fn different_principal() -> Principal {
    Principal::from_text("be2us-64aaa-aaaaa-qaabq-cai").unwrap()
}

#[test]
fn test_default_controllers_migration_version() {
    let migration = AddDefaultControllersMigration;
    assert_eq!(migration.version(), 1002);
}

#[test]
fn test_default_controllers_migration_up_none() {
    let migration = AddDefaultControllersMigration;
    let mut state = CanisterState::new();
    let default_principal_1 = default_principal_1();
    let default_principal_2 = default_principal_2();

    assert!(state.controllers.is_none());

    let result = migration.migrate_up(&mut state);
    assert!(result.is_ok());

    assert!(state.controllers.is_some());
    assert_eq!(state.controllers.as_ref().unwrap().len(), 2);
    assert!(state.controllers.as_ref().unwrap().contains(&default_principal_1));
    assert!(state.controllers.as_ref().unwrap().contains(&default_principal_2));
}

#[test]
fn test_default_controllers_migration_up_empty() {
    let migration = AddDefaultControllersMigration;
    let mut state = CanisterState::new();
    let default_principal_1 = default_principal_1();
    let default_principal_2 = default_principal_2();

    state.controllers = Some(Vec::new());

    let result = migration.migrate_up(&mut state);
    assert!(result.is_ok());

    assert!(state.controllers.is_some());
    assert_eq!(state.controllers.as_ref().unwrap().len(), 2);
    assert!(state.controllers.as_ref().unwrap().contains(&default_principal_1));
    assert!(state.controllers.as_ref().unwrap().contains(&default_principal_2));
}

#[test]
fn test_default_controllers_migration_up_existing() {
    let migration = AddDefaultControllersMigration;
    let mut state = CanisterState::new();

    let different_principal = different_principal();
    state.controllers = Some(vec![different_principal.clone()]);

    let result = migration.migrate_up(&mut state);
    assert!(result.is_ok());

    assert!(state.controllers.is_some());
    assert_eq!(state.controllers.as_ref().unwrap().len(), 1);
    assert_eq!(state.controllers.as_ref().unwrap()[0], different_principal);
}

#[test]
fn test_default_controllers_migration_down_default_only() {
    let migration = AddDefaultControllersMigration;
    let mut state = CanisterState::new();
    let default_principal_1 = default_principal_1();
    let default_principal_2 = default_principal_2();

    state.controllers = Some(vec![default_principal_1, default_principal_2]);

    let result = migration.migrate_down(&mut state);
    assert!(result.is_ok());

    assert!(state.controllers.is_none());
}

#[test]
fn test_default_controllers_migration_down_with_other_data() {
    let migration = AddDefaultControllersMigration;
    let mut state = CanisterState::new();

    let different_principal = different_principal();
    state.controllers = Some(vec![different_principal.clone()]);

    let result = migration.migrate_down(&mut state);
    assert!(result.is_ok());

    assert!(state.controllers.is_some());
    assert_eq!(state.controllers.as_ref().unwrap().len(), 1);
    assert_eq!(state.controllers.as_ref().unwrap()[0], different_principal);
}

#[test]
fn test_default_controllers_migration_validate_success_with_default() {
    let migration = AddDefaultControllersMigration;
    let mut state = CanisterState::new();

    let _ = migration.migrate_up(&mut state);

    let result = migration.validate(&state);
    assert!(result.is_ok());
}

#[test]
fn test_default_controllers_migration_validate_success_with_data() {
    let migration = AddDefaultControllersMigration;
    let mut state = CanisterState::new();

    let different_principal = different_principal();
    state.controllers = Some(vec![different_principal]);

    let result = migration.validate(&state);
    assert!(result.is_ok());
}

#[test]
fn test_default_controllers_migration_validate_failure_none() {
    let migration = AddDefaultControllersMigration;
    let state = CanisterState::new();

    let result = migration.validate(&state);
    assert!(result.is_err());
    assert!(result.unwrap_err().contains("controllers field should be initialized"));
}

#[test]
fn test_default_controllers_migration_validate_failure_anonymous() {
    let migration = AddDefaultControllersMigration;
    let mut state = CanisterState::new();

    state.controllers = Some(vec![Principal::anonymous()]);

    let result = migration.validate(&state);
    assert!(result.is_err());
    assert!(result.unwrap_err().contains("anonymous principal"));
}

#[test]
fn validation_names_the_position_of_the_anonymous_writer() {
    let migration = AddDefaultControllersMigration;
    let mut state = CanisterState::new();
    state.controllers = Some(vec![different_principal(), Principal::anonymous()]);
    assert_eq!(
        migration.validate(&state).unwrap_err(),
        "Validation failed: controller at index 1 is anonymous principal"
    );
}

#[test]
fn down_keeps_a_list_of_the_same_length_with_another_writer() {
    let migration = AddDefaultControllersMigration;
    let mut state = CanisterState::new();
    state.controllers = Some(vec![default_principal_1(), different_principal()]);
    assert!(migration.migrate_down(&mut state).is_ok());
    assert_eq!(state.controllers.as_ref().unwrap().len(), 2);
}

#[test]
fn principal_text_is_decoded_to_bytes() {
    let principal = different_principal();
    assert_eq!(principal.as_slice(), &[128, 0, 0, 0, 0, 16, 0, 3, 1, 1]);
    assert_eq!(Principal::anonymous().as_slice(), &[4]);
    assert_eq!(Principal::from_text("aaaaa-aa").unwrap().as_slice(), &[] as &[u8]);
}

#[test]
fn principal_text_that_stands_for_nothing_is_refused() {
    assert_eq!(
        Principal::from_text("not a principal").unwrap_err(),
        "Text must be in valid Base32 encoding."
    );
}

#[test]
fn principal_from_bytes_takes_29_bytes_at_most() {
    assert!(Principal::from_bytes(vec![1; 29]).is_some());
    assert!(Principal::from_bytes(vec![1; 30]).is_none());
    assert_eq!(Principal::from_bytes(vec![4]).unwrap(), Principal::anonymous());
}

#[test]
fn writers_are_added_once_and_removed() {
    let mut state = CanisterState::new();
    let caller = different_principal();
    assert_eq!(
        is_controller(&state, &caller, false).unwrap_err(),
        "You are not authorized to perform this action."
    );
    assert!(is_controller(&state, &caller, true).is_ok());
    assert!(add_controller(&mut state, caller.clone()).is_ok());
    assert!(is_controller(&state, &caller, false).is_ok());
    assert_eq!(
        add_controller(&mut state, caller.clone()).unwrap_err(),
        "Controller already exists."
    );
    assert_eq!(get_controllers(&state), vec![caller.clone()]);
    assert!(remove_controller(&mut state, caller.clone()).is_ok());
    assert_eq!(
        remove_controller(&mut state, caller.clone()).unwrap_err(),
        "Controller not found."
    );
    assert!(get_controllers(&state).is_empty());
}
