use usr_backend::Status;
use usr_backend::Team;
use usr_backend::UpdateOrder;
use usr_backend::UpdateRejection;
use usr_backend::parse_check_in_uid;
use usr_backend::validate_status_update;
use usr_backend::orders::cancel_allowed;
use usr_backend::orders::change_allowed;
use usr_backend::orders::status_label;
use usr_backend::schedule::build_availability_table;
use usr_backend::schedule::names_for_slot;
use usr_backend::schedule::names_for_team;

#[test]
fn stored_orders_accept_no_update() {
    for status in [
        Status::New,
        Status::Submitted,
        Status::Shipped,
        Status::Delivered,
        Status::InStorage,
    ] {
        assert_eq!(
            validate_status_update(Status::InStorage, status),
            Err(UpdateRejection::AlreadyInStorage)
        );
    }
}

#[test]
fn repeated_status_is_rejected() {
    assert_eq!(
        validate_status_update(Status::Shipped, Status::Shipped),
        Err(UpdateRejection::AlreadyInState)
    );
}

#[test]
fn fresh_status_moves_are_accepted() {
    assert_eq!(validate_status_update(Status::New, Status::Submitted), Ok(()));
    assert_eq!(validate_status_update(Status::Delivered, Status::InStorage), Ok(()));
    let request = UpdateOrder { id: 9, status: Status::Shipped };
    assert_eq!(validate_status_update(Status::Submitted, request.status), Ok(()));
}

#[test]
fn only_unprocessed_orders_may_change() {
    assert!(change_allowed(Status::New));
    assert!(!change_allowed(Status::Submitted));
    assert!(!change_allowed(Status::InStorage));
}

#[test]
fn cancellation_needs_force_once_processed() {
    assert!(cancel_allowed(Status::New, false));
    assert!(!cancel_allowed(Status::Shipped, false));
    assert!(cancel_allowed(Status::Shipped, true));
}

#[test]
fn status_labels() {
    assert_eq!(status_label(Status::New), "New");
    assert_eq!(status_label(Status::Submitted), "Submitted");
    assert_eq!(status_label(Status::Shipped), "Shipped");
    assert_eq!(status_label(Status::Delivered), "Delivered");
    assert_eq!(status_label(Status::InStorage), "InStorage");
}

#[test]
fn check_in_accepts_tagged_numbers() {
    assert_eq!(parse_check_in_uid("u123"), Some(123));
    assert_eq!(parse_check_in_uid("U42"), Some(42));
    assert_eq!(parse_check_in_uid("u+7"), Some(7));
    assert_eq!(parse_check_in_uid("u0"), Some(0));
    assert_eq!(parse_check_in_uid("u4294967295"), Some(u32::MAX));
}

#[test]
fn check_in_rejects_malformed_uids() {
    assert_eq!(parse_check_in_uid(""), None);
    assert_eq!(parse_check_in_uid("u"), None);
    assert_eq!(parse_check_in_uid("U+"), None);
    assert_eq!(parse_check_in_uid("x5"), None);
    assert_eq!(parse_check_in_uid("42"), None);
    assert_eq!(parse_check_in_uid("u12a"), None);
    assert_eq!(parse_check_in_uid("u-3"), None);
    assert_eq!(parse_check_in_uid("u4294967296"), None);
}

fn slot_rows() -> Vec<(u16, String)> {
    vec![
        (0, "alice".to_string()),
        (279, "bob".to_string()),
        (0, "carol".to_string()),
        (12, "dave".to_string()),
    ]
}

#[test]
fn slot_names_keep_row_order() {
    assert_eq!(
        names_for_slot(&slot_rows(), 0),
        vec!["alice".to_string(), "carol".to_string()]
    );
    assert_eq!(names_for_slot(&slot_rows(), 279), vec!["bob".to_string()]);
    assert_eq!(names_for_slot(&slot_rows(), 5), Vec::<String>::new());
}

#[test]
fn availability_table_covers_every_slot() {
    let table = build_availability_table(&slot_rows());
    assert_eq!(table.len(), 280);
    assert_eq!(table[0], vec!["alice".to_string(), "carol".to_string()]);
    assert_eq!(table[12], vec!["dave".to_string()]);
    assert_eq!(table[279], vec!["bob".to_string()]);
    assert!(table[1].is_empty());
}

#[test]
fn team_names_keep_row_order() {
    let rows = vec![
        (Team::Software, "alice".to_string()),
        (Team::Admin, "bob".to_string()),
        (Team::Software, "carol".to_string()),
    ];
    assert_eq!(
        names_for_team(&rows, Team::Software),
        vec!["alice".to_string(), "carol".to_string()]
    );
    assert_eq!(names_for_team(&rows, Team::Admin), vec!["bob".to_string()]);
    assert_eq!(names_for_team(&rows, Team::Electrical), Vec::<String>::new());
}
