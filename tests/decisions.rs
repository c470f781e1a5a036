use resource_registry::{
    after_statement, create_outcome, delete_outcome, is_expired, sweep_report, update_steps,
    Decision, FieldUpdate, RequestError, ResourceUpdateReq, ServerError, StoreOutcome, SweepReport,
};

#[test]
fn create_outcomes() {
    assert_eq!(create_outcome(StoreOutcome::Rows(1)), Ok(Ok(())));
    assert_eq!(create_outcome(StoreOutcome::Rows(0)), Ok(Err(RequestError::NameExists)));
    assert_eq!(create_outcome(StoreOutcome::UniqueViolation), Ok(Err(RequestError::NameExists)));
    assert_eq!(create_outcome(StoreOutcome::Rows(2)), Err(ServerError::ManyRows));
    assert_eq!(create_outcome(StoreOutcome::Failed), Err(ServerError::Storage));
}

#[test]
fn delete_outcomes() {
    assert_eq!(delete_outcome(StoreOutcome::Rows(1)), Ok(Ok(())));
    assert_eq!(delete_outcome(StoreOutcome::Rows(0)), Ok(Err(RequestError::NotFound)));
    assert_eq!(delete_outcome(StoreOutcome::Rows(7)), Err(ServerError::ManyRows));
    assert_eq!(delete_outcome(StoreOutcome::Failed), Err(ServerError::Storage));
    assert_eq!(delete_outcome(StoreOutcome::UniqueViolation), Err(ServerError::Storage));
}

#[test]
fn request_error_messages() {
    assert_eq!(RequestError::NameExists.message(), "Name already exists");
    assert_eq!(RequestError::NotFound.message(), "Resource does not exist");
}

#[test]
fn expiry_rule() {
    assert!(is_expired(99, 100));
    assert!(!is_expired(100, 100));
    assert!(!is_expired(101, 100));
    assert!(!is_expired(0, 100));
    assert!(is_expired(-1, 100));
}

#[test]
fn sweep_reports() {
    assert_eq!(sweep_report(StoreOutcome::Rows(0)), SweepReport::Quiet);
    assert_eq!(sweep_report(StoreOutcome::Rows(3)), SweepReport::Cleared(3));
    assert_eq!(sweep_report(StoreOutcome::Failed), SweepReport::Failed);
}

#[test]
fn steps_follow_fixed_order_with_rename_last() {
    let req = ResourceUpdateReq {
        name: "a".to_string(),
        new_name: Some("b".to_string()),
        description: Some("d".to_string()),
        reserved_until: Some(9),
        reserved_by: Some("u".to_string()),
        other_fields: Some(vec![("k".to_string(), "v".to_string())]),
    };
    assert_eq!(
        update_steps(req),
        vec![
            FieldUpdate::Description("d".to_string()),
            FieldUpdate::ReservedUntil(9),
            FieldUpdate::ReservedBy("u".to_string()),
            FieldUpdate::OtherFields(vec![("k".to_string(), "v".to_string())]),
            FieldUpdate::Rename("b".to_string()),
        ]
    );
}

#[test]
fn steps_skip_unset_fields() {
    let req = ResourceUpdateReq {
        name: "a".to_string(),
        new_name: Some("b".to_string()),
        description: None,
        reserved_until: Some(0),
        reserved_by: None,
        other_fields: None,
    };
    assert_eq!(
        update_steps(req),
        vec![FieldUpdate::ReservedUntil(0), FieldUpdate::Rename("b".to_string())]
    );
}

#[test]
fn transaction_decisions() {
    assert_eq!(after_statement(0, 3, StoreOutcome::Rows(1)), Decision::Next);
    assert_eq!(after_statement(2, 3, StoreOutcome::Rows(1)), Decision::Commit);
    assert_eq!(
        after_statement(0, 3, StoreOutcome::Rows(0)),
        Decision::Abort(Ok(Err(RequestError::NotFound)))
    );
    assert_eq!(after_statement(1, 3, StoreOutcome::Rows(0)), Decision::Next);
    assert_eq!(after_statement(2, 3, StoreOutcome::Rows(0)), Decision::Commit);
    assert_eq!(
        after_statement(2, 3, StoreOutcome::UniqueViolation),
        Decision::Abort(Err(ServerError::Storage))
    );
    assert_eq!(
        after_statement(1, 2, StoreOutcome::Failed),
        Decision::Abort(Err(ServerError::Storage))
    );
    assert_eq!(
        after_statement(0, 1, StoreOutcome::Rows(4)),
        Decision::Abort(Err(ServerError::ManyRows))
    );
}
