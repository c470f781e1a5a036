use resource_registry::{
    has_distinct_keys, Registry, Reply, RequestError, Resource, ResourceCreateReq, ResourceUpdateReq, ServerError,
};

fn fields(pairs: &[(&str, &str)]) -> Vec<(String, String)> {
    pairs.iter().map(|(k, v)| (k.to_string(), v.to_string())).collect()
}

fn resource(name: &str, until: i64, by: &str) -> Resource {
    Resource {
        name: name.to_string(),
        description: format!("{} device", name),
        reserved_until: until,
        reserved_by: by.to_string(),
        other_fields: Vec::new(),
    }
}

fn new_req(name: &str, other: Option<Vec<(String, String)>>) -> ResourceCreateReq {
    ResourceCreateReq {
        name: name.to_string(),
        description: "a lab machine".to_string(),
        other_fields: other,
    }
}

fn patch(name: &str) -> ResourceUpdateReq {
    ResourceUpdateReq {
        name: name.to_string(),
        new_name: None,
        description: None,
        reserved_until: None,
        reserved_by: None,
        other_fields: None,
    }
}

/// Create a record, then reserve it with a patch.
fn add_reserved(reg: &mut Registry, name: &str, until: i64, by: &str) {
    assert_eq!(reg.create_resource(resource(name, 0, "")), ok());
    let mut p = patch(name);
    p.reserved_until = Some(until);
    p.reserved_by = Some(by.to_string());
    assert_eq!(reg.update_resource(p), ok());
}

fn ok() -> Reply {
    Ok(Ok(()))
}

fn named<'a>(list: &'a [Resource], name: &str) -> &'a Resource {
    list.iter().find(|r| r.name == name).expect("record present")
}

#[test]
fn create_request_becomes_unreserved_record() {
    let r = new_req("phone-1", None).into_resource();
    assert_eq!(r.name, "phone-1");
    assert_eq!(r.description, "a lab machine");
    assert_eq!(r.reserved_until, 0);
    assert_eq!(r.reserved_by, "");
    assert!(r.other_fields.is_empty());
    assert!(r.is_paired());
}

#[test]
fn create_then_list_round_trips_other_fields() {
    let mut reg = Registry::new();
    let other = fields(&[("os", "android"), ("rack", "3"), ("", "empty key")]);
    let res = new_req("phone-1", Some(other.clone())).into_resource();
    assert_eq!(reg.create_resource(res.clone()), ok());
    let list = reg.list_resources();
    assert_eq!(list.len(), 1);
    assert_eq!(list[0], res);
    assert_eq!(list[0].other_fields, other);
}

#[test]
fn duplicate_name_is_request_error_and_adds_no_row() {
    let mut reg = Registry::new();
    assert_eq!(reg.create_resource(resource("a", 0, "")), ok());
    let again = Resource { description: "other".to_string(), ..resource("a", 0, "") };
    assert_eq!(reg.create_resource(again), Ok(Err(RequestError::NameExists)));
    let list = reg.list_resources();
    assert_eq!(list.len(), 1);
    assert_eq!(list[0].description, "a device");
}

#[test]
fn at_most_one_of_many_creators_wins() {
    let mut reg = Registry::new();
    let wins = (0..5)
        .filter(|_| reg.create_resource(resource("slot", 0, "")) == ok())
        .count();
    assert_eq!(wins, 1);
    assert_eq!(reg.list_resources().len(), 1);
}

#[test]
fn update_sets_only_given_fields() {
    let mut reg = Registry::new();
    reg.create_resource(resource("a", 0, ""));
    reg.create_resource(resource("b", 0, ""));
    let mut p = patch("a");
    p.reserved_until = Some(1_700_000_000);
    p.reserved_by = Some("alice".to_string());
    assert_eq!(reg.update_resource(p), ok());
    let list = reg.list_resources();
    let a = named(&list, "a");
    assert_eq!(a.reserved_until, 1_700_000_000);
    assert_eq!(a.reserved_by, "alice");
    assert_eq!(a.description, "a device");
    assert_eq!(named(&list, "b"), &resource("b", 0, ""));
}

#[test]
fn update_all_fields_and_rename() {
    let mut reg = Registry::new();
    reg.create_resource(resource("a", 0, ""));
    let p = ResourceUpdateReq {
        name: "a".to_string(),
        new_name: Some("z".to_string()),
        description: Some("renamed".to_string()),
        reserved_until: Some(50),
        reserved_by: Some("bob".to_string()),
        other_fields: Some(fields(&[("k", "v")])),
    };
    assert_eq!(reg.update_resource(p), ok());
    let list = reg.list_resources();
    assert_eq!(list.len(), 1);
    assert_eq!(
        list[0],
        Resource {
            name: "z".to_string(),
            description: "renamed".to_string(),
            reserved_until: 50,
            reserved_by: "bob".to_string(),
            other_fields: fields(&[("k", "v")]),
        }
    );
}

#[test]
fn rename_to_own_name_succeeds() {
    let mut reg = Registry::new();
    reg.create_resource(resource("a", 0, ""));
    let mut p = patch("a");
    p.new_name = Some("a".to_string());
    p.description = Some("same name".to_string());
    assert_eq!(reg.update_resource(p), ok());
    assert_eq!(reg.list_resources()[0].description, "same name");
}

#[test]
fn failed_rename_rolls_back_whole_patch() {
    let mut reg = Registry::new();
    reg.create_resource(resource("a", 0, ""));
    reg.create_resource(resource("b", 0, ""));
    let before = reg.list_resources();
    let mut p = patch("a");
    p.description = Some("changed".to_string());
    p.reserved_by = Some("carol".to_string());
    p.new_name = Some("b".to_string());
    assert_eq!(reg.update_resource(p), Err(ServerError::Storage));
    assert_eq!(reg.list_resources(), before);
}

#[test]
fn update_missing_record_is_request_error() {
    let mut reg = Registry::new();
    reg.create_resource(resource("a", 0, ""));
    let before = reg.list_resources();
    let mut p = patch("ghost");
    p.description = Some("x".to_string());
    p.new_name = Some("a".to_string());
    assert_eq!(reg.update_resource(p), Ok(Err(RequestError::NotFound)));
    assert_eq!(reg.list_resources(), before);
}

#[test]
fn empty_patch_runs_nothing() {
    let mut reg = Registry::new();
    assert_eq!(reg.update_resource(patch("ghost")), ok());
    assert!(reg.list_resources().is_empty());
}

#[test]
fn delete_existing_and_missing() {
    let mut reg = Registry::new();
    reg.create_resource(resource("a", 0, ""));
    reg.create_resource(resource("b", 0, ""));
    assert_eq!(reg.delete_resource(&"a".to_string()), ok());
    let list = reg.list_resources();
    assert_eq!(list.len(), 1);
    assert_eq!(list[0].name, "b");
    assert_eq!(reg.delete_resource(&"a".to_string()), Ok(Err(RequestError::NotFound)));
    assert_eq!(reg.list_resources(), list);
}

#[test]
fn sweep_clears_only_expired_lease() {
    let now: i64 = 1_000_000;
    let mut reg = Registry::new();
    reg.create_resource(resource("free", 0, ""));
    add_reserved(&mut reg, "past", now - 100, "alice");
    add_reserved(&mut reg, "future", now + 100, "bob");
    assert_eq!(reg.clear_expired_reservations(now), 1);
    let list = reg.list_resources();
    assert_eq!(named(&list, "free"), &resource("free", 0, ""));
    assert_eq!(named(&list, "past"), &resource("past", 0, ""));
    assert_eq!(named(&list, "future"), &resource("future", now + 100, "bob"));
}

#[test]
fn sweep_keeps_lease_ending_now() {
    let mut reg = Registry::new();
    add_reserved(&mut reg, "edge", 500, "dan");
    assert_eq!(reg.clear_expired_reservations(500), 0);
    assert_eq!(reg.list_resources()[0], resource("edge", 500, "dan"));
}

#[test]
fn second_sweep_clears_nothing() {
    let now: i64 = 10_000;
    let mut reg = Registry::new();
    add_reserved(&mut reg, "a", now - 1, "x");
    add_reserved(&mut reg, "b", now - 5000, "y");
    add_reserved(&mut reg, "c", now + 1, "z");
    assert_eq!(reg.clear_expired_reservations(now), 2);
    let after_first = reg.list_resources();
    assert_eq!(reg.clear_expired_reservations(now), 0);
    assert_eq!(reg.list_resources(), after_first);
}

#[test]
fn pairing_holds_after_updates_and_sweeps() {
    let mut reg = Registry::new();
    reg.create_resource(resource("a", 0, ""));
    reg.create_resource(resource("b", 0, ""));
    let mut p = patch("a");
    p.reserved_until = Some(100);
    p.reserved_by = Some("eve".to_string());
    reg.update_resource(p);
    let mut q = patch("b");
    q.reserved_until = Some(300);
    q.reserved_by = Some("fay".to_string());
    reg.update_resource(q);
    reg.clear_expired_reservations(200);
    let mut r = patch("b");
    r.reserved_until = Some(0);
    r.reserved_by = Some(String::new());
    reg.update_resource(r);
    for rec in reg.list_resources() {
        assert!(rec.is_paired());
        assert_eq!(rec.reserved_until, 0);
    }
}

#[test]
fn one_sided_lease_patch_breaks_pairing() {
    let mut reg = Registry::new();
    reg.create_resource(resource("a", 0, ""));
    let mut p = patch("a");
    p.reserved_by = Some("gus".to_string());
    assert_eq!(reg.update_resource(p), ok());
    assert!(!reg.list_resources()[0].is_paired());
}

#[test]
fn negative_deadline_counts_as_expired() {
    let mut reg = Registry::new();
    add_reserved(&mut reg, "old", -7, "hal");
    assert_eq!(reg.clear_expired_reservations(0), 1);
    assert!(reg.list_resources()[0].is_paired());
    assert_eq!(reg.list_resources()[0].reserved_by, "");
}

#[test]
fn created_record_starts_unreserved() {
    let mut reg = Registry::new();
    assert_eq!(reg.create_resource(resource("leased", 5, "bob")), ok());
    let list = reg.list_resources();
    assert_eq!(list[0], resource("leased", 0, ""));
    assert!(list[0].is_paired());
}

#[test]
fn first_of_many_creators_is_stored() {
    let mut reg = Registry::new();
    let first = Resource { description: "first".to_string(), ..resource("slot", 0, "") };
    assert_eq!(reg.create_resource(first.clone()), ok());
    for i in 0..4 {
        let other = Resource { description: format!("other {}", i), ..resource("slot", 0, "") };
        assert_eq!(reg.create_resource(other), Ok(Err(RequestError::NameExists)));
    }
    assert_eq!(reg.list_resources(), vec![first]);
}

#[test]
fn entry_keys_must_be_distinct() {
    assert!(has_distinct_keys(&fields(&[("os", "android"), ("rack", "3")])));
    assert!(has_distinct_keys(&Vec::new()));
    assert!(!has_distinct_keys(&fields(&[("os", "android"), ("rack", "3"), ("os", "ios")])));
}
