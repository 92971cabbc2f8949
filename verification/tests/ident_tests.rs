use lslong::ident::display_name;
use lslong::ident::resolve_group_name;
use lslong::ident::resolve_user_name;
use lslong::ident::truncate_at_nul;
use lslong::ident::FakeResolver;

#[test]
fn missing_database_entry_falls_back_to_numeric_id() {
    assert_eq!(display_name(4242, None), "4242");
    assert_eq!(display_name(0, None), "0");

    let empty = FakeResolver { users: vec![], groups: vec![] };
    assert_eq!(resolve_user_name(&empty, 1234), "1234");
    assert_eq!(resolve_group_name(&empty, 99), "99");
}

#[test]
fn known_ids_resolve_to_their_recorded_names() {
    let resolver = FakeResolver {
        users: vec![(1000, String::from("alice")), (0, String::from("root"))],
        groups: vec![(50, String::from("staff"))],
    };
    assert_eq!(resolve_user_name(&resolver, 1000), "alice");
    assert_eq!(resolve_user_name(&resolver, 0), "root");
    assert_eq!(resolve_group_name(&resolver, 50), "staff");
    assert_eq!(resolve_user_name(&resolver, 50), "50");
    assert_eq!(resolve_group_name(&resolver, 1000), "1000");
}

#[test]
fn duplicate_ids_resolve_to_the_first_entry() {
    let resolver = FakeResolver {
        users: vec![(7, String::from("first")), (7, String::from("second"))],
        groups: vec![],
    };
    assert_eq!(resolve_user_name(&resolver, 7), "first");
}

#[test]
fn resolved_name_honors_the_lookup_answer() {
    assert_eq!(display_name(10, Some(String::from("deploy"))), "deploy");
}

#[test]
fn lookup_buffer_is_truncated_at_the_first_null() {
    let buf = vec![b'a', b'l', b'i', b'c', b'e', 0, b'j', b'u', b'n', b'k'];
    assert_eq!(truncate_at_nul(buf), vec![b'a', b'l', b'i', b'c', b'e']);

    let no_nul = vec![b'b', b'o', b'b'];
    assert_eq!(truncate_at_nul(no_nul), vec![b'b', b'o', b'b']);

    let leading = vec![0, b'x'];
    assert_eq!(truncate_at_nul(leading), Vec::<u8>::new());

    assert_eq!(truncate_at_nul(Vec::new()), Vec::<u8>::new());
}
