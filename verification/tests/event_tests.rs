use homeserver_sync::delta::since_membership;
use homeserver_sync::event::{member_facts, Membership, PersistedEvent};

fn event(event_type: &str, state_key: Option<&str>, content: &str) -> PersistedEvent {
    PersistedEvent {
        event_id: "$e:example.org".to_owned(),
        position: 1,
        event_type: event_type.to_owned(),
        state_key: state_key.map(str::to_owned),
        content: content.to_owned(),
        sender: "@alice:example.org".to_owned(),
        redacts: None,
    }
}

#[test]
fn member_event_says_who_and_what() {
    let e = event("m.room.member", Some("@bob:example.org"), r#"{"membership":"join"}"#);
    let facts = member_facts(&e).expect("a membership event with a state key");
    assert_eq!(facts.user, "@bob:example.org");
    assert!(facts.user_valid);
    assert_eq!(facts.membership, Some(Membership::Join));
}

#[test]
fn every_membership_is_told_apart() {
    let cases = [
        ("ban", Membership::Ban),
        ("invite", Membership::Invite),
        ("join", Membership::Join),
        ("knock", Membership::Knock),
        ("leave", Membership::Leave),
        ("something-else", Membership::Other),
    ];
    for (text, expected) in cases {
        let content = format!(r#"{{"membership":"{}"}}"#, text);
        assert_eq!(since_membership(Some(&content)), Some(expected));
    }
}

#[test]
fn membership_comes_from_the_content_not_the_text_itself() {
    let content = r#"{"displayname":"join","membership":"leave","reason":"invite"}"#;
    assert_eq!(since_membership(Some(content)), Some(Membership::Leave));
}

#[test]
fn broken_content_has_no_membership() {
    assert_eq!(since_membership(Some("not json")), None);
    assert_eq!(since_membership(Some("{}")), None);
    assert_eq!(since_membership(Some(r#"{"membership":5}"#)), None);
    assert_eq!(since_membership(None), None);
}

#[test]
fn state_key_is_checked_as_user_id() {
    let good = event("m.room.member", Some("@carol:example.org:8448"), r#"{"membership":"join"}"#);
    assert!(member_facts(&good).unwrap().user_valid);
    for bad in ["carol", "@carol", "carol:example.org", "@carol:", "", "@ca rol:example.org"] {
        let e = event("m.room.member", Some(bad), r#"{"membership":"join"}"#);
        let facts = member_facts(&e).unwrap();
        assert!(!facts.user_valid, "{:?} is no user id", bad);
        assert_eq!(facts.user, bad);
    }
}

#[test]
fn broken_member_content_is_reported_as_unreadable() {
    let e = event("m.room.member", Some("@bob:example.org"), "[]");
    let facts = member_facts(&e).unwrap();
    assert!(facts.user_valid);
    assert_eq!(facts.membership, None);
}

#[test]
fn other_events_say_nothing_of_members() {
    let message = event("m.room.message", None, r#"{"body":"hi"}"#);
    assert!(member_facts(&message).is_none());
    let topic = event("m.room.topic", Some(""), r#"{"topic":"x"}"#);
    assert!(member_facts(&topic).is_none());
    let keyless = event("m.room.member", None, r#"{"membership":"join"}"#);
    assert!(member_facts(&keyless).is_none());
}

#[test]
fn event_kind_and_state_are_read_from_the_event() {
    let member = event("m.room.member", Some("@bob:example.org"), "{}");
    assert!(member.is_member_event());
    assert!(member.has_state_key());
    let message = event("m.room.message", None, "{}");
    assert!(!message.is_member_event());
    assert!(!message.has_state_key());
}

#[test]
fn cloned_event_is_equal_in_every_field() {
    let mut e = event("m.room.redaction", None, r#"{"reason":"spam"}"#);
    e.redacts = Some("$target:example.org".to_owned());
    e.position = 77;
    let c = e.clone();
    assert_eq!(c.event_id, e.event_id);
    assert_eq!(c.position, 77);
    assert_eq!(c.event_type, e.event_type);
    assert_eq!(c.state_key, e.state_key);
    assert_eq!(c.content, e.content);
    assert_eq!(c.sender, e.sender);
    assert_eq!(c.redacts, e.redacts);
}

#[test]
fn membership_is_read_whatever_else_the_content_holds() {
    let long_key = format!("{}:x", "\u{e9}".repeat(150));
    let content = format!(
        r#"{{"membership":"invite","third_party_invite":{{"display_name":"bob","signed":{{"mxid":"@bob:x.org","token":"t","signatures":{{"x.org":{{"{}":"sig"}}}}}}}}}}"#,
        long_key
    );
    assert_eq!(since_membership(Some(&content)), Some(Membership::Invite));
    let e = event("m.room.member", Some("@bob:x.org"), &content);
    assert_eq!(member_facts(&e).unwrap().membership, Some(Membership::Invite));
    let odd = r#"{"membership":"join","displayname":5,"is_direct":"yes","avatar_url":[]}"#;
    assert_eq!(since_membership(Some(odd)), Some(Membership::Join));
}

#[test]
fn authorising_user_must_be_a_user_id() {
    let good = r#"{"membership":"join","join_authorised_via_users_server":"@a:x.org"}"#;
    assert_eq!(since_membership(Some(good)), Some(Membership::Join));
    let bad = r#"{"membership":"join","join_authorised_via_users_server":"nobody"}"#;
    assert_eq!(since_membership(Some(bad)), None);
}
