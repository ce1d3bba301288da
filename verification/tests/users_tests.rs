use homeserver_sync::users::UserSet;

#[test]
fn user_set_starts_empty() {
    let set = UserSet::new();
    assert!(set.is_empty());
    assert_eq!(set.len(), 0);
    assert!(!set.contains("@a:x.org"));
}

#[test]
fn user_set_holds_each_id_once() {
    let mut set = UserSet::new();
    assert!(set.insert("@a:x.org".to_owned()));
    assert!(set.insert("@b:x.org".to_owned()));
    assert!(!set.insert("@a:x.org".to_owned()));
    assert_eq!(set.len(), 2);
    assert!(set.contains("@a:x.org"));
    assert!(set.contains("@b:x.org"));
    assert!(!set.contains("@c:x.org"));
    assert!(!set.is_empty());
    assert_eq!(set.into_vec(), vec!["@a:x.org".to_owned(), "@b:x.org".to_owned()]);
}

#[test]
fn user_set_extends_without_duplicates() {
    let mut set = UserSet::new();
    set.insert("@a:x.org".to_owned());
    set.extend(&vec!["@b:x.org".to_owned(), "@a:x.org".to_owned(), "@b:x.org".to_owned()]);
    assert_eq!(set.into_vec(), vec!["@a:x.org".to_owned(), "@b:x.org".to_owned()]);
}
