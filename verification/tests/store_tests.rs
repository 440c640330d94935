use wireguard_gui::errors::AppError;
use wireguard_gui::store::{Profile, ProfilePartial, Store};

fn partial(name: &str, content: &str) -> ProfilePartial {
    ProfilePartial { name: String::from(name), content: String::from(content) }
}

#[test]
fn create_rejects_non_alphanumeric_name_and_writes_nothing() {
    let mut s = Store::new_empty();
    let r = s.create(partial("bad name!", "content here"));
    assert_eq!(r, Err(AppError::InvalidName));
    assert_eq!(s.list_all().len(), 0);
}

#[test]
fn create_twice_fails_and_keeps_original_content() {
    let mut s = Store::new_empty();
    assert_eq!(s.create(partial("Office", "first content")), Ok(()));
    let r = s.create(partial("Office", "second content"));
    assert_eq!(r, Err(AppError::AlreadyExists));
    let all = s.list_all();
    assert_eq!(all.len(), 1);
    assert_eq!(all[0].name, "Office");
    assert_eq!(all[0].content, "first content");
}

#[test]
fn create_then_lookup() {
    let mut s = Store::new_empty();
    assert_eq!(s.create(partial("Home", "some config")), Ok(()));
    assert!(s.exists_name("Home"));
    assert!(!s.exists_name("Work"));
}

#[test]
fn set_content_missing_profile_is_not_found() {
    let mut s = Store::new_empty();
    let r = s.set_content("Ghost", String::from("new"));
    assert_eq!(r, Err(AppError::NotFound));
}

#[test]
fn set_content_replaces_only_that_profile() {
    let mut s = Store::new_empty();
    assert_eq!(s.create(partial("A", "content a")), Ok(()));
    assert_eq!(s.create(partial("B", "content b")), Ok(()));
    assert_eq!(s.set_content("A", String::from("content a2")), Ok(()));
    let all = s.list_all();
    assert_eq!(all[0].content, "content a2");
    assert_eq!(all[1].content, "content b");
}

#[test]
fn remove_is_best_effort() {
    let mut s = Store::new_empty();
    assert_eq!(s.create(partial("A", "content a")), Ok(()));
    assert!(!s.remove_name("Missing"));
    assert!(s.remove_name("A"));
    assert!(!s.exists_name("A"));
    assert!(!s.remove_name("A"));
}

#[test]
fn load_keeps_first_profile_per_name() {
    let listing = vec![
        Profile { name: String::from("A"), content: String::from("first") },
        Profile { name: String::from("B"), content: String::from("bee") },
        Profile { name: String::from("A"), content: String::from("second") },
    ];
    let s = Store::load(listing);
    let all = s.list_all();
    assert_eq!(all.len(), 2);
    assert_eq!(all[0].name, "A");
    assert_eq!(all[0].content, "first");
    assert_eq!(all[1].name, "B");
}
