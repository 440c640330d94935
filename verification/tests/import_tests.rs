use wireguard_gui::errors::{AppError, ValidationReason};
use wireguard_gui::import::{
    collect_export, export_plan, export_start, import_batch, import_one, ImportFile,
};
use wireguard_gui::store::{ProfilePartial, Store};

fn offered(path: &str, name: Option<&str>, content: Result<&str, &str>) -> ImportFile {
    ImportFile {
        path: String::from(path),
        file_name: name.map(String::from),
        content: content.map(String::from).map_err(String::from),
    }
}

#[test]
fn import_sanitizes_name_and_numbers_collisions() {
    let mut s = Store::new_empty();
    // Content of length 10 passes the 8-character threshold.
    let r = import_one(
        &mut s,
        offered("/tmp/My VPN!!.conf", Some("My VPN!!.conf"), Ok("0123456789")),
    );
    assert_eq!(r.unwrap(), "MyVPN");

    // A second file that sanitizes to the same base name gets `_1`.
    let r = import_one(
        &mut s,
        offered("/tmp/My-VPN.conf", Some("My-VPN.conf"), Ok("abcdefghij")),
    );
    assert_eq!(r.unwrap(), "MyVPN_1");

    let all = s.list_all();
    assert_eq!(all.len(), 2);
    assert_eq!(all[0].name, "MyVPN");
    assert_eq!(all[0].content, "0123456789");
    assert_eq!(all[1].name, "MyVPN_1");
}

#[test]
fn short_content_fails_that_file_but_not_the_batch() {
    let mut s = Store::new_empty();
    let files = vec![
        offered("/a/good.conf", Some("good.conf"), Ok("long enough")),
        offered("/a/short.conf", Some("short.conf"), Ok("tiny!")),
        offered("/a/other.conf", Some("other.conf"), Ok("also long enough")),
    ];
    let r = import_batch(&mut s, files);
    assert_eq!(r.success, vec!["good", "other"]);
    assert_eq!(r.failed.len(), 1);
    assert_eq!(r.failed[0].file_name, "short.conf");
    assert_eq!(
        r.failed[0].error,
        AppError::ValidationError { reason: ValidationReason::ContentTooShort }
    );
    assert!(s.exists_name("good"));
    assert!(s.exists_name("other"));
    assert!(!s.exists_name("short"));
}

#[test]
fn missing_file_name_reports_the_path() {
    let mut s = Store::new_empty();
    let r = import_one(&mut s, offered("/odd/..", None, Ok("irrelevant")));
    let e = r.unwrap_err();
    assert_eq!(e.file_name, "/odd/..");
    assert_eq!(
        e.error,
        AppError::ValidationError { reason: ValidationReason::MissingFileName }
    );
}

#[test]
fn wrong_extension_is_rejected() {
    let mut s = Store::new_empty();
    let r = import_one(&mut s, offered("/a/notes.txt", Some("notes.txt"), Ok("long enough")));
    let e = r.unwrap_err();
    assert_eq!(e.file_name, "notes.txt");
    assert_eq!(
        e.error,
        AppError::ValidationError { reason: ValidationReason::WrongExtension }
    );
}

#[test]
fn unreadable_file_reports_io_detail() {
    let mut s = Store::new_empty();
    let r = import_one(
        &mut s,
        offered("/a/locked.conf", Some("locked.conf"), Err("permission denied")),
    );
    let e = r.unwrap_err();
    assert_eq!(e.error, AppError::IoError { detail: String::from("permission denied") });
}

#[test]
fn name_empty_after_sanitizing_is_rejected() {
    let mut s = Store::new_empty();
    let r = import_one(&mut s, offered("/a/!!!.conf", Some("!!!.conf"), Ok("long enough")));
    let e = r.unwrap_err();
    assert_eq!(
        e.error,
        AppError::ValidationError { reason: ValidationReason::EmptyName }
    );
}

#[test]
fn import_never_overwrites_existing_profiles() {
    let mut s = Store::new_empty();
    s.create(ProfilePartial {
        name: String::from("Work"),
        content: String::from("original text"),
    })
    .unwrap();
    let r = import_one(&mut s, offered("/a/Work.conf", Some("Work.conf"), Ok("imported text")));
    assert_eq!(r.unwrap(), "Work_1");
    let all = s.list_all();
    assert_eq!(all[0].content, "original text");
}

#[test]
fn collisions_inside_one_batch_are_numbered_in_order() {
    let mut s = Store::new_empty();
    let files = vec![
        offered("/a/Home.conf", Some("Home.conf"), Ok("first tunnel")),
        offered("/b/Home!.conf", Some("Home!.conf"), Ok("second tunnel")),
        offered("/c/Ho me.conf", Some("Ho me.conf"), Ok("third tunnel")),
    ];
    let r = import_batch(&mut s, files);
    assert_eq!(r.success, vec!["Home", "Home_1", "Home_2"]);
    assert!(r.failed.is_empty());
    let all = s.list_all();
    assert_eq!(all[1].name, "Home_1");
    assert_eq!(all[1].content, "second tunnel");
}

#[test]
fn export_plan_lists_every_profile_in_order() {
    let mut s = Store::new_empty();
    s.create(ProfilePartial { name: String::from("A"), content: String::from("content a") })
        .unwrap();
    s.create(ProfilePartial { name: String::from("B"), content: String::from("content b") })
        .unwrap();
    assert_eq!(export_plan(&s), vec!["A", "B"]);
}

#[test]
fn export_outcomes_are_split_in_order() {
    let names = vec![String::from("A"), String::from("B"), String::from("C")];
    let outcomes = vec![None, Some(String::from("disk full")), None];
    let r = collect_export(names, outcomes);
    assert_eq!(r.success, vec!["A", "C"]);
    assert_eq!(r.failed.len(), 1);
    assert_eq!(r.failed[0].profile_name, "B");
    assert_eq!(r.failed[0].error, AppError::IoError { detail: String::from("disk full") });
}

#[test]
fn unreadable_profiles_directory_fails_the_whole_export() {
    let mut s = Store::new_empty();
    s.create(ProfilePartial { name: String::from("A"), content: String::from("content a") })
        .unwrap();
    let r = export_start(&s, Err(String::from("permission denied")));
    assert_eq!(
        r.unwrap_err(),
        AppError::IoError { detail: String::from("permission denied") }
    );
    let names = export_start(&s, Ok(())).unwrap();
    assert_eq!(names, vec!["A"]);
}
