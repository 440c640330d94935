use wireguard_gui::errors::AppError;
use wireguard_gui::reconcile::startup;
use wireguard_gui::state::{ConnSt, ToggleOutcome};
use wireguard_gui::store::{ProfilePartial, Store};

fn clean_controller() -> wireguard_gui::controller::Controller {
    let (ctl, stale) = startup(None, false, None, Store::new_empty());
    assert!(!stale);
    ctl
}

#[test]
fn connect_a_then_b_toggles_in_order_and_persists_b() {
    let mut ctl = clean_controller();

    // connect(A): nothing active, so no teardown; one toggle of A.
    let r = ctl.connect_bringup(
        String::from("A"),
        ToggleOutcome::Completed,
        Some(String::from("1.2.3.4")),
    );
    assert_eq!(r, Ok(()));
    assert_eq!(ctl.state.conn_st, ConnSt::Connected);
    assert_eq!(ctl.state.current.as_deref(), Some("A"));
    assert_eq!(ctl.marker.as_deref(), Some("A"));

    // connect(B): tears down A, then brings up B.
    let r = ctl.connect_teardown(ToggleOutcome::Completed);
    assert_eq!(r, Ok(()));
    let r = ctl.connect_bringup(
        String::from("B"),
        ToggleOutcome::Completed,
        Some(String::from("5.6.7.8")),
    );
    assert_eq!(r, Ok(()));

    assert_eq!(ctl.state.conn_st, ConnSt::Connected);
    assert_eq!(ctl.state.current.as_deref(), Some("B"));
    assert_eq!(ctl.marker.as_deref(), Some("B"));
    assert_eq!(ctl.toggle_log, vec!["A", "A", "B"]);
}

#[test]
fn connect_writes_trimmed_marker() {
    let mut ctl = clean_controller();
    let r = ctl.connect_bringup(String::from("  A \n"), ToggleOutcome::Completed, None);
    assert_eq!(r, Ok(()));
    assert_eq!(ctl.marker.as_deref(), Some("A"));
    assert_eq!(ctl.state.current.as_deref(), Some("  A \n"));
}

#[test]
fn connect_teardown_failure_aborts_with_state_unchanged() {
    let mut ctl = clean_controller();
    ctl.connect_bringup(String::from("A"), ToggleOutcome::Completed, None).unwrap();
    let r = ctl.connect_teardown(ToggleOutcome::Failed(String::from("boom")));
    assert_eq!(
        r,
        Err(AppError::ExecutionError { diagnostic: String::from("boom") })
    );
    assert_eq!(ctl.state.conn_st, ConnSt::Connected);
    assert_eq!(ctl.state.current.as_deref(), Some("A"));
}

#[test]
fn connect_bringup_failure_leaves_no_active_profile() {
    let mut ctl = clean_controller();
    ctl.connect_bringup(String::from("A"), ToggleOutcome::Completed, None).unwrap();
    ctl.connect_teardown(ToggleOutcome::Completed).unwrap();
    let r = ctl.connect_bringup(
        String::from("B"),
        ToggleOutcome::Failed(String::from("no device")),
        None,
    );
    assert_eq!(
        r,
        Err(AppError::ExecutionError { diagnostic: String::from("no device") })
    );
    // The old tunnel was already torn down: nothing is active.
    assert_eq!(ctl.state.conn_st, ConnSt::Disconnected);
    assert_eq!(ctl.state.current, None);
}

#[test]
fn disconnect_when_disconnected_is_a_no_op_success() {
    let mut ctl = clean_controller();
    let before_log = ctl.toggle_log.clone();
    let r = ctl.disconnect_idle();
    assert_eq!(r, Ok(()));
    assert_eq!(ctl.state.conn_st, ConnSt::Disconnected);
    assert_eq!(ctl.state.current, None);
    assert_eq!(ctl.marker, None);
    assert_eq!(ctl.toggle_log, before_log);
}

#[test]
fn disconnect_active_removes_marker_and_refreshes_ip() {
    let mut ctl = clean_controller();
    ctl.connect_bringup(String::from("A"), ToggleOutcome::Completed, None).unwrap();
    let r = ctl.disconnect_active(ToggleOutcome::Completed, Some(String::from("9.9.9.9")));
    assert_eq!(r, Ok(()));
    assert_eq!(ctl.state.conn_st, ConnSt::Disconnected);
    assert_eq!(ctl.state.current, None);
    assert_eq!(ctl.marker, None);
    assert_eq!(ctl.state.pub_ip.as_deref(), Some("9.9.9.9"));
}

#[test]
fn disconnect_failure_keeps_state_and_marker() {
    let mut ctl = clean_controller();
    ctl.connect_bringup(String::from("A"), ToggleOutcome::Completed, None).unwrap();
    let r = ctl.disconnect_active(ToggleOutcome::Failed(String::from("busy")), None);
    assert_eq!(
        r,
        Err(AppError::ExecutionError { diagnostic: String::from("busy") })
    );
    assert_eq!(ctl.state.conn_st, ConnSt::Connected);
    assert_eq!(ctl.state.current.as_deref(), Some("A"));
    assert_eq!(ctl.marker.as_deref(), Some("A"));
}

#[test]
fn update_active_profile_persists_content_even_when_reconnect_fails() {
    let mut ctl = clean_controller();
    ctl.create_profile(ProfilePartial {
        name: String::from("A"),
        content: String::from("old content"),
    })
    .unwrap();
    ctl.connect_bringup(String::from("A"), ToggleOutcome::Completed, None).unwrap();

    // The new content is written first, then the reconnect toggles run.
    let needs = ctl.update_content("A", String::from("new content")).unwrap();
    assert!(needs);
    ctl.reconnect_toggle(ToggleOutcome::Completed).unwrap();
    let r = ctl.reconnect_finish(ToggleOutcome::Failed(String::from("handshake failed")), None);
    assert_eq!(
        r,
        Err(AppError::ExecutionError { diagnostic: String::from("handshake failed") })
    );

    // The reconnect error is surfaced, but the content stays persisted
    // and the active profile is unchanged.
    let all = ctl.store.list_all();
    assert_eq!(all[0].content, "new content");
    assert_eq!(ctl.state.conn_st, ConnSt::Connected);
    assert_eq!(ctl.state.current.as_deref(), Some("A"));
}

#[test]
fn update_inactive_profile_needs_no_reconnect() {
    let mut ctl = clean_controller();
    ctl.create_profile(ProfilePartial {
        name: String::from("B"),
        content: String::from("old content"),
    })
    .unwrap();
    let needs = ctl.update_content("B", String::from("new content")).unwrap();
    assert!(!needs);
    assert_eq!(ctl.toggle_log.len(), 0);
}

#[test]
fn update_missing_profile_is_not_found() {
    let mut ctl = clean_controller();
    let r = ctl.update_content("Ghost", String::from("whatever"));
    assert_eq!(r, Err(AppError::NotFound));
}

#[test]
fn delete_active_profile_disconnects_then_removes_file() {
    let mut ctl = clean_controller();
    ctl.create_profile(ProfilePartial {
        name: String::from("A"),
        content: String::from("some content"),
    })
    .unwrap();
    ctl.connect_bringup(String::from("A"), ToggleOutcome::Completed, None).unwrap();
    assert!(ctl.is_active("A"));

    // Host flow for delete of the active profile: disconnect first,
    // then remove the file whatever the disconnect reported.
    let r = ctl.disconnect_active(ToggleOutcome::Failed(String::from("stuck")), None);
    assert!(r.is_err());
    ctl.remove_profile_file("A");
    assert!(!ctl.store.exists_name("A"));
}

#[test]
fn snapshot_reflects_state() {
    let mut ctl = clean_controller();
    ctl.connect_bringup(String::from("A"), ToggleOutcome::Completed, Some(String::from("1.1.1.1")))
        .unwrap();
    let snap = ctl.state_snapshot();
    assert_eq!(snap.conn_st, ConnSt::Connected);
    assert_eq!(snap.current.as_deref(), Some("A"));
    assert_eq!(snap.pub_ip.as_deref(), Some("1.1.1.1"));
}
