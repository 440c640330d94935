use wireguard_gui::reconcile::startup;
use wireguard_gui::state::ConnSt;
use wireguard_gui::store::Store;

#[test]
fn stale_marker_with_link_down_heals_to_disconnected() {
    let (ctl, stale) = startup(
        Some(String::from("X")),
        false,
        Some(String::from("1.2.3.4")),
        Store::new_empty(),
    );
    assert_eq!(ctl.state.conn_st, ConnSt::Disconnected);
    assert_eq!(ctl.state.current, None);
    assert_eq!(ctl.marker, None);
    assert!(stale);
    assert_eq!(ctl.state.pub_ip.as_deref(), Some("1.2.3.4"));
}

#[test]
fn marker_with_link_up_adopts_connected() {
    let (ctl, stale) = startup(Some(String::from("X")), true, None, Store::new_empty());
    assert_eq!(ctl.state.conn_st, ConnSt::Connected);
    assert_eq!(ctl.state.current.as_deref(), Some("X"));
    assert_eq!(ctl.marker.as_deref(), Some("X"));
    assert!(!stale);
}

#[test]
fn no_marker_starts_disconnected() {
    let (ctl, stale) = startup(None, true, None, Store::new_empty());
    assert_eq!(ctl.state.conn_st, ConnSt::Disconnected);
    assert_eq!(ctl.state.current, None);
    assert_eq!(ctl.marker, None);
    assert!(!stale);
    assert_eq!(ctl.toggle_log.len(), 0);
}
