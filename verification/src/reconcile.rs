//! Startup reconciliation: the persisted marker file is merged with the
//! externally observed link status to produce a consistent initial
//! state. A marker that names a profile whose link is down is stale;
//! the caller is told to delete it.

use vstd::prelude::*;
use crate::state::{ConnSt, ConnState};
use crate::store::Store;
use crate::controller::Controller;

verus! {

/// Exactly what startup reconciliation produces. `stale` tells the host
/// to delete the marker file left behind by a crash.
pub open spec fn startup_post(
    marker: Option<String>,
    link_up: bool,
    ip: Option<String>,
    store: Store,
    ctl: Controller,
    stale: bool,
) -> bool {
    &&& ctl.store == store
    &&& ctl.toggles() == Seq::<Seq<char>>::empty()
    &&& ctl.state.pub_ip == ip
    &&& (match marker {
        Option::None => {
            &&& ctl.state.conn_st == ConnSt::Disconnected
            &&& ctl.state.current is None
            &&& ctl.marker is None
            &&& !stale
        },
        Option::Some(m) => if link_up {
            &&& ctl.state.conn_st == ConnSt::Connected
            &&& ctl.state.current == Option::Some(m)
            &&& ctl.marker == Option::Some(m)
            &&& !stale
        } else {
            &&& ctl.state.conn_st == ConnSt::Disconnected
            &&& ctl.state.current is None
            &&& ctl.marker is None
            &&& stale
        },
    })
}

/// Merges the persisted marker with the observed link status.
/// `marker` is the marker-file content if the file exists, `link_up`
/// the observed status of that profile's interface (ignored without a
/// marker), `ip` the result of the initial best-effort public-IP
/// lookup, and `store` the loaded profile directory.
pub fn startup(marker: Option<String>, link_up: bool, ip: Option<String>, store: Store) -> (r: (
    Controller,
    bool,
))
    requires
        store.wf(),
    ensures
        r.0.wf(),
        startup_post(marker, link_up, ip, store, r.0, r.1),
{
    let ghost empty_names = Seq::<Seq<char>>::empty();
    match marker {
        None => {
            let ctl = Controller {
                state: ConnState::disconnected(ip),
                marker: None,
                store,
                toggle_log: Vec::new(),
            };
            proof {
                assert(ctl.toggles() =~= empty_names);
            }
            (ctl, false)
        },
        Some(m) => {
            if link_up {
                let ctl = Controller {
                    state: ConnState {
                        conn_st: ConnSt::Connected,
                        current: Some(m.clone()),
                        pub_ip: ip,
                    },
                    marker: Some(m),
                    store,
                    toggle_log: Vec::new(),
                };
                proof {
                    assert(ctl.toggles() =~= empty_names);
                }
                (ctl, false)
            } else {
                let ctl = Controller {
                    state: ConnState::disconnected(ip),
                    marker: None,
                    store,
                    toggle_log: Vec::new(),
                };
                proof {
                    assert(ctl.toggles() =~= empty_names);
                }
                (ctl, true)
            }
        },
    }
}

} // verus!
