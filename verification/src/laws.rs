//! Laws relating several operations, stated over the transition
//! predicates that the executable functions ensure.

use vstd::prelude::*;
use crate::errors::AppError;
use crate::state::{ConnSt, ToggleOutcome};
use crate::store::{Store, create_post, set_content_post};
use crate::controller::{
    Controller, connect_teardown_post, connect_bringup_post, reconnect_toggle_post,
};
use crate::text::{valid_name, trimmed};
use crate::reconcile::startup_post;

verus! {

/// A name with a non-alphanumeric character is rejected by `create`
/// with `InvalidName`, and nothing is written.
pub proof fn law_create_invalid_name(
    pre: Store,
    name: Seq<char>,
    content: Seq<char>,
    post: Store,
    r: Result<(), AppError>,
)
    requires
        create_post(pre, name, content, post, r),
        !valid_name(name),
    ensures
        r == Result::<(), AppError>::Err(AppError::InvalidName),
        post == pre,
{
}

/// Creating the same name twice fails the second time with
/// `AlreadyExists`, and the originally written content is unchanged.
pub proof fn law_create_twice(
    pre: Store,
    name: Seq<char>,
    c1: Seq<char>,
    c2: Seq<char>,
    mid: Store,
    post: Store,
    r2: Result<(), AppError>,
)
    requires
        valid_name(name),
        !pre.has(name),
        create_post(pre, name, c1, mid, Result::<(), AppError>::Ok(())),
        create_post(mid, name, c2, post, r2),
    ensures
        r2 == Result::<(), AppError>::Err(AppError::AlreadyExists),
        post == mid,
        post.content_of(name) == c1,
{
}

/// Connecting to `a` on a clean start and then to `b` toggles `a` (no
/// teardown first, none was active), then `a` again (teardown), then
/// `b`; the final state is connected to `b` and the marker holds the
/// trimmed `b`.
pub proof fn law_connect_sequence(
    s0: Controller,
    a: Seq<char>,
    ip_a: Option<String>,
    s1: Controller,
    s2: Controller,
    b: Seq<char>,
    ip_b: Option<String>,
    s3: Controller,
)
    requires
        s0.state.current is None,
        connect_bringup_post(
            s0,
            a,
            ToggleOutcome::Completed,
            ip_a,
            s1,
            Result::<(), AppError>::Ok(()),
        ),
        connect_teardown_post(s1, ToggleOutcome::Completed, s2, Result::<(), AppError>::Ok(())),
        connect_bringup_post(
            s2,
            b,
            ToggleOutcome::Completed,
            ip_b,
            s3,
            Result::<(), AppError>::Ok(()),
        ),
    ensures
        s3.state.conn_st == ConnSt::Connected,
        s3.state.current_name() == Option::Some(b),
        s3.marker_name() == Option::Some(trimmed(b)),
        s3.toggles() == s0.toggles() + seq![a, a, b],
{
    assert(s1.toggles() == s0.toggles().push(a));
    assert(s2.toggles() == s1.toggles().push(a));
    assert(s3.toggles() == s2.toggles().push(b));
    assert(s3.toggles() =~= s0.toggles() + seq![a, a, b]);
}

/// A persisted marker whose interface is observed down yields a
/// disconnected initial state with no active profile, and the stale
/// marker file is flagged for deletion.
pub proof fn law_stale_marker(
    marker: Option<String>,
    ip: Option<String>,
    store: Store,
    ctl: Controller,
    stale: bool,
)
    requires
        marker is Some,
        startup_post(marker, false, ip, store, ctl, stale),
    ensures
        ctl.state.conn_st == ConnSt::Disconnected,
        ctl.state.current is None,
        ctl.marker is None,
        stale,
{
}

/// An update of the active profile persists the new content before any
/// reconnect toggle runs: when the reconnect toggle then fails, the new
/// content is still stored, the executor error is surfaced, and the
/// connection state is unchanged.
pub proof fn law_update_persists_despite_reconnect_failure(
    s0: Controller,
    name: Seq<char>,
    content: Seq<char>,
    s1: Controller,
    s2: Controller,
    d: String,
    r2: Result<(), AppError>,
)
    requires
        s0.store.has(name),
        s1.state == s0.state,
        s1.marker == s0.marker,
        set_content_post(s0.store, name, content, s1.store, Result::<(), AppError>::Ok(())),
        reconnect_toggle_post(s1, ToggleOutcome::Failed(d), s2, r2),
    ensures
        s2.store.content_of(name) == content,
        (r2 matches Result::Err(AppError::ExecutionError { diagnostic }) && diagnostic == d),
        s2.state == s0.state,
        s2.marker == s0.marker,
{
}

} // verus!
