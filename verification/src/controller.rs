//! The serialized connection state machine.
//!
//! Each transition (connect, disconnect, reconnect, delete) runs in one
//! critical section of the host and may need the external toggle
//! command one or two times. The host invokes the command and feeds the
//! outcome into the step functions below; every decision — whom to
//! toggle, whether to continue, what to persist — is made here. The
//! controller also keeps the model of the marker file and of the
//! profile directory, and logs every toggle request in order.

use vstd::prelude::*;
use crate::errors::AppError;
use crate::state::{ConnSt, ConnState, ToggleOutcome};
use crate::store::{Store, ProfilePartial, create_post, set_content_post, remove_post};
use crate::text::{trimmed, trim_text, str_eq_chars};

verus! {

/// The whole model: connection state, marker file, profile directory,
/// and the ordered log of toggle invocations.
#[derive(Debug)]
pub struct Controller {
    /// The connection state, exclusively owned.
    pub state: ConnState,
    /// The model of the marker file: its content when it exists.
    pub marker: Option<String>,
    /// The model of the profile directory.
    pub store: Store,
    /// Every profile name handed to the toggle command, in order.
    pub toggle_log: Vec<String>,
}

impl Controller {
    /// The controller invariant.
    pub open spec fn wf(self) -> bool {
        self.state.wf() && self.store.wf()
    }

    /// The toggle invocations so far, as character sequences.
    pub open spec fn toggles(self) -> Seq<Seq<char>> {
        self.toggle_log@.map_values(|s: String| s@)
    }

    /// The marker-file content as a character sequence.
    pub open spec fn marker_name(self) -> Option<Seq<char>> {
        match self.marker {
            Option::Some(m) => Option::Some(m@),
            Option::None => Option::None,
        }
    }

    /// Records one invocation of the toggle command.
    fn log_toggle_value(&mut self, name: String)
        ensures
            final(self).state == old(self).state,
            final(self).marker == old(self).marker,
            final(self).store == old(self).store,
            final(self).toggles() == old(self).toggles().push(name@),
    {
        self.toggle_log.push(name);
        proof {
            assert(self.toggles() =~= old(self).toggles().push(name@));
        }
    }

    /// A copy of the active profile name, if any.
    pub fn active_profile(&self) -> (r: Option<String>)
        ensures
            r == self.state.current,
    {
        match &self.state.current {
            Some(cur) => Some(cur.clone()),
            None => None,
        }
    }

    /// Whether `name` is the active profile.
    pub fn is_active(&self, name: &str) -> (b: bool)
        ensures
            b == (self.state.current_name() == Option::Some(name@)),
    {
        match &self.state.current {
            Some(cur) => str_eq_chars(cur.as_str(), name),
            None => false,
        }
    }

    /// A read-only snapshot of the connection state.
    pub fn state_snapshot(&self) -> (r: ConnState)
        ensures
            r == self.state,
    {
        ConnState {
            conn_st: self.state.conn_st,
            current: clone_opt_string(&self.state.current),
            pub_ip: clone_opt_string(&self.state.pub_ip),
        }
    }

    /// The active profile name; callers guarantee one exists.
    fn active_name(&self) -> (r: String)
        requires
            self.state.current is Some,
        ensures
            (self.state.current matches Option::Some(c) && r == c),
    {
        match &self.state.current {
            Some(cur) => cur.clone(),
            None => vstd::pervasive::unreached(),
        }
    }

    /// Connect, first phase: the active profile was toggled down. On
    /// success the old tunnel is gone and no profile is active; on
    /// failure the whole operation aborts with the state unchanged.
    pub fn connect_teardown(&mut self, outcome: ToggleOutcome) -> (r: Result<(), AppError>)
        requires
            old(self).wf(),
            old(self).state.current is Some,
        ensures
            final(self).wf(),
            connect_teardown_post(*old(self), outcome, *final(self), r),
    {
        let name = self.active_name();
        self.log_toggle_value(name);
        match outcome {
            ToggleOutcome::Completed => {
                self.state.conn_st = ConnSt::Disconnected;
                self.state.current = None;
                Ok(())
            },
            ToggleOutcome::Failed(d) => Err(AppError::ExecutionError { diagnostic: d }),
        }
    }

    /// Connect, second phase: the target profile was toggled up. On
    /// success the marker holds the trimmed target, the settle delay
    /// has passed, and the best-effort public-IP lookup result is
    /// adopted; on failure no profile is active (the previous tunnel
    /// was already torn down) and the marker is untouched.
    pub fn connect_bringup(
        &mut self,
        target: String,
        outcome: ToggleOutcome,
        ip: Option<String>,
    ) -> (r: Result<(), AppError>)
        requires
            old(self).wf(),
            old(self).state.current is None,
        ensures
            final(self).wf(),
            connect_bringup_post(*old(self), target@, outcome, ip, *final(self), r),
    {
        let marker_text = trim_text(target.as_str());
        self.log_toggle_value(target.clone());
        match outcome {
            ToggleOutcome::Completed => {
                self.marker = Some(marker_text);
                self.state.conn_st = ConnSt::Connected;
                self.state.current = Some(target);
                self.state.pub_ip = ip;
                Ok(())
            },
            ToggleOutcome::Failed(d) => Err(AppError::ExecutionError { diagnostic: d }),
        }
    }

    /// Disconnect when nothing is connected: success, nothing changes,
    /// no toggle runs.
    pub fn disconnect_idle(&mut self) -> (r: Result<(), AppError>)
        requires
            old(self).state.current is None,
        ensures
            *final(self) == *old(self),
            r is Ok,
    {
        Ok(())
    }

    /// Disconnect: the active profile was toggled down. On success the
    /// marker is removed, the settle delay has passed, and the lookup
    /// result is adopted; on failure the state is unchanged.
    pub fn disconnect_active(&mut self, outcome: ToggleOutcome, ip: Option<String>) -> (r:
        Result<(), AppError>)
        requires
            old(self).wf(),
            old(self).state.current is Some,
        ensures
            final(self).wf(),
            disconnect_post(*old(self), outcome, ip, *final(self), r),
    {
        let name = self.active_name();
        self.log_toggle_value(name);
        match outcome {
            ToggleOutcome::Completed => {
                self.marker = None;
                self.state.conn_st = ConnSt::Disconnected;
                self.state.current = None;
                self.state.pub_ip = ip;
                Ok(())
            },
            ToggleOutcome::Failed(d) => Err(AppError::ExecutionError { diagnostic: d }),
        }
    }

    /// Reconnect of the active profile after an update, first toggle
    /// (tear down). The active profile never changes; a failure aborts
    /// with everything but the log unchanged.
    pub fn reconnect_toggle(&mut self, outcome: ToggleOutcome) -> (r: Result<(), AppError>)
        requires
            old(self).wf(),
            old(self).state.current is Some,
        ensures
            final(self).wf(),
            reconnect_toggle_post(*old(self), outcome, *final(self), r),
    {
        let name = self.active_name();
        self.log_toggle_value(name);
        match outcome {
            ToggleOutcome::Completed => Ok(()),
            ToggleOutcome::Failed(d) => Err(AppError::ExecutionError { diagnostic: d }),
        }
    }

    /// Reconnect, second toggle (bring back up), then the settle delay
    /// and the best-effort lookup. The active profile never changes.
    pub fn reconnect_finish(&mut self, outcome: ToggleOutcome, ip: Option<String>) -> (r:
        Result<(), AppError>)
        requires
            old(self).wf(),
            old(self).state.current is Some,
        ensures
            final(self).wf(),
            reconnect_finish_post(*old(self), outcome, ip, *final(self), r),
    {
        let name = self.active_name();
        self.log_toggle_value(name);
        match outcome {
            ToggleOutcome::Completed => {
                self.state.pub_ip = ip;
                Ok(())
            },
            ToggleOutcome::Failed(d) => Err(AppError::ExecutionError { diagnostic: d }),
        }
    }

    /// Creates a profile file; connection state, marker and log are
    /// untouched.
    pub fn create_profile(&mut self, new_profile: ProfilePartial) -> (r: Result<(), AppError>)
        requires
            old(self).wf(),
        ensures
            final(self).wf(),
            final(self).state == old(self).state,
            final(self).marker == old(self).marker,
            final(self).toggles() == old(self).toggles(),
            create_post(
                old(self).store,
                new_profile.name@,
                new_profile.content@,
                final(self).store,
                r,
            ),
    {
        self.store.create(new_profile)
    }

    /// Writes new content for an existing profile and reports whether
    /// the caller must reconnect (the profile is the active one). The
    /// content is persisted before any reconnect toggle runs.
    pub fn update_content(&mut self, name: &str, content: String) -> (r: Result<
        bool,
        AppError,
    >)
        requires
            old(self).wf(),
        ensures
            final(self).wf(),
            final(self).state == old(self).state,
            final(self).marker == old(self).marker,
            final(self).toggles() == old(self).toggles(),
            (match r {
                Result::Ok(needs) => old(self).store.has(name@) && needs == (old(
                    self,
                ).state.current_name() == Option::Some(name@)) && set_content_post(
                    old(self).store,
                    name@,
                    content@,
                    final(self).store,
                    Result::<(), AppError>::Ok(()),
                ),
                Result::Err(e) => e == AppError::NotFound && !old(self).store.has(name@)
                    && *final(self) == *old(self),
            }),
    {
        let wrote = self.store.set_content(name, content);
        match wrote {
            Ok(()) => Ok(self.is_active(name)),
            Err(e) => Err(e),
        }
    }

    /// Removes a profile file; a missing file is not an error.
    /// Connection state, marker and log are untouched.
    pub fn remove_profile_file(&mut self, name: &str) -> (r: bool)
        requires
            old(self).wf(),
        ensures
            final(self).wf(),
            final(self).state == old(self).state,
            final(self).marker == old(self).marker,
            final(self).toggles() == old(self).toggles(),
            remove_post(old(self).store, name@, final(self).store),
            r == old(self).store.has(name@),
    {
        self.store.remove_name(name)
    }
}

/// A copy of an optional string.
fn clone_opt_string(o: &Option<String>) -> (r: Option<String>)
    ensures
        r == *o,
{
    match o {
        Some(s) => Some(s.clone()),
        None => None,
    }
}

/// Exactly what the connect teardown phase does.
pub open spec fn connect_teardown_post(
    pre: Controller,
    outcome: ToggleOutcome,
    post: Controller,
    r: Result<(), AppError>,
) -> bool {
    &&& post.store == pre.store
    &&& post.marker == pre.marker
    &&& (pre.state.current matches Option::Some(cur) && post.toggles() == pre.toggles().push(
        cur@,
    ))
    &&& (match outcome {
        ToggleOutcome::Completed => {
            &&& r is Ok
            &&& post.state.conn_st == ConnSt::Disconnected
            &&& post.state.current is None
            &&& post.state.pub_ip == pre.state.pub_ip
        },
        ToggleOutcome::Failed(d) => {
            &&& (r matches Result::Err(AppError::ExecutionError { diagnostic }) && diagnostic
                == d)
            &&& post.state == pre.state
        },
    })
}

/// Exactly what the connect bring-up phase does.
pub open spec fn connect_bringup_post(
    pre: Controller,
    target: Seq<char>,
    outcome: ToggleOutcome,
    ip: Option<String>,
    post: Controller,
    r: Result<(), AppError>,
) -> bool {
    &&& post.store == pre.store
    &&& post.toggles() == pre.toggles().push(target)
    &&& (match outcome {
        ToggleOutcome::Completed => {
            &&& r is Ok
            &&& post.state.conn_st == ConnSt::Connected
            &&& (post.state.current matches Option::Some(c) && c@ == target)
            &&& post.state.pub_ip == ip
            &&& (post.marker matches Option::Some(m) && m@ == trimmed(target))
        },
        ToggleOutcome::Failed(d) => {
            &&& (r matches Result::Err(AppError::ExecutionError { diagnostic }) && diagnostic
                == d)
            &&& post.state == pre.state
            &&& post.marker == pre.marker
        },
    })
}

/// Exactly what disconnect does when a profile is active.
pub open spec fn disconnect_post(
    pre: Controller,
    outcome: ToggleOutcome,
    ip: Option<String>,
    post: Controller,
    r: Result<(), AppError>,
) -> bool {
    &&& post.store == pre.store
    &&& (pre.state.current matches Option::Some(cur) && post.toggles() == pre.toggles().push(
        cur@,
    ))
    &&& (match outcome {
        ToggleOutcome::Completed => {
            &&& r is Ok
            &&& post.state.conn_st == ConnSt::Disconnected
            &&& post.state.current is None
            &&& post.state.pub_ip == ip
            &&& post.marker is None
        },
        ToggleOutcome::Failed(d) => {
            &&& (r matches Result::Err(AppError::ExecutionError { diagnostic }) && diagnostic
                == d)
            &&& post.state == pre.state
            &&& post.marker == pre.marker
        },
    })
}

/// Exactly what the first reconnect toggle does.
pub open spec fn reconnect_toggle_post(
    pre: Controller,
    outcome: ToggleOutcome,
    post: Controller,
    r: Result<(), AppError>,
) -> bool {
    &&& post.store == pre.store
    &&& post.marker == pre.marker
    &&& post.state == pre.state
    &&& (pre.state.current matches Option::Some(cur) && post.toggles() == pre.toggles().push(
        cur@,
    ))
    &&& (match outcome {
        ToggleOutcome::Completed => r is Ok,
        ToggleOutcome::Failed(d) => (r matches Result::Err(
            AppError::ExecutionError { diagnostic },
        ) && diagnostic == d),
    })
}

/// Exactly what the second reconnect toggle does.
pub open spec fn reconnect_finish_post(
    pre: Controller,
    outcome: ToggleOutcome,
    ip: Option<String>,
    post: Controller,
    r: Result<(), AppError>,
) -> bool {
    &&& post.store == pre.store
    &&& post.marker == pre.marker
    &&& post.state.conn_st == pre.state.conn_st
    &&& post.state.current == pre.state.current
    &&& (pre.state.current matches Option::Some(cur) && post.toggles() == pre.toggles().push(
        cur@,
    ))
    &&& (match outcome {
        ToggleOutcome::Completed => r is Ok && post.state.pub_ip == ip,
        ToggleOutcome::Failed(d) => (r matches Result::Err(
            AppError::ExecutionError { diagnostic },
        ) && diagnostic == d) && post.state == pre.state,
    })
}

} // verus!
