//! The task state machine: the closed set of updates a task can receive,
//! and the transition that applies one.
//!
//! The transition enforces the two lifecycle guarantees every component
//! relies on: progress is clamped into `0..=10000` and never decreases, and
//! a task that has reached a terminal status never changes again, however
//! late an update arrives.

use vstd::prelude::*;
use crate::progress::ProgressInfo;
use crate::types::TaskProgress;
use crate::types::TaskStatus;

verus! {

/// Every mutation a task can undergo after creation.
#[derive(Debug, Clone)]
pub enum TaskUpdate {
    /// The task's work is starting: flip it to the given active status.
    /// Carrying anything but an active status changes nothing.
    Activated(TaskStatus),
    /// A progress report from the running tool.
    Progress(ProgressInfo),
    /// The tool announced where the final artifact will be written.
    Destination(String),
    /// The work finished, perhaps with a resolved output path.
    Completed(Option<String>),
    /// The work failed for the given reason.
    Failed(String),
    /// The work was cancelled for the given reason.
    Cancelled(String),
    /// The caller asked to pause; the flag flips, the work continues.
    Paused,
}

/// The task that results from applying `u` to `t`: a terminal task is
/// unchanged; otherwise progress reports raise (never lower) the clamped
/// progress, a destination rewrites name and output path, and completion,
/// failure, cancellation and pausing set the corresponding status.
pub open spec fn spec_apply(t: TaskProgress, u: TaskUpdate) -> TaskProgress {
    if t.is_terminal() {
        t
    } else {
        match u {
            TaskUpdate::Activated(st) => {
                if st.is_active() {
                    TaskProgress { status: st, ..t }
                } else {
                    t
                }
            },
            TaskUpdate::Progress(p) => {
                let clamped: u32 = if p.percentage > 10000 {
                    10000
                } else {
                    p.percentage
                };
                let raised: u32 = if clamped > t.progress {
                    clamped
                } else {
                    t.progress
                };
                TaskProgress { progress: raised, speed: p.speed, eta: p.eta, ..t }
            },
            TaskUpdate::Destination(path) => TaskProgress {
                name: path,
                file_path: Some(path),
                ..t
            },
            TaskUpdate::Completed(path) => TaskProgress {
                status: TaskStatus::Completed,
                progress: 10000,
                file_path: (match path {
                    Some(p) => Some(p),
                    None => t.file_path,
                }),
                ..t
            },
            TaskUpdate::Failed(msg) => TaskProgress {
                status: TaskStatus::Failed,
                error: Some(msg),
                ..t
            },
            TaskUpdate::Cancelled(reason) => TaskProgress {
                status: TaskStatus::Cancelled,
                error: Some(reason),
                ..t
            },
            TaskUpdate::Paused => TaskProgress { status: TaskStatus::Paused, ..t },
        }
    }
}

/// Applies one update to a task, exactly as `spec_apply` describes.
pub fn apply_update(t: &mut TaskProgress, u: TaskUpdate)
    ensures
        *final(t) == spec_apply(*old(t), u),
{
    if t.status.terminal() {
        return ;
    }
    match u {
        TaskUpdate::Activated(st) => {
            match st {
                TaskStatus::Downloading | TaskStatus::Processing => {
                    t.status = st;
                },
                _ => {},
            }
        },
        TaskUpdate::Progress(p) => {
            let clamped: u32 = if p.percentage > 10000 {
                10000
            } else {
                p.percentage
            };
            if clamped > t.progress {
                t.progress = clamped;
            }
            t.speed = p.speed;
            t.eta = p.eta;
        },
        TaskUpdate::Destination(path) => {
            t.file_path = Some(path.clone());
            t.name = path;
        },
        TaskUpdate::Completed(path) => {
            t.status = TaskStatus::Completed;
            t.progress = 10000;
            match path {
                Some(p) => {
                    t.file_path = Some(p);
                },
                None => {},
            }
        },
        TaskUpdate::Failed(msg) => {
            t.status = TaskStatus::Failed;
            t.error = Some(msg);
        },
        TaskUpdate::Cancelled(reason) => {
            t.status = TaskStatus::Cancelled;
            t.error = Some(reason);
        },
        TaskUpdate::Paused => {
            t.status = TaskStatus::Paused;
        },
    }
}

/// Progress stays within `0..=10000` and is monotonically non-decreasing:
/// whatever update arrives, a well-formed task stays well-formed and its
/// progress never goes down.
pub proof fn lemma_progress_monotone(t: TaskProgress, u: TaskUpdate)
    requires
        t.wf(),
    ensures
        spec_apply(t, u).wf(),
        spec_apply(t, u).progress >= t.progress,
{
}

/// A terminal task is frozen: once `status` is `Completed`, `Failed` or
/// `Cancelled`, no update changes the task in any way — not its status, its
/// progress, its error, nor any other field — even if the update arrives
/// late.
pub proof fn lemma_terminal_frozen(t: TaskProgress, u: TaskUpdate)
    requires
        t.is_terminal(),
    ensures
        spec_apply(t, u) == t,
{
}

} // verus!
