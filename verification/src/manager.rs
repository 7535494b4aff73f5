//! The job orchestrators: one manager per job family (downloads and
//! conversions).  A manager owns the task registry and the supervision
//! record set.
//!
//! Submitting work validates the destination once for the whole batch and
//! every item on its own, all before any task is created; each accepted
//! item then gets its task, is flipped to its active status and gains a
//! supervision record before the identifier is handed back: a caller never
//! observes a task that exists but has no record.  The
//! caller then runs the actual work (process, racing, sleeping) and reports
//! how it ended; `finish_task` reconciles that outcome into the registry
//! and drops the record, idempotently.

use vstd::prelude::*;
use crate::errors::MediaForgeError;
use crate::registry::TaskRegistry;
use crate::registry::distinct_ids;
use crate::task::TaskUpdate;
use crate::task::spec_apply;
use crate::text::chars_of;
use crate::text::contains_lit_ci;
use crate::text::contains_seq_ci;
use crate::types::DownloadRequest;
use crate::types::TaskProgress;
use crate::types::TaskStatus;
use crate::types::ConversionType;
use crate::types::ConvertRequest;
use crate::validate::FileStatus;
use crate::validate::image_err_is;
use crate::validate::input_err_is;
use crate::validate::sanitize_err_is;
use crate::validate::sanitize_path;
use crate::validate::spec_file_name;
use crate::validate::spec_image_ok;
use crate::validate::spec_input_ok;
use crate::validate::spec_sanitize_ok;
use crate::validate::spec_url_ok;
use crate::validate::file_name_range;
use crate::validate::url_err_is;
use crate::validate::validate_image_format;
use crate::validate::validate_input_file;
use crate::validate::validate_youtube_url;

verus! {

/// The set of task identifiers that currently have a live supervision
/// record.
pub struct SupervisionSet {
    ids: Vec<u64>,
}

impl SupervisionSet {
    /// The identifiers, without duplicates.
    pub closed spec fn spec_ids(self) -> Seq<u64> {
        self.ids@
    }

    /// Whether `id` has a record.
    pub open spec fn contains(self, id: u64) -> bool {
        self.spec_ids().contains(id)
    }

    /// No identifier is recorded twice.
    pub closed spec fn wf(self) -> bool {
        forall|i: int, j: int|
            0 <= i < j < self.ids@.len() ==> self.ids@[i] != self.ids@[j]
    }

    /// An empty record set.
    pub fn new() -> (r: Self)
        ensures
            r.wf(),
            r.spec_ids().len() == 0,
            forall|x: u64| !r.contains(x),
    {
        SupervisionSet { ids: Vec::new() }
    }

    /// The position of `id` in the record list.
    fn find(&self, id: u64) -> (r: Option<usize>)
        ensures
            match r {
                Some(i) => i < self.ids@.len() && self.ids@[i as int] == id,
                None => !self.contains(id),
            },
    {
        let n = self.ids.len();
        let mut i: usize = 0;
        while i < n
            invariant
                i <= n == self.ids@.len(),
                forall|k: int| 0 <= k < i ==> self.ids@[k] != id,
            decreases n - i,
        {
            if self.ids[i] == id {
                return Some(i);
            }
            i += 1;
        }
        None
    }

    /// Whether `id` has a record.
    pub fn contains_exec(&self, id: u64) -> (r: bool)
        ensures
            r == self.contains(id),
    {
        match self.find(id) {
            Some(i) => {
                proof {
                    assert(self.spec_ids()[i as int] == id);
                }
                true
            },
            None => false,
        }
    }

    /// How many records exist.
    pub fn count(&self) -> (r: usize)
        ensures
            r == self.spec_ids().len(),
    {
        self.ids.len()
    }

    /// Records `id`; recording it twice changes nothing.
    pub fn insert(&mut self, id: u64)
        requires
            old(self).wf(),
        ensures
            final(self).wf(),
            final(self).contains(id),
            forall|x: u64| x != id ==> final(self).contains(x) == old(self).contains(x),
            final(self).spec_ids().len() == old(self).spec_ids().len() + (if old(self).contains(
                id,
            ) {
                0int
            } else {
                1int
            }),
    {
        match self.find(id) {
            Some(i) => {
                proof {
                    assert(self.spec_ids()[i as int] == id);
                }
            },
            None => {
                let ghost pre = self.ids@;
                self.ids.push(id);
                proof {
                    assert(self.ids@[pre.len() as int] == id);
                    assert forall|x: u64| x != id implies final(self).contains(x) == old(
                        self,
                    ).contains(x) by {
                        if pre.contains(x) {
                            let k = choose|k: int| 0 <= k < pre.len() && pre[k] == x;
                            assert(self.ids@[k] == x);
                        }
                        if self.ids@.contains(x) {
                            let k = choose|k: int| 0 <= k < self.ids@.len() && self.ids@[k] == x;
                            assert(k < pre.len());
                            assert(pre[k] == x);
                        }
                    }
                }
            },
        }
    }

    /// Drops the record for `id`; dropping a record that is not there is a
    /// harmless no-op.
    pub fn remove(&mut self, id: u64)
        requires
            old(self).wf(),
        ensures
            final(self).wf(),
            !final(self).contains(id),
            forall|x: u64| x != id ==> final(self).contains(x) == old(self).contains(x),
            final(self).spec_ids().len() == old(self).spec_ids().len() - (if old(self).contains(
                id,
            ) {
                1int
            } else {
                0int
            }),
    {
        match self.find(id) {
            Some(i) => {
                let ghost pre = self.ids@;
                self.ids.remove(i);
                proof {
                    assert(self.ids@ =~= pre.remove(i as int));
                    pre.remove_ensures(i as int);
                    assert(pre[i as int] == id);
                    assert forall|k: int|
                        0 <= k < self.ids@.len() implies self.ids@[k] != id by {
                        if k < i {
                            assert(self.ids@[k] == pre[k]);
                        } else {
                            assert(self.ids@[k] == pre[k + 1]);
                        }
                    }
                    assert(!final(self).contains(id));
                    assert forall|x: u64| x != id implies final(self).contains(x) == old(
                        self,
                    ).contains(x) by {
                        if pre.contains(x) {
                            let k = choose|k: int| 0 <= k < pre.len() && pre[k] == x;
                            if k < i {
                                assert(self.ids@[k] == x);
                            } else {
                                assert(k > i);
                                assert(self.ids@[k - 1] == x);
                            }
                        }
                        if self.ids@.contains(x) {
                            let k = choose|k: int| 0 <= k < self.ids@.len() && self.ids@[k] == x;
                            if k < i {
                                assert(pre[k] == x);
                            } else {
                                assert(pre[k + 1] == x);
                            }
                        }
                    }
                }
            },
            None => {},
        }
    }
}

/// How a supervised execution ended: the work succeeded (perhaps resolving
/// an output path), the work failed, cancellation was observed, or the
/// timeout ceiling fired.
#[derive(Debug)]
pub enum SupervisionOutcome {
    Completed(Option<String>),
    Failed(MediaForgeError),
    Cancelled,
    TimedOut,
}

/// `t1` is `t0` marked `Failed` for the reason `msg` — or `t0` untouched,
/// when `t0` was already terminal.
pub open spec fn is_failed_version(t1: TaskProgress, t0: TaskProgress, msg: Seq<char>) -> bool {
    if t0.is_terminal() {
        t1 == t0
    } else {
        &&& t1.status == TaskStatus::Failed
        &&& t1.error matches Some(s) && s@ == msg
        &&& t1.task_id == t0.task_id
        &&& t1.name == t0.name
        &&& t1.progress == t0.progress
        &&& t1.speed == t0.speed
        &&& t1.eta == t0.eta
        &&& t1.file_path == t0.file_path
    }
}

/// `t1` is `t0` marked `Cancelled` for the reason `msg` — or `t0`
/// untouched, when `t0` was already terminal.
pub open spec fn is_cancelled_version(t1: TaskProgress, t0: TaskProgress, msg: Seq<char>) -> bool {
    if t0.is_terminal() {
        t1 == t0
    } else {
        &&& t1.status == TaskStatus::Cancelled
        &&& t1.error matches Some(s) && s@ == msg
        &&& t1.task_id == t0.task_id
        &&& t1.name == t0.name
        &&& t1.progress == t0.progress
        &&& t1.speed == t0.speed
        &&& t1.eta == t0.eta
        &&& t1.file_path == t0.file_path
    }
}

/// The label a download task is created under.
pub open spec fn download_task_name(url: Seq<char>) -> Seq<char> {
    "Downloading from "@ + url
}

/// A download task as it stands right after submission: active, no
/// progress yet, carrying its source's label.
pub open spec fn is_fresh_download_task(t: TaskProgress, id: u64, url: Seq<char>) -> bool {
    &&& t.task_id == id
    &&& t.name@ == download_task_name(url)
    &&& t.status == TaskStatus::Downloading
    &&& t.progress == 0
    &&& t.speed is None
    &&& t.eta is None
    &&& t.error is None
    &&& t.file_path is None
}

/// Network or connectivity trouble in a download-tool failure: retryable.
pub open spec fn ytdlp_network_indicated(m: Seq<char>, exit_code: Option<i32>) -> bool {
    ||| contains_seq_ci(m, "network"@)
    ||| contains_seq_ci(m, "connection"@)
    ||| contains_seq_ci(m, "timeout"@)
    ||| contains_seq_ci(m, "temporary failure"@)
    ||| contains_seq_ci(m, "503"@)
    ||| contains_seq_ci(m, "502"@)
    ||| contains_seq_ci(m, "504"@)
    ||| contains_seq_ci(m, "429"@)
    ||| exit_code == Some(1i32)
}

/// Content that cannot be fetched at all — private, unavailable or
/// geo-blocked: not retryable.
pub open spec fn ytdlp_unavailable_indicated(m: Seq<char>, exit_code: Option<i32>) -> bool {
    ||| contains_seq_ci(m, "private video"@)
    ||| contains_seq_ci(m, "not available"@)
    ||| contains_seq_ci(m, "geo-blocked"@)
    ||| exit_code == Some(2i32)
}

/// The disk is full: not retryable without user action.
pub open spec fn ytdlp_disk_indicated(m: Seq<char>) -> bool {
    contains_seq_ci(m, "no space left"@) || contains_seq_ci(m, "disk full"@)
}

/// The download orchestrator: the task registry and supervision records of
/// the download job family.
pub struct DownloadManager {
    registry: TaskRegistry,
    supervision: SupervisionSet,
}

impl View for DownloadManager {
    type V = Map<u64, TaskProgress>;

    /// The manager's tasks, by identifier.
    closed spec fn view(&self) -> Map<u64, TaskProgress> {
        self.registry@
    }
}

impl DownloadManager {
    /// The registry and the record set are internally consistent.
    pub closed spec fn wf(self) -> bool {
        self.registry.wf() && self.supervision.wf()
    }

    /// Whether `id` has a live supervision record.
    pub closed spec fn supervised(self, id: u64) -> bool {
        self.supervision.contains(id)
    }

    /// How many supervision records are live.
    pub closed spec fn supervised_count(self) -> int {
        self.supervision.spec_ids().len() as int
    }

    /// How many identifiers have ever been handed out.
    pub closed spec fn ids_used(self) -> int {
        self.registry.ids_used()
    }

    /// The stored tasks, in creation order.
    pub closed spec fn task_seq(self) -> Seq<TaskProgress> {
        self.registry.task_seq()
    }

    /// An empty manager.
    pub fn new() -> (r: Self)
        ensures
            r.wf(),
            r@ == Map::<u64, TaskProgress>::empty(),
            r.ids_used() == 0,
            r.supervised_count() == 0,
            forall|x: u64| !r.supervised(x),
    {
        DownloadManager { registry: TaskRegistry::new(), supervision: SupervisionSet::new() }
    }

    /// Creates a task under a fresh identifier; see the registry.
    pub fn create_task(&mut self, name: String) -> (id: u64)
        requires
            old(self).wf(),
            old(self).ids_used() < u64::MAX,
        ensures
            final(self).wf(),
            final(self).ids_used() == old(self).ids_used() + 1,
            !old(self)@.contains_key(id),
            final(self)@ == old(self)@.insert(
                id,
                (TaskProgress {
                    task_id: id,
                    name: name,
                    status: TaskStatus::Queued,
                    progress: 0,
                    speed: None,
                    eta: None,
                    error: None,
                    file_path: None,
                }),
            ),
            final(self).task_seq().len() == old(self).task_seq().len() + 1,
            forall|x: u64| final(self).supervised(x) == old(self).supervised(x),
            final(self).supervised_count() == old(self).supervised_count(),
    {
        self.registry.create_task(name)
    }

    /// The task stored under `id`, if any.
    pub fn get_task(&self, id: u64) -> (r: Option<TaskProgress>)
        requires
            self.wf(),
        ensures
            r == (if self@.contains_key(id) {
                Some(self@[id])
            } else {
                None::<TaskProgress>
            }),
    {
        self.registry.get_task(id)
    }

    /// All stored tasks, in creation order.
    pub fn get_all_tasks(&self) -> (r: Vec<TaskProgress>)
        ensures
            r@ == self.task_seq(),
    {
        self.registry.get_all_tasks()
    }

    /// Applies `u` to the task stored under `id`; a no-op when the task was
    /// removed concurrently.
    pub fn update_task(&mut self, id: u64, u: TaskUpdate)
        requires
            old(self).wf(),
        ensures
            final(self).wf(),
            final(self).ids_used() == old(self).ids_used(),
            final(self)@ == (if old(self)@.contains_key(id) {
                old(self)@.insert(id, spec_apply(old(self)@[id], u))
            } else {
                old(self)@
            }),
            final(self).task_seq().len() == old(self).task_seq().len(),
            forall|x: u64| final(self).supervised(x) == old(self).supervised(x),
            final(self).supervised_count() == old(self).supervised_count(),
    {
        self.registry.update_task(id, u)
    }

    /// Deregisters the task stored under `id` from the registry.  The
    /// supervision record, if one is live, is untouched: removing a
    /// still-running task is tolerated.
    pub fn remove_task(&mut self, id: u64)
        requires
            old(self).wf(),
        ensures
            final(self).wf(),
            final(self).ids_used() == old(self).ids_used(),
            final(self)@ == old(self)@.remove(id),
            forall|x: u64| final(self).supervised(x) == old(self).supervised(x),
            final(self).supervised_count() == old(self).supervised_count(),
    {
        self.registry.remove_task(id)
    }

    /// Records a supervision record for `id`.
    pub fn register_supervision(&mut self, id: u64)
        requires
            old(self).wf(),
        ensures
            final(self).wf(),
            final(self)@ == old(self)@,
            final(self).ids_used() == old(self).ids_used(),
            final(self).supervised(id),
            forall|x: u64| x != id ==> final(self).supervised(x) == old(self).supervised(x),
            final(self).supervised_count() == old(self).supervised_count() + (if old(
                self,
            ).supervised(id) {
                0int
            } else {
                1int
            }),
    {
        self.supervision.insert(id)
    }

    /// Drops the supervision record for `id`; idempotent.
    pub fn unregister_supervision(&mut self, id: u64)
        requires
            old(self).wf(),
        ensures
            final(self).wf(),
            final(self)@ == old(self)@,
            final(self).ids_used() == old(self).ids_used(),
            !final(self).supervised(id),
            forall|x: u64| x != id ==> final(self).supervised(x) == old(self).supervised(x),
            final(self).supervised_count() == old(self).supervised_count() - (if old(
                self,
            ).supervised(id) {
                1int
            } else {
                0int
            }),
    {
        self.supervision.remove(id)
    }

    /// Whether `id` has a live supervision record.
    pub fn is_supervised(&self, id: u64) -> (r: bool)
        ensures
            r == self.supervised(id),
    {
        self.supervision.contains_exec(id)
    }

    /// How many supervision records are live.
    pub fn supervision_count(&self) -> (r: usize)
        ensures
            r == self.supervised_count(),
    {
        self.supervision.count()
    }

    /// How many identifiers have ever been handed out.
    pub fn ids_handed_out(&self) -> (r: u64)
        ensures
            r == self.ids_used(),
    {
        self.registry.ids_handed_out()
    }

    /// What `get_all_tasks` lists is exactly the manager's map: one task
    /// per stored identifier — none missing, none repeated — each equal to
    /// the map's entry under its own identifier, which the task also
    /// carries in its `task_id` field.
    pub proof fn lemma_list_matches_view(self)
        requires
            self.wf(),
        ensures
            distinct_ids(self.task_seq()),
            self.task_seq().len() == self@.dom().len(),
            forall|i: int|
                0 <= i < self.task_seq().len() ==> ({
                    let t = #[trigger] self.task_seq()[i];
                    self@.contains_key(t.task_id) && self@[t.task_id] == t
                }),
            forall|id: u64|
                #[trigger] self@.contains_key(id) ==> self@[id].task_id == id && (exists|i: int|
                    0 <= i < self.task_seq().len() && self.task_seq()[i] == self@[id]),
    {
        self.registry.lemma_list_matches_view();
    }

    /// Classifies a download-tool failure by its message text and exit
    /// code.  First match wins: network trouble (retryable), a full disk,
    /// unavailable content (a terminal tool failure), and otherwise a
    /// retryable temporary failure, so unknown transient failures still get
    /// a bounded number of retries.
    pub fn classify_ytdlp_error(message: &str, exit_code: Option<i32>) -> (r: MediaForgeError)
        ensures
            ({
                let m = message@;
                let net = ytdlp_network_indicated(m, exit_code);
                let disk = ytdlp_disk_indicated(m);
                let unav = ytdlp_unavailable_indicated(m, exit_code);
                &&& (net ==> (r matches MediaForgeError::NetworkError(s) && s@ == m))
                &&& (!net && disk ==> (r matches MediaForgeError::DiskSpaceError(s) && s@ == m))
                &&& (!net && !disk && unav ==> (r matches MediaForgeError::YtDlpError(s) && s@
                    == m))
                &&& (!net && !disk && !unav ==> (r matches MediaForgeError::TemporaryError(s)
                    && s@ == m))
            }),
    {
        let c = chars_of(message);
        let code1 = match exit_code {
            Some(v) => v == 1,
            None => false,
        };
        let code2 = match exit_code {
            Some(v) => v == 2,
            None => false,
        };
        if contains_lit_ci(&c, "network") || contains_lit_ci(&c, "connection") || contains_lit_ci(
            &c,
            "timeout",
        ) || contains_lit_ci(&c, "temporary failure") || contains_lit_ci(&c, "503")
            || contains_lit_ci(&c, "502") || contains_lit_ci(&c, "504") || contains_lit_ci(
            &c,
            "429",
        ) || code1 {
            MediaForgeError::NetworkError(message.to_owned())
        } else if contains_lit_ci(&c, "no space left") || contains_lit_ci(&c, "disk full") {
            MediaForgeError::DiskSpaceError(message.to_owned())
        } else if contains_lit_ci(&c, "private video") || contains_lit_ci(&c, "not available")
            || contains_lit_ci(&c, "geo-blocked") || code2 {
            MediaForgeError::YtDlpError(message.to_owned())
        } else {
            MediaForgeError::TemporaryError(message.to_owned())
        }
    }

    /// Acknowledges a pause request: the task's status flag flips to
    /// `Paused` (unless the task is already terminal); the underlying work
    /// continues.
    pub fn pause_task(&mut self, id: u64) -> (r: Result<(), MediaForgeError>)
        requires
            old(self).wf(),
        ensures
            final(self).wf(),
            r is Ok,
            final(self)@ == (if old(self)@.contains_key(id) {
                old(self)@.insert(id, spec_apply(old(self)@[id], TaskUpdate::Paused))
            } else {
                old(self)@
            }),
            final(self).ids_used() == old(self).ids_used(),
            forall|x: u64| final(self).supervised(x) == old(self).supervised(x),
            final(self).supervised_count() == old(self).supervised_count(),
    {
        self.update_task(id, TaskUpdate::Paused);
        Ok(())
    }

    /// Cancels a task: marks it `Cancelled` with a reason and drops its
    /// supervision record.  Returns whether a record was live — when it
    /// was, the caller must signal the cancellation token and await the
    /// supervised execution before considering the cancel complete.
    /// Cancelling a task whose record is already gone only writes the
    /// registry and succeeds.
    pub fn cancel_task(&mut self, id: u64) -> (was_running: bool)
        requires
            old(self).wf(),
        ensures
            final(self).wf(),
            was_running == old(self).supervised(id),
            !final(self).supervised(id),
            forall|x: u64| x != id ==> final(self).supervised(x) == old(self).supervised(x),
            final(self).ids_used() == old(self).ids_used(),
            forall|x: u64| #[trigger] final(self)@.contains_key(x) == old(self)@.contains_key(x),
            forall|x: u64|
                x != id && old(self)@.contains_key(x) ==> final(self)@[x] == old(self)@[x],
            old(self)@.contains_key(id) ==> is_cancelled_version(
                final(self)@[id],
                old(self)@[id],
                "Task cancelled by user"@,
            ),
            !old(self)@.contains_key(id) ==> final(self)@ == old(self)@,
    {
        let was_running = self.supervision.contains_exec(id);
        self.update_task(id, TaskUpdate::Cancelled(String::from_str("Task cancelled by user")));
        self.supervision.remove(id);
        was_running
    }

    /// Reconciles how a supervised execution ended into the registry and
    /// drops the supervision record.  Exactly one outcome arrives per
    /// execution; dropping the record is idempotent against a racing
    /// cancel.
    pub fn finish_task(&mut self, id: u64, outcome: SupervisionOutcome)
        requires
            old(self).wf(),
        ensures
            final(self).wf(),
            !final(self).supervised(id),
            forall|x: u64| x != id ==> final(self).supervised(x) == old(self).supervised(x),
            final(self).ids_used() == old(self).ids_used(),
            forall|x: u64| #[trigger] final(self)@.contains_key(x) == old(self)@.contains_key(x),
            forall|x: u64|
                x != id && old(self)@.contains_key(x) ==> final(self)@[x] == old(self)@[x],
            !old(self)@.contains_key(id) ==> final(self)@ == old(self)@,
            old(self)@.contains_key(id) ==> (match outcome {
                SupervisionOutcome::Completed(path) => final(self)@[id] == spec_apply(
                    old(self)@[id],
                    TaskUpdate::Completed(path),
                ),
                SupervisionOutcome::Failed(e) => is_failed_version(
                    final(self)@[id],
                    old(self)@[id],
                    e.spec_message_prefix() + e.spec_detail(),
                ),
                SupervisionOutcome::Cancelled => is_cancelled_version(
                    final(self)@[id],
                    old(self)@[id],
                    "Task was cancelled by user"@,
                ),
                SupervisionOutcome::TimedOut => is_failed_version(
                    final(self)@[id],
                    old(self)@[id],
                    "Download timed out after 1 hour"@,
                ),
            }),
    {
        match outcome {
            SupervisionOutcome::Completed(path) => {
                self.update_task(id, TaskUpdate::Completed(path));
            },
            SupervisionOutcome::Failed(e) => {
                let m = e.message();
                self.update_task(id, TaskUpdate::Failed(m));
            },
            SupervisionOutcome::Cancelled => {
                self.update_task(
                    id,
                    TaskUpdate::Cancelled(String::from_str("Task was cancelled by user")),
                );
            },
            SupervisionOutcome::TimedOut => {
                self.update_task(
                    id,
                    TaskUpdate::Failed(String::from_str("Download timed out after 1 hour")),
                );
            },
        }
        self.supervision.remove(id);
    }

    /// Submits a batch of downloads.  The destination is validated once for
    /// the whole batch and every URL is validated eagerly, before any task
    /// is created: a rejected submission leaves the manager exactly as it
    /// was.  Every accepted item gets a task that is already `Downloading`
    /// and already supervised by the time its identifier is returned.
    pub fn start_download(&mut self, request: &DownloadRequest, home: &str, cwd: &str) -> (r:
        Result<Vec<u64>, MediaForgeError>)
        requires
            old(self).wf(),
            old(self).ids_used() + request.urls@.len() <= u64::MAX,
        ensures
            final(self).wf(),
            r is Ok <==> (spec_sanitize_ok(request.download_path@, home@, cwd@) && (forall|k: int|
                0 <= k < request.urls@.len() ==> spec_url_ok((#[trigger] request.urls@[k])@))),
            r is Err ==> ({
                &&& final(self)@ == old(self)@
                &&& final(self).task_seq() == old(self).task_seq()
                &&& final(self).ids_used() == old(self).ids_used()
                &&& (forall|x: u64| final(self).supervised(x) == old(self).supervised(x))
                &&& final(self).supervised_count() == old(self).supervised_count()
            }),
            forall|x: u64|
                #[trigger] old(self)@.contains_key(x) ==> final(self)@.contains_key(x)
                    && final(self)@[x] == old(self)@[x],
            forall|x: u64| #[trigger] old(self).supervised(x) ==> final(self).supervised(x),
            !spec_sanitize_ok(request.download_path@, home@, cwd@) ==> (r matches Err(e)
                && sanitize_err_is(e, request.download_path@, home@, cwd@)),
            r matches Ok(ids) ==> ({
                let urls = request.urls@;
                &&& ids@.len() == urls.len()
                &&& final(self).ids_used() == old(self).ids_used() + urls.len()
                &&& (forall|i: int, j: int| 0 <= i < j < urls.len() ==> ids@[i] != ids@[j])
                &&& (forall|k: int|
                    0 <= k < urls.len() ==> ({
                        &&& !old(self)@.contains_key(#[trigger] ids@[k])
                        &&& final(self)@.contains_key(ids@[k])
                        &&& is_fresh_download_task(final(self)@[ids@[k]], ids@[k], urls[k]@)
                        &&& final(self).supervised(ids@[k])
                    }))
            }),
            (spec_sanitize_ok(request.download_path@, home@, cwd@) && !(forall|k: int|
                0 <= k < request.urls@.len() ==> spec_url_ok((#[trigger] request.urls@[k])@)))
                ==> (r matches Err(e) && (exists|k: int|
                {
                    &&& 0 <= k < request.urls@.len()
                    &&& !spec_url_ok((#[trigger] request.urls@[k])@)
                    &&& (forall|j: int| 0 <= j < k ==> spec_url_ok((#[trigger] request.urls@[j])@))
                    &&& url_err_is(e, request.urls@[k]@)
                })),
    {
        match sanitize_path(request.download_path.as_str(), home, cwd) {
            Err(e) => {
                return Err(e);
            },
            Ok(_) => {},
        }
        let n = request.urls.len();
        // Validate the whole batch before creating anything.
        let mut k: usize = 0;
        while k < n
            invariant
                *self == *old(self),
                self.wf(),
                spec_sanitize_ok(request.download_path@, home@, cwd@),
                n == request.urls@.len(),
                k <= n,
                forall|j: int| 0 <= j < k ==> spec_url_ok((#[trigger] request.urls@[j])@),
            decreases n - k,
        {
            match validate_youtube_url(request.urls[k].as_str()) {
                Err(e) => {
                    proof {
                        assert(!spec_url_ok(request.urls@[k as int]@));
                    }
                    return Err(e);
                },
                Ok(()) => {},
            }
            k += 1;
        }
        let mut ids: Vec<u64> = Vec::new();
        let mut k: usize = 0;
        while k < n
            invariant
                self.wf(),
                n == request.urls@.len(),
                old(self).ids_used() + n <= u64::MAX,
                k <= n,
                ids@.len() == k,
                self.ids_used() == old(self).ids_used() + k,
                forall|x: u64|
                    #[trigger] old(self)@.contains_key(x) ==> self@.contains_key(x) && self@[x]
                        == old(self)@[x],
                forall|x: u64| #[trigger] old(self).supervised(x) ==> self.supervised(x),
                forall|i: int, j: int| 0 <= i < j < k ==> ids@[i] != ids@[j],
                forall|kk: int|
                    0 <= kk < k ==> ({
                        &&& !old(self)@.contains_key(#[trigger] ids@[kk])
                        &&& self@.contains_key(ids@[kk])
                        &&& is_fresh_download_task(self@[ids@[kk]], ids@[kk], request.urls@[kk]@)
                        &&& self.supervised(ids@[kk])
                    }),
            decreases n - k,
        {
            let url: &String = &request.urls[k];
            let name = String::from_str("Downloading from ").concat(url.as_str());
            let id = self.create_task(name);
            self.update_task(id, TaskUpdate::Activated(TaskStatus::Downloading));
            self.register_supervision(id);
            ids.push(id);
            k += 1;
        }
        Ok(ids)
    }
}

/// The label a conversion task is created under.
pub open spec fn convert_task_name(p: Seq<char>) -> Seq<char> {
    "Converting "@ + (match spec_file_name(p) {
        Some(nm) => nm,
        None => "Unknown"@,
    })
}

/// A conversion task as it stands right after submission: active, no
/// progress yet, carrying its input file's label.
pub open spec fn is_fresh_convert_task(t: TaskProgress, id: u64, p: Seq<char>) -> bool {
    &&& t.task_id == id
    &&& t.name@ == convert_task_name(p)
    &&& t.status == TaskStatus::Processing
    &&& t.progress == 0
    &&& t.speed is None
    &&& t.eta is None
    &&& t.error is None
    &&& t.file_path is None
}

/// Whether one conversion item passes validation: its input file, and for
/// image work also the formats.
pub open spec fn spec_convert_item_ok(
    p: Seq<char>,
    st: FileStatus,
    ct: ConversionType,
    of: Seq<char>,
) -> bool {
    &&& spec_input_ok(p, st)
    &&& (ct == ConversionType::Image ==> spec_image_ok(p, of))
}

/// The error a rejected conversion item surfaces.
pub open spec fn convert_err_is(
    e: MediaForgeError,
    p: Seq<char>,
    st: FileStatus,
    of: Seq<char>,
) -> bool {
    if !spec_input_ok(p, st) {
        input_err_is(e, p, st)
    } else {
        image_err_is(e, p, of)
    }
}

/// A transient condition named by a conversion-tool failure's text:
/// retryable.
pub open spec fn ffmpeg_temporary_indicated(m: Seq<char>) -> bool {
    ||| contains_seq_ci(m, "resource temporarily unavailable"@)
    ||| contains_seq_ci(m, "device busy"@)
    ||| contains_seq_ci(m, "interrupted system call"@)
}

/// The disk is full or cannot be written: not retryable.
pub open spec fn ffmpeg_disk_indicated(m: Seq<char>) -> bool {
    ||| contains_seq_ci(m, "no space left"@)
    ||| contains_seq_ci(m, "disk full"@)
    ||| contains_seq_ci(m, "write error"@)
}

/// Access was denied: not retryable.
pub open spec fn ffmpeg_permission_indicated(m: Seq<char>, exit_code: Option<i32>) -> bool {
    ||| contains_seq_ci(m, "permission denied"@)
    ||| contains_seq_ci(m, "access denied"@)
    ||| exit_code == Some(126i32)
}

/// The input cannot be decoded at all: not retryable.
pub open spec fn ffmpeg_format_indicated(m: Seq<char>, exit_code: Option<i32>) -> bool {
    ||| contains_seq_ci(m, "invalid data"@)
    ||| contains_seq_ci(m, "unsupported"@)
    ||| contains_seq_ci(m, "no decoder"@)
    ||| contains_seq_ci(m, "invalid file format"@)
    ||| exit_code == Some(255i32)
}

/// The conversion orchestrator: the task registry and supervision records
/// of the conversion job family.
pub struct ConversionManager {
    registry: TaskRegistry,
    supervision: SupervisionSet,
}

impl View for ConversionManager {
    type V = Map<u64, TaskProgress>;

    /// The manager's tasks, by identifier.
    closed spec fn view(&self) -> Map<u64, TaskProgress> {
        self.registry@
    }
}

impl ConversionManager {
    /// The registry and the record set are internally consistent.
    pub closed spec fn wf(self) -> bool {
        self.registry.wf() && self.supervision.wf()
    }

    /// Whether `id` has a live supervision record.
    pub closed spec fn supervised(self, id: u64) -> bool {
        self.supervision.contains(id)
    }

    /// How many supervision records are live.
    pub closed spec fn supervised_count(self) -> int {
        self.supervision.spec_ids().len() as int
    }

    /// How many identifiers have ever been handed out.
    pub closed spec fn ids_used(self) -> int {
        self.registry.ids_used()
    }

    /// The stored tasks, in creation order.
    pub closed spec fn task_seq(self) -> Seq<TaskProgress> {
        self.registry.task_seq()
    }

    /// An empty manager.
    pub fn new() -> (r: Self)
        ensures
            r.wf(),
            r@ == Map::<u64, TaskProgress>::empty(),
            r.ids_used() == 0,
            r.supervised_count() == 0,
            forall|x: u64| !r.supervised(x),
    {
        ConversionManager { registry: TaskRegistry::new(), supervision: SupervisionSet::new() }
    }

    /// Creates a task under a fresh identifier; see the registry.
    pub fn create_task(&mut self, name: String) -> (id: u64)
        requires
            old(self).wf(),
            old(self).ids_used() < u64::MAX,
        ensures
            final(self).wf(),
            final(self).ids_used() == old(self).ids_used() + 1,
            !old(self)@.contains_key(id),
            final(self)@ == old(self)@.insert(
                id,
                (TaskProgress {
                    task_id: id,
                    name: name,
                    status: TaskStatus::Queued,
                    progress: 0,
                    speed: None,
                    eta: None,
                    error: None,
                    file_path: None,
                }),
            ),
            final(self).task_seq().len() == old(self).task_seq().len() + 1,
            forall|x: u64| final(self).supervised(x) == old(self).supervised(x),
            final(self).supervised_count() == old(self).supervised_count(),
    {
        self.registry.create_task(name)
    }

    /// The task stored under `id`, if any.
    pub fn get_task(&self, id: u64) -> (r: Option<TaskProgress>)
        requires
            self.wf(),
        ensures
            r == (if self@.contains_key(id) {
                Some(self@[id])
            } else {
                None::<TaskProgress>
            }),
    {
        self.registry.get_task(id)
    }

    /// All stored tasks, in creation order.
    pub fn get_all_tasks(&self) -> (r: Vec<TaskProgress>)
        ensures
            r@ == self.task_seq(),
    {
        self.registry.get_all_tasks()
    }

    /// Applies `u` to the task stored under `id`; a no-op when the task was
    /// removed concurrently.
    pub fn update_task(&mut self, id: u64, u: TaskUpdate)
        requires
            old(self).wf(),
        ensures
            final(self).wf(),
            final(self).ids_used() == old(self).ids_used(),
            final(self)@ == (if old(self)@.contains_key(id) {
                old(self)@.insert(id, spec_apply(old(self)@[id], u))
            } else {
                old(self)@
            }),
            final(self).task_seq().len() == old(self).task_seq().len(),
            forall|x: u64| final(self).supervised(x) == old(self).supervised(x),
            final(self).supervised_count() == old(self).supervised_count(),
    {
        self.registry.update_task(id, u)
    }

    /// Deregisters the task stored under `id` from the registry; its
    /// supervision record, if live, is untouched.
    pub fn remove_task(&mut self, id: u64)
        requires
            old(self).wf(),
        ensures
            final(self).wf(),
            final(self).ids_used() == old(self).ids_used(),
            final(self)@ == old(self)@.remove(id),
            forall|x: u64| final(self).supervised(x) == old(self).supervised(x),
            final(self).supervised_count() == old(self).supervised_count(),
    {
        self.registry.remove_task(id)
    }

    /// Records a supervision record for `id`.
    pub fn register_supervision(&mut self, id: u64)
        requires
            old(self).wf(),
        ensures
            final(self).wf(),
            final(self)@ == old(self)@,
            final(self).ids_used() == old(self).ids_used(),
            final(self).supervised(id),
            forall|x: u64| x != id ==> final(self).supervised(x) == old(self).supervised(x),
            final(self).supervised_count() == old(self).supervised_count() + (if old(
                self,
            ).supervised(id) {
                0int
            } else {
                1int
            }),
    {
        self.supervision.insert(id)
    }

    /// Drops the supervision record for `id`; idempotent.
    pub fn unregister_supervision(&mut self, id: u64)
        requires
            old(self).wf(),
        ensures
            final(self).wf(),
            final(self)@ == old(self)@,
            final(self).ids_used() == old(self).ids_used(),
            !final(self).supervised(id),
            forall|x: u64| x != id ==> final(self).supervised(x) == old(self).supervised(x),
            final(self).supervised_count() == old(self).supervised_count() - (if old(
                self,
            ).supervised(id) {
                1int
            } else {
                0int
            }),
    {
        self.supervision.remove(id)
    }

    /// Whether `id` has a live supervision record.
    pub fn is_supervised(&self, id: u64) -> (r: bool)
        ensures
            r == self.supervised(id),
    {
        self.supervision.contains_exec(id)
    }

    /// How many supervision records are live.
    pub fn supervision_count(&self) -> (r: usize)
        ensures
            r == self.supervised_count(),
    {
        self.supervision.count()
    }

    /// How many identifiers have ever been handed out.
    pub fn ids_handed_out(&self) -> (r: u64)
        ensures
            r == self.ids_used(),
    {
        self.registry.ids_handed_out()
    }

    /// What `get_all_tasks` lists is exactly the manager's map: one task
    /// per stored identifier — none missing, none repeated — each equal to
    /// the map's entry under its own identifier, which the task also
    /// carries in its `task_id` field.
    pub proof fn lemma_list_matches_view(self)
        requires
            self.wf(),
        ensures
            distinct_ids(self.task_seq()),
            self.task_seq().len() == self@.dom().len(),
            forall|i: int|
                0 <= i < self.task_seq().len() ==> ({
                    let t = #[trigger] self.task_seq()[i];
                    self@.contains_key(t.task_id) && self@[t.task_id] == t
                }),
            forall|id: u64|
                #[trigger] self@.contains_key(id) ==> self@[id].task_id == id && (exists|i: int|
                    0 <= i < self.task_seq().len() && self.task_seq()[i] == self@[id]),
    {
        self.registry.lemma_list_matches_view();
    }

    /// Classifies a conversion-tool failure by its message text and exit
    /// code.  First match wins: a named transient condition (retryable), a
    /// full disk, denied access, undecodable input, and otherwise —
    /// including the generic exit code 1 — a retryable temporary failure,
    /// so unknown errors still get bounded retries.  A message naming a
    /// permission or disk problem beats the generic exit-code heuristic.
    pub fn classify_ffmpeg_error(message: &str, exit_code: Option<i32>) -> (r: MediaForgeError)
        ensures
            ({
                let m = message@;
                let temp = ffmpeg_temporary_indicated(m);
                let disk = ffmpeg_disk_indicated(m);
                let perm = ffmpeg_permission_indicated(m, exit_code);
                let fmt = ffmpeg_format_indicated(m, exit_code);
                &&& (temp ==> (r matches MediaForgeError::TemporaryError(s) && s@ == m))
                &&& (!temp && disk ==> (r matches MediaForgeError::DiskSpaceError(s) && s@ == m))
                &&& (!temp && !disk && perm ==> (r matches MediaForgeError::PermissionError(s)
                    && s@ == m))
                &&& (!temp && !disk && !perm && fmt ==> (r matches MediaForgeError::FFmpegError(s)
                    && s@ == m))
                &&& (!temp && !disk && !perm && !fmt ==> (
                r matches MediaForgeError::TemporaryError(s) && s@ == m))
            }),
    {
        let c = chars_of(message);
        let code126 = match exit_code {
            Some(v) => v == 126,
            None => false,
        };
        let code255 = match exit_code {
            Some(v) => v == 255,
            None => false,
        };
        if contains_lit_ci(&c, "resource temporarily unavailable") || contains_lit_ci(
            &c,
            "device busy",
        ) || contains_lit_ci(&c, "interrupted system call") {
            MediaForgeError::TemporaryError(message.to_owned())
        } else if contains_lit_ci(&c, "no space left") || contains_lit_ci(&c, "disk full")
            || contains_lit_ci(&c, "write error") {
            MediaForgeError::DiskSpaceError(message.to_owned())
        } else if contains_lit_ci(&c, "permission denied") || contains_lit_ci(&c, "access denied")
            || code126 {
            MediaForgeError::PermissionError(message.to_owned())
        } else if contains_lit_ci(&c, "invalid data") || contains_lit_ci(&c, "unsupported")
            || contains_lit_ci(&c, "no decoder") || contains_lit_ci(&c, "invalid file format")
            || code255 {
            MediaForgeError::FFmpegError(message.to_owned())
        } else {
            MediaForgeError::TemporaryError(message.to_owned())
        }
    }

    /// Cancels a task: marks it `Cancelled` with a reason and drops its
    /// supervision record.  Returns whether a record was live; cancelling a
    /// task whose record is already gone only writes the registry and
    /// succeeds.
    pub fn cancel_task(&mut self, id: u64) -> (was_running: bool)
        requires
            old(self).wf(),
        ensures
            final(self).wf(),
            was_running == old(self).supervised(id),
            !final(self).supervised(id),
            forall|x: u64| x != id ==> final(self).supervised(x) == old(self).supervised(x),
            final(self).ids_used() == old(self).ids_used(),
            forall|x: u64| #[trigger] final(self)@.contains_key(x) == old(self)@.contains_key(x),
            forall|x: u64|
                x != id && old(self)@.contains_key(x) ==> final(self)@[x] == old(self)@[x],
            old(self)@.contains_key(id) ==> is_cancelled_version(
                final(self)@[id],
                old(self)@[id],
                "Task cancelled by user"@,
            ),
            !old(self)@.contains_key(id) ==> final(self)@ == old(self)@,
    {
        let was_running = self.supervision.contains_exec(id);
        self.update_task(id, TaskUpdate::Cancelled(String::from_str("Task cancelled by user")));
        self.supervision.remove(id);
        was_running
    }

    /// Reconciles how a supervised execution ended into the registry and
    /// drops the supervision record, idempotently.
    pub fn finish_task(&mut self, id: u64, outcome: SupervisionOutcome)
        requires
            old(self).wf(),
        ensures
            final(self).wf(),
            !final(self).supervised(id),
            forall|x: u64| x != id ==> final(self).supervised(x) == old(self).supervised(x),
            final(self).ids_used() == old(self).ids_used(),
            forall|x: u64| #[trigger] final(self)@.contains_key(x) == old(self)@.contains_key(x),
            forall|x: u64|
                x != id && old(self)@.contains_key(x) ==> final(self)@[x] == old(self)@[x],
            !old(self)@.contains_key(id) ==> final(self)@ == old(self)@,
            old(self)@.contains_key(id) ==> (match outcome {
                SupervisionOutcome::Completed(path) => final(self)@[id] == spec_apply(
                    old(self)@[id],
                    TaskUpdate::Completed(path),
                ),
                SupervisionOutcome::Failed(e) => is_failed_version(
                    final(self)@[id],
                    old(self)@[id],
                    e.spec_message_prefix() + e.spec_detail(),
                ),
                SupervisionOutcome::Cancelled => is_cancelled_version(
                    final(self)@[id],
                    old(self)@[id],
                    "Task was cancelled by user"@,
                ),
                SupervisionOutcome::TimedOut => is_failed_version(
                    final(self)@[id],
                    old(self)@[id],
                    "Conversion timed out after 2 hours"@,
                ),
            }),
    {
        match outcome {
            SupervisionOutcome::Completed(path) => {
                self.update_task(id, TaskUpdate::Completed(path));
            },
            SupervisionOutcome::Failed(e) => {
                let m = e.message();
                self.update_task(id, TaskUpdate::Failed(m));
            },
            SupervisionOutcome::Cancelled => {
                self.update_task(
                    id,
                    TaskUpdate::Cancelled(String::from_str("Task was cancelled by user")),
                );
            },
            SupervisionOutcome::TimedOut => {
                self.update_task(
                    id,
                    TaskUpdate::Failed(String::from_str("Conversion timed out after 2 hours")),
                );
            },
        }
        self.supervision.remove(id);
    }

    /// Submits a batch of conversions.  The output directory is validated
    /// once for the whole batch and every input file is validated eagerly
    /// (with the caller-probed filesystem status, and for image work the
    /// formats too), before any task is created: a rejected submission
    /// leaves the manager exactly as it was.  Every accepted item gets a
    /// task that is already `Processing` and already supervised by the time
    /// its identifier is returned.
    pub fn start_conversion(
        &mut self,
        request: &ConvertRequest,
        statuses: &Vec<FileStatus>,
        home: &str,
        cwd: &str,
    ) -> (r: Result<Vec<u64>, MediaForgeError>)
        requires
            old(self).wf(),
            statuses@.len() == request.input_files@.len(),
            old(self).ids_used() + request.input_files@.len() <= u64::MAX,
        ensures
            final(self).wf(),
            r is Ok <==> (spec_sanitize_ok(request.output_path@, home@, cwd@) && (forall|k: int|
                0 <= k < request.input_files@.len() ==> spec_convert_item_ok(
                    (#[trigger] request.input_files@[k])@,
                    statuses@[k],
                    request.conversion_type,
                    request.output_format@,
                ))),
            r is Err ==> ({
                &&& final(self)@ == old(self)@
                &&& final(self).task_seq() == old(self).task_seq()
                &&& final(self).ids_used() == old(self).ids_used()
                &&& (forall|x: u64| final(self).supervised(x) == old(self).supervised(x))
                &&& final(self).supervised_count() == old(self).supervised_count()
            }),
            forall|x: u64|
                #[trigger] old(self)@.contains_key(x) ==> final(self)@.contains_key(x)
                    && final(self)@[x] == old(self)@[x],
            forall|x: u64| #[trigger] old(self).supervised(x) ==> final(self).supervised(x),
            !spec_sanitize_ok(request.output_path@, home@, cwd@) ==> (r matches Err(e)
                && sanitize_err_is(e, request.output_path@, home@, cwd@)),
            r matches Ok(ids) ==> ({
                let files = request.input_files@;
                &&& ids@.len() == files.len()
                &&& final(self).ids_used() == old(self).ids_used() + files.len()
                &&& (forall|i: int, j: int| 0 <= i < j < files.len() ==> ids@[i] != ids@[j])
                &&& (forall|k: int|
                    0 <= k < files.len() ==> ({
                        &&& !old(self)@.contains_key(#[trigger] ids@[k])
                        &&& final(self)@.contains_key(ids@[k])
                        &&& is_fresh_convert_task(final(self)@[ids@[k]], ids@[k], files[k]@)
                        &&& final(self).supervised(ids@[k])
                    }))
            }),
            (spec_sanitize_ok(request.output_path@, home@, cwd@) && !(forall|k: int|
                0 <= k < request.input_files@.len() ==> spec_convert_item_ok(
                    (#[trigger] request.input_files@[k])@,
                    statuses@[k],
                    request.conversion_type,
                    request.output_format@,
                ))) ==> (r matches Err(e) && (exists|k: int|
                {
                    &&& 0 <= k < request.input_files@.len()
                    &&& !spec_convert_item_ok(
                        (#[trigger] request.input_files@[k])@,
                        statuses@[k],
                        request.conversion_type,
                        request.output_format@,
                    )
                    &&& (forall|j: int|
                        0 <= j < k ==> spec_convert_item_ok(
                            (#[trigger] request.input_files@[j])@,
                            statuses@[j],
                            request.conversion_type,
                            request.output_format@,
                        ))
                    &&& convert_err_is(
                        e,
                        request.input_files@[k]@,
                        statuses@[k],
                        request.output_format@,
                    )
                })),
    {
        match sanitize_path(request.output_path.as_str(), home, cwd) {
            Err(e) => {
                return Err(e);
            },
            Ok(_) => {},
        }
        let n = request.input_files.len();
        // Validate the whole batch before creating anything.
        let mut k: usize = 0;
        while k < n
            invariant
                *self == *old(self),
                self.wf(),
                spec_sanitize_ok(request.output_path@, home@, cwd@),
                n == request.input_files@.len(),
                statuses@.len() == n,
                k <= n,
                forall|j: int|
                    0 <= j < k ==> spec_convert_item_ok(
                        (#[trigger] request.input_files@[j])@,
                        statuses@[j],
                        request.conversion_type,
                        request.output_format@,
                    ),
            decreases n - k,
        {
            let path: &String = &request.input_files[k];
            let st = statuses[k];
            match validate_input_file(path.as_str(), st.exists, st.is_file) {
                Err(e) => {
                    proof {
                        assert(!spec_input_ok(request.input_files@[k as int]@, st));
                    }
                    return Err(e);
                },
                Ok(()) => {},
            }
            if request.conversion_type == ConversionType::Image {
                match validate_image_format(path.as_str(), request.output_format.as_str()) {
                    Err(e) => {
                        proof {
                            assert(!spec_image_ok(
                                request.input_files@[k as int]@,
                                request.output_format@,
                            ));
                        }
                        return Err(e);
                    },
                    Ok(()) => {},
                }
            }
            k += 1;
        }
        let mut ids: Vec<u64> = Vec::new();
        let mut k: usize = 0;
        while k < n
            invariant
                self.wf(),
                n == request.input_files@.len(),
                statuses@.len() == n,
                old(self).ids_used() + n <= u64::MAX,
                k <= n,
                ids@.len() == k,
                self.ids_used() == old(self).ids_used() + k,
                forall|x: u64|
                    #[trigger] old(self)@.contains_key(x) ==> self@.contains_key(x) && self@[x]
                        == old(self)@[x],
                forall|x: u64| #[trigger] old(self).supervised(x) ==> self.supervised(x),
                forall|i: int, j: int| 0 <= i < j < k ==> ids@[i] != ids@[j],
                forall|kk: int|
                    0 <= kk < k ==> ({
                        &&& !old(self)@.contains_key(#[trigger] ids@[kk])
                        &&& self@.contains_key(ids@[kk])
                        &&& is_fresh_convert_task(
                            self@[ids@[kk]],
                            ids@[kk],
                            request.input_files@[kk]@,
                        )
                        &&& self.supervised(ids@[kk])
                    }),
            decreases n - k,
        {
            let path: &String = &request.input_files[k];
            let pc = chars_of(path.as_str());
            let name_part: String = match file_name_range(&pc) {
                Some((a, b)) => path.as_str().substring_char(a, b).to_owned(),
                None => String::from_str("Unknown"),
            };
            let name = String::from_str("Converting ").concat(name_part.as_str());
            let id = self.create_task(name);
            self.update_task(id, TaskUpdate::Activated(TaskStatus::Processing));
            self.register_supervision(id);
            ids.push(id);
            k += 1;
        }
        Ok(ids)
    }
}

} // verus!
