//! Choosing which processes to terminate, always under the configured root,
//! and the retry policy of a batch termination.
use vstd::prelude::*;
use crate::paths::{
    build_account_dirs, chars_dir_match, dir_matches, is_verbatim, joined, kept_dirs, keeps_dir,
    normalized_all, profile_dir_path, profile_dirs_joined, profile_name, string_views,
};
use crate::process::{get_pids_for_account_dirs, pids_in_dirs, ProcessRecord};
use crate::text::{
    chars_of, lower_slashed, normalize_path_for_match, normalized, slashes_forward, to_lower,
    trim_of, trimmed,
};

verus! {

/// Why nothing could be terminated.
#[derive(Debug, PartialEq, Eq, Structural)]
pub enum CloseError {
    /// The saved root path is blank.
    NotConfigured,
    /// The profile directory came out empty.
    InvalidFolder,
    /// No running process belongs to the profile.
    NoProcessFound,
}

/// The saved root path, trimmed; blank means not configured.
pub fn configured_root(saved: &str) -> (r: Result<String, CloseError>)
    ensures
        trim_of(saved@).len() == 0 <==> r == Err::<String, CloseError>(CloseError::NotConfigured),
        r is Err ==> trim_of(saved@).len() == 0,
        r matches Ok(root) ==> root@ == trim_of(saved@),
{
    let root = trimmed(saved);
    if root.as_str().is_empty() {
        Err(CloseError::NotConfigured)
    } else {
        Ok(root)
    }
}

/// A process may be terminated only when its normalized executable path is
/// the normalized root or lies under it.
pub open spec fn authorized(ps: Seq<ProcessRecord>, pid: u32, root_n: Seq<char>) -> bool {
    exists|j: int| 0 <= j < ps.len() && ps[j].pid == pid && dir_matches(normalized(#[trigger] ps[j].path@), root_n)
}

/// The requested pids that are authorized, in request order.
pub open spec fn authorized_subset(req: Seq<u32>, ps: Seq<ProcessRecord>, root_n: Seq<char>) -> Seq<u32>
    decreases req.len(),
{
    if req.len() == 0 {
        Seq::empty()
    } else {
        let rest = authorized_subset(req.drop_last(), ps, root_n);
        if authorized(ps, req.last(), root_n) { rest.push(req.last()) } else { rest }
    }
}

/// The requested pids that may be terminated: those of processes under the
/// configured root. Fails when no root is configured.
pub fn authorized_pids(requested: &[u32], processes: &[ProcessRecord], root_setting: &str) -> (r: Result<Vec<u32>, CloseError>)
    ensures
        trim_of(root_setting@).len() == 0 ==> r == Err::<Vec<u32>, CloseError>(CloseError::NotConfigured),
        trim_of(root_setting@).len() > 0 ==> (r matches Ok(v)
            && v@ == authorized_subset(requested@, processes@, normalized(trim_of(root_setting@)))),
{
    let root = match configured_root(root_setting) {
        Ok(root) => root,
        Err(e) => return Err(e),
    };
    let ghost root_n = normalized(trim_of(root_setting@));
    let root_chars = chars_of(normalize_path_for_match(root.as_str()).as_str());
    let mut under_root: Vec<bool> = Vec::new();
    let mut j: usize = 0;
    while j < processes.len()
        invariant
            j <= processes@.len(),
            root_chars@ == root_n,
            under_root@.len() == j,
            forall|t: int| 0 <= t < j ==> #[trigger] under_root@[t]
                == dir_matches(normalized(processes@[t].path@), root_n),
        decreases processes@.len() - j,
    {
        let path_n = chars_of(normalize_path_for_match(processes[j].path.as_str()).as_str());
        under_root.push(chars_dir_match(&path_n, &root_chars));
        j = j + 1;
    }
    let mut r: Vec<u32> = Vec::new();
    let mut i: usize = 0;
    while i < requested.len()
        invariant
            i <= requested@.len(),
            under_root@.len() == processes@.len(),
            forall|t: int| 0 <= t < processes@.len() ==> #[trigger] under_root@[t]
                == dir_matches(normalized(processes@[t].path@), root_n),
            r@ == authorized_subset(requested@.subrange(0, i as int), processes@, root_n),
        decreases requested@.len() - i,
    {
        assert(requested@.subrange(0, i + 1 as int).drop_last() =~= requested@.subrange(0, i as int));
        let p = requested[i];
        let mut found = false;
        let mut k: usize = 0;
        while k < processes.len()
            invariant
                k <= processes@.len(),
                under_root@.len() == processes@.len(),
                forall|t: int| 0 <= t < processes@.len() ==> #[trigger] under_root@[t]
                    == dir_matches(normalized(processes@[t].path@), root_n),
                found <==> exists|t: int| 0 <= t < k && processes@[t].pid == p
                    && dir_matches(normalized(#[trigger] processes@[t].path@), root_n),
            decreases processes@.len() - k,
        {
            if processes[k].pid == p && under_root[k] {
                found = true;
            }
            k = k + 1;
        }
        if found {
            r.push(p);
        }
        i = i + 1;
    }
    assert(requested@.subrange(0, i as int) =~= requested@);
    Ok(r)
}

/// The normalized directories of the profiles to close, under the saved root.
/// No ids means nothing to do, whatever the root.
pub fn close_batch_dirs(account_ids: &[i32], root_setting: &str) -> (r: Result<Vec<String>, CloseError>)
    ensures
        account_ids@.len() == 0 ==> (r matches Ok(v) && v@.len() == 0),
        account_ids@.len() > 0 && trim_of(root_setting@).len() == 0
            ==> r == Err::<Vec<String>, CloseError>(CloseError::NotConfigured),
        account_ids@.len() > 0 && trim_of(root_setting@).len() > 0 ==> (r matches Ok(v) && exists|js: Seq<Seq<char>>| {
            &&& #[trigger] profile_dirs_joined(trim_of(root_setting@), account_ids@, js)
            &&& string_views(v@) == kept_dirs(normalized_all(js), normalized(trim_of(root_setting@)))
        }),
        r matches Ok(v) ==> forall|k: int| 0 <= k < v@.len()
            ==> keeps_dir(#[trigger] v@[k]@, normalized(trim_of(root_setting@))),
{
    if account_ids.len() == 0 {
        return Ok(Vec::new());
    }
    let root = match configured_root(root_setting) {
        Ok(root) => root,
        Err(e) => return Err(e),
    };
    let root_n = normalize_path_for_match(root.as_str());
    Ok(build_account_dirs(account_ids, root.as_str(), root_n.as_str()))
}

/// The pids of the processes running from the given profiles.
pub fn pids_for_accounts(account_ids: &[i32], root_setting: &str, processes: &[ProcessRecord]) -> (r: Result<Vec<u32>, CloseError>)
    ensures
        account_ids@.len() == 0 ==> (r matches Ok(v) && v@.len() == 0),
        account_ids@.len() > 0 && trim_of(root_setting@).len() == 0
            ==> r == Err::<Vec<u32>, CloseError>(CloseError::NotConfigured),
        account_ids@.len() > 0 && trim_of(root_setting@).len() > 0 ==> (r matches Ok(v) && exists|js: Seq<Seq<char>>| {
            &&& #[trigger] profile_dirs_joined(trim_of(root_setting@), account_ids@, js)
            &&& v@ == pids_in_dirs(processes@, kept_dirs(normalized_all(js), normalized(trim_of(root_setting@))))
        }),
{
    match close_batch_dirs(account_ids, root_setting) {
        Ok(dirs) => {
            let r = get_pids_for_account_dirs(processes, dirs.as_slice());
            proof {
                if account_ids@.len() == 0 {
                    assert(string_views(dirs@) =~= Seq::<Seq<char>>::empty());
                    lemma_no_dirs_no_pids(processes@, string_views(dirs@));
                }
            }
            Ok(r)
        },
        Err(e) => Err(e),
    }
}

proof fn lemma_no_dirs_no_pids(ps: Seq<ProcessRecord>, dirs: Seq<Seq<char>>)
    requires
        dirs.len() == 0,
    ensures
        pids_in_dirs(ps, dirs).len() == 0,
    decreases ps.len(),
{
    if ps.len() > 0 {
        lemma_no_dirs_no_pids(ps.drop_last(), dirs);
    }
}

/// The pids, in snapshot order, of the processes whose lowercase,
/// forward-slashed path lies in `dir`.
pub open spec fn pids_in_dir(ps: Seq<ProcessRecord>, dir: Seq<char>) -> Seq<u32>
    decreases ps.len(),
{
    if ps.len() == 0 {
        Seq::empty()
    } else {
        let rest = pids_in_dir(ps.drop_last(), dir);
        if dir_matches(lower_slashed(ps.last().path@), dir) { rest.push(ps.last().pid) } else { rest }
    }
}

/// What closing one profile whose directory is `dir` targets.
pub open spec fn single_outcome(ps: Seq<ProcessRecord>, dir: Seq<char>) -> Result<Seq<u32>, CloseError> {
    if dir.len() == 0 {
        Err(CloseError::InvalidFolder)
    } else if pids_in_dir(ps, dir).len() == 0 {
        Err(CloseError::NoProcessFound)
    } else {
        Ok(pids_in_dir(ps, dir))
    }
}

pub open spec fn result_view(r: Result<Vec<u32>, CloseError>) -> Result<Seq<u32>, CloseError> {
    match r {
        Ok(v) => Ok(v@),
        Err(e) => Err(e),
    }
}

/// The processes to terminate for one profile: those running from its
/// directory under the saved root. Reports `NoProcessFound` rather than an
/// empty list.
pub fn single_account_targets(account_id: i32, root_setting: &str, processes: &[ProcessRecord]) -> (r: Result<Vec<u32>, CloseError>)
    ensures
        trim_of(root_setting@).len() == 0 ==> r == Err::<Vec<u32>, CloseError>(CloseError::NotConfigured),
        trim_of(root_setting@).len() > 0 ==> exists|j: Seq<char>|
            (is_verbatim(trim_of(root_setting@)) || joined(trim_of(root_setting@), profile_name(account_id as int), j))
            && result_view(r) == #[trigger] single_outcome(processes@, lower_slashed(j)),
        r matches Ok(v) ==> v@.len() > 0,
{
    let root = match configured_root(root_setting) {
        Ok(root) => root,
        Err(e) => return Err(e),
    };
    let dir_path = profile_dir_path(root.as_str(), account_id);
    let dir = slashes_forward(&chars_of(to_lower(dir_path.as_str()).as_str()));
    let res = if dir.len() == 0 {
        Err(CloseError::InvalidFolder)
    } else {
        let targets = pids_in_dir_exec(processes, &dir);
        if targets.len() == 0 {
            Err(CloseError::NoProcessFound)
        } else {
            Ok(targets)
        }
    };
    assert(result_view(res) == single_outcome(processes@, lower_slashed(dir_path@)));
    res
}

fn pids_in_dir_exec(processes: &[ProcessRecord], dir: &Vec<char>) -> (r: Vec<u32>)
    ensures
        r@ == pids_in_dir(processes@, dir@),
{
    let mut r: Vec<u32> = Vec::new();
    let mut i: usize = 0;
    while i < processes.len()
        invariant
            i <= processes@.len(),
            r@ == pids_in_dir(processes@.subrange(0, i as int), dir@),
        decreases processes@.len() - i,
    {
        assert(processes@.subrange(0, i + 1 as int).drop_last() =~= processes@.subrange(0, i as int));
        let path = slashes_forward(&chars_of(to_lower(processes[i].path.as_str()).as_str()));
        if chars_dir_match(&path, dir) {
            r.push(processes[i].pid);
        }
        i = i + 1;
    }
    assert(processes@.subrange(0, i as int) =~= processes@);
    r
}

/// The number of scans a batch termination makes at most.
pub const MAX_CLOSE_ATTEMPTS: u32 = 3;

/// The pause between two scans, in milliseconds.
pub const CLOSE_RETRY_PAUSE_MS: u64 = 600;

/// The state of a batch termination, as a model.
pub ghost struct RetryModel {
    pub attempts: nat,
    pub stopped: bool,
    pub closed: Seq<u32>,
}

impl RetryModel {
    pub open spec fn fresh() -> RetryModel {
        RetryModel { attempts: 0, stopped: false, closed: Seq::empty() }
    }

    pub open spec fn may_scan(self) -> bool {
        !self.stopped && self.attempts < MAX_CLOSE_ATTEMPTS
    }

    /// A scan that finds no target ends the termination.
    pub open spec fn after_scan(self, targets: Seq<u32>) -> RetryModel {
        if targets.len() == 0 { RetryModel { stopped: true, ..self } } else { self }
    }

    /// A pid counts once, when it was closed and not counted before.
    pub open spec fn after_kill(self, pid: u32, ok: bool) -> RetryModel {
        if ok && !self.closed.contains(pid) { RetryModel { closed: self.closed.push(pid), ..self } } else { self }
    }

    pub open spec fn after_attempt(self) -> RetryModel {
        RetryModel { attempts: self.attempts + 1, ..self }
    }
}

/// A batch termination: up to three scans, each killing what it finds, with
/// the pids closed so far counted once each.
pub struct CloseRetry {
    pub attempts: u32,
    pub stopped: bool,
    pub closed: Vec<u32>,
}

impl View for CloseRetry {
    type V = RetryModel;

    open spec fn view(&self) -> RetryModel {
        RetryModel { attempts: self.attempts as nat, stopped: self.stopped, closed: self.closed@ }
    }
}

impl CloseRetry {
    pub open spec fn wf(&self) -> bool {
        &&& self.attempts <= MAX_CLOSE_ATTEMPTS
        &&& self.closed@.no_duplicates()
    }

    pub fn new() -> (r: CloseRetry)
        ensures
            r.wf(),
            r@ == RetryModel::fresh(),
    {
        let r = CloseRetry { attempts: 0, stopped: false, closed: Vec::new() };
        assert(r@.closed =~= Seq::<u32>::empty());
        r
    }

    /// Whether another scan is due.
    pub fn should_scan(&self) -> (r: bool)
        ensures
            r == self@.may_scan(),
    {
        !self.stopped && self.attempts < MAX_CLOSE_ATTEMPTS
    }

    /// Takes the targets a scan found; returns whether they are to be killed.
    pub fn on_targets(&mut self, targets: &[u32]) -> (r: bool)
        requires
            old(self).wf(),
        ensures
            final(self).wf(),
            final(self)@ == old(self)@.after_scan(targets@),
            r == (targets@.len() > 0),
    {
        if targets.len() == 0 {
            self.stopped = true;
            false
        } else {
            true
        }
    }

    /// Records whether killing `pid` succeeded.
    pub fn on_killed(&mut self, pid: u32, ok: bool)
        requires
            old(self).wf(),
        ensures
            final(self).wf(),
            final(self)@ == old(self)@.after_kill(pid, ok),
    {
        if ok {
            let mut seen = false;
            let mut k: usize = 0;
            while k < self.closed.len()
                invariant
                    k <= self.closed@.len(),
                    seen <==> exists|t: int| 0 <= t < k && self.closed@[t] == pid,
                decreases self.closed@.len() - k,
            {
                if self.closed[k] == pid {
                    seen = true;
                }
                k = k + 1;
            }
            if !seen {
                self.closed.push(pid);
                assert(self.closed@.no_duplicates()) by {
                    let c = self.closed@;
                    assert forall|a: int, b: int| 0 <= a < c.len() && 0 <= b < c.len() && a != b
                        implies c[a] != c[b] by {
                        if a == c.len() - 1 {
                            assert(c[b] == old(self).closed@[b]);
                        } else if b == c.len() - 1 {
                            assert(c[a] == old(self).closed@[a]);
                        }
                    }
                }
            }
        }
    }

    /// Ends a scan-and-kill attempt; returns the pause before the next scan,
    /// zero when none is left.
    pub fn finish_attempt(&mut self) -> (pause_ms: u64)
        requires
            old(self).wf(),
            old(self).attempts < MAX_CLOSE_ATTEMPTS,
        ensures
            final(self).wf(),
            final(self)@ == old(self)@.after_attempt(),
            pause_ms == if final(self).attempts < MAX_CLOSE_ATTEMPTS { CLOSE_RETRY_PAUSE_MS } else { 0 },
    {
        self.attempts = self.attempts + 1;
        if self.attempts < MAX_CLOSE_ATTEMPTS {
            CLOSE_RETRY_PAUSE_MS
        } else {
            0
        }
    }

    /// How many distinct processes were closed.
    pub fn closed_count(&self) -> (r: usize)
        ensures
            r == self@.closed.len(),
    {
        self.closed.len()
    }
}

/// With no process running, a batch termination finds no target at its first
/// scan, stops, and has closed nothing; started again on the same empty
/// snapshot it does exactly the same.
pub proof fn lemma_terminate_idle(dirs: Seq<Seq<char>>)
    ensures
        ({
            let s = RetryModel::fresh().after_scan(pids_in_dirs(Seq::empty(), dirs));
            &&& !s.may_scan()
            &&& s.closed.len() == 0
        }),
{
}

} // verus!
