//! Launch planning: batch size, launch order, and the two-phase launch of
//! each profile as a state machine driven by the caller.
use vstd::prelude::*;
use crate::link::TelegramLink;
use crate::text::{chars_of, trim_of, trimmed};

verus! {

pub open spec fn is_digit(c: char) -> bool {
    '0' <= c && c <= '9'
}

pub open spec fn digit_value(c: char) -> nat {
    (c as u32 - '0' as u32) as nat
}

pub open spec fn all_digits(s: Seq<char>) -> bool {
    s.len() > 0 && forall|i: int| 0 <= i < s.len() ==> is_digit(#[trigger] s[i])
}

/// The number written by a sequence of decimal digits.
pub open spec fn digits_value(s: Seq<char>) -> nat
    decreases s.len(),
{
    if s.len() == 0 {
        0
    } else {
        digits_value(s.drop_last()) * 10 + digit_value(s.last())
    }
}

/// The digits of an unsigned decimal: an optional `+` followed by one or more
/// ASCII digits, and nothing else.
pub open spec fn unsigned_digits(s: Seq<char>) -> Option<Seq<char>> {
    if s.len() > 0 && s[0] == '+' {
        if all_digits(s.drop_first()) { Some(s.drop_first()) } else { None }
    } else if all_digits(s) {
        Some(s)
    } else {
        None
    }
}

/// The value `str::parse::<usize>` gives, or `None` where it fails.
pub open spec fn parsed_usize(s: Seq<char>) -> Option<nat> {
    match unsigned_digits(s) {
        Some(d) => if digits_value(d) <= usize::MAX { Some(digits_value(d)) } else { None },
        None => None,
    }
}

/// Relies on `str::parse::<usize>`, which accepts an optional `+` followed by
/// decimal digits whose value fits.
#[verifier::external_body]
fn parse_usize(s: &str) -> (r: Option<usize>)
    ensures
        match r {
            Some(n) => parsed_usize(s@) == Some(n as nat),
            None => parsed_usize(s@) is None,
        },
{
    s.parse::<usize>().ok()
}

/// The batch size set by a saved setting: its trimmed text read as a
/// positive integer, else 1.
pub open spec fn batch_size_of(raw: Seq<char>) -> nat {
    match parsed_usize(trim_of(raw)) {
        Some(n) => if n > 0 { n } else { 1 },
        None => 1,
    }
}

pub fn parse_batch_size(raw: &str) -> (r: usize)
    ensures
        r as nat == batch_size_of(raw@),
        r >= 1,
{
    match parse_usize(trimmed(raw).as_str()) {
        Some(n) => if n > 0 { n } else { 1 },
        None => 1,
    }
}

/// The ids from `start` to `end`, both included, ascending.
pub open spec fn profile_range(start: i32, end: i32) -> Seq<i32> {
    if start <= end {
        Seq::new((end - start + 1) as nat, |k: int| (start + k) as i32)
    } else {
        Seq::empty()
    }
}

/// Relies on `rand::seq::SliceRandom::shuffle` with the thread-local
/// generator, which permutes the items in place by swaps.
#[verifier::external_body]
fn shuffle_ids(v: &mut Vec<i32>)
    ensures
        final(v)@.to_multiset() == old(v)@.to_multiset(),
        final(v)@.len() == old(v)@.len(),
{
    rand::seq::SliceRandom::shuffle(v.as_mut_slice(), &mut rand::thread_rng())
}

/// Whether the link's `mixed` flag asks for a random launch order.
pub fn wants_shuffle(mixed: &str) -> (r: bool)
    ensures
        r == (mixed@ == "yes"@),
{
    let m = chars_of(mixed);
    let yes = chars_of("yes");
    if m.len() != yes.len() {
        return false;
    }
    let eq = crate::text::chars_start_with(&m, &yes);
    assert(eq == (m@ == yes@)) by {
        assert(m@.subrange(0, yes@.len() as int) =~= m@);
    }
    eq
}

/// The profiles of the range in launch order: ascending, or shuffled when
/// `shuffle` holds.
pub fn launch_order(start: i32, end: i32, shuffle: bool) -> (r: Vec<i32>)
    ensures
        !shuffle ==> r@ == profile_range(start, end),
        r@.to_multiset() == profile_range(start, end).to_multiset(),
        r@.len() == profile_range(start, end).len(),
{
    let mut v: Vec<i32> = Vec::new();
    if start <= end {
        let mut cur: i64 = start as i64;
        while cur <= end as i64
            invariant
                start <= end,
                start as i64 <= cur <= end as i64 + 1,
                v@ =~= profile_range(start, end).subrange(0, cur - start),
            decreases end as i64 + 1 - cur,
        {
            v.push(cur as i32);
            cur = cur + 1;
        }
        assert(v@ =~= profile_range(start, end));
    } else {
        assert(v@ =~= profile_range(start, end));
    }
    if shuffle {
        shuffle_ids(&mut v);
    }
    v
}

/// Where a profile's launch stands.
#[derive(PartialEq, Eq, Structural)]
pub enum LaunchPhase {
    /// The first start, without the link, is next.
    Primary,
    /// The second start, with the link, is next.
    Linked,
}

/// What became of one attempt to start the executable.
pub enum SpawnOutcome {
    /// The executable does not exist; the profile is skipped.
    Missing,
    /// The operating system refused to start it.
    Failed,
    /// It started with this process id.
    Started(u32),
}

/// What the caller is asked to do next.
pub enum LaunchAction {
    /// Start the executable of `profile`, passing the link when `with_link`.
    Spawn { profile: i32, with_link: bool },
    /// Nothing is left in this run.
    Finish,
}

/// Emitted once per profile when its attempt is over.
pub struct LaunchProgress {
    /// One-based position of the profile in the run.
    pub batch_index: usize,
    pub batch_total: usize,
    pub profile: i32,
}

/// The caller's next step after an attempt.
pub struct LaunchStep {
    /// Seconds to let the started instance settle before going on.
    pub wait_secs: u64,
    pub progress: Option<LaunchProgress>,
}

/// One launch run over an ordered list of profiles.
pub struct LaunchRun {
    pub order: Vec<i32>,
    /// How many profiles of `order` this run launches.
    pub limit: usize,
    /// Index of the profile being launched.
    pub position: usize,
    pub phase: LaunchPhase,
    /// Process ids of the first starts that succeeded, in order.
    pub launched: Vec<u32>,
}

impl LaunchRun {
    pub open spec fn wf(&self) -> bool {
        &&& self.limit <= self.order@.len()
        &&& self.position <= self.limit
        &&& self.phase == LaunchPhase::Linked ==> self.position < self.limit
        &&& self.launched@.len() <= self.position + if self.phase == LaunchPhase::Linked { 1int } else { 0int }
    }

    /// A run that is over has launched at most `limit` profiles, so a batched
    /// run never launches more than its batch size.
    pub proof fn lemma_launch_cap(&self)
        requires
            self.wf(),
            self.position >= self.limit,
        ensures
            self.launched@.len() <= self.limit,
    {
    }

    /// A run that stops before the profile at index `batch_size`, so that at
    /// most `batch_size` profiles are launched per call.
    pub fn batched(order: Vec<i32>, batch_size: usize) -> (r: LaunchRun)
        requires
            batch_size >= 1,
        ensures
            r.wf(),
            r.order@ == order@,
            r.limit == if order@.len() < batch_size { order@.len() } else { batch_size as nat },
            r.position == 0,
            r.phase == LaunchPhase::Primary,
            r.launched@.len() == 0,
    {
        let limit = if order.len() < batch_size { order.len() } else { batch_size };
        LaunchRun { order, limit, position: 0, phase: LaunchPhase::Primary, launched: Vec::new() }
    }

    /// A run over the whole list.
    pub fn unbatched(order: Vec<i32>) -> (r: LaunchRun)
        ensures
            r.wf(),
            r.order@ == order@,
            r.limit == order@.len(),
            r.position == 0,
            r.phase == LaunchPhase::Primary,
            r.launched@.len() == 0,
    {
        let limit = order.len();
        LaunchRun { order, limit, position: 0, phase: LaunchPhase::Primary, launched: Vec::new() }
    }

    pub fn next_action(&self) -> (a: LaunchAction)
        requires
            self.wf(),
        ensures
            self.position < self.limit ==> a == (LaunchAction::Spawn {
                profile: self.order@[self.position as int],
                with_link: self.phase == LaunchPhase::Linked,
            }),
            self.position >= self.limit ==> a == LaunchAction::Finish,
    {
        if self.position < self.limit {
            LaunchAction::Spawn {
                profile: self.order[self.position],
                with_link: self.phase == LaunchPhase::Linked,
            }
        } else {
            LaunchAction::Finish
        }
    }

    /// Records the outcome of the start that `next_action` asked for. A first
    /// start that succeeded adds its pid and waits 3 s; a second start that
    /// succeeded waits 2 s; a missing executable skips the profile; a failure
    /// moves on at once. Progress is reported when a profile is done.
    pub fn record(&mut self, outcome: SpawnOutcome) -> (step: LaunchStep)
        requires
            old(self).wf(),
            old(self).position < old(self).limit,
        ensures
            final(self).wf(),
            final(self).order == old(self).order,
            final(self).limit == old(self).limit,
            old(self).phase == LaunchPhase::Primary ==> match outcome {
                SpawnOutcome::Missing => final(self).position == old(self).position + 1
                    && final(self).phase == LaunchPhase::Primary
                    && final(self).launched@ == old(self).launched@ && step.wait_secs == 0,
                SpawnOutcome::Failed => final(self).position == old(self).position
                    && final(self).phase == LaunchPhase::Linked
                    && final(self).launched@ == old(self).launched@ && step.wait_secs == 0,
                SpawnOutcome::Started(pid) => final(self).position == old(self).position
                    && final(self).phase == LaunchPhase::Linked
                    && final(self).launched@ == old(self).launched@.push(pid) && step.wait_secs == 3,
            },
            old(self).phase == LaunchPhase::Linked ==> {
                &&& final(self).position == old(self).position + 1
                &&& final(self).phase == LaunchPhase::Primary
                &&& final(self).launched@ == old(self).launched@
                &&& step.wait_secs == if outcome is Started { 2u64 } else { 0u64 }
            },
            final(self).position == old(self).position + 1 ==> step.progress == Some(LaunchProgress {
                batch_index: final(self).position,
                batch_total: old(self).order@.len() as usize,
                profile: old(self).order@[old(self).position as int],
            }),
            final(self).position == old(self).position ==> step.progress is None,
    {
        let profile = self.order[self.position];
        let total = self.order.len();
        let mut wait_secs: u64 = 0;
        let done = match self.phase {
            LaunchPhase::Primary => match outcome {
                SpawnOutcome::Missing => true,
                SpawnOutcome::Failed => {
                    self.phase = LaunchPhase::Linked;
                    false
                },
                SpawnOutcome::Started(pid) => {
                    self.launched.push(pid);
                    self.phase = LaunchPhase::Linked;
                    wait_secs = 3;
                    false
                },
            },
            LaunchPhase::Linked => {
                if let SpawnOutcome::Started(_) = outcome {
                    wait_secs = 2;
                }
                self.phase = LaunchPhase::Primary;
                true
            },
        };
        if done {
            self.position = self.position + 1;
            LaunchStep {
                wait_secs,
                progress: Some(LaunchProgress { batch_index: self.position, batch_total: total, profile }),
            }
        } else {
            LaunchStep { wait_secs, progress: None }
        }
    }
}

/// The arguments of a start: the link on the second start, and the flag that
/// starts the instance in the tray when the link names an app type.
pub fn launch_args(link_params: &TelegramLink, link: &str, with_link: bool) -> (r: Vec<String>)
    ensures
        r@.len() == (if with_link { 1int } else { 0int }) + (if link_params.app_type@.len() > 0 { 1int } else { 0int }),
        with_link ==> r@[0]@ == link@,
        link_params.app_type@.len() > 0 ==> r@.last()@ == "-startintray"@,
{
    let mut r: Vec<String> = Vec::new();
    if with_link {
        r.push(String::from_str(link));
    }
    if !link_params.app_type.as_str().is_empty() {
        r.push(String::from_str("-startintray"));
    }
    r
}

} // verus!
