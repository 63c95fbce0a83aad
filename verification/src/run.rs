//! The sequencing of a backup run as steps: waiting for the device's mount
//! point, then the stages of each rule. The caller performs each action and
//! reports what happened; these functions decide what comes next.
use vstd::prelude::*;
use crate::backup::{RuleResult, join_name, join_relative};
use crate::models::BackupRule;

verus! {

// ---------------------------------------------------------------- polling

/// Polling for the device's mount point: a number of attempts, with a pause
/// before every attempt but the first, and a block-device snapshot logged
/// every `snapshot_every` attempts (never when 0).
pub struct MountPoll {
    pub attempt: u32,
    pub max_attempts: u32,
    pub snapshot_every: u32,
}

/// What to do next while polling.
#[derive(Clone, Copy, Debug, PartialEq, Eq, Structural)]
pub enum PollStep {
    /// Stop polling: the mount point was found or the attempts are used up.
    Finished,
    /// Make one more attempt, pausing first and logging a snapshot as told.
    Attempt { pause_first: bool, log_snapshot: bool },
}

impl MountPoll {
    /// A poll that has made no attempt yet.
    pub fn new(max_attempts: u32, snapshot_every: u32) -> (p: MountPoll)
        ensures
            p.attempt == 0,
            p.max_attempts == max_attempts,
            p.snapshot_every == snapshot_every,
    {
        MountPoll { attempt: 0, max_attempts, snapshot_every }
    }

    /// The next step, given whether the mount point has been found.
    pub fn next(&mut self, found: bool) -> (step: PollStep)
        ensures
            final(self).max_attempts == old(self).max_attempts,
            final(self).snapshot_every == old(self).snapshot_every,
            (found || old(self).attempt >= old(self).max_attempts) ==> step == PollStep::Finished
                && final(self).attempt == old(self).attempt,
            !(found || old(self).attempt >= old(self).max_attempts) ==> step == (PollStep::Attempt {
                pause_first: old(self).attempt > 0,
                log_snapshot: old(self).snapshot_every > 0 && old(self).attempt % old(self).snapshot_every == 0,
            }) && final(self).attempt == old(self).attempt + 1,
    {
        if found || self.attempt >= self.max_attempts {
            PollStep::Finished
        } else {
            let step = PollStep::Attempt {
                pause_first: self.attempt > 0,
                log_snapshot: self.snapshot_every > 0 && self.attempt % self.snapshot_every == 0,
            };
            self.attempt = self.attempt + 1;
            step
        }
    }
}

/// A poll never makes more attempts than it allows: every attempt it grants
/// keeps the count at or below the maximum.
pub proof fn lemma_poll_bounded(attempt: u32, max_attempts: u32, found: bool)
    requires
        attempt <= max_attempts,
    ensures
        !(found || attempt >= max_attempts) ==> attempt + 1 <= max_attempts,
{
}

// ---------------------------------------------------------------- rule stages

/// Where a rule stands.
#[derive(Clone, Copy, Debug, PartialEq, Eq, Structural)]
pub enum RuleStage {
    CheckSource,
    CreateDestination,
    CreateSnapshot,
    RunRsync,
    Finished(RuleResult),
}

/// What the caller reports about the action it performed.
#[derive(Clone, Copy, Debug, PartialEq, Eq, Structural)]
pub enum RuleEvent {
    /// The action succeeded (the source exists, the folder was created).
    Done,
    /// The action failed (the source is missing, the folder could not be created).
    Failed,
    /// rsync could not be started.
    SpawnFailed,
    /// rsync exited; `code` is its exit code (`None` when killed by a signal).
    Exited { success: bool, code: Option<i32> },
    /// Waiting for rsync failed.
    WaitFailed,
}

/// The stage after `stage` given `event`: the source is checked, the
/// destination created, the snapshot folder created for incremental rules,
/// then rsync runs; the first failure ends the rule with its result.
pub open spec fn rule_step_spec(incremental: bool, stage: RuleStage, event: RuleEvent) -> RuleStage {
    match stage {
        RuleStage::CheckSource => if event == RuleEvent::Done {
            RuleStage::CreateDestination
        } else {
            RuleStage::Finished(RuleResult::SourceMissing)
        },
        RuleStage::CreateDestination => if event == RuleEvent::Done {
            if incremental { RuleStage::CreateSnapshot } else { RuleStage::RunRsync }
        } else {
            RuleStage::Finished(RuleResult::DestinationFailed)
        },
        RuleStage::CreateSnapshot => if event == RuleEvent::Done {
            RuleStage::RunRsync
        } else {
            RuleStage::Finished(RuleResult::SnapshotFailed)
        },
        RuleStage::RunRsync => match event {
            RuleEvent::Exited { success, code } => if success {
                RuleStage::Finished(RuleResult::Succeeded)
            } else {
                RuleStage::Finished(RuleResult::RsyncFailed(match code { Some(c) => c, None => -1i32 }))
            },
            RuleEvent::WaitFailed => RuleStage::Finished(RuleResult::WaitFailed),
            _ => RuleStage::Finished(RuleResult::SpawnFailed),
        },
        RuleStage::Finished(r) => RuleStage::Finished(r),
    }
}

/// See `rule_step_spec`.
pub fn rule_step(rule: &BackupRule, stage: RuleStage, event: RuleEvent) -> (next: RuleStage)
    ensures
        next == rule_step_spec(rule.incremental, stage, event),
{
    match stage {
        RuleStage::CheckSource => if event == RuleEvent::Done {
            RuleStage::CreateDestination
        } else {
            RuleStage::Finished(RuleResult::SourceMissing)
        },
        RuleStage::CreateDestination => if event == RuleEvent::Done {
            if rule.incremental { RuleStage::CreateSnapshot } else { RuleStage::RunRsync }
        } else {
            RuleStage::Finished(RuleResult::DestinationFailed)
        },
        RuleStage::CreateSnapshot => if event == RuleEvent::Done {
            RuleStage::RunRsync
        } else {
            RuleStage::Finished(RuleResult::SnapshotFailed)
        },
        RuleStage::RunRsync => match event {
            RuleEvent::Exited { success, code } => if success {
                RuleStage::Finished(RuleResult::Succeeded)
            } else {
                RuleStage::Finished(RuleResult::RsyncFailed(match code { Some(c) => c, None => -1 }))
            },
            RuleEvent::WaitFailed => RuleStage::Finished(RuleResult::WaitFailed),
            _ => RuleStage::Finished(RuleResult::SpawnFailed),
        },
        RuleStage::Finished(r) => RuleStage::Finished(r),
    }
}

/// A rule succeeds only by running rsync to a successful exit, and rsync only
/// runs once the source was found and the destination (and, for an
/// incremental rule, the snapshot folder) created.
pub proof fn lemma_success_only_from_rsync(incremental: bool, stage: RuleStage, event: RuleEvent)
    requires
        stage != RuleStage::Finished(RuleResult::Succeeded),
        rule_step_spec(incremental, stage, event) == RuleStage::Finished(RuleResult::Succeeded),
    ensures
        stage == RuleStage::RunRsync,
        (event matches RuleEvent::Exited { success, .. } && success),
{
}

// ---------------------------------------------------------------- snapshots

/// Where an incremental rule writes: a folder named by the start time inside
/// the destination; the previous snapshot (`latest`) is passed to rsync as
/// `--link-dest` when it exists.
pub struct SnapshotPlan {
    pub snapshot_dir: String,
    pub latest_link: String,
    pub link_dest: Option<String>,
}

/// The snapshot folder named `stamp` under `full_dest`, and `latest` beside it.
pub fn snapshot_plan_at(full_dest: &str, stamp: &str, latest_exists: bool) -> (p: SnapshotPlan)
    ensures
        p.snapshot_dir@ == join_relative(full_dest@, stamp@),
        p.latest_link@ == join_relative(full_dest@, "latest"@),
        latest_exists ==> (p.link_dest matches Some(l) && l@ == p.latest_link@),
        !latest_exists ==> p.link_dest is None,
{
    let latest = join_name(full_dest, "latest");
    let link_dest = if latest_exists { Some(latest.clone()) } else { None };
    SnapshotPlan { snapshot_dir: join_name(full_dest, stamp), latest_link: latest, link_dest }
}

/// The snapshot plan for a run starting now: the folder is named by the local
/// time as `%Y-%m-%d_%H-%M-%S`.
pub fn snapshot_plan(full_dest: &str, latest_exists: bool) -> (p: SnapshotPlan)
    ensures
        exists|stamp: Seq<char>|
            crate::clock::is_snapshot_stamp(stamp) && p.snapshot_dir@ == #[trigger] join_relative(full_dest@, stamp),
        p.latest_link@ == join_relative(full_dest@, "latest"@),
        latest_exists ==> (p.link_dest matches Some(l) && l@ == p.latest_link@),
        !latest_exists ==> p.link_dest is None,
{
    let stamp = crate::clock::local_time("%Y-%m-%d_%H-%M-%S");
    let p = snapshot_plan_at(full_dest, stamp.as_str(), latest_exists);
    assert(crate::clock::is_snapshot_stamp(stamp@) && p.snapshot_dir@ == join_relative(full_dest@, stamp@));
    p
}

// ---------------------------------------------------------------- containment

/// `path` is `base` followed by more, and what follows `base` holds no `..`:
/// the path cannot climb back out of `base`.
pub open spec fn stays_under(path: Seq<char>, base: Seq<char>) -> bool {
    &&& crate::text::has_prefix(path, base)
    &&& !crate::text::contains_seq(path.skip(base.len() as int), seq!['.', '.'])
}

/// No two dots in a row.
spec fn no_dot_pair(s: Seq<char>) -> bool {
    forall|k: int| 0 <= k < s.len() - 1 ==> !(#[trigger] s[k] == '.' && s[k + 1] == '.')
}

/// The separator `Path::join` puts after `base` (see `join_relative`).
spec fn join_separator(base: Seq<char>) -> Seq<char> {
    if base.len() == 0 || base.last() == '/' { Seq::empty() } else { seq!['/'] }
}

proof fn lemma_no_dot_pair_concat(a: Seq<char>, b: Seq<char>)
    requires
        no_dot_pair(a),
        no_dot_pair(b),
        !(a.len() > 0 && b.len() > 0 && a.last() == '.' && b[0] == '.'),
    ensures
        no_dot_pair(a + b),
{
    let c = a + b;
    assert forall|k: int| 0 <= k < c.len() - 1 implies !(#[trigger] c[k] == '.' && c[k + 1] == '.') by {
        if k + 1 < a.len() {
            assert(c[k] == a[k] && c[k + 1] == a[k + 1]);
        } else if k >= a.len() {
            assert(c[k] == b[k - a.len()] && c[k + 1] == b[k + 1 - a.len()]);
        } else {
            assert(c[k] == a.last() && c[k + 1] == b[0]);
        }
    }
}

proof fn lemma_no_dot_pair_not_contained(s: Seq<char>)
    requires
        no_dot_pair(s),
    ensures
        !crate::text::contains_seq(s, seq!['.', '.']),
{
    assert forall|i: int| !crate::text::occurs_at(s, seq!['.', '.'], i) by {
        if crate::text::occurs_at(s, seq!['.', '.'], i) {
            assert(s.subrange(i, i + 2)[0] == s[i]);
            assert(s.subrange(i, i + 2)[1] == s[i + 1]);
        }
    }
}

proof fn lemma_join_parts(base: Seq<char>, name: Seq<char>)
    ensures
        join_relative(base, name) == base + join_separator(base) + name,
        crate::text::has_prefix(join_relative(base, name), base),
        join_relative(base, name).skip(base.len() as int) == join_separator(base) + name,
{
    let j = join_relative(base, name);
    assert(j =~= base + join_separator(base) + name);
    assert(j.take(base.len() as int) =~= base);
    assert(j.skip(base.len() as int) =~= join_separator(base) + name);
}

/// A name without `.` and without `/` joined after a separator holds no `..`
/// and starts with no dot.
proof fn lemma_plain_name_after_separator(base: Seq<char>, name: Seq<char>)
    requires
        forall|i: int| 0 <= i < name.len() ==> #[trigger] name[i] != '.',
    ensures
        no_dot_pair(join_separator(base) + name),
        (join_separator(base) + name).len() > 0 ==> (join_separator(base) + name)[0] != '.',
{
    let t = join_separator(base) + name;
    assert forall|k: int| 0 <= k < t.len() - 1 implies !(#[trigger] t[k] == '.' && t[k + 1] == '.') by {
        if join_separator(base).len() == 0 {
            assert(t[k] == name[k]);
        } else if k == 0 {
            assert(t[0] == '/');
        } else {
            assert(t[k] == name[k - 1]);
        }
    }
    if t.len() > 0 {
        if join_separator(base).len() == 0 {
            assert(t[0] == name[0]);
        }
    }
}

/// A snapshot stamp names one folder: it is not empty and holds neither `/`
/// nor `.`, so it is neither `.` nor `..` and cannot reach outside the folder
/// it is joined to.
pub proof fn lemma_stamp_is_one_component(stamp: Seq<char>)
    requires
        crate::clock::is_snapshot_stamp(stamp),
    ensures
        stamp.len() > 0,
        forall|i: int| 0 <= i < stamp.len() ==> #[trigger] stamp[i] != '/' && stamp[i] != '.',
{
    assert forall|i: int| 0 <= i < stamp.len() implies #[trigger] stamp[i] != '/' && stamp[i] != '.' by {
        assert(crate::clock::is_stamp_char(stamp[i]));
    }
}

/// What an incremental rule writes stays in its destination: the snapshot
/// folder named by a stamp and the `latest` link both lie directly in
/// `full_dest`, with no `..` after it.
pub proof fn lemma_snapshot_in_destination(full_dest: Seq<char>, stamp: Seq<char>)
    requires
        crate::clock::is_snapshot_stamp(stamp),
    ensures
        stays_under(join_relative(full_dest, stamp), full_dest),
        stays_under(join_relative(full_dest, "latest"@), full_dest),
{
    lemma_stamp_is_one_component(stamp);
    lemma_join_parts(full_dest, stamp);
    lemma_plain_name_after_separator(full_dest, stamp);
    lemma_no_dot_pair_not_contained(join_separator(full_dest) + stamp);
    reveal_strlit("latest");
    let latest = "latest"@;
    assert forall|i: int| 0 <= i < latest.len() implies #[trigger] latest[i] != '.' by {}
    lemma_join_parts(full_dest, latest);
    lemma_plain_name_after_separator(full_dest, latest);
    lemma_no_dot_pair_not_contained(join_separator(full_dest) + latest);
}

/// Everything a rule writes stays on the device: its destination, as placed
/// under the mount point `root` (leading `/` removed, `..` defused), and the
/// snapshot folder and `latest` link inside it all lie under `root` with no
/// `..` after it.
pub proof fn lemma_rule_writes_under_root(root: Seq<char>, destination: Seq<char>, stamp: Seq<char>)
    requires
        crate::clock::is_snapshot_stamp(stamp),
    ensures
        stays_under(join_relative(root, crate::backup::sanitized(destination)), root),
        stays_under(join_relative(join_relative(root, crate::backup::sanitized(destination)), stamp), root),
        stays_under(join_relative(join_relative(root, crate::backup::sanitized(destination)), "latest"@), root),
{
    let s = crate::backup::sanitized(destination);
    let full = join_relative(root, s);
    crate::backup::lemma_sanitized_is_contained(destination);
    // what follows the root in the destination: a separator, then `s`
    let head = join_separator(root) + s;
    lemma_join_parts(root, s);
    assert(no_dot_pair(s));
    assert(no_dot_pair(join_separator(root)));
    if join_separator(root).len() > 0 && s.len() > 0 {
        assert(join_separator(root).last() == '/');
    }
    lemma_no_dot_pair_concat(join_separator(root), s);
    lemma_no_dot_pair_not_contained(head);
    assert(full.skip(root.len() as int) == head);
    assert(full =~= root + head);

    // a name without dots joined inside the destination
    lemma_stamp_is_one_component(stamp);
    reveal_strlit("latest");
    let latest = "latest"@;
    assert forall|i: int| 0 <= i < latest.len() implies #[trigger] latest[i] != '.' by {}
    lemma_name_in_destination(root, full, head, stamp);
    lemma_name_in_destination(root, full, head, latest);
}

/// `name`, free of dots, joined inside `full` = `root` + `head`, where `head`
/// holds no `..`: the result stays under `root`.
proof fn lemma_name_in_destination(root: Seq<char>, full: Seq<char>, head: Seq<char>, name: Seq<char>)
    requires
        full == root + head,
        no_dot_pair(head),
        forall|i: int| 0 <= i < name.len() ==> #[trigger] name[i] != '.',
    ensures
        stays_under(join_relative(full, name), root),
{
    let tail = join_separator(full) + name;
    lemma_join_parts(full, name);
    lemma_plain_name_after_separator(full, name);
    if head.len() > 0 && tail.len() > 0 {
        assert(tail[0] != '.');
    }
    lemma_no_dot_pair_concat(head, tail);
    lemma_no_dot_pair_not_contained(head + tail);
    let j = join_relative(full, name);
    assert(j =~= root + (head + tail));
    assert(j.take(root.len() as int) =~= root);
    assert(j.skip(root.len() as int) =~= head + tail);
}

} // verus!
