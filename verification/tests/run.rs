use usbackup::backup::RuleResult;
use usbackup::models::BackupRule;
use usbackup::run::{
    rule_step, snapshot_plan, snapshot_plan_at, MountPoll, PollStep, RuleEvent, RuleStage,
};

fn rule(incremental: bool) -> BackupRule {
    BackupRule {
        source_path: "/s".to_string(),
        destination_path: "d".to_string(),
        exclude: vec![],
        delete_missing: true,
        incremental,
        post_backup_script: None,
        unmount_after: false,
    }
}

#[test]
fn poll_attempts_and_pauses() {
    let mut p = MountPoll::new(3, 2);
    assert_eq!(p.next(false), PollStep::Attempt { pause_first: false, log_snapshot: true });
    assert_eq!(p.next(false), PollStep::Attempt { pause_first: true, log_snapshot: false });
    assert_eq!(p.next(false), PollStep::Attempt { pause_first: true, log_snapshot: true });
    assert_eq!(p.next(false), PollStep::Finished);
    assert_eq!(p.attempt, 3);
}

#[test]
fn poll_stops_when_found() {
    let mut p = MountPoll::new(30, 0);
    assert_eq!(p.next(false), PollStep::Attempt { pause_first: false, log_snapshot: false });
    assert_eq!(p.next(true), PollStep::Finished);
    assert_eq!(p.attempt, 1);
}

#[test]
fn plain_rule_stages() {
    let r = rule(false);
    let s = rule_step(&r, RuleStage::CheckSource, RuleEvent::Done);
    assert_eq!(s, RuleStage::CreateDestination);
    let s = rule_step(&r, s, RuleEvent::Done);
    assert_eq!(s, RuleStage::RunRsync);
    let s = rule_step(&r, s, RuleEvent::Exited { success: true, code: Some(0) });
    assert_eq!(s, RuleStage::Finished(RuleResult::Succeeded));
}

#[test]
fn incremental_rule_makes_snapshot() {
    let r = rule(true);
    assert_eq!(rule_step(&r, RuleStage::CreateDestination, RuleEvent::Done), RuleStage::CreateSnapshot);
    assert_eq!(rule_step(&r, RuleStage::CreateSnapshot, RuleEvent::Done), RuleStage::RunRsync);
    assert_eq!(
        rule_step(&r, RuleStage::CreateSnapshot, RuleEvent::Failed),
        RuleStage::Finished(RuleResult::SnapshotFailed)
    );
}

#[test]
fn failures_end_the_rule() {
    let r = rule(false);
    assert_eq!(rule_step(&r, RuleStage::CheckSource, RuleEvent::Failed), RuleStage::Finished(RuleResult::SourceMissing));
    assert_eq!(rule_step(&r, RuleStage::CreateDestination, RuleEvent::Failed), RuleStage::Finished(RuleResult::DestinationFailed));
    assert_eq!(rule_step(&r, RuleStage::RunRsync, RuleEvent::SpawnFailed), RuleStage::Finished(RuleResult::SpawnFailed));
    assert_eq!(rule_step(&r, RuleStage::RunRsync, RuleEvent::WaitFailed), RuleStage::Finished(RuleResult::WaitFailed));
    assert_eq!(
        rule_step(&r, RuleStage::RunRsync, RuleEvent::Exited { success: false, code: Some(23) }),
        RuleStage::Finished(RuleResult::RsyncFailed(23))
    );
    assert_eq!(
        rule_step(&r, RuleStage::RunRsync, RuleEvent::Exited { success: false, code: None }),
        RuleStage::Finished(RuleResult::RsyncFailed(-1))
    );
    let done = RuleStage::Finished(RuleResult::Succeeded);
    assert_eq!(rule_step(&r, done, RuleEvent::Failed), done);
}

#[test]
fn snapshot_paths() {
    let p = snapshot_plan_at("/media/k/d", "2024-01-02_03-04-05", true);
    assert_eq!(p.snapshot_dir, "/media/k/d/2024-01-02_03-04-05");
    assert_eq!(p.latest_link, "/media/k/d/latest");
    assert_eq!(p.link_dest, Some("/media/k/d/latest".to_string()));
    let q = snapshot_plan_at("/media/k/d/", "x", false);
    assert_eq!(q.snapshot_dir, "/media/k/d/x");
    assert_eq!(q.link_dest, None);
    let now = snapshot_plan("/m", false);
    assert!(now.snapshot_dir.starts_with("/m/"));
    assert_eq!(now.snapshot_dir.len(), "/m/2024-01-02_03-04-05".len());
}

#[test]
fn rule_paths_stay_on_the_device() {
    let root = "/media/k";
    let full = usbackup::backup::join_name(root, &usbackup::backup::sanitize_destination("/../../etc"));
    assert_eq!(full, "/media/k/__/__/etc");
    let plan = snapshot_plan(&full, true);
    for p in [&full, &plan.snapshot_dir, &plan.latest_link] {
        assert!(p.starts_with("/media/k/"));
        assert!(!p["/media/k".len()..].contains(".."));
    }
    let stamp = &plan.snapshot_dir[full.len() + 1..];
    assert!(stamp.len() >= 19);
    assert!(stamp.chars().all(|c| c.is_ascii_digit() || c == '-' || c == '_' || c == '+'));
    assert_eq!(plan.link_dest, Some("/media/k/__/__/etc/latest".to_string()));
}
