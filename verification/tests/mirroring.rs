use github_sync::mirror::{mirror_step, MirrorEvent, MirrorPhase, MirrorStatus, VcsError};
use github_sync::repo::Repo;
use github_sync::summary::{outcome_for, SyncOutcome};

fn mk_repo(owner: &str, name: &str) -> Repo {
    Repo {
        id: 1,
        name: name.to_string(),
        full_name: format!("{}/{}", owner, name),
        clone_url: format!("https://example.invalid/{}/{}.git", owner, name),
        default_branch: "main".to_string(),
    }
}

fn vcs_err(not_found: bool, message: &str) -> VcsError {
    VcsError { not_found, message: message.to_string() }
}

#[test]
fn absent_path_is_cloned() {
    let p = mirror_step(MirrorPhase::Probing, MirrorEvent::PathChecked(false));
    assert!(matches!(p, MirrorPhase::Cloning));
    let p = mirror_step(p, MirrorEvent::CloneFinished(Ok(())));
    assert!(matches!(p, MirrorPhase::Done(MirrorStatus::Cloned)));
}

#[test]
fn missing_branch_on_clone_is_a_benign_no_op() {
    let p = mirror_step(MirrorPhase::Probing, MirrorEvent::PathChecked(false));
    let p = mirror_step(
        p,
        MirrorEvent::CloneFinished(Err(vcs_err(true, "reference not found"))),
    );
    assert!(matches!(p, MirrorPhase::Done(MirrorStatus::EmptyRemote)));
    let o = outcome_for(&mk_repo("acme", "empty-repo"), p);
    assert!(matches!(o, SyncOutcome::Synced));
}

#[test]
fn other_clone_errors_fail_the_repository() {
    let p = mirror_step(MirrorPhase::Probing, MirrorEvent::PathChecked(false));
    let p = mirror_step(p, MirrorEvent::CloneFinished(Err(vcs_err(false, "permission denied"))));
    match &p {
        MirrorPhase::Failed(m) => assert_eq!(m, "permission denied"),
        _ => panic!("a clone error that is not a missing reference must fail"),
    }
    let o = outcome_for(&mk_repo("acme", "locked"), p);
    match o {
        SyncOutcome::Failed(f) => {
            assert_eq!(f.full_name, "acme/locked");
            assert_eq!(f.message, "[acme/locked] failed sync - permission denied");
        },
        _ => panic!("the outcome must carry the tagged failure"),
    }
}

#[test]
fn second_sync_of_the_same_path_updates_in_place() {
    // First run: the path is absent, the clone succeeds.
    let p = mirror_step(MirrorPhase::Probing, MirrorEvent::PathChecked(false));
    let p = mirror_step(p, MirrorEvent::CloneFinished(Ok(())));
    assert!(matches!(p, MirrorPhase::Done(MirrorStatus::Cloned)));

    // Second run: the path is present now; no clone is asked for.
    let p = mirror_step(MirrorPhase::Probing, MirrorEvent::PathChecked(true));
    assert!(matches!(p, MirrorPhase::Fetching));
    let p = mirror_step(p, MirrorEvent::FetchFinished(Ok(true)));
    assert!(matches!(p, MirrorPhase::Resetting));
    let p = mirror_step(p, MirrorEvent::ResetFinished(Ok(())));
    assert!(matches!(p, MirrorPhase::Done(MirrorStatus::Updated)));
}

#[test]
fn fetch_without_resolvable_ref_completes_without_reset() {
    let p = mirror_step(MirrorPhase::Probing, MirrorEvent::PathChecked(true));
    let p = mirror_step(p, MirrorEvent::FetchFinished(Ok(false)));
    assert!(matches!(p, MirrorPhase::Done(MirrorStatus::FetchedNoRef)));
    let o = outcome_for(&mk_repo("acme", "stale"), p);
    assert!(matches!(o, SyncOutcome::Synced));
}

#[test]
fn fetch_errors_fail_the_repository() {
    let p = mirror_step(MirrorPhase::Probing, MirrorEvent::PathChecked(true));
    let p = mirror_step(p, MirrorEvent::FetchFinished(Err(vcs_err(false, "remote hung up"))));
    assert!(matches!(p, MirrorPhase::Failed(_)));
}

#[test]
fn reset_errors_fail_the_repository() {
    let p = mirror_step(MirrorPhase::Probing, MirrorEvent::PathChecked(true));
    let p = mirror_step(p, MirrorEvent::FetchFinished(Ok(true)));
    let p = mirror_step(p, MirrorEvent::ResetFinished(Err(vcs_err(false, "index locked"))));
    match p {
        MirrorPhase::Failed(m) => assert_eq!(m, "index locked"),
        _ => panic!("a reset error must fail the repository"),
    }
}

#[test]
fn terminal_phases_absorb_stray_events() {
    let done = mirror_step(
        mirror_step(MirrorPhase::Probing, MirrorEvent::PathChecked(false)),
        MirrorEvent::CloneFinished(Ok(())),
    );
    let after = mirror_step(done, MirrorEvent::PathChecked(true));
    assert!(matches!(after, MirrorPhase::Done(MirrorStatus::Cloned)));
}
