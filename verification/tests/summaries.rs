use github_sync::config::{Config, OwnerOpts};
use github_sync::github::check_status;
use github_sync::repo::Repo;
use github_sync::summary::{
    failure_for, is_ignored, plan_batch, summarize, RunSummary, SkipReason, SyncFailure,
    SyncOutcome,
};

fn mk_repo(id: u32, owner: &str, name: &str) -> Repo {
    Repo {
        id,
        name: name.to_string(),
        full_name: format!("{}/{}", owner, name),
        clone_url: format!("https://example.invalid/{}/{}.git", owner, name),
        default_branch: "main".to_string(),
    }
}

fn failure(full_name: &str, cause: &str) -> SyncFailure {
    failure_for(full_name, cause)
}

#[test]
fn ignored_repositories_never_reach_the_batch() {
    let repos = vec![
        mk_repo(1, "acme", "repo-a"),
        mk_repo(2, "acme", "noisy"),
        mk_repo(3, "acme", "repo-b"),
    ];
    let ignore = vec!["acme/noisy".to_string()];
    assert!(is_ignored(&repos[1], &ignore));
    assert!(!is_ignored(&repos[0], &ignore));
    let kept = plan_batch(repos, &ignore);
    assert_eq!(kept.len(), 2);
    assert_eq!(kept[0].full_name, "acme/repo-a");
    assert_eq!(kept[1].full_name, "acme/repo-b");
}

#[test]
fn skipped_repositories_do_not_count_as_processed() {
    let mut s = RunSummary::new();
    s.record(SyncOutcome::Skipped(SkipReason::IgnoreListed));
    assert_eq!(s.processed, 0);
    assert_eq!(s.failures.len(), 0);
    s.record(SyncOutcome::Synced);
    assert_eq!(s.processed, 1);
}

#[test]
fn one_failure_does_not_stop_the_others() {
    let outcomes = vec![
        SyncOutcome::Synced,
        SyncOutcome::Failed(failure("acme/broken", "remote hung up")),
        SyncOutcome::Synced,
        SyncOutcome::Skipped(SkipReason::IgnoreListed),
        SyncOutcome::Synced,
    ];
    let s = summarize(outcomes);
    assert_eq!(s.processed, 4);
    assert_eq!(s.failures.len(), 1);
    assert_eq!(s.failures[0].full_name, "acme/broken");
    assert_eq!(s.failures[0].message, "[acme/broken] failed sync - remote hung up");
    assert!(s.has_failures());
}

#[test]
fn merging_worker_summaries_loses_nothing() {
    let mut a = summarize(vec![
        SyncOutcome::Synced,
        SyncOutcome::Failed(failure("acme/one", "x")),
    ]);
    let b = summarize(vec![
        SyncOutcome::Failed(failure("acme/two", "y")),
        SyncOutcome::Synced,
        SyncOutcome::Synced,
    ]);
    a.merge(b);
    assert_eq!(a.processed, 5);
    assert_eq!(a.failures.len(), 2);
    assert_eq!(a.failures[0].full_name, "acme/one");
    assert_eq!(a.failures[1].full_name, "acme/two");
}

#[test]
fn failed_lookup_is_recorded_beside_synced_siblings() {
    // Explicit targets acme/repo-a and acme/repo-b sync; the lookup
    // of acme/missing-repo comes back not-found and fails alone.
    let mut s = RunSummary::new();
    let lookup = check_status(
        "https://api.github.com/repos/acme/missing-repo".to_string(),
        404,
        "Not Found".to_string(),
    );
    let e = lookup.unwrap_err();
    s.add_failure(SyncFailure {
        full_name: "acme/missing-repo".to_string(),
        message: e.message(),
    });
    s.record(SyncOutcome::Synced);
    s.record(SyncOutcome::Synced);
    assert_eq!(s.processed, 2);
    assert_eq!(s.failures.len(), 1);
    assert_eq!(
        s.failures[0].message,
        "https://api.github.com/repos/acme/missing-repo (404) - Not Found"
    );
}

#[test]
fn empty_summary_reports_cleanly() {
    let s = RunSummary::new();
    assert_eq!(s.processed, 0);
    assert!(!s.has_failures());
}

#[test]
fn explicit_targets_flatten_owner_by_owner() {
    let config = Config {
        organizations: None,
        users: None,
        owner: Some(vec![
            (
                "acme".to_string(),
                OwnerOpts {
                    repos: vec!["repo-a".to_string(), "repo-b".to_string()],
                },
            ),
            ("octo".to_string(), OwnerOpts { repos: vec!["tools".to_string()] }),
        ]),
        ignore: None,
        user: None,
        token: None,
    };
    let ts = config.explicit_targets();
    assert_eq!(ts.len(), 3);
    assert_eq!(ts[0], ("acme".to_string(), "repo-a".to_string()));
    assert_eq!(ts[1], ("acme".to_string(), "repo-b".to_string()));
    assert_eq!(ts[2], ("octo".to_string(), "tools".to_string()));
}

#[test]
fn missing_config_sections_mean_empty_lists() {
    let config = Config {
        organizations: None,
        users: None,
        owner: None,
        ignore: None,
        user: None,
        token: None,
    };
    assert!(config.explicit_targets().is_empty());
    assert!(config.ignore_names().is_empty());
    let with_ignore = Config {
        organizations: None,
        users: None,
        owner: None,
        ignore: Some(vec!["acme/noisy".to_string()]),
        user: None,
        token: None,
    };
    assert_eq!(with_ignore.ignore_names(), vec!["acme/noisy".to_string()]);
}
