use github_sync::github::Github;
use github_sync::pagination::{GithubRepos, PullStep};
use github_sync::repo::{Repo, RepoType};

fn mk_repo(id: u32, owner: &str, name: &str) -> Repo {
    Repo {
        id,
        name: name.to_string(),
        full_name: format!("{}/{}", owner, name),
        clone_url: format!("https://example.invalid/{}/{}.git", owner, name),
        default_branch: "main".to_string(),
    }
}

fn listing_of(owner: &str, total: u32) -> Vec<Repo> {
    let mut v = Vec::new();
    let mut i: u32 = 0;
    while i < total {
        v.push(mk_repo(i, owner, &format!("repo-{}", i)));
        i += 1;
    }
    v
}

fn header_with_last(page: u32, last: u32) -> String {
    format!(
        "<https://api.github.com/organizations/9/repos?type=public&per_page=100&page={}>; rel=\"next\", <https://api.github.com/organizations/9/repos?type=public&per_page=100&page={}>; rel=\"last\"",
        page, last
    )
}

fn header_without_last() -> String {
    "<https://api.github.com/organizations/9/repos?type=public&per_page=100&page=1>; rel=\"prev\", <https://api.github.com/organizations/9/repos?type=public&per_page=100&page=1>; rel=\"first\"".to_string()
}

/// Drains a cursor against a synthetic listing served at 100 items
/// per page, returning the yielded descriptors and the number of
/// page requests made.
fn drain(src: &mut GithubRepos, all: &[Repo], links: &[Option<String>]) -> (Vec<Repo>, u32) {
    let mut got: Vec<Repo> = Vec::new();
    let mut fetches: u32 = 0;
    loop {
        match src.pull() {
            PullStep::Item(r) => got.push(r),
            PullStep::NeedPage(n) => {
                fetches += 1;
                let lo = ((n - 1) as usize) * 100;
                let hi = (n as usize * 100).min(all.len());
                assert!(lo <= hi, "page {} requested beyond the listing", n);
                let items: Vec<Repo> = all[lo..hi].to_vec();
                let link = links[(n - 1) as usize].clone();
                src.apply_page(items, link.as_deref()).unwrap();
            },
            PullStep::Exhausted => break,
        }
    }
    (got, fetches)
}

#[test]
fn listing_of_150_takes_two_pages() {
    let all = listing_of("acme", 150);
    let links = vec![Some(header_with_last(2, 2)), Some(header_without_last())];
    let mut src = GithubRepos::new("acme", RepoType::Org);
    let (got, fetches) = drain(&mut src, &all, &links);
    assert_eq!(fetches, 2);
    assert_eq!(got.len(), 150);
    for (i, r) in got.iter().enumerate() {
        assert_eq!(r.id, i as u32);
        assert_eq!(r.full_name, format!("acme/repo-{}", i));
    }
}

#[test]
fn listing_of_one_full_page_takes_one_request() {
    let all = listing_of("acme", 100);
    let links = vec![None];
    let mut src = GithubRepos::new("acme", RepoType::Org);
    let (got, fetches) = drain(&mut src, &all, &links);
    assert_eq!(fetches, 1);
    assert_eq!(got.len(), 100);
}

#[test]
fn empty_listing_takes_one_request() {
    let all = listing_of("acme", 0);
    let links = vec![None];
    let mut src = GithubRepos::new("acme", RepoType::Org);
    let (got, fetches) = drain(&mut src, &all, &links);
    assert_eq!(fetches, 1);
    assert_eq!(got.len(), 0);
}

#[test]
fn listing_of_350_takes_four_pages_without_duplicates() {
    let all = listing_of("acme", 350);
    let links = vec![
        Some(header_with_last(2, 4)),
        Some(header_with_last(3, 4)),
        Some(header_with_last(4, 4)),
        Some(header_without_last()),
    ];
    let mut src = GithubRepos::new("acme", RepoType::Org);
    let (got, fetches) = drain(&mut src, &all, &links);
    assert_eq!(fetches, 4);
    assert_eq!(got.len(), 350);
    for (i, r) in got.iter().enumerate() {
        assert_eq!(r.id, i as u32, "descriptor {} duplicated or dropped", i);
    }
}

#[test]
fn failed_cursor_yields_nothing_further() {
    let mut src = GithubRepos::new("acme", RepoType::Org);
    match src.pull() {
        PullStep::NeedPage(n) => assert_eq!(n, 1),
        _ => panic!("a fresh cursor must ask for page 1"),
    }
    src.mark_failed();
    assert!(matches!(src.pull(), PullStep::Exhausted));
    assert!(matches!(src.pull(), PullStep::Exhausted));
}

#[test]
fn malformed_link_header_is_terminal() {
    let mut src = GithubRepos::new("acme", RepoType::Org);
    assert!(matches!(src.pull(), PullStep::NeedPage(1)));
    let bad = "<https://api.github.com/x?page=99999999999>; rel=\"last\"".to_string();
    let r = src.apply_page(Vec::new(), Some(bad.as_str()));
    assert!(r.is_err());
    assert!(matches!(src.pull(), PullStep::Exhausted));
}

#[test]
fn cursor_requests_the_listing_url() {
    let src = GithubRepos::new("acme", RepoType::Org);
    assert_eq!(
        src.page_request(1),
        "https://api.github.com/orgs/acme/repos?type=public&per_page=100&page=1"
    );
    let gh = Github::new(None, None);
    let user_src = gh.get_repos("octo", RepoType::User);
    assert_eq!(
        user_src.page_request(3),
        "https://api.github.com/users/octo/repos?type=public&per_page=100&page=3"
    );
}
