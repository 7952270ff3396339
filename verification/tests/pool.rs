use aaoffline::download::{AssetDownload, JsonReference};
use aaoffline::pool::{
    download_assets, warn_failed, DownloadFailed, DownloadPool, FailurePolicy, PoolAction,
};
use std::collections::VecDeque;

fn request(n: usize) -> AssetDownload {
    AssetDownload::new(
        format!("https://example.com/{n}.png"),
        JsonReference::for_case(1, format!("/evidence/{n}/icon")),
        "Case".to_string(),
        "out".to_string(),
    )
}

fn requests(count: usize) -> Vec<AssetDownload> {
    (1..=count).map(request).collect()
}

struct Ran {
    successes: usize,
    started: Vec<String>,
    most_at_once: usize,
    result: Result<(Vec<String>, usize), DownloadFailed>,
}

/// Runs the pool to its end. Downloads end in the order in which they were started, and
/// the one for `failing` fails.
fn run(count: usize, limit: usize, policy: FailurePolicy, failing: &str) -> Ran {
    let mut pool = DownloadPool::new(requests(count), limit, policy);
    let mut under_way: VecDeque<AssetDownload> = VecDeque::new();
    let mut ran = Ran { successes: 0, started: Vec::new(), most_at_once: 0, result: Err(DownloadFailed) };
    loop {
        match pool.next() {
            PoolAction::Start(asset) => {
                ran.started.push(asset.url().to_string());
                under_way.push_back(asset);
                ran.most_at_once = ran.most_at_once.max(under_way.len());
            }
            PoolAction::Wait => {
                let asset = under_way.pop_front().expect("a download is under way");
                if asset.url() == failing {
                    pool.completed(None);
                } else {
                    ran.successes += 1;
                    pool.completed(Some(asset));
                }
            }
            PoolAction::Finish => break,
        }
    }
    assert!(under_way.is_empty());
    ran.result = pool
        .finish()
        .map(|d| (d.assets.iter().map(|a| a.url().to_string()).collect(), d.failed));
    ran
}

#[test]
fn continue_policy_yields_the_other_nine_and_a_warning() {
    let ran = run(10, 3, FailurePolicy::Continue, "https://example.com/5.png");
    assert_eq!(ran.successes, 9);
    assert_eq!(ran.started.len(), 10);
    let (assets, failed) = ran.result.unwrap();
    assert_eq!(assets.len(), 9);
    assert!(!assets.contains(&"https://example.com/5.png".to_string()));
    assert_eq!(failed, 1);
    assert_eq!(warn_failed(failed), "1 asset download failed, continuing anyway.");
}

#[test]
fn abort_policy_yields_fewer_than_nine_and_fails() {
    let ran = run(10, 1, FailurePolicy::Abort, "https://example.com/5.png");
    assert_eq!(ran.successes, 4);
    assert!(ran.successes < 9);
    assert_eq!(ran.started.len(), 5);
    assert_eq!(ran.result, Err(DownloadFailed));
}

#[test]
fn abort_policy_lets_downloads_under_way_end() {
    let ran = run(10, 3, FailurePolicy::Abort, "https://example.com/5.png");
    // The two that were under way beside the fifth may end; the other three never start.
    assert_eq!(ran.started.len(), 7);
    assert_eq!(ran.successes, 6);
    assert!(ran.successes < 9);
    assert_eq!(ran.result, Err(DownloadFailed));
}

#[test]
fn no_more_downloads_are_under_way_than_the_limit_allows() {
    for limit in 1..=12 {
        let ran = run(10, limit, FailurePolicy::Continue, "");
        assert_eq!(ran.most_at_once, limit.min(10));
        assert_eq!(ran.successes, 10);
        let (assets, failed) = ran.result.unwrap();
        assert_eq!(assets.len(), 10);
        assert_eq!(failed, 0);
    }
}

#[test]
fn requests_are_started_in_their_order() {
    let ran = run(4, 2, FailurePolicy::Abort, "");
    assert_eq!(
        ran.started,
        vec![
            "https://example.com/1.png",
            "https://example.com/2.png",
            "https://example.com/3.png",
            "https://example.com/4.png",
        ]
    );
    assert_eq!(ran.result.map(|r| r.1), Ok(0));
}

#[test]
fn pool_without_requests_is_over_at_once() {
    let mut pool = DownloadPool::new(Vec::new(), 4, FailurePolicy::Abort);
    assert!(matches!(pool.next(), PoolAction::Finish));
    let done = pool.finish().unwrap();
    assert!(done.assets.is_empty());
    assert_eq!(done.failed, 0);
}

#[test]
fn stage_is_judged_by_what_was_downloaded() {
    let all = download_assets(3, requests(3), FailurePolicy::Abort).unwrap();
    assert_eq!((all.assets.len(), all.failed), (3, 0));
    let some = download_assets(3, requests(1), FailurePolicy::Continue).unwrap();
    assert_eq!((some.assets.len(), some.failed), (1, 2));
    assert_eq!(download_assets(3, requests(2), FailurePolicy::Abort).err(), Some(DownloadFailed));
    let none = download_assets(0, Vec::new(), FailurePolicy::Abort).unwrap();
    assert_eq!((none.assets.len(), none.failed), (0, 0));
}

#[test]
fn warning_counts_the_failures() {
    assert_eq!(warn_failed(1), "1 asset download failed, continuing anyway.");
    assert_eq!(warn_failed(2), "2 asset downloads failed, continuing anyway.");
    assert_eq!(warn_failed(0), "0 asset downloads failed, continuing anyway.");
}
