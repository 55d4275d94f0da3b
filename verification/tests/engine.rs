use spider::manager::{Action, TaskManager};
use spider::task::TaskStatus;

/// Drive a run to completion: every fetched URL gets `body` back, except
/// those listed in `fail`, whose fetch fails.  Returns the URLs that were
/// fetched, in order.
fn drive(manager: &mut TaskManager, body: &str, fail: &[&str]) -> Vec<String> {
    let mut fetched: Vec<String> = Vec::new();
    loop {
        match manager.next_action() {
            Action::Fetch(url) => {
                fetched.push(url.clone());
                if fail.iter().any(|f| *f == url.as_str()) {
                    manager.on_fetch_failure();
                } else {
                    manager.on_fetch_success(body);
                }
            }
            Action::Done => break,
        }
    }
    manager.finish();
    fetched
}

fn new_task(seeds: &[&str], deep: u32) -> TaskManager {
    let mut manager = TaskManager::new();
    let seed_vec: Vec<String> = seeds.iter().map(|s| s.to_string()).collect();
    manager
        .create_task(seed_vec, "trial".to_string(), deep)
        .unwrap();
    manager
}

#[test]
fn single_seed_depth_one_fetches_seed_and_links() {
    let mut manager = new_task(&["http://a/"], 1);
    manager.start_run(1);
    let body = r#"<a href="http://a/x">x</a><a href="http://a/y">y</a>"#;
    let fetched = drive(&mut manager, body, &[]);
    assert_eq!(
        fetched,
        vec!["http://a/", "http://a/x", "http://a/y"]
    );
    assert_eq!(manager.task_info.progress, 1);
    assert!(manager.task_info.status == TaskStatus::Finished);
    assert!(manager.task_info.ended_at.is_some());
}

#[test]
fn duplicate_seed_fetched_once() {
    let mut manager = new_task(&["http://a/", "http://a/"], 1);
    manager.start_run(2);
    let fetched = drive(&mut manager, "no links here", &[]);
    assert_eq!(fetched, vec!["http://a/"]);
    assert_eq!(manager.task_info.progress, 2);
    assert!(manager.task_info.status == TaskStatus::Finished);
}

#[test]
fn depth_zero_fetches_seed_only() {
    let mut manager = new_task(&["http://a/"], 0);
    manager.start_run(1);
    let body = r#"<a href="http://a/x">x</a><a href="http://a/y">y</a>"#;
    let fetched = drive(&mut manager, body, &[]);
    assert_eq!(fetched, vec!["http://a/"]);
    assert_eq!(manager.task_info.progress, 1);
    assert!(manager.task_info.status == TaskStatus::Finished);
}

#[test]
fn failed_seed_fetch_still_finishes() {
    let mut manager = new_task(&["http://a/"], 3);
    manager.start_run(1);
    let fetched = drive(&mut manager, "", &["http://a/"]);
    assert_eq!(fetched, vec!["http://a/"]);
    assert_eq!(manager.task_info.progress, 1);
    assert!(manager.task_info.status == TaskStatus::Finished);
}

#[test]
fn self_link_not_fetched_twice() {
    let mut manager = new_task(&["http://a/"], 5);
    manager.start_run(1);
    let body = r#"<a href="http://a/">home</a>"#;
    let fetched = drive(&mut manager, body, &[]);
    assert_eq!(fetched, vec!["http://a/"]);
}

#[test]
fn repeated_link_fetched_once() {
    let mut manager = new_task(&["http://a/"], 1);
    manager.start_run(1);
    let body = r#"<a href="http://a/x">x</a><a href="http://a/x">x again</a>"#;
    let fetched = drive(&mut manager, body, &[]);
    assert_eq!(fetched, vec!["http://a/", "http://a/x"]);
}

#[test]
fn relative_links_resolve_against_page_url() {
    let mut manager = new_task(&["http://a/dir/"], 1);
    manager.start_run(1);
    let body = r#"<a href="leaf.html">leaf</a>"#;
    let fetched = drive(&mut manager, body, &[]);
    assert_eq!(fetched, vec!["http://a/dir/", "http://a/dir/leaf.html"]);
}

#[test]
fn unresolvable_link_skipped_siblings_kept() {
    let mut manager = new_task(&["http://a/"], 1);
    manager.start_run(1);
    // A scheme-only href does not resolve; its sibling still does.
    let body = r#"<a href="http://[bad">broken</a><a href="http://a/ok">ok</a>"#;
    let fetched = drive(&mut manager, body, &[]);
    assert_eq!(fetched, vec!["http://a/", "http://a/ok"]);
}

#[test]
fn depth_two_follows_exactly_two_hops() {
    let mut manager = new_task(&["http://a/"], 2);
    manager.start_run(1);
    // Every page links to `n/` relative to itself, so each fetch discovers
    // one page a hop deeper.
    let body = r#"<a href="n/">deeper</a>"#;
    let fetched = drive(&mut manager, body, &[]);
    assert_eq!(
        fetched,
        vec!["http://a/", "http://a/n/", "http://a/n/n/"]
    );
    assert!(manager.task_info.status == TaskStatus::Finished);
}

#[test]
fn crawl_is_depth_first() {
    let mut manager = new_task(&["http://a/"], 2);
    manager.start_run(1);
    let mut fetched: Vec<String> = Vec::new();
    loop {
        match manager.next_action() {
            Action::Fetch(url) => {
                let body = match url.as_str() {
                    "http://a/" => r#"<a href="http://a/x">x</a><a href="http://a/y">y</a>"#,
                    "http://a/x" => r#"<a href="http://a/x2">x2</a>"#,
                    _ => "",
                };
                fetched.push(url);
                manager.on_fetch_success(body);
            }
            Action::Done => break,
        }
    }
    manager.finish();
    // The subtree under x is exhausted before y is fetched.
    assert_eq!(
        fetched,
        vec!["http://a/", "http://a/x", "http://a/x2", "http://a/y"]
    );
}

#[test]
fn cancellation_stops_before_remaining_seeds() {
    let mut manager = new_task(&["http://a/", "http://b/"], 1);
    manager.start_run(1);
    let mut fetched: Vec<String> = Vec::new();
    match manager.next_action() {
        Action::Fetch(url) => {
            fetched.push(url);
            manager.on_fetch_success("no links");
        }
        Action::Done => panic!("expected a fetch"),
    }
    manager.observe_cancellation();
    match manager.next_action() {
        Action::Fetch(url) => panic!("fetched {} after cancellation", url),
        Action::Done => {}
    }
    manager.finish();
    assert_eq!(fetched, vec!["http://a/"]);
    assert!(manager.task_info.progress < 2);
    assert!(manager.task_info.status == TaskStatus::Stopped);
    assert!(manager.task_info.ended_at.is_some());
}

#[test]
fn cancellation_before_any_fetch_stops_immediately() {
    let mut manager = new_task(&["http://a/", "http://b/"], 1);
    manager.start_run(2);
    manager.observe_cancellation();
    let fetched = drive(&mut manager, "", &[]);
    assert!(fetched.is_empty());
    assert_eq!(manager.task_info.progress, 0);
    assert!(manager.task_info.status == TaskStatus::Stopped);
}

#[test]
fn cancellation_after_all_seeds_completed_still_finishes() {
    let mut manager = new_task(&["http://a/"], 0);
    manager.start_run(1);
    match manager.next_action() {
        Action::Fetch(_) => manager.on_fetch_success("done"),
        Action::Done => panic!("expected a fetch"),
    };
    manager.observe_cancellation();
    match manager.next_action() {
        Action::Fetch(_) => panic!("no further fetch expected"),
        Action::Done => {}
    }
    manager.finish();
    assert_eq!(manager.task_info.progress, 1);
    assert!(manager.task_info.status == TaskStatus::Finished);
}

#[test]
fn progress_never_decreases_over_a_run() {
    let mut manager = new_task(&["http://a/", "http://b/", "http://c/"], 1);
    manager.start_run(2);
    let body = r#"<a href="sub">s</a>"#;
    let mut last = manager.task_info.progress;
    loop {
        match manager.next_action() {
            Action::Fetch(_) => {
                manager.on_fetch_success(body);
            }
            Action::Done => break,
        }
        assert!(manager.task_info.progress >= last);
        last = manager.task_info.progress;
    }
    manager.finish();
    assert!(manager.task_info.progress >= last);
    assert_eq!(manager.task_info.progress, 3);
    assert!(manager.task_info.status == TaskStatus::Finished);
}

#[test]
fn partition_is_contiguous_with_rounded_up_chunks() {
    let mut manager = new_task(&["u1", "u2", "u3", "u4", "u5"], 0);
    manager.start_run(2);
    assert_eq!(manager.workers.len(), 2);
    assert_eq!(manager.workers[0].queue, vec!["u1", "u2", "u3"]);
    assert_eq!(manager.workers[1].queue, vec!["u4", "u5"]);
}

#[test]
fn more_workers_than_seeds_gives_single_seed_chunks() {
    let mut manager = new_task(&["u1", "u2"], 0);
    manager.start_run(8);
    assert_eq!(manager.workers.len(), 2);
    assert_eq!(manager.workers[0].queue, vec!["u1"]);
    assert_eq!(manager.workers[1].queue, vec!["u2"]);
}
