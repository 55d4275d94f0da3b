use spider::manager::{Action, TaskManager};
use spider::errors::CrawlError;
use spider::task::TaskStatus;

fn visited_sorted(manager: &TaskManager) -> Vec<String> {
    let mut urls = manager.visited.urls().clone();
    urls.sort();
    urls
}

#[test]
fn save_then_load_restores_the_same_set() {
    let mut manager = TaskManager::new();
    manager
        .create_task(
            vec!["http://a/".to_string(), "http://b/".to_string()],
            "persisted".to_string(),
            1,
        )
        .unwrap();
    manager.start_run(1);
    loop {
        match manager.next_action() {
            Action::Fetch(_) => manager.on_fetch_failure(),
            Action::Done => break,
        }
    }
    manager.finish();
    let saved = manager.save_state();
    assert_eq!(saved, "http://a/\nhttp://b/\n");

    let mut reloaded = TaskManager::new();
    reloaded.load_state(&saved);
    assert_eq!(visited_sorted(&reloaded), visited_sorted(&manager));
}

#[test]
fn save_of_empty_visited_set_is_empty() {
    let manager = TaskManager::new();
    assert_eq!(manager.save_state(), "");
}

#[test]
fn load_keeps_a_final_unterminated_line() {
    let mut manager = TaskManager::new();
    manager.load_state("http://a/\nhttp://b");
    assert_eq!(visited_sorted(&manager), vec!["http://a/", "http://b"]);
}

#[test]
fn load_deduplicates_repeated_lines() {
    let mut manager = TaskManager::new();
    manager.load_state("http://a/\nhttp://a/\n");
    assert_eq!(visited_sorted(&manager), vec!["http://a/"]);
}

#[test]
fn loaded_urls_are_not_fetched_again() {
    let mut manager = TaskManager::new();
    manager.load_state("http://a/\n");
    manager
        .create_task(
            vec!["http://a/".to_string(), "http://b/".to_string()],
            "resumed".to_string(),
            0,
        )
        .unwrap();
    manager.start_run(1);
    let mut fetched: Vec<String> = Vec::new();
    loop {
        match manager.next_action() {
            Action::Fetch(url) => {
                fetched.push(url);
                manager.on_fetch_failure();
            }
            Action::Done => break,
        }
    }
    manager.finish();
    assert_eq!(fetched, vec!["http://b/"]);
    assert_eq!(manager.task_info.progress, 2);
}

#[test]
fn create_task_rejects_empty_seed_list() {
    let mut manager = TaskManager::new();
    let r = manager.create_task(Vec::new(), "named".to_string(), 1);
    assert_eq!(r, Err(CrawlError::InvalidInput));
    assert!(manager.task_info.status == TaskStatus::Idle);
}

#[test]
fn create_task_rejects_empty_name() {
    let mut manager = TaskManager::new();
    let r = manager.create_task(vec!["http://a/".to_string()], String::new(), 1);
    assert_eq!(r, Err(CrawlError::InvalidInput));
}

#[test]
fn create_task_sets_up_a_fresh_idle_record() {
    let mut manager = TaskManager::new();
    let r = manager.create_task(vec!["http://a/".to_string()], "fresh".to_string(), 4);
    assert!(r.is_ok());
    assert_eq!(manager.task_info.name, "fresh");
    assert_eq!(manager.task_info.deep, 4);
    assert_eq!(manager.task_info.progress, 0);
    assert!(manager.task_info.status == TaskStatus::Idle);
    assert!(manager.task_info.created_at.is_some());
    assert!(manager.task_info.ended_at.is_none());
    assert_eq!(manager.get_task_dir(), "tasks/fresh");
}

#[test]
fn fetch_derives_the_two_child_links() {
    let manager = TaskManager::new();
    let links = manager.fetch("http://a");
    assert_eq!(links, vec!["http://a/link1", "http://a/link2"]);
}
