use gallery_crawl::download::{
    Destination, DownloadError, Outcome, TaskAction, TaskEvent, TaskState,
};
use gallery_crawl::resolve::ResolveError;
use gallery_crawl::schedule::{download_gallery, Downloads, PermitPool};

fn dest() -> Destination {
    Destination { root: "out".to_string(), title: "T".to_string() }
}

fn start(limit: usize, count: usize) -> Downloads {
    Downloads::new(PermitPool::new(limit), dest(), count)
}

fn resolved(index: usize) -> TaskEvent {
    TaskEvent::Resolved(Ok(format!("https://example.org/h/{}.jpg", index)))
}

fn path(index: usize) -> String {
    format!("out/T/{}.jpg", index)
}

fn states(downloads: &Downloads) -> Vec<TaskState> {
    let mut all = Vec::new();
    let mut i = 0;
    while let Some(state) = downloads.state(i) {
        all.push(state);
        i += 1;
    }
    all
}

/// Performs `action` as a caller would for whom every request succeeds and
/// no file exists yet: the event to report next, if the task is not over.
fn perform(index: usize, action: &TaskAction) -> Option<TaskEvent> {
    match action {
        TaskAction::Resolve => Some(resolved(index)),
        TaskAction::Stat { .. } => Some(TaskEvent::Existing(false)),
        TaskAction::Fetch { .. } => Some(TaskEvent::Fetched { status: 200 }),
        TaskAction::Write { .. } => Some(TaskEvent::Written),
        TaskAction::Launch => Some(TaskEvent::Launched),
        TaskAction::Idle | TaskAction::Finish(_) => None,
    }
}

#[test]
fn pool_counts_its_permits() {
    let mut pool = PermitPool::new(2);
    assert_eq!((pool.size(), pool.in_use()), (2, 0));
    assert!(pool.try_acquire());
    assert!(pool.try_acquire());
    assert!(!pool.try_acquire());
    assert_eq!(pool.in_use(), 2);
    pool.release();
    assert_eq!(pool.in_use(), 1);
    assert!(pool.try_acquire());
    pool.release();
    pool.release();
    pool.release();
    assert_eq!(pool.in_use(), 0);
}

#[test]
fn pool_without_permits_grants_none() {
    let mut pool = PermitPool::new(0);
    assert!(!pool.try_acquire());
    assert_eq!(pool.in_use(), 0);
}

#[test]
fn new_downloads_are_all_pending() {
    let downloads = start(2, 3);
    assert_eq!(downloads.len(), 3);
    assert_eq!(states(&downloads), vec![TaskState::Pending; 3]);
    assert_eq!(downloads.in_flight(), 0);
    assert!(!downloads.is_finished());
    assert_eq!(downloads.state(3), None);
    assert!(start(2, 0).is_finished());
}

#[test]
fn first_step_launches_as_many_as_there_are_permits() {
    let (downloads, todo) = download_gallery(start(2, 5), None);
    assert_eq!(todo, vec![(0, TaskAction::Resolve), (1, TaskAction::Resolve)]);
    assert_eq!(
        states(&downloads),
        vec![
            TaskState::Resolving,
            TaskState::Resolving,
            TaskState::Pending,
            TaskState::Pending,
            TaskState::Pending
        ]
    );
    assert_eq!(downloads.in_flight(), 2);
    let (downloads, todo) = download_gallery(downloads, None);
    assert!(todo.is_empty());
    assert_eq!(downloads.in_flight(), 2);
}

#[test]
fn small_gallery_leaves_permits_unused() {
    let (downloads, todo) = download_gallery(start(8, 2), None);
    assert_eq!(todo, vec![(0, TaskAction::Resolve), (1, TaskAction::Resolve)]);
    assert_eq!(downloads.in_flight(), 2);
    assert_eq!(downloads.into_pool().in_use(), 2);
}

#[test]
fn finished_task_hands_its_permit_to_the_next() {
    let (downloads, _) = download_gallery(start(1, 3), None);
    let (downloads, todo) = download_gallery(downloads, Some((0, resolved(0))));
    assert_eq!(todo, vec![(0, TaskAction::Stat { path: path(0) })]);
    let (downloads, todo) = download_gallery(downloads, Some((0, TaskEvent::Existing(true))));
    assert_eq!(
        todo,
        vec![(0, TaskAction::Finish(Outcome::Skipped)), (1, TaskAction::Resolve)]
    );
    assert_eq!(
        states(&downloads),
        vec![TaskState::Done, TaskState::Resolving, TaskState::Pending]
    );
    assert_eq!(downloads.in_flight(), 1);
}

#[test]
fn failure_of_one_image_does_not_stop_the_others() {
    let (downloads, _) = download_gallery(start(2, 3), None);
    let failure = TaskEvent::Resolved(Err(ResolveError::ImageNotFound));
    let (downloads, todo) = download_gallery(downloads, Some((0, failure)));
    assert_eq!(
        todo,
        vec![
            (
                0,
                TaskAction::Finish(Outcome::Failed(DownloadError::Unresolved(
                    ResolveError::ImageNotFound
                )))
            ),
            (2, TaskAction::Resolve)
        ]
    );
    assert_eq!(
        states(&downloads),
        vec![TaskState::Failed, TaskState::Resolving, TaskState::Resolving]
    );
    let (downloads, todo) = download_gallery(downloads, Some((1, resolved(1))));
    assert_eq!(todo, vec![(1, TaskAction::Stat { path: path(1) })]);
    assert_eq!(downloads.in_flight(), 2);
}

#[test]
fn unfetched_image_page_fails_one_image_and_the_gallery_goes_on() {
    let (downloads, _) = download_gallery(start(1, 2), None);
    let failure = TaskEvent::Resolved(Err(ResolveError::FetchFailed));
    let (downloads, todo) = download_gallery(downloads, Some((0, failure)));
    assert_eq!(
        todo,
        vec![
            (
                0,
                TaskAction::Finish(Outcome::Failed(DownloadError::Unresolved(
                    ResolveError::FetchFailed
                )))
            ),
            (1, TaskAction::Resolve)
        ]
    );
    assert_eq!(states(&downloads), vec![TaskState::Failed, TaskState::Resolving]);
    assert_eq!(downloads.in_flight(), 1);
}

#[test]
fn existing_image_is_skipped_while_the_others_are_fetched() {
    let (mut downloads, mut todo) = download_gallery(start(2, 5), None);
    let mut requested = Vec::new();
    let mut written = Vec::new();
    let mut outcomes = vec![None; 5];
    while let Some((index, action)) = todo.pop() {
        let event = match &action {
            TaskAction::Stat { path: p } => {
                assert_eq!(*p, path(index));
                Some(TaskEvent::Existing(index == 3))
            },
            TaskAction::Fetch { url, path: p } => {
                assert_eq!(*p, path(index));
                requested.push(url.clone());
                Some(TaskEvent::Fetched { status: 200 })
            },
            TaskAction::Write { path: p } => {
                written.push(p.clone());
                Some(TaskEvent::Written)
            },
            TaskAction::Finish(outcome) => {
                outcomes[index] = Some(*outcome);
                None
            },
            other => perform(index, other),
        };
        if let Some(event) = event {
            let (next, more) = download_gallery(downloads, Some((index, event)));
            downloads = next;
            todo.extend(more);
        }
        assert!(downloads.in_flight() <= 2);
    }
    assert!(downloads.is_finished());
    requested.sort();
    written.sort();
    assert_eq!(
        requested,
        vec![
            "https://example.org/h/0.jpg",
            "https://example.org/h/1.jpg",
            "https://example.org/h/2.jpg",
            "https://example.org/h/4.jpg"
        ]
    );
    assert_eq!(written, vec![path(0), path(1), path(2), path(4)]);
    assert_eq!(
        outcomes,
        vec![
            Some(Outcome::Saved),
            Some(Outcome::Saved),
            Some(Outcome::Saved),
            Some(Outcome::Skipped),
            Some(Outcome::Saved)
        ]
    );
    assert_eq!(downloads.into_pool().in_use(), 0);
}

#[test]
fn never_more_in_flight_than_permits() {
    for limit in 1..5usize {
        for count in [limit, limit + 1, 3 * limit + 2] {
            let (mut downloads, first) = download_gallery(start(limit, count), None);
            assert_eq!(first.len(), limit);
            let mut queue: std::collections::VecDeque<(usize, TaskAction)> = first.into();
            let mut most = downloads.in_flight();
            let mut turn = 0usize;
            while !queue.is_empty() {
                turn += 1;
                let (index, action) = if turn % 3 == 0 {
                    queue.pop_back().unwrap()
                } else {
                    queue.pop_front().unwrap()
                };
                if let Some(event) = perform(index, &action) {
                    let (next, more) = download_gallery(downloads, Some((index, event)));
                    downloads = next;
                    queue.extend(more);
                }
                let now = downloads.in_flight();
                assert!(now <= limit);
                if now > most {
                    most = now;
                }
            }
            assert_eq!(most, limit);
            assert!(downloads.is_finished());
            assert_eq!(downloads.in_flight(), 0);
            assert_eq!(states(&downloads), vec![TaskState::Done; count]);
        }
    }
}

#[test]
fn reports_that_do_not_apply_change_nothing() {
    let (downloads, _) = download_gallery(start(1, 2), None);
    let before = states(&downloads);
    let (downloads, todo) = download_gallery(downloads, Some((1, TaskEvent::PermitGranted)));
    assert_eq!(todo, vec![(1, TaskAction::Idle)]);
    assert_eq!(states(&downloads), before);
    let (downloads, todo) = download_gallery(downloads, Some((7, TaskEvent::Written)));
    assert_eq!(todo, vec![(7, TaskAction::Idle)]);
    assert_eq!(states(&downloads), before);
    let (downloads, todo) = download_gallery(downloads, Some((1, TaskEvent::Launched)));
    assert_eq!(todo, vec![(1, TaskAction::Idle)]);
    assert_eq!(states(&downloads), before);
    assert_eq!(downloads.in_flight(), 1);
}

#[test]
fn pool_is_shared_from_gallery_to_gallery() {
    let mut pool = PermitPool::new(3);
    assert!(pool.try_acquire());
    let (downloads, todo) = download_gallery(Downloads::new(pool, dest(), 4), None);
    assert_eq!(todo, vec![(0, TaskAction::Resolve), (1, TaskAction::Resolve)]);
    assert_eq!(downloads.in_flight(), 2);
    let pool = downloads.into_pool();
    assert_eq!((pool.size(), pool.in_use()), (3, 3));
}

#[test]
fn without_permits_nothing_starts() {
    let (downloads, todo) = download_gallery(start(0, 3), None);
    assert!(todo.is_empty());
    assert_eq!(states(&downloads), vec![TaskState::Pending; 3]);
    assert!(!downloads.is_finished());
}
