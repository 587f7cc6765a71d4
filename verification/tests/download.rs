use gallery_crawl::download::{
    download_image, holds_permit, Destination, DownloadError, ImageTask, Outcome, TaskAction,
    TaskEvent, TaskState,
};
use gallery_crawl::resolve::ResolveError;
use gallery_crawl::target::Target;

fn dest() -> Destination {
    Destination { root: "output".to_string(), title: "Title".to_string() }
}

fn at(state: TaskState) -> ImageTask {
    ImageTask { state, target: None }
}

fn target() -> Target {
    Target {
        url: "https://example.org/h/3.jpg".to_string(),
        path: "output/Title/3.jpg".to_string(),
    }
}

fn located(state: TaskState) -> ImageTask {
    ImageTask { state, target: Some(target()) }
}

fn resolved(url: &str) -> TaskEvent {
    TaskEvent::Resolved(Ok(url.to_string()))
}

fn every_event() -> Vec<TaskEvent> {
    vec![
        TaskEvent::PermitGranted,
        TaskEvent::Launched,
        resolved("https://example.org/h/3.jpg"),
        TaskEvent::Resolved(Err(ResolveError::ImageNotFound)),
        TaskEvent::Existing(true),
        TaskEvent::Existing(false),
        TaskEvent::Fetched { status: 200 },
        TaskEvent::Fetched { status: 404 },
        TaskEvent::FetchFailed,
        TaskEvent::Written,
        TaskEvent::WriteFailed,
    ]
}

fn every_task() -> Vec<ImageTask> {
    let states = [
        TaskState::Pending,
        TaskState::PermitAcquired,
        TaskState::Resolving,
        TaskState::Fetching,
        TaskState::Writing,
        TaskState::Done,
        TaskState::Failed,
    ];
    let mut tasks = Vec::new();
    for state in states {
        tasks.push(at(state));
        tasks.push(located(state));
    }
    tasks
}

fn rank(state: TaskState) -> u8 {
    match state {
        TaskState::Pending => 0,
        TaskState::PermitAcquired => 1,
        TaskState::Resolving => 2,
        TaskState::Fetching => 3,
        TaskState::Writing => 4,
        TaskState::Done | TaskState::Failed => 5,
    }
}

#[test]
fn new_task_is_pending() {
    assert_eq!(ImageTask::new(), at(TaskState::Pending));
}

#[test]
fn task_runs_from_pending_to_done() {
    let d = dest();
    let (task, action) = download_image(&ImageTask::new(), TaskEvent::PermitGranted, &d, 3);
    assert_eq!((task.state, action), (TaskState::PermitAcquired, TaskAction::Launch));
    let (task, action) = download_image(&task, TaskEvent::Launched, &d, 3);
    assert_eq!((task.state, action), (TaskState::Resolving, TaskAction::Resolve));
    let (task, action) = download_image(&task, resolved("https://example.org/h/3.jpg"), &d, 3);
    assert_eq!(task, located(TaskState::Resolving));
    assert_eq!(action, TaskAction::Stat { path: "output/Title/3.jpg".to_string() });
    let (task, action) = download_image(&task, TaskEvent::Existing(false), &d, 3);
    assert_eq!(task, located(TaskState::Fetching));
    assert_eq!(
        action,
        TaskAction::Fetch {
            url: "https://example.org/h/3.jpg".to_string(),
            path: "output/Title/3.jpg".to_string(),
        }
    );
    let (task, action) = download_image(&task, TaskEvent::Fetched { status: 200 }, &d, 3);
    assert_eq!(task, located(TaskState::Writing));
    assert_eq!(action, TaskAction::Write { path: "output/Title/3.jpg".to_string() });
    let (task, action) = download_image(&task, TaskEvent::Written, &d, 3);
    assert_eq!(task, located(TaskState::Done));
    assert_eq!(action, TaskAction::Finish(Outcome::Saved));
}

#[test]
fn existing_file_is_skipped_without_request_or_write() {
    let (task, action) =
        download_image(&located(TaskState::Resolving), TaskEvent::Existing(true), &dest(), 3);
    assert_eq!(task, located(TaskState::Done));
    assert_eq!(action, TaskAction::Finish(Outcome::Skipped));
    for event in every_event() {
        let (after, action) = download_image(&task, event, &dest(), 3);
        assert_eq!(after, task);
        assert_eq!(action, TaskAction::Idle);
    }
}

#[test]
fn unresolved_page_fails_the_task() {
    let (task, action) = download_image(
        &at(TaskState::Resolving),
        TaskEvent::Resolved(Err(ResolveError::ImageNotFound)),
        &dest(),
        0,
    );
    assert_eq!(task, at(TaskState::Failed));
    assert_eq!(
        action,
        TaskAction::Finish(Outcome::Failed(DownloadError::Unresolved(ResolveError::ImageNotFound)))
    );
}

#[test]
fn image_page_that_cannot_be_fetched_fails_this_task_only() {
    for error in [ResolveError::FetchFailed, ResolveError::PageTooLarge] {
        let (task, action) =
            download_image(&at(TaskState::Resolving), TaskEvent::Resolved(Err(error)), &dest(), 0);
        assert_eq!(task, at(TaskState::Failed));
        assert_eq!(action, TaskAction::Finish(Outcome::Failed(DownloadError::Unresolved(error))));
    }
}

#[test]
fn address_without_extension_fails_the_task() {
    let (task, action) =
        download_image(&at(TaskState::Resolving), resolved("https://example.org/h/3."), &dest(), 0);
    assert_eq!(task, at(TaskState::Failed));
    assert_eq!(action, TaskAction::Finish(Outcome::Failed(DownloadError::NoExtension)));
}

#[test]
fn status_outside_the_successes_fails_the_task() {
    for status in [0u16, 100, 199, 300, 301, 404, 500, 999] {
        let (task, action) =
            download_image(&located(TaskState::Fetching), TaskEvent::Fetched { status }, &dest(), 3);
        assert_eq!(task, located(TaskState::Failed));
        assert_eq!(action, TaskAction::Finish(Outcome::Failed(DownloadError::BadStatus { status })));
    }
    for status in [200u16, 201, 206, 299] {
        let (task, _) =
            download_image(&located(TaskState::Fetching), TaskEvent::Fetched { status }, &dest(), 3);
        assert_eq!(task, located(TaskState::Writing));
    }
}

#[test]
fn failed_request_and_failed_write_fail_the_task() {
    let (task, action) =
        download_image(&located(TaskState::Fetching), TaskEvent::FetchFailed, &dest(), 3);
    assert_eq!(task, located(TaskState::Failed));
    assert_eq!(action, TaskAction::Finish(Outcome::Failed(DownloadError::FetchFailed)));
    let (task, action) =
        download_image(&located(TaskState::Writing), TaskEvent::WriteFailed, &dest(), 3);
    assert_eq!(task, located(TaskState::Failed));
    assert_eq!(action, TaskAction::Finish(Outcome::Failed(DownloadError::WriteFailed)));
}

#[test]
fn resolution_is_taken_once() {
    let (task, action) =
        download_image(&located(TaskState::Resolving), resolved("https://e.org/x.png"), &dest(), 3);
    assert_eq!(task, located(TaskState::Resolving));
    assert_eq!(action, TaskAction::Idle);
    let (task, action) =
        download_image(&at(TaskState::Resolving), TaskEvent::Existing(false), &dest(), 3);
    assert_eq!(task, at(TaskState::Resolving));
    assert_eq!(action, TaskAction::Idle);
}

#[test]
fn tasks_that_are_over_stay_as_they_are() {
    for task in every_task() {
        if task.state == TaskState::Done || task.state == TaskState::Failed {
            for event in every_event() {
                let (after, action) = download_image(&task, event, &dest(), 1);
                assert_eq!(after, task);
                assert_eq!(action, TaskAction::Idle);
            }
        }
    }
}

#[test]
fn tasks_never_go_back_and_fail_only_at_work() {
    for task in every_task() {
        for event in every_event() {
            let (after, action) = download_image(&task, event, &dest(), 1);
            assert!(rank(task.state) <= rank(after.state));
            if after.state == TaskState::Failed && task.state != TaskState::Failed {
                assert!(matches!(
                    task.state,
                    TaskState::Resolving | TaskState::Fetching | TaskState::Writing
                ));
            }
            if matches!(action, TaskAction::Fetch { .. }) {
                assert_eq!(task.state, TaskState::Resolving);
            }
            if matches!(action, TaskAction::Write { .. }) {
                assert_eq!(task.state, TaskState::Fetching);
            }
            if after.state == task.state && after.target == task.target {
                assert_eq!(action, TaskAction::Idle);
            }
        }
    }
}

#[test]
fn permit_is_held_from_the_grant_to_the_end() {
    assert!(!holds_permit(TaskState::Pending));
    assert!(holds_permit(TaskState::PermitAcquired));
    assert!(holds_permit(TaskState::Resolving));
    assert!(holds_permit(TaskState::Fetching));
    assert!(holds_permit(TaskState::Writing));
    assert!(!holds_permit(TaskState::Done));
    assert!(!holds_permit(TaskState::Failed));
}

#[test]
fn copy_of_a_task_is_equal() {
    for task in every_task() {
        assert_eq!(task.copy(), task);
    }
}
