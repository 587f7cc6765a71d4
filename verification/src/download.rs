//! The life of one image download.
//!
//! A task moves through `Pending → PermitAcquired → Resolving → Fetching →
//! Writing → Done`. `Failed` can be entered from `Resolving`, `Fetching` and
//! `Writing` and, like `Done`, is never left. The caller performs the action
//! that a step answers with and reports what came of it as the next event.

use crate::resolve::ResolveError;
use crate::target::{plan_target, target_of, Target, TargetView};
use vstd::prelude::*;

verus! {

/// Where a task stands.
#[derive(Clone, Copy, Debug, PartialEq, Eq, Structural)]
pub enum TaskState {
    /// Waiting for a permit.
    Pending,
    /// Holding a permit, not yet launched.
    PermitAcquired,
    /// Finding out where the image is and where it goes.
    Resolving,
    /// Requesting the image.
    Fetching,
    /// Writing the image to its file.
    Writing,
    /// Over: the file is there.
    Done,
    /// Over: this image was given up.
    Failed,
}

/// Why an image was given up.
#[derive(Clone, Copy, Debug, PartialEq, Eq, Structural)]
pub enum DownloadError {
    /// The image page did not resolve.
    Unresolved(ResolveError),
    /// The resolved address yields no file extension.
    NoExtension,
    /// The directory could not be made or the request could not be sent.
    FetchFailed,
    /// The response to the request was no success.
    BadStatus { status: u16 },
    /// The file could not be written.
    WriteFailed,
}

/// How a task ended.
#[derive(Clone, Copy, Debug, PartialEq, Eq, Structural)]
pub enum Outcome {
    /// The image was fetched and written.
    Saved,
    /// The file was there already; nothing was fetched or written.
    Skipped,
    /// The image was given up.
    Failed(DownloadError),
}

/// What the caller reports to a task.
#[derive(Debug, PartialEq, Eq)]
pub enum TaskEvent {
    /// A permit was granted to the task.
    PermitGranted,
    /// The task was launched.
    Launched,
    /// The image page resolved to this address, or did not resolve.
    Resolved(Result<String, ResolveError>),
    /// Whether the file at the task's path exists.
    Existing(bool),
    /// The request was answered with this status.
    Fetched { status: u16 },
    /// The directory could not be made or the request could not be sent.
    FetchFailed,
    /// The response body was written to the file.
    Written,
    /// The file could not be created or written.
    WriteFailed,
}

/// What a `TaskEvent` stands for.
pub enum TaskEventView {
    PermitGranted,
    Launched,
    Resolved(Result<Seq<char>, ResolveError>),
    Existing(bool),
    Fetched { status: u16 },
    FetchFailed,
    Written,
    WriteFailed,
}

impl View for TaskEvent {
    type V = TaskEventView;

    open spec fn view(&self) -> TaskEventView {
        match self {
            TaskEvent::PermitGranted => TaskEventView::PermitGranted,
            TaskEvent::Launched => TaskEventView::Launched,
            TaskEvent::Resolved(Ok(url)) => TaskEventView::Resolved(Ok(url@)),
            TaskEvent::Resolved(Err(e)) => TaskEventView::Resolved(Err(*e)),
            TaskEvent::Existing(exists) => TaskEventView::Existing(*exists),
            TaskEvent::Fetched { status } => TaskEventView::Fetched { status: *status },
            TaskEvent::FetchFailed => TaskEventView::FetchFailed,
            TaskEvent::Written => TaskEventView::Written,
            TaskEvent::WriteFailed => TaskEventView::WriteFailed,
        }
    }
}

impl DeepView for TaskEvent {
    type V = TaskEventView;

    open spec fn deep_view(&self) -> TaskEventView {
        self@
    }
}

/// What a task asks of the caller.
#[derive(Clone, Debug, PartialEq, Eq)]
pub enum TaskAction {
    /// Nothing: the event does not apply where the task stands.
    Idle,
    /// Launch the task, then report `Launched`.
    Launch,
    /// Resolve the image page, then report `Resolved`.
    Resolve,
    /// Look whether the file at `path` exists, then report `Existing`.
    Stat { path: String },
    /// Make the directories above `path`, request `url`, then report
    /// `Fetched` or `FetchFailed`.
    Fetch { url: String, path: String },
    /// Write the response body to the file at `path`, then report `Written`
    /// or `WriteFailed`.
    Write { path: String },
    /// The task is over.
    Finish(Outcome),
}

/// What a `TaskAction` stands for.
pub enum TaskActionView {
    Idle,
    Launch,
    Resolve,
    Stat { path: Seq<char> },
    Fetch { url: Seq<char>, path: Seq<char> },
    Write { path: Seq<char> },
    Finish(Outcome),
}

impl View for TaskAction {
    type V = TaskActionView;

    open spec fn view(&self) -> TaskActionView {
        match self {
            TaskAction::Idle => TaskActionView::Idle,
            TaskAction::Launch => TaskActionView::Launch,
            TaskAction::Resolve => TaskActionView::Resolve,
            TaskAction::Stat { path } => TaskActionView::Stat { path: path@ },
            TaskAction::Fetch { url, path } => TaskActionView::Fetch { url: url@, path: path@ },
            TaskAction::Write { path } => TaskActionView::Write { path: path@ },
            TaskAction::Finish(outcome) => TaskActionView::Finish(*outcome),
        }
    }
}

impl DeepView for TaskAction {
    type V = TaskActionView;

    open spec fn deep_view(&self) -> TaskActionView {
        self@
    }
}

/// One image download: where it stands and, once its image page resolved,
/// its target.
#[derive(Clone, Debug, PartialEq, Eq)]
pub struct ImageTask {
    pub state: TaskState,
    pub target: Option<Target>,
}

/// What an `ImageTask` stands for.
pub struct ImageTaskView {
    pub state: TaskState,
    pub target: Option<TargetView>,
}

impl View for ImageTask {
    type V = ImageTaskView;

    open spec fn view(&self) -> ImageTaskView {
        ImageTaskView { state: self.state, target: self.target.deep_view() }
    }
}

impl DeepView for ImageTask {
    type V = ImageTaskView;

    open spec fn deep_view(&self) -> ImageTaskView {
        self@
    }
}

/// Where a gallery's images go: the output root and the gallery's title.
#[derive(Clone, Debug, PartialEq, Eq)]
pub struct Destination {
    pub root: String,
    pub title: String,
}

/// What a `Destination` stands for.
pub struct DestinationView {
    pub root: Seq<char>,
    pub title: Seq<char>,
}

impl View for Destination {
    type V = DestinationView;

    open spec fn view(&self) -> DestinationView {
        DestinationView { root: self.root@, title: self.title@ }
    }
}

/// A status in the range of successes, 200 to 299.
pub open spec fn is_success(status: u16) -> bool {
    200 <= status < 300
}

/// The task holds a permit: it was granted one and is not over.
pub open spec fn is_active(state: TaskState) -> bool {
    state == TaskState::PermitAcquired || state == TaskState::Resolving || state
        == TaskState::Fetching || state == TaskState::Writing
}

/// The task is over.
pub open spec fn is_over(state: TaskState) -> bool {
    state == TaskState::Done || state == TaskState::Failed
}

/// How far a task has come.
pub open spec fn rank(state: TaskState) -> nat {
    match state {
        TaskState::Pending => 0,
        TaskState::PermitAcquired => 1,
        TaskState::Resolving => 2,
        TaskState::Fetching => 3,
        TaskState::Writing => 4,
        TaskState::Done => 5,
        TaskState::Failed => 5,
    }
}

/// A task that has not begun.
pub open spec fn fresh() -> ImageTaskView {
    ImageTaskView { state: TaskState::Pending, target: None }
}

/// The task as it ends in failure, and the action that says so.
pub open spec fn give_up(task: ImageTaskView, error: DownloadError) -> (ImageTaskView, TaskActionView) {
    (
        ImageTaskView { state: TaskState::Failed, target: task.target },
        TaskActionView::Finish(Outcome::Failed(error)),
    )
}

/// The task in another state, with the action to take.
pub open spec fn move_to(task: ImageTaskView, state: TaskState, action: TaskActionView) -> (
    ImageTaskView,
    TaskActionView,
) {
    (ImageTaskView { state, target: task.target }, action)
}

/// One step of image number `index` of a gallery: the task after `event`,
/// and what the caller is to do. An event that does not apply where the task
/// stands changes nothing.
pub open spec fn task_step(
    task: ImageTaskView,
    event: TaskEventView,
    dest: DestinationView,
    index: nat,
) -> (ImageTaskView, TaskActionView) {
    match (task.state, event, task.target) {
        (TaskState::Pending, TaskEventView::PermitGranted, _) => move_to(
            task,
            TaskState::PermitAcquired,
            TaskActionView::Launch,
        ),
        (TaskState::PermitAcquired, TaskEventView::Launched, _) => move_to(
            task,
            TaskState::Resolving,
            TaskActionView::Resolve,
        ),
        (TaskState::Resolving, TaskEventView::Resolved(Ok(url)), None) => match target_of(
            dest.root,
            dest.title,
            index,
            url,
        ) {
            Ok(target) => (
                ImageTaskView { state: TaskState::Resolving, target: Some(target) },
                TaskActionView::Stat { path: target.path },
            ),
            Err(_) => give_up(task, DownloadError::NoExtension),
        },
        (TaskState::Resolving, TaskEventView::Resolved(Err(e)), None) => give_up(
            task,
            DownloadError::Unresolved(e),
        ),
        (TaskState::Resolving, TaskEventView::Existing(true), Some(_)) => move_to(
            task,
            TaskState::Done,
            TaskActionView::Finish(Outcome::Skipped),
        ),
        (TaskState::Resolving, TaskEventView::Existing(false), Some(target)) => move_to(
            task,
            TaskState::Fetching,
            TaskActionView::Fetch { url: target.url, path: target.path },
        ),
        (TaskState::Fetching, TaskEventView::Fetched { status }, Some(target)) => if is_success(
            status,
        ) {
            move_to(task, TaskState::Writing, TaskActionView::Write { path: target.path })
        } else {
            give_up(task, DownloadError::BadStatus { status })
        },
        (TaskState::Fetching, TaskEventView::FetchFailed, _) => give_up(
            task,
            DownloadError::FetchFailed,
        ),
        (TaskState::Writing, TaskEventView::Written, _) => move_to(
            task,
            TaskState::Done,
            TaskActionView::Finish(Outcome::Saved),
        ),
        (TaskState::Writing, TaskEventView::WriteFailed, _) => give_up(
            task,
            DownloadError::WriteFailed,
        ),
        _ => (task, TaskActionView::Idle),
    }
}

impl ImageTask {
    /// A task that has not begun.
    pub fn new() -> (task: ImageTask)
        ensures
            task@ == fresh(),
    {
        ImageTask { state: TaskState::Pending, target: None }
    }

    /// A copy of the task.
    pub fn copy(&self) -> (task: ImageTask)
        ensures
            task@ == self@,
    {
        ImageTask { state: self.state, target: self.copy_target() }
    }

    /// A copy of the task's target.
    fn copy_target(&self) -> (target: Option<Target>)
        ensures
            target.deep_view() == self.target.deep_view(),
    {
        match &self.target {
            Some(target) => Some(target.copy()),
            None => None,
        }
    }

    /// The same task in another state.
    pub(crate) fn at(&self, state: TaskState) -> (task: ImageTask)
        ensures
            task@ == (ImageTaskView { state, target: self@.target }),
    {
        ImageTask { state, target: self.copy_target() }
    }

    /// The same task ended in failure, with the action that says so.
    fn fail(&self, error: DownloadError) -> (step: (ImageTask, TaskAction))
        ensures
            (step.0@, step.1@) == give_up(self@, error),
    {
        (self.at(TaskState::Failed), TaskAction::Finish(Outcome::Failed(error)))
    }
}

/// Whether a task in `state` holds a permit.
pub fn holds_permit(state: TaskState) -> (active: bool)
    ensures
        active == is_active(state),
{
    match state {
        TaskState::PermitAcquired | TaskState::Resolving | TaskState::Fetching | TaskState::Writing => true,
        _ => false,
    }
}

/// One step of the download of image number `index` of a gallery: answers
/// with the task as it stands after `event` and with what the caller is to
/// do for it next.
pub fn download_image(task: &ImageTask, event: TaskEvent, dest: &Destination, index: usize) -> (step: (
    ImageTask,
    TaskAction,
))
    ensures
        (step.0@, step.1@) == task_step(task@, event@, dest@, index as nat),
{
    match task.state {
        TaskState::Pending => match event {
            TaskEvent::PermitGranted => (task.at(TaskState::PermitAcquired), TaskAction::Launch),
            _ => (task.copy(), TaskAction::Idle),
        },
        TaskState::PermitAcquired => match event {
            TaskEvent::Launched => (task.at(TaskState::Resolving), TaskAction::Resolve),
            _ => (task.copy(), TaskAction::Idle),
        },
        TaskState::Resolving => match event {
            TaskEvent::Resolved(resolved) => {
                if task.target.is_some() {
                    return (task.copy(), TaskAction::Idle);
                }
                match resolved {
                    Ok(url) => match plan_target(
                        dest.root.as_str(),
                        dest.title.as_str(),
                        index,
                        url,
                    ) {
                        Ok(target) => {
                            let path = target.path.clone();
                            (
                                ImageTask { state: TaskState::Resolving, target: Some(target) },
                                TaskAction::Stat { path },
                            )
                        },
                        Err(_) => task.fail(DownloadError::NoExtension),
                    },
                    Err(e) => task.fail(DownloadError::Unresolved(e)),
                }
            },
            TaskEvent::Existing(exists) => match &task.target {
                Some(target) => if exists {
                    (task.at(TaskState::Done), TaskAction::Finish(Outcome::Skipped))
                } else {
                    (
                        task.at(TaskState::Fetching),
                        TaskAction::Fetch { url: target.url.clone(), path: target.path.clone() },
                    )
                },
                None => (task.copy(), TaskAction::Idle),
            },
            _ => (task.copy(), TaskAction::Idle),
        },
        TaskState::Fetching => match event {
            TaskEvent::Fetched { status } => match &task.target {
                Some(target) => if 200 <= status && status < 300 {
                    (task.at(TaskState::Writing), TaskAction::Write { path: target.path.clone() })
                } else {
                    task.fail(DownloadError::BadStatus { status })
                },
                None => (task.copy(), TaskAction::Idle),
            },
            TaskEvent::FetchFailed => task.fail(DownloadError::FetchFailed),
            _ => (task.copy(), TaskAction::Idle),
        },
        TaskState::Writing => match event {
            TaskEvent::Written => (task.at(TaskState::Done), TaskAction::Finish(Outcome::Saved)),
            TaskEvent::WriteFailed => task.fail(DownloadError::WriteFailed),
            _ => (task.copy(), TaskAction::Idle),
        },
        TaskState::Done => (task.copy(), TaskAction::Idle),
        TaskState::Failed => (task.copy(), TaskAction::Idle),
    }
}

/// A task that is over stays as it is and asks for nothing, whatever is
/// reported to it.
pub proof fn law_over_is_final(
    task: ImageTaskView,
    event: TaskEventView,
    dest: DestinationView,
    index: nat,
)
    requires
        is_over(task.state),
    ensures
        task_step(task, event, dest, index) == (task, TaskActionView::Idle),
{
}

/// A task never goes back, and it moves one state at a time unless it fails
/// or is skipped.
pub proof fn law_forward(task: ImageTaskView, event: TaskEventView, dest: DestinationView, index: nat)
    ensures
        ({
            let after = task_step(task, event, dest, index).0.state;
            &&& rank(task.state) <= rank(after)
            &&& after == task.state || is_over(after) || rank(after) == rank(task.state) + 1
        }),
{
}

/// A task fails only while it resolves, fetches or writes.
pub proof fn law_failure_origin(
    task: ImageTaskView,
    event: TaskEventView,
    dest: DestinationView,
    index: nat,
)
    requires
        task.state != TaskState::Failed,
        task_step(task, event, dest, index).0.state == TaskState::Failed,
    ensures
        task.state == TaskState::Resolving || task.state == TaskState::Fetching || task.state
            == TaskState::Writing,
{
}

/// A permit is taken only by a grant: no other event makes a task without a
/// permit hold one.
pub proof fn law_permit_by_grant(
    task: ImageTaskView,
    event: TaskEventView,
    dest: DestinationView,
    index: nat,
)
    requires
        !is_active(task.state),
        is_active(task_step(task, event, dest, index).0.state),
    ensures
        task.state == TaskState::Pending,
        event == TaskEventView::PermitGranted,
{
}

/// An image whose file exists is skipped: the task is done, and it asks
/// neither for a request nor for a write.
pub proof fn law_existing_is_skipped(
    task: ImageTaskView,
    dest: DestinationView,
    index: nat,
)
    requires
        task.state == TaskState::Resolving,
        task.target is Some,
    ensures
        task_step(task, TaskEventView::Existing(true), dest, index) == (
            ImageTaskView { state: TaskState::Done, target: task.target },
            TaskActionView::Finish(Outcome::Skipped),
        ),
{
}

/// A request is asked for only once the file is known to be missing, and a
/// write only once the request was answered with a success.
pub proof fn law_fetch_and_write_origin(
    task: ImageTaskView,
    event: TaskEventView,
    dest: DestinationView,
    index: nat,
)
    ensures
        task_step(task, event, dest, index).1 is Fetch ==> task.state == TaskState::Resolving
            && event == TaskEventView::Existing(false),
        task_step(task, event, dest, index).1 is Write ==> task.state == TaskState::Fetching
            && event is Fetched && is_success(event->status),
{
}

/// The task after the events were reported to it one by one.
pub open spec fn task_after(
    task: ImageTaskView,
    events: Seq<TaskEventView>,
    dest: DestinationView,
    index: nat,
) -> ImageTaskView
    decreases events.len(),
{
    if events.len() == 0 {
        task
    } else {
        task_step(task_after(task, events.drop_last(), dest, index), events.last(), dest, index).0
    }
}

/// What the task asks for when event number `at` of `events` is reported.
pub open spec fn action_at(
    task: ImageTaskView,
    events: Seq<TaskEventView>,
    dest: DestinationView,
    index: nat,
    at: int,
) -> TaskActionView {
    task_step(task_after(task, events.take(at), dest, index), events[at], dest, index).1
}

/// Over a run of events a task never goes back.
proof fn lemma_run_forward(
    task: ImageTaskView,
    events: Seq<TaskEventView>,
    dest: DestinationView,
    index: nat,
    from: int,
    to: int,
)
    requires
        0 <= from <= to <= events.len(),
    ensures
        rank(task_after(task, events.take(from), dest, index).state) <= rank(
            task_after(task, events.take(to), dest, index).state,
        ),
    decreases to - from,
{
    if from < to {
        lemma_run_forward(task, events, dest, index, from, to - 1);
        assert(events.take(to).drop_last() =~= events.take(to - 1));
        assert(events.take(to).last() == events[to - 1]);
        law_forward(task_after(task, events.take(to - 1), dest, index), events[to - 1], dest, index);
    }
}

/// Skipping is idempotence: in the whole life of a task that was skipped
/// because its file exists, whatever was reported to it before and after, it
/// never asks for a request or for a write.
pub proof fn law_skipped_never_fetches(
    task: ImageTaskView,
    events: Seq<TaskEventView>,
    dest: DestinationView,
    index: nat,
    skip: int,
    other: int,
)
    requires
        0 <= skip < events.len(),
        0 <= other < events.len(),
        action_at(task, events, dest, index, skip) == TaskActionView::Finish(Outcome::Skipped),
    ensures
        !(action_at(task, events, dest, index, other) is Fetch),
        !(action_at(task, events, dest, index, other) is Write),
{
    let before_skip = task_after(task, events.take(skip), dest, index);
    assert(before_skip.state == TaskState::Resolving);
    assert(events.take(skip + 1).drop_last() =~= events.take(skip));
    assert(events.take(skip + 1).last() == events[skip]);
    assert(task_after(task, events.take(skip + 1), dest, index).state == TaskState::Done);
    let before_other = task_after(task, events.take(other), dest, index);
    if other < skip {
        assert(events.take(other + 1).drop_last() =~= events.take(other));
        assert(events.take(other + 1).last() == events[other]);
        lemma_run_forward(task, events, dest, index, other, skip);
        lemma_run_forward(task, events, dest, index, other + 1, skip);
    } else if other > skip {
        lemma_run_forward(task, events, dest, index, skip + 1, other);
    }
}

} // verus!
