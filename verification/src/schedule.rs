//! The download scheduler: the images of one gallery, downloaded under a pool
//! of permits that bounds how many are in flight at once.
//!
//! The caller hands [`download_gallery`] what happened to one task and gets
//! back what to do: the next action for that task, and a launch for every
//! waiting task that a free permit lets in. The pool outlives the gallery, so
//! one pool bounds the whole run.

use crate::download::{
    download_image, fresh, holds_permit, is_active, is_over, task_step, Destination,
    DestinationView, ImageTask, ImageTaskView, TaskAction, TaskActionView, TaskEvent,
    TaskEventView, TaskState,
};
use vstd::prelude::*;

verus! {

/// A counting pool of permits.
pub struct PermitPool {
    limit: usize,
    held: usize,
}

impl PermitPool {
    #[verifier::type_invariant]
    spec fn within_limit(self) -> bool {
        self.held <= self.limit
    }

    /// How many permits the pool has in all.
    pub closed spec fn limit(self) -> nat {
        self.limit as nat
    }

    /// How many permits are out.
    pub closed spec fn held(self) -> nat {
        self.held as nat
    }

    /// A pool of `limit` permits, none of them out.
    pub fn new(limit: usize) -> (pool: PermitPool)
        ensures
            pool.limit() == limit,
            pool.held() == 0,
    {
        PermitPool { limit, held: 0 }
    }

    /// How many permits the pool has in all.
    pub fn size(&self) -> (limit: usize)
        ensures
            limit == self.limit(),
    {
        self.limit
    }

    /// How many permits are out.
    pub fn in_use(&self) -> (held: usize)
        ensures
            held == self.held(),
            held <= self.limit(),
    {
        proof {
            use_type_invariant(self);
        }
        self.held
    }

    /// Takes a permit where one is left.
    pub fn try_acquire(&mut self) -> (granted: bool)
        ensures
            granted == (old(self).held() < old(self).limit()),
            final(self).limit() == old(self).limit(),
            final(self).held() == old(self).held() + if granted {
                1nat
            } else {
                0nat
            },
    {
        proof {
            use_type_invariant(&*self);
        }
        if self.held < self.limit {
            self.held = self.held + 1;
            true
        } else {
            false
        }
    }

    /// Gives a permit back. Nothing happens where none is out.
    pub fn release(&mut self)
        ensures
            final(self).limit() == old(self).limit(),
            final(self).held() == if old(self).held() > 0 {
                (old(self).held() - 1) as nat
            } else {
                0nat
            },
    {
        proof {
            use_type_invariant(&*self);
        }
        if self.held > 0 {
            self.held = self.held - 1;
        }
    }
}

/// What a `Downloads` stands for: the pool, the destination, and the tasks of
/// the gallery's images by image number.
pub struct DownloadsView {
    pub limit: nat,
    pub held: nat,
    pub dest: DestinationView,
    pub tasks: Seq<ImageTaskView>,
}

/// How many of the first `n` tasks hold a permit.
pub open spec fn active_before(tasks: Seq<ImageTaskView>, n: int) -> nat
    decreases n,
{
    if n <= 0 {
        0
    } else {
        active_before(tasks, n - 1) + if is_active(tasks[n - 1].state) {
            1nat
        } else {
            0nat
        }
    }
}

/// How many tasks hold a permit: how many downloads are in flight.
pub open spec fn active_count(tasks: Seq<ImageTaskView>) -> nat {
    active_before(tasks, tasks.len() as int)
}

/// How many of the first `n` tasks wait for a permit.
pub open spec fn pending_before(tasks: Seq<ImageTaskView>, n: int) -> nat
    decreases n,
{
    if n <= 0 {
        0
    } else {
        pending_before(tasks, n - 1) + if tasks[n - 1].state == TaskState::Pending {
            1nat
        } else {
            0nat
        }
    }
}

impl DownloadsView {
    /// Every task in flight holds a permit of the pool, and the pool gives
    /// out no more permits than it has.
    pub open spec fn wf(self) -> bool {
        active_count(self.tasks) <= self.held <= self.limit
    }

    /// Every task is over.
    pub open spec fn finished(self) -> bool {
        forall|i: int| 0 <= i < self.tasks.len() ==> is_over(#[trigger] self.tasks[i].state)
    }
}

/// The schedule of a gallery of `count` images before anything was done.
pub open spec fn initial(limit: nat, held: nat, dest: DestinationView, count: nat) -> DownloadsView {
    DownloadsView { limit, held, dest, tasks: Seq::new(count, |i: int| fresh()) }
}

/// What a report on task number `index` does. The task takes its step; where
/// that ends it, its permit goes back to the pool. No other task is touched.
/// A report that names no task changes nothing, and neither does a reported
/// grant: permits are granted by the scheduler alone.
pub open spec fn reported(d: DownloadsView, index: usize, event: TaskEventView) -> (
    DownloadsView,
    TaskActionView,
) {
    if index < d.tasks.len() && event != TaskEventView::PermitGranted {
        let before = d.tasks[index as int];
        let (after, action) = task_step(before, event, d.dest, index as nat);
        let freed = is_active(before.state) && !is_active(after.state) && d.held > 0;
        (
            DownloadsView {
                held: if freed {
                    (d.held - 1) as nat
                } else {
                    d.held
                },
                tasks: d.tasks.update(index as int, after),
                ..d
            },
            action,
        )
    } else {
        (d, TaskActionView::Idle)
    }
}

/// Task number `j` is let in when `free` permits are handed out to the
/// waiting tasks in the order of their numbers.
pub open spec fn is_let_in(tasks: Seq<ImageTaskView>, free: nat, j: int) -> bool {
    tasks[j].state == TaskState::Pending && pending_before(tasks, j) < free
}

/// A waiting task once it was granted a permit and launched.
pub open spec fn launched(task: ImageTaskView) -> ImageTaskView {
    ImageTaskView { state: TaskState::Resolving, target: task.target }
}

/// The launches, in the order of the task numbers, among the first `n` tasks.
pub open spec fn launches(tasks: Seq<ImageTaskView>, free: nat, n: int) -> Seq<
    (usize, TaskActionView),
>
    decreases n,
{
    if n <= 0 {
        Seq::empty()
    } else if is_let_in(tasks, free, n - 1) {
        launches(tasks, free, n - 1).push(((n - 1) as usize, TaskActionView::Resolve))
    } else {
        launches(tasks, free, n - 1)
    }
}

/// The smaller of two numbers.
pub open spec fn least(a: nat, b: nat) -> nat {
    if a <= b {
        a
    } else {
        b
    }
}

/// The free permits are handed out: the waiting tasks are let in by number
/// for as long as permits are left.
pub open spec fn let_in(d: DownloadsView) -> (DownloadsView, Seq<(usize, TaskActionView)>) {
    let free = (d.limit - d.held) as nat;
    (
        DownloadsView {
            held: d.held + least(free, pending_before(d.tasks, d.tasks.len() as int)),
            tasks: Seq::new(
                d.tasks.len(),
                |j: int|
                    if is_let_in(d.tasks, free, j) {
                        launched(d.tasks[j])
                    } else {
                        d.tasks[j]
                    },
            ),
            ..d
        },
        launches(d.tasks, free, d.tasks.len() as int),
    )
}

/// One step of the scheduler: the report, if there is one, is applied, then
/// the free permits are handed out. The answer lists what to do: first the
/// action for the task reported on, then the launches.
pub open spec fn schedule(d: DownloadsView, report: Option<(usize, TaskEventView)>) -> (
    DownloadsView,
    Seq<(usize, TaskActionView)>,
) {
    match report {
        Some((index, event)) => {
            let (heard, action) = reported(d, index, event);
            let (next, started) = let_in(heard);
            (next, seq![(index, action)] + started)
        },
        None => let_in(d),
    }
}

/// The schedule after a run of steps.
pub open spec fn scheduled(d: DownloadsView, reports: Seq<Option<(usize, TaskEventView)>>) -> DownloadsView
    decreases reports.len(),
{
    if reports.len() == 0 {
        d
    } else {
        schedule(scheduled(d, reports.drop_last()), reports.last()).0
    }
}

/// Counting over a sequence that differs in one place.
proof fn lemma_active_update(tasks: Seq<ImageTaskView>, at: int, task: ImageTaskView, n: int)
    requires
        0 <= at < tasks.len(),
        0 <= n <= tasks.len(),
    ensures
        active_before(tasks.update(at, task), n) + (if at < n && is_active(tasks[at].state) {
            1nat
        } else {
            0nat
        }) == active_before(tasks, n) + (if at < n && is_active(task.state) {
            1nat
        } else {
            0nat
        }),
    decreases n,
{
    if n > 0 {
        lemma_active_update(tasks, at, task, n - 1);
    }
}

/// The count of waiting tasks grows with the prefix.
proof fn lemma_pending_grows(tasks: Seq<ImageTaskView>, m: int, n: int)
    requires
        m <= n,
    ensures
        pending_before(tasks, m) <= pending_before(tasks, n),
    decreases n - m,
{
    if m < n {
        lemma_pending_grows(tasks, m, n - 1);
    }
}

/// Letting tasks in puts as many more in flight as permits were handed out.
proof fn lemma_let_in_count(tasks: Seq<ImageTaskView>, free: nat, n: int)
    requires
        0 <= n <= tasks.len(),
    ensures
        active_before(
            Seq::new(
                tasks.len(),
                |j: int|
                    if is_let_in(tasks, free, j) {
                        launched(tasks[j])
                    } else {
                        tasks[j]
                    },
            ),
            n,
        ) == active_before(tasks, n) + least(free, pending_before(tasks, n)),
    decreases n,
{
    if n > 0 {
        lemma_let_in_count(tasks, free, n - 1);
    }
}

/// No launch is listed past the point where the permits ran out.
proof fn lemma_launches_stop(tasks: Seq<ImageTaskView>, free: nat, m: int, n: int)
    requires
        0 <= m <= n,
        pending_before(tasks, m) >= free,
    ensures
        launches(tasks, free, n) == launches(tasks, free, m),
    decreases n - m,
{
    if m < n {
        lemma_launches_stop(tasks, free, m, n - 1);
        lemma_pending_grows(tasks, m, n - 1);
    }
}

/// The concurrency bound: in a well-formed schedule no more downloads are in
/// flight than the pool has permits.
pub proof fn law_concurrency_bound(d: DownloadsView)
    requires
        d.wf(),
    ensures
        active_count(d.tasks) <= d.limit,
{
}

/// A schedule is well-formed before anything was done, whatever the pool
/// holds out already.
pub proof fn law_initial_wf(limit: nat, held: nat, dest: DestinationView, count: nat)
    requires
        held <= limit,
    ensures
        initial(limit, held, dest, count).wf(),
{
    lemma_fresh_inactive(initial(limit, held, dest, count).tasks, count as int);
}

/// Among tasks that have not begun, none is in flight.
proof fn lemma_fresh_inactive(tasks: Seq<ImageTaskView>, n: int)
    requires
        0 <= n <= tasks.len(),
        forall|i: int| 0 <= i < tasks.len() ==> tasks[i] == fresh(),
    ensures
        active_before(tasks, n) == 0,
    decreases n,
{
    if n > 0 {
        lemma_fresh_inactive(tasks, n - 1);
    }
}

/// A report keeps a schedule well-formed and leaves the pool's size alone.
pub proof fn law_report_keeps_wf(d: DownloadsView, index: usize, event: TaskEventView)
    requires
        d.wf(),
    ensures
        reported(d, index, event).0.wf(),
        reported(d, index, event).0.limit == d.limit,
{
    if index < d.tasks.len() && event != TaskEventView::PermitGranted {
        let before = d.tasks[index as int];
        let after = task_step(before, event, d.dest, index as nat).0;
        lemma_active_update(d.tasks, index as int, after, d.tasks.len() as int);
        lemma_active_one(d.tasks, index as int, d.tasks.len() as int);
    }
}

/// A task in flight counts.
proof fn lemma_active_one(tasks: Seq<ImageTaskView>, at: int, n: int)
    requires
        0 <= at < n <= tasks.len(),
    ensures
        is_active(tasks[at].state) ==> active_before(tasks, n) >= 1,
    decreases n,
{
    if at < n - 1 {
        lemma_active_one(tasks, at, n - 1);
    }
}

/// Handing out the free permits keeps a schedule well-formed.
pub proof fn law_let_in_keeps_wf(d: DownloadsView)
    requires
        d.wf(),
    ensures
        let_in(d).0.wf(),
        let_in(d).0.limit == d.limit,
{
    lemma_let_in_count(d.tasks, (d.limit - d.held) as nat, d.tasks.len() as int);
}

/// A step of the scheduler keeps a schedule well-formed, so the bound holds
/// after it as it did before.
pub proof fn law_schedule_keeps_wf(d: DownloadsView, report: Option<(usize, TaskEventView)>)
    requires
        d.wf(),
    ensures
        schedule(d, report).0.wf(),
        schedule(d, report).0.limit == d.limit,
        active_count(schedule(d, report).0.tasks) <= d.limit,
{
    match report {
        Some((index, event)) => {
            law_report_keeps_wf(d, index, event);
            law_let_in_keeps_wf(reported(d, index, event).0);
        },
        None => {
            law_let_in_keeps_wf(d);
        },
    }
}

/// The bound holds at every point of a gallery's download: whatever is
/// reported, in whatever order, to a schedule that began well-formed, never
/// more downloads are in flight than the pool has permits.
pub proof fn law_bound_always(d: DownloadsView, reports: Seq<Option<(usize, TaskEventView)>>)
    requires
        d.wf(),
    ensures
        scheduled(d, reports).wf(),
        scheduled(d, reports).limit == d.limit,
        active_count(scheduled(d, reports).tasks) <= d.limit,
    decreases reports.len(),
{
    if reports.len() > 0 {
        law_bound_always(d, reports.drop_last());
        law_schedule_keeps_wf(scheduled(d, reports.drop_last()), reports.last());
    }
}

/// Permits are neither lost nor made: a step of the scheduler changes the
/// number of permits out by exactly as much as the number of downloads in
/// flight. Every task that ends, done or failed, gives its permit back.
pub proof fn law_permits_balance(d: DownloadsView, report: Option<(usize, TaskEventView)>)
    requires
        d.wf(),
    ensures
        schedule(d, report).0.held - active_count(schedule(d, report).0.tasks) == d.held
            - active_count(d.tasks),
{
    let heard = match report {
        Some((index, event)) => reported(d, index, event).0,
        None => d,
    };
    match report {
        Some((index, event)) => {
            law_report_keeps_wf(d, index, event);
            if index < d.tasks.len() && event != TaskEventView::PermitGranted {
                let after = task_step(d.tasks[index as int], event, d.dest, index as nat).0;
                lemma_active_update(d.tasks, index as int, after, d.tasks.len() as int);
                lemma_active_one(d.tasks, index as int, d.tasks.len() as int);
            }
        },
        None => {},
    }
    lemma_let_in_count(heard.tasks, (heard.limit - heard.held) as nat, heard.tasks.len() as int);
}

/// Among tasks that are all over, none is in flight.
proof fn lemma_over_inactive(tasks: Seq<ImageTaskView>, n: int)
    requires
        0 <= n <= tasks.len(),
        forall|i: int| 0 <= i < tasks.len() ==> is_over(#[trigger] tasks[i].state),
    ensures
        active_before(tasks, n) == 0,
    decreases n,
{
    if n > 0 {
        lemma_over_inactive(tasks, n - 1);
        assert(is_over(tasks[n - 1].state));
    }
}

/// Once every task of a gallery is over, the pool holds out what it held out
/// before the gallery began.
pub proof fn law_permits_return(
    limit: nat,
    held: nat,
    dest: DestinationView,
    count: nat,
    reports: Seq<Option<(usize, TaskEventView)>>,
)
    requires
        held <= limit,
        scheduled(initial(limit, held, dest, count), reports).finished(),
    ensures
        scheduled(initial(limit, held, dest, count), reports).held == held,
{
    let d = initial(limit, held, dest, count);
    law_initial_wf(limit, held, dest, count);
    lemma_fresh_inactive(d.tasks, count as int);
    lemma_balance_always(d, reports);
    let end = scheduled(d, reports);
    lemma_over_inactive(end.tasks, end.tasks.len() as int);
}

/// The balance of permits holds over a run of steps.
proof fn lemma_balance_always(d: DownloadsView, reports: Seq<Option<(usize, TaskEventView)>>)
    requires
        d.wf(),
    ensures
        scheduled(d, reports).held - active_count(scheduled(d, reports).tasks) == d.held
            - active_count(d.tasks),
    decreases reports.len(),
{
    if reports.len() > 0 {
        lemma_balance_always(d, reports.drop_last());
        law_bound_always(d, reports.drop_last());
        law_permits_balance(scheduled(d, reports.drop_last()), reports.last());
    }
}

/// Letting tasks in takes as many off the waiting as permits were handed
/// out.
proof fn lemma_let_in_waiting(tasks: Seq<ImageTaskView>, free: nat, n: int)
    requires
        0 <= n <= tasks.len(),
    ensures
        pending_before(
            Seq::new(
                tasks.len(),
                |j: int|
                    if is_let_in(tasks, free, j) {
                        launched(tasks[j])
                    } else {
                        tasks[j]
                    },
            ),
            n,
        ) + least(free, pending_before(tasks, n)) == pending_before(tasks, n),
    decreases n,
{
    if n > 0 {
        lemma_let_in_waiting(tasks, free, n - 1);
    }
}

/// No permit lies idle while a task waits: after a step of the scheduler
/// either every permit is out or no task is left waiting.
pub proof fn law_no_idle_permit(d: DownloadsView, report: Option<(usize, TaskEventView)>)
    requires
        d.wf(),
    ensures
        ({
            let next = schedule(d, report).0;
            next.held == next.limit || pending_before(next.tasks, next.tasks.len() as int) == 0
        }),
{
    let heard = match report {
        Some((index, event)) => reported(d, index, event).0,
        None => d,
    };
    match report {
        Some((index, event)) => {
            law_report_keeps_wf(d, index, event);
        },
        None => {},
    }
    lemma_let_in_waiting(heard.tasks, (heard.limit - heard.held) as nat, heard.tasks.len() as int);
}

/// A report on one task leaves every other task as it was.
pub proof fn law_report_touches_one(d: DownloadsView, index: usize, event: TaskEventView, other: int)
    requires
        0 <= other < d.tasks.len(),
        other != index,
    ensures
        reported(d, index, event).0.tasks[other] == d.tasks[other],
{
}

/// Letting a task in is granting it a permit and launching it.
pub proof fn law_letting_in_is_grant_and_launch(task: ImageTaskView, dest: DestinationView, index: nat)
    requires
        task.state == TaskState::Pending,
    ensures
        launched(task) == task_step(
            task_step(task, TaskEventView::PermitGranted, dest, index).0,
            TaskEventView::Launched,
            dest,
            index,
        ).0,
{
}

/// The downloads of one gallery: the pool, the destination, and one task for
/// each image.
pub struct Downloads {
    pool: PermitPool,
    dest: Destination,
    tasks: Vec<ImageTask>,
}

/// What the parts of a `Downloads` stand for together.
spec fn parts_view(pool: PermitPool, dest: Destination, tasks: Vec<ImageTask>) -> DownloadsView {
    DownloadsView {
        limit: pool.limit(),
        held: pool.held(),
        dest: dest@,
        tasks: tasks.deep_view(),
    }
}

impl View for Downloads {
    type V = DownloadsView;

    closed spec fn view(&self) -> DownloadsView {
        parts_view(self.pool, self.dest, self.tasks)
    }
}

impl Downloads {
    #[verifier::type_invariant]
    spec fn well_formed(self) -> bool {
        self@.wf()
    }

    /// The downloads of a gallery of `count` images, none of them begun,
    /// under the permits of `pool`.
    pub fn new(pool: PermitPool, dest: Destination, count: usize) -> (downloads: Downloads)
        ensures
            downloads@ == initial(pool.limit(), pool.held(), dest@, count as nat),
            downloads@.wf(),
    {
        proof {
            use_type_invariant(&pool);
            law_initial_wf(pool.limit(), pool.held(), dest@, count as nat);
        }
        let mut tasks: Vec<ImageTask> = Vec::new();
        let mut i: usize = 0;
        while i < count
            invariant
                i <= count,
                tasks.len() == i,
                forall|j: int| 0 <= j < i ==> (#[trigger] tasks[j])@ == fresh(),
            decreases count - i,
        {
            tasks.push(ImageTask::new());
            i += 1;
        }
        assert(tasks.deep_view() =~= Seq::new(count as nat, |i: int| fresh()));
        Downloads { pool, dest, tasks }
    }

    /// Hands the pool back, for the gallery after this one.
    pub fn into_pool(self) -> (pool: PermitPool)
        ensures
            pool.limit() == self@.limit,
            pool.held() == self@.held,
    {
        self.pool
    }

    /// How many images the gallery has.
    pub fn len(&self) -> (count: usize)
        ensures
            count == self@.tasks.len(),
    {
        self.tasks.len()
    }

    /// Where the task of image number `index` stands.
    pub fn state(&self, index: usize) -> (state: Option<TaskState>)
        ensures
            state == if index < self@.tasks.len() {
                Some(self@.tasks[index as int].state)
            } else {
                None
            },
    {
        if index < self.tasks.len() {
            Some(self.tasks[index].state)
        } else {
            None
        }
    }

    /// How many downloads are in flight. Never more than the pool has
    /// permits.
    pub fn in_flight(&self) -> (count: usize)
        ensures
            count == active_count(self@.tasks),
            count <= self@.limit,
    {
        proof {
            use_type_invariant(self);
        }
        let ghost tasks = self.tasks.deep_view();
        let mut count: usize = 0;
        let mut i: usize = 0;
        while i < self.tasks.len()
            invariant
                i <= self.tasks.len(),
                tasks == self.tasks.deep_view(),
                count == active_before(tasks, i as int),
                count <= i,
            decreases self.tasks.len() - i,
        {
            if holds_permit(self.tasks[i].state) {
                count += 1;
            }
            i += 1;
        }
        count
    }

    /// Whether every task is over.
    pub fn is_finished(&self) -> (finished: bool)
        ensures
            finished == self@.finished(),
    {
        let ghost tasks = self.tasks.deep_view();
        let mut i: usize = 0;
        while i < self.tasks.len()
            invariant
                i <= self.tasks.len(),
                tasks == self.tasks.deep_view(),
                forall|j: int| 0 <= j < i ==> is_over(#[trigger] tasks[j].state),
            decreases self.tasks.len() - i,
        {
            match self.tasks[i].state {
                TaskState::Done | TaskState::Failed => {},
                _ => {
                    assert(!is_over(tasks[i as int].state));
                    return false;
                },
            }
            i += 1;
        }
        true
    }
}

/// Applies a report to the parts of a `Downloads`.
fn hear(
    pool: &mut PermitPool,
    dest: &Destination,
    tasks: &mut Vec<ImageTask>,
    index: usize,
    event: TaskEvent,
) -> (action: TaskAction)
    ensures
        (parts_view(*final(pool), *dest, *final(tasks)), action@) == reported(
            parts_view(*old(pool), *dest, *old(tasks)),
            index,
            event@,
        ),
{
    let grant = match &event {
        TaskEvent::PermitGranted => true,
        _ => false,
    };
    if index >= tasks.len() || grant {
        return TaskAction::Idle;
    }
    let ghost before = tasks.deep_view();
    let was_active = holds_permit(tasks[index].state);
    let (after, action) = download_image(&tasks[index], event, dest, index);
    let is_active_now = holds_permit(after.state);
    let ghost after_view = after@;
    tasks.set(index, after);
    assert(tasks.deep_view() =~= before.update(index as int, after_view));
    if was_active && !is_active_now {
        pool.release();
    }
    action
}

/// Hands the free permits of the pool to the waiting tasks, by number, and
/// lists a launch for each task let in.
fn start_waiting(pool: &mut PermitPool, dest: &Destination, tasks: &mut Vec<ImageTask>, todo: &mut Vec<
    (usize, TaskAction),
>)
    requires
        old(pool).held() <= old(pool).limit(),
    ensures
        parts_view(*final(pool), *dest, *final(tasks)) == let_in(
            parts_view(*old(pool), *dest, *old(tasks)),
        ).0,
        final(todo).deep_view() == old(todo).deep_view() + let_in(
            parts_view(*old(pool), *dest, *old(tasks)),
        ).1,
{
    let ghost waiting = tasks.deep_view();
    let ghost listed = todo.deep_view();
    let ghost free = (pool.limit() - pool.held()) as nat;
    let ghost held = pool.held();
    let n = tasks.len();
    let mut i: usize = 0;
    while i < n && pool.in_use() < pool.size()
        invariant
            i <= n,
            n == tasks.len(),
            waiting.len() == n,
            pool.limit() == old(pool).limit(),
            held + free == pool.limit(),
            held <= pool.held() <= pool.limit(),
            pool.held() - held == least(free, pending_before(waiting, i as int)),
            forall|j: int|
                0 <= j < i ==> (#[trigger] tasks[j])@ == if is_let_in(waiting, free, j) {
                    launched(waiting[j])
                } else {
                    waiting[j]
                },
            forall|j: int| i <= j < n ==> (#[trigger] tasks[j])@ == waiting[j],
            todo.deep_view() == listed + launches(waiting, free, i as int),
        decreases n - i,
    {
        let ghost so_far = todo.deep_view();
        match tasks[i].state {
            TaskState::Pending => {
                assert(is_let_in(waiting, free, i as int));
                let task = tasks[i].at(TaskState::Resolving);
                let granted = pool.try_acquire();
                tasks.set(i, task);
                todo.push((i, TaskAction::Resolve));
                assert(todo.deep_view() =~= so_far.push((i, TaskActionView::Resolve)));
            },
            _ => {},
        }
        i += 1;
    }
    proof {
        if i < n {
            lemma_pending_grows(waiting, i as int, n as int);
            lemma_launches_stop(waiting, free, i as int, n as int);
            assert forall|j: int| i <= j < n implies !is_let_in(waiting, free, j) by {
                lemma_pending_grows(waiting, i as int, j);
            }
        }
        assert(tasks.deep_view() =~= let_in(parts_view(*old(pool), *dest, *old(tasks))).0.tasks);
    }
}

/// One step of the scheduler. A report says what happened to the task of one
/// image; without a report the step only starts what can start. The report
/// is applied, a task that ended gives its permit back, and the free permits
/// are handed to the waiting tasks in the order of their numbers. The answer
/// lists what the caller is to do: the action for the task reported on, then
/// `Resolve` for each task let in.
pub fn download_gallery(downloads: Downloads, report: Option<(usize, TaskEvent)>) -> (step: (
    Downloads,
    Vec<(usize, TaskAction)>,
))
    ensures
        (step.0@, step.1.deep_view()) == schedule(downloads@, report.deep_view()),
        step.0@.wf(),
        active_count(step.0@.tasks) <= step.0@.limit,
{
    proof {
        use_type_invariant(&downloads);
        law_schedule_keeps_wf(downloads@, report.deep_view());
    }
    let Downloads { mut pool, dest, mut tasks } = downloads;
    let mut todo: Vec<(usize, TaskAction)> = Vec::new();
    match report {
        Some((index, event)) => {
            proof {
                law_report_keeps_wf(downloads@, index, event@);
            }
            let action = hear(&mut pool, &dest, &mut tasks, index, event);
            let ghost first = action@;
            todo.push((index, action));
            assert(todo.deep_view() =~= seq![(index, first)]);
        },
        None => {
            assert(todo.deep_view() =~= Seq::<(usize, TaskActionView)>::empty());
        },
    }
    start_waiting(&mut pool, &dest, &mut tasks, &mut todo);
    (Downloads { pool, dest, tasks }, todo)
}

} // verus!
