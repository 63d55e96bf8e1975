//! The cancellable change monitor.
//!
//! A monitor watches the session directory for changes in one [`Category`].
//! Its background loop multiplexes two readiness sources — the directory's
//! notification descriptor and a private cancellation pipe — on one
//! OS multiplexer. This module holds the verified decision logic of that
//! loop: the keyword a category selects, the wait timeout computed from the
//! directory's deadline hint, the dispatch plan for a batch of ready
//! descriptors, and the teardown plan of the owning handle. The embedding
//! application owns the thread, the pipe, and the directory FFI, and obeys
//! the plans computed here.

use vstd::prelude::*;

use crate::OsError;

verus! {

/// Which kind of change a monitor watches for.
///
/// `All` selects no filter; every other variant selects a fixed lowercase
/// keyword that is passed verbatim to the session directory.
#[derive(Clone, Copy, Debug, PartialEq, Eq, Structural)]
pub enum Category {
    All,
    Seats,
    Sessions,
    Uids,
    Machines,
}

/// The keyword a category selects, `None` for no filter.
pub open spec fn spec_keyword(c: Category) -> Option<Seq<char>> {
    match c {
        Category::All => None,
        Category::Seats => Some("seat"@),
        Category::Sessions => Some("session"@),
        Category::Uids => Some("uid"@),
        Category::Machines => Some("machine"@),
    }
}

impl Category {
    /// The selector keyword handed to the session directory, `None` for
    /// "watch everything".
    pub fn as_str(&self) -> (r: Option<&'static str>)
        ensures
            (r is None <==> *self is All),
            r matches Some(s) ==> spec_keyword(*self) == Some(s@),
    {
        match self {
            Category::All => None,
            Category::Seats => Some("seat"),
            Category::Sessions => Some("session"),
            Category::Uids => Some("uid"),
            Category::Machines => Some("machine"),
        }
    }
}

/// The directory's "no deadline" sentinel: wait indefinitely.
pub const NO_DEADLINE: u64 = u64::MAX;

/// The multiplexer wait timeout, in milliseconds, for a directory deadline
/// and the current monotonic reading, both in microseconds: `-1` (wait
/// indefinitely) on the no-deadline sentinel, otherwise the remaining time
/// rounded up to whole milliseconds and never negative.
pub open spec fn spec_wait_timeout(deadline_usec: u64, now_usec: u64) -> int {
    if deadline_usec == NO_DEADLINE {
        -1
    } else if deadline_usec > now_usec {
        (deadline_usec - now_usec + 999) / 1000
    } else {
        0
    }
}

/// [`spec_wait_timeout`], clamped so that it fits the multiplexer's `i32`
/// timeout argument. A clamped wait only wakes the loop early, which is
/// always safe: the next iteration recomputes the timeout.
pub open spec fn spec_clamped_timeout(deadline_usec: u64, now_usec: u64) -> int {
    if spec_wait_timeout(deadline_usec, now_usec) > i32::MAX {
        i32::MAX as int
    } else {
        spec_wait_timeout(deadline_usec, now_usec)
    }
}

/// Converts the directory's deadline hint into the relative millisecond
/// timeout for the multiplexer wait, given the monotonic clock's current
/// reading in microseconds.
pub fn compute_wait_timeout(deadline_usec: u64, now_usec: u64) -> (r: i32)
    ensures
        r == spec_clamped_timeout(deadline_usec, now_usec),
        deadline_usec == NO_DEADLINE <==> r == -1,
        deadline_usec != NO_DEADLINE && deadline_usec <= now_usec ==> r == 0,
        r >= -1,
{
    if deadline_usec == NO_DEADLINE {
        -1
    } else if deadline_usec > now_usec {
        let remaining: u64 = deadline_usec - now_usec;
        if remaining > (i32::MAX as u64) * 1000 {
            i32::MAX
        } else {
            ((remaining + 999) / 1000) as i32
        }
    } else {
        0
    }
}

/// One step the watch loop takes after a multiplexer wakeup.
#[derive(Clone, Copy, Debug, PartialEq, Eq, Structural)]
pub enum WatchAction {
    /// Invoke the caller's callback.
    InvokeCallback,
    /// Acknowledge the directory's pending notification, re-arming its
    /// edge-triggered descriptor.
    FlushDirectory,
    /// Leave the loop; cancellation was observed.
    ExitLoop,
    /// Release the directory handle; nothing follows it.
    ReleaseDirectory,
}

/// The dispatch plan for one batch of ready descriptor tags, scanned in
/// order: the cancellation tag ends the plan at once (cancellation takes
/// priority over directory events later in the same batch) — the loop exits
/// and then releases the directory handle; each directory tag contributes
/// one callback invocation immediately followed by one flush; any other tag
/// is ignored.
pub open spec fn spec_batch_plan(batch: Seq<u64>, cancel_tag: u64, dir_tag: u64) -> Seq<
    WatchAction,
>
    decreases batch.len(),
{
    if batch.len() == 0 {
        Seq::empty()
    } else if batch[0] == cancel_tag {
        seq![WatchAction::ExitLoop, WatchAction::ReleaseDirectory]
    } else if batch[0] == dir_tag {
        seq![WatchAction::InvokeCallback, WatchAction::FlushDirectory] + spec_batch_plan(
            batch.drop_first(),
            cancel_tag,
            dir_tag,
        )
    } else {
        spec_batch_plan(batch.drop_first(), cancel_tag, dir_tag)
    }
}

/// Computes the dispatch plan for the ready-descriptor tags of one
/// multiplexer wakeup. The loop performs the returned actions in order.
pub fn plan_batch(batch: &Vec<u64>, cancel_tag: u64, dir_tag: u64) -> (plan: Vec<WatchAction>)
    ensures
        plan@ == spec_batch_plan(batch@, cancel_tag, dir_tag),
{
    let mut plan: Vec<WatchAction> = Vec::new();
    let mut i: usize = 0;
    proof {
        assert(batch@.skip(0) =~= batch@);
        assert(Seq::<WatchAction>::empty() + spec_batch_plan(batch@, cancel_tag, dir_tag)
            =~= spec_batch_plan(batch@, cancel_tag, dir_tag));
    }
    while i < batch.len()
        invariant
            i <= batch@.len(),
            spec_batch_plan(batch@, cancel_tag, dir_tag) == plan@ + spec_batch_plan(
                batch@.skip(i as int),
                cancel_tag,
                dir_tag,
            ),
        decreases batch@.len() - i,
    {
        proof {
            assert(batch@.skip(i as int)[0] == batch@[i as int]);
            assert(batch@.skip(i as int).drop_first() =~= batch@.skip(i as int + 1));
        }
        let tag = batch[i];
        if tag == cancel_tag {
            plan.push(WatchAction::ExitLoop);
            plan.push(WatchAction::ReleaseDirectory);
            proof {
                assert(plan@ =~= plan@.subrange(0, plan@.len() - 2) + seq![
                    WatchAction::ExitLoop,
                    WatchAction::ReleaseDirectory,
                ]);
            }
            return plan;
        } else if tag == dir_tag {
            plan.push(WatchAction::InvokeCallback);
            plan.push(WatchAction::FlushDirectory);
            proof {
                assert(plan@ + spec_batch_plan(batch@.skip(i as int + 1), cancel_tag, dir_tag)
                    =~= plan@.subrange(0, plan@.len() - 2) + (seq![
                    WatchAction::InvokeCallback,
                    WatchAction::FlushDirectory,
                ] + spec_batch_plan(batch@.skip(i as int + 1), cancel_tag, dir_tag)));
            }
        }
        i = i + 1;
    }
    proof {
        assert(batch@.skip(batch@.len() as int) =~= Seq::<u64>::empty());
        assert(plan@ + Seq::<WatchAction>::empty() =~= plan@);
    }
    plan
}

/// How many times `a` occurs in `plan`.
pub open spec fn count_action(plan: Seq<WatchAction>, a: WatchAction) -> nat
    decreases plan.len(),
{
    if plan.len() == 0 {
        0
    } else if plan[0] == a {
        1 + count_action(plan.drop_first(), a)
    } else {
        count_action(plan.drop_first(), a)
    }
}

/// How many directory-readiness tags the loop dispatches from `batch`:
/// those before the first cancellation tag.
pub open spec fn count_dispatched(batch: Seq<u64>, cancel_tag: u64, dir_tag: u64) -> nat
    decreases batch.len(),
{
    if batch.len() == 0 {
        0
    } else if batch[0] == cancel_tag {
        0
    } else if batch[0] == dir_tag {
        1 + count_dispatched(batch.drop_first(), cancel_tag, dir_tag)
    } else {
        count_dispatched(batch.drop_first(), cancel_tag, dir_tag)
    }
}

/// Law: a wakeup whose batch holds no directory-readiness tag never reaches
/// the callback, and when the cancellation tag is present the whole plan is
/// the exit step followed by the directory release — the loop wakes and
/// exits without invoking the callback for that wakeup.
pub proof fn lemma_cancellation_exits_without_callback(
    batch: Seq<u64>,
    cancel_tag: u64,
    dir_tag: u64,
)
    requires
        forall|i: int| 0 <= i < batch.len() ==> batch[i] != dir_tag,
        batch.contains(cancel_tag),
    ensures
        spec_batch_plan(batch, cancel_tag, dir_tag) =~= seq![
            WatchAction::ExitLoop,
            WatchAction::ReleaseDirectory,
        ],
        count_action(spec_batch_plan(batch, cancel_tag, dir_tag), WatchAction::InvokeCallback)
            == 0,
    decreases batch.len(),
{
    let plan = spec_batch_plan(batch, cancel_tag, dir_tag);
    assert(batch[0] != dir_tag);
    if batch[0] != cancel_tag {
        assert(batch.drop_first().contains(cancel_tag)) by {
            let w = choose|w: int| 0 <= w < batch.len() && batch[w] == cancel_tag;
            assert(batch.drop_first()[w - 1] == cancel_tag);
        }
        lemma_cancellation_exits_without_callback(batch.drop_first(), cancel_tag, dir_tag);
        assert(plan == spec_batch_plan(batch.drop_first(), cancel_tag, dir_tag));
    } else {
        assert(plan =~= seq![WatchAction::ExitLoop, WatchAction::ReleaseDirectory]);
        assert(plan.drop_first() =~= seq![WatchAction::ReleaseDirectory]);
        assert(plan.drop_first().drop_first() =~= Seq::<WatchAction>::empty());
        assert(count_action(Seq::<WatchAction>::empty(), WatchAction::InvokeCallback) == 0);
        assert(count_action(plan.drop_first(), WatchAction::InvokeCallback) == count_action(
            plan.drop_first().drop_first(),
            WatchAction::InvokeCallback,
        ));
        assert(count_action(plan, WatchAction::InvokeCallback) == count_action(
            plan.drop_first(),
            WatchAction::InvokeCallback,
        ));
    }
}

/// Every callback invocation in the plan is immediately followed by a
/// directory flush, before any later action.
pub open spec fn callbacks_flushed(plan: Seq<WatchAction>) -> bool
    decreases plan.len(),
{
    if plan.len() == 0 {
        true
    } else if plan[0] is InvokeCallback {
        plan.len() >= 2 && plan[1] is FlushDirectory && callbacks_flushed(plan.drop_first())
    } else {
        callbacks_flushed(plan.drop_first())
    }
}

/// Law: every dispatch plan holds exactly one callback invocation and
/// exactly one flush for each directory tag dispatched from the batch —
/// never a callback without its flush, never a flush without its callback.
pub proof fn lemma_one_callback_one_flush(batch: Seq<u64>, cancel_tag: u64, dir_tag: u64)
    requires
        cancel_tag != dir_tag,
    ensures
        count_action(spec_batch_plan(batch, cancel_tag, dir_tag), WatchAction::InvokeCallback)
            == count_dispatched(batch, cancel_tag, dir_tag),
        count_action(spec_batch_plan(batch, cancel_tag, dir_tag), WatchAction::FlushDirectory)
            == count_dispatched(batch, cancel_tag, dir_tag),
    decreases batch.len(),
{
    let plan = spec_batch_plan(batch, cancel_tag, dir_tag);
    if batch.len() == 0 {
        assert(count_action(plan, WatchAction::InvokeCallback) == 0);
        assert(count_action(plan, WatchAction::FlushDirectory) == 0);
    } else if batch[0] == cancel_tag {
        assert(plan =~= seq![WatchAction::ExitLoop, WatchAction::ReleaseDirectory]);
        assert(plan.drop_first() =~= seq![WatchAction::ReleaseDirectory]);
        assert(plan.drop_first().drop_first() =~= Seq::<WatchAction>::empty());
        assert(count_action(Seq::<WatchAction>::empty(), WatchAction::InvokeCallback) == 0);
        assert(count_action(Seq::<WatchAction>::empty(), WatchAction::FlushDirectory) == 0);
        assert(count_action(plan.drop_first(), WatchAction::InvokeCallback) == count_action(
            plan.drop_first().drop_first(),
            WatchAction::InvokeCallback,
        ));
        assert(count_action(plan.drop_first(), WatchAction::FlushDirectory) == count_action(
            plan.drop_first().drop_first(),
            WatchAction::FlushDirectory,
        ));
        assert(count_action(plan, WatchAction::InvokeCallback) == count_action(
            plan.drop_first(),
            WatchAction::InvokeCallback,
        ));
        assert(count_action(plan, WatchAction::FlushDirectory) == count_action(
            plan.drop_first(),
            WatchAction::FlushDirectory,
        ));
    } else {
        lemma_one_callback_one_flush(batch.drop_first(), cancel_tag, dir_tag);
        let rest = spec_batch_plan(batch.drop_first(), cancel_tag, dir_tag);
        if batch[0] == dir_tag {
            let middle = seq![WatchAction::FlushDirectory] + rest;
            assert(plan =~= seq![WatchAction::InvokeCallback, WatchAction::FlushDirectory]
                + rest);
            assert(plan.drop_first() =~= middle);
            assert(middle.drop_first() =~= rest);
            assert(count_action(plan, WatchAction::InvokeCallback) == 1 + count_action(
                middle,
                WatchAction::InvokeCallback,
            ));
            assert(count_action(middle, WatchAction::InvokeCallback) == count_action(
                rest,
                WatchAction::InvokeCallback,
            ));
            assert(count_action(plan, WatchAction::FlushDirectory) == count_action(
                middle,
                WatchAction::FlushDirectory,
            ));
            assert(count_action(middle, WatchAction::FlushDirectory) == 1 + count_action(
                rest,
                WatchAction::FlushDirectory,
            ));
        } else {
            assert(plan == rest);
        }
    }
}

/// Law: in every dispatch plan, a callback invocation is immediately
/// followed by the directory flush, before any later action — the loop never
/// waits again between a callback and the flush that re-arms the
/// edge-triggered directory descriptor.
pub proof fn lemma_callback_then_flush(batch: Seq<u64>, cancel_tag: u64, dir_tag: u64)
    requires
        cancel_tag != dir_tag,
    ensures
        callbacks_flushed(spec_batch_plan(batch, cancel_tag, dir_tag)),
    decreases batch.len(),
{
    let plan = spec_batch_plan(batch, cancel_tag, dir_tag);
    if batch.len() == 0 {
    } else if batch[0] == cancel_tag {
        assert(plan =~= seq![WatchAction::ExitLoop, WatchAction::ReleaseDirectory]);
        assert(plan.drop_first() =~= seq![WatchAction::ReleaseDirectory]);
        assert(plan.drop_first().drop_first() =~= Seq::<WatchAction>::empty());
        assert(callbacks_flushed(plan.drop_first().drop_first()));
        assert(callbacks_flushed(plan.drop_first()));
    } else {
        lemma_callback_then_flush(batch.drop_first(), cancel_tag, dir_tag);
        let rest = spec_batch_plan(batch.drop_first(), cancel_tag, dir_tag);
        if batch[0] == dir_tag {
            let middle = seq![WatchAction::FlushDirectory] + rest;
            assert(plan =~= seq![WatchAction::InvokeCallback, WatchAction::FlushDirectory]
                + rest);
            assert(plan.drop_first() =~= middle);
            assert(middle.drop_first() =~= rest);
            assert(callbacks_flushed(middle));
            assert(plan[1] is FlushDirectory);
        } else {
            assert(plan == rest);
        }
    }
}

/// Law: the plan ends the loop exactly when the batch holds the cancellation
/// tag.
pub proof fn lemma_exit_iff_cancelled(batch: Seq<u64>, cancel_tag: u64, dir_tag: u64)
    requires
        cancel_tag != dir_tag,
    ensures
        spec_batch_plan(batch, cancel_tag, dir_tag).contains(WatchAction::ExitLoop)
            <==> batch.contains(cancel_tag),
    decreases batch.len(),
{
    let plan = spec_batch_plan(batch, cancel_tag, dir_tag);
    if batch.len() == 0 {
        assert(!batch.contains(cancel_tag));
    } else if batch[0] == cancel_tag {
        assert(plan[0] == WatchAction::ExitLoop);
        assert(batch[0] == cancel_tag);
    } else {
        lemma_exit_iff_cancelled(batch.drop_first(), cancel_tag, dir_tag);
        let rest = spec_batch_plan(batch.drop_first(), cancel_tag, dir_tag);
        assert(batch.contains(cancel_tag) <==> batch.drop_first().contains(cancel_tag)) by {
            if batch.contains(cancel_tag) {
                let w = choose|w: int| 0 <= w < batch.len() && batch[w] == cancel_tag;
                assert(batch.drop_first()[w - 1] == cancel_tag);
            }
            if batch.drop_first().contains(cancel_tag) {
                let w = choose|w: int|
                    0 <= w < batch.drop_first().len() && batch.drop_first()[w] == cancel_tag;
                assert(batch[w + 1] == cancel_tag);
            }
        }
        if batch[0] == dir_tag {
            assert(plan.contains(WatchAction::ExitLoop) <==> rest.contains(
                WatchAction::ExitLoop,
            )) by {
                if rest.contains(WatchAction::ExitLoop) {
                    let w = choose|w: int| 0 <= w < rest.len() && rest[w] == WatchAction::ExitLoop;
                    assert(plan[w + 2] == WatchAction::ExitLoop);
                }
                if plan.contains(WatchAction::ExitLoop) {
                    let w = choose|w: int| 0 <= w < plan.len() && plan[w] == WatchAction::ExitLoop;
                    assert(w >= 2);
                    assert(rest[w - 2] == WatchAction::ExitLoop);
                }
            }
        }
    }
}

/// Law: the plan releases the directory handle exactly when it exits the
/// loop — exactly once, as the final step, immediately after the exit step —
/// and a plan that does not exit never releases the handle.
pub proof fn lemma_release_once_after_exit(batch: Seq<u64>, cancel_tag: u64, dir_tag: u64)
    requires
        cancel_tag != dir_tag,
    ensures
        batch.contains(cancel_tag) ==> spec_batch_plan(batch, cancel_tag, dir_tag).len() >= 2,
        batch.contains(cancel_tag) ==> spec_batch_plan(batch, cancel_tag, dir_tag).last()
            == WatchAction::ReleaseDirectory,
        batch.contains(cancel_tag) ==> spec_batch_plan(batch, cancel_tag, dir_tag)[
            spec_batch_plan(batch, cancel_tag, dir_tag).len() - 2
        ] == WatchAction::ExitLoop,
        batch.contains(cancel_tag) ==> count_action(
            spec_batch_plan(batch, cancel_tag, dir_tag),
            WatchAction::ReleaseDirectory,
        ) == 1,
        !batch.contains(cancel_tag) ==> count_action(
            spec_batch_plan(batch, cancel_tag, dir_tag),
            WatchAction::ReleaseDirectory,
        ) == 0,
    decreases batch.len(),
{
    let plan = spec_batch_plan(batch, cancel_tag, dir_tag);
    if batch.len() == 0 {
        assert(!batch.contains(cancel_tag));
        assert(count_action(plan, WatchAction::ReleaseDirectory) == 0);
    } else if batch[0] == cancel_tag {
        assert(batch.contains(cancel_tag));
        assert(plan =~= seq![WatchAction::ExitLoop, WatchAction::ReleaseDirectory]);
        assert(plan.drop_first() =~= seq![WatchAction::ReleaseDirectory]);
        assert(plan.drop_first().drop_first() =~= Seq::<WatchAction>::empty());
        assert(count_action(Seq::<WatchAction>::empty(), WatchAction::ReleaseDirectory) == 0);
        assert(count_action(plan.drop_first(), WatchAction::ReleaseDirectory) == 1
            + count_action(plan.drop_first().drop_first(), WatchAction::ReleaseDirectory));
        assert(count_action(plan, WatchAction::ReleaseDirectory) == count_action(
            plan.drop_first(),
            WatchAction::ReleaseDirectory,
        ));
    } else {
        lemma_release_once_after_exit(batch.drop_first(), cancel_tag, dir_tag);
        let rest = spec_batch_plan(batch.drop_first(), cancel_tag, dir_tag);
        assert(batch.contains(cancel_tag) <==> batch.drop_first().contains(cancel_tag)) by {
            if batch.contains(cancel_tag) {
                let w = choose|w: int| 0 <= w < batch.len() && batch[w] == cancel_tag;
                assert(batch.drop_first()[w - 1] == cancel_tag);
            }
            if batch.drop_first().contains(cancel_tag) {
                let w = choose|w: int|
                    0 <= w < batch.drop_first().len() && batch.drop_first()[w] == cancel_tag;
                assert(batch[w + 1] == cancel_tag);
            }
        }
        if batch[0] == dir_tag {
            let middle = seq![WatchAction::FlushDirectory] + rest;
            assert(plan =~= seq![WatchAction::InvokeCallback, WatchAction::FlushDirectory]
                + rest);
            assert(plan.drop_first() =~= middle);
            assert(middle.drop_first() =~= rest);
            assert(count_action(plan, WatchAction::ReleaseDirectory) == count_action(
                middle,
                WatchAction::ReleaseDirectory,
            ));
            assert(count_action(middle, WatchAction::ReleaseDirectory) == count_action(
                rest,
                WatchAction::ReleaseDirectory,
            ));
            if batch.drop_first().contains(cancel_tag) {
                assert(plan.len() == rest.len() + 2);
                assert(plan.last() == rest.last());
                assert(plan[plan.len() - 2] == rest[rest.len() - 2]);
            }
        } else {
            assert(plan == rest);
        }
    }
}

/// What a freshly started watch loop needs from its handle: the read end of
/// the cancellation pipe, and the selector keyword for the directory.
#[derive(Clone, Copy, Debug, PartialEq, Eq)]
pub struct WatchStart {
    pub cancel_fd: i32,
    pub selector: Option<&'static str>,
}

/// Starting the watch twice on one handle is refused: a second loop would
/// run uncoordinated with the first and leak it.
#[derive(Clone, Copy, Debug, PartialEq, Eq, Structural)]
pub enum InitError {
    AlreadyStarted,
}

/// One step of tearing a monitor handle down.
#[derive(Clone, Copy, Debug, PartialEq, Eq, Structural)]
pub enum TeardownAction {
    /// Write the single cancellation byte to this descriptor.
    SignalCancel(i32),
    /// Block until the watch loop's execution context has terminated.
    JoinLoop,
    /// Close this descriptor.
    CloseFd(i32),
}

/// The teardown steps of a monitor handle, in order: when the loop was
/// started, signal cancellation on the write end and join the loop; then
/// close whichever pipe descriptors are valid, read end first.
pub open spec fn spec_teardown_plan(started: bool, read_fd: i32, write_fd: i32) -> Seq<
    TeardownAction,
> {
    (if started {
        seq![TeardownAction::SignalCancel(write_fd), TeardownAction::JoinLoop]
    } else {
        Seq::empty()
    }) + (if read_fd >= 0 {
        seq![TeardownAction::CloseFd(read_fd)]
    } else {
        Seq::empty()
    }) + (if write_fd >= 0 {
        seq![TeardownAction::CloseFd(write_fd)]
    } else {
        Seq::empty()
    })
}

/// The owner-facing handle of one change monitor: the cancellation pipe's
/// two descriptors and whether the watch loop was started. The embedding
/// application creates the pipe, owns the loop's join handle, and performs
/// the plans this type computes.
pub struct Monitor {
    read_fd: i32,
    write_fd: i32,
    started: bool,
}

impl Monitor {
    /// The read end of the cancellation pipe, moved into the watch loop.
    pub closed spec fn spec_read_fd(&self) -> i32 {
        self.read_fd
    }

    /// The write end of the cancellation pipe, kept by the handle.
    pub closed spec fn spec_write_fd(&self) -> i32 {
        self.write_fd
    }

    /// Whether the watch loop was started.
    pub closed spec fn spec_started(&self) -> bool {
        self.started
    }

    /// Both pipe descriptors are valid and distinct.
    pub open spec fn wf(&self) -> bool {
        self.spec_read_fd() >= 0 && self.spec_write_fd() >= 0 && self.spec_read_fd()
            != self.spec_write_fd()
    }

    /// A handle over a freshly created cancellation pipe; no loop runs yet.
    pub fn new(read_fd: i32, write_fd: i32) -> (m: Monitor)
        requires
            read_fd >= 0,
            write_fd >= 0,
            read_fd != write_fd,
        ensures
            m.wf(),
            !m.spec_started(),
            m.spec_read_fd() == read_fd,
            m.spec_write_fd() == write_fd,
    {
        Monitor { read_fd, write_fd, started: false }
    }

    /// Marks the watch as started and hands out what the loop needs. At most
    /// one loop is ever started per handle: a second call is refused and
    /// changes nothing.
    pub fn init(&mut self, category: Category) -> (r: Result<WatchStart, InitError>)
        ensures
            old(self).spec_started() ==> r == Result::<WatchStart, InitError>::Err(
                InitError::AlreadyStarted,
            ) && *final (self) == *old(self),
            !old(self).spec_started() ==> (r matches Ok(ws) && ws.cancel_fd == old(
                self,
            ).spec_read_fd() && (ws.selector is None <==> category is All) && (
            ws.selector matches Some(s) ==> spec_keyword(category) == Some(s@))),
            !old(self).spec_started() ==> final (self).spec_started(),
            final (self).spec_read_fd() == old(self).spec_read_fd(),
            final (self).spec_write_fd() == old(self).spec_write_fd(),
    {
        if self.started {
            return Err(InitError::AlreadyStarted);
        }
        self.started = true;
        Ok(WatchStart { cancel_fd: self.read_fd, selector: category.as_str() })
    }

    /// The teardown steps the owner must perform, in order, when the handle
    /// is discarded.
    pub fn teardown_plan(&self) -> (plan: Vec<TeardownAction>)
        ensures
            plan@ == spec_teardown_plan(
                self.spec_started(),
                self.spec_read_fd(),
                self.spec_write_fd(),
            ),
    {
        let mut plan: Vec<TeardownAction> = Vec::new();
        if self.started {
            plan.push(TeardownAction::SignalCancel(self.write_fd));
            plan.push(TeardownAction::JoinLoop);
        }
        if self.read_fd >= 0 {
            plan.push(TeardownAction::CloseFd(self.read_fd));
        }
        if self.write_fd >= 0 {
            plan.push(TeardownAction::CloseFd(self.write_fd));
        }
        proof {
            assert(plan@ =~= spec_teardown_plan(self.started, self.read_fd, self.write_fd));
        }
        plan
    }
}

/// Law: teardown of a started handle signals cancellation on the write end
/// first, joins the loop second, and only then closes each pipe descriptor,
/// each exactly once. Destruction therefore blocks on nothing but the loop
/// observing its cancellation byte.
pub proof fn lemma_teardown_after_start(read_fd: i32, write_fd: i32)
    requires
        read_fd >= 0,
        write_fd >= 0,
        read_fd != write_fd,
    ensures
        spec_teardown_plan(true, read_fd, write_fd) =~= seq![
            TeardownAction::SignalCancel(write_fd),
            TeardownAction::JoinLoop,
            TeardownAction::CloseFd(read_fd),
            TeardownAction::CloseFd(write_fd),
        ],
{
}

/// Law: teardown of a never-started handle neither signals cancellation nor
/// joins anything — there is nothing to wait for — and closes each of the
/// two distinct descriptors exactly once: no hang and no double close.
pub proof fn lemma_teardown_without_start(read_fd: i32, write_fd: i32)
    requires
        read_fd >= 0,
        write_fd >= 0,
        read_fd != write_fd,
    ensures
        spec_teardown_plan(false, read_fd, write_fd) =~= seq![
            TeardownAction::CloseFd(read_fd),
            TeardownAction::CloseFd(write_fd),
        ],
        !spec_teardown_plan(false, read_fd, write_fd).contains(TeardownAction::JoinLoop),
        spec_teardown_plan(false, read_fd, write_fd)[0] != spec_teardown_plan(
            false,
            read_fd,
            write_fd,
        )[1],
{
    let plan = spec_teardown_plan(false, read_fd, write_fd);
    assert(plan =~= seq![TeardownAction::CloseFd(read_fd), TeardownAction::CloseFd(write_fd)]);
    assert(!plan.contains(TeardownAction::JoinLoop)) by {
        assert(forall|i: int| 0 <= i < plan.len() ==> plan[i] != TeardownAction::JoinLoop);
    }
}

/// The multiplexer's "readable" interest bit.
pub const EPOLLIN_MASK: u32 = 1;

/// The multiplexer's edge-triggered interest bit.
pub const EPOLLET_MASK: u32 = 0x8000_0000;

/// The OS error code of a wait interrupted by signal delivery.
pub const INTERRUPTED_ERRNO: i32 = 4;

/// How many ready descriptors one wait can report at most.
pub const MAX_READY_EVENTS: usize = 1024;

/// Relies on epoll::create: on success the new multiplexer descriptor is
/// valid, hence non-negative; the descriptor is not inherited across process
/// image replacement.
#[verifier::external_body]
fn multiplexer_create() -> (r: Result<i32, OsError>)
    ensures
        r matches Ok(fd) ==> fd >= 0,
{
    match epoll::create(true) {
        Ok(fd) => Ok(fd),
        Err(e) => Err(OsError { errno: e.raw_os_error().unwrap_or(0) }),
    }
}

/// Relies on epoll::ctl with the addition option: registers interest in the
/// events of `mask` on `fd`, tagging readiness reports with `tag`.
#[verifier::external_body]
fn multiplexer_add(ep_fd: i32, fd: i32, mask: u32, tag: u64) -> (r: Result<(), OsError>) {
    let event = epoll::Event { events: mask, data: tag };
    match epoll::ctl(ep_fd, epoll::ControlOptions::EPOLL_CTL_ADD, fd, event) {
        Ok(()) => Ok(()),
        Err(e) => Err(OsError { errno: e.raw_os_error().unwrap_or(0) }),
    }
}

/// Relies on epoll::wait: blocks for at most `timeout_msec` milliseconds
/// (indefinitely when negative) and reports the tags of the descriptors that
/// became ready, in the multiplexer's order, at most [`MAX_READY_EVENTS`] of
/// them. A failure carries the OS error code.
#[verifier::external_body]
fn multiplexer_wait(ep_fd: i32, timeout_msec: i32) -> (r: Result<Vec<u64>, i32>)
    ensures
        r matches Ok(tags) ==> tags@.len() <= MAX_READY_EVENTS,
{
    let mut buf = vec![epoll::Event { events: 0, data: 0 }; MAX_READY_EVENTS];
    match epoll::wait(ep_fd, timeout_msec, &mut buf) {
        Ok(n) => Ok(buf[..n].iter().map(|e| e.data).collect()),
        Err(e) => Err(e.raw_os_error().unwrap_or(0)),
    }
}

/// Relies on nix::time::clock_gettime on the monotonic clock: a reading's
/// nanosecond part lies below one billion. Nothing more is assumed — the
/// reading itself depends on the machine and the moment.
#[verifier::external_body]
fn monotonic_clock_parts() -> (r: Result<(i64, i64), i32>)
    ensures
        r matches Ok(p) ==> 0 <= p.1 < 1_000_000_000,
{
    match nix::time::clock_gettime(nix::time::ClockId::CLOCK_MONOTONIC) {
        Ok(ts) => Ok((ts.tv_sec(), ts.tv_nsec())),
        Err(e) => Err(e as i32),
    }
}

/// The interest mask used for the directory descriptor: its own reported
/// mask with edge-triggered interest added. Edge-triggered is required
/// because the directory does not queue events: level-triggered interest
/// would busy-loop until the notification is flushed.
pub fn registration_mask(dir_mask: u32) -> (r: u32)
    ensures
        r == dir_mask | EPOLLET_MASK,
{
    dir_mask | EPOLLET_MASK
}

/// Opens the multiplexer and registers both readiness sources: the
/// cancellation descriptor for readable interest, and the directory
/// descriptor for its reported mask with edge-triggered interest added.
/// Each descriptor is its own tag in readiness reports.
pub fn setup_multiplexer(cancel_fd: i32, dir_fd: i32, dir_mask: u32) -> (r: Result<i32, OsError>)
    requires
        cancel_fd >= 0,
        dir_fd >= 0,
    ensures
        r matches Ok(fd) ==> fd >= 0,
{
    let ep_fd = match multiplexer_create() {
        Ok(fd) => fd,
        Err(e) => {
            return Err(e);
        },
    };
    match multiplexer_add(ep_fd, cancel_fd, EPOLLIN_MASK, cancel_fd as u64) {
        Ok(()) => (),
        Err(e) => {
            return Err(e);
        },
    }
    match multiplexer_add(ep_fd, dir_fd, registration_mask(dir_mask), dir_fd as u64) {
        Ok(()) => (),
        Err(e) => {
            return Err(e);
        },
    }
    Ok(ep_fd)
}

/// What one multiplexer wait attempt tells the loop to do.
#[derive(Debug, PartialEq, Eq)]
pub enum WaitStep {
    /// Descriptors became ready (possibly none, on a timeout): dispatch
    /// these tags.
    Ready(Vec<u64>),
    /// The wait was interrupted by signal delivery: wait again with the
    /// same, not re-decremented, timeout. Never surfaced as a failure.
    RetrySameTimeout,
    /// The wait failed for real.
    Fail(OsError),
}

/// Applies the recoverable-interruption rule to one wait outcome: ready
/// tags are dispatched as they are; an interrupted wait is retried with the
/// same timeout and never surfaced; any other failure is surfaced as fatal.
pub fn classify_wait(res: Result<Vec<u64>, i32>) -> (r: WaitStep)
    ensures
        res matches Ok(tags) ==> r == WaitStep::Ready(tags),
        res matches Err(e) ==> (e == INTERRUPTED_ERRNO ==> r == WaitStep::RetrySameTimeout) && (
        e != INTERRUPTED_ERRNO ==> r == WaitStep::Fail((OsError { errno: e }))),
{
    match res {
        Ok(tags) => WaitStep::Ready(tags),
        Err(e) => {
            if e == INTERRUPTED_ERRNO {
                WaitStep::RetrySameTimeout
            } else {
                WaitStep::Fail(OsError { errno: e })
            }
        },
    }
}

/// One multiplexer wait attempt, for up to `timeout_msec` milliseconds
/// (indefinitely when negative), classified by [`classify_wait`]: a
/// recoverable interruption asks the caller to retry with the same timeout
/// and is never reported as a failure.
pub fn wait_step(ep_fd: i32, timeout_msec: i32) -> (r: WaitStep)
    ensures
        r matches WaitStep::Ready(tags) ==> tags@.len() <= MAX_READY_EVENTS,
        r matches WaitStep::Fail(e) ==> e.errno != INTERRUPTED_ERRNO,
{
    classify_wait(multiplexer_wait(ep_fd, timeout_msec))
}

/// Microseconds of a monotonic reading of whole seconds plus nanoseconds,
/// clamped into the unsigned range: a reading before the epoch counts as the
/// epoch, one too large to represent counts as the largest representable.
pub open spec fn spec_usec_of_parts(sec: i64, nsec: i64) -> int {
    if sec < 0 {
        0
    } else if sec * 1_000_000 + nsec / 1000 > u64::MAX {
        u64::MAX as int
    } else {
        sec * 1_000_000 + nsec / 1000
    }
}

/// Converts a monotonic clock reading to whole microseconds.
pub fn usec_of_parts(sec: i64, nsec: i64) -> (r: u64)
    requires
        0 <= nsec < 1_000_000_000,
    ensures
        r == spec_usec_of_parts(sec, nsec),
{
    if sec < 0 {
        0
    } else {
        let s = sec as u64;
        let ns = (nsec as u64) / 1000;
        if s > u64::MAX / 1_000_000 {
            proof {
                assert(s * 1_000_000 > u64::MAX) by (nonlinear_arith)
                    requires
                        s > u64::MAX / 1_000_000,
                ;
            }
            u64::MAX
        } else {
            proof {
                assert(s * 1_000_000 <= u64::MAX) by (nonlinear_arith)
                    requires
                        s <= u64::MAX / 1_000_000,
                ;
            }
            let base = s * 1_000_000;
            if base > u64::MAX - ns {
                u64::MAX
            } else {
                base + ns
            }
        }
    }
}

/// One iteration's deadline step: reads the monotonic clock and converts the
/// directory's deadline hint to the multiplexer's wait timeout. The
/// no-deadline sentinel always yields the indefinite wait, whatever the
/// clock reads.
pub fn get_timeout(deadline_usec: u64) -> (r: Result<i32, OsError>)
    ensures
        deadline_usec == NO_DEADLINE <==> r == Result::<i32, OsError>::Ok(-1i32),
        r matches Ok(t) ==> t >= -1,
{
    if deadline_usec == NO_DEADLINE {
        return Ok(-1);
    }
    let parts = match monotonic_clock_parts() {
        Ok(p) => p,
        Err(e) => {
            return Err(OsError { errno: e });
        },
    };
    let now_usec = usec_of_parts(parts.0, parts.1);
    Ok(compute_wait_timeout(deadline_usec, now_usec))
}

} // verus!
