//! The tool calls of one answer, run together.
//!
//! Calls start in the order in which the model made them. Several run at once only where all of
//! them may. However a call ends, it has exactly one outcome, and the outcomes go back to the model
//! in the order of the calls.
use vstd::prelude::*;

use crate::event::{AgentEvent, AgentEventView};
use crate::hooks::{PostToolUsePipeline, PostView};
use crate::json::Json;
use crate::list::{empty, put, take_all, take_next};
use crate::message::{Block, BlockView};
use crate::runtime::preflight::{show_warnings, warnings_shown};
use crate::text::concat3;
use crate::time::{seconds_of, Duration};
use crate::tools::{
    failure_of, normalize_outcome, normalized, plain_error, ErrorView, OutcomeView, OutputView,
    PreparedToolCall, PreparedView, ToolError, ToolErrorCode, ToolExecutionMode, ToolOutcome,
    ToolOutput,
};
use crate::util::{args_summary, summary_of};

verus! {

/// The largest number of calls that run at once.
pub const PARALLEL_TOOL_LIMIT: usize = 4;

#[derive(Debug)]
pub enum BatchItemState {
    /// The call may run.
    Ready(PreparedToolCall),
    /// The call had its outcome before anything ran.
    Settled,
}

/// A call of the batch.
#[derive(Debug)]
pub struct BatchItem {
    pub id: String,
    pub name: String,
    pub state: BatchItemState,
    pub outcome: Option<ToolOutcome>,
    /// Why a hook wants the run to stop once the batch is stored.
    pub hook_stop: Option<String>,
}

#[verifier::ext_equal]
pub struct ItemView {
    pub id: Seq<char>,
    pub name: Seq<char>,
    /// The call, where it may run.
    pub call: Option<PreparedView>,
    pub outcome: Option<OutcomeView>,
    pub hook_stop: Option<Seq<char>>,
}

impl DeepView for BatchItem {
    type V = ItemView;

    open spec fn deep_view(&self) -> ItemView {
        ItemView {
            id: self.id@,
            name: self.name@,
            call: match self.state {
                BatchItemState::Ready(call) => Some(call.deep_view()),
                BatchItemState::Settled => None,
            },
            outcome: self.outcome.deep_view(),
            hook_stop: self.hook_stop.deep_view(),
        }
    }
}

/// The event that closes a call.
pub open spec fn closing(id: Seq<char>, name: Seq<char>, outcome: OutcomeView) -> AgentEventView {
    AgentEventView::ToolCallFinished { id, name, output: outcome.output, error: outcome.error }
}

fn copy_error(error: &Option<ToolError>) -> (r: Option<ToolError>)
    ensures
        r.deep_view() == error.deep_view(),
{
    match error {
        Some(e) => Some(e.clone()),
        None => None,
    }
}

fn show_closing(id: &String, name: &String, outcome: &ToolOutcome, events: &mut Vec<AgentEvent>)
    ensures
        final(events).deep_view() == old(events).deep_view().push(
            closing(id@, name@, outcome.deep_view()),
        ),
{
    put(
        events,
        AgentEvent::ToolCallFinished {
            id: id.clone(),
            name: name.clone(),
            output: outcome.output.clone(),
            error: copy_error(&outcome.error),
        },
    );
}

/// Announces a call, before anything is done about it.
pub fn announce(id: &String, name: &String, arguments: &Json, events: &mut Vec<AgentEvent>)
    ensures
        final(events).deep_view() == old(events).deep_view().push(
            AgentEventView::ToolCallStarted {
                id: id@,
                name: name@,
                summary: summary_of(arguments@),
            },
        ),
{
    put(
        events,
        AgentEvent::ToolCallStarted {
            id: id.clone(),
            name: name.clone(),
            summary: args_summary(arguments),
        },
    );
}

impl BatchItem {
    /// A call that may run.
    pub fn ready(id: String, name: String, call: PreparedToolCall) -> (r: BatchItem)
        ensures
            r.deep_view() == (ItemView {
                id: id@,
                name: name@,
                call: Some(call.deep_view()),
                outcome: None,
                hook_stop: None,
            }),
    {
        BatchItem { id, name, state: BatchItemState::Ready(call), outcome: None, hook_stop: None }
    }

    /// A call that does not run. It is closed at once.
    pub fn settled(id: String, name: String, outcome: ToolOutcome, events: &mut Vec<AgentEvent>) -> (r:
        BatchItem)
        ensures
            r.deep_view() == (ItemView {
                id: id@,
                name: name@,
                call: None,
                outcome: Some(outcome.deep_view()),
                hook_stop: None,
            }),
            final(events).deep_view() == old(events).deep_view().push(
                closing(id@, name@, outcome.deep_view()),
            ),
    {
        show_closing(&id, &name, &outcome, events);
        BatchItem {
            id,
            name,
            state: BatchItemState::Settled,
            outcome: Some(outcome),
            hook_stop: None,
        }
    }
}

// ---- The schedule ----

/// The places of the calls that may run, in their order.
pub open spec fn runnable(items: Seq<ItemView>) -> Seq<usize>
    decreases items.len(),
{
    if items.len() == 0 {
        seq![]
    } else {
        let before = runnable(items.drop_last());
        if items.last().call is Some {
            before.push((items.len() - 1) as usize)
        } else {
            before
        }
    }
}

/// All calls that may run may run beside others.
pub open spec fn all_parallel(items: Seq<ItemView>) -> bool {
    forall|i: int|
        0 <= i < items.len() && (#[trigger] items[i]).call is Some
            ==> items[i].call->0.spec.capabilities.execution_mode
            == ToolExecutionMode::ParallelSafe
}

/// How many calls run at once.
pub open spec fn width_of(items: Seq<ItemView>) -> usize {
    let n = runnable(items).len();
    if all_parallel(items) && n > 1 {
        if n < PARALLEL_TOOL_LIMIT {
            n as usize
        } else {
            PARALLEL_TOOL_LIMIT
        }
    } else {
        1
    }
}

/// How many flags are set.
pub open spec fn count(flags: Seq<bool>) -> nat
    decreases flags.len(),
{
    if flags.len() == 0 {
        0
    } else {
        count(flags.drop_last()) + (if flags.last() {
            1nat
        } else {
            0nat
        })
    }
}

/// A batch while it runs.
#[derive(Debug)]
pub struct BatchRun {
    pub items: Vec<BatchItem>,
    /// The places of the calls that run; the others are settled already.
    pub slots: Vec<usize>,
    pub cap: usize,
    /// The next slot to start.
    pub next: usize,
    pub running: usize,
    pub completed: usize,
    /// The slots whose call has ended.
    pub settled: Vec<bool>,
}

#[verifier::ext_equal]
pub struct BatchView {
    pub items: Seq<ItemView>,
    pub slots: Seq<usize>,
    pub cap: usize,
    pub next: usize,
    pub running: usize,
    pub completed: usize,
    pub settled: Seq<bool>,
}

impl DeepView for BatchRun {
    type V = BatchView;

    open spec fn deep_view(&self) -> BatchView {
        BatchView {
            items: self.items.deep_view(),
            slots: self.slots@,
            cap: self.cap,
            next: self.next,
            running: self.running,
            completed: self.completed,
            settled: self.settled@,
        }
    }
}

/// A batch before anything has started.
pub open spec fn untouched(items: Seq<ItemView>) -> bool {
    forall|i: int|
        0 <= i < items.len() ==> ((#[trigger] items[i]).call is Some <==> items[i].outcome is None)
}

/// The state of a batch is sound: a slot is settled exactly when its call has an outcome, calls
/// start in order, and no more run than may.
pub open spec fn sound(b: BatchView) -> bool {
    &&& b.slots == runnable(b.items)
    &&& b.settled.len() == b.slots.len()
    &&& b.slots.len() <= usize::MAX
    &&& b.next <= b.slots.len()
    &&& b.running + b.completed == b.next
    &&& b.completed == count(b.settled)
    &&& 1 <= b.cap
    &&& b.running <= b.cap
    &&& forall|s: int| b.next <= s < b.slots.len() ==> !#[trigger] b.settled[s]
    &&& forall|s: int|
        0 <= s < b.slots.len() ==> (#[trigger] b.settled[s]
            <==> b.items[b.slots[s] as int].outcome is Some)
    &&& forall|i: int|
        0 <= i < b.items.len() && (#[trigger] b.items[i]).call is None ==> b.items[i].outcome is Some
}

proof fn runnable_places(items: Seq<ItemView>)
    requires
        items.len() <= usize::MAX,
    ensures
        runnable(items).len() <= items.len(),
        forall|s: int|
            0 <= s < runnable(items).len() ==> #[trigger] runnable(items)[s] < items.len()
                && items[runnable(items)[s] as int].call is Some,
        forall|s: int, t: int|
            0 <= s < t < runnable(items).len() ==> #[trigger] runnable(items)[s]
                < #[trigger] runnable(items)[t],
        forall|i: int|
            0 <= i < items.len() && (#[trigger] items[i]).call is Some ==> exists|s: int|
                0 <= s < runnable(items).len() && #[trigger] runnable(items)[s] == i,
    decreases items.len(),
{
    if items.len() > 0 {
        let rest = items.drop_last();
        runnable_places(rest);
        let now = runnable(items);
        let before = runnable(rest);
        assert forall|s: int| 0 <= s < now.len() implies #[trigger] now[s] < items.len()
            && items[now[s] as int].call is Some by {
            if s < before.len() {
                assert(now[s] == before[s]);
                assert(rest[before[s] as int] == items[before[s] as int]);
            }
        }
        assert forall|s: int, t: int| 0 <= s < t < now.len() implies #[trigger] now[s]
            < #[trigger] now[t] by {
            assert(now[s] == before[s]);
            if t < before.len() {
                assert(now[t] == before[t]);
            }
        }
        assert forall|i: int| 0 <= i < items.len() && (#[trigger] items[i]).call is Some implies exists|
            s: int,
        |
            0 <= s < now.len() && #[trigger] now[s] == i by {
            if i < rest.len() {
                assert(rest[i] == items[i]);
                let s = choose|s: int| 0 <= s < before.len() && #[trigger] before[s] == i;
                assert(now[s] == i);
            } else {
                assert(now[before.len() as int] == i);
            }
        }
    }
}

proof fn count_update(flags: Seq<bool>, at: int)
    requires
        0 <= at < flags.len(),
        !flags[at],
    ensures
        count(flags.update(at, true)) == count(flags) + 1,
    decreases flags.len(),
{
    let now = flags.update(at, true);
    if at < flags.len() - 1 {
        count_update(flags.drop_last(), at);
        assert(now.drop_last() =~= flags.drop_last().update(at, true));
    } else {
        assert(now.drop_last() =~= flags.drop_last());
    }
}

/// Flags that are only set below `bound` are at most that many.
proof fn count_below(flags: Seq<bool>, bound: int)
    requires
        0 <= bound <= flags.len(),
        forall|s: int| bound <= s < flags.len() ==> !#[trigger] flags[s],
    ensures
        count(flags) <= bound,
        (exists|s: int| 0 <= s < bound && !#[trigger] flags[s]) ==> count(flags) < bound,
        count(flags) == bound ==> forall|s: int| 0 <= s < bound ==> #[trigger] flags[s],
    decreases flags.len(),
{
    if flags.len() > 0 {
        let rest = flags.drop_last();
        if bound == flags.len() {
            count_below(rest, bound - 1);
            if exists|s: int| 0 <= s < bound && !#[trigger] flags[s] {
                let s = choose|s: int| 0 <= s < bound && !#[trigger] flags[s];
                if s < bound - 1 {
                    assert(!rest[s]);
                }
            }
            assert forall|s: int| count(flags) == bound && 0 <= s < bound implies #[trigger] flags[s] by {
                if s < bound - 1 {
                    assert(rest[s] == flags[s]);
                }
            }
        } else {
            assert forall|s: int| bound <= s < rest.len() implies !#[trigger] rest[s] by {
                assert(rest[s] == flags[s]);
            }
            assert(!flags[flags.len() - 1]);
            count_below(rest, bound);
            if exists|s: int| 0 <= s < bound && !#[trigger] flags[s] {
                let s = choose|s: int| 0 <= s < bound && !#[trigger] flags[s];
                assert(!rest[s]);
            }
            assert forall|s: int| count(flags) == bound && 0 <= s < bound implies #[trigger] flags[s] by {
                assert(rest[s] == flags[s]);
            }
        }
    }
}

/// Changing the outcomes leaves the schedule as it is.
proof fn runnable_ignores_outcomes(a: Seq<ItemView>, b: Seq<ItemView>)
    requires
        a.len() == b.len(),
        forall|i: int| 0 <= i < a.len() ==> (#[trigger] a[i]).call is Some == b[i].call is Some,
    ensures
        runnable(a) == runnable(b),
    decreases a.len(),
{
    if a.len() > 0 {
        assert forall|i: int| 0 <= i < a.drop_last().len() implies (#[trigger] a.drop_last()[i]).call is Some
            == b.drop_last()[i].call is Some by {
            assert(a.drop_last()[i] == a[i]);
        }
        runnable_ignores_outcomes(a.drop_last(), b.drop_last());
        assert(a[a.len() - 1].call is Some == b[b.len() - 1].call is Some);
    }
}

/// What the next launch does.
#[derive(Debug, Clone, Copy, PartialEq, Eq, Structural)]
pub enum Launch {
    /// Start the call of this slot.
    Start(usize),
    /// The run was cancelled: the call of this slot was closed without running.
    Closed(usize),
    /// Nothing starts now.
    Hold,
}

/// The outcome of a call that was cancelled before it started.
pub open spec fn not_started() -> OutcomeView {
    failure_of(plain_error(ToolErrorCode::Aborted, "[用户取消,本工具未执行]"@))
}

/// A batch in which a call has ended.
pub open spec fn with_outcome(
    b: BatchView,
    slot: usize,
    outcome: OutcomeView,
    hook_stop: Option<Seq<char>>,
) -> BatchView {
    let place = b.slots[slot as int] as int;
    BatchView {
        items: b.items.update(
            place,
            ItemView { outcome: Some(outcome), hook_stop, ..b.items[place] },
        ),
        completed: (b.completed + 1) as usize,
        settled: b.settled.update(slot as int, true),
        ..b
    }
}

pub open spec fn launched(b: BatchView, cancelled: bool) -> (BatchView, Launch) {
    if b.running >= b.cap || b.next >= b.slots.len() {
        (b, Launch::Hold)
    } else if cancelled {
        let after = with_outcome(b, b.next, not_started(), b.items[b.slots[b.next as int] as int].hook_stop);
        (BatchView { next: (b.next + 1) as usize, ..after }, Launch::Closed(b.next))
    } else {
        (
            BatchView { next: (b.next + 1) as usize, running: (b.running + 1) as usize, ..b },
            Launch::Start(b.next),
        )
    }
}

/// What is shown of a launch.
pub open spec fn launch_shown(b: BatchView, cancelled: bool) -> Seq<AgentEventView> {
    match launched(b, cancelled).1 {
        Launch::Closed(slot) => seq![
            closing(
                b.items[b.slots[slot as int] as int].id,
                b.items[b.slots[slot as int] as int].name,
                not_started(),
            ),
        ],
        _ => seq![],
    }
}

proof fn outcome_keeps_soundness(b: BatchView, slot: usize, outcome: OutcomeView, hook_stop: Option<Seq<char>>)
    requires
        sound(b),
        b.items.len() <= usize::MAX,
        slot < b.slots.len(),
        !b.settled[slot as int],
    ensures
        ({
            let after = with_outcome(b, slot, outcome, hook_stop);
            &&& after.slots == runnable(after.items)
            &&& after.items.len() == b.items.len()
            &&& after.completed == b.completed + 1
            &&& after.completed == count(after.settled)
            &&& forall|s: int|
                0 <= s < after.slots.len() ==> (#[trigger] after.settled[s]
                    <==> after.items[after.slots[s] as int].outcome is Some)
            &&& forall|i: int|
                0 <= i < after.items.len() && (#[trigger] after.items[i]).call is None
                    ==> after.items[i].outcome is Some
            &&& b.completed < b.slots.len()
            &&& slot < b.next ==> b.running > 0
        }),
{
    let after = with_outcome(b, slot, outcome, hook_stop);
    let place = b.slots[slot as int] as int;
    runnable_places(b.items);
    count_update(b.settled, slot as int);
    count_below(b.settled, b.settled.len() as int);
    count_below(b.settled, b.next as int);
    assert forall|i: int| 0 <= i < b.items.len() implies (#[trigger] b.items[i]).call is Some
        == after.items[i].call is Some by {}
    runnable_ignores_outcomes(b.items, after.items);
    assert forall|s: int| 0 <= s < after.slots.len() implies (#[trigger] after.settled[s]
        <==> after.items[after.slots[s] as int].outcome is Some) by {
        if s != slot {
            assert(b.slots[s] != b.slots[slot as int]) by {
                if s < slot {
                    assert(runnable(b.items)[s] < runnable(b.items)[slot as int]);
                } else {
                    assert(runnable(b.items)[slot as int] < runnable(b.items)[s]);
                }
            }
            assert(after.settled[s] == b.settled[s]);
        }
    }
    assert forall|i: int| 0 <= i < after.items.len() && (#[trigger] after.items[i]).call is None implies after.items[i].outcome is Some by {
        if i != place {
            assert(after.items[i] == b.items[i]);
        }
    }
    if slot < b.next {
        assert(!b.settled[slot as int]);
    }
}

impl BatchRun {
    /// A batch of calls, none of which has started.
    pub fn new(items: Vec<BatchItem>) -> (b: BatchRun)
        requires
            untouched(items.deep_view()),
        ensures
            sound(b.deep_view()),
            b.deep_view().items == items.deep_view(),
            b.cap == width_of(items.deep_view()),
            b.next == 0,
            b.running == 0,
            b.completed == 0,
    {
        let ghost all = items.deep_view();
        let mut slots: Vec<usize> = Vec::new();
        let mut settled: Vec<bool> = Vec::new();
        let mut parallel = true;
        let mut i: usize = 0;
        let n: usize = items.len();
        while i < n
            invariant
                i <= n == items@.len(),
                all == items.deep_view(),
                slots@ == runnable(all.take(i as int)),
                slots@.len() <= i,
                settled@.len() == slots@.len(),
                forall|s: int| 0 <= s < settled@.len() ==> !#[trigger] settled@[s],
                count(settled@) == 0,
                parallel == all_parallel(all.take(i as int)),
            decreases n - i,
        {
            proof {
                take_next(all, i as int);
            }
            let ghost before = all.take(i as int);
            let ghost now = all.take(i + 1);
            match &items[i].state {
                BatchItemState::Ready(call) => {
                    assert(all[i as int].call == Some(call.deep_view()));
                    slots.push(i);
                    let ghost flags = settled@;
                    settled.push(false);
                    assert(settled@.drop_last() =~= flags);
                    let ghost safe = call.spec.capabilities.execution_mode
                        == ToolExecutionMode::ParallelSafe;
                    if call.spec.capabilities.execution_mode != ToolExecutionMode::ParallelSafe {
                        parallel = false;
                    }
                    proof {
                        assert(now[i as int] == all[i as int]);
                        assert forall|k: int| 0 <= k < before.len() implies before[k] == now[k] by {}
                        if all_parallel(before) && safe {
                            assert(all_parallel(now));
                        }
                        if all_parallel(now) {
                            assert forall|k: int|
                                0 <= k < before.len() && (#[trigger] before[k]).call is Some implies
                                before[k].call->0.spec.capabilities.execution_mode
                                == ToolExecutionMode::ParallelSafe by {
                                assert(now[k] == before[k]);
                            }
                        }
                    }
                },
                BatchItemState::Settled => {
                    assert(all[i as int].call is None);
                    proof {
                        assert(now[i as int] == all[i as int]);
                        assert forall|k: int| 0 <= k < before.len() implies before[k] == now[k] by {}
                        if all_parallel(now) {
                            assert forall|k: int|
                                0 <= k < before.len() && (#[trigger] before[k]).call is Some implies
                                before[k].call->0.spec.capabilities.execution_mode
                                == ToolExecutionMode::ParallelSafe by {
                                assert(now[k] == before[k]);
                            }
                        }
                    }
                },
            }
            i = i + 1;
        }
        proof {
            take_all(all);
            runnable_places(all);
        }
        let cap = if parallel && slots.len() > 1 {
            if slots.len() < PARALLEL_TOOL_LIMIT {
                slots.len()
            } else {
                PARALLEL_TOOL_LIMIT
            }
        } else {
            1
        };
        let b = BatchRun { items, slots, cap, next: 0, running: 0, completed: 0, settled };
        proof {
            let v = b.deep_view();
            assert forall|s: int| 0 <= s < v.slots.len() implies (#[trigger] v.settled[s]
                <==> v.items[v.slots[s] as int].outcome is Some) by {
                assert(v.items[v.slots[s] as int].call is Some);
            }
        }
        b
    }

    /// Whether every call has ended.
    pub fn done(&self) -> (r: bool)
        ensures
            r == (self.completed >= self.slots@.len()),
    {
        self.completed >= self.slots.len()
    }

    /// The call of a slot.
    pub fn call(&self, slot: usize) -> (r: Option<&PreparedToolCall>)
        requires
            sound(self.deep_view()),
            slot < self.slots@.len(),
        ensures
            r is Some,
            Some(r->0.deep_view()) == self.deep_view().items[self.slots@[slot as int] as int].call,
    {
        let place = self.slots[slot];
        let n: usize = self.items.len();
        proof {
            assert(self.items.deep_view().len() == n);
            runnable_places(self.items.deep_view());
        }
        assert(self.items.deep_view()[place as int] == self.items@[place as int].deep_view());
        match &self.items[place].state {
            BatchItemState::Ready(call) => Some(call),
            BatchItemState::Settled => None,
        }
    }

    fn record(&mut self, slot: usize, outcome: ToolOutcome, hook_stop: Option<String>)
        requires
            sound(old(self).deep_view()),
            slot < old(self).slots@.len(),
            !old(self).settled@[slot as int],
        ensures
            final(self).deep_view() == with_outcome(
                old(self).deep_view(),
                slot,
                outcome.deep_view(),
                hook_stop.deep_view(),
            ),
    {
        let place = self.slots[slot];
        let n: usize = self.items.len();
        let ghost before = self.items.deep_view();
        proof {
            assert(before.len() == n);
            runnable_places(before);
            count_below(self.settled@, self.settled@.len() as int);
        }
        let ghost ov = outcome.deep_view();
        let ghost hv = hook_stop.deep_view();
        self.items[place].outcome = Some(outcome);
        self.items[place].hook_stop = hook_stop;
        self.settled.set(slot, true);
        self.completed = self.completed + 1;
        assert(self.items.deep_view() =~= before.update(
            place as int,
            ItemView { outcome: Some(ov), hook_stop: hv, ..before[place as int] },
        ));
    }

    /// Starts the next call, as far as one may start now. Once the run is cancelled, calls that
    /// have not started are closed instead.
    pub fn launch(&mut self, cancelled: bool, events: &mut Vec<AgentEvent>) -> (r: Launch)
        requires
            sound(old(self).deep_view()),
        ensures
            sound(final(self).deep_view()),
            (final(self).deep_view(), r) == launched(old(self).deep_view(), cancelled),
            final(events).deep_view() == old(events).deep_view() + launch_shown(
                old(self).deep_view(),
                cancelled,
            ),
    {
        let ghost b = self.deep_view();
        let ghost shown = events.deep_view();
        if self.running >= self.cap || self.next >= self.slots.len() {
            assert(shown + launch_shown(b, cancelled) =~= shown);
            return Launch::Hold;
        }
        let slot = self.next;
        let place = self.slots[slot];
        let n: usize = self.items.len();
        proof {
            assert(self.items.deep_view().len() == n);
            runnable_places(self.items.deep_view());
        }
        assert(self.items.deep_view()[place as int] == self.items@[place as int].deep_view());
        if cancelled {
            let outcome = ToolOutcome::failure(
                ToolError::new(
                    ToolErrorCode::Aborted,
                    "[用户取消,本工具未执行]".to_owned(),
                ),
            );
            show_closing(&self.items[place].id, &self.items[place].name, &outcome, events);
            let stop = crate::message::copy_opt_text(&self.items[place].hook_stop);
            proof {
                outcome_keeps_soundness(b, slot, outcome.deep_view(), stop.deep_view());
            }
            self.record(slot, outcome, stop);
            self.next = self.next + 1;
            assert(events.deep_view() =~= shown + launch_shown(b, cancelled));
            Launch::Closed(slot)
        } else {
            self.next = self.next + 1;
            self.running = self.running + 1;
            assert(shown + launch_shown(b, cancelled) =~= shown);
            Launch::Start(slot)
        }
    }

    /// Shows the progress of a call, unless the call has ended.
    pub fn note_progress(&self, slot: usize, output: ToolOutput, events: &mut Vec<AgentEvent>)
        requires
            sound(self.deep_view()),
            slot < self.slots@.len(),
        ensures
            final(events).deep_view() == (if self.settled@[slot as int] {
                old(events).deep_view()
            } else {
                let item = self.deep_view().items[self.slots@[slot as int] as int];
                old(events).deep_view().push(
                    AgentEventView::ToolCallUpdated {
                        id: item.id,
                        name: item.name,
                        output: output.deep_view(),
                    },
                )
            }),
    {
        if self.settled[slot] {
            return;
        }
        let place = self.slots[slot];
        let n: usize = self.items.len();
        proof {
            assert(self.items.deep_view().len() == n);
            runnable_places(self.items.deep_view());
        }
        assert(self.items.deep_view()[place as int] == self.items@[place as int].deep_view());
        put(
            events,
            AgentEvent::ToolCallUpdated {
                id: self.items[place].id.clone(),
                name: self.items[place].name.clone(),
                output,
            },
        );
    }

    /// A call that was started has ended, and the hooks have seen its outcome.
    pub fn finish(&mut self, slot: usize, post: PostToolUsePipeline, events: &mut Vec<AgentEvent>)
        requires
            sound(old(self).deep_view()),
            slot < old(self).next,
            !old(self).settled@[slot as int],
        ensures
            sound(final(self).deep_view()),
            final(self).deep_view() == finished(old(self).deep_view(), slot, post.deep_view()),
            final(events).deep_view() == old(events).deep_view() + finish_shown(
                old(self).deep_view(),
                slot,
                post.deep_view(),
            ),
    {
        let ghost b = self.deep_view();
        let ghost pv = post.deep_view();
        let ghost shown = events.deep_view();
        let place = self.slots[slot];
        let n: usize = self.items.len();
        proof {
            assert(self.items.deep_view().len() == n);
            runnable_places(self.items.deep_view());
        }
        assert(self.items.deep_view()[place as int] == self.items@[place as int].deep_view());
        show_warnings(&post.warnings, events);
        let outcome = normalize_outcome(post.outcome);
        show_closing(&self.items[place].id, &self.items[place].name, &outcome, events);
        proof {
            outcome_keeps_soundness(b, slot, outcome.deep_view(), post.stop_after_commit.deep_view());
        }
        self.record(slot, outcome, post.stop_after_commit);
        self.running = self.running - 1;
        assert(events.deep_view() =~= shown + finish_shown(b, slot, pv));
    }

    /// The results for the model, in the order of the calls; whether any call was cancelled; and
    /// why a hook wants the run to stop, the first call first.
    pub fn collect(self) -> (c: Collected)
        ensures
            c.deep_view() == collected(self.deep_view().items),
    {
        let ghost all = self.items.deep_view();
        let mut results: Vec<Block> = empty();
        let mut aborted = false;
        let mut stop: Option<String> = None;
        let mut i: usize = 0;
        while i < self.items.len()
            invariant
                i <= self.items@.len(),
                all == self.items.deep_view(),
                (CollectedView {
                    results: results.deep_view(),
                    aborted,
                    stop: stop.deep_view(),
                }) == collected(all.take(i as int)),
            decreases self.items@.len() - i,
        {
            proof {
                take_next(all, i as int);
            }
            let item = &self.items[i];
            assert(all[i as int] == item.deep_view());
            if stop.is_none() {
                stop = crate::message::copy_opt_text(&item.hook_stop);
            }
            match &item.outcome {
                Some(outcome) => {
                    if let Some(error) = &outcome.error {
                        if error.code == ToolErrorCode::Aborted {
                            aborted = true;
                        }
                    }
                    put(
                        &mut results,
                        Block::ToolResult {
                            tool_use_id: item.id.clone(),
                            content: outcome.output.model_text.clone(),
                            is_error: outcome.error.is_some(),
                        },
                    );
                },
                None => {
                    put(
                        &mut results,
                        Block::ToolResult {
                            tool_use_id: item.id.clone(),
                            content: "[内部错误:工具执行器未产生结果]".to_owned(),
                            is_error: true,
                        },
                    );
                },
            }
            i = i + 1;
        }
        proof {
            take_all(all);
        }
        Collected { results, aborted, stop }
    }
}

pub open spec fn finished(b: BatchView, slot: usize, post: PostView) -> BatchView {
    BatchView {
        running: (b.running - 1) as usize,
        ..with_outcome(b, slot, normalized(post.outcome), post.stop_after_commit)
    }
}

pub open spec fn finish_shown(b: BatchView, slot: usize, post: PostView) -> Seq<AgentEventView> {
    let item = b.items[b.slots[slot as int] as int];
    warnings_shown(post.warnings).push(closing(item.id, item.name, normalized(post.outcome)))
}

// ---- Time limits ----

/// Whether a call has run longer than it may; a run that was cancelled has no limits any more.
pub fn ran_over(elapsed: Duration, limit: Option<Duration>, cancelled: bool) -> (r: bool)
    ensures
        r == (limit is Some && elapsed.nanos >= limit->0.nanos && !cancelled),
{
    match limit {
        Some(limit) => elapsed.nanos >= limit.nanos && !cancelled,
        None => false,
    }
}

/// A call that was stopped because its time was over says so; one that finished all the same keeps
/// its outcome.
pub open spec fn after_limit(outcome: OutcomeView, limit: Duration) -> OutcomeView {
    match outcome.error {
        Some(error) => if error.code == ToolErrorCode::Aborted {
            let message = "工具执行超过 "@ + seconds_of(limit) + "s 上限被中止: "@ + error.message;
            OutcomeView {
                output: OutputView { model_text: message, ..outcome.output },
                error: Some(ErrorView { code: ToolErrorCode::Timeout, message, ..error }),
                ..outcome
            }
        } else {
            outcome
        },
        None => outcome,
    }
}

pub fn apply_limit(outcome: ToolOutcome, limit: Duration) -> (r: ToolOutcome)
    ensures
        r.deep_view() == after_limit(outcome.deep_view(), limit),
{
    match outcome.error {
        Some(error) => {
            if error.code == ToolErrorCode::Aborted {
                let mut message = concat3(
                    "工具执行超过 ",
                    limit.show_seconds().as_str(),
                    "s 上限被中止: ",
                );
                message.push_str(error.message.as_str());
                ToolOutcome {
                    output: ToolOutput {
                        model_text: message.clone(),
                        ui_summary: outcome.output.ui_summary,
                        details: outcome.output.details,
                    },
                    error: Some(
                        ToolError {
                            code: ToolErrorCode::Timeout,
                            message,
                            retryable: error.retryable,
                            details: error.details,
                        },
                    ),
                    effects: outcome.effects,
                }
            } else {
                ToolOutcome {
                    output: outcome.output,
                    error: Some(error),
                    effects: outcome.effects,
                }
            }
        },
        None => ToolOutcome { output: outcome.output, error: None, effects: outcome.effects },
    }
}

// ---- The results ----

/// What a batch comes to.
#[derive(Debug)]
pub struct Collected {
    pub results: Vec<Block>,
    pub aborted: bool,
    pub stop: Option<String>,
}

#[verifier::ext_equal]
pub struct CollectedView {
    pub results: Seq<BlockView>,
    pub aborted: bool,
    pub stop: Option<Seq<char>>,
}

impl DeepView for Collected {
    type V = CollectedView;

    open spec fn deep_view(&self) -> CollectedView {
        CollectedView {
            results: self.results.deep_view(),
            aborted: self.aborted,
            stop: self.stop.deep_view(),
        }
    }
}

/// The result of a call as the model reads it.
pub open spec fn result_block(item: ItemView) -> BlockView {
    match item.outcome {
        Some(outcome) => BlockView::ToolResult {
            tool_use_id: item.id,
            content: outcome.output.model_text,
            is_error: outcome.error is Some,
        },
        None => BlockView::ToolResult {
            tool_use_id: item.id,
            content: "[内部错误:工具执行器未产生结果]"@,
            is_error: true,
        },
    }
}

pub open spec fn was_aborted(item: ItemView) -> bool {
    item.outcome is Some && item.outcome->0.error is Some && item.outcome->0.error->0.code
        == ToolErrorCode::Aborted
}

pub open spec fn collected(items: Seq<ItemView>) -> CollectedView
    decreases items.len(),
{
    if items.len() == 0 {
        CollectedView { results: seq![], aborted: false, stop: None }
    } else {
        let before = collected(items.drop_last());
        let item = items.last();
        CollectedView {
            results: before.results.push(result_block(item)),
            aborted: before.aborted || was_aborted(item),
            stop: if before.stop is Some {
                before.stop
            } else {
                item.hook_stop
            },
        }
    }
}

// ---- Laws ----

/// Whatever happened, every call is answered, exactly once and in the order of the calls.
pub proof fn law_results_follow_the_calls(items: Seq<ItemView>)
    ensures
        collected(items).results.len() == items.len(),
        forall|i: int|
            0 <= i < items.len() ==> #[trigger] collected(items).results[i] == result_block(items[i]),
    decreases items.len(),
{
    if items.len() > 0 {
        law_results_follow_the_calls(items.drop_last());
        assert forall|i: int| 0 <= i < items.len() implies #[trigger] collected(items).results[i]
            == result_block(items[i]) by {
            if i < items.len() - 1 {
                assert(collected(items).results[i] == collected(items.drop_last()).results[i]);
                assert(items.drop_last()[i] == items[i]);
            }
        }
    }
}

/// Once a batch is done, every call has an outcome of its own.
pub proof fn law_done_batches_are_complete(b: BatchView)
    requires
        sound(b),
        b.items.len() <= usize::MAX,
        b.completed >= b.slots.len(),
    ensures
        forall|i: int| 0 <= i < b.items.len() ==> (#[trigger] b.items[i]).outcome is Some,
{
    runnable_places(b.items);
    count_below(b.settled, b.settled.len() as int);
    assert forall|i: int| 0 <= i < b.items.len() implies (#[trigger] b.items[i]).outcome is Some by {
        if b.items[i].call is Some {
            let s = choose|s: int| 0 <= s < runnable(b.items).len() && #[trigger] runnable(b.items)[s] == i;
            assert(b.settled[s]);
        }
    }
}

/// A call gets one outcome: ending it never touches the outcome of another.
pub proof fn law_outcomes_stay(b: BatchView, slot: usize, post: PostView, other: int)
    requires
        sound(b),
        b.items.len() <= usize::MAX,
        slot < b.next,
        !b.settled[slot as int],
        0 <= other < b.items.len(),
        b.items[other].outcome is Some,
    ensures
        finished(b, slot, post).items[other] == b.items[other],
{
    runnable_places(b.items);
    assert(b.items[b.slots[slot as int] as int].outcome is None);
}

/// A batch never stalls: while calls are left, one runs or one may start.
pub proof fn law_batches_never_stall(b: BatchView, cancelled: bool)
    requires
        sound(b),
        b.completed < b.slots.len(),
        b.running == 0,
    ensures
        !(launched(b, cancelled).1 is Hold),
{
    count_below(b.settled, b.next as int);
}

/// Starting a call, or closing it unstarted, keeps the state of a batch sound.
pub proof fn law_launching_keeps_batches_sound(b: BatchView, cancelled: bool)
    requires
        sound(b),
        b.items.len() <= usize::MAX,
    ensures
        sound(launched(b, cancelled).0),
        launched(b, cancelled).1 matches Launch::Closed(slot) ==> slot < b.slots.len()
            && b.slots[slot as int] < b.items.len()
            && b.items[b.slots[slot as int] as int].outcome is None,
{
    runnable_places(b.items);
    if b.running < b.cap && b.next < b.slots.len() && cancelled {
        assert(!b.settled[b.next as int]);
        outcome_keeps_soundness(
            b,
            b.next,
            not_started(),
            b.items[b.slots[b.next as int] as int].hook_stop,
        );
    }
}

/// Ending a call keeps the state of a batch sound.
pub proof fn law_finishing_keeps_batches_sound(b: BatchView, slot: usize, post: PostView)
    requires
        sound(b),
        b.items.len() <= usize::MAX,
        slot < b.next,
        !b.settled[slot as int],
    ensures
        sound(finished(b, slot, post)),
        b.slots[slot as int] < b.items.len(),
        b.items[b.slots[slot as int] as int].outcome is None,
{
    runnable_places(b.items);
    outcome_keeps_soundness(b, slot, normalized(post.outcome), post.stop_after_commit);
}

/// Where one call must run alone, none runs beside another.
pub proof fn law_sequential_calls_run_alone(items: Seq<ItemView>)
    requires
        !all_parallel(items),
    ensures
        width_of(items) == 1,
{
}

} // verus!
