//! What a whole run shows, from the prompt to the event that closes it.
use vstd::prelude::*;

use crate::context::budget::ContextBudget;
use crate::event::{AgentEventView, CommandView};
use crate::hooks::PostView;
use crate::message::Usage;
use crate::permission::ApprovalView;
use crate::provider::EventView;
use crate::runtime::agent::{fitted, repair_shown};
use crate::runtime::approval::{approval_after, resolved, ApprovalSignal};
use crate::runtime::batch::{
    closing, finish_shown, finished, launch_shown, launched, law_done_batches_are_complete,
    law_finishing_keeps_batches_sound, law_launching_keeps_batches_sound, not_started, sound,
    with_outcome, BatchView, ItemView,
};
use crate::runtime::laws::{
    law_steps_do_not_close_the_run, legal, run_after, sorting_shows_notices, Inputs,
};
use crate::runtime::preflight::warnings_shown;
use crate::runtime::queues::{law_runs_end_once, run_ended, sorted_all, Sorted};
use crate::runtime::retry::{attempts_shown, shown_event, stream_shown, Attempt};
use crate::runtime::run::{advanced, awaits, begun, InputView, PhaseView, RunView};
use crate::session::ModelProjection;
use crate::tools::{normalized, OutputView};

verus! {

/// An event that opens or closes no call and no run.
pub open spec fn plain(event: AgentEventView) -> bool {
    !(event is ToolCallStarted || event is ToolCallFinished || event is TurnStarted
        || event is TurnFinished)
}

pub open spec fn all_plain(events: Seq<AgentEventView>) -> bool {
    forall|i: int| 0 <= i < events.len() ==> plain(#[trigger] events[i])
}

/// How often a call with an id is opened.
pub open spec fn opened(events: Seq<AgentEventView>, id: Seq<char>) -> nat
    decreases events.len(),
{
    if events.len() == 0 {
        0
    } else {
        opened(events.drop_last(), id) + (match events.last() {
            AgentEventView::ToolCallStarted { id: own, .. } => if own == id {
                1nat
            } else {
                0
            },
            _ => 0,
        })
    }
}

/// How often a call with an id is closed.
pub open spec fn closed(events: Seq<AgentEventView>, id: Seq<char>) -> nat
    decreases events.len(),
{
    if events.len() == 0 {
        0
    } else {
        closed(events.drop_last(), id) + (match events.last() {
            AgentEventView::ToolCallFinished { id: own, .. } => if own == id {
                1nat
            } else {
                0
            },
            _ => 0,
        })
    }
}

/// How often a run is said to start.
pub open spec fn starts(events: Seq<AgentEventView>) -> nat
    decreases events.len(),
{
    if events.len() == 0 {
        0
    } else {
        starts(events.drop_last()) + (if events.last() is TurnStarted {
            1nat
        } else {
            0
        })
    }
}

/// Whether no call is closed before it is opened.
pub open spec fn in_order(events: Seq<AgentEventView>) -> bool {
    forall|n: int, id: Seq<char>|
        0 <= n <= events.len() ==> #[trigger] closed(events.take(n), id) <= opened(
            events.take(n),
            id,
        )
}

/// Whether each call that is opened is closed as often, and never before.
pub open spec fn balanced(events: Seq<AgentEventView>) -> bool {
    &&& in_order(events)
    &&& forall|id: Seq<char>| #[trigger] opened(events, id) == closed(events, id)
}

/// Whether some events belong inside a run: they neither start nor end one.
pub open spec fn inside(events: Seq<AgentEventView>) -> bool {
    forall|i: int|
        0 <= i < events.len() ==> !((#[trigger] events[i]) is TurnStarted || events[i]
            is TurnFinished)
}

// ---- Counting ----

proof fn counts_join(a: Seq<AgentEventView>, b: Seq<AgentEventView>, id: Seq<char>)
    ensures
        opened(a + b, id) == opened(a, id) + opened(b, id),
        closed(a + b, id) == closed(a, id) + closed(b, id),
        starts(a + b) == starts(a) + starts(b),
    decreases b.len(),
{
    if b.len() == 0 {
        assert(a + b =~= a);
    } else {
        counts_join(a, b.drop_last(), id);
        assert((a + b).drop_last() =~= a + b.drop_last());
    }
}

proof fn plain_counts(events: Seq<AgentEventView>, id: Seq<char>)
    requires
        forall|i: int|
            0 <= i < events.len() ==> !((#[trigger] events[i]) is ToolCallStarted || events[i]
                is ToolCallFinished),
    ensures
        opened(events, id) == 0,
        closed(events, id) == 0,
    decreases events.len(),
{
    if events.len() > 0 {
        let rest = events.drop_last();
        assert forall|i: int| 0 <= i < rest.len() implies !((#[trigger] rest[i]) is ToolCallStarted
            || rest[i] is ToolCallFinished) by {
            assert(rest[i] == events[i]);
        }
        plain_counts(rest, id);
        assert(!(events[events.len() - 1] is ToolCallStarted));
    }
}

proof fn without_calls_is_balanced(events: Seq<AgentEventView>)
    requires
        forall|i: int|
            0 <= i < events.len() ==> !((#[trigger] events[i]) is ToolCallStarted || events[i]
                is ToolCallFinished),
    ensures
        balanced(events),
{
    assert forall|id: Seq<char>| #[trigger] opened(events, id) == closed(events, id) by {
        plain_counts(events, id);
    }
    assert forall|n: int, id: Seq<char>| 0 <= n <= events.len() implies #[trigger] closed(
        events.take(n),
        id,
    ) <= opened(events.take(n), id) by {
        let head = events.take(n);
        assert forall|i: int| 0 <= i < head.len() implies !((#[trigger] head[i]) is ToolCallStarted
            || head[i] is ToolCallFinished) by {
            assert(head[i] == events[i]);
        }
        plain_counts(head, id);
    }
}

/// Some events with a balanced end stay in order.
proof fn order_joins(a: Seq<AgentEventView>, b: Seq<AgentEventView>)
    requires
        in_order(a),
        forall|n: int, id: Seq<char>|
            0 <= n <= b.len() ==> closed(a, id) + #[trigger] closed(b.take(n), id) <= opened(a, id)
                + opened(b.take(n), id),
    ensures
        in_order(a + b),
{
    assert forall|n: int, id: Seq<char>| 0 <= n <= (a + b).len() implies #[trigger] closed(
        (a + b).take(n),
        id,
    ) <= opened((a + b).take(n), id) by {
        if n <= a.len() {
            assert((a + b).take(n) =~= a.take(n));
            assert(closed(a.take(n), id) <= opened(a.take(n), id));
        } else {
            let m = n - a.len();
            assert((a + b).take(n) =~= a + b.take(m));
            counts_join(a, b.take(m), id);
            assert(closed(a, id) + closed(b.take(m), id) <= opened(a, id) + opened(b.take(m), id));
        }
    }
}

proof fn balance_joins(a: Seq<AgentEventView>, b: Seq<AgentEventView>)
    requires
        balanced(a),
        balanced(b),
    ensures
        balanced(a + b),
{
    assert forall|n: int, id: Seq<char>| 0 <= n <= b.len() implies closed(a, id)
        + #[trigger] closed(b.take(n), id) <= opened(a, id) + opened(b.take(n), id) by {
        assert(opened(a, id) == closed(a, id));
    }
    order_joins(a, b);
    assert forall|id: Seq<char>| #[trigger] opened(a + b, id) == closed(a + b, id) by {
        counts_join(a, b, id);
        assert(opened(a, id) == closed(a, id));
        assert(opened(b, id) == closed(b, id));
    }
}

proof fn closings_grow(events: Seq<AgentEventView>, n: int, id: Seq<char>)
    requires
        0 <= n <= events.len(),
    ensures
        closed(events.take(n), id) <= closed(events, id),
        opened(events.take(n), id) <= opened(events, id),
{
    assert(events =~= events.take(n) + events.skip(n));
    counts_join(events.take(n), events.skip(n), id);
}

proof fn no_starts(events: Seq<AgentEventView>)
    requires
        forall|i: int| 0 <= i < events.len() ==> !((#[trigger] events[i]) is TurnStarted),
    ensures
        starts(events) == 0,
    decreases events.len(),
{
    if events.len() > 0 {
        let rest = events.drop_last();
        assert forall|i: int| 0 <= i < rest.len() implies !((#[trigger] rest[i]) is TurnStarted) by {
            assert(rest[i] == events[i]);
        }
        no_starts(rest);
        assert(!(events[events.len() - 1] is TurnStarted));
    }
}

/// Events that open and close nothing may be shown in any step of a run.
pub proof fn law_plain_events_are_balanced(events: Seq<AgentEventView>)
    requires
        all_plain(events),
    ensures
        balanced(events),
        inside(events),
{
    assert forall|i: int| 0 <= i < events.len() implies !((#[trigger] events[i]) is ToolCallStarted
        || events[i] is ToolCallFinished || events[i] is TurnStarted || events[i]
        is TurnFinished) by {
        assert(plain(events[i]));
    }
    without_calls_is_balanced(events);
}

/// What is shown of a model's stream opens and closes nothing.
pub proof fn law_streams_show_plain_events(event: EventView, forward: bool)
    ensures
        shown_event(event, forward) matches Some(shown) ==> plain(shown),
{
}

// ---- The calls of one answer ----

/// Something that is said about a call before it runs.
#[verifier::ext_equal]
pub enum Said {
    /// The hooks that saw the call warn of something.
    Warned(Seq<Seq<char>>),
    /// A person is asked.
    Asked(ApprovalView),
    /// Something happens while the answer is awaited.
    Awaited { request_id: Seq<char>, signal: ApprovalSignal },
    /// There is nobody to ask.
    Unasked { request_id: Seq<char> },
}

pub open spec fn said_shown(said: Said) -> Seq<AgentEventView> {
    match said {
        Said::Warned(warnings) => warnings_shown(warnings),
        Said::Asked(request) => seq![AgentEventView::PermissionRequested { request }],
        Said::Awaited { request_id, signal } => approval_after(request_id, signal).1,
        Said::Unasked { request_id } => seq![resolved(request_id, false)],
    }
}

pub open spec fn all_said(says: Seq<Said>) -> Seq<AgentEventView>
    decreases says.len(),
{
    if says.len() == 0 {
        seq![]
    } else {
        all_said(says.drop_last()) + said_shown(says.last())
    }
}

proof fn plain_joins(a: Seq<AgentEventView>, b: Seq<AgentEventView>)
    requires
        all_plain(a),
        all_plain(b),
    ensures
        all_plain(a + b),
{
    assert forall|i: int| 0 <= i < (a + b).len() implies plain(#[trigger] (a + b)[i]) by {
        if i < a.len() {
            assert(plain(a[i]));
        } else {
            assert(plain(b[i - a.len()]));
        }
    }
}

proof fn sayings_are_plain(says: Seq<Said>)
    ensures
        all_plain(all_said(says)),
    decreases says.len(),
{
    if says.len() > 0 {
        sayings_are_plain(says.drop_last());
        plain_joins(all_said(says.drop_last()), said_shown(says.last()));
    }
}

/// A call before any runs: it is announced, things are said about it, and it may be settled.
#[verifier::ext_equal]
pub struct Announced {
    pub summary: Seq<char>,
    pub says: Seq<Said>,
    pub item: ItemView,
}

/// What is shown of a call before any runs.
pub open spec fn announced_shown(call: Announced) -> Seq<AgentEventView> {
    let opening = seq![
        AgentEventView::ToolCallStarted {
            id: call.item.id,
            name: call.item.name,
            summary: call.summary,
        },
    ];
    opening + all_said(call.says) + (match call.item.outcome {
        Some(outcome) => seq![closing(call.item.id, call.item.name, outcome)],
        None => seq![],
    })
}

pub open spec fn all_announced(calls: Seq<Announced>) -> Seq<AgentEventView>
    decreases calls.len(),
{
    if calls.len() == 0 {
        seq![]
    } else {
        all_announced(calls.drop_last()) + announced_shown(calls.last())
    }
}

pub open spec fn items_of(calls: Seq<Announced>) -> Seq<ItemView> {
    Seq::new(calls.len(), |i: int| calls[i].item)
}

/// How many calls with an id have no outcome yet.
pub open spec fn waiting(items: Seq<ItemView>, id: Seq<char>) -> nat
    decreases items.len(),
{
    if items.len() == 0 {
        0
    } else {
        waiting(items.drop_last(), id) + (if items.last().id == id && items.last().outcome is None {
            1nat
        } else {
            0
        })
    }
}

/// Something that happens to a batch.
#[verifier::ext_equal]
pub enum Move {
    Launch { cancelled: bool },
    Progress { slot: usize, output: OutputView },
    Finish { slot: usize, post: PostView },
}

pub open spec fn may_move(b: BatchView, m: Move) -> bool {
    match m {
        Move::Launch { .. } => true,
        Move::Progress { slot, .. } => slot < b.slots.len(),
        Move::Finish { slot, .. } => slot < b.next && !b.settled[slot as int],
    }
}

pub open spec fn moved(b: BatchView, m: Move) -> BatchView {
    match m {
        Move::Launch { cancelled } => launched(b, cancelled).0,
        Move::Progress { .. } => b,
        Move::Finish { slot, post } => finished(b, slot, post),
    }
}

pub open spec fn move_shown(b: BatchView, m: Move) -> Seq<AgentEventView> {
    match m {
        Move::Launch { cancelled } => launch_shown(b, cancelled),
        Move::Progress { slot, output } => if b.settled[slot as int] {
            seq![]
        } else {
            let item = b.items[b.slots[slot as int] as int];
            seq![AgentEventView::ToolCallUpdated { id: item.id, name: item.name, output }]
        },
        Move::Finish { slot, post } => finish_shown(b, slot, post),
    }
}

pub open spec fn batch_after(b: BatchView, moves: Seq<Move>) -> BatchView
    decreases moves.len(),
{
    if moves.len() == 0 {
        b
    } else {
        moved(batch_after(b, moves.drop_last()), moves.last())
    }
}

pub open spec fn batch_legal(b: BatchView, moves: Seq<Move>) -> bool
    decreases moves.len(),
{
    moves.len() == 0 || {
        &&& batch_legal(b, moves.drop_last())
        &&& may_move(batch_after(b, moves.drop_last()), moves.last())
    }
}

pub open spec fn batch_shown(b: BatchView, moves: Seq<Move>) -> Seq<AgentEventView>
    decreases moves.len(),
{
    if moves.len() == 0 {
        seq![]
    } else {
        batch_shown(b, moves.drop_last()) + move_shown(
            batch_after(b, moves.drop_last()),
            moves.last(),
        )
    }
}

proof fn one_less_waits(items: Seq<ItemView>, at: int, item: ItemView, id: Seq<char>)
    requires
        0 <= at < items.len(),
        items[at].outcome is None,
        item.outcome is Some,
        item.id == items[at].id,
    ensures
        waiting(items.update(at, item), id) + (if items[at].id == id {
            1nat
        } else {
            0
        }) == waiting(items, id),
    decreases items.len(),
{
    let now = items.update(at, item);
    if at < items.len() - 1 {
        one_less_waits(items.drop_last(), at, item, id);
        assert(now.drop_last() =~= items.drop_last().update(at, item));
    } else {
        assert(now.drop_last() =~= items.drop_last());
    }
}

proof fn one_closing(id: Seq<char>, events: Seq<AgentEventView>, own: Seq<char>)
    requires
        events.len() == 1,
        events[0] is ToolCallFinished,
        events[0]->ToolCallFinished_id == own,
    ensures
        opened(events, id) == 0,
        closed(events, id) == (if own == id {
            1nat
        } else {
            0
        }),
{
    assert(events.drop_last() =~= seq![]);
    assert(opened(events.drop_last(), id) == 0);
    assert(closed(events.drop_last(), id) == 0);
}

proof fn move_counts(b: BatchView, m: Move, id: Seq<char>)
    requires
        sound(b),
        b.items.len() <= usize::MAX,
        may_move(b, m),
    ensures
        sound(moved(b, m)),
        moved(b, m).items.len() == b.items.len(),
        opened(move_shown(b, m), id) == 0,
        closed(move_shown(b, m), id) + waiting(moved(b, m).items, id) == waiting(b.items, id),
        inside(move_shown(b, m)),
{
    let shown = move_shown(b, m);
    match m {
        Move::Launch { cancelled } => {
            law_launching_keeps_batches_sound(b, cancelled);
            if b.running < b.cap && b.next < b.slots.len() && cancelled {
                let place = b.slots[b.next as int] as int;
                let after = with_outcome(b, b.next, not_started(), b.items[place].hook_stop);
                one_less_waits(b.items, place, after.items[place], id);
                one_closing(id, shown, b.items[place].id);
            } else {
                plain_counts(shown, id);
            }
        },
        Move::Progress { slot, output } => {
            plain_counts(shown, id);
        },
        Move::Finish { slot, post } => {
            law_finishing_keeps_batches_sound(b, slot, post);
            let place = b.slots[slot as int] as int;
            let item = b.items[place];
            let end = seq![closing(item.id, item.name, normalized(post.outcome))];
            one_less_waits(b.items, place, finished(b, slot, post).items[place], id);
            assert(shown =~= warnings_shown(post.warnings) + end);
            plain_counts(warnings_shown(post.warnings), id);
            one_closing(id, end, item.id);
            counts_join(warnings_shown(post.warnings), end, id);
        },
    }
}

proof fn batch_counts(b: BatchView, moves: Seq<Move>, id: Seq<char>)
    requires
        sound(b),
        b.items.len() <= usize::MAX,
        batch_legal(b, moves),
    ensures
        sound(batch_after(b, moves)),
        batch_after(b, moves).items.len() == b.items.len(),
        opened(batch_shown(b, moves), id) == 0,
        closed(batch_shown(b, moves), id) + waiting(batch_after(b, moves).items, id) == waiting(
            b.items,
            id,
        ),
        inside(batch_shown(b, moves)),
    decreases moves.len(),
{
    if moves.len() > 0 {
        let rest = moves.drop_last();
        batch_counts(b, rest, id);
        move_counts(batch_after(b, rest), moves.last(), id);
        counts_join(
            batch_shown(b, rest),
            move_shown(batch_after(b, rest), moves.last()),
            id,
        );
    }
}

proof fn nothing_waits(items: Seq<ItemView>, id: Seq<char>)
    requires
        forall|i: int| 0 <= i < items.len() ==> (#[trigger] items[i]).outcome is Some,
    ensures
        waiting(items, id) == 0,
    decreases items.len(),
{
    if items.len() > 0 {
        let rest = items.drop_last();
        assert forall|i: int| 0 <= i < rest.len() implies (#[trigger] rest[i]).outcome is Some by {
            assert(rest[i] == items[i]);
        }
        nothing_waits(rest, id);
        assert(items[items.len() - 1].outcome is Some);
    }
}

proof fn announced_counts(call: Announced, n: int, id: Seq<char>)
    requires
        0 <= n <= announced_shown(call).len(),
    ensures
        opened(announced_shown(call), id) == (if call.item.id == id {
            1nat
        } else {
            0
        }),
        closed(announced_shown(call), id) == (if call.item.id == id && call.item.outcome is Some {
            1nat
        } else {
            0
        }),
        closed(announced_shown(call).take(n), id) <= opened(announced_shown(call).take(n), id),
        inside(announced_shown(call)),
{
    let all = announced_shown(call);
    let opening = seq![
        AgentEventView::ToolCallStarted {
            id: call.item.id,
            name: call.item.name,
            summary: call.summary,
        },
    ];
    let end = match call.item.outcome {
        Some(outcome) => seq![closing(call.item.id, call.item.name, outcome)],
        None => seq![],
    };
    assert(opening.drop_last() =~= seq![]);
    assert(opened(opening.drop_last(), id) == 0 && closed(opening.drop_last(), id) == 0);
    let said = all_said(call.says);
    sayings_are_plain(call.says);
    assert forall|i: int| 0 <= i < said.len() implies !((#[trigger] said[i]) is ToolCallStarted
        || said[i] is ToolCallFinished) by {
        assert(plain(said[i]));
    }
    plain_counts(said, id);
    counts_join(opening, said, id);
    counts_join(opening + said, end, id);
    if call.item.outcome is Some {
        one_closing(id, end, call.item.id);
    }
    assert forall|i: int| 0 <= i < all.len() implies !((#[trigger] all[i]) is TurnStarted || all[i]
        is TurnFinished) by {
        if 1 <= i < 1 + said.len() {
            assert(all[i] == said[i - 1]);
            assert(plain(said[i - 1]));
        }
    }
    closings_grow(all, n, id);
    if n > 0 {
        let head = all.take(n);
        assert(head =~= opening + head.skip(1));
        counts_join(opening, head.skip(1), id);
    } else {
        assert(all.take(n) =~= seq![]);
    }
}

proof fn announcing_counts(calls: Seq<Announced>, id: Seq<char>)
    ensures
        opened(all_announced(calls), id) == closed(all_announced(calls), id) + waiting(
            items_of(calls),
            id,
        ),
    decreases calls.len(),
{
    if calls.len() > 0 {
        let rest = calls.drop_last();
        announcing_counts(rest, id);
        announced_counts(calls.last(), 0, id);
        counts_join(all_announced(rest), announced_shown(calls.last()), id);
        assert(items_of(calls).drop_last() =~= items_of(rest));
    }
}

proof fn announcing_is_in_order(calls: Seq<Announced>)
    ensures
        in_order(all_announced(calls)),
        inside(all_announced(calls)),
    decreases calls.len(),
{
    if calls.len() > 0 {
        let rest = calls.drop_last();
        announcing_is_in_order(rest);
        let a = all_announced(rest);
        let b = announced_shown(calls.last());
        assert forall|n: int, id: Seq<char>| 0 <= n <= b.len() implies closed(a, id)
            + #[trigger] closed(b.take(n), id) <= opened(a, id) + opened(b.take(n), id) by {
            announced_counts(calls.last(), n, id);
            announcing_counts(rest, id);
        }
        order_joins(a, b);
        announced_counts(calls.last(), 0, seq![]);
    } else {
        without_calls_is_balanced(all_announced(calls));
    }
}

/// The calls of an answer: each is opened once and, by the time all are done, closed once, however
/// it ends and in whatever order things happen; and no call is closed before it is opened.
pub proof fn law_every_call_is_closed_once(calls: Seq<Announced>, b: BatchView, moves: Seq<Move>)
    requires
        calls.len() <= usize::MAX,
        sound(b),
        b.items == items_of(calls),
        batch_legal(b, moves),
        batch_after(b, moves).completed >= batch_after(b, moves).slots.len(),
    ensures
        balanced(all_announced(calls) + batch_shown(b, moves)),
        inside(all_announced(calls) + batch_shown(b, moves)),
{
    let first = all_announced(calls);
    let later = batch_shown(b, moves);
    let after = batch_after(b, moves);
    announcing_is_in_order(calls);
    batch_counts(b, moves, seq![]);
    law_done_batches_are_complete(after);
    assert forall|n: int, id: Seq<char>| 0 <= n <= later.len() implies closed(first, id)
        + #[trigger] closed(later.take(n), id) <= opened(first, id) + opened(later.take(n), id) by {
        batch_counts(b, moves, id);
        announcing_counts(calls, id);
        closings_grow(later, n, id);
    }
    order_joins(first, later);
    assert forall|id: Seq<char>| #[trigger] opened(first + later, id) == closed(
        first + later,
        id,
    ) by {
        batch_counts(b, moves, id);
        announcing_counts(calls, id);
        nothing_waits(after.items, id);
        counts_join(first, later, id);
    }
}

// ---- A whole run ----

/// What is done in one step of a run.
#[verifier::ext_equal]
pub enum Work {
    /// Hooks are asked, facts are stored, or commands are taken: nothing is shown of it.
    Silent,
    /// The history is fitted to the budget, and the model is called.
    Call {
        budget: ContextBudget,
        system_chars: u64,
        tools_chars: u64,
        projection: ModelProjection,
        attempts: Seq<Attempt>,
    },
    /// The calls of an answer are judged, and those that may run are run.
    Tools { calls: Seq<Announced>, batch: BatchView, moves: Seq<Move> },
}

/// What is shown of a step while it is carried out.
pub open spec fn work_shown(work: Work) -> Seq<AgentEventView> {
    match work {
        Work::Silent => seq![],
        Work::Call { budget, system_chars, tools_chars, projection, attempts } => fitted(
            budget,
            system_chars,
            tools_chars,
            projection,
        ).1 + attempts_shown(attempts, true),
        Work::Tools { calls, batch, moves } => all_announced(calls) + batch_shown(batch, moves),
    }
}

/// Whether a step is carried out to its end: a batch is one of the calls that were judged, and it
/// goes on until all of them are done.
pub open spec fn carried_out(work: Work) -> bool {
    match work {
        Work::Tools { calls, batch, moves } => {
            &&& calls.len() <= usize::MAX
            &&& sound(batch)
            &&& batch.items == items_of(calls)
            &&& batch_legal(batch, moves)
            &&& batch_after(batch, moves).completed >= batch_after(batch, moves).slots.len()
        },
        _ => true,
    }
}

proof fn streams_are_plain(streamed: Seq<EventView>)
    ensures
        all_plain(stream_shown(streamed, true)),
    decreases streamed.len(),
{
    if streamed.len() > 0 {
        let before = stream_shown(streamed.drop_last(), true);
        let now = stream_shown(streamed, true);
        streams_are_plain(streamed.drop_last());
        law_streams_show_plain_events(streamed.last(), true);
        assert forall|i: int| 0 <= i < now.len() implies plain(#[trigger] now[i]) by {
            if i < before.len() {
                assert(plain(before[i]));
            }
        }
    }
}

proof fn attempts_are_plain(attempts: Seq<Attempt>)
    ensures
        all_plain(attempts_shown(attempts, true)),
    decreases attempts.len(),
{
    if attempts.len() > 0 {
        let last = attempts.last();
        let before = attempts_shown(attempts.drop_last(), true);
        attempts_are_plain(attempts.drop_last());
        streams_are_plain(last.streamed);
        plain_joins(before, stream_shown(last.streamed, true));
        let end = match last.retried {
            Some(notice) => seq![AgentEventView::Notice(notice)],
            None => seq![],
        };
        plain_joins(before + stream_shown(last.streamed, true), end);
    }
}

/// Whatever a step does, what it shows while it is carried out neither starts nor ends a run, and
/// each call that it opens it closes as often, and never before.
pub proof fn law_steps_close_what_they_open(work: Work)
    requires
        carried_out(work),
    ensures
        balanced(work_shown(work)),
        inside(work_shown(work)),
{
    match work {
        Work::Silent => {
            law_plain_events_are_balanced(seq![]);
        },
        Work::Call { budget, system_chars, tools_chars, projection, attempts } => {
            let fit = fitted(budget, system_chars, tools_chars, projection).1;
            let repairs = repair_shown(projection.diagnostics.deep_view());
            assert forall|i: int| 0 <= i < fit.len() implies plain(#[trigger] fit[i]) by {
                if i < repairs.len() {
                    assert(fit[i] == repairs[i]);
                }
            }
            attempts_are_plain(attempts);
            plain_joins(fit, attempts_shown(attempts, true));
            law_plain_events_are_balanced(work_shown(work));
        },
        Work::Tools { calls, batch, moves } => {
            law_every_call_is_closed_once(calls, batch, moves);
        },
    }
}

/// A step of a run: what is done, what comes of it, and whether the run has been cancelled by then.
#[verifier::ext_equal]
pub struct Leg {
    pub work: Work,
    pub input: InputView,
    pub cancelled: bool,
}

pub open spec fn inputs_of(legs: Seq<Leg>) -> Inputs {
    Seq::new(legs.len(), |i: int| (legs[i].input, legs[i].cancelled))
}

/// What is shown of some steps.
pub open spec fn legs_shown(run: RunView, legs: Seq<Leg>) -> Seq<AgentEventView>
    decreases legs.len(),
{
    if legs.len() == 0 {
        seq![]
    } else {
        let before = run_after(run, inputs_of(legs.drop_last()));
        legs_shown(run, legs.drop_last()) + work_shown(legs.last().work) + advanced(
            before,
            legs.last().input,
            legs.last().cancelled,
        ).shown
    }
}

/// Everything that a run shows.
pub open spec fn run_shown(
    input: Seq<char>,
    max_turns: u32,
    usage: Usage,
    legs: Seq<Leg>,
    queued: Seq<CommandView>,
    cancelled: bool,
) -> Seq<AgentEventView> {
    let run = begun(input, max_turns, usage);
    let after = run_after(run, inputs_of(legs));
    seq![AgentEventView::UserMessage(input)] + legs_shown(run, legs) + run_ended(
        after.queues,
        queued,
        cancelled,
        after.deferred,
    ).1
}

/// A run that has not said yet that it starts.
spec fn unsaid(phase: PhaseView) -> bool {
    phase is Starting || phase is Submitting
}

proof fn steps_show_no_calls(run: RunView, input: InputView, cancelled: bool)
    requires
        awaits(run.phase, input),
    ensures
        ({
            let a = advanced(run, input, cancelled);
            &&& forall|i: int|
                0 <= i < a.shown.len() ==> !((#[trigger] a.shown[i]) is ToolCallStarted
                    || a.shown[i] is ToolCallFinished || a.shown[i] is TurnFinished)
            &&& starts(a.shown) <= 1
            &&& !(run.phase is Submitting) ==> starts(a.shown) == 0
            &&& unsaid(a.run.phase) ==> run.phase is Starting
        }),
{
    let a = advanced(run, input, cancelled);
    let shown = a.shown;
    law_steps_do_not_close_the_run(run, input, cancelled);
    if let InputView::Drained(commands) = input {
        let s = Sorted { queues: run.queues, deferred: run.deferred, events: seq![], cancel: false };
        let sorted = sorted_all(s, commands);
        sorting_shows_notices(s, commands);
        assert forall|i: int| 0 <= i < shown.len() implies !((#[trigger] shown[i])
            is ToolCallStarted || shown[i] is ToolCallFinished || shown[i] is TurnStarted) by {
            if i < sorted.events.len() {
                assert(shown[i] == sorted.events[i]);
            }
        }
        no_starts(shown);
    } else if run.phase is Submitting {
        if input == InputView::Committed(None) {
            let first = seq![AgentEventView::TurnStarted];
            assert(shown =~= first + shown.skip(1));
            assert(first.drop_last() =~= seq![]);
            assert(starts(first.drop_last()) == 0);
            no_starts(shown.skip(1));
            counts_join(first, shown.skip(1), seq![]);
        } else {
            no_starts(shown);
        }
    } else {
        no_starts(shown);
    }
}

proof fn legs_are_balanced(run: RunView, legs: Seq<Leg>)
    requires
        run.phase is Starting,
        legal(run, inputs_of(legs)),
        forall|i: int| 0 <= i < legs.len() ==> carried_out((#[trigger] legs[i]).work),
    ensures
        balanced(legs_shown(run, legs)),
        forall|i: int|
            0 <= i < legs_shown(run, legs).len() ==> !((#[trigger] legs_shown(run, legs)[i])
                is TurnFinished),
        starts(legs_shown(run, legs)) <= 1,
        unsaid(run_after(run, inputs_of(legs)).phase) ==> starts(legs_shown(run, legs)) == 0,
    decreases legs.len(),
{
    let shown = legs_shown(run, legs);
    if legs.len() > 0 {
        let rest = legs.drop_last();
        let last = legs.last();
        assert(inputs_of(legs).drop_last() =~= inputs_of(rest));
        assert forall|i: int| 0 <= i < rest.len() implies carried_out((#[trigger] rest[i]).work) by {
            assert(rest[i] == legs[i]);
        }
        legs_are_balanced(run, rest);
        let before = run_after(run, inputs_of(rest));
        let told = advanced(before, last.input, last.cancelled).shown;
        let so_far = legs_shown(run, rest);
        steps_show_no_calls(before, last.input, last.cancelled);
        without_calls_is_balanced(told);
        assert(legs[legs.len() - 1] == last);
        let meanwhile = work_shown(last.work);
        law_steps_close_what_they_open(last.work);
        balance_joins(so_far, meanwhile);
        balance_joins(so_far + meanwhile, told);
        no_starts(meanwhile);
        counts_join(so_far, meanwhile, seq![]);
        counts_join(so_far + meanwhile, told, seq![]);
        assert forall|i: int| 0 <= i < shown.len() implies !((#[trigger] shown[i])
            is TurnFinished) by {
            if i < so_far.len() {
                assert(shown[i] == so_far[i]);
            } else if i < so_far.len() + meanwhile.len() {
                assert(shown[i] == meanwhile[i - so_far.len()]);
            } else {
                assert(shown[i] == told[i - so_far.len() - meanwhile.len()]);
            }
        }
    } else {
        without_calls_is_balanced(shown);
    }
}

/// Whatever happens in a run, what it shows begins with the prompt and ends with the one event that
/// closes it; it is said to start at most once; and each call that is opened is closed as often, and
/// never before it is opened.
pub proof fn law_runs_are_shown_whole(
    input: Seq<char>,
    max_turns: u32,
    usage: Usage,
    legs: Seq<Leg>,
    queued: Seq<CommandView>,
    cancelled: bool,
)
    requires
        legal(begun(input, max_turns, usage), inputs_of(legs)),
        run_after(begun(input, max_turns, usage), inputs_of(legs)).phase == (PhaseView::Done {
            cancelled,
        }),
        forall|i: int| 0 <= i < legs.len() ==> carried_out((#[trigger] legs[i]).work),
    ensures
        ({
            let shown = run_shown(input, max_turns, usage, legs, queued, cancelled);
            &&& shown.len() >= 2
            &&& shown[0] == AgentEventView::UserMessage(input)
            &&& shown.last() == AgentEventView::TurnFinished { cancelled }
            &&& forall|i: int| 0 <= i < shown.len() - 1 ==> !((#[trigger] shown[i]) is TurnFinished)
            &&& starts(shown) <= 1
            &&& balanced(shown)
        }),
{
    let run = begun(input, max_turns, usage);
    let after = run_after(run, inputs_of(legs));
    let first = seq![AgentEventView::UserMessage(input)];
    let middle = legs_shown(run, legs);
    let end = run_ended(after.queues, queued, cancelled, after.deferred).1;
    let shown = run_shown(input, max_turns, usage, legs, queued, cancelled);
    legs_are_balanced(run, legs);
    law_runs_end_once(after.queues, queued, cancelled, after.deferred);
    without_calls_is_balanced(first);
    without_calls_is_balanced(end);
    balance_joins(first, middle);
    balance_joins(first + middle, end);
    no_starts(first);
    no_starts(end);
    counts_join(first, middle, seq![]);
    counts_join(first + middle, end, seq![]);
    assert forall|i: int| 0 <= i < shown.len() - 1 implies !((#[trigger] shown[i])
        is TurnFinished) by {
        if i < 1 {
        } else if i < 1 + middle.len() {
            assert(shown[i] == middle[i - 1]);
        } else {
            assert(shown[i] == end[i - 1 - middle.len()]);
        }
    }
}

} // verus!
