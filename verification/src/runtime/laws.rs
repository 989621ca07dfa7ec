//! What holds of every run. What a run shows as a whole is a matter of its own: see
//! [`crate::runtime::shown::law_runs_are_shown_whole`].
use vstd::prelude::*;

use crate::event::CommandView;

use crate::message::{uses_of, BlockView, MessageView, Role, Usage};
use crate::runtime::batch::{collected, result_block, ItemView};
use crate::runtime::queues::{sorted_all, Sorted};
use crate::runtime::run::{
    advanced, awaits, begun, plain_fact, InputView, PhaseView, RunStepView, RunView,
};
use crate::session::{
    batch_blocks, batch_paired, id_paired, result_ids, times, use_ids, PayloadView,
};

verus! {

/// Inputs, each with whether the run had been cancelled when it came.
pub type Inputs = Seq<(InputView, bool)>;

/// The run after some inputs.
pub open spec fn run_after(run: RunView, inputs: Inputs) -> RunView
    decreases inputs.len(),
{
    if inputs.len() == 0 {
        run
    } else {
        let before = run_after(run, inputs.drop_last());
        advanced(before, inputs.last().0, inputs.last().1).run
    }
}

/// Each input is one that the run waits for when it comes.
pub open spec fn legal(run: RunView, inputs: Inputs) -> bool
    decreases inputs.len(),
{
    inputs.len() == 0 || {
        &&& legal(run, inputs.drop_last())
        &&& awaits(run_after(run, inputs.drop_last()).phase, inputs.last().0)
    }
}

/// How often the model is called.
pub open spec fn model_calls(run: RunView, inputs: Inputs) -> nat
    decreases inputs.len(),
{
    if inputs.len() == 0 {
        0
    } else {
        let before = run_after(run, inputs.drop_last());
        model_calls(run, inputs.drop_last()) + (if advanced(
            before,
            inputs.last().0,
            inputs.last().1,
        ).step is Call {
            1nat
        } else {
            0nat
        })
    }
}

/// How often hooks keep the run from ending.
pub open spec fn preventions(inputs: Inputs) -> nat
    decreases inputs.len(),
{
    if inputs.len() == 0 {
        0
    } else {
        preventions(inputs.drop_last()) + (if inputs.last().0 matches InputView::Stopped(stop)
            && stop.prevent_stop is Some {
            1nat
        } else {
            0nat
        })
    }
}

/// A run calls the model at most as often as it may.
pub proof fn law_model_calls_are_bounded(run: RunView, inputs: Inputs)
    requires
        legal(run, inputs),
        run.round <= run.max_turns,
    ensures
        run_after(run, inputs).max_turns == run.max_turns,
        run_after(run, inputs).round <= run.max_turns,
        model_calls(run, inputs) == run_after(run, inputs).round - run.round,
        model_calls(run, inputs) <= run.max_turns - run.round,
    decreases inputs.len(),
{
    if inputs.len() > 0 {
        law_model_calls_are_bounded(run, inputs.drop_last());
    }
}

/// Hooks keep a run from ending at most once.
pub proof fn law_hooks_prevent_one_end(input: Seq<char>, max_turns: u32, usage: Usage, inputs: Inputs)
    requires
        legal(begun(input, max_turns, usage), inputs),
    ensures
        preventions(inputs) <= 1,
{
    prevention_is_remembered(begun(input, max_turns, usage), inputs);
}

proof fn prevention_is_remembered(run: RunView, inputs: Inputs)
    requires
        legal(run, inputs),
        run.phase is Starting,
        !run.stop_hook_active,
    ensures
        ({
            let now = run_after(run, inputs);
            &&& preventions(inputs) <= 1
            &&& preventions(inputs) == 1 ==> now.stop_hook_active || now.phase is Continuing
                || now.phase is Done
            &&& now.phase is Continuing ==> !now.stop_hook_active
            &&& now.phase is Stopping ==> !now.stop_hook_active && preventions(inputs) == 0
            &&& now.stop_hook_active ==> !(now.phase is Stopping || now.phase is Continuing)
        }),
    decreases inputs.len(),
{
    if inputs.len() > 0 {
        prevention_is_remembered(run, inputs.drop_last());
    }
}

/// A run that is over stays over: it waits for nothing.
pub proof fn law_nothing_follows_the_end(run: RunView, input: InputView)
    requires
        run.phase is Done,
    ensures
        !awaits(run.phase, input),
{
}

/// What is shown of commands that arrive are notices.
pub proof fn sorting_shows_notices(s: Sorted, commands: Seq<CommandView>)
    requires
        s.events.len() == 0,
    ensures
        forall|i: int|
            0 <= i < sorted_all(s, commands).events.len() ==> (#[trigger] sorted_all(
                s,
                commands,
            ).events[i]) is Notice,
    decreases commands.len(),
{
    if commands.len() > 0 {
        sorting_shows_notices(s, commands.drop_last());
        let before = sorted_all(s, commands.drop_last()).events;
        let now = sorted_all(s, commands).events;
        assert forall|i: int| 0 <= i < now.len() implies (#[trigger] now[i]) is Notice by {
            if i < before.len() {
                assert(now[i] == before[i]);
            }
        }
    }
}

/// No step closes a run: the closing event comes with its end alone.
pub proof fn law_steps_do_not_close_the_run(run: RunView, input: InputView, cancelled: bool)
    requires
        awaits(run.phase, input),
    ensures
        forall|i: int|
            0 <= i < advanced(run, input, cancelled).shown.len() ==> !((#[trigger] advanced(
                run,
                input,
                cancelled,
            ).shown[i]) is TurnFinished),
{
    let shown = advanced(run, input, cancelled).shown;
    if let InputView::Drained(commands) = input {
        let s = Sorted { queues: run.queues, deferred: run.deferred, events: seq![], cancel: false };
        let sorted = sorted_all(s, commands);
        sorting_shows_notices(s, commands);
        assert forall|i: int| 0 <= i < shown.len() implies !((#[trigger] shown[i]) is TurnFinished) by {
            if i < sorted.events.len() {
                assert(shown[i] == sorted.events[i]);
            }
        }
    }
}

/// Queued input goes into the conversation only at a checkpoint: when all tools of an answer have
/// run and their results are stored, or when a task would end.
pub proof fn law_input_waits_for_a_checkpoint(run: RunView, input: InputView, cancelled: bool)
    requires
        awaits(run.phase, input),
        advanced(run, input, cancelled).run.phase is Injecting,
    ensures
        run.phase is Draining,
        !cancelled,
{
}

/// After a batch of tools only steering is taken; follow-ups wait.
pub proof fn law_follow_ups_wait_for_the_end(run: RunView, commands: Seq<CommandView>, cancelled: bool)
    requires
        run.phase == (PhaseView::Draining { after_batch: true }),
    ensures
        ({
            let s = Sorted {
                queues: run.queues,
                deferred: run.deferred,
                events: seq![],
                cancel: false,
            };
            advanced(run, InputView::Drained(commands), cancelled).run.queues.follow_up
                == sorted_all(s, commands).queues.follow_up
        }),
{
}

/// A run goes on only with what is stored: when facts cannot be stored, it ends.
pub proof fn law_unstored_facts_end_the_run(run: RunView, error: Seq<char>, cancelled: bool)
    requires
        awaits(run.phase, InputView::Committed(Some(error))),
    ensures
        advanced(run, InputView::Committed(Some(error)), cancelled).step is Finish,
        advanced(run, InputView::Committed(Some(error)), cancelled).run.phase is Done,
{
}

/// Every step is followed by an answer that the run waits for.
pub proof fn law_steps_and_phases_agree(run: RunView, input: InputView, cancelled: bool)
    requires
        awaits(run.phase, input),
    ensures
        ({
            let a = advanced(run, input, cancelled);
            match a.step {
                RunStepView::PromptHooks { .. } => false,
                RunStepView::Commit { .. } => awaits(a.run.phase, InputView::Committed(None)),
                RunStepView::Call => a.run.phase is Asking,
                RunStepView::StopHooks { .. } => a.run.phase is Stopping,
                RunStepView::Drain => a.run.phase is Draining,
                RunStepView::Tools { .. } => a.run.phase is Working,
                RunStepView::Finish { cancelled } => a.run.phase == (PhaseView::Done { cancelled }),
            }
        }),
{
}

// ---- Stored batches ----

proof fn use_ids_join(a: Seq<BlockView>, b: Seq<BlockView>)
    ensures
        use_ids(a + b) == use_ids(a) + use_ids(b),
        result_ids(a + b) == result_ids(a) + result_ids(b),
    decreases b.len(),
{
    if b.len() == 0 {
        assert(a + b =~= a);
        assert(use_ids(a) + use_ids(b) =~= use_ids(a));
        assert(result_ids(a) + result_ids(b) =~= result_ids(a));
    } else {
        use_ids_join(a, b.drop_last());
        assert((a + b).drop_last() =~= a + b.drop_last());
        assert((a + b).last() == b.last());
        assert(use_ids(a + b) =~= use_ids(a) + use_ids(b));
        assert(result_ids(a + b) =~= result_ids(a) + result_ids(b));
    }
}

proof fn uses_by_id(blocks: Seq<BlockView>)
    ensures
        use_ids(blocks).len() == uses_of(blocks).len(),
        forall|i: int|
            0 <= i < uses_of(blocks).len() ==> #[trigger] use_ids(blocks)[i] == uses_of(blocks)[i].0,
    decreases blocks.len(),
{
    if blocks.len() > 0 {
        uses_by_id(blocks.drop_last());
        let now = use_ids(blocks);
        let before = use_ids(blocks.drop_last());
        assert forall|i: int| 0 <= i < uses_of(blocks).len() implies #[trigger] now[i] == uses_of(
            blocks,
        )[i].0 by {
            if i < before.len() {
                assert(now[i] == before[i]);
            }
        }
    }
}

proof fn results_by_id(items: Seq<ItemView>)
    ensures
        use_ids(collected(items).results) == Seq::<Seq<char>>::empty(),
        result_ids(collected(items).results).len() == items.len(),
        forall|i: int|
            0 <= i < items.len() ==> #[trigger] result_ids(collected(items).results)[i]
                == items[i].id,
    decreases items.len(),
{
    if items.len() > 0 {
        let rest = items.drop_last();
        results_by_id(rest);
        let results = collected(items).results;
        assert(results.drop_last() =~= collected(rest).results);
        assert(results.last() == result_block(items.last()));
        assert forall|i: int| 0 <= i < items.len() implies #[trigger] result_ids(results)[i]
            == items[i].id by {
            if i < rest.len() {
                assert(result_ids(results)[i] == result_ids(collected(rest).results)[i]);
                assert(rest[i] == items[i]);
            }
        }
    }
}

proof fn times_of_contained(ids: Seq<Seq<char>>, id: Seq<char>)
    ensures
        times(ids, id) > 0 <==> ids.contains(id),
    decreases ids.len(),
{
    if ids.len() > 0 {
        let rest = ids.drop_last();
        times_of_contained(rest, id);
        if ids.contains(id) && ids.last() != id {
            let k = choose|k: int| 0 <= k < ids.len() && ids[k] == id;
            assert(rest[k] == id);
        }
        if rest.contains(id) {
            let k = choose|k: int| 0 <= k < rest.len() && rest[k] == id;
            assert(ids[k] == id);
        }
        if ids.last() == id {
            assert(ids[ids.len() - 1] == id);
        }
    }
}

/// What is stored of an answer with calls passes the check of a new batch: each call is answered
/// in the same batch, exactly once, as long as the model gave its calls different ids.
pub proof fn law_stored_batches_are_paired(answer: PayloadView, items: Seq<ItemView>)
    requires
        answer is Message,
        result_ids(answer->message.blocks).len() == 0,
        forall|id: Seq<char>| #[trigger] times(use_ids(answer->message.blocks), id) <= 1,
        items.len() == uses_of(answer->message.blocks).len(),
        forall|i: int|
            0 <= i < items.len() ==> (#[trigger] items[i]).id == uses_of(answer->message.blocks)[i].0,
    ensures
        batch_paired(
            seq![answer].push(
                plain_fact(MessageView { role: Role::User, blocks: collected(items).results }),
            ),
        ),
{
    let blocks = answer->message.blocks;
    let results = collected(items).results;
    let second = plain_fact(MessageView { role: Role::User, blocks: results });
    let batch = seq![answer].push(second);
    assert(batch.drop_last() =~= seq![answer]);
    assert(seq![answer].drop_last() =~= Seq::<PayloadView>::empty());
    reveal_with_fuel(batch_blocks, 3);
    assert(batch_blocks(seq![answer]) =~= blocks);
    let all = batch_blocks(batch);
    assert(all =~= blocks + results);
    use_ids_join(blocks, results);
    uses_by_id(blocks);
    results_by_id(items);
    assert(use_ids(all) =~= use_ids(blocks));
    assert(result_ids(all) =~= use_ids(blocks)) by {
        assert forall|i: int| 0 <= i < items.len() implies result_ids(all)[i] == use_ids(blocks)[i] by {
            assert(result_ids(all)[i] == result_ids(results)[i]);
        }
    }
    assert forall|id: Seq<char>| use_ids(all).contains(id) implies #[trigger] id_paired(all, id) by {
        times_of_contained(use_ids(blocks), id);
    }
}

} // verus!
