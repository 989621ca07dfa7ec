//! What arrives while a run is under way.
//!
//! Input that corrects the work (steering) and input that waits for its end (follow-up) are kept
//! apart. Other commands wait until the run is over.
use vstd::prelude::*;

use crate::event::{AgentCommand, AgentEvent, AgentEventView, CommandView};
use crate::list::{empty, pull, put, take_all, take_next};
use crate::text::{concat3, dec};

verus! {

/// The input of a run that is not handled yet.
#[derive(Debug)]
pub struct RunQueues {
    pub steering: Vec<String>,
    pub follow_up: Vec<String>,
}

#[verifier::ext_equal]
pub struct QueuesView {
    pub steering: Seq<Seq<char>>,
    pub follow_up: Seq<Seq<char>>,
}

impl DeepView for RunQueues {
    type V = QueuesView;

    open spec fn deep_view(&self) -> QueuesView {
        QueuesView {
            steering: self.steering.deep_view(),
            follow_up: self.follow_up.deep_view(),
        }
    }
}

impl Default for RunQueues {
    fn default() -> (q: RunQueues)
        ensures
            q.deep_view() == (QueuesView { steering: seq![], follow_up: seq![] }),
    {
        RunQueues { steering: empty(), follow_up: empty() }
    }
}

/// What some commands come to.
#[verifier::ext_equal]
pub struct Sorted {
    pub queues: QueuesView,
    /// Commands that wait until the run is over.
    pub deferred: Seq<CommandView>,
    pub events: Seq<AgentEventView>,
    /// Whether the run is asked to stop.
    pub cancel: bool,
}

pub open spec fn steered_notice() -> AgentEventView {
    AgentEventView::Notice(
        "当前轮进行中:该输入已按 steering 排队,将在本批工具完成后注入"@,
    )
}

pub open spec fn leaving_notice() -> AgentEventView {
    AgentEventView::Notice("收到退出请求,正在结束当前轮…"@)
}

/// One more command, during a run.
pub open spec fn sorted_in(s: Sorted, command: CommandView) -> Sorted {
    match command {
        CommandView::UserInput(t) => Sorted {
            queues: QueuesView { steering: s.queues.steering.push(t), ..s.queues },
            events: s.events.push(steered_notice()),
            ..s
        },
        CommandView::Steer(t) => Sorted {
            queues: QueuesView { steering: s.queues.steering.push(t), ..s.queues },
            ..s
        },
        CommandView::FollowUp(t) => Sorted {
            queues: QueuesView { follow_up: s.queues.follow_up.push(t), ..s.queues },
            ..s
        },
        CommandView::Shutdown => Sorted {
            deferred: s.deferred.push(command),
            events: s.events.push(leaving_notice()),
            cancel: true,
            ..s
        },
        _ => Sorted { deferred: s.deferred.push(command), ..s },
    }
}

/// The commands that arrived, in their order.
pub open spec fn sorted_all(s: Sorted, commands: Seq<CommandView>) -> Sorted
    decreases commands.len(),
{
    if commands.len() == 0 {
        s
    } else {
        sorted_in(sorted_all(s, commands.drop_last()), commands.last())
    }
}

impl RunQueues {
    /// Takes in the commands that arrived during the run; says whether the run is asked to stop.
    pub fn drain(
        &mut self,
        commands: Vec<AgentCommand>,
        deferred: &mut Vec<AgentCommand>,
        events: &mut Vec<AgentEvent>,
    ) -> (cancel: bool)
        ensures
            (Sorted {
                queues: final(self).deep_view(),
                deferred: final(deferred).deep_view(),
                events: final(events).deep_view(),
                cancel,
            }) == sorted_all(
                Sorted {
                    queues: old(self).deep_view(),
                    deferred: old(deferred).deep_view(),
                    events: old(events).deep_view(),
                    cancel: false,
                },
                commands.deep_view(),
            ),
    {
        let ghost start = Sorted {
            queues: self.deep_view(),
            deferred: deferred.deep_view(),
            events: events.deep_view(),
            cancel: false,
        };
        let ghost all = commands.deep_view();
        let mut rest = commands;
        let mut cancel = false;
        let ghost mut done: int = 0;
        assert(all.take(0) =~= seq![]);
        assert(all.skip(0) =~= all);
        while rest.len() > 0
            invariant
                0 <= done <= all.len(),
                rest.deep_view() == all.skip(done),
                rest.deep_view().len() == rest@.len(),
                (Sorted {
                    queues: self.deep_view(),
                    deferred: deferred.deep_view(),
                    events: events.deep_view(),
                    cancel,
                }) == sorted_all(start, all.take(done)),
            decreases rest@.len(),
        {
            proof {
                take_next(all, done);
                assert(all.skip(done)[0] == all[done]);
                assert(all.skip(done).drop_first() =~= all.skip(done + 1));
            }
            let command = pull(&mut rest);
            match command {
                AgentCommand::UserInput(text) => {
                    put(
                        events,
                        AgentEvent::Notice(
                            "当前轮进行中:该输入已按 steering 排队,将在本批工具完成后注入".to_owned(),
                        ),
                    );
                    put(&mut self.steering, text);
                },
                AgentCommand::Steer(text) => {
                    put(&mut self.steering, text);
                },
                AgentCommand::FollowUp(text) => {
                    put(&mut self.follow_up, text);
                },
                AgentCommand::Shutdown => {
                    put(
                        events,
                        AgentEvent::Notice("收到退出请求,正在结束当前轮…".to_owned()),
                    );
                    cancel = true;
                    put(deferred, AgentCommand::Shutdown);
                },
                other => {
                    put(deferred, other);
                },
            }
            proof {
                done = done + 1;
            }
        }
        proof {
            take_all(all);
        }
        cancel
    }

    /// Takes the oldest steering input.
    pub fn next_steering(&mut self) -> (r: Option<String>)
        ensures
            (final(self).deep_view(), r.deep_view()) == steering_taken(old(self).deep_view()),
    {
        assert(self.steering.deep_view().len() == self.steering@.len());
        if self.steering.len() == 0 {
            None
        } else {
            Some(pull(&mut self.steering))
        }
    }

    /// Takes the input that goes on after a finished task: steering first, then follow-ups.
    pub fn next_input(&mut self) -> (r: Option<String>)
        ensures
            (final(self).deep_view(), r.deep_view()) == input_taken(old(self).deep_view()),
    {
        match self.next_steering() {
            Some(text) => Some(text),
            None => {
                assert(self.follow_up.deep_view().len() == self.follow_up@.len());
                if self.follow_up.len() == 0 {
                    None
                } else {
                    Some(pull(&mut self.follow_up))
                }
            },
        }
    }
}

pub open spec fn steering_taken(q: QueuesView) -> (QueuesView, Option<Seq<char>>) {
    if q.steering.len() == 0 {
        (q, None)
    } else {
        (QueuesView { steering: q.steering.drop_first(), ..q }, Some(q.steering[0]))
    }
}

pub open spec fn input_taken(q: QueuesView) -> (QueuesView, Option<Seq<char>>) {
    if q.steering.len() > 0 {
        steering_taken(q)
    } else if q.follow_up.len() > 0 {
        (QueuesView { follow_up: q.follow_up.drop_first(), ..q }, Some(q.follow_up[0]))
    } else {
        (q, None)
    }
}

/// One more command, when the run was cancelled: input is dropped with the rest.
pub open spec fn dropped_in(s: (nat, Seq<CommandView>), command: CommandView) -> (nat, Seq<CommandView>) {
    match command {
        CommandView::UserInput(_) => (s.0 + 1, s.1),
        CommandView::Steer(_) => (s.0 + 1, s.1),
        CommandView::FollowUp(_) => (s.0 + 1, s.1),
        _ => (s.0, s.1.push(command)),
    }
}

pub open spec fn dropped_all(s: (nat, Seq<CommandView>), commands: Seq<CommandView>) -> (
    nat,
    Seq<CommandView>,
)
    decreases commands.len(),
{
    if commands.len() == 0 {
        s
    } else {
        dropped_in(dropped_all(s, commands.drop_last()), commands.last())
    }
}

/// The end of a run: how many inputs were dropped is said, if any were.
pub open spec fn closing_events(dropped: nat, cancelled: bool) -> Seq<AgentEventView> {
    let finished = AgentEventView::TurnFinished { cancelled };
    if dropped > 0 {
        seq![
            AgentEventView::Notice(
                "本轮结束,已丢弃 "@ + dec(dropped) + " 条未注入的排队输入"@,
            ),
            finished,
        ]
    } else {
        seq![finished]
    }
}

/// The end of a run. `waiting` are the commands that nobody has taken yet: a cancelled run drops
/// the input among them, another one leaves them alone (and is given none).
pub open spec fn run_ended(
    queues: QueuesView,
    waiting: Seq<CommandView>,
    cancelled: bool,
    deferred: Seq<CommandView>,
) -> (Seq<CommandView>, Seq<AgentEventView>) {
    let (dropped, after) = if cancelled {
        dropped_all((0, deferred), waiting)
    } else {
        (0, deferred)
    };
    (after, closing_events(queues.steering.len() + queues.follow_up.len() + dropped, cancelled))
}

pub fn finish_run(
    queues: RunQueues,
    waiting: Vec<AgentCommand>,
    cancelled: bool,
    deferred: &mut Vec<AgentCommand>,
    events: &mut Vec<AgentEvent>,
)
    ensures
        ({
            let (after, shown) = run_ended(
                queues.deep_view(),
                waiting.deep_view(),
                cancelled,
                old(deferred).deep_view(),
            );
            &&& final(deferred).deep_view() == after
            &&& final(events).deep_view() == old(events).deep_view() + shown
        }),
{
    let ghost before = events.deep_view();
    let ghost start: (nat, Seq<CommandView>) = (0, deferred.deep_view());
    let ghost all = waiting.deep_view();
    let count: usize = waiting.len();
    assert(all.len() == count);
    let mut dropped: u128 = 0;
    if cancelled {
        let mut rest = waiting;
        let ghost mut done: int = 0;
        assert(all.take(0) =~= seq![]);
        assert(all.skip(0) =~= all);
        while rest.len() > 0
            invariant
                0 <= done <= all.len(),
                rest.deep_view() == all.skip(done),
                rest.deep_view().len() == rest@.len(),
                dropped <= done,
                all.len() <= usize::MAX,
                (dropped as nat, deferred.deep_view()) == dropped_all(start, all.take(done)),
            decreases rest@.len(),
        {
            proof {
                take_next(all, done);
                assert(all.skip(done)[0] == all[done]);
                assert(all.skip(done).drop_first() =~= all.skip(done + 1));
            }
            let command = pull(&mut rest);
            match command {
                AgentCommand::UserInput(_) => {
                    dropped = dropped + 1;
                },
                AgentCommand::Steer(_) => {
                    dropped = dropped + 1;
                },
                AgentCommand::FollowUp(_) => {
                    dropped = dropped + 1;
                },
                other => {
                    put(deferred, other);
                },
            }
            proof {
                done = done + 1;
            }
        }
        proof {
            take_all(all);
        }
    }
    assert(queues.steering.deep_view().len() == queues.steering@.len());
    assert(queues.follow_up.deep_view().len() == queues.follow_up@.len());
    let total: u128 = queues.steering.len() as u128 + queues.follow_up.len() as u128 + dropped;
    if total > 0 {
        put(
            events,
            AgentEvent::Notice(
                concat3(
                    "本轮结束,已丢弃 ",
                    crate::text::decimal_wide(total).as_str(),
                    " 条未注入的排队输入",
                ),
            ),
        );
    }
    put(events, AgentEvent::TurnFinished { cancelled });
    proof {
        assert(events.deep_view() =~= before + closing_events(total as nat, cancelled));
    }
}

// ---- Laws ----

/// Sorting commands adds every input at the end of its queue and takes none out.
pub proof fn law_input_keeps_its_order(s: Sorted, commands: Seq<CommandView>)
    ensures
        s.queues.steering.is_prefix_of(sorted_all(s, commands).queues.steering),
        s.queues.follow_up.is_prefix_of(sorted_all(s, commands).queues.follow_up),
        s.deferred.is_prefix_of(sorted_all(s, commands).deferred),
    decreases commands.len(),
{
    if commands.len() > 0 {
        law_input_keeps_its_order(s, commands.drop_last());
    }
}

/// No command is lost: each is queued or deferred.
pub proof fn law_no_command_is_lost(s: Sorted, commands: Seq<CommandView>)
    ensures
        ({
            let after = sorted_all(s, commands);
            after.queues.steering.len() + after.queues.follow_up.len() + after.deferred.len()
                == s.queues.steering.len() + s.queues.follow_up.len() + s.deferred.len()
                + commands.len()
        }),
    decreases commands.len(),
{
    if commands.len() > 0 {
        law_no_command_is_lost(s, commands.drop_last());
    }
}

/// A request to leave stops the run and is carried out after it.
pub proof fn law_leaving_stops_the_run(s: Sorted, commands: Seq<CommandView>)
    ensures
        commands.contains(CommandView::Shutdown) ==> sorted_all(s, commands).cancel,
        commands.contains(CommandView::Shutdown) ==> sorted_all(s, commands).deferred.contains(
            CommandView::Shutdown,
        ),
    decreases commands.len(),
{
    if commands.len() > 0 {
        let before = sorted_all(s, commands.drop_last());
        let after = sorted_all(s, commands);
        law_leaving_stops_the_run(s, commands.drop_last());
        if commands.contains(CommandView::Shutdown) {
            if commands.last() == CommandView::Shutdown {
                assert(after.deferred.last() == CommandView::Shutdown);
            } else {
                let k = choose|k: int| 0 <= k < commands.len() && commands[k] == CommandView::Shutdown;
                assert(commands.drop_last()[k] == CommandView::Shutdown);
                let j = choose|j: int|
                    0 <= j < before.deferred.len() && before.deferred[j] == CommandView::Shutdown;
                assert(after.deferred[j] == CommandView::Shutdown);
            }
        }
    }
}

/// Steering goes before follow-ups, one input at a time, the oldest first.
pub proof fn law_one_input_at_a_time(q: QueuesView)
    ensures
        q.steering.len() > 0 ==> input_taken(q).1 == Some(q.steering[0]) && input_taken(q).0.follow_up
            == q.follow_up,
        input_taken(q).1 is Some ==> input_taken(q).0.steering.len() + input_taken(
            q,
        ).0.follow_up.len() == q.steering.len() + q.follow_up.len() - 1,
        input_taken(q).1 is None ==> q.steering.len() == 0 && q.follow_up.len() == 0,
{
}

/// A run ends with exactly one closing event, which is its last.
pub proof fn law_runs_end_once(queues: QueuesView, waiting: Seq<CommandView>, cancelled: bool, deferred: Seq<
    CommandView,
>)
    ensures
        ({
            let shown = run_ended(queues, waiting, cancelled, deferred).1;
            &&& shown.len() > 0
            &&& shown.last() == AgentEventView::TurnFinished { cancelled }
            &&& forall|i: int| 0 <= i < shown.len() - 1 ==> !((#[trigger] shown[i]) is TurnFinished)
        }),
{
}

} // verus!
