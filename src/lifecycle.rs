//! What the task loop of [`crate::engine`] guarantees over one or many steps.
use crate::engine::{
    begin, count_up, end_task, in_task, initial, limit_reached, next, ActionModel, EngineModel,
    EventModel, Phase, COOLDOWN_SECS, GRACE_SECS,
};
use crate::frames::{chunks, header_frames, output_frames, report_frames};
use vstd::prelude::*;

verus! {

/// An input whose last frame arrives with nothing staged is reported to the
/// sink as one delivery: the three header frames and the empty marker. The
/// conversion is not run; the thread pauses, then ends the task.
pub proof fn lemma_empty_input_reported(s: EngineModel)
    requires
        s.phase == Phase::ReceivingInput,
        s.received == 0,
    ensures
        ({
            let (s1, a1) = next(s, EventModel::InputFrame { written: 0, more: false });
            let (s2, a2) = next(s1, EventModel::Sent);
            &&& a1 == ActionModel::Send(report_frames(s.identity, s.service, s.task_id))
            &&& s1.phase == Phase::Finishing { cooldown: true }
            &&& a2 == ActionModel::Sleep(COOLDOWN_SECS)
            &&& next(s2, EventModel::Slept) == end_task(s2)
        }),
{
}

/// A task id with no input frames after it is an empty input: it is reported
/// at once with the three header frames (carrying that id) and the empty
/// marker, no frame is awaited and the conversion is not run; the thread then
/// pauses.
pub proof fn lemma_task_without_input_reported(s: EngineModel, id: Seq<char>)
    requires
        s.phase == Phase::AwaitingTaskId,
    ensures
        ({
            let (s1, a1) = next(s, EventModel::TaskId { id, more: false });
            let (s2, a2) = next(s1, EventModel::Sent);
            &&& a1 == ActionModel::Send(report_frames(s.identity, s.service, id))
            &&& s1.phase == Phase::Finishing { cooldown: true }
            &&& s1.task_id == id
            &&& s1.received == 0
            &&& s1.completed == s.completed
            &&& a2 == ActionModel::Sleep(COOLDOWN_SECS)
            &&& next(s2, EventModel::Slept) == end_task(s2)
        }),
{
}

/// The conversion is asked for only after the last frame of an input that
/// staged at least one byte. Bytes are staged from zero for each task.
pub proof fn lemma_conversion_needs_input(s: EngineModel, e: EventModel)
    ensures
        next(s, e).1 == ActionModel::Convert ==> {
            &&& s.phase == Phase::ReceivingInput
            &&& e matches EventModel::InputFrame { written, more }
            &&& !more
            &&& next(s, e).0.received > 0
            &&& next(s, e).0.received == if s.received + written > usize::MAX {
                usize::MAX as int
            } else {
                s.received + written
            }
        },
        (s.phase == Phase::AwaitingTaskId && e is TaskId) ==> next(s, e).0.received == 0
            && next(s, e).1 != ActionModel::Convert,
{
}

/// A failed conversion is reported like an empty input, with the header
/// frames and the empty marker; after the pause the task ends, and unless the
/// limit is reached the thread asks for the next task with its state intact.
pub proof fn lemma_failure_isolation(s: EngineModel)
    requires
        s.phase == Phase::Converting,
    ensures
        ({
            let (s1, a1) = next(s, EventModel::Converted(false));
            let (s2, a2) = next(s1, EventModel::Sent);
            let (s3, a3) = next(s2, EventModel::Slept);
            &&& a1 == ActionModel::Send(report_frames(s.identity, s.service, s.task_id))
            &&& a2 == ActionModel::Sleep(COOLDOWN_SECS)
            &&& s3.completed == count_up(s.completed)
            &&& s3.service == s.service
            &&& s3.identity == s.identity
            &&& s3.message_size == s.message_size
            &&& s3.limit == s.limit
            &&& !limit_reached(s.limit, count_up(s.completed)) ==> {
                &&& a3 == ActionModel::RequestTask(s.service)
                &&& s3.phase == Phase::AwaitingTaskId
            }
        }),
{
}

/// A successful conversion opens the delivery with the three header frames.
/// Then, for output read in chunks of `message_size`, every full chunk goes
/// out as a frame with more to follow and the thread reads on, and the last,
/// shorter chunk goes out as the final frame: the sink receives the header
/// frames followed by exactly `output_frames(payload, message_size)`.
pub proof fn lemma_output_streamed(s: EngineModel, payload: Seq<u8>)
    requires
        s.phase == Phase::Converting,
        s.well_formed(),
    ensures
        ({
            let (s1, a1) = next(s, EventModel::Converted(true));
            let m = s.message_size;
            let frames = output_frames(payload, m as nat);
            let parts = chunks(payload, m as nat);
            &&& a1 == ActionModel::Stream(header_frames(s.identity, s.service, s.task_id), m)
            &&& s1.phase == Phase::DeliveringOutput
            &&& forall|k: int|
                0 <= k < frames.len() - 1 ==> #[trigger] next(s1, EventModel::OutputChunk(parts[k]))
                    == (s1, ActionModel::Stream(seq![frames[k]], m))
            &&& next(s1, EventModel::OutputChunk(parts.last())).1 == ActionModel::Send(
                seq![frames.last()],
            )
            &&& next(s1, EventModel::OutputChunk(parts.last())).0.phase == Phase::Finishing {
                cooldown: false,
            }
        }),
{
    let m = s.message_size;
    let (s1, a1) = next(s, EventModel::Converted(true));
    let frames = output_frames(payload, m as nat);
    let parts = chunks(payload, m as nat);
    crate::frames::lemma_output_frames_round_trip(payload, m as nat);
    assert forall|k: int| 0 <= k < frames.len() - 1 implies #[trigger] next(
        s1,
        EventModel::OutputChunk(parts[k]),
    ) == (s1, ActionModel::Stream(seq![frames[k]], m)) by {
        assert(frames[k].data == parts[k]);
    }
    assert(frames.last().data == parts.last());
}

/// Tasks asked for so far: those ended, and the one in flight (asked for or
/// handed out).
pub open spec fn started(s: EngineModel) -> int {
    s.completed + if in_task(s.phase) {
        1int
    } else {
        0int
    }
}

/// A thread whose limit is `k` has started at most `k` tasks, and has begun
/// to close only once `k` have ended.
pub open spec fn within_limit(s: EngineModel, k: usize) -> bool {
    &&& s.limit == Some(k)
    &&& started(s) <= k
    &&& (s.phase == Phase::Closing || s.phase == Phase::Stopped) ==> s.completed >= k
}

/// The state and the actions after a run of events.
pub open spec fn run(s: EngineModel, events: Seq<EventModel>) -> (EngineModel, Seq<ActionModel>)
    decreases events.len(),
{
    if events.len() == 0 {
        (s, Seq::empty())
    } else {
        let (s1, a) = next(s, events[0]);
        let (s2, rest) = run(s1, events.drop_first());
        (s2, seq![a] + rest)
    }
}

/// How many of these actions ask for a task.
pub open spec fn requests(actions: Seq<ActionModel>) -> nat
    decreases actions.len(),
{
    if actions.len() == 0 {
        0
    } else {
        (if actions[0] is RequestTask {
            1nat
        } else {
            0nat
        }) + requests(actions.drop_first())
    }
}

/// How many of these actions send the last frames of a delivery.
pub open spec fn deliveries(actions: Seq<ActionModel>) -> nat
    decreases actions.len(),
{
    if actions.len() == 0 {
        0
    } else {
        (if actions[0] is Send {
            1nat
        } else {
            0nat
        }) + deliveries(actions.drop_first())
    }
}

/// How many times a run asks for a new task (asking again after a request
/// that went unanswered does not count).
pub open spec fn new_requests(s: EngineModel, events: Seq<EventModel>) -> nat
    decreases events.len(),
{
    if events.len() == 0 {
        0
    } else {
        (if next(s, events[0]).1 is RequestTask && s.phase != Phase::Backoff {
            1nat
        } else {
            0nat
        }) + new_requests(next(s, events[0]).0, events.drop_first())
    }
}

/// One step under an iteration limit `k`: a new task is asked for only while
/// fewer than `k` were started; a request that goes unanswered is not
/// counted, and the thread pauses before asking again; a task that ends is
/// counted once; when the `k`-th task ends the thread waits for the grace
/// period and then stops; it stops only once the limit is reached.
pub proof fn lemma_iteration_limit_step(s: EngineModel, e: EventModel, k: usize)
    requires
        within_limit(s, k),
    ensures
        ({
            let (s1, a) = next(s, e);
            &&& within_limit(s1, k)
            &&& a is RequestTask && s.phase != Phase::Backoff ==> started(s1) == started(s) + 1
            &&& !(a is RequestTask && s.phase != Phase::Backoff) ==> started(s1) == started(s)
            &&& a is Stop ==> s.completed >= k
            &&& s.phase == Phase::AwaitingTaskId && !(e is TaskId) ==> {
                &&& a == ActionModel::Sleep(COOLDOWN_SECS)
                &&& s1.phase == Phase::Backoff
                &&& s1.completed == s.completed
            }
            &&& s.phase == Phase::Backoff ==> a == ActionModel::RequestTask(s.service)
                && s1.completed == s.completed
            &&& in_task(s.phase) && s1.completed != s.completed ==> {
                &&& s1.completed == s.completed + 1
                &&& s1.completed < k ==> a == ActionModel::RequestTask(s.service)
                &&& s1.completed == k ==> a == ActionModel::Sleep(GRACE_SECS) && s1.phase
                    == Phase::Closing
            }
            &&& s.phase == Phase::Closing ==> a is Stop && s1.phase == Phase::Stopped
            &&& s.phase == Phase::Stopped ==> a is Stop && s1 == s
        }),
{
    let (s1, a) = next(s, e);
    if in_task(s.phase) {
        assert(s.completed < usize::MAX);
        let (d, b) = end_task(s);
        assert(d.completed == s.completed + 1);
    }
    if s.phase == Phase::Idle {
        let (d, b) = begin(s);
        assert(d.completed == s.completed);
    }
}

/// Over any run of events, a thread with iteration limit `k` asks for at
/// most `k` new tasks in all: each new request starts a task, and no task
/// starts once `k` have.
pub proof fn lemma_iteration_limit(s: EngineModel, events: Seq<EventModel>, k: usize)
    requires
        within_limit(s, k),
    ensures
        within_limit(run(s, events).0, k),
        started(s) + new_requests(s, events) == started(run(s, events).0),
        started(s) + new_requests(s, events) <= k,
    decreases events.len(),
{
    if events.len() > 0 {
        let (s1, a) = next(s, events[0]);
        lemma_iteration_limit_step(s, events[0], k);
        lemma_iteration_limit(s1, events.drop_first(), k);
    }
}

/// The event that answers the action of a phase when the dispatcher, the
/// sink and the conversion all respond: the loop's start, a task id, a frame
/// of input, the conversion's result, a chunk of output, the frames sent, the
/// sleep over.
pub open spec fn expected(phase: Phase, e: EventModel) -> bool {
    match phase {
        Phase::Idle => e is Start,
        Phase::AwaitingTaskId => e is TaskId,
        Phase::ReceivingInput => e is InputFrame,
        Phase::Converting => e is Converted,
        Phase::DeliveringOutput => e is OutputChunk,
        Phase::Finishing { .. } => e is Sent,
        Phase::CoolingDown | Phase::Backoff | Phase::Closing => e is Slept,
        Phase::Stopped => true,
    }
}

/// Every event of the run answers the action before it.
pub open spec fn cooperative(s: EngineModel, events: Seq<EventModel>) -> bool
    decreases events.len(),
{
    events.len() == 0 || (expected(s.phase, events[0]) && cooperative(
        next(s, events[0]).0,
        events.drop_first(),
    ))
}

/// Deliveries made so far: one per task ended, and one for the task in
/// flight once its last frames went out.
pub open spec fn delivered(s: EngineModel) -> int {
    s.completed + if s.phase is Finishing || s.phase == Phase::CoolingDown {
        1int
    } else {
        0int
    }
}

proof fn lemma_cooperative_step(s: EngineModel, e: EventModel, k: usize)
    requires
        within_limit(s, k),
        s.phase != Phase::Backoff,
        expected(s.phase, e),
    ensures
        ({
            let (s1, a) = next(s, e);
            &&& within_limit(s1, k)
            &&& s1.phase != Phase::Backoff
            &&& started(s1) == started(s) + if a is RequestTask {
                1int
            } else {
                0int
            }
            &&& delivered(s1) == delivered(s) + if a is Send {
                1int
            } else {
                0int
            }
        }),
{
    lemma_iteration_limit_step(s, e, k);
}

proof fn lemma_cooperative_run(s: EngineModel, events: Seq<EventModel>, k: usize)
    requires
        within_limit(s, k),
        s.phase != Phase::Backoff,
        cooperative(s, events),
    ensures
        within_limit(run(s, events).0, k),
        run(s, events).0.phase != Phase::Backoff,
        started(s) + requests(run(s, events).1) == started(run(s, events).0),
        delivered(s) + deliveries(run(s, events).1) == delivered(run(s, events).0),
    decreases events.len(),
{
    if events.len() > 0 {
        let (s1, a) = next(s, events[0]);
        lemma_cooperative_step(s, events[0], k);
        lemma_cooperative_run(s1, events.drop_first(), k);
        let rest = run(s1, events.drop_first()).1;
        let acts = seq![a] + rest;
        assert(acts[0] == a);
        assert(acts.drop_first() =~= rest);
    }
}

/// A thread started with an iteration limit `k`, whose dispatcher always
/// hands out a task and whose sink and conversion always respond, runs
/// exactly `k` task lifecycles and then exits: over any such run that ends
/// with the thread stopped, it asked for exactly `k` tasks, made exactly `k`
/// deliveries (each ended by a final frame), and ended exactly `k` tasks.
pub proof fn lemma_exactly_limit_tasks(
    service: Seq<char>,
    identity: Seq<char>,
    message_size: usize,
    k: usize,
    events: Seq<EventModel>,
)
    requires
        cooperative(initial(service, identity, message_size, Some(k)), events),
        run(initial(service, identity, message_size, Some(k)), events).0.phase == Phase::Stopped,
    ensures
        ({
            let (last, actions) = run(initial(service, identity, message_size, Some(k)), events);
            &&& requests(actions) == k
            &&& deliveries(actions) == k
            &&& last.completed == k
        }),
{
    lemma_cooperative_run(initial(service, identity, message_size, Some(k)), events, k);
}

proof fn lemma_failing_step(s: EngineModel, e: EventModel)
    requires
        s.phase != Phase::DeliveringOutput,
        s.phase != (Phase::Finishing { cooldown: false }),
        e != EventModel::Converted(true),
    ensures
        ({
            let (s1, a) = next(s, e);
            &&& s1.phase != Phase::DeliveringOutput
            &&& s1.phase != Phase::Finishing { cooldown: false }
            &&& s1.phase != Phase::Idle
            &&& s1.identity == s.identity
            &&& s1.service == s.service
            &&& !(a is Stream)
            &&& a is Send ==> a == ActionModel::Send(report_frames(s.identity, s.service, s1.task_id))
            &&& (s1.phase == Phase::CoolingDown || s1.phase == Phase::Backoff) ==> a
                == ActionModel::Sleep(COOLDOWN_SECS)
            &&& a is RequestTask ==> s.phase == Phase::Idle || s.phase == Phase::CoolingDown
                || s.phase == Phase::Backoff
        }),
{
}

/// With a conversion that always fails, any run reports every task as the
/// three header frames and the empty marker, and never streams output; every
/// request after the first comes right after a cooldown pause, so the worker
/// keeps asking for tasks, pausing after each failure.
pub proof fn lemma_failing_run(s: EngineModel, prev: ActionModel, events: Seq<EventModel>)
    requires
        s.phase != Phase::DeliveringOutput,
        s.phase != (Phase::Finishing { cooldown: false }),
        (s.phase == Phase::CoolingDown || s.phase == Phase::Backoff) ==> prev == ActionModel::Sleep(
            COOLDOWN_SECS,
        ),
        forall|i: int| 0 <= i < events.len() ==> events[i] != EventModel::Converted(true),
    ensures
        (forall|i: int|
            0 <= i < run(s, events).1.len() ==> !(#[trigger] run(s, events).1[i] is Stream)),
        (forall|i: int|
            0 <= i < run(s, events).1.len() && #[trigger] run(s, events).1[i] is Send ==> (exists|
                t: Seq<char>,
            |
                run(s, events).1[i] == ActionModel::Send(
                    #[trigger] report_frames(s.identity, s.service, t),
                ))),
        (forall|i: int|
            0 <= i < run(s, events).1.len() && #[trigger] run(s, events).1[i] is RequestTask ==> ((i
                == 0 && s.phase == Phase::Idle) || (if i == 0 {
                prev
            } else {
                run(s, events).1[i - 1]
            }) == ActionModel::Sleep(COOLDOWN_SECS))),
    decreases events.len(),
{
    if events.len() > 0 {
        let (s1, a) = next(s, events[0]);
        lemma_failing_step(s, events[0]);
        assert forall|i: int| 0 <= i < events.drop_first().len() implies events.drop_first()[i]
            != EventModel::Converted(true) by {
            assert(events.drop_first()[i] == events[i + 1]);
        }
        lemma_failing_run(s1, a, events.drop_first());
        let rest = run(s1, events.drop_first()).1;
        let acts = run(s, events).1;
        assert(acts =~= seq![a] + rest);
        assert forall|i: int| 0 <= i < acts.len() implies !(#[trigger] acts[i] is Stream) by {
            if i > 0 {
                assert(acts[i] == rest[i - 1]);
            }
        }
        assert forall|i: int| 0 <= i < acts.len() && #[trigger] acts[i] is Send implies exists|
            t: Seq<char>,
        | acts[i] == ActionModel::Send(#[trigger] report_frames(s.identity, s.service, t)) by {
            if i > 0 {
                assert(acts[i] == rest[i - 1]);
            } else {
                assert(acts[i] == ActionModel::Send(report_frames(s.identity, s.service, s1.task_id)));
            }
        }
        assert forall|i: int| 0 <= i < acts.len() && #[trigger] acts[i] is RequestTask implies (i
            == 0 && s.phase == Phase::Idle) || (if i == 0 {
            prev
        } else {
            acts[i - 1]
        }) == ActionModel::Sleep(COOLDOWN_SECS) by {
            if i > 0 {
                assert(acts[i] == rest[i - 1]);
                if i > 1 {
                    assert(acts[i - 1] == rest[i - 2]);
                }
            }
        }
    }
}

} // verus!
