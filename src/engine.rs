//! The task lifecycle of one worker thread, as a state machine.
//!
//! The engine decides; the code around it does the outside work. Each call
//! of [`TaskEngine::step`] takes what happened (an [`Event`]) and returns what
//! to do next (an [`Action`]): ask the dispatcher for a task, receive a frame
//! of input, run the conversion, send frames to the sink, read output, sleep
//! or stop. The result of that work is the next event.
use crate::frames::{
    frames_view, header_frames, header_frames_of, output_frame, report_frames, report_frames_of, Frame,
    FrameModel,
};
use vstd::prelude::*;

verus! {

/// Seconds a worker pauses after a task whose input was empty or whose
/// conversion failed, before it asks for the next task.
pub const COOLDOWN_SECS: u64 = 60;

/// Seconds a worker waits after its last task before it stops, so that the
/// last delivery can flush.
pub const GRACE_SECS: u64 = 1;

/// Where a worker thread stands in its loop.
#[derive(Clone, Copy, Debug, PartialEq, Eq, Structural)]
pub enum Phase {
    /// Not started yet.
    Idle,
    /// A task was requested; the task id is awaited.
    AwaitingTaskId,
    /// A request for a task failed; pausing before asking again.
    Backoff,
    /// Frames of input are being received.
    ReceivingInput,
    /// The conversion capability is running on the input.
    Converting,
    /// The output is being read and sent in chunks.
    DeliveringOutput,
    /// The last frames of a task are being sent; `cooldown` tells whether a
    /// pause follows (after an empty input or a failed conversion).
    Finishing { cooldown: bool },
    /// Pausing after an empty input or a failed conversion.
    CoolingDown,
    /// The iteration limit was reached; waiting for the last delivery to flush.
    Closing,
    /// Done for good.
    Stopped,
}

/// What happened since the last step.
pub enum Event {
    /// The loop begins.
    Start,
    /// The id of the task the dispatcher handed out; `more` tells whether
    /// frames of input follow it.
    TaskId { id: String, more: bool },
    /// A frame of input was received and `written` bytes of it were staged;
    /// `more` tells whether further frames follow.
    InputFrame { written: usize, more: bool },
    /// The conversion ran, and succeeded or not.
    Converted(bool),
    /// Bytes read from the conversion output: at most the requested amount,
    /// fewer only at its end.
    OutputChunk(Vec<u8>),
    /// The frames of the last action were sent.
    Sent,
    /// The sleep of the last action is over.
    Slept,
    /// The transport failed: a request went unanswered, or a task could not
    /// be carried on.
    TransportFailed,
}

/// What to do next.
pub enum Action {
    /// Release the previous task's staging area, then send this service name
    /// to the dispatcher as a request and await the task id.
    RequestTask(String),
    /// Receive the next frame of input into the staging area.
    ReceiveInput,
    /// Rewind the staged input and run the conversion on it.
    Convert,
    /// Send these frames, then read up to this many bytes of output.
    Stream(Vec<Frame>, usize),
    /// Send these frames.
    Send(Vec<Frame>),
    /// Sleep this many seconds.
    Sleep(u64),
    /// Leave the loop.
    Stop,
}

/// What an event carries.
pub enum EventModel {
    Start,
    TaskId { id: Seq<char>, more: bool },
    InputFrame { written: usize, more: bool },
    Converted(bool),
    OutputChunk(Seq<u8>),
    Sent,
    Slept,
    TransportFailed,
}

/// What an action carries.
pub enum ActionModel {
    RequestTask(Seq<char>),
    ReceiveInput,
    Convert,
    Stream(Seq<FrameModel>, usize),
    Send(Seq<FrameModel>),
    Sleep(u64),
    Stop,
}

impl View for Event {
    type V = EventModel;

    open spec fn view(&self) -> EventModel {
        match self {
            Event::Start => EventModel::Start,
            Event::TaskId { id, more } => EventModel::TaskId { id: id@, more: *more },
            Event::InputFrame { written, more } => EventModel::InputFrame {
                written: *written,
                more: *more,
            },
            Event::Converted(ok) => EventModel::Converted(*ok),
            Event::OutputChunk(data) => EventModel::OutputChunk(data@),
            Event::Sent => EventModel::Sent,
            Event::Slept => EventModel::Slept,
            Event::TransportFailed => EventModel::TransportFailed,
        }
    }
}

impl View for Action {
    type V = ActionModel;

    open spec fn view(&self) -> ActionModel {
        match self {
            Action::RequestTask(service) => ActionModel::RequestTask(service@),
            Action::ReceiveInput => ActionModel::ReceiveInput,
            Action::Convert => ActionModel::Convert,
            Action::Stream(frames, n) => ActionModel::Stream(frames_view(frames@), *n),
            Action::Send(frames) => ActionModel::Send(frames_view(frames@)),
            Action::Sleep(secs) => ActionModel::Sleep(*secs),
            Action::Stop => ActionModel::Stop,
        }
    }
}

/// The state of a worker thread's loop.
pub struct EngineModel {
    pub service: Seq<char>,
    pub identity: Seq<char>,
    /// Bytes per output frame.
    pub message_size: usize,
    /// How many tasks to run before stopping; none runs forever.
    pub limit: Option<usize>,
    /// Tasks ended so far (counting stops at `usize::MAX`).
    pub completed: usize,
    pub phase: Phase,
    /// The id of the task in flight.
    pub task_id: Seq<char>,
    /// Bytes of input staged for the task in flight (counting stops at
    /// `usize::MAX`).
    pub received: usize,
}

impl EngineModel {
    /// Output can only be cut into chunks of at least one byte.
    pub open spec fn well_formed(self) -> bool {
        self.message_size > 0
    }
}

/// Whether a thread that has ended `completed` tasks has reached `limit`.
pub open spec fn limit_reached(limit: Option<usize>, completed: usize) -> bool {
    match limit {
        Some(k) => completed >= k,
        None => false,
    }
}

/// One more, stopping at `usize::MAX`.
pub open spec fn count_up(n: usize) -> usize {
    if n < usize::MAX {
        (n + 1) as usize
    } else {
        n
    }
}

/// Whether a task is in flight in this phase (a task that was asked for and
/// not yet handed out counts).
pub open spec fn in_task(phase: Phase) -> bool {
    match phase {
        Phase::Idle | Phase::Closing | Phase::Stopped => false,
        _ => true,
    }
}

/// The state a thread starts in.
pub open spec fn initial(
    service: Seq<char>,
    identity: Seq<char>,
    message_size: usize,
    limit: Option<usize>,
) -> EngineModel {
    EngineModel {
        service,
        identity,
        message_size,
        limit,
        completed: 0,
        phase: Phase::Idle,
        task_id: Seq::empty(),
        received: 0,
    }
}

/// The loop begins: it asks for a first task unless the limit allows none.
pub open spec fn begin(s: EngineModel) -> (EngineModel, ActionModel) {
    if limit_reached(s.limit, s.completed) {
        (EngineModel { phase: Phase::Stopped, ..s }, ActionModel::Stop)
    } else {
        (EngineModel { phase: Phase::AwaitingTaskId, ..s }, ActionModel::RequestTask(s.service))
    }
}

/// The task in flight ends (delivered, reported, or given up): it is counted,
/// its state is released, and the next task is requested unless the limit is
/// reached, in which case the thread waits for the last delivery to flush.
pub open spec fn end_task(s: EngineModel) -> (EngineModel, ActionModel) {
    let done = EngineModel {
        completed: count_up(s.completed),
        task_id: Seq::empty(),
        received: 0,
        ..s
    };
    if limit_reached(s.limit, done.completed) {
        (EngineModel { phase: Phase::Closing, ..done }, ActionModel::Sleep(GRACE_SECS))
    } else {
        (EngineModel { phase: Phase::AwaitingTaskId, ..done }, ActionModel::RequestTask(s.service))
    }
}

/// The dispatcher handed out a task. When no input frames follow the id, the
/// input is empty: it is reported at once, without conversion.
pub open spec fn on_task_id(s: EngineModel, id: Seq<char>, more: bool) -> (EngineModel, ActionModel) {
    if more {
        (
            EngineModel { phase: Phase::ReceivingInput, task_id: id, received: 0, ..s },
            ActionModel::ReceiveInput,
        )
    } else {
        (
            EngineModel { phase: Phase::Finishing { cooldown: true }, task_id: id, received: 0, ..s },
            ActionModel::Send(report_frames(s.identity, s.service, id)),
        )
    }
}

/// The task in flight cannot be carried on before anything of it reached the
/// sink (the transport failed, or an event came out of turn): its state is
/// dropped, it is reported like a failed conversion, and the thread pauses.
pub open spec fn abandon(s: EngineModel) -> (EngineModel, ActionModel) {
    (
        EngineModel { phase: Phase::Finishing { cooldown: true }, ..s },
        ActionModel::Send(report_frames(s.identity, s.service, s.task_id)),
    )
}

/// The task in flight cannot be carried on once part of its delivery went
/// out: its state is dropped, and after a pause the task ends.
pub open spec fn give_up(s: EngineModel) -> (EngineModel, ActionModel) {
    (EngineModel { phase: Phase::CoolingDown, ..s }, ActionModel::Sleep(COOLDOWN_SECS))
}

/// A frame of input arrived. After the last frame, an empty input is
/// reported without conversion; any other input is converted.
pub open spec fn on_input(s: EngineModel, written: usize, more: bool) -> (EngineModel, ActionModel) {
    let received = if s.received + written > usize::MAX {
        usize::MAX
    } else {
        (s.received + written) as usize
    };
    if more {
        (EngineModel { received, ..s }, ActionModel::ReceiveInput)
    } else if received == 0 {
        (
            EngineModel { received, phase: Phase::Finishing { cooldown: true }, ..s },
            ActionModel::Send(report_frames(s.identity, s.service, s.task_id)),
        )
    } else {
        (EngineModel { received, phase: Phase::Converting, ..s }, ActionModel::Convert)
    }
}

/// The conversion finished: a success opens the delivery and asks for the
/// first chunk of output; a failure is reported with an empty marker.
pub open spec fn on_converted(s: EngineModel, ok: bool) -> (EngineModel, ActionModel) {
    if ok {
        (
            EngineModel { phase: Phase::DeliveringOutput, ..s },
            ActionModel::Stream(header_frames(s.identity, s.service, s.task_id), s.message_size),
        )
    } else {
        (
            EngineModel { phase: Phase::Finishing { cooldown: true }, ..s },
            ActionModel::Send(report_frames(s.identity, s.service, s.task_id)),
        )
    }
}

/// A chunk of output was read: a full chunk is sent with more to follow and
/// the next one is read; a shorter one is sent as the final frame.
pub open spec fn on_output(s: EngineModel, chunk: Seq<u8>) -> (EngineModel, ActionModel) {
    let frame = output_frame(chunk, s.message_size as nat);
    if frame.more {
        (s, ActionModel::Stream(seq![frame], s.message_size))
    } else {
        (EngineModel { phase: Phase::Finishing { cooldown: false }, ..s }, ActionModel::Send(seq![frame]))
    }
}

/// One step of the loop. A request that is not answered with a task id is
/// not counted: the thread pauses, then asks again. Any other event that does
/// not fit the phase (a transport failure above all) gives up the task in
/// flight, with a report where nothing of it was sent yet.
pub open spec fn next(s: EngineModel, e: EventModel) -> (EngineModel, ActionModel) {
    match s.phase {
        Phase::Idle => begin(s),
        Phase::AwaitingTaskId => match e {
            EventModel::TaskId { id, more } => on_task_id(s, id, more),
            _ => (EngineModel { phase: Phase::Backoff, ..s }, ActionModel::Sleep(COOLDOWN_SECS)),
        },
        Phase::Backoff => (
            EngineModel { phase: Phase::AwaitingTaskId, ..s },
            ActionModel::RequestTask(s.service),
        ),
        Phase::ReceivingInput => match e {
            EventModel::InputFrame { written, more } => on_input(s, written, more),
            _ => abandon(s),
        },
        Phase::Converting => match e {
            EventModel::Converted(ok) => on_converted(s, ok),
            _ => abandon(s),
        },
        Phase::DeliveringOutput => match e {
            EventModel::OutputChunk(chunk) => on_output(s, chunk),
            _ => give_up(s),
        },
        Phase::Finishing { cooldown } => match e {
            EventModel::Sent => if cooldown {
                (EngineModel { phase: Phase::CoolingDown, ..s }, ActionModel::Sleep(COOLDOWN_SECS))
            } else {
                end_task(s)
            },
            _ => give_up(s),
        },
        Phase::CoolingDown => end_task(s),
        Phase::Closing => (EngineModel { phase: Phase::Stopped, ..s }, ActionModel::Stop),
        Phase::Stopped => (s, ActionModel::Stop),
    }
}

/// The loop of one worker thread.
pub struct TaskEngine {
    service: String,
    identity: String,
    message_size: usize,
    limit: Option<usize>,
    completed: usize,
    phase: Phase,
    task_id: String,
    received: usize,
}

impl View for TaskEngine {
    type V = EngineModel;

    closed spec fn view(&self) -> EngineModel {
        EngineModel {
            service: self.service@,
            identity: self.identity@,
            message_size: self.message_size,
            limit: self.limit,
            completed: self.completed,
            phase: self.phase,
            task_id: self.task_id@,
            received: self.received,
        }
    }
}

impl TaskEngine {
    /// A thread of `service` that presents itself as `identity`, sends output
    /// in frames of `message_size` bytes, and runs `limit` tasks (forever if
    /// none).
    pub fn new(service: String, identity: String, message_size: usize, limit: Option<usize>) -> (r:
        TaskEngine)
        requires
            message_size > 0,
        ensures
            r@ == initial(service@, identity@, message_size, limit),
            r@.well_formed(),
    {
        TaskEngine {
            service,
            identity,
            message_size,
            limit,
            completed: 0,
            phase: Phase::Idle,
            task_id: String::new(),
            received: 0,
        }
    }

    /// Where the loop stands.
    pub fn phase(&self) -> (r: Phase)
        ensures
            r == self@.phase,
    {
        self.phase
    }

    /// How many tasks have ended.
    pub fn completed(&self) -> (r: usize)
        ensures
            r == self@.completed,
    {
        self.completed
    }

    /// The identity this thread presents.
    pub fn identity(&self) -> (r: &String)
        ensures
            r@ == self@.identity,
    {
        &self.identity
    }

    fn end_task(&mut self) -> (r: Action)
        ensures
            (final(self)@, r@) == end_task(old(self)@),
    {
        if self.completed < usize::MAX {
            self.completed = self.completed + 1;
        }
        self.task_id = String::new();
        self.received = 0;
        let reached = match self.limit {
            Some(k) => self.completed >= k,
            None => false,
        };
        if reached {
            self.phase = Phase::Closing;
            Action::Sleep(GRACE_SECS)
        } else {
            self.phase = Phase::AwaitingTaskId;
            Action::RequestTask(self.service.clone())
        }
    }

    fn on_task_id(&mut self, id: String, more: bool) -> (r: Action)
        ensures
            (final(self)@, r@) == on_task_id(old(self)@, id@, more),
    {
        self.task_id = id;
        self.received = 0;
        if more {
            self.phase = Phase::ReceivingInput;
            Action::ReceiveInput
        } else {
            self.phase = Phase::Finishing { cooldown: true };
            Action::Send(report_frames_of(&self.identity, &self.service, &self.task_id))
        }
    }

    fn abandon(&mut self) -> (r: Action)
        ensures
            (final(self)@, r@) == abandon(old(self)@),
    {
        self.phase = Phase::Finishing { cooldown: true };
        Action::Send(report_frames_of(&self.identity, &self.service, &self.task_id))
    }

    fn give_up(&mut self) -> (r: Action)
        ensures
            (final(self)@, r@) == give_up(old(self)@),
    {
        self.phase = Phase::CoolingDown;
        Action::Sleep(COOLDOWN_SECS)
    }

    fn on_input(&mut self, written: usize, more: bool) -> (r: Action)
        ensures
            (final(self)@, r@) == on_input(old(self)@, written, more),
    {
        self.received = self.received.saturating_add(written);
        if more {
            Action::ReceiveInput
        } else if self.received == 0 {
            self.phase = Phase::Finishing { cooldown: true };
            Action::Send(report_frames_of(&self.identity, &self.service, &self.task_id))
        } else {
            self.phase = Phase::Converting;
            Action::Convert
        }
    }

    fn on_converted(&mut self, ok: bool) -> (r: Action)
        ensures
            (final(self)@, r@) == on_converted(old(self)@, ok),
    {
        if ok {
            self.phase = Phase::DeliveringOutput;
            Action::Stream(
                header_frames_of(&self.identity, &self.service, &self.task_id),
                self.message_size,
            )
        } else {
            self.phase = Phase::Finishing { cooldown: true };
            Action::Send(report_frames_of(&self.identity, &self.service, &self.task_id))
        }
    }

    fn on_output(&mut self, chunk: Vec<u8>) -> (r: Action)
        ensures
            (final(self)@, r@) == on_output(old(self)@, chunk@),
    {
        let more = chunk.len() >= self.message_size;
        let mut frames: Vec<Frame> = Vec::new();
        frames.push(Frame { data: chunk, more });
        assert(frames_view(frames@) =~= seq![output_frame(chunk@, self.message_size as nat)]);
        if more {
            Action::Stream(frames, self.message_size)
        } else {
            self.phase = Phase::Finishing { cooldown: false };
            Action::Send(frames)
        }
    }

    /// Takes what happened and says what to do next.
    pub fn step(&mut self, event: Event) -> (r: Action)
        requires
            old(self)@.well_formed(),
        ensures
            (final(self)@, r@) == next(old(self)@, event@),
            final(self)@.well_formed(),
    {
        match self.phase {
            Phase::Idle => {
                let reached = match self.limit {
                    Some(k) => self.completed >= k,
                    None => false,
                };
                if reached {
                    self.phase = Phase::Stopped;
                    Action::Stop
                } else {
                    self.phase = Phase::AwaitingTaskId;
                    Action::RequestTask(self.service.clone())
                }
            },
            Phase::AwaitingTaskId => match event {
                Event::TaskId { id, more } => self.on_task_id(id, more),
                _ => {
                    self.phase = Phase::Backoff;
                    Action::Sleep(COOLDOWN_SECS)
                },
            },
            Phase::Backoff => {
                self.phase = Phase::AwaitingTaskId;
                Action::RequestTask(self.service.clone())
            },
            Phase::ReceivingInput => match event {
                Event::InputFrame { written, more } => self.on_input(written, more),
                _ => self.abandon(),
            },
            Phase::Converting => match event {
                Event::Converted(ok) => self.on_converted(ok),
                _ => self.abandon(),
            },
            Phase::DeliveringOutput => match event {
                Event::OutputChunk(chunk) => self.on_output(chunk),
                _ => self.give_up(),
            },
            Phase::Finishing { cooldown } => match event {
                Event::Sent => if cooldown {
                    self.phase = Phase::CoolingDown;
                    Action::Sleep(COOLDOWN_SECS)
                } else {
                    self.end_task()
                },
                _ => self.give_up(),
            },
            Phase::CoolingDown => self.end_task(),
            Phase::Closing => {
                self.phase = Phase::Stopped;
                Action::Stop
            },
            Phase::Stopped => Action::Stop,
        }
    }
}

} // verus!
