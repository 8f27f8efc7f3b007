//! The decisions of the driver: what a new task, a firing of the timer and a
//! line of the board do to its state, and what is to be done next. The loop
//! that waits, reads and writes belongs to the caller.

use std::time::Duration;
use vstd::prelude::*;
use crate::geometry::{views, CoordinatePair, Polyline};
use crate::protocol::{cue_of, read_cue, regex_group, trimmed, Cue, ACK_PATTERN};
use crate::queue::{block_view, PendingQueue};
use crate::sketch::{compile, frame, printable, Block, Sketch};
use crate::task::{all_printable, drawings, seconds, PrintTask, TaskView};

verus! {

/// The seconds between the acceptance of a repeating task and its first
/// firing.
pub const INITIAL_DELAY_SECS: u64 = 2;

/// The milliseconds that a read of the serial line may take.
pub const TIMEOUT_MS_SERIAL: u64 = 1000;

/// The milliseconds that the driver waits for a new task.
pub const TIMEOUT_MS_CHANNEL: u64 = 50;

/// What the intake channel gave within its timeout.
#[derive(Debug)]
pub enum Intake {
    /// A new task.
    Task(PrintTask),
    /// Nothing yet.
    Timeout,
    /// Every sender is gone.
    Disconnected,
}

/// What the caller is to do with its timer after an intake.
#[derive(Debug, Clone, Copy)]
pub enum Reaction {
    /// Nothing.
    Continue,
    /// Stop the timer that runs, if any.
    Cancel,
    /// Stop the timer that runs, if any, and start one that fires first
    /// after the delay and then once every period.
    Schedule(Duration, Duration),
    /// Leave the loop.
    Shutdown,
}

/// Whether the next block is sent on a cue.
#[derive(Debug, Clone, Copy, PartialEq, Eq, Structural)]
pub enum Verdict {
    /// No block is sent.
    Hold,
    /// The next block is sent.
    Send,
    /// The block counter starts again at 1, and the next block is sent.
    Resync,
}

/// Whether the reaction is the one that a new task calls for: a repeating
/// task with a drawing has its timer started, to fire first after the
/// initial delay and then once every interval; any other task only has the
/// timer before it stopped.
pub open spec fn answers(reaction: Reaction, task: TaskView) -> bool {
    match task {
        TaskView::Once(_) => reaction is Cancel,
        TaskView::Scheduled(interval, sets) => if sets.len() == 0 {
            reaction is Cancel
        } else {
            &&& reaction matches Reaction::Schedule(delay, period)
            &&& delay == seconds(INITIAL_DELAY_SECS)
            &&& period == interval
        },
    }
}

/// The blocks of a drawing that the driver queues: the board is erased
/// first.
pub open spec fn print_blocks(polylines: Seq<Seq<CoordinatePair>>) -> Seq<Seq<u8>> {
    frame(compile(polylines, true))
}

/// What a cue means to a driver whose last block had the given number.
pub open spec fn verdict_of(cue: Cue, current_block: u32) -> Verdict {
    match cue {
        Cue::Ready => Verdict::Send,
        Cue::Ack(number) => if number == 1 {
            Verdict::Send
        } else if number == current_block {
            Verdict::Send
        } else if number > current_block {
            Verdict::Resync
        } else {
            Verdict::Hold
        },
        Cue::Unreadable => Verdict::Hold,
        Cue::Other => Verdict::Hold,
    }
}

/// The block number after one more block, which starts again at 0 past the
/// largest.
pub open spec fn next_block(current_block: u32) -> u32 {
    if current_block == u32::MAX {
        0
    } else {
        (current_block + 1) as u32
    }
}

/// The repeating task of a driver, as plain values.
pub struct ScheduleState {
    pub interval: Duration,
    pub sets: Seq<Seq<Seq<CoordinatePair>>>,
}

/// The state of a driver, as plain values.
pub struct DriverState {
    /// The number of the last block sent, 0 before any.
    pub current_block: u32,
    /// The blocks that wait, the next one first.
    pub queue: Seq<Seq<u8>>,
    /// The repeating task, if one is active.
    pub schedule: Option<ScheduleState>,
    /// The firings of the repeating task so far.
    pub iteration: usize,
}

impl DriverState {
    /// A repeating task has a drawing, and each of its drawings fits in the
    /// blocks that can be numbered.
    pub open spec fn wf(self) -> bool {
        self.schedule matches Some(schedule) ==> schedule.sets.len() > 0 && all_printable(
            schedule.sets,
        )
    }

    /// The state of a driver that has done nothing yet.
    pub open spec fn initial() -> DriverState {
        DriverState { current_block: 0, queue: Seq::empty(), schedule: None, iteration: 0 }
    }

    /// The state after a new task: the repeating task before it is gone, a
    /// task for once is queued at once, a repeating one with a drawing
    /// becomes the active one.
    pub open spec fn accept(self, task: TaskView) -> DriverState {
        match task {
            TaskView::Once(polylines) => DriverState {
                queue: self.queue + print_blocks(polylines),
                schedule: None,
                iteration: 0,
                ..self
            },
            TaskView::Scheduled(interval, sets) => DriverState {
                schedule: if sets.len() == 0 {
                    None
                } else {
                    Some(ScheduleState { interval, sets })
                },
                iteration: 0,
                ..self
            },
        }
    }

    /// The drawing that the next firing prints.
    pub open spec fn due(self) -> Seq<Seq<CoordinatePair>>
        recommends
            self.schedule.is_some(),
    {
        let sets = self.schedule.unwrap().sets;
        sets[self.iteration as int % sets.len() as int]
    }

    /// The state after a firing of the timer: the drawing that is due is
    /// queued behind what waits. Without a repeating task nothing changes.
    pub open spec fn fire(self) -> DriverState {
        match self.schedule {
            None => self,
            Some(schedule) => DriverState {
                queue: self.queue + print_blocks(self.due()),
                iteration: if self.iteration == usize::MAX {
                    0
                } else {
                    (self.iteration + 1) as usize
                },
                ..self
            },
        }
    }

    /// Whether a cue lets the next block go. None goes from an empty queue.
    pub open spec fn verdict(self, cue: Cue) -> Verdict {
        if self.queue.len() == 0 {
            Verdict::Hold
        } else {
            verdict_of(cue, self.current_block)
        }
    }

    /// The block that is sent on a cue, if any: the first that waits.
    pub open spec fn sent(self, cue: Cue) -> Option<Seq<u8>> {
        if self.verdict(cue) == Verdict::Hold {
            None
        } else {
            Some(self.queue[0])
        }
    }

    /// The state after a cue.
    pub open spec fn on_cue(self, cue: Cue) -> DriverState {
        match self.verdict(cue) {
            Verdict::Hold => self,
            Verdict::Send => DriverState {
                current_block: next_block(self.current_block),
                queue: self.queue.skip(1),
                ..self
            },
            Verdict::Resync => DriverState {
                current_block: next_block(1),
                queue: self.queue.skip(1),
                ..self
            },
        }
    }
}

/// The repeating task of a driver.
struct Schedule {
    interval: Duration,
    polyline_sets: Vec<Vec<Polyline>>,
}

/// The driver's state: the block counter, the queue of blocks that wait for
/// the board, and the repeating task.
pub struct Driver {
    current_block: u32,
    queue: PendingQueue,
    schedule: Option<Schedule>,
    iteration: usize,
}

impl View for Driver {
    type V = DriverState;

    closed spec fn view(&self) -> DriverState {
        DriverState {
            current_block: self.current_block,
            queue: self.queue@,
            schedule: match self.schedule {
                Some(schedule) => Some(
                    ScheduleState {
                        interval: schedule.interval,
                        sets: drawings(schedule.polyline_sets@),
                    },
                ),
                None => None,
            },
            iteration: self.iteration,
        }
    }
}

/// Whether the next block is sent on a cue, for a driver with a block that
/// waits and whose last block had the given number.
pub fn decide(cue: Cue, current_block: u32) -> (verdict: Verdict)
    ensures
        verdict == verdict_of(cue, current_block),
{
    match cue {
        Cue::Ready => Verdict::Send,
        Cue::Ack(number) => {
            if number == 1 {
                // The board was reset in between. Simply continue printing.
                Verdict::Send
            } else if number == current_block {
                // The last block is acknowledged: the next one can go.
                Verdict::Send
            } else if number > current_block {
                // The board has printed blocks that this driver did not send.
                Verdict::Resync
            } else {
                Verdict::Hold
            }
        },
        Cue::Unreadable => Verdict::Hold,
        Cue::Other => Verdict::Hold,
    }
}

impl Driver {
    /// A driver that has sent no block and has no task.
    pub fn new() -> (driver: Self)
        ensures
            driver@ == DriverState::initial(),
            driver@.wf(),
    {
        Driver { current_block: 0, queue: PendingQueue::new(), schedule: None, iteration: 0 }
    }

    /// The number of the last block sent, 0 before any.
    pub fn current_block(&self) -> (number: u32)
        ensures
            number == self@.current_block,
    {
        self.current_block
    }

    /// The number of blocks that wait for the board.
    pub fn pending(&self) -> (len: usize)
        ensures
            len == self@.queue.len(),
    {
        self.queue.len()
    }

    /// Whether a repeating task is active.
    pub fn is_scheduled(&self) -> (active: bool)
        ensures
            active == self@.schedule.is_some(),
    {
        self.schedule.is_some()
    }

    /// Compiles a drawing with the erase sweep and queues its blocks.
    fn enqueue(&mut self, polylines: &[Polyline])
        requires
            printable(views(polylines@), true),
        ensures
            final(self).queue@ == old(self).queue@ + print_blocks(views(polylines@)),
            final(self).current_block == old(self).current_block,
            final(self).schedule == old(self).schedule,
            final(self).iteration == old(self).iteration,
    {
        let sketch = Sketch::new(polylines);
        let blocks = sketch.into_blocks(true);
        self.queue.append(blocks);
    }

    /// Takes a new task. The repeating task before it, if any, is given up;
    /// blocks that wait stay in the queue. A task for once is compiled and
    /// queued. A repeating task with at least one drawing becomes the active
    /// one, and its timer is to fire first after two seconds.
    pub fn accept(&mut self, task: PrintTask) -> (reaction: Reaction)
        requires
            old(self)@.wf(),
            task@.printable(),
        ensures
            final(self)@ == old(self)@.accept(task@),
            final(self)@.wf(),
            answers(reaction, task@),
    {
        self.schedule = None;
        self.iteration = 0;
        match task {
            PrintTask::Once(polylines) => {
                self.enqueue(polylines.as_slice());
                Reaction::Cancel
            },
            PrintTask::Scheduled(interval, polyline_sets) => {
                if polyline_sets.len() == 0 {
                    Reaction::Cancel
                } else {
                    self.schedule = Some(Schedule { interval, polyline_sets });
                    Reaction::Schedule(Duration::from_secs(INITIAL_DELAY_SECS), interval)
                }
            },
        }
    }

    /// A firing of the timer: the drawings of the repeating task take turns,
    /// and the one that is due is compiled and queued. A firing that comes
    /// when no repeating task is active changes nothing.
    pub fn fire(&mut self)
        requires
            old(self)@.wf(),
        ensures
            final(self)@ == old(self)@.fire(),
            final(self)@.wf(),
    {
        let schedule = self.schedule.take();
        match schedule {
            Some(active) => {
                let index: usize = self.iteration % active.polyline_sets.len();
                self.iteration = if self.iteration == usize::MAX {
                    0
                } else {
                    self.iteration + 1
                };
                self.enqueue(active.polyline_sets[index].as_slice());
                self.schedule = Some(active);
            },
            None => {},
        }
    }

    /// What a cue of the board does: where the verdict lets a block go, the
    /// first block that waits leaves the queue and is handed out to be sent,
    /// and the block counter goes up by one.
    pub fn on_cue(&mut self, cue: Cue) -> (block: Option<Block>)
        ensures
            final(self)@ == old(self)@.on_cue(cue),
            block_view(block) == old(self)@.sent(cue),
    {
        if self.queue.is_empty() {
            return None;
        }
        match decide(cue, self.current_block) {
            Verdict::Hold => None,
            Verdict::Send => {
                self.current_block = if self.current_block == u32::MAX {
                    0
                } else {
                    self.current_block + 1
                };
                self.queue.pop()
            },
            Verdict::Resync => {
                self.current_block = 2;
                self.queue.pop()
            },
        }
    }

    /// What a line of the board does. White space at the end of the line
    /// does not count. While no block waits, no line is read at all.
    pub fn on_line(&mut self, raw: &str) -> (block: Option<Block>)
        ensures
            final(self)@ == old(self)@.on_cue(
                cue_of(trimmed(raw@), regex_group(ACK_PATTERN@, trimmed(raw@))),
            ),
            block_view(block) == old(self)@.sent(
                cue_of(trimmed(raw@), regex_group(ACK_PATTERN@, trimmed(raw@))),
            ),
    {
        if self.queue.is_empty() {
            return None;
        }
        let cue = read_cue(raw);
        self.on_cue(cue)
    }

    /// What the intake does: a task is accepted, a timeout changes nothing,
    /// and the loop ends when every sender is gone.
    pub fn on_intake(&mut self, intake: Intake) -> (reaction: Reaction)
        requires
            old(self)@.wf(),
            intake matches Intake::Task(task) ==> task@.printable(),
        ensures
            final(self)@.wf(),
            match intake {
                Intake::Task(task) => final(self)@ == old(self)@.accept(task@) && answers(
                    reaction,
                    task@,
                ),
                Intake::Timeout => final(self)@ == old(self)@ && reaction is Continue,
                Intake::Disconnected => final(self)@ == old(self)@ && reaction is Shutdown,
            },
    {
        match intake {
            Intake::Task(task) => self.accept(task),
            Intake::Timeout => Reaction::Continue,
            Intake::Disconnected => Reaction::Shutdown,
        }
    }
}

/// The state after `count` firings of the timer in a row.
pub open spec fn fire_times(state: DriverState, count: nat) -> DriverState
    decreases count,
{
    if count == 0 {
        state
    } else {
        fire_times(state, (count - 1) as nat).fire()
    }
}

/// The blocks of the first `count` turns of a rotation over the drawings:
/// the first drawing, the second, and so on, and after the last the first
/// again.
pub open spec fn rotation(sets: Seq<Seq<Seq<CoordinatePair>>>, count: nat) -> Seq<Seq<u8>>
    decreases count,
{
    if count == 0 {
        Seq::empty()
    } else {
        rotation(sets, (count - 1) as nat) + print_blocks(sets[(count - 1) % sets.len() as int])
    }
}

/// The drawings of a repeating task take turns: the firings after its
/// acceptance queue the first drawing, the second, and so on, and after the
/// last the first again, behind what waited before. The task stays the
/// active one, and no block number changes.
pub proof fn lemma_round_robin(
    state: DriverState,
    interval: Duration,
    sets: Seq<Seq<Seq<CoordinatePair>>>,
    count: nat,
)
    requires
        sets.len() > 0,
        count <= usize::MAX,
    ensures
        fire_times(state.accept(TaskView::Scheduled(interval, sets)), count) == (DriverState {
            queue: state.queue + rotation(sets, count),
            schedule: Some(ScheduleState { interval, sets }),
            iteration: count as usize,
            current_block: state.current_block,
        }),
        fire_times(state.accept(TaskView::Scheduled(interval, sets)), count).due()
            == sets[count as int % sets.len() as int],
    decreases count,
{
    if count > 0 {
        let before = (count - 1) as nat;
        lemma_round_robin(state, interval, sets, before);
        assert((state.queue + rotation(sets, before)) + print_blocks(
            sets[before as int % sets.len() as int],
        ) =~= state.queue + rotation(sets, count));
    }
}

/// A task for once ends the repeating task: the firings that still come
/// change nothing, and the blocks that waited before go out before those of
/// the new task.
pub proof fn lemma_replaced_by_once(
    state: DriverState,
    polylines: Seq<Seq<CoordinatePair>>,
    count: nat,
)
    ensures
        state.accept(TaskView::Once(polylines)).schedule.is_none(),
        state.queue.is_prefix_of(state.accept(TaskView::Once(polylines)).queue),
        state.accept(TaskView::Once(polylines)).queue.skip(state.queue.len() as int)
            == print_blocks(polylines),
        fire_times(state.accept(TaskView::Once(polylines)), count) == state.accept(
            TaskView::Once(polylines),
        ),
    decreases count,
{
    if count > 0 {
        lemma_replaced_by_once(state, polylines, (count - 1) as nat);
    }
}

/// A new task of either kind leaves the blocks that wait where they are, and
/// at most the one repeating task that it brings is active after it.
pub proof fn lemma_accept_keeps_queue(state: DriverState, task: TaskView)
    ensures
        state.queue.is_prefix_of(state.accept(task).queue),
        state.accept(task).iteration == 0,
        state.accept(task).current_block == state.current_block,
        state.accept(task).schedule matches Some(schedule) ==> task matches TaskView::Scheduled(
            interval,
            sets,
        ) && schedule == (ScheduleState { interval, sets }),
{
}

/// On one cue at most one block goes out: the first that waits. The others
/// keep their order, and the block counter counts the block.
pub proof fn lemma_one_block_per_cue(state: DriverState, cue: Cue)
    ensures
        state.sent(cue) is Some ==> state.queue.len() > 0 && state.sent(cue) == Some(
            state.queue[0],
        ) && state.on_cue(cue).queue == state.queue.skip(1),
        state.sent(cue) is None ==> state.on_cue(cue) == state,
        state.on_cue(cue).schedule == state.schedule,
        state.on_cue(cue).iteration == state.iteration,
{
}

} // verus!
