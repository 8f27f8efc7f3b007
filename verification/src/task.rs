//! Print tasks: what a client hands to the driver.

use std::time::Duration;
use vstd::prelude::*;
use crate::geometry::{views, CoordinatePair, Polyline};
use crate::sketch::{printable, Sketch};

verus! {

/// The duration of a number of whole seconds: what `Duration::from_secs`
/// makes of it.
pub uninterp spec fn seconds(secs: u64) -> Duration;

/// `Duration::from_secs` makes the duration of that many whole seconds. The
/// result is a function of the number alone; the contract gives it its name
/// and claims nothing more.
pub assume_specification[ Duration::from_secs ](secs: u64) -> (duration: Duration)
    ensures
        duration == seconds(secs),
;

/// A drawing job.
#[derive(Debug)]
pub enum PrintTask {
    /// Schedule a print task once.
    Once(Vec<Polyline>),
    /// Schedule one or more print tasks every `Duration`.
    /// If multiple tasks are specified, then another one is printed for every
    /// iteration.
    Scheduled(Duration, Vec<Vec<Polyline>>),
}

/// A print task as plain values.
pub enum TaskView {
    Once(Seq<Seq<CoordinatePair>>),
    Scheduled(Duration, Seq<Seq<Seq<CoordinatePair>>>),
}

/// The drawings of a list of polyline sets.
pub open spec fn drawings(sets: Seq<Vec<Polyline>>) -> Seq<Seq<Seq<CoordinatePair>>> {
    sets.map_values(|set: Vec<Polyline>| views(set@))
}

/// Each of the drawings fits in the blocks that can be numbered, when the
/// board is erased first.
pub open spec fn all_printable(sets: Seq<Seq<Seq<CoordinatePair>>>) -> bool {
    forall|i: int| 0 <= i < sets.len() ==> printable(#[trigger] sets[i], true)
}

impl View for PrintTask {
    type V = TaskView;

    open spec fn view(&self) -> TaskView {
        match *self {
            PrintTask::Once(polylines) => TaskView::Once(views(polylines@)),
            PrintTask::Scheduled(interval, sets) => TaskView::Scheduled(interval, drawings(sets@)),
        }
    }
}

impl TaskView {
    /// Every drawing of the task fits in the blocks that can be numbered.
    pub open spec fn printable(self) -> bool {
        match self {
            TaskView::Once(polylines) => printable(polylines, true),
            TaskView::Scheduled(_, sets) => all_printable(sets),
        }
    }
}

/// Whether each of the drawings fits in the blocks that can be numbered.
fn all_fit(sets: &Vec<Vec<Polyline>>) -> (ok: bool)
    ensures
        ok == all_printable(drawings(sets@)),
{
    let mut i: usize = 0;
    while i < sets.len()
        invariant
            i <= sets.len(),
            forall|k: int| 0 <= k < i ==> printable(#[trigger] drawings(sets@)[k], true),
        decreases sets.len() - i,
    {
        assert(drawings(sets@)[i as int] == views(sets@[i as int]@));
        if !Sketch::new(sets[i].as_slice()).fits(true) {
            return false;
        }
        i += 1;
    }
    true
}

impl PrintTask {
    /// Whether every drawing of the task fits in the blocks that can be
    /// numbered. The driver takes no other task.
    pub fn is_printable(&self) -> (ok: bool)
        ensures
            ok == self@.printable(),
    {
        match self {
            PrintTask::Once(polylines) => Sketch::new(polylines.as_slice()).fits(true),
            PrintTask::Scheduled(_, sets) => all_fit(sets),
        }
    }
}

/// How often a drawing is to be printed.
#[derive(Debug, Clone, Copy, PartialEq, Eq, Structural)]
pub enum PrintMode {
    Once,
    Schedule5,
    Schedule15,
    Schedule30,
    Schedule60,
}

impl PrintMode {
    /// The minutes between two prints, for a mode that repeats.
    pub open spec fn minutes(self) -> Option<u64> {
        match self {
            PrintMode::Once => None,
            PrintMode::Schedule5 => Some(5),
            PrintMode::Schedule15 => Some(15),
            PrintMode::Schedule30 => Some(30),
            PrintMode::Schedule60 => Some(60),
        }
    }

    /// The task that prints the drawing in this mode: once, or again and
    /// again at the mode's interval.
    pub fn to_print_task(&self, polylines: Vec<Polyline>) -> (task: PrintTask)
        ensures
            match self.minutes() {
                None => task@ == TaskView::Once(views(polylines@)),
                Some(minutes) => {
                    &&& task@ matches TaskView::Scheduled(interval, sets)
                    &&& interval == seconds((minutes * 60) as u64)
                    &&& sets == seq![views(polylines@)]
                },
            },
    {
        match *self {
            PrintMode::Once => PrintTask::Once(polylines),
            PrintMode::Schedule5 => Self::every(5 * 60, polylines),
            PrintMode::Schedule15 => Self::every(15 * 60, polylines),
            PrintMode::Schedule30 => Self::every(30 * 60, polylines),
            PrintMode::Schedule60 => Self::every(60 * 60, polylines),
        }
    }

    fn every(secs: u64, polylines: Vec<Polyline>) -> (task: PrintTask)
        ensures
            task@ matches TaskView::Scheduled(interval, sets) && interval == seconds(secs) && sets
                == seq![views(polylines@)],
    {
        let sets: Vec<Vec<Polyline>> = vec![polylines];
        PrintTask::Scheduled(Duration::from_secs(secs), sets)
    }
}

} // verus!
