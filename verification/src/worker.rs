//! One compute worker as a state machine.
//!
//! A worker walks its index range in increasing order. For each index it
//! asks its driver to do what it cannot do itself: to evaluate a point of
//! the plane, and to publish a result on the channel. The driver reports
//! back with an event, and the worker decides what comes next. A failed
//! publish ends the worker for good.

use vstd::prelude::*;
use crate::escape::{shade, spec_shade, Classification};
use crate::fault::FatalError;
use crate::geometry::{Coordinate, Dimensions};
use crate::partition::Job;
use crate::pixel::{Color, PixelResult};

verus! {

/// What the driver has to do next for a worker.
#[derive(Clone, Copy, Debug, PartialEq, Eq)]
pub enum WorkerAction {
    /// Evaluate the point of the plane that belongs to this coordinate.
    Evaluate(Coordinate),
    /// Publish this result on the channel.
    Publish(PixelResult),
    /// The range is exhausted; the worker is finished.
    Finish,
    /// Stop the whole run with this error.
    Abort(FatalError),
}

/// What the driver reports back to a worker.
#[derive(Clone, Copy, Debug, PartialEq, Eq)]
pub enum WorkerEvent {
    /// The point asked for was evaluated, with this outcome.
    Evaluated(Classification),
    /// The result asked for was handed to the channel; `true` if the
    /// channel took it, `false` if the consumer side is gone.
    Published(bool),
}

/// The coordinate of the pixel with linear index `index`.
pub open spec fn spec_locate(dims: Dimensions, index: nat) -> Coordinate {
    Coordinate { column: dims.column_of(index) as u32, row: dims.row_of(index) as u32 }
}

/// Whether the pixel with linear index `index` lies inside the image.
pub open spec fn spec_inside(dims: Dimensions, index: nat) -> bool {
    dims.spec_contains(dims.column_of(index), dims.row_of(index))
}

/// The result for the pixel with linear index `index` whose point was
/// classified as `class`. A pixel outside the image is background whatever
/// its point is.
pub open spec fn spec_result(dims: Dimensions, index: nat, class: Classification) -> PixelResult {
    let at = spec_locate(dims, index);
    PixelResult {
        column: at.column,
        row: at.row,
        color: if spec_inside(dims, index) {
            spec_shade(class)
        } else {
            Color::spec_white()
        },
    }
}

/// A worker as a mathematical value.
pub struct WorkerState {
    pub job: Job,
    /// The index the worker is at; everything below it is published.
    pub cursor: nat,
    /// The evaluated result for the index at the cursor, not yet published.
    pub pending: Option<PixelResult>,
    /// A publish has failed.
    pub failed: bool,
}

impl WorkerState {
    /// The state of a worker that has done nothing yet.
    pub open spec fn initial(job: Job) -> WorkerState {
        WorkerState { job, cursor: job.spec_start(), pending: None, failed: false }
    }

    /// The cursor lies in the range of the job, and a result is pending
    /// only for an index of the range.
    pub open spec fn wf(self) -> bool {
        &&& self.job.wf()
        &&& self.job.spec_start() <= self.cursor <= self.job.spec_stop()
        &&& self.pending.is_some() ==> self.cursor < self.job.spec_stop()
    }

    /// What the driver has to do in this state.
    pub open spec fn action(self) -> WorkerAction {
        if self.failed {
            WorkerAction::Abort(FatalError::ChannelClosed)
        } else if let Some(result) = self.pending {
            WorkerAction::Publish(result)
        } else if self.cursor >= self.job.spec_stop() {
            WorkerAction::Finish
        } else if spec_inside(self.job.spec_dims(), self.cursor) {
            WorkerAction::Evaluate(spec_locate(self.job.spec_dims(), self.cursor))
        } else {
            WorkerAction::Publish(
                spec_result(self.job.spec_dims(), self.cursor, Classification::Background),
            )
        }
    }

    /// The state after the driver has reported `event`. An event that does
    /// not answer the current action changes nothing.
    pub open spec fn advance(self, event: WorkerEvent) -> WorkerState {
        match (self.action(), event) {
            (WorkerAction::Evaluate(at), WorkerEvent::Evaluated(class)) => WorkerState {
                pending: Some(spec_result(self.job.spec_dims(), self.cursor, class)),
                ..self
            },
            (WorkerAction::Publish(_), WorkerEvent::Published(true)) => WorkerState {
                cursor: self.cursor + 1,
                pending: None,
                ..self
            },
            (WorkerAction::Publish(_), WorkerEvent::Published(false)) => WorkerState {
                failed: true,
                ..self
            },
            _ => self,
        }
    }
}

/// One compute worker.
#[derive(Debug)]
pub struct Worker {
    job: Job,
    cursor: u64,
    pending: Option<PixelResult>,
    failed: bool,
}

impl View for Worker {
    type V = WorkerState;

    closed spec fn view(&self) -> WorkerState {
        WorkerState {
            job: self.job,
            cursor: self.cursor as nat,
            pending: self.pending,
            failed: self.failed,
        }
    }
}

impl Worker {
    /// The state of the worker is well formed.
    #[verifier::type_invariant]
    pub open spec fn wf(self) -> bool {
        self@.wf()
    }

    /// A worker at the start of its range.
    pub fn new(job: Job) -> (worker: Worker)
        ensures
            worker.wf(),
            worker@ == WorkerState::initial(job),
    {
        proof {
            use_type_invariant(job);
        }
        Worker { job, cursor: job.start(), pending: None, failed: false }
    }

    /// What the driver has to do next.
    pub fn action(&self) -> (action: WorkerAction)
        ensures
            action == self@.action(),
    {
        proof {
            use_type_invariant(self.job);
        }
        if self.failed {
            return WorkerAction::Abort(FatalError::ChannelClosed);
        }
        if let Some(result) = self.pending {
            return WorkerAction::Publish(result);
        }
        if self.cursor >= self.job.stop() {
            return WorkerAction::Finish;
        }
        let dims: Dimensions = self.job.dims();
        let at: Coordinate = dims.locate(self.cursor);
        if dims.contains(at.column, at.row) {
            WorkerAction::Evaluate(at)
        } else {
            WorkerAction::Publish(
                PixelResult { column: at.column, row: at.row, color: Color::white() },
            )
        }
    }

    /// Takes the driver's report and says what it has to do next.
    pub fn advance(&mut self, event: WorkerEvent) -> (next: WorkerAction)
        ensures
            final(self)@ == old(self)@.advance(event),
            next == final(self)@.action(),
    {
        proof {
            use_type_invariant(&*self);
        }
        let current: WorkerAction = self.action();
        match (current, event) {
            (WorkerAction::Evaluate(at), WorkerEvent::Evaluated(class)) => {
                self.pending = Some(
                    PixelResult { column: at.column, row: at.row, color: shade(class) },
                );
            },
            (WorkerAction::Publish(_), WorkerEvent::Published(delivered)) => {
                if delivered {
                    *self = Worker {
                        job: self.job,
                        cursor: self.cursor + 1,
                        pending: None,
                        failed: false,
                    };
                } else {
                    self.failed = true;
                }
            },
            _ => {},
        }
        self.action()
    }
}

/// A worker that could not publish stays failed: every later event leaves
/// it as it is, and all it asks for is to stop the run.
pub proof fn lemma_failure_is_final(state: WorkerState, event: WorkerEvent)
    requires
        state.failed,
    ensures
        state.action() == WorkerAction::Abort(FatalError::ChannelClosed),
        state.advance(event) == state,
{
}

/// A worker produces one result for the index at its cursor and moves on by
/// exactly one index when the channel took it. Inside the image it first
/// asks for the point to be evaluated; outside, the result is background
/// and no evaluation is asked for. If the channel did not take the result,
/// the worker asks to stop the run.
pub proof fn lemma_one_result_per_index(state: WorkerState, class: Classification)
    requires
        state.wf(),
        !state.failed,
        state.pending.is_none(),
        state.cursor < state.job.spec_stop(),
    ensures
        ({
            let dims = state.job.spec_dims();
            let inside = spec_inside(dims, state.cursor);
            let ready = if inside {
                state.advance(WorkerEvent::Evaluated(class))
            } else {
                state
            };
            &&& inside ==> state.action() == WorkerAction::Evaluate(
                spec_locate(dims, state.cursor),
            )
            &&& ready.wf()
            &&& ready.action() == WorkerAction::Publish(spec_result(dims, state.cursor, class))
            &&& ready.advance(WorkerEvent::Published(true)) == WorkerState {
                cursor: state.cursor + 1,
                ..state
            }
            &&& ready.advance(WorkerEvent::Published(false)).action() == WorkerAction::Abort(
                FatalError::ChannelClosed,
            )
        }),
{
}

} // verus!
