//! The consumer: it receives pixel results in any order, writes them into
//! the output buffer and is done when it has received as many results as
//! the image has pixels.

use vstd::prelude::*;
use crate::buffer::{blank_grid, grid_put, lemma_position_in_grid, OutputBuffer};
use crate::fault::FatalError;
use crate::geometry::Dimensions;
use crate::pixel::{Color, PixelResult};
use crate::progress::{is_milestone, ProgressReport};

verus! {

/// The two states of the consumer.
#[derive(Clone, Copy, Debug, PartialEq, Eq, Structural)]
pub enum Phase {
    /// Fewer results than pixels have arrived.
    Receiving,
    /// Every result has arrived. The state is terminal.
    Done,
}

/// The consumer as a mathematical value: the grid written so far and the
/// number of results counted.
pub struct AssemblyState {
    pub dims: Dimensions,
    pub grid: Seq<Color>,
    pub received: nat,
}

impl AssemblyState {
    /// The state before the first result: a black grid, nothing received.
    pub open spec fn initial(dims: Dimensions) -> AssemblyState {
        AssemblyState { dims, grid: blank_grid(dims.spec_pixel_count()), received: 0 }
    }

    /// Number of results that make the image complete.
    pub open spec fn total(self) -> nat {
        self.dims.spec_pixel_count()
    }

    /// The grid has one colour per pixel, and no more results are counted
    /// than the image has pixels.
    pub open spec fn wf(self) -> bool {
        &&& self.dims.wf()
        &&& self.grid.len() == self.total()
        &&& self.received <= self.total()
    }

    /// Done when as many results are counted as the image has pixels.
    pub open spec fn phase(self) -> Phase {
        if self.received >= self.total() {
            Phase::Done
        } else {
            Phase::Receiving
        }
    }

    /// The state after `result` has arrived. While receiving, the result is
    /// counted, and written if its coordinate lies inside the image; once
    /// done, nothing changes any more.
    pub open spec fn accept(self, result: PixelResult) -> AssemblyState {
        if self.phase() == Phase::Done {
            self
        } else {
            AssemblyState {
                dims: self.dims,
                grid: grid_put(
                    self.dims,
                    self.grid,
                    result.column as nat,
                    result.row as nat,
                    result.color,
                ),
                received: self.received + 1,
            }
        }
    }

    /// The state after the results of `results` have arrived in order.
    pub open spec fn accept_all(self, results: Seq<PixelResult>) -> AssemblyState
        decreases results.len(),
    {
        if results.len() == 0 {
            self
        } else {
            self.accept_all(results.drop_last()).accept(results.last())
        }
    }
}

/// What the consumer did with one result.
#[derive(Clone, Copy, Debug, PartialEq, Eq)]
pub struct Receipt {
    /// The result was counted: the consumer was still receiving.
    pub counted: bool,
    /// The colour was written into the buffer.
    pub stored: bool,
    /// The progress notification that became due with this result.
    pub progress: Option<ProgressReport>,
    /// The state of the consumer after the result.
    pub phase: Phase,
}

/// The single consumer of pixel results.
#[derive(Debug)]
pub struct ImageAssembler {
    buffer: OutputBuffer,
    received: u64,
}

impl View for ImageAssembler {
    type V = AssemblyState;

    closed spec fn view(&self) -> AssemblyState {
        AssemblyState {
            dims: self.buffer.spec_dims(),
            grid: self.buffer@,
            received: self.received as nat,
        }
    }
}

impl ImageAssembler {
    /// The buffer that the results are written into.
    pub closed spec fn spec_buffer(self) -> OutputBuffer {
        self.buffer
    }

    /// The buffer is well formed and is the grid of the view, and the count
    /// does not pass the number of pixels.
    pub open spec fn wf(self) -> bool {
        &&& self.spec_buffer().wf()
        &&& self.spec_buffer().spec_dims() == self@.dims
        &&& self.spec_buffer()@ == self@.grid
        &&& self@.wf()
    }

    /// A consumer for an image of the given dimensions, with a black buffer
    /// and nothing received; `None` exactly when no buffer of these
    /// dimensions can be allocated.
    pub fn new(dims: Dimensions) -> (r: Option<ImageAssembler>)
        ensures
            r.is_some() <==> OutputBuffer::allocatable(dims),
            r matches Some(assembler) ==> assembler.wf() && assembler@ == AssemblyState::initial(
                dims,
            ),
    {
        match OutputBuffer::new(dims) {
            Some(buffer) => Some(ImageAssembler { buffer, received: 0 }),
            None => None,
        }
    }

    /// Number of results counted so far.
    pub fn received(&self) -> (n: u64)
        requires
            self.wf(),
        ensures
            n == self@.received,
    {
        self.received
    }

    /// Number of results that make the image complete.
    pub fn total(&self) -> (n: u64)
        requires
            self.wf(),
        ensures
            n == self@.total(),
            n > 0,
    {
        self.buffer.dims().pixel_count()
    }

    /// The state of the consumer.
    pub fn phase(&self) -> (p: Phase)
        requires
            self.wf(),
        ensures
            p == self@.phase(),
    {
        if self.received >= self.buffer.dims().pixel_count() {
            Phase::Done
        } else {
            Phase::Receiving
        }
    }

    /// Takes one result from the channel.
    ///
    /// While receiving, the result is counted; its colour is written first,
    /// if its coordinate lies inside the image, and only then is the count
    /// compared with the number of pixels, so the result that completes the
    /// image is in the buffer too. A result outside the image is counted and
    /// leaves the buffer as it is. Once done, a result changes nothing.
    pub fn receive(&mut self, result: PixelResult) -> (receipt: Receipt)
        requires
            old(self).wf(),
        ensures
            final(self).wf(),
            final(self)@ == old(self)@.accept(result),
            receipt.counted == (old(self)@.phase() == Phase::Receiving),
            receipt.stored == (receipt.counted && old(self)@.dims.spec_contains(
                result.column as nat,
                result.row as nat,
            )),
            !receipt.stored ==> final(self)@.grid == old(self)@.grid,
            receipt.phase == final(self)@.phase(),
            receipt.progress.is_some() <==> (receipt.counted && is_milestone(
                final(self)@.received,
                final(self)@.total(),
            )),
            receipt.progress matches Some(report) ==> {
                &&& report.spec_received() == final(self)@.received
                &&& report.spec_total() == final(self)@.total()
            },
    {
        let total: u64 = self.buffer.dims().pixel_count();
        if self.received >= total {
            return Receipt { counted: false, stored: false, progress: None, phase: Phase::Done };
        }
        let stored: bool = self.buffer.put(result.column, result.row, result.color);
        self.received = self.received + 1;
        let progress: Option<ProgressReport> = ProgressReport::due(self.received, total);
        let phase: Phase = if self.received >= total {
            Phase::Done
        } else {
            Phase::Receiving
        };
        Receipt { counted: true, stored, progress, phase }
    }

    /// What the end of the channel means for the consumer: while it is still
    /// receiving, the results that are missing will never come and the run
    /// has failed; once it is done, nothing is wrong.
    pub fn on_channel_closed(&self) -> (r: Result<(), FatalError>)
        requires
            self.wf(),
        ensures
            r == if self@.phase() == Phase::Done {
                Ok::<(), FatalError>(())
            } else {
                Err::<(), FatalError>(FatalError::ChannelClosed)
            },
    {
        if self.received >= self.buffer.dims().pixel_count() {
            Ok(())
        } else {
            Err(FatalError::ChannelClosed)
        }
    }

    /// Hands the completed buffer out. Before the consumer is done there is
    /// no result: it gets itself back, unchanged.
    pub fn finish(self) -> (r: Result<OutputBuffer, ImageAssembler>)
        requires
            self.wf(),
        ensures
            r.is_ok() <==> self@.phase() == Phase::Done,
            r matches Ok(buffer) ==> {
                &&& buffer.wf()
                &&& buffer.spec_dims() == self@.dims
                &&& buffer@ == self@.grid
            },
            r matches Err(assembler) ==> assembler == self,
    {
        if self.received >= self.buffer.dims().pixel_count() {
            Ok(self.buffer)
        } else {
            Err(self)
        }
    }
}

/// Receiving keeps a state well formed and its dimensions fixed, and counts
/// every result until the number of pixels is reached, never beyond.
pub proof fn lemma_accept_all_counts(start: AssemblyState, results: Seq<PixelResult>)
    requires
        start.wf(),
    ensures
        start.accept_all(results).wf(),
        start.accept_all(results).dims == start.dims,
        start.accept_all(results).received == if start.received + results.len()
            <= start.total() {
            start.received + results.len()
        } else {
            start.total()
        },
    decreases results.len(),
{
    if results.len() > 0 {
        lemma_accept_all_counts(start, results.drop_last());
        let before = start.accept_all(results.drop_last());
        let result = results.last();
        if before.dims.spec_contains(result.column as nat, result.row as nat) {
            lemma_position_in_grid(before.dims, result.column as nat, result.row as nat);
        }
    }
}

/// Extending the stream by one result is one more step of the consumer.
pub proof fn lemma_accept_all_step(start: AssemblyState, results: Seq<PixelResult>, k: int)
    requires
        0 <= k < results.len(),
    ensures
        start.accept_all(results.take(k + 1)) == start.accept_all(results.take(k)).accept(
            results[k],
        ),
{
    assert(results.take(k + 1).drop_last() =~= results.take(k));
}

/// For a workload of as many results as the image has pixels: the consumer
/// counts exactly the results that arrive, up to that number, and is done if
/// and only if that many have arrived. With fewer it is still receiving.
pub proof fn lemma_done_exactly_at_total(dims: Dimensions, results: Seq<PixelResult>)
    requires
        dims.wf(),
    ensures
        results.len() < dims.spec_pixel_count() ==> {
            &&& AssemblyState::initial(dims).accept_all(results).phase() == Phase::Receiving
            &&& AssemblyState::initial(dims).accept_all(results).received == results.len()
        },
        results.len() >= dims.spec_pixel_count() ==> {
            &&& AssemblyState::initial(dims).accept_all(results).phase() == Phase::Done
            &&& AssemblyState::initial(dims).accept_all(results).received
                == dims.spec_pixel_count()
        },
{
    lemma_accept_all_counts(AssemblyState::initial(dims), results);
}

/// The consumer enters the done state exactly once: with the result that
/// brings the count to the number of pixels, and with no other.
pub proof fn lemma_done_entered_once(dims: Dimensions, results: Seq<PixelResult>, k: int)
    requires
        dims.wf(),
        0 <= k < results.len(),
    ensures
        ({
            let before = AssemblyState::initial(dims).accept_all(results.take(k));
            let after = AssemblyState::initial(dims).accept_all(results.take(k + 1));
            &&& after == before.accept(results[k])
            &&& (before.phase() == Phase::Receiving && after.phase() == Phase::Done) <==> k + 1
                == dims.spec_pixel_count()
        }),
{
    lemma_accept_all_step(AssemblyState::initial(dims), results, k);
    lemma_done_exactly_at_total(dims, results.take(k));
    lemma_done_exactly_at_total(dims, results.take(k + 1));
}

/// A result whose coordinate lies outside the image is counted while the
/// consumer is receiving, and never changes the grid.
pub proof fn lemma_outside_result_leaves_grid(state: AssemblyState, result: PixelResult)
    requires
        state.wf(),
        !state.dims.spec_contains(result.column as nat, result.row as nat),
    ensures
        state.accept(result).grid == state.grid,
        state.phase() == Phase::Receiving ==> state.accept(result).received == state.received + 1,
{
}

} // verus!
