//! The run as a whole: what the finished image is, and why it does not
//! depend on the order in which the results arrive.
//!
//! The evaluator is a function of the coordinate alone. Whatever the number
//! of workers, each index is computed once, so the stream that reaches the
//! consumer is some arrangement of the results of all indices.

use vstd::prelude::*;
use crate::assembler::{lemma_accept_all_counts, lemma_accept_all_step, AssemblyState, Phase};
use crate::buffer::lemma_position_in_grid;
use crate::escape::{spec_shade, Classification};
use crate::geometry::{lemma_locate_bounds, Coordinate, Dimensions};
use crate::partition::{is_covered, is_partition, job_holds, lemma_partition_covers, Job};
use crate::pixel::{Color, PixelResult};
use crate::worker::{
    spec_inside, spec_locate, spec_result, WorkerAction, WorkerEvent, WorkerState,
};

verus! {

/// The result a worker publishes for `index` when points are classified by
/// `classify`.
pub open spec fn rendered(
    dims: Dimensions,
    classify: spec_fn(Coordinate) -> Classification,
    index: nat,
) -> PixelResult {
    spec_result(dims, index, classify(spec_locate(dims, index)))
}

/// The stream of results for the indices of `order`, in that order.
pub open spec fn rendered_stream(
    dims: Dimensions,
    classify: spec_fn(Coordinate) -> Classification,
    order: Seq<nat>,
) -> Seq<PixelResult> {
    Seq::new(order.len(), |k: int| rendered(dims, classify, order[k]))
}

/// The state of the worker of `job` once the channel has taken the results
/// of the first `count` indices of its range.
pub open spec fn after_published(job: Job, count: nat) -> WorkerState {
    WorkerState { job, cursor: job.spec_start() + count, pending: None, failed: false }
}

/// A worker whose points are classified by `classify` publishes the
/// rendered result of each index of its range, in increasing order: for the
/// index after the first `count`, it asks for the evaluation if the pixel
/// lies inside the image, then asks to publish exactly the rendered result,
/// and moves on to the next index when the channel has taken it.
pub proof fn lemma_worker_publishes_rendered(
    job: Job,
    classify: spec_fn(Coordinate) -> Classification,
    count: nat,
)
    requires
        job.wf(),
        job.spec_start() + count < job.spec_stop(),
    ensures
        ({
            let dims = job.spec_dims();
            let index = job.spec_start() + count;
            let state = after_published(job, count);
            let ready = if spec_inside(dims, index) {
                state.advance(WorkerEvent::Evaluated(classify(spec_locate(dims, index))))
            } else {
                state
            };
            &&& spec_inside(dims, index) ==> state.action() == WorkerAction::Evaluate(
                spec_locate(dims, index),
            )
            &&& ready.action() == WorkerAction::Publish(rendered(dims, classify, index))
            &&& ready.advance(WorkerEvent::Published(true)) == after_published(job, count + 1)
        }),
{
}

/// A worker that has published the results of all indices of its range
/// is finished.
pub proof fn lemma_worker_finishes(job: Job)
    requires
        job.wf(),
    ensures
        after_published(job, (job.spec_stop() - job.spec_start()) as nat).action()
            == WorkerAction::Finish,
        after_published(job, 0) == WorkerState::initial(job),
{
}

/// Whether `order` holds every index below `total`, and nothing else, in
/// `total` places: each index exactly once, in some order.
pub open spec fn is_arrangement(order: Seq<nat>, total: nat) -> bool {
    &&& order.len() == total
    &&& forall|k: int| 0 <= k < order.len() ==> #[trigger] order[k] < total
    &&& forall|i: nat| i < total ==> #[trigger] order.contains(i)
}

/// Whether the pixel with linear index `index` has the coordinate
/// `(column, row)`.
pub open spec fn lands_on(dims: Dimensions, index: nat, column: nat, row: nat) -> bool {
    dims.column_of(index) == column && dims.row_of(index) == row
}

/// Whether one of the first `count` indices of `order` has the coordinate
/// `(column, row)`.
pub open spec fn is_hit_within(
    dims: Dimensions,
    order: Seq<nat>,
    count: int,
    column: nat,
    row: nat,
) -> bool {
    exists|k: int| 0 <= k < count && #[trigger] lands_on(dims, order[k], column, row)
}

/// Whether some index of the image has the coordinate `(column, row)`.
pub open spec fn is_hit(dims: Dimensions, column: nat, row: nat) -> bool {
    exists|i: nat| i < dims.spec_pixel_count() && #[trigger] lands_on(dims, i, column, row)
}

/// The colour of the finished image at grid position `at`: the shade of the
/// point if some index has that coordinate, black if none has.
pub open spec fn finished_color(
    dims: Dimensions,
    classify: spec_fn(Coordinate) -> Classification,
    at: int,
) -> Color {
    let column = (at % (dims.spec_width() as int)) as nat;
    let row = (at / (dims.spec_width() as int)) as nat;
    if is_hit(dims, column, row) {
        spec_shade(classify(Coordinate { column: column as u32, row: row as u32 }))
    } else {
        Color::spec_black()
    }
}

/// The finished image.
pub open spec fn finished_grid(
    dims: Dimensions,
    classify: spec_fn(Coordinate) -> Classification,
) -> Seq<Color> {
    Seq::new(dims.spec_pixel_count(), |at: int| finished_color(dims, classify, at))
}

/// The colour at grid position `at` after the first `count` results of
/// `order` have arrived.
pub open spec fn partial_color(
    dims: Dimensions,
    classify: spec_fn(Coordinate) -> Classification,
    order: Seq<nat>,
    count: int,
    at: int,
) -> Color {
    let column = (at % (dims.spec_width() as int)) as nat;
    let row = (at / (dims.spec_width() as int)) as nat;
    if is_hit_within(dims, order, count, column, row) {
        spec_shade(classify(Coordinate { column: column as u32, row: row as u32 }))
    } else {
        Color::spec_black()
    }
}

/// After the first `count` results of a stream have arrived, the consumer
/// has counted them all, and each position of the grid holds the shade of
/// its point if one of these results has its coordinate, and is black
/// otherwise.
pub proof fn lemma_partial_image(
    dims: Dimensions,
    classify: spec_fn(Coordinate) -> Classification,
    order: Seq<nat>,
    count: int,
)
    requires
        dims.wf(),
        0 <= count <= order.len() <= dims.spec_pixel_count(),
        forall|k: int| 0 <= k < order.len() ==> #[trigger] order[k] < dims.spec_pixel_count(),
    ensures
        ({
            let state = AssemblyState::initial(dims).accept_all(
                rendered_stream(dims, classify, order).take(count),
            );
            &&& state.wf()
            &&& state.dims == dims
            &&& state.received == count
            &&& forall|at: int|
                0 <= at < dims.spec_pixel_count() ==> #[trigger] state.grid[at] == partial_color(
                    dims,
                    classify,
                    order,
                    count,
                    at,
                )
        }),
    decreases count,
{
    let stream = rendered_stream(dims, classify, order);
    let start = AssemblyState::initial(dims);
    let width = dims.spec_width() as int;
    lemma_accept_all_counts(start, stream.take(count));
    if count == 0 {
        assert forall|at: int| 0 <= at < dims.spec_pixel_count() implies #[trigger] start.grid[at]
            == partial_color(dims, classify, order, 0, at) by {}
    } else {
        let m = count - 1;
        lemma_partial_image(dims, classify, order, m);
        lemma_accept_all_step(start, stream, m);
        let after = start.accept_all(stream.take(count));
        let index = order[m];
        lemma_locate_bounds(dims, index);
        let column = dims.column_of(index);
        let row = dims.row_of(index);
        assert(lands_on(dims, order[m], column, row));
        assert forall|at: int| 0 <= at < dims.spec_pixel_count() implies #[trigger] after.grid[at]
            == partial_color(dims, classify, order, count, at) by {
            let r = (at / width) as nat;
            assert(0 <= at % width < width && 0 <= at / width && at == (at / width) * width + at
                % width) by (nonlinear_arith)
                requires
                    0 <= at,
                    0 < width,
            ;
            if dims.spec_contains(column, row) {
                lemma_position_in_grid(dims, column, row);
            } else {
                assert(r < dims.spec_height()) by (nonlinear_arith)
                    requires
                        0 <= at < width * dims.spec_height(),
                        r == at / width,
                        0 < width,
                ;
            }
        }
    }
}

/// When the results of all indices have arrived, in whatever order, the
/// consumer is done and its grid is the finished image.
pub proof fn lemma_assembled_image(
    dims: Dimensions,
    classify: spec_fn(Coordinate) -> Classification,
    order: Seq<nat>,
)
    requires
        dims.wf(),
        is_arrangement(order, dims.spec_pixel_count()),
    ensures
        ({
            let end = AssemblyState::initial(dims).accept_all(
                rendered_stream(dims, classify, order),
            );
            &&& end.phase() == Phase::Done
            &&& end.received == dims.spec_pixel_count()
            &&& end.grid == finished_grid(dims, classify)
        }),
{
    let stream = rendered_stream(dims, classify, order);
    let total = dims.spec_pixel_count();
    let width = dims.spec_width() as int;
    lemma_partial_image(dims, classify, order, total as int);
    assert(stream.take(total as int) =~= stream);
    let end = AssemblyState::initial(dims).accept_all(stream);
    assert forall|at: int| 0 <= at < total implies #[trigger] end.grid[at] == finished_color(
        dims,
        classify,
        at,
    ) by {
        let c = (at % width) as nat;
        let r = (at / width) as nat;
        if is_hit(dims, c, r) {
            let i = choose|i: nat| i < total && #[trigger] lands_on(dims, i, c, r);
            assert(order.contains(i));
        }
    }
}

/// Two runs over the same dimensions with the same evaluator end with the
/// same image, whatever the order in which their results arrive: the final
/// state of the consumer is the same.
pub proof fn lemma_order_independent(
    dims: Dimensions,
    classify: spec_fn(Coordinate) -> Classification,
    first: Seq<nat>,
    second: Seq<nat>,
)
    requires
        dims.wf(),
        is_arrangement(first, dims.spec_pixel_count()),
        is_arrangement(second, dims.spec_pixel_count()),
    ensures
        AssemblyState::initial(dims).accept_all(rendered_stream(dims, classify, first))
            == AssemblyState::initial(dims).accept_all(rendered_stream(dims, classify, second)),
{
    lemma_assembled_image(dims, classify, first);
    lemma_assembled_image(dims, classify, second);
    lemma_accept_all_counts(
        AssemblyState::initial(dims),
        rendered_stream(dims, classify, first),
    );
    lemma_accept_all_counts(
        AssemblyState::initial(dims),
        rendered_stream(dims, classify, second),
    );
}

/// On a square image every pixel is drawn: each position of the finished
/// image holds the shade of its own point, and none is left black for want
/// of an index.
pub proof fn lemma_square_image_is_fully_drawn(
    dims: Dimensions,
    classify: spec_fn(Coordinate) -> Classification,
    at: int,
)
    requires
        dims.wf(),
        dims.spec_width() == dims.spec_height(),
        0 <= at < dims.spec_pixel_count(),
    ensures
        finished_color(dims, classify, at) == spec_shade(
            classify(
                Coordinate {
                    column: (at % (dims.spec_width() as int)) as u32,
                    row: (at / (dims.spec_width() as int)) as u32,
                },
            ),
        ),
{
    let width = dims.spec_width() as int;
    let column = at % width;
    let row = at / width;
    let index = column * width + row;
    assert(0 <= column < width && 0 <= row < width && at == row * width + column)
        by (nonlinear_arith)
        requires
            0 <= at < width * width,
            0 < width,
            column == at % width,
            row == at / width,
    ;
    assert(index / width == column && index % width == row && 0 <= index < width * width)
        by (nonlinear_arith)
        requires
            0 <= column < width,
            0 <= row < width,
            index == column * width + row,
    ;
    assert(lands_on(dims, index as nat, column as nat, row as nat));
}

/// Whether `order` is an order in which the results of the workers of
/// `jobs` can arrive at the consumer: it has as many places as the image has
/// pixels, every place holds an index of one of the jobs, and every index of
/// every job is there.
pub open spec fn is_arrival_order(order: Seq<nat>, jobs: Seq<Job>, total: nat) -> bool {
    &&& order.len() == total
    &&& forall|k: int| 0 <= k < order.len() ==> is_covered(jobs, #[trigger] order[k])
    &&& forall|i: int, index: nat|
        0 <= i < jobs.len() && #[trigger] job_holds(jobs[i], index) ==> order.contains(index)
}

/// Whatever the number of workers, an order in which their results arrive
/// is an arrangement of all indices of the image.
pub proof fn lemma_arrival_order_is_arrangement(
    dims: Dimensions,
    workers: nat,
    jobs: Seq<Job>,
    order: Seq<nat>,
)
    requires
        dims.wf(),
        workers >= 1,
        is_partition(jobs, dims, workers),
        is_arrival_order(order, jobs, dims.spec_pixel_count()),
    ensures
        is_arrangement(order, dims.spec_pixel_count()),
{
    let total = dims.spec_pixel_count();
    lemma_partition_covers(jobs, dims, workers);
    assert forall|index: nat| index < total implies #[trigger] order.contains(index) by {
        assert(is_covered(jobs, index));
    }
}

/// Two runs over the same dimensions with the same evaluator give the same
/// image, whatever the number of workers of each run and whatever the order
/// in which the results of each arrive; and that image is the finished
/// image.
pub proof fn lemma_run_is_deterministic(
    dims: Dimensions,
    classify: spec_fn(Coordinate) -> Classification,
    first_workers: nat,
    first_jobs: Seq<Job>,
    first_order: Seq<nat>,
    second_workers: nat,
    second_jobs: Seq<Job>,
    second_order: Seq<nat>,
)
    requires
        dims.wf(),
        first_workers >= 1,
        second_workers >= 1,
        is_partition(first_jobs, dims, first_workers),
        is_partition(second_jobs, dims, second_workers),
        is_arrival_order(first_order, first_jobs, dims.spec_pixel_count()),
        is_arrival_order(second_order, second_jobs, dims.spec_pixel_count()),
    ensures
        AssemblyState::initial(dims).accept_all(rendered_stream(dims, classify, first_order))
            == AssemblyState::initial(dims).accept_all(
            rendered_stream(dims, classify, second_order),
        ),
        AssemblyState::initial(dims).accept_all(
            rendered_stream(dims, classify, first_order),
        ).grid == finished_grid(dims, classify),
{
    lemma_arrival_order_is_arrangement(dims, first_workers, first_jobs, first_order);
    lemma_arrival_order_is_arrangement(dims, second_workers, second_jobs, second_order);
    lemma_order_independent(dims, classify, first_order, second_order);
    lemma_assembled_image(dims, classify, first_order);
}

} // verus!
