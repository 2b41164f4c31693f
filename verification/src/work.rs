//! Tile jobs, the FIFO work queue, tile evaluation and the tile generator.
//!
//! A tile job names a contiguous, 4-byte-aligned byte range of the
//! framebuffer together with the viewport snapshot it is to be rendered
//! under.  The tile generator splits the framebuffer into equally sized jobs;
//! a worker turns one job into its pixel bytes with [`thread_work`].

use vstd::prelude::*;

verus! {

use std::collections::VecDeque;
use crate::camera::Camera;
use crate::mandelbrot::C_BOUND;
use crate::mandelbrot::ITER_LIMIT;
use crate::mandelbrot::SCALE;
use crate::mandelbrot::escape_time;
use crate::mandelbrot::escape_time_spec;
use crate::mandelbrot::iabs;
use crate::mandelbrot::tdiv;
use vstd::arithmetic::div_mod::lemma_div_pos_is_pos;
use vstd::arithmetic::div_mod::lemma_div_nonincreasing;
use vstd::arithmetic::div_mod::lemma_multiply_divide_lt;
use vstd::arithmetic::div_mod::lemma_mod_division_less_than_divisor;
use vstd::arithmetic::div_mod::lemma_div_multiples_vanish;
use vstd::arithmetic::div_mod::lemma_div_is_ordered;
use vstd::arithmetic::div_mod::lemma_fundamental_div_mod;
use vstd::arithmetic::div_mod::lemma_fundamental_div_mod_converse_div;
use vstd::arithmetic::mul::lemma_mul_is_associative;
use vstd::arithmetic::mul::lemma_mul_is_commutative;
use vstd::arithmetic::mul::lemma_mul_is_distributive_add_other_way;
use vstd::arithmetic::mul::lemma_mul_inequality;
use vstd::arithmetic::mul::lemma_mul_nonnegative;
use vstd::arithmetic::div_mod::lemma_mod_multiples_basic;

/// One tile job: the byte range `[start, start + size)` of the framebuffer,
/// and the viewport snapshot (fixed-point, in units of `1 / SCALE`) that the
/// tile is to be rendered under.
#[derive(Clone, Copy, PartialEq, Eq, Structural, Debug)]
pub struct WorkData {
    pub start: i64,
    pub size: i64,
    pub camera_zoom: i64,
    pub camera_x: i64,
    pub camera_y: i64,
}

/// An ordered FIFO collection of pending jobs.  The queue itself is a plain
/// owned value; sharing it between producers and workers, and serializing
/// access with a lock, is its caller's concern.
pub struct WorkQueue<T: Send + Copy> {
    inner: VecDeque<T>,
}

impl<T: Send + Copy> View for WorkQueue<T> {
    type V = Seq<T>;

    closed spec fn view(&self) -> Seq<T> {
        self.inner@
    }
}

impl<T: Send + Copy> WorkQueue<T> {
    /// Creates an empty queue.
    pub fn new() -> (queue: Self)
        ensures
            queue@ == Seq::<T>::empty(),
    {
        Self { inner: VecDeque::new() }
    }

    /// Removes and returns the head of the queue; `None` signals an empty
    /// queue, not an error, and callers poll again later.
    pub fn get_work(&mut self) -> (work: Option<T>)
        ensures
            match work {
                Some(item) => old(self)@.len() > 0 && item == old(self)@[0] && final(self)@
                    == old(self)@.subrange(1, old(self)@.len() as int),
                None => old(self)@.len() == 0 && final(self)@ == old(self)@,
            },
    {
        self.inner.pop_front()
    }

    /// Appends a job at the tail and returns the queue length after the
    /// insertion.
    pub fn add_work(&mut self, work: T) -> (len: usize)
        ensures
            final(self)@ == old(self)@.push(work),
            len == final(self)@.len(),
    {
        self.inner.push_back(work);
        self.inner.len()
    }
}

/// Largest magnitude accepted for a viewport center coordinate, so that the
/// pixel-to-plane mapping stays within `C_BOUND`.
pub const MAX_CENTER: i64 = 2_147_483_648;

/// The intensity of a pixel whose orbit never escapes: interior points of
/// the set are drawn black.
pub const INTERIOR_INTENSITY: u8 = 0;

/// A viewport the tile evaluation accepts: a square image of positive width
/// (at most 65536), a nonzero zoom, and center coordinates small enough that
/// no intermediate product can overflow.
pub open spec fn valid_view(width: int, zoom: int, cx: int, cy: int) -> bool {
    &&& 1 <= width <= 65536
    &&& zoom != 0
    &&& iabs(cx) <= MAX_CENTER
    &&& iabs(cy) <= MAX_CENTER
}

/// The fixed-point complex-plane coordinate of pixel coordinate `p` along
/// one axis: `(width/2 - p - center/SCALE) / (zoom/SCALE)`, evaluated in
/// fixed-point arithmetic with truncating division by the zoom factor.
pub open spec fn plane_coord(width: int, zoom: int, center: int, p: int) -> int {
    tdiv((width * ((SCALE as int) / 2) - p * (SCALE as int) - center) * (SCALE as int), zoom)
}

/// The grayscale intensity of the pixel at linear index `abs_i` of the
/// image: `255 - k` when the point under the viewport mapping escapes at
/// step `k`, and `INTERIOR_INTENSITY` when it never escapes.
pub open spec fn intensity_at(width: int, zoom: int, cx: int, cy: int, abs_i: int) -> u8 {
    let cre = plane_coord(width, zoom, cx, abs_i % width);
    let cim = plane_coord(width, zoom, cy, abs_i / width);
    match escape_time_spec(cre, cim, ITER_LIMIT as nat) {
        Some(k) => (255 - k) as u8,
        None => INTERIOR_INTENSITY,
    }
}

/// Maps pixel coordinate `p` along one axis to its fixed-point complex-plane
/// coordinate under the viewport.
pub fn plane_point(width: usize, zoom: i64, center: i64, p: usize) -> (c: i64)
    requires
        1 <= width <= 65536,
        zoom != 0,
        iabs(center as int) <= MAX_CENTER,
        p < width,
    ensures
        c == plane_coord(width as int, zoom as int, center as int, p as int),
        iabs(c as int) <= C_BOUND,
{
    let half: i128 = (width as i128) * ((SCALE as i128) / 2);
    let inner: i128 = half - (p as i128) * (SCALE as i128) - (center as i128);
    let num: i128 = inner * (SCALE as i128);
    let q: i128 = crate::mandelbrot::div_trunc(num, zoom);
    proof {
        lemma_div_pos_is_pos(iabs(num as int), iabs(zoom as int));
        lemma_div_nonincreasing(iabs(num as int), iabs(zoom as int));
    }
    q as i64
}

/// The grayscale intensity of the pixel at linear image index `abs_i` under
/// the given viewport.
pub fn pixel_color(width: usize, zoom: i64, cx: i64, cy: i64, abs_i: usize) -> (color: u8)
    requires
        valid_view(width as int, zoom as int, cx as int, cy as int),
        abs_i < width * width,
    ensures
        color == intensity_at(width as int, zoom as int, cx as int, cy as int, abs_i as int),
{
    let x: usize = abs_i % width;
    let y: usize = abs_i / width;
    proof {
        lemma_multiply_divide_lt(abs_i as int, width as int, width as int);
        lemma_mod_division_less_than_divisor(abs_i as int, width as int);
    }
    let cre: i64 = plane_point(width, zoom, cx, x);
    let cim: i64 = plane_point(width, zoom, cy, y);
    match escape_time(cre, cim, ITER_LIMIT) {
        Some(k) => (255 - k) as u8,
        None => INTERIOR_INTENSITY,
    }
}

/// The framebuffer length of a square image of the given width: four bytes
/// per pixel.
pub open spec fn frame_len(width: int) -> int {
    4 * width * width
}

/// A tile job the tile evaluation accepts: a valid viewport, a 4-byte-aligned
/// nonnegative byte range lying within the framebuffer, and a framebuffer
/// that fits in a `usize`.
pub open spec fn valid_job(data: WorkData, width: int) -> bool {
    &&& valid_view(width, data.camera_zoom as int, data.camera_x as int, data.camera_y as int)
    &&& 0 <= data.start
    &&& 0 <= data.size
    &&& data.start % 4 == 0
    &&& data.size % 4 == 0
    &&& data.start + data.size <= frame_len(width)
    &&& frame_len(width) <= usize::MAX
}

/// The pixel bytes of one tile: byte `b` of the tile belongs to the pixel at
/// absolute linear index `(start + b) / 4`, and all four channels of a pixel
/// carry its intensity.
pub open spec fn tile_bytes(data: WorkData, width: int) -> Seq<u8> {
    Seq::new(
        data.size as nat,
        |b: int|
            intensity_at(
                width,
                data.camera_zoom as int,
                data.camera_x as int,
                data.camera_y as int,
                (data.start + b) / 4,
            ),
    )
}

/// Renders one tile job into its pixel bytes.
///
/// The output is a pure function of the job and the image width alone, so
/// rendering the same job twice yields byte-identical buffers.
#[verifier::loop_isolation(false)]
pub fn thread_work(data: WorkData, width: usize) -> (out: Vec<u8>)
    requires
        valid_job(data, width as int),
    ensures
        out@ == tile_bytes(data, width as int),
{
    proof {
        lemma_mul_is_associative(4, width as int, width as int);
        lemma_div_multiples_vanish((width as int) * (width as int), 4);
        lemma_fundamental_div_mod(data.start as int, 4);
        lemma_fundamental_div_mod(data.size as int, 4);
    }
    let size: usize = data.size as usize;
    let count: usize = size / 4;
    let base: usize = (data.start as usize) / 4;
    let mut out: Vec<u8> = Vec::new();
    let mut i: usize = 0;
    while i < count
        invariant
            i <= count,
            out@.len() == 4 * i,
            forall|b: int| 0 <= b < 4 * i ==> out@[b] == tile_bytes(data, width as int)[b],
        decreases count - i,
    {
        proof {
            lemma_fundamental_div_mod_converse_div(
                data.start + data.size,
                4,
                base + count,
                0,
            );
            lemma_div_is_ordered(data.start + data.size, frame_len(width as int), 4);
        }
        let abs_i: usize = base + i;
        let color: u8 = pixel_color(width, data.camera_zoom, data.camera_x, data.camera_y, abs_i);
        out.push(color);
        out.push(color);
        out.push(color);
        out.push(color);
        proof {
            let ghost st = data.start as int;
            assert forall|r: int| 0 <= r < 4 implies #[trigger] ((st + (4 * i + r)) / 4) == base
                + i by {
                lemma_fundamental_div_mod_converse_div(st + 4 * i + r, 4, base + i, r);
            }
        }
        i = i + 1;
    }
    proof {
        assert(out@ =~= tile_bytes(data, width as int));
    }
    out
}

/// Tile evaluation is deterministic and pure: its output is the one sequence
/// `tile_bytes(data, width)`, so any two buffers obtained by rendering the
/// same job under the same width — as `thread_work`'s contract yields them —
/// are byte-identical.
pub proof fn lemma_thread_work_deterministic(
    data: WorkData,
    width: int,
    first: Seq<u8>,
    second: Seq<u8>,
)
    requires
        first == tile_bytes(data, width),
        second == tile_bytes(data, width),
    ensures
        first == second,
{
}

/// FIFO round trip: after an enqueue onto a queue whose contents were `s`,
/// an immediate dequeue returns the enqueued item itself when `s` was empty,
/// and the old head — never the new item — otherwise, as `add_work` and
/// `get_work`'s contracts hand these states back.
pub proof fn lemma_fifo_add_then_get<T>(s: Seq<T>, item: T)
    ensures
        s.push(item).len() == s.len() + 1,
        s.len() == 0 ==> s.push(item)[0] == item,
        s.len() > 0 ==> s.push(item)[0] == s[0],
{
}

/// What a worker does next in its polling loop.
#[derive(Clone, Copy, PartialEq, Eq, Structural, Debug)]
pub enum WorkerAction {
    /// The shutdown flag reads false: leave the loop and terminate.
    Finish,
    /// A job was available: compute its tile and publish the result.
    Compute(WorkData),
    /// No job was available: yield, then poll again.
    Idle,
}

/// One decision of a worker's polling loop, from the last read of the
/// shutdown flag and the job the queue handed back.
///
/// Once the shutdown flag reads false a worker finishes unconditionally, so
/// every worker terminates within one polling interval of the flag being
/// cleared, after finishing any tile already in progress.
pub fn worker_decide(more_jobs: bool, job: Option<WorkData>) -> (action: WorkerAction)
    ensures
        !more_jobs ==> action == WorkerAction::Finish,
        job matches Some(data) ==> more_jobs ==> action == WorkerAction::Compute(data),
        more_jobs && job is None ==> action == WorkerAction::Idle,
{
    if !more_jobs {
        WorkerAction::Finish
    } else {
        match job {
            Some(data) => WorkerAction::Compute(data),
            None => WorkerAction::Idle,
        }
    }
}

/// The size in bytes of each tile when a framebuffer of `total_size` bytes
/// is split into `workers` equal tiles.
pub open spec fn tile_size(total_size: int, workers: int) -> int {
    total_size / workers
}

/// The jobs generated for one viewport snapshot: `workers` contiguous tiles
/// of equal size, each stamped with the snapshot.
pub open spec fn tile_jobs(total_size: int, workers: int, camera_state: Camera) -> Seq<WorkData> {
    Seq::new(
        workers as nat,
        |i: int|
            WorkData {
                start: (i * tile_size(total_size, workers)) as i64,
                size: tile_size(total_size, workers) as i64,
                camera_zoom: camera_state.camera_zoom,
                camera_x: camera_state.camera_x,
                camera_y: camera_state.camera_y,
            },
    )
}

/// Whether byte index `b` of the framebuffer falls in the job's tile.
pub open spec fn covers(data: WorkData, b: int) -> bool {
    data.start <= b < data.start + data.size
}

/// The tiles generated for one viewport snapshot partition the framebuffer
/// exactly: there are `workers` tiles of equal, 4-byte-aligned size; the
/// first starts at byte 0; each tile starts where the one before it ends;
/// together they span exactly `total_size` bytes; and every byte of the
/// framebuffer falls in exactly one tile.
pub proof fn lemma_tiles_partition(total_size: int, workers: int, camera_state: Camera)
    requires
        1 <= workers,
        0 <= total_size <= i64::MAX,
        total_size % (4 * workers) == 0,
    ensures
        tile_jobs(total_size, workers, camera_state).len() == workers,
        workers * tile_size(total_size, workers) == total_size,
        forall|i: int|
            0 <= i < workers ==> {
                let job = #[trigger] tile_jobs(total_size, workers, camera_state)[i];
                &&& job.start == i * tile_size(total_size, workers)
                &&& job.size == tile_size(total_size, workers)
                &&& job.start % 4 == 0
                &&& job.size % 4 == 0
                &&& 0 <= job.start
                &&& job.start + job.size <= total_size
                &&& job.camera_zoom == camera_state.camera_zoom
                &&& job.camera_x == camera_state.camera_x
                &&& job.camera_y == camera_state.camera_y
            },
        tile_jobs(total_size, workers, camera_state)[0].start == 0,
        forall|i: int|
            0 <= i < workers - 1 ==> #[trigger] tile_jobs(total_size, workers, camera_state)[
                i
            ].start + tile_jobs(total_size, workers, camera_state)[i].size == tile_jobs(
                total_size,
                workers,
                camera_state,
            )[i + 1].start,
        tile_jobs(total_size, workers, camera_state)[workers - 1].start + tile_jobs(
            total_size,
            workers,
            camera_state,
        )[workers - 1].size == total_size,
        forall|b: int|
            0 <= b < total_size ==> covers(
                #[trigger] tile_jobs(total_size, workers, camera_state)[
                    b / tile_size(total_size, workers)],
                b,
            ) && 0 <= b / tile_size(total_size, workers) < workers,
        forall|b: int, i: int|
            0 <= b < total_size && 0 <= i < workers && #[trigger] covers(
                tile_jobs(total_size, workers, camera_state)[i],
                b,
            ) ==> i == b / tile_size(total_size, workers),
{
    let sz = tile_size(total_size, workers);
    let q = total_size / (4 * workers);
    lemma_fundamental_div_mod(total_size, 4 * workers);
    assert(total_size == (4 * workers) * q);
    assert(total_size == workers * (4 * q) && 0 <= 4 * q) by (nonlinear_arith)
        requires
            total_size == (4 * workers) * q,
            1 <= workers,
            0 <= total_size,
    ;
    lemma_div_multiples_vanish(4 * q, workers);
    assert(workers * (4 * q) / workers == 4 * q);
    assert(sz == 4 * q);
    lemma_mod_multiples_basic(q, 4);
    assert((4 * q) % 4 == 0) by {
        lemma_mul_is_commutative(4, q);
    }
    assert forall|i: int| 0 <= i < workers implies 0 <= #[trigger] (i * sz) && (i + 1) * sz
        <= total_size && (i * sz) % 4 == 0 by {
        lemma_mul_nonnegative(i, sz);
        lemma_mul_inequality(i + 1, workers, sz);
        lemma_mul_is_commutative(workers, sz);
        lemma_mul_is_distributive_add_other_way(sz, i, 1);
        assert(i * sz == (4 * i) * q && (4 * i) * q == 4 * (i * q)) by (nonlinear_arith)
            requires
                sz == 4 * q,
        ;
        lemma_mod_multiples_basic(i * q, 4);
        lemma_mul_is_commutative(4, i * q);
    }
    assert forall|i: int| 0 <= i < workers implies #[trigger] (i * sz) + sz == (i + 1) * sz by {
        lemma_mul_is_distributive_add_other_way(sz, i, 1);
    }
    if total_size > 0 {
        assert(sz > 0) by (nonlinear_arith)
            requires
                workers * sz == total_size,
                0 < total_size,
                1 <= workers,
        ;
        assert forall|b: int| 0 <= b < total_size implies #[trigger] covers(
            tile_jobs(total_size, workers, camera_state)[b / sz],
            b,
        ) && 0 <= b / sz < workers by {
            lemma_fundamental_div_mod(b, sz);
            lemma_div_pos_is_pos(b, sz);
            lemma_mul_is_commutative(sz, b / sz);
            assert(b < workers * sz);
            lemma_mul_is_commutative(workers, sz);
            lemma_multiply_divide_lt(b, sz, workers);
            lemma_mod_division_less_than_divisor(b, sz);
        }
        assert forall|b: int, i: int|
            0 <= b < total_size && 0 <= i < workers && covers(
                tile_jobs(total_size, workers, camera_state)[i],
                b,
            ) implies i == b / sz by {
            lemma_fundamental_div_mod_converse_div(b, sz, i, b - i * sz);
        }
    }
}

/// Splits the framebuffer into `workers` equal, contiguous, 4-byte-aligned
/// tiles stamped with the given viewport snapshot, and enqueues all of them.
#[verifier::loop_isolation(false)]
pub fn create_works(
    work_queue: &mut WorkQueue<WorkData>,
    camera_state: Camera,
    total_size: usize,
    workers: usize,
)
    requires
        1 <= workers,
        total_size <= i64::MAX,
        (total_size as int) % (4 * (workers as int)) == 0,
    ensures
        final(work_queue)@ == old(work_queue)@ + tile_jobs(
            total_size as int,
            workers as int,
            camera_state,
        ),
{
    proof {
        lemma_tiles_partition(total_size as int, workers as int, camera_state);
    }
    let calc_size: usize = total_size / workers;
    let mut i: usize = 0;
    while i < workers
        invariant
            i <= workers,
            work_queue@ == old(work_queue)@ + tile_jobs(
                total_size as int,
                workers as int,
                camera_state,
            ).take(i as int),
        decreases workers - i,
    {
        proof {
            lemma_mul_inequality(i as int, workers as int, calc_size as int);
            lemma_mul_is_commutative(workers as int, calc_size as int);
            lemma_mul_nonnegative(i as int, calc_size as int);
        }
        let work = WorkData {
            start: (i * calc_size) as i64,
            size: calc_size as i64,
            camera_zoom: camera_state.camera_zoom,
            camera_x: camera_state.camera_x,
            camera_y: camera_state.camera_y,
        };
        work_queue.add_work(work);
        proof {
            assert(work_queue@ =~= old(work_queue)@ + tile_jobs(
                total_size as int,
                workers as int,
                camera_state,
            ).take(i + 1));
        }
        i = i + 1;
    }
    proof {
        assert(tile_jobs(total_size as int, workers as int, camera_state).take(workers as int)
            =~= tile_jobs(total_size as int, workers as int, camera_state));
    }
}

} // verus!
