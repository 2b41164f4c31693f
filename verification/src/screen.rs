//! Compositing tile results into the framebuffer.
//!
//! The compositor thread drains the result channel and writes each tile's
//! pixel bytes into the framebuffer range the job names.  Tiles arrive in
//! whatever order workers finish them; composing every tile of one viewport
//! generation, in any arrival order, rebuilds exactly the framebuffer that a
//! single whole-image evaluation would produce.

use vstd::prelude::*;

verus! {

use crate::camera::Camera;
use crate::work::WorkData;
use crate::work::covers;
use crate::work::frame_len;
use crate::work::intensity_at;
use crate::work::lemma_tiles_partition;
use crate::work::tile_bytes;
use crate::work::tile_jobs;
use crate::work::tile_size;
use vstd::pervasive::VecAdditionalExecFns;

/// The framebuffer with `tile` written over its byte range starting at
/// `start`, all other bytes unchanged.
pub open spec fn splice_bytes(frame: Seq<u8>, start: int, tile: Seq<u8>) -> Seq<u8> {
    Seq::new(
        frame.len(),
        |b: int|
            if start <= b < start + tile.len() {
                tile[b - start]
            } else {
                frame[b]
            },
    )
}

/// The framebuffer after the given tile results have been written into it,
/// in order.
pub open spec fn compose_results(frame: Seq<u8>, results: Seq<(WorkData, Seq<u8>)>) -> Seq<u8>
    decreases results.len(),
{
    if results.len() == 0 {
        frame
    } else {
        splice_bytes(
            compose_results(frame, results.drop_last()),
            results.last().0.start as int,
            results.last().1,
        )
    }
}

/// The framebuffer that a single whole-image evaluation of the viewport
/// produces: four bytes per pixel, each carrying the pixel's intensity.
pub open spec fn reference_frame(width: int, camera_state: Camera) -> Seq<u8> {
    Seq::new(
        frame_len(width) as nat,
        |b: int|
            intensity_at(
                width,
                camera_state.camera_zoom as int,
                camera_state.camera_x as int,
                camera_state.camera_y as int,
                b / 4,
            ),
    )
}

/// The single job that covers the whole framebuffer: the single-threaded
/// reference evaluation renders exactly this job.
pub open spec fn whole_frame_job(width: int, camera_state: Camera) -> WorkData {
    WorkData {
        start: 0,
        size: frame_len(width) as i64,
        camera_zoom: camera_state.camera_zoom,
        camera_x: camera_state.camera_x,
        camera_y: camera_state.camera_y,
    }
}

/// The single-threaded reference evaluation — the tile evaluation applied to
/// the one whole-framebuffer job — produces exactly `reference_frame`.
pub proof fn lemma_reference_is_whole_tile(width: int, camera_state: Camera)
    requires
        1 <= width,
        frame_len(width) <= i64::MAX,
    ensures
        tile_bytes(whole_frame_job(width, camera_state), width) == reference_frame(
            width,
            camera_state,
        ),
{
    assert(frame_len(width) >= 4) by (nonlinear_arith)
        requires
            width >= 1,
    ;
    assert(tile_bytes(whole_frame_job(width, camera_state), width) =~= reference_frame(
        width,
        camera_state,
    ));
}

/// A tile result that settles its byte range of a framebuffer of length
/// `flen`: the job's range lies within the framebuffer, the job carries the
/// given viewport snapshot, and the bytes are the job's tile evaluation.
pub open spec fn result_settles(
    result: (WorkData, Seq<u8>),
    width: int,
    zoom: int,
    cx: int,
    cy: int,
    flen: int,
) -> bool {
    &&& 0 <= result.0.start
    &&& 0 <= result.0.size
    &&& result.0.start + result.0.size <= flen
    &&& result.0.camera_zoom == zoom
    &&& result.0.camera_x == cx
    &&& result.0.camera_y == cy
    &&& result.1 == tile_bytes(result.0, width)
}

/// Writes one tile result into the framebuffer at the byte range its job
/// names, leaving every other byte unchanged.
#[verifier::loop_isolation(false)]
pub fn mutate_frame_with_result(frame: &mut Vec<u8>, data: &WorkData, result: &Vec<u8>)
    requires
        0 <= data.start,
        result@.len() == data.size,
        data.start + data.size <= old(frame)@.len(),
    ensures
        final(frame)@ == splice_bytes(old(frame)@, data.start as int, result@),
{
    let frame_bytes: usize = frame.len();
    let start: usize = data.start as usize;
    proof {
        assert(start + result@.len() <= frame_bytes);
    }
    let mut i: usize = 0;
    while i < result.len()
        invariant
            i <= result@.len(),
            frame@.len() == old(frame)@.len(),
            forall|b: int|
                0 <= b < frame@.len() && !(start <= b < start + i) ==> frame@[b] == old(
                    frame,
                )@[b],
            forall|b: int| start <= b < start + i ==> frame@[b] == result@[b - start],
        decreases result@.len() - i,
    {
        let value: u8 = result[i];
        frame.set(start + i, value);
        i = i + 1;
    }
    proof {
        assert(frame@ =~= splice_bytes(old(frame)@, data.start as int, result@));
    }
}

proof fn lemma_compose_preserves_len(frame: Seq<u8>, results: Seq<(WorkData, Seq<u8>)>)
    ensures
        compose_results(frame, results).len() == frame.len(),
    decreases results.len(),
{
    if results.len() > 0 {
        lemma_compose_preserves_len(frame, results.drop_last());
    }
}

proof fn lemma_compose_covered_byte(
    frame: Seq<u8>,
    results: Seq<(WorkData, Seq<u8>)>,
    width: int,
    zoom: int,
    cx: int,
    cy: int,
    b: int,
)
    requires
        0 <= b < frame.len(),
        forall|j: int|
            0 <= j < results.len() ==> result_settles(
                #[trigger] results[j],
                width,
                zoom,
                cx,
                cy,
                frame.len() as int,
            ),
        exists|j: int| 0 <= j < results.len() && covers(#[trigger] results[j].0, b),
    ensures
        compose_results(frame, results)[b] == intensity_at(width, zoom, cx, cy, b / 4),
    decreases results.len(),
{
    lemma_compose_preserves_len(frame, results.drop_last());
    let last = results.last();
    if covers(last.0, b) {
        assert(result_settles(results[results.len() - 1], width, zoom, cx, cy, frame.len() as int));
        assert(last.1[b - last.0.start] == tile_bytes(last.0, width)[b - last.0.start]);
        assert(last.0.start + (b - last.0.start) == b);
    } else {
        let j = choose|j: int| 0 <= j < results.len() && covers(#[trigger] results[j].0, b);
        assert(j < results.len() - 1);
        assert(results.drop_last()[j] == results[j]);
        assert(covers(results.drop_last()[j].0, b));
        lemma_compose_covered_byte(frame, results.drop_last(), width, zoom, cx, cy, b);
    }
}

/// Round trip: composing the results of all tiles generated for one
/// viewport snapshot — each rendered by the tile evaluation, arriving in any
/// order — turns a framebuffer of the right length into exactly the
/// framebuffer that a single whole-image evaluation of that viewport
/// produces.
#[verifier::rlimit(50)]
pub proof fn lemma_compose_round_trip(
    frame: Seq<u8>,
    results: Seq<(WorkData, Seq<u8>)>,
    width: int,
    camera_state: Camera,
    workers: int,
)
    requires
        1 <= workers,
        1 <= width,
        frame.len() == frame_len(width),
        frame_len(width) <= i64::MAX,
        frame_len(width) % (4 * workers) == 0,
        forall|j: int|
            0 <= j < results.len() ==> exists|i: int|
                0 <= i < workers && (#[trigger] results[j]).0 == tile_jobs(
                    frame_len(width),
                    workers,
                    camera_state,
                )[i] && results[j].1 == tile_bytes(results[j].0, width),
        forall|i: int|
            0 <= i < workers ==> exists|j: int|
                0 <= j < results.len() && #[trigger] tile_jobs(frame_len(width), workers,
                camera_state)[i] == results[j].0,
    ensures
        compose_results(frame, results) == reference_frame(width, camera_state),
{
    let flen = frame_len(width);
    let zoom = camera_state.camera_zoom as int;
    let cx = camera_state.camera_x as int;
    let cy = camera_state.camera_y as int;
    let jobs = tile_jobs(flen, workers, camera_state);
    let sz = tile_size(flen, workers);
    lemma_tiles_partition(flen, workers, camera_state);
    assert forall|j: int|
        0 <= j < results.len() implies result_settles(
        #[trigger] results[j],
        width,
        zoom,
        cx,
        cy,
        flen,
    ) by {
        let i = choose|i: int|
            0 <= i < workers && results[j].0 == jobs[i] && results[j].1 == tile_bytes(
                results[j].0,
                width,
            );
        assert(jobs[i].size == sz);
    }
    lemma_compose_preserves_len(frame, results);
    assert forall|b: int| 0 <= b < flen implies compose_results(frame, results)[b]
        == reference_frame(width, camera_state)[b] by {
        lemma_tiles_partition(flen, workers, camera_state);
        assert(flen >= 4) by (nonlinear_arith)
            requires
                width >= 1,
                flen == 4 * width * width,
        ;
        assert(sz > 0) by (nonlinear_arith)
            requires
                workers * sz == flen,
                flen > 0,
                workers >= 1,
        ;
        let i = b / sz;
        vstd::arithmetic::div_mod::lemma_div_pos_is_pos(b, sz);
        vstd::arithmetic::mul::lemma_mul_is_commutative(workers, sz);
        vstd::arithmetic::div_mod::lemma_multiply_divide_lt(b, sz, workers);
        assert(0 <= i < workers);
        assert(jobs[i].start == i * sz && jobs[i].size == sz);
        vstd::arithmetic::div_mod::lemma_fundamental_div_mod(b, sz);
        vstd::arithmetic::div_mod::lemma_mod_division_less_than_divisor(b, sz);
        vstd::arithmetic::mul::lemma_mul_is_commutative(sz, i);
        assert(covers(jobs[i], b));
        let j = choose|j: int| 0 <= j < results.len() && jobs[b / sz] == results[j].0;
        assert(covers(results[j].0, b));
        lemma_compose_covered_byte(frame, results, width, zoom, cx, cy, b);
    }
    assert(compose_results(frame, results) =~= reference_frame(width, camera_state));
}

} // verus!
