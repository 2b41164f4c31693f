use mandelbrot_tiles::camera::Camera;
use mandelbrot_tiles::mandelbrot::escape_time;
use mandelbrot_tiles::screen::mutate_frame_with_result;
use mandelbrot_tiles::work::create_works;
use mandelbrot_tiles::work::pixel_color;
use mandelbrot_tiles::work::thread_work;
use mandelbrot_tiles::work::WorkData;
use mandelbrot_tiles::work::WorkQueue;

#[test]
fn origin_never_escapes() {
    // c = 0 + 0i lies in the set: the orbit stays at zero forever.
    assert_eq!(escape_time(0, 0, 255), None);
}

#[test]
fn boundary_point_never_escapes() {
    // c = -2 walks the boundary: |z|^2 reaches exactly 4 and never exceeds it.
    assert_eq!(escape_time(-2_000_000, 0, 255), None);
}

#[test]
fn far_point_escapes_at_step_zero() {
    // c = 3: |c|^2 = 9 > 4 already when c is first tested.
    assert_eq!(escape_time(3_000_000, 0, 255), Some(0));
}

#[test]
fn near_point_escapes_at_step_one() {
    // c = 1.5: |c|^2 = 2.25 <= 4, then z = 1.5^2 + 1.5 = 3.75 escapes.
    assert_eq!(escape_time(1_500_000, 0, 255), Some(1));
}

#[test]
fn escape_respects_iteration_cap() {
    assert_eq!(escape_time(1_500_000, 0, 1), None);
    assert_eq!(escape_time(3_000_000, 0, 1), Some(0));
}

#[test]
fn center_pixel_of_panned_viewport_is_bright() {
    // Image 800x800, viewport zoom 0.6, center x 200, center y 0: the image
    // center (400, 400) maps to re = (400 - (400 + 200)) / 0.6, far outside
    // the set, so it escapes at step 0 and is drawn at intensity 255.
    let color = pixel_color(800, 600_000, 200_000_000, 0, 400 * 800 + 400);
    assert_eq!(color, 255);
}

#[test]
fn pixel_mapping_to_interior_uses_interior_constant() {
    // With centers at zero the image center maps exactly to c = 0 + 0i,
    // which never escapes: the intensity is the fixed interior constant, not
    // a value derived from an iteration count.
    let color = pixel_color(800, 600_000, 0, 0, 400 * 800 + 400);
    assert_eq!(color, 0);
}

#[test]
fn pixel_escaping_at_step_one_has_intensity_254() {
    // Width 8, zoom 1.0, center x -1.5: the image center (4, 4) maps to
    // c = 1.5 + 0i, which escapes at step 1, so its intensity is 255 - 1.
    let color = pixel_color(8, 1_000_000, -1_500_000, 0, 4 * 8 + 4);
    assert_eq!(color, 254);
}

#[test]
fn negative_zoom_flips_the_mapping() {
    // Width 8, zoom -1.0, center x -1.5: the image center now maps to
    // c = -1.5 + 0i, which lies in the set, so the interior constant shows.
    let color = pixel_color(8, -1_000_000, -1_500_000, 0, 4 * 8 + 4);
    assert_eq!(color, 0);
}

#[test]
fn tile_of_center_pixel_is_all_255() {
    let data = WorkData {
        start: 4 * (400 * 800 + 400),
        size: 4,
        camera_zoom: 600_000,
        camera_x: 200_000_000,
        camera_y: 0,
    };
    let out = thread_work(data, 800);
    assert_eq!(out, vec![255u8, 255, 255, 255]);
}

#[test]
fn tile_of_interior_pixel_is_all_interior() {
    let data = WorkData {
        start: 4 * (400 * 800 + 400),
        size: 4,
        camera_zoom: 600_000,
        camera_x: 0,
        camera_y: 0,
    };
    let out = thread_work(data, 800);
    assert_eq!(out, vec![0u8, 0, 0, 0]);
}

#[test]
fn thread_work_is_deterministic() {
    let data = WorkData {
        start: 0,
        size: 256,
        camera_zoom: 600_000,
        camera_x: 0,
        camera_y: 0,
    };
    let first = thread_work(data, 8);
    let second = thread_work(data, 8);
    assert_eq!(first.len(), 256);
    assert_eq!(first, second);
}

#[test]
fn mutate_frame_writes_exactly_the_tile_range() {
    let mut frame: Vec<u8> = vec![9; 12];
    let data = WorkData { start: 4, size: 4, camera_zoom: 600_000, camera_x: 0, camera_y: 0 };
    let result: Vec<u8> = vec![1, 2, 3, 4];
    mutate_frame_with_result(&mut frame, &data, &result);
    assert_eq!(frame, vec![9, 9, 9, 9, 1, 2, 3, 4, 9, 9, 9, 9]);
}

#[test]
fn composed_tiles_match_whole_frame_render() {
    // Round trip: the tiles of one generation, rendered separately and
    // composited in reverse arrival order, rebuild exactly the framebuffer
    // of a single whole-image render.
    let width: usize = 8;
    let total: usize = 4 * width * width;
    let camera_state = Camera {
        camera_zoom: 600_000,
        camera_x: 3_000_000,
        camera_y: 1_000_000,
        velocity_x: 50_000_000,
        velocity_y: 50_000_000,
        velocity_zoom: 50_000_000,
    };
    let mut queue: WorkQueue<WorkData> = WorkQueue::new();
    create_works(&mut queue, camera_state, total, 4);
    let mut jobs: Vec<WorkData> = Vec::new();
    while let Some(item) = queue.get_work() {
        jobs.push(item);
    }
    assert_eq!(jobs.len(), 4);
    jobs.reverse();
    let mut frame: Vec<u8> = vec![7; total];
    for item in &jobs {
        let pixels = thread_work(*item, width);
        assert_eq!(pixels.len() as i64, item.size);
        mutate_frame_with_result(&mut frame, item, &pixels);
    }
    let whole = WorkData {
        start: 0,
        size: total as i64,
        camera_zoom: camera_state.camera_zoom,
        camera_x: camera_state.camera_x,
        camera_y: camera_state.camera_y,
    };
    let reference = thread_work(whole, width);
    assert_eq!(frame, reference);
}
