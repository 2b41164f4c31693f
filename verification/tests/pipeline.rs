use mandelbrot_tiles::camera::Camera;
use mandelbrot_tiles::sync_flags::new_syncflag;
use mandelbrot_tiles::work::create_works;
use mandelbrot_tiles::work::worker_decide;
use mandelbrot_tiles::work::WorkData;
use mandelbrot_tiles::work::WorkQueue;
use mandelbrot_tiles::work::WorkerAction;

fn job(start: i64, size: i64) -> WorkData {
    WorkData { start, size, camera_zoom: 600_000, camera_x: 0, camera_y: 0 }
}

#[test]
fn add_then_get_returns_same_item() {
    let mut queue: WorkQueue<WorkData> = WorkQueue::new();
    assert!(queue.get_work().is_none());
    let item = job(0, 64);
    assert_eq!(queue.add_work(item), 1);
    assert_eq!(queue.get_work(), Some(item));
    assert!(queue.get_work().is_none());
}

#[test]
fn get_work_is_fifo() {
    let mut queue: WorkQueue<WorkData> = WorkQueue::new();
    let first = job(0, 64);
    let second = job(64, 64);
    let third = job(128, 64);
    assert_eq!(queue.add_work(first), 1);
    assert_eq!(queue.add_work(second), 2);
    assert_eq!(queue.add_work(third), 3);
    assert_eq!(queue.get_work(), Some(first));
    assert_eq!(queue.get_work(), Some(second));
    assert_eq!(queue.get_work(), Some(third));
    assert!(queue.get_work().is_none());
}

#[test]
fn interleaved_producers_lose_and_duplicate_nothing() {
    // Three producers each adding four items, interleaved: exactly twelve
    // successful dequeues, every item exactly once, then empty.
    let mut queue: WorkQueue<WorkData> = WorkQueue::new();
    let mut expected: Vec<i64> = Vec::new();
    for round in 0..4i64 {
        for producer in 0..3i64 {
            let start = (producer * 4 + round) * 64;
            queue.add_work(job(start, 64));
            expected.push(start);
        }
    }
    let mut seen: Vec<i64> = Vec::new();
    while let Some(item) = queue.get_work() {
        seen.push(item.start);
    }
    assert_eq!(seen.len(), 12);
    let mut sorted_seen = seen.clone();
    sorted_seen.sort();
    sorted_seen.dedup();
    assert_eq!(sorted_seen.len(), 12);
    let mut sorted_expected = expected;
    sorted_expected.sort();
    assert_eq!(sorted_seen, sorted_expected);
    assert!(queue.get_work().is_none());
}

#[test]
fn create_works_partitions_framebuffer() {
    let mut queue: WorkQueue<WorkData> = WorkQueue::new();
    let camera_state = Camera {
        camera_zoom: 600_000,
        camera_x: 200_000_000,
        camera_y: 0,
        velocity_x: 50_000_000,
        velocity_y: 50_000_000,
        velocity_zoom: 50_000_000,
    };
    create_works(&mut queue, camera_state, 2_560_000, 8);
    let mut end: i64 = 0;
    for index in 0..8i64 {
        let item = queue.get_work().expect("eight tiles were enqueued");
        assert_eq!(item.start, index * 320_000);
        assert_eq!(item.size, 320_000);
        assert_eq!(item.size % 4, 0);
        assert_eq!(item.start, end);
        end = item.start + item.size;
        assert_eq!(item.camera_zoom, 600_000);
        assert_eq!(item.camera_x, 200_000_000);
        assert_eq!(item.camera_y, 0);
    }
    assert_eq!(end, 2_560_000);
    assert!(queue.get_work().is_none());
}

#[test]
fn create_works_appends_behind_pending_jobs() {
    // Re-tiling does not clear jobs still pending from an older viewport.
    let mut queue: WorkQueue<WorkData> = WorkQueue::new();
    let stale = job(0, 4);
    queue.add_work(stale);
    create_works(&mut queue, Camera::new(), 256, 4);
    assert_eq!(queue.get_work(), Some(stale));
    let first_new = queue.get_work().expect("four tiles follow the stale job");
    assert_eq!(first_new.start, 0);
    assert_eq!(first_new.size, 64);
}

#[test]
fn worker_finishes_when_flag_cleared() {
    // Shutdown: with the flag read false the worker finishes unconditionally,
    // job or no job.
    assert_eq!(worker_decide(false, None), WorkerAction::Finish);
    assert_eq!(worker_decide(false, Some(job(0, 64))), WorkerAction::Finish);
}

#[test]
fn worker_computes_or_idles_while_flag_set() {
    let item = job(64, 64);
    assert_eq!(worker_decide(true, Some(item)), WorkerAction::Compute(item));
    assert_eq!(worker_decide(true, None), WorkerAction::Idle);
}

#[test]
fn sync_flag_set_is_seen_by_every_receiver() {
    let (mut sender, receiver) = new_syncflag(true);
    let other = receiver.clone();
    assert_eq!(receiver.get(), Ok(true));
    assert_eq!(sender.set(false), Ok(()));
    assert_eq!(receiver.get(), Ok(false));
    assert_eq!(other.get(), Ok(false));
    assert_eq!(sender.set(true), Ok(()));
    assert_eq!(other.get(), Ok(true));
}

#[test]
fn camera_starts_at_documented_viewport() {
    let camera = Camera::new();
    assert_eq!(camera.camera_zoom, 200_000_000);
    assert_eq!(camera.camera_x, 100_000_000);
    assert_eq!(camera.camera_y, 50_000_000);
    assert_eq!(camera.velocity_x, 50_000_000);
    assert_eq!(camera.velocity_y, 50_000_000);
    assert_eq!(camera.velocity_zoom, 50_000_000);
}

#[test]
fn camera_moves_by_one_velocity_step() {
    let mut camera = Camera::new();
    camera.go_up();
    assert_eq!(camera.camera_y, 0);
    camera.go_down();
    camera.go_down();
    assert_eq!(camera.camera_y, 100_000_000);
    camera.go_left();
    assert_eq!(camera.camera_x, 50_000_000);
    camera.go_right();
    camera.go_right();
    assert_eq!(camera.camera_x, 150_000_000);
    camera.zoom_in();
    assert_eq!(camera.camera_zoom, 250_000_000);
    camera.zoom_out();
    camera.zoom_out();
    assert_eq!(camera.camera_zoom, 150_000_000);
    let snapshot = camera.get_state();
    assert_eq!(snapshot, camera);
}
