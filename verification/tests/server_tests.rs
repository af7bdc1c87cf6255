use render_farm_core::client::ClientState;
use render_farm_core::job::{Camera, JobRequest, Work};
use render_farm_core::server::Server;

fn camera() -> Camera {
    Camera {
        pos_x: 0,
        pos_y: 0,
        pos_z: 0,
        rot_x: 0,
        rot_y: 0,
        rot_z: 0,
        fov: 1_119_092_736, // 90.0 as bits
        focus: 1_065_353_216, // 1.0 as bits
        blur: 0,
    }
}

fn request(width: u64, height: u64) -> JobRequest {
    JobRequest {
        width,
        height,
        camera: camera(),
        scene: "cornell_box".to_string(),
        key: "0123".to_string(),
        render_mode: 0,
        batch_size: 64,
        trace_batch_size: 8,
    }
}

fn worker(s: &mut Server, addr: &str, now: u64) -> u64 {
    let id = s.register(addr.to_string(), now);
    assert!(s.set_state(id, ClientState::Worker));
    id
}

#[test]
fn new_server_is_empty() {
    let s = Server::new();
    assert!(s.peek_head().is_none());
    assert_eq!(s.snapshot().len(), 0);
    let plan = s.update_jobs();
    assert!(plan.job_id.is_none());
    assert!(plan.targets.is_empty());
    assert!(s.watchdog_tick(1_000_000).is_empty());
}

#[test]
fn register_assigns_sequential_ids() {
    let mut s = Server::new();
    assert_eq!(s.register("10.0.0.1:7000".to_string(), 0), 0);
    assert_eq!(s.register("10.0.0.2:7000".to_string(), 1), 1);
    assert_eq!(s.register("10.0.0.3:7000".to_string(), 2), 2);
    let snap = s.snapshot();
    assert_eq!(snap.len(), 3);
    assert_eq!(snap[0].addr, "10.0.0.1:7000");
    assert_eq!(snap[1].id, 1);
    assert_eq!(snap[2].state, ClientState::Fresh);
    assert!(snap[2].unfinished_business.is_empty());
}

#[test]
fn deregister_removes_only_the_named_client() {
    let mut s = Server::new();
    let a = s.register("10.0.0.1:7000".to_string(), 0);
    let b = s.register("10.0.0.2:7000".to_string(), 0);
    let c = s.register("10.0.0.3:7000".to_string(), 0);
    assert!(s.deregister(b));
    let snap = s.snapshot();
    assert_eq!(snap.len(), 2);
    assert_eq!(snap[0].id, a);
    assert_eq!(snap[1].id, c);
    assert!(!s.deregister(b));
    // the freed id is not reused
    assert_eq!(s.register("10.0.0.4:7000".to_string(), 0), 3);
}

#[test]
fn submitted_job_ids_strictly_increase() {
    let mut s = Server::new();
    let first = s.submit(request(100, 100));
    let second = s.submit(request(320, 200));
    let third = s.submit(request(64, 64));
    assert_eq!(first, 0);
    assert_eq!(second, 1);
    assert_eq!(third, 2);
    // the head stays the oldest job: strictly FIFO
    let head = s.peek_head().unwrap();
    assert_eq!(head.id, first);
    assert_eq!(head.width, 100);
    assert_eq!(head.scene, "cornell_box");
    assert!(head.work.is_empty());
}

#[test]
fn dispatch_targets_every_worker_exactly_once() {
    let mut s = Server::new();
    let a = worker(&mut s, "10.0.0.1:7000", 0);
    let fresh = s.register("10.0.0.2:7000".to_string(), 0);
    let c = worker(&mut s, "10.0.0.3:7000", 0);
    s.submit(request(100, 100));
    let plan = s.update_jobs();
    assert_eq!(plan.job_id, Some(0));
    assert_eq!(plan.targets, vec![a, c]);
    assert!(!plan.targets.contains(&fresh));
    // a client registered after the plan was taken is not in it
    let late = worker(&mut s, "10.0.0.4:7000", 0);
    assert!(!plan.targets.contains(&late));
    let newer = s.update_work();
    assert_eq!(newer.targets, vec![a, c, late]);
}

#[test]
fn non_worker_roles_receive_no_dispatch() {
    let mut s = Server::new();
    s.register("10.0.0.1:7000".to_string(), 0);
    s.register("10.0.0.2:7000".to_string(), 0);
    s.submit(request(100, 100));
    s.submit(request(200, 200));
    let plan = s.update_jobs();
    assert_eq!(plan.job_id, Some(0));
    assert!(plan.targets.is_empty());
    let plan = s.update_work();
    assert!(plan.targets.is_empty());
}

#[test]
fn empty_queue_dispatches_nothing() {
    let mut s = Server::new();
    worker(&mut s, "10.0.0.1:7000", 0);
    let plan = s.update_jobs();
    assert_eq!(plan.job_id, None);
    assert!(plan.targets.is_empty());
}

#[test]
fn one_cycle_two_workers_two_partitions() {
    // one job of 100x100 and two connected workers: after one metadata pass
    // and one work pass, the job's ledger holds two entries and each worker
    // holds one.
    let mut s = Server::new();
    let a = worker(&mut s, "10.0.0.1:7000", 0);
    let b = worker(&mut s, "10.0.0.2:7000", 0);
    s.submit(request(100, 100));

    let meta = s.update_jobs();
    assert_eq!(meta.job_id, Some(0));
    assert_eq!(meta.targets, vec![a, b]);

    let work = s.update_work();
    assert_eq!(work.targets, vec![a, b]);
    let w_a = Work { begin: 0, end: 5000, workers: 2 };
    let w_b = Work { begin: 5000, end: 10000, workers: 2 };
    assert!(s.record_work(a, w_a));
    assert!(s.record_work(b, w_b));

    let head = s.peek_head().unwrap();
    assert_eq!(head.work.len(), 2);
    assert_eq!(head.work[0], w_a);
    assert_eq!(head.work[1], w_b);
    let snap = s.snapshot();
    assert_eq!(snap[0].unfinished_business, vec![w_a]);
    assert_eq!(snap[1].unfinished_business, vec![w_b]);
}

#[test]
fn update_work_twice_appends_two_distinct_partitions() {
    let mut s = Server::new();
    let a = worker(&mut s, "10.0.0.1:7000", 0);
    s.submit(request(100, 100));
    let w1 = Work { begin: 0, end: 2500, workers: 1 };
    let w2 = Work { begin: 2500, end: 5000, workers: 1 };
    assert_eq!(s.update_work().targets, vec![a]);
    assert!(s.record_work(a, w1));
    assert_eq!(s.update_work().targets, vec![a]);
    assert!(s.record_work(a, w2));
    let head = s.peek_head().unwrap();
    assert_eq!(head.work.len(), 2);
    assert_ne!(head.work[0], head.work[1]);
    // the two ranges do not overlap
    assert!(head.work[0].end <= head.work[1].begin);
    assert_eq!(s.snapshot()[0].unfinished_business, vec![w1, w2]);
}

#[test]
fn record_work_without_job_or_client_records_nothing() {
    let mut s = Server::new();
    let w = Work { begin: 0, end: 10, workers: 1 };
    // no job queued
    let a = worker(&mut s, "10.0.0.1:7000", 0);
    assert!(!s.record_work(a, w));
    assert!(s.snapshot()[0].unfinished_business.is_empty());
    // job queued but unknown client
    s.submit(request(100, 100));
    assert!(!s.record_work(99, w));
    assert!(s.peek_head().unwrap().work.is_empty());
}

#[test]
fn watchdog_never_evicts_clients_without_work() {
    let mut s = Server::new();
    worker(&mut s, "10.0.0.1:7000", 0);
    s.register("10.0.0.2:7000".to_string(), 0);
    // silent far past the timeout, but nothing outstanding: left untouched
    assert!(s.watchdog_tick(1_000_000).is_empty());
}

#[test]
fn watchdog_evicts_exactly_the_silent_holders_of_work() {
    let mut s = Server::new();
    let a = worker(&mut s, "10.0.0.1:7000", 0);
    let b = worker(&mut s, "10.0.0.2:7000", 0);
    s.submit(request(100, 100));
    assert!(s.record_work(a, Work { begin: 0, end: 100, workers: 2 }));
    assert!(s.record_work(b, Work { begin: 100, end: 200, workers: 2 }));
    // before the deadline neither is evicted
    assert!(s.watchdog_tick(299).is_empty());
    // b stays active at second 250, a stays silent
    assert!(s.touch(b, 250));
    // at second 301 only a has been silent for >= 300 seconds
    assert_eq!(s.watchdog_tick(301), vec![a]);
    // b is evaluated on schedule from its new activity time
    assert!(!s.watchdog_tick(549).contains(&b));
    assert!(s.watchdog_tick(550).contains(&b));
}

#[test]
fn watchdog_deadline_is_inclusive() {
    let mut s = Server::new();
    let a = worker(&mut s, "10.0.0.1:7000", 10);
    s.submit(request(100, 100));
    assert!(s.record_work(a, Work { begin: 0, end: 100, workers: 1 }));
    assert!(s.watchdog_tick(309).is_empty());
    assert_eq!(s.watchdog_tick(310), vec![a]);
}

#[test]
fn acknowledged_work_no_longer_counts_against_a_client() {
    let mut s = Server::new();
    let a = worker(&mut s, "10.0.0.1:7000", 0);
    s.submit(request(100, 100));
    let w = Work { begin: 0, end: 100, workers: 1 };
    assert!(s.record_work(a, w));
    assert_eq!(s.watchdog_tick(301), vec![a]);
    assert!(s.acknowledge_work(a, 0, 100));
    assert!(s.snapshot()[0].unfinished_business.is_empty());
    // with nothing outstanding the client is spared however late it is
    assert!(s.watchdog_tick(301).is_empty());
    // a second acknowledgment of the same range finds nothing
    assert!(!s.acknowledge_work(a, 0, 100));
}

#[test]
fn handler_updates_hit_only_their_client() {
    let mut s = Server::new();
    let a = s.register("10.0.0.1:7000".to_string(), 5);
    let b = s.register("10.0.0.2:7000".to_string(), 5);
    assert!(s.touch(a, 42));
    assert!(s.set_state(b, ClientState::Worker));
    let snap = s.snapshot();
    assert_eq!(snap[0].last_update, 42);
    assert_eq!(snap[0].state, ClientState::Fresh);
    assert_eq!(snap[1].last_update, 5);
    assert_eq!(snap[1].state, ClientState::Worker);
    // unknown ids change nothing and say so
    assert!(!s.touch(7, 100));
    assert!(!s.set_state(7, ClientState::Worker));
}
