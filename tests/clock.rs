use cg_final::clock::Clock;

fn wait_millis(ms: u64) {
    let start = std::time::Instant::now();
    while start.elapsed() < std::time::Duration::from_millis(ms) {}
}

#[test]
fn new_clock_is_at_zero() {
    let c = Clock::new();
    assert_eq!(c.time(), 0);
    assert_eq!(c.delta_time(), 0);
    let d = Clock::default();
    assert_eq!(d.time(), 0);
}

#[test]
fn advance_records_delta() {
    let mut c = Clock::new();
    c.advance(100);
    assert_eq!(c.time(), 100);
    assert_eq!(c.delta_time(), 100);
    c.advance(250);
    assert_eq!(c.time(), 250);
    assert_eq!(c.delta_time(), 150);
    c.advance(250);
    assert_eq!(c.delta_time(), 0);
}

#[test]
fn advance_never_runs_backwards() {
    let mut c = Clock::new();
    c.advance(500);
    c.advance(300);
    assert_eq!(c.time(), 500);
    assert_eq!(c.delta_time(), 0);
}

#[test]
fn advance_at_largest_time() {
    let mut c = Clock::new();
    c.advance(u64::MAX);
    assert_eq!(c.time(), u64::MAX);
    assert_eq!(c.delta_time(), u64::MAX);
}

#[test]
fn update_reads_elapsed_time() {
    let mut c = Clock::new();
    wait_millis(3);
    c.update();
    let t1 = c.time();
    assert!(t1 >= 3_000_000);
    wait_millis(3);
    c.update();
    assert!(c.time() >= t1 + 3_000_000);
    assert_eq!(c.delta_time(), c.time() - t1);
}

#[test]
fn equal_ticks_add_up_like_one_long_tick() {
    let dt: u64 = 16_666_667;
    let n: u64 = 6;
    let mut many = Clock::new();
    let mut total: u64 = 0;
    for k in 1..=n {
        many.advance(k * dt);
        assert_eq!(many.delta_time(), dt);
        total += many.delta_time();
    }
    let mut one = Clock::new();
    one.advance(n * dt);
    assert_eq!(total, n * dt);
    assert_eq!(one.delta_time(), total);
    assert_eq!(many.time(), one.time());
}
