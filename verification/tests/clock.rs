use moonfire_db::clock::{retry_step, Duration, Retry, SimulatedClocks, Timespec};

#[test]
fn simulated_clocks_advance_on_sleep() {
    let mut c = SimulatedClocks::new(Timespec::new(1_500_000_000, 999_999_999));
    assert_eq!(c.monotonic(), Timespec::new(0, 0));
    assert_eq!(c.realtime(), Timespec::new(1_500_000_000, 999_999_999));
    c.sleep(Duration { secs: 1, nanos: 1 });
    assert_eq!(c.monotonic(), Timespec::new(1, 1));
    assert_eq!(c.realtime(), Timespec::new(1_500_000_002, 0));
    c.sleep(Duration { secs: 0, nanos: 999_999_999 });
    assert_eq!(c.monotonic(), Timespec::new(2, 0));
}

#[test]
fn simulated_clocks_advance_on_empty_receive() {
    let mut c = SimulatedClocks::new(Timespec::new(0, 0));
    let got: Result<u8, ()> = c.recv_timeout(Ok(5), Duration::seconds(10));
    assert_eq!(got, Ok(5));
    assert_eq!(c.monotonic(), Timespec::new(0, 0));
    let got: Result<u8, ()> = c.recv_timeout(Err(()), Duration::seconds(10));
    assert_eq!(got, Err(()));
    assert_eq!(c.monotonic(), Timespec::new(10, 0));
}

#[test]
fn retry_sleeps_one_second() {
    let ok: Result<u8, &str> = Ok(3);
    assert!(matches!(retry_step(ok), Retry::Done(3)));
    let failed: Result<u8, &str> = Err("no");
    match retry_step(failed) {
        Retry::SleepThenRetry(d) => assert_eq!(d, Duration { secs: 1, nanos: 0 }),
        Retry::Done(_) => panic!("a failure is no success"),
    }
}

#[test]
fn time_arithmetic() {
    let t = Timespec::new(5, 900_000_000);
    assert_eq!(t.plus(Duration { secs: 1, nanos: 200_000_000 }), Timespec::new(7, 100_000_000));
    assert_eq!(t.plus(Duration { secs: -6, nanos: 0 }), Timespec::new(-1, 900_000_000));
    assert_eq!(Timespec::new(7, 100_000_000).since(t), Duration { secs: 1, nanos: 200_000_000 });
    assert_eq!(t.since(Timespec::new(7, 100_000_000)), Duration { secs: -2, nanos: 800_000_000 });
    assert!(t.since(Timespec::new(7, 100_000_000)).is_negative());
    assert!(Timespec::new(7, 0).is_after(t));
    assert!(!t.is_after(t));
    assert!(Timespec::new(5, 900_000_001).is_after(t));
    assert_eq!(Duration::minutes(2), Duration { secs: 120, nanos: 0 });
    assert_eq!(Duration::from_90k(90_000), Duration { secs: 1, nanos: 0 });
    assert_eq!(Duration::from_90k(1), Duration { secs: 0, nanos: 11_111 });
    assert_eq!(Duration::from_90k(135_001), Duration { secs: 1, nanos: 500_011_111 });
    assert_eq!(
        Duration::seconds(3).minus(Duration { secs: 1, nanos: 1 }),
        Duration { secs: 1, nanos: 999_999_999 }
    );
    assert_eq!(
        Duration { secs: 1, nanos: 999_999_999 }.plus(Duration { secs: 0, nanos: 1 }),
        Duration::seconds(2)
    );
}
