use lading::throttle::Config;
use lading::throttle::Decision;
use lading::throttle::Error;
use lading::throttle::Throttle;
use lading::throttle::TICKS_PER_SECOND;

fn throttle(rate: u32, burst: Option<u32>) -> Throttle {
    Throttle::new_with_config(Config { max_burst: burst }, rate, 0).unwrap()
}

#[test]
fn zero_capacity_fails() {
    let r = Throttle::new_with_config(Config::default(), 0, 0);
    assert_eq!(r.err(), Some(Error::ZeroCapacity));
}

#[test]
fn zero_burst_fails() {
    let r = Throttle::new_with_config(Config { max_burst: Some(0) }, 10, 0);
    assert_eq!(r.err(), Some(Error::ZeroBurst));
}

#[test]
fn burst_defaults_to_one_second() {
    let t = throttle(1000, None);
    assert_eq!(t.rate(), 1000);
    assert_eq!(t.burst(), 1000);
    assert_eq!(t.available(), 0);
    let t = throttle(1000, Some(50));
    assert_eq!(t.burst(), 50);
}

#[test]
fn request_above_burst_fails_and_changes_nothing() {
    let mut t = throttle(1000, Some(100));
    assert_eq!(t.request(101, 5 * TICKS_PER_SECOND), Err(Error::RequestExceedsBurst));
    assert_eq!(t.available(), 0);
    // The clock was not moved either: a second later the bucket is full.
    assert_eq!(t.request(100, 5 * TICKS_PER_SECOND), Ok(Decision::Granted));
}

#[test]
fn empty_bucket_tells_how_long_to_wait() {
    let mut t = throttle(1000, None);
    // 250 bytes at 1000 bytes a second take a quarter of a second.
    assert_eq!(t.request(250, 0), Ok(Decision::Wait(250_000)));
    // One tick early is too early.
    assert_eq!(t.request(250, 249_999), Ok(Decision::Wait(1)));
    assert_eq!(t.request(250, 250_000), Ok(Decision::Granted));
    assert_eq!(t.available(), 0);
}

#[test]
fn wait_rounds_up() {
    let mut t = throttle(3, None);
    // One byte at three bytes a second: a third of a second, rounded up.
    assert_eq!(t.request(1, 0), Ok(Decision::Wait(333_334)));
    assert_eq!(t.request(1, 333_333), Ok(Decision::Wait(1)));
    assert_eq!(t.request(1, 333_334), Ok(Decision::Granted));
}

#[test]
fn fractions_are_kept() {
    let mut t = throttle(3, None);
    // Three looks within a second yield three bytes in all.
    assert_eq!(t.request(1, 400_000), Ok(Decision::Granted));
    assert_eq!(t.request(1, 700_000), Ok(Decision::Granted));
    assert_eq!(t.request(1, 1_000_000), Ok(Decision::Granted));
    assert_eq!(t.request(1, 1_000_000), Ok(Decision::Wait(333_334)));
}

#[test]
fn bucket_saturates_at_burst() {
    let mut t = throttle(1000, Some(100));
    // An hour of idling banks no more than the burst.
    assert_eq!(t.request(100, 3600 * TICKS_PER_SECOND), Ok(Decision::Granted));
    assert_eq!(t.available(), 0);
    assert_eq!(t.request(1, 3600 * TICKS_PER_SECOND), Ok(Decision::Wait(1_000)));
}

#[test]
fn clock_that_goes_back_adds_nothing() {
    let mut t = throttle(1000, None);
    assert_eq!(t.request(500, 1_000_000), Ok(Decision::Granted));
    assert_eq!(t.available(), 500);
    assert_eq!(t.request(500, 0), Ok(Decision::Granted));
    assert_eq!(t.request(1, 500_000), Ok(Decision::Wait(1_000)));
}

#[test]
fn abandoned_wait_takes_nothing() {
    let mut asked = throttle(1000, None);
    let mut idle = throttle(1000, None);
    // One throttle is asked in vain, the other is left alone.
    assert_eq!(asked.request(900, 300_000), Ok(Decision::Wait(600_000)));
    // Later both grant the same.
    assert_eq!(asked.request(800, 800_000), Ok(Decision::Granted));
    assert_eq!(idle.request(800, 800_000), Ok(Decision::Granted));
    assert_eq!(asked.available(), idle.available());
    assert_eq!(asked.available(), 0);
}

#[test]
fn rate_ceiling_over_a_window() {
    let rate: u32 = 1_000;
    let burst: u32 = 300;
    let mut t = throttle(rate, Some(burst));
    let mut charged: u64 = 0;
    let mut now: u64 = 0;
    // Ask for 70 bytes every 10 ms for three seconds.
    while now <= 3 * TICKS_PER_SECOND {
        if t.request(70, now) == Ok(Decision::Granted) {
            charged += 70;
        }
        now += 10_000;
    }
    let window_seconds: u64 = 3;
    assert!(charged <= u64::from(rate) * window_seconds + u64::from(burst));
    // The throttle does not starve the caller either.
    assert!(charged >= u64::from(rate) * window_seconds - 70);
}
