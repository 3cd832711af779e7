use glorious::FrameLimiter;

const MS: u64 = 1_000_000;

#[test]
fn a_frame_lasts_the_whole_nanoseconds_of_its_share_of_a_second() {
    let limiter = FrameLimiter::new(60, 0);
    assert_eq!(limiter.limit(0), 16_666_666);
    let limiter = FrameLimiter::new(1, 0);
    assert_eq!(limiter.limit(0), 1_000_000_000);
    let limiter = FrameLimiter::new(u32::MAX, 0);
    assert_eq!(limiter.limit(0), 0);
    let limiter = FrameLimiter::new(1_000_000_000, 0);
    assert_eq!(limiter.limit(0), 1);
}

#[test]
fn a_short_frame_pauses_for_the_rest() {
    let mut limiter = FrameLimiter::new(100, 0);
    limiter.reset(5 * MS);
    let work_ends = 7 * MS;
    let pause = limiter.limit(work_ends);
    assert_eq!(pause, 8 * MS);
    let returned = work_ends + pause;
    limiter.reset(returned);
    let work_ends = returned + 2 * MS;
    let pause = limiter.limit(work_ends);
    assert_eq!(pause, 8 * MS);
    assert_eq!(work_ends + pause - returned, 10 * MS);
}

#[test]
fn a_long_frame_does_not_pause_and_is_not_made_up_for() {
    let mut limiter = FrameLimiter::new(100, 0);
    limiter.reset(0);
    let pause = limiter.limit(20 * MS);
    assert_eq!(pause, 0);
    limiter.reset(20 * MS);
    assert_eq!(limiter.limit(22 * MS), 8 * MS);
}

#[test]
fn a_frame_that_takes_its_whole_length_does_not_pause() {
    let mut limiter = FrameLimiter::new(100, 0);
    limiter.reset(MS);
    assert_eq!(limiter.limit(11 * MS), 0);
    assert_eq!(limiter.limit(11 * MS - 1), 1);
}

#[test]
fn a_clock_that_reads_less_counts_as_no_time_passed() {
    let mut limiter = FrameLimiter::new(100, 0);
    limiter.reset(50 * MS);
    assert_eq!(limiter.limit(40 * MS), 10 * MS);
}

#[test]
fn limit_does_not_begin_a_frame() {
    let mut limiter = FrameLimiter::new(100, 0);
    limiter.reset(0);
    assert_eq!(limiter.limit(4 * MS), 6 * MS);
    assert_eq!(limiter.limit(4 * MS), 6 * MS);
    assert_eq!(limiter.limit(9 * MS), MS);
}

#[test]
fn a_new_limiter_begins_its_frame_when_it_is_made() {
    let limiter = FrameLimiter::new(100, 0);
    assert_eq!(limiter.limit(3 * MS), 7 * MS);
    assert_eq!(limiter.limit(u64::MAX), 0);
    let limiter = FrameLimiter::new(100, 40 * MS);
    assert_eq!(limiter.limit(43 * MS), 7 * MS);
    assert_eq!(limiter.limit(50 * MS), 0);
}
