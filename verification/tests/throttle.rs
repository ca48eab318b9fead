use novamind::throttle::{
    check_rate_limit_and_blacklist, Ban, Blacklist, Hits, RateLimiter, RequestThrottle,
};

const SECOND: u128 = 1_000_000_000;

#[test]
fn first_request_of_a_host_is_refused() {
    let mut t = RequestThrottle::new();
    assert!(!t.let_in("10.0.0.1", 2, 0));
    assert_eq!(t.window_count(), 1);
    assert_eq!(t.ban_count(), 0);
}

#[test]
fn first_request_without_a_limit_is_let_in() {
    let mut t = RequestThrottle::new();
    assert!(t.let_in("10.0.0.1", 0, 0));
}

#[test]
fn request_after_the_limit_is_let_in() {
    let mut t = RequestThrottle::new();
    assert!(!t.let_in("10.0.0.1", 2, 0));
    assert!(!t.let_in("10.0.0.1", 2, 2 * SECOND - 1));
    assert!(t.let_in("10.0.0.1", 2, 2 * SECOND));
}

#[test]
fn admissions_are_spaced() {
    let mut t = RequestThrottle::new();
    assert!(!t.let_in("10.0.0.1", 2, 0));
    assert!(t.let_in("10.0.0.1", 2, 5 * SECOND));
    assert!(!t.let_in("10.0.0.1", 2, 6 * SECOND));
    assert!(!t.let_in("10.0.0.2", 2, 6 * SECOND));
    assert!(!t.let_in("10.0.0.1", 2, 7 * SECOND - 1));
    assert!(t.let_in("10.0.0.1", 2, 7 * SECOND));
}

#[test]
fn forgotten_window_starts_anew() {
    let mut t = RequestThrottle::new();
    assert!(!t.let_in("10.0.0.1", 1, 0));
    assert!(t.let_in("10.0.0.1", 1, 59 * SECOND));
    assert!(!t.let_in("10.0.0.1", 1, 119 * SECOND));
    assert_eq!(t.window_count(), 1);
}

#[test]
fn sixth_request_in_a_window_brings_a_ban() {
    let mut t = RequestThrottle::new();
    for _ in 0..5 {
        assert!(!t.let_in("10.0.0.1", 2, SECOND));
        assert_eq!(t.ban_count(), 0);
    }
    assert!(!t.let_in("10.0.0.1", 2, SECOND));
    assert_eq!(t.ban_count(), 1);
    assert!(!t.let_in("10.0.0.1", 2, 30 * SECOND));
    assert!(!t.let_in("10.0.0.1", 0, 301 * SECOND - 1));
    assert_eq!(t.ban_count(), 1);
    assert!(t.let_in("10.0.0.1", 0, 301 * SECOND));
    assert_eq!(t.ban_count(), 0);
}

#[test]
fn count_after_an_admission_starts_at_one() {
    let mut t = RequestThrottle::new();
    assert!(t.let_in("10.0.0.1", 0, 0));
    for _ in 0..4 {
        assert!(!t.let_in("10.0.0.1", 2, SECOND));
    }
    assert_eq!(t.ban_count(), 0);
    assert!(!t.let_in("10.0.0.1", 2, SECOND));
    assert_eq!(t.ban_count(), 1);
}

#[test]
fn hosts_do_not_interfere() {
    let mut t = RequestThrottle::new();
    assert!(!t.let_in("10.0.0.2", 2, 0));
    for _ in 0..6 {
        assert!(!t.let_in("10.0.0.1", 2, SECOND));
    }
    assert!(t.let_in("10.0.0.2", 2, 2 * SECOND));
    assert_eq!(t.window_count(), 2);
    assert_eq!(t.ban_count(), 1);
}

#[test]
fn requests_of_a_banned_host_leave_the_windows_alone() {
    let mut t = RequestThrottle::new();
    for _ in 0..6 {
        assert!(!t.let_in("10.0.0.1", 2, 0));
    }
    assert!(!t.let_in("10.0.0.1", 2, 200 * SECOND));
    assert_eq!(t.window_count(), 1);
    assert!(!t.let_in("10.0.0.2", 2, 200 * SECOND));
    assert_eq!(t.window_count(), 1);
}

#[test]
fn request_is_judged_at_its_own_reading() {
    let mut t = RequestThrottle::new();
    assert!(!t.let_in("10.0.0.1", 2, 0));
    assert!(!t.let_in("10.0.0.2", 2, 2 * SECOND));
    assert!(!t.let_in("10.0.0.1", 2, 1_900_000_000));
    assert!(t.let_in("10.0.0.1", 2, 2 * SECOND));
    assert!(!t.let_in("10.0.0.1", 2, 0));
}

#[test]
fn counters_have_room_in_order() {
    let mut t = RequestThrottle::new();
    for i in 0..2000u128 {
        let now = i * SECOND / 10;
        assert!(t.counter_has_room("10.0.0.1", 2, now));
        t.let_in("10.0.0.1", 2, now);
    }
    assert!(t.counter_has_room("10.0.0.2", 2, 0));
}

#[test]
fn tables_show_what_a_check_notes() {
    let mut limiter = RateLimiter::new();
    let mut blacklist = Blacklist::new();
    limiter.insert("a", Hits { since: 0, count: 5 });
    limiter.insert("b", Hits { since: 0, count: 1 });
    blacklist.insert("c", Ban { since: 0 });
    assert!(!check_rate_limit_and_blacklist(&mut limiter, &mut blacklist, "a", 2, SECOND));
    let a = limiter.get("a").unwrap();
    assert_eq!((a.since, a.count), (0, 6));
    assert_eq!(blacklist.get("a").unwrap().since, SECOND);
    assert_eq!(limiter.len(), 2);
    assert_eq!(blacklist.len(), 2);
    assert!(!check_rate_limit_and_blacklist(&mut limiter, &mut blacklist, "d", 2, 300 * SECOND));
    assert_eq!(limiter.len(), 1);
    assert!(limiter.get("b").is_none());
    let d = limiter.get("d").unwrap();
    assert_eq!((d.since, d.count), (300 * SECOND, 1));
    assert!(blacklist.get("c").is_none());
    assert!(blacklist.get("a").is_some());
}

#[test]
fn check_at_an_earlier_time_counts_no_seconds() {
    let mut limiter = RateLimiter::new();
    let mut blacklist = Blacklist::new();
    limiter.insert("a", Hits { since: 10 * SECOND, count: 2 });
    assert!(!check_rate_limit_and_blacklist(&mut limiter, &mut blacklist, "a", 1, 0));
    let a = limiter.get("a").unwrap();
    assert_eq!((a.since, a.count), (10 * SECOND, 3));
}
