use sigint::sanitize::{RateLimiter, RATE_LIMIT_RF_PER_TILE, RATE_LIMIT_WIFI_PER_TILE};

#[test]
fn rate_limiter_allows_up_to_limit() {
    let mut rl = RateLimiter::new();
    for _ in 0..RATE_LIMIT_RF_PER_TILE {
        assert!(rl.allow_rf("dev", "tile", 60, "2400-2500"));
    }
    assert!(!rl.allow_rf("dev", "tile", 60, "2400-2500"));
}

#[test]
fn rate_limiter_resets_on_new_bucket() {
    let mut rl = RateLimiter::new();
    for _ in 0..RATE_LIMIT_RF_PER_TILE {
        rl.allow_rf("dev", "tile", 60, "2400-2500");
    }
    assert!(rl.allow_rf("dev", "tile", 120, "2400-2500"));
}

#[test]
fn rate_limiter_wifi_limit() {
    let mut rl = RateLimiter::new();
    for _ in 0..RATE_LIMIT_WIFI_PER_TILE {
        assert!(rl.allow_wifi("dev", "tile", 60, "2.4", 6));
    }
    assert!(!rl.allow_wifi("dev", "tile", 60, "2.4", 6));
    // Another channel has its own count.
    assert!(rl.allow_wifi("dev", "tile", 60, "2.4", 11));
}

#[test]
fn rate_limiter_keys_are_separate() {
    let mut rl = RateLimiter::new();
    for _ in 0..RATE_LIMIT_RF_PER_TILE {
        rl.allow_rf("dev", "tile", 60, "2400-2500");
    }
    assert!(rl.allow_rf("dev2", "tile", 60, "2400-2500"));
    assert!(rl.allow_rf("dev", "tile2", 60, "2400-2500"));
    assert!(rl.allow_rf("dev", "tile", 60, "5150-5850"));
}

#[test]
fn rate_limiter_refusal_changes_nothing() {
    let mut rl = RateLimiter::new();
    for _ in 0..RATE_LIMIT_RF_PER_TILE {
        rl.allow_rf("dev", "tile", 60, "band");
    }
    for _ in 0..5 {
        assert!(!rl.allow_rf("dev", "tile", 60, "band"));
    }
}

#[test]
fn limits_do_not_mix_tuples_that_join_alike() {
    let mut rl = RateLimiter::new();
    for _ in 0..20 {
        assert!(rl.allow_wifi("a:b", "c", 60, "2.4", 6));
    }
    assert!(!rl.allow_wifi("a:b", "c", 60, "2.4", 6));
    assert!(rl.allow_wifi("a", "b:c", 60, "2.4", 6));
    for _ in 0..200 {
        assert!(rl.allow_rf("n", "t:rf", 60, "x"));
    }
    assert!(rl.allow_rf("n:t", "rf", 60, "x"));
    assert!(!rl.allow_rf("n", "t:rf", 60, "x"));
}
