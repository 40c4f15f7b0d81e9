use std::cell::Cell;

use android_native_surface::error::RenderError;
use android_native_surface::pool::{create_with_fallback, ContextPool};

fn made(ctx: u32, config: &'static str) -> impl FnOnce() -> Result<(u32, &'static str), RenderError> {
    move || Ok((ctx, config))
}

fn never() -> impl FnOnce() -> Result<(u32, &'static str), RenderError> {
    || panic!("the context exists already")
}

#[test]
fn first_checkout_creates_the_context() {
    let mut pool: ContextPool<u32, &'static str> = ContextPool::new();
    assert_eq!(pool.checkout(2, made(7, "rgbx")), Ok(7));
    assert!(pool.is_checked_out(2));
    assert!(!pool.is_parked(2));
    assert_eq!(pool.config(2), Some(&"rgbx"));
    assert_eq!(pool.park(2, 7), Ok(()));
    assert!(pool.is_parked(2));
    assert_eq!(pool.checkout(2, never()), Ok(7));
}

#[test]
fn second_checkout_is_refused() {
    let mut pool: ContextPool<u32, &'static str> = ContextPool::new();
    assert_eq!(pool.checkout(1, made(3, "rgba")), Ok(3));
    assert_eq!(pool.checkout(1, never()), Err(RenderError::AlreadyCheckedOut));
    assert!(pool.is_checked_out(1));
}

#[test]
fn park_without_checkout_hands_the_context_back() {
    let mut pool: ContextPool<u32, &'static str> = ContextPool::new();
    assert_eq!(pool.park(4, 9), Err(9));
    assert_eq!(pool.config(4), None);
    assert_eq!(pool.checkout(4, made(1, "565")), Ok(1));
    assert_eq!(pool.park(4, 1), Ok(()));
    assert_eq!(pool.park(4, 2), Err(2));
    assert_eq!(pool.checkout(4, never()), Ok(1));
}

#[test]
fn failed_creation_leaves_the_pool_unchanged() {
    let mut pool: ContextPool<u32, &'static str> = ContextPool::new();
    let failing = || -> Result<(u32, &'static str), RenderError> { Err(RenderError::NoMatchingConfiguration) };
    assert_eq!(pool.checkout(22, failing), Err(RenderError::NoMatchingConfiguration));
    assert!(!pool.is_parked(22));
    assert!(!pool.is_checked_out(22));
    assert_eq!(pool.config(22), None);
}

#[test]
fn interleaved_formats_end_parked() {
    let mut pool: ContextPool<u32, &'static str> = ContextPool::new();
    let formats = [1, 2, 3];
    for round in 0..4u32 {
        let a = pool.checkout(1, made(10, "a")).unwrap();
        let b = pool.checkout(2, made(20, "b")).unwrap();
        assert_eq!(pool.checkout(1, never()), Err(RenderError::AlreadyCheckedOut));
        assert_eq!(pool.park(1, a), Ok(()));
        let c = pool.checkout(3, made(30 + round, "c")).unwrap();
        assert_eq!(pool.park(2, b), Ok(()));
        assert_eq!(pool.park(3, c), Ok(()));
    }
    for f in formats {
        assert!(pool.is_parked(f));
        assert!(!pool.is_checked_out(f));
    }
    assert_eq!(pool.checkout(3, never()), Ok(30));
}

#[test]
fn primary_profile_is_used_first() {
    let fallback_calls = Cell::new(0);
    let r = create_with_fallback(
        || -> Result<u32, &'static str> { Ok(1) },
        || {
            fallback_calls.set(fallback_calls.get() + 1);
            Ok(2)
        },
    );
    assert_eq!(r, Ok(1));
    assert_eq!(fallback_calls.get(), 0);
}

#[test]
fn fallback_profile_after_primary_failure() {
    let r = create_with_fallback(|| -> Result<u32, &'static str> { Err("core") }, || Ok(2));
    assert_eq!(r, Ok(2));
}

#[test]
fn both_profiles_failing_fails_creation() {
    let r = create_with_fallback(|| -> Result<u32, &'static str> { Err("core") }, || Err("gles"));
    assert_eq!(r, Err(RenderError::ContextCreationFailed));
}
