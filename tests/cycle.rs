use std::cell::RefCell;

use android_native_surface::cycle::{render_cycle, Phase, Stage};
use android_native_surface::error::RenderError;
use android_native_surface::pool::ContextPool;

fn parked_pool() -> ContextPool<u32, &'static str> {
    let mut pool = ContextPool::new();
    let c = pool.checkout(2, || Ok((5u32, "rgbx"))).unwrap();
    pool.park(2, c).unwrap();
    pool
}

fn no_create() -> Result<(u32, &'static str), RenderError> {
    panic!("the context exists already")
}

fn run(pool: &mut ContextPool<u32, &'static str>, failing: Option<Stage>) -> (Result<(), RenderError>, Vec<Stage>) {
    let log = RefCell::new(Vec::new());
    let r = render_cycle(pool, 2, no_create, |ctx: &u32, s: Stage| {
        assert_eq!(*ctx, 5);
        log.borrow_mut().push(s);
        Some(s) != failing
    });
    (r, log.into_inner())
}

#[test]
fn successful_frame_runs_every_stage_in_order() {
    let mut pool = parked_pool();
    let (r, log) = run(&mut pool, None);
    assert_eq!(r, Ok(()));
    assert_eq!(log, vec![Stage::Bind, Stage::Resize, Stage::Draw, Stage::Present, Stage::Unbind]);
    assert!(pool.is_parked(2));
}

#[test]
fn draw_failure_still_parks_the_context() {
    let mut pool = parked_pool();
    let (r, log) = run(&mut pool, Some(Stage::Draw));
    assert_eq!(r, Err(RenderError::DrawFailed));
    assert_eq!(log, vec![Stage::Bind, Stage::Resize, Stage::Draw, Stage::Unbind]);
    assert!(pool.is_parked(2));
    assert!(!pool.is_checked_out(2));
    assert_eq!(pool.config(2), Some(&"rgbx"));
    assert_eq!(pool.checkout(2, no_create), Ok(5));
}

#[test]
fn bind_failure_parks_before_propagating() {
    let mut pool = parked_pool();
    let (r, log) = run(&mut pool, Some(Stage::Bind));
    assert_eq!(r, Err(RenderError::BindFailed));
    assert_eq!(log, vec![Stage::Bind, Stage::Unbind]);
    assert!(pool.is_parked(2));
}

#[test]
fn resize_and_present_failures_are_reported() {
    let mut pool = parked_pool();
    assert_eq!(run(&mut pool, Some(Stage::Resize)).0, Err(RenderError::ResizeFailed));
    assert_eq!(run(&mut pool, Some(Stage::Present)).0, Err(RenderError::PresentFailed));
    assert_eq!(run(&mut pool, Some(Stage::Unbind)).0, Err(RenderError::UnbindFailed));
    assert!(pool.is_parked(2));
}

#[test]
fn reentrant_render_is_refused_before_binding() {
    let mut pool = parked_pool();
    let held = pool.checkout(2, no_create).unwrap();
    let (r, log) = run(&mut pool, None);
    assert_eq!(r, Err(RenderError::AlreadyCheckedOut));
    assert!(log.is_empty());
    assert!(pool.is_checked_out(2));
    assert_eq!(pool.park(2, held), Ok(()));
}

#[test]
fn first_frame_creates_the_context() {
    let mut pool: ContextPool<u32, &'static str> = ContextPool::new();
    let r = render_cycle(&mut pool, 4, || Ok((8u32, "565")), |_: &u32, _: Stage| true);
    assert_eq!(r, Ok(()));
    assert!(pool.is_parked(4));
    assert_eq!(pool.config(4), Some(&"565"));
}

#[test]
fn configuration_errors_end_the_frame_before_binding() {
    let mut pool: ContextPool<u32, &'static str> = ContextPool::new();
    let log = RefCell::new(Vec::new());
    let r = render_cycle(
        &mut pool,
        33,
        || Err(RenderError::UnsupportedFormat),
        |_: &u32, s: Stage| {
            log.borrow_mut().push(s);
            true
        },
    );
    assert_eq!(r, Err(RenderError::UnsupportedFormat));
    assert!(log.borrow().is_empty());
    assert!(!pool.is_parked(33));
    assert!(!pool.is_checked_out(33));
}

#[test]
fn phases_advance_one_stage_at_a_time() {
    let mut p = Phase::Idle;
    let mut stages = Vec::new();
    while p.in_progress() {
        stages.push(p.next_stage());
        p = p.advance(true);
    }
    assert_eq!(p, Phase::Presented);
    assert_eq!(stages, vec![Stage::Bind, Stage::Resize, Stage::Draw, Stage::Present]);
    assert_eq!(p.next_stage(), Stage::Unbind);
    assert_eq!(p.advance(true), Phase::Idle);
    assert_eq!(Phase::Presented.advance(false), Phase::Idle);
}

#[test]
fn any_failure_goes_straight_to_release() {
    assert_eq!(Phase::Idle.advance(false), Phase::Failed(RenderError::BindFailed));
    assert_eq!(Phase::ContextBound.advance(false), Phase::Failed(RenderError::ResizeFailed));
    assert_eq!(Phase::Resized.advance(false), Phase::Failed(RenderError::DrawFailed));
    assert_eq!(Phase::Drawn.advance(false), Phase::Failed(RenderError::PresentFailed));
    let failed = Phase::Failed(RenderError::DrawFailed);
    assert!(!failed.in_progress());
    assert_eq!(failed.next_stage(), Stage::Unbind);
    assert_eq!(failed.advance(false), Phase::Idle);
}
