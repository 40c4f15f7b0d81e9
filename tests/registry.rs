use std::cell::Cell;

use android_native_surface::error::RenderError;
use android_native_surface::registry::{window_extent, SurfaceEntry, SurfaceRegistry};

fn entry(surface: u32, width: u32, height: u32) -> SurfaceEntry<u32> {
    SurfaceEntry { surface, width, height }
}

#[test]
fn get_or_create_caches_the_entry() {
    let mut reg: SurfaceRegistry<u32> = SurfaceRegistry::new();
    let creations = Cell::new(0);
    let make = || {
        creations.set(creations.get() + 1);
        Ok(entry(100 + creations.get(), 1080, 1920))
    };
    let first = reg.get_or_create(0xdead0, make).map(|e| (e.surface, e.width, e.height));
    assert_eq!(first, Ok((101, 1080, 1920)));
    let again = reg
        .get_or_create(0xdead0, || {
            creations.set(creations.get() + 1);
            Ok(entry(999, 1, 1))
        })
        .map(|e| (e.surface, e.width, e.height));
    assert_eq!(again, Ok((101, 1080, 1920)));
    assert_eq!(creations.get(), 1);
}

#[test]
fn remove_of_unknown_identity_is_an_error() {
    let mut reg: SurfaceRegistry<u32> = SurfaceRegistry::new();
    assert!(matches!(reg.remove(42), Err(RenderError::UnknownSurface)));
    assert!(reg.register(42, entry(1, 10, 10)).is_ok());
    assert!(matches!(reg.remove(42), Ok(SurfaceEntry { surface: 1, width: 10, height: 10 })));
    assert!(matches!(reg.remove(42), Err(RenderError::UnknownSurface)));
}

#[test]
fn remove_then_get_or_create_makes_a_fresh_entry() {
    let mut reg: SurfaceRegistry<u32> = SurfaceRegistry::new();
    assert_eq!(reg.get_or_create(7, || Ok(entry(1, 640, 480))).map(|e| e.surface), Ok(1));
    assert!(reg.contains(7));
    assert!(matches!(reg.remove(7), Ok(SurfaceEntry { surface: 1, .. })));
    assert!(!reg.contains(7));
    assert_eq!(reg.get_or_create(7, || Ok(entry(2, 800, 600))).map(|e| (e.surface, e.width)), Ok((2, 800)));
}

#[test]
fn failed_creation_registers_nothing() {
    let mut reg: SurfaceRegistry<u32> = SurfaceRegistry::new();
    let r = reg.get_or_create(5, || Err(RenderError::BindFailed)).map(|e| e.surface);
    assert_eq!(r, Err(RenderError::BindFailed));
    assert!(!reg.contains(5));
    assert!(reg.get(5).is_none());
}

#[test]
fn registering_twice_is_refused() {
    let mut reg: SurfaceRegistry<u32> = SurfaceRegistry::new();
    assert_eq!(reg.register(3, entry(1, 2, 3)), Ok(()));
    assert_eq!(reg.register(3, entry(9, 9, 9)), Err(RenderError::SurfaceExists));
    assert_eq!(reg.get(3).map(|e| e.surface), Some(1));
}

#[test]
fn window_extent_needs_a_positive_size() {
    assert_eq!(window_extent(1080, 2400), Some((1080, 2400)));
    assert_eq!(window_extent(1, 1), Some((1, 1)));
    assert_eq!(window_extent(0, 2400), None);
    assert_eq!(window_extent(1080, -1), None);
    assert_eq!(window_extent(i32::MAX, i32::MAX), Some((2147483647, 2147483647)));
}
