use monazite::compositor::{GpuCompositor, SurfaceHandle};

#[test]
fn add_and_remove_surface() {
    let mut comp = GpuCompositor::new();
    comp.add_surface(1, SurfaceHandle::new(42, 800, 600));
    assert_eq!(comp.render_frame().unwrap(), 1);
    assert_eq!(comp.frames_rendered(), 1);
    let removed = comp.remove_surface(1);
    assert!(removed.is_some());
    assert_eq!(comp.render_frame().unwrap(), 0);
}

#[test]
fn remove_missing_is_none() {
    let mut comp = GpuCompositor::new();
    assert!(comp.remove_surface(999).is_none());
    assert_eq!(comp.render_frame().unwrap(), 0);
}

#[test]
fn replacing_a_surface_keeps_one_per_tab() {
    let mut comp = GpuCompositor::new();
    comp.add_surface(7, SurfaceHandle::new(1, 10, 10));
    comp.add_surface(7, SurfaceHandle::new(2, 20, 20));
    assert_eq!(comp.render_frame().unwrap(), 1);
    assert_eq!(comp.remove_surface(7).unwrap(), SurfaceHandle::new(2, 20, 20));
}
