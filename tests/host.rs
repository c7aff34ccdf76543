use cg_final::event::WindowEvent;
use cg_final::host::{Host, LoopEvent, Step};

fn rendered_plugins(host: &Host<&'static str>, steps: &[Step]) -> Vec<&'static str> {
    let mut out = Vec::new();
    for s in steps {
        if let Step::Render(i) = s {
            out.push(*host.plugin(*i));
        }
    }
    out
}

fn wait_millis(ms: u64) {
    let start = std::time::Instant::now();
    while start.elapsed() < std::time::Duration::from_millis(ms) {}
}

#[test]
fn frame_renders_plugins_in_registration_order() {
    let mut host: Host<&'static str> = Host::new(800, 600);
    host.register_plugin("A");
    host.register_plugin("B");
    host.register_plugin("C");
    for _ in 0..3 {
        let steps = host.on_event(&LoopEvent::FrameReady);
        assert_eq!(
            steps,
            vec![
                Step::Clear,
                Step::Render(0),
                Step::Render(1),
                Step::Render(2),
                Step::UpdateClock,
                Step::Present
            ]
        );
        assert_eq!(rendered_plugins(&host, &steps), vec!["A", "B", "C"]);
    }
}

#[test]
fn zero_plugins_still_complete_a_frame() {
    let mut host: Host<&'static str> = Host::new(640, 480);
    assert_eq!(host.plugin_count(), 0);
    let steps = host.on_event(&LoopEvent::FrameReady);
    assert_eq!(steps, vec![Step::Clear, Step::UpdateClock, Step::Present]);
    assert!(host.is_running());
}

#[test]
fn resize_reaches_tracker_before_next_render() {
    let mut host: Host<&'static str> = Host::new(640, 480);
    host.register_plugin("A");
    let steps = host.on_event(&LoopEvent::Window(WindowEvent::Resized { width: 1024, height: 768 }));
    assert_eq!(steps, vec![Step::ToController, Step::ToPlugin(0)]);
    assert_eq!(host.window().width, 1024);
    assert_eq!(host.window().height, 768);
    let steps = host.on_event(&LoopEvent::FrameReady);
    assert_eq!(steps[1], Step::Render(0));
    assert_eq!(host.window().width, 1024);
}

#[test]
fn close_stops_the_loop() {
    let mut host: Host<&'static str> = Host::new(640, 480);
    host.register_plugin("A");
    assert_eq!(host.on_event(&LoopEvent::FrameReady).len(), 4);
    let steps = host.on_event(&LoopEvent::Window(WindowEvent::CloseRequested));
    assert!(steps.is_empty());
    assert!(!host.is_running());
    assert!(host.on_event(&LoopEvent::FrameReady).is_empty());
    assert!(host.on_event(&LoopEvent::Device).is_empty());
    assert!(host
        .on_event(&LoopEvent::Window(WindowEvent::Resized { width: 1, height: 1 }))
        .is_empty());
    assert_eq!(host.window().width, 640);
    assert_eq!(host.window().height, 480);
}

#[test]
fn window_events_go_to_controller_then_each_plugin() {
    let mut host: Host<u32> = Host::new(10, 10);
    host.register_plugin(7);
    host.register_plugin(9);
    let steps = host.on_event(&LoopEvent::Window(WindowEvent::KeyPressed { key: None }));
    assert_eq!(steps, vec![Step::ToController, Step::ToPlugin(0), Step::ToPlugin(1)]);
    assert_eq!(host.window().width, 10);
}

#[test]
fn device_events_go_to_controller_only() {
    let mut host: Host<u32> = Host::new(10, 10);
    host.register_plugin(7);
    assert_eq!(host.on_event(&LoopEvent::Device), vec![Step::ToController]);
    assert!(host.on_event(&LoopEvent::Other).is_empty());
}

#[test]
fn plugin_mut_changes_only_that_plugin() {
    let mut host: Host<u32> = Host::new(10, 10);
    host.register_plugin(1);
    host.register_plugin(2);
    *host.plugin_mut(1) = 5;
    assert_eq!(*host.plugin(0), 1);
    assert_eq!(*host.plugin(1), 5);
    assert_eq!(host.plugin_count(), 2);
}

#[test]
fn host_clock_starts_at_zero_and_advances() {
    let mut host: Host<u32> = Host::new(10, 10);
    assert_eq!(host.clock().time(), 0);
    assert_eq!(host.clock().delta_time(), 0);
    wait_millis(2);
    host.update_clock();
    assert!(host.clock().time() >= 2_000_000);
    assert_eq!(host.clock().delta_time(), host.clock().time());
}
