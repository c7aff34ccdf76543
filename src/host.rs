use vstd::prelude::*;

use crate::clock::{advanced, Clock, ClockState};
use crate::event::WindowEvent;
use crate::window_info_tracker::WindowInfoTracker;

verus! {

/// What the platform's event queue hands the host loop.
#[derive(Clone, Copy, Debug, PartialEq, Eq, Structural)]
pub enum LoopEvent {
    /// An event of the window.
    Window(WindowEvent),
    /// Pointer motion or another raw device event.
    Device,
    /// The queue is drained for this tick: time to draw a frame.
    FrameReady,
    /// Anything the host ignores.
    Other,
}

/// One piece of work that the host asks its caller to perform, in order.
#[derive(Clone, Copy, Debug, PartialEq, Eq, Structural)]
pub enum Step {
    /// Clear the framebuffer to the background colour.
    Clear,
    /// Call `render` on the plugin with this registration index.
    Render(usize),
    /// Advance the frame clock (`Host::update_clock`).
    UpdateClock,
    /// Swap the framebuffer.
    Present,
    /// Hand the current event to the camera controller.
    ToController,
    /// Hand the current event to the plugin with this registration index.
    ToPlugin(usize),
}

/// The abstract state of a host.
pub ghost struct HostState<P> {
    /// Registered plugins, in registration order.
    pub plugins: Seq<P>,
    pub width: u32,
    pub height: u32,
    pub clock: ClockState,
    /// False once a close request has been seen.
    pub running: bool,
}

/// Render steps for plugins `0..n`, in order.
pub open spec fn render_steps(n: nat) -> Seq<Step> {
    Seq::new(n, |i: int| Step::Render(i as usize))
}

/// Event hand-off to plugins `0..n`, in order.
pub open spec fn plugin_steps(n: nat) -> Seq<Step> {
    Seq::new(n, |i: int| Step::ToPlugin(i as usize))
}

/// One frame with `n` plugins: clear, every render in registration order,
/// clock update, present.
pub open spec fn frame_steps(n: nat) -> Seq<Step> {
    seq![Step::Clear] + render_steps(n) + seq![Step::UpdateClock, Step::Present]
}

/// Routing of a non-close window event with `n` plugins; the window tracker
/// has already taken it by then.
pub open spec fn window_steps(n: nat) -> Seq<Step> {
    seq![Step::ToController] + plugin_steps(n)
}

/// The work the host asks for on `e` in state `h`.
pub open spec fn steps_for<P>(h: HostState<P>, e: LoopEvent) -> Seq<Step> {
    if !h.running {
        Seq::empty()
    } else {
        match e {
            LoopEvent::Window(WindowEvent::CloseRequested) => Seq::empty(),
            LoopEvent::Window(_) => window_steps(h.plugins.len()),
            LoopEvent::Device => seq![Step::ToController],
            LoopEvent::FrameReady => frame_steps(h.plugins.len()),
            LoopEvent::Other => Seq::empty(),
        }
    }
}

/// The state of the host after `e` in state `h`.
pub open spec fn next_state<P>(h: HostState<P>, e: LoopEvent) -> HostState<P> {
    if !h.running {
        h
    } else {
        match e {
            LoopEvent::Window(WindowEvent::CloseRequested) => HostState { running: false, ..h },
            LoopEvent::Window(WindowEvent::Resized { width, height }) => HostState {
                width,
                height,
                ..h
            },
            _ => h,
        }
    }
}

/// The plugin indices that the render steps of `steps` name, in order.
pub open spec fn rendered(steps: Seq<Step>) -> Seq<usize>
    decreases steps.len(),
{
    if steps.len() == 0 {
        Seq::empty()
    } else {
        let rest = rendered(steps.drop_last());
        match steps.last() {
            Step::Render(i) => rest.push(i),
            _ => rest,
        }
    }
}

/// The state after the events of `events`, one after the other.
pub open spec fn run<P>(h: HostState<P>, events: Seq<LoopEvent>) -> HostState<P>
    decreases events.len(),
{
    if events.len() == 0 {
        h
    } else {
        next_state(run(h, events.drop_last()), events.last())
    }
}

/// All the work asked for over `events`, in order.
pub open spec fn run_steps<P>(h: HostState<P>, events: Seq<LoopEvent>) -> Seq<Step>
    decreases events.len(),
{
    if events.len() == 0 {
        Seq::empty()
    } else {
        let prefix = events.drop_last();
        run_steps(h, prefix) + steps_for(run(h, prefix), events.last())
    }
}

proof fn lemma_rendered_append(a: Seq<Step>, b: Seq<Step>)
    ensures
        rendered(a + b) == rendered(a) + rendered(b),
    decreases b.len(),
{
    if b.len() == 0 {
        assert(a + b =~= a);
        assert(rendered(b) =~= Seq::<usize>::empty());
        assert(rendered(a) + rendered(b) =~= rendered(a));
    } else {
        assert((a + b).drop_last() =~= a + b.drop_last());
        lemma_rendered_append(a, b.drop_last());
        assert((a + b).last() == b.last());
        match b.last() {
            Step::Render(i) => {
                assert(rendered(a) + rendered(b.drop_last()).push(i) =~= (rendered(a) + rendered(
                    b.drop_last(),
                )).push(i));
            },
            _ => {},
        }
    }
}

proof fn lemma_rendered_render_steps(n: nat)
    ensures
        rendered(render_steps(n)) == Seq::new(n, |i: int| i as usize),
    decreases n,
{
    if n == 0 {
        assert(render_steps(0) =~= Seq::<Step>::empty());
        assert(Seq::new(0, |i: int| i as usize) =~= Seq::<usize>::empty());
    } else {
        let m = (n - 1) as nat;
        assert(render_steps(n).drop_last() =~= render_steps(m));
        lemma_rendered_render_steps(m);
        assert(Seq::new(m, |i: int| i as usize).push((n - 1) as usize) =~= Seq::new(
            n,
            |i: int| i as usize,
        ));
    }
}

/// A frame renders every registered plugin exactly once, in registration
/// order, between the clear that opens it and the present that closes it.
pub proof fn lemma_frame_renders_in_registration_order(n: nat)
    ensures
        rendered(frame_steps(n)) == Seq::new(n, |i: int| i as usize),
        frame_steps(n).first() == Step::Clear,
        frame_steps(n).last() == Step::Present,
{
    let head = seq![Step::Clear];
    let tail = seq![Step::UpdateClock, Step::Present];
    lemma_rendered_append(head + render_steps(n), tail);
    lemma_rendered_append(head, render_steps(n));
    lemma_rendered_render_steps(n);
    let none = Seq::<Step>::empty();
    assert(rendered(none) =~= Seq::<usize>::empty());
    assert(head.drop_last() =~= none);
    assert(rendered(head) =~= Seq::<usize>::empty());
    let update = seq![Step::UpdateClock];
    assert(update.drop_last() =~= none);
    assert(rendered(update) =~= Seq::<usize>::empty());
    assert(tail.drop_last() =~= update);
    assert(rendered(tail) =~= Seq::<usize>::empty());
    assert(Seq::<usize>::empty() + Seq::new(n, |i: int| i as usize) + Seq::<usize>::empty()
        =~= Seq::new(n, |i: int| i as usize));
}

/// The plugins that a frame renders, read through the registry, are the
/// registered plugins themselves, in registration order.
pub proof fn lemma_frame_renders_registered_plugins<P>(plugins: Seq<P>)
    requires
        plugins.len() <= usize::MAX,
    ensures
        rendered(frame_steps(plugins.len())).map_values(|i: usize| plugins[i as int]) == plugins,
{
    lemma_frame_renders_in_registration_order(plugins.len());
    assert(rendered(frame_steps(plugins.len())).map_values(|i: usize| plugins[i as int])
        =~= plugins);
}

/// Events never touch the registry: every frame of a run draws the same
/// plugins, in the order they were registered.
pub proof fn lemma_events_keep_registry<P>(h: HostState<P>, events: Seq<LoopEvent>)
    ensures
        run(h, events).plugins == h.plugins,
        forall|i: int|
            0 <= i < events.len() && events[i] == LoopEvent::FrameReady && run(
                h,
                events.take(i),
            ).running ==> steps_for(run(h, events.take(i)), events[i]) == frame_steps(
                h.plugins.len(),
            ),
    decreases events.len(),
{
    if events.len() > 0 {
        lemma_events_keep_registry(h, events.drop_last());
        assert forall|i: int|
            0 <= i < events.len() && events[i] == LoopEvent::FrameReady && run(
                h,
                events.take(i),
            ).running implies steps_for(run(h, events.take(i)), events[i]) == frame_steps(
            h.plugins.len(),
        ) by {
            if i < events.len() - 1 {
                assert(events.take(i) =~= events.drop_last().take(i));
                assert(events[i] == events.drop_last()[i]);
            } else {
                assert(events.take(i) =~= events.drop_last());
            }
        }
    }
}

/// Once the host has stopped, no event changes it or asks for any work: no
/// render follows a close request.
pub proof fn lemma_stopped_host_is_inert<P>(h: HostState<P>, events: Seq<LoopEvent>)
    requires
        !h.running,
    ensures
        run(h, events) == h,
        run_steps(h, events).len() == 0,
    decreases events.len(),
{
    if events.len() > 0 {
        lemma_stopped_host_is_inert(h, events.drop_last());
    }
}

/// A close request stops a running host, and no event after it is answered
/// with any work.
pub proof fn lemma_close_stops_the_loop<P>(h: HostState<P>, events: Seq<LoopEvent>)
    ensures
        !next_state(h, LoopEvent::Window(WindowEvent::CloseRequested)).running,
        steps_for(h, LoopEvent::Window(WindowEvent::CloseRequested)).len() == 0,
        run_steps(next_state(h, LoopEvent::Window(WindowEvent::CloseRequested)), events).len()
            == 0,
{
    lemma_stopped_host_is_inert(next_state(h, LoopEvent::Window(WindowEvent::CloseRequested)), events);
}

/// A resize reaches the tracked size before anything after it runs: every
/// later frame sees the new size until the next resize.
pub proof fn lemma_resize_seen_by_later_frames<P>(
    h: HostState<P>,
    width: u32,
    height: u32,
    events: Seq<LoopEvent>,
)
    requires
        h.running,
        forall|i: int|
            0 <= i < events.len() ==> !(#[trigger] events[i] matches LoopEvent::Window(
                WindowEvent::Resized { .. },
            )),
    ensures
        ({
            let after = run(next_state(h, LoopEvent::Window(WindowEvent::Resized { width, height })), events);
            after.width == width && after.height == height
        }),
    decreases events.len(),
{
    if events.len() > 0 {
        let prefix = events.drop_last();
        assert forall|i: int|
            0 <= i < prefix.len() implies !(#[trigger] prefix[i] matches LoopEvent::Window(
                WindowEvent::Resized { .. },
            )) by {
            assert(prefix[i] == events[i]);
        }
        lemma_resize_seen_by_later_frames(h, width, height, prefix);
        assert(!(events[events.len() - 1] matches LoopEvent::Window(WindowEvent::Resized { .. })));
    }
}

/// Owns the ordered plugin registry, the window tracker and the frame clock,
/// and decides for each event what is to be done.
pub struct Host<P> {
    plugins: Vec<P>,
    window: WindowInfoTracker,
    clock: Clock,
    running: bool,
}

impl<P> View for Host<P> {
    type V = HostState<P>;

    closed spec fn view(&self) -> HostState<P> {
        HostState {
            plugins: self.plugins@,
            width: self.window.width,
            height: self.window.height,
            clock: self.clock@,
            running: self.running,
        }
    }
}

impl<P> Host<P> {
    /// A running host with no plugins, for a window of `width` x `height`.
    pub fn new(width: u32, height: u32) -> (r: Self)
        ensures
            r@.plugins.len() == 0,
            r@.width == width,
            r@.height == height,
            r@.clock.time == 0,
            r@.clock.prev_time == 0,
            r@.running,
    {
        Host {
            plugins: Vec::new(),
            window: WindowInfoTracker::new(width, height),
            clock: Clock::new(),
            running: true,
        }
    }

    /// Appends a plugin; its index is the number registered before it.
    pub fn register_plugin(&mut self, plugin: P)
        ensures
            final(self)@ == (HostState { plugins: old(self)@.plugins.push(plugin), ..old(self)@ }),
    {
        self.plugins.push(plugin);
    }

    pub fn plugin_count(&self) -> (r: usize)
        ensures
            r == self@.plugins.len(),
    {
        self.plugins.len()
    }

    pub fn plugin(&self, i: usize) -> (r: &P)
        requires
            i < self@.plugins.len(),
        ensures
            *r == self@.plugins[i as int],
    {
        &self.plugins[i]
    }

    pub fn plugin_mut(&mut self, i: usize) -> (r: &mut P)
        requires
            i < old(self)@.plugins.len(),
        ensures
            *r == old(self)@.plugins[i as int],
            final(self)@ == (HostState {
                plugins: old(self)@.plugins.update(i as int, *final(r)),
                ..old(self)@
            }),
    {
        &mut self.plugins[i]
    }

    pub fn is_running(&self) -> (r: bool)
        ensures
            r == self@.running,
    {
        self.running
    }

    pub fn window(&self) -> (r: &WindowInfoTracker)
        ensures
            r.width == self@.width,
            r.height == self@.height,
    {
        &self.window
    }

    pub fn clock(&self) -> (r: &Clock)
        ensures
            r@ == self@.clock,
    {
        &self.clock
    }

    /// Performs `Step::UpdateClock`.
    pub fn update_clock(&mut self)
        ensures
            final(self)@.plugins == old(self)@.plugins,
            final(self)@.width == old(self)@.width,
            final(self)@.height == old(self)@.height,
            final(self)@.running == old(self)@.running,
            exists|now: u64| final(self)@.clock == #[trigger] advanced(old(self)@.clock, now),
    {
        let ghost before = self.clock@;
        self.clock.update();
        proof {
            let now = choose|now: u64| self.clock@ == #[trigger] advanced(before, now);
            assert(before == old(self)@.clock);
            assert(self@.clock == advanced(old(self)@.clock, now));
        }
    }

    /// Decides what `event` asks for. A close request stops the host: from
    /// then on every event is ignored and no frame is drawn. A resize reaches
    /// the window tracker before any later render can read it.
    pub fn on_event(&mut self, event: &LoopEvent) -> (r: Vec<Step>)
        ensures
            final(self)@ == next_state(old(self)@, *event),
            r@ == steps_for(old(self)@, *event),
    {
        if !self.running {
            return Vec::new();
        }
        match *event {
            LoopEvent::Window(WindowEvent::CloseRequested) => {
                self.running = false;
                Vec::new()
            },
            LoopEvent::Window(e) => {
                self.window.on_window_event(&e);
                self.route_window_event()
            },
            LoopEvent::Device => {
                let mut r: Vec<Step> = Vec::new();
                r.push(Step::ToController);
                proof {
                    assert(r@ =~= seq![Step::ToController]);
                }
                r
            },
            LoopEvent::FrameReady => self.frame(),
            LoopEvent::Other => Vec::new(),
        }
    }

    /// The routing of a non-close window event: controller, then each plugin.
    fn route_window_event(&self) -> (r: Vec<Step>)
        ensures
            r@ == window_steps(self@.plugins.len()),
    {
        let n = self.plugins.len();
        let mut r: Vec<Step> = Vec::new();
        r.push(Step::ToController);
        let mut i: usize = 0;
        while i < n
            invariant
                n == self@.plugins.len(),
                i <= n,
                r@ =~= seq![Step::ToController] + plugin_steps(i as nat),
            decreases n - i,
        {
            r.push(Step::ToPlugin(i));
            i = i + 1;
        }
        r
    }

    /// The plan of one frame: clear, each plugin's render in registration
    /// order, clock update, present.
    fn frame(&self) -> (r: Vec<Step>)
        ensures
            r@ == frame_steps(self@.plugins.len()),
    {
        let n = self.plugins.len();
        let mut r: Vec<Step> = Vec::new();
        r.push(Step::Clear);
        let mut i: usize = 0;
        while i < n
            invariant
                n == self@.plugins.len(),
                i <= n,
                r@ =~= seq![Step::Clear] + render_steps(i as nat),
            decreases n - i,
        {
            r.push(Step::Render(i));
            i = i + 1;
        }
        r.push(Step::UpdateClock);
        r.push(Step::Present);
        proof {
            assert(r@ =~= frame_steps(n as nat));
        }
        r
    }
}

} // verus!
