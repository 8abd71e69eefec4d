use vstd::prelude::*;

verus! {

/// The window the engine opens.
pub struct WindowConfig {
    pub window_width: u32,
    pub window_height: u32,
    pub window_title: String,
}

/// The window events the engine reacts to; the event loop maps every other event
/// to `Other`.
#[derive(Clone, Copy, PartialEq, Eq, Structural)]
pub enum WindowEvent {
    Resized { width: u32, height: u32 },
    CloseRequested,
    RedrawRequested,
    Other,
}

/// What the event loop does for a window event.
#[derive(Clone, Copy, PartialEq, Eq, Structural)]
pub enum WindowAction {
    /// Tell the GPU side the window's new size.
    Resize { width: u32, height: u32 },
    /// Leave the event loop.
    Exit,
    /// Run one frame.
    Update,
    Nothing,
}

/// The action for each window event: resizes, closing and redraws are passed on,
/// every other event is ignored.
pub open spec fn window_action(event: WindowEvent) -> WindowAction {
    match event {
        WindowEvent::Resized { width, height } => WindowAction::Resize { width, height },
        WindowEvent::CloseRequested => WindowAction::Exit,
        WindowEvent::RedrawRequested => WindowAction::Update,
        WindowEvent::Other => WindowAction::Nothing,
    }
}

pub fn action_for_window_event(event: WindowEvent) -> (action: WindowAction)
    ensures
        action == window_action(event),
{
    match event {
        WindowEvent::Resized { width, height } => WindowAction::Resize { width, height },
        WindowEvent::CloseRequested => WindowAction::Exit,
        WindowEvent::RedrawRequested => WindowAction::Update,
        WindowEvent::Other => WindowAction::Nothing,
    }
}

/// The decisions of the window's life: a window is opened when the application
/// resumes without one, and dropped when it is suspended.
pub struct WindowLifecycle {
    config: WindowConfig,
    has_window: bool,
}

impl WindowLifecycle {
    pub closed spec fn configured(&self) -> WindowConfig {
        self.config
    }

    /// The window it opens.
    pub fn config(&self) -> (config: &WindowConfig)
        ensures
            *config == self.configured(),
    {
        &self.config
    }

    pub closed spec fn has_window(&self) -> bool {
        self.has_window
    }

    pub fn new(config: WindowConfig) -> (lifecycle: Self)
        ensures
            lifecycle.configured() == config,
            !lifecycle.has_window(),
    {
        WindowLifecycle { config, has_window: false }
    }

    /// The application resumed: answers whether to open the window (and hand it to
    /// the GPU side), which happens only when there is none.
    pub fn resumed(&mut self) -> (open_window: bool)
        ensures
            open_window == !old(self).has_window(),
            final(self).has_window(),
            final(self).configured() == old(self).configured(),
    {
        if !self.has_window {
            self.has_window = true;
            true
        } else {
            false
        }
    }

    /// The application was suspended: the window is dropped and the GPU side told.
    pub fn suspended(&mut self)
        ensures
            !final(self).has_window(),
            final(self).configured() == old(self).configured(),
    {
        self.has_window = false;
    }

    /// Whether to ask for a redraw when the loop wakes: only for a poll, and only
    /// with a window.
    pub fn new_events(&self, cause_is_poll: bool) -> (request_redraw: bool)
        ensures
            request_redraw == (self.has_window() && cause_is_poll),
    {
        self.has_window && cause_is_poll
    }
}

} // verus!
