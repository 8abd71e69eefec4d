use vstd::prelude::*;

verus! {

/// The window the application handler opens.
pub struct AppHandlerConfig {
    pub window_width: u32,
    pub window_height: u32,
    pub window_title: String,
}

/// What the handler does when the application resumes.
#[derive(Clone, Copy, PartialEq, Eq, Structural)]
pub struct ResumeActions {
    pub create_window: bool,
    pub create_surface: bool,
}

/// The decisions of the application handler: whether a window exists, and
/// whether the GPU surface was created for it.
pub struct AppLifecycle {
    config: AppHandlerConfig,
    has_window: bool,
    gpu_surface_created: bool,
}

impl AppLifecycle {
    pub closed spec fn configured(&self) -> AppHandlerConfig {
        self.config
    }

    /// The window it opens.
    pub fn config(&self) -> (config: &AppHandlerConfig)
        ensures
            *config == self.configured(),
    {
        &self.config
    }

    pub closed spec fn has_window(&self) -> bool {
        self.has_window
    }

    pub closed spec fn gpu_surface_created(&self) -> bool {
        self.gpu_surface_created
    }

    pub fn new(config: AppHandlerConfig) -> (lifecycle: Self)
        ensures
            lifecycle.configured() == config,
            !lifecycle.has_window(),
            !lifecycle.gpu_surface_created(),
    {
        AppLifecycle { config, has_window: false, gpu_surface_created: false }
    }

    /// The application resumed: a window is opened if there is none, and the GPU
    /// surface is created if it was not.
    pub fn resumed(&mut self) -> (actions: ResumeActions)
        ensures
            actions.create_window == !old(self).has_window(),
            actions.create_surface == !old(self).gpu_surface_created(),
            final(self).has_window(),
            final(self).gpu_surface_created(),
            final(self).configured() == old(self).configured(),
    {
        let create_window = !self.has_window;
        self.has_window = true;
        let create_surface = !self.gpu_surface_created;
        self.gpu_surface_created = true;
        ResumeActions { create_window, create_surface }
    }

    /// The application was suspended: the window is dropped and the surface
    /// destroyed.
    pub fn suspended(&mut self)
        ensures
            !final(self).has_window(),
            !final(self).gpu_surface_created(),
            final(self).configured() == old(self).configured(),
    {
        self.has_window = false;
        self.gpu_surface_created = false;
    }

    /// Whether to ask for a redraw when the loop wakes: only for a poll, and only
    /// with a window.
    pub fn new_events(&self, cause_is_poll: bool) -> (request_redraw: bool)
        ensures
            request_redraw == (self.has_window() && cause_is_poll),
    {
        self.has_window && cause_is_poll
    }
}

} // verus!
