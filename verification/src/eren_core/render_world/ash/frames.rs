use vstd::prelude::*;

verus! {

/// How many frames the CPU may record while the GPU still works on earlier ones.
pub const MAX_FRAMES_IN_FLIGHT: usize = 2;

/// What acquiring the next swapchain image gave.
#[derive(Clone, Copy, PartialEq, Eq, Structural)]
pub enum AcquireOutcome {
    Acquired { image_index: u32 },
    /// The swapchain no longer matches the surface.
    OutOfDate,
}

/// What presenting the frame's image gave.
#[derive(Clone, Copy, PartialEq, Eq, Structural)]
pub enum PresentOutcome {
    Presented { suboptimal: bool },
    /// The swapchain no longer matches the surface.
    OutOfDate,
}

/// What the frame loop does after acquiring an image.
#[derive(Clone, Copy, PartialEq, Eq, Structural)]
pub enum AcquireAction {
    /// Rebuild the swapchain and skip this frame.
    RecreateSwapchain,
    /// Record the frame into `image_index`, after waiting for the fence of frame
    /// slot `wait_for_frame` when an earlier frame still uses that image.
    Record { image_index: u32, wait_for_frame: Option<usize> },
}

/// The CPU-side bookkeeping of the Vulkan frame loop: which frame slot (with its
/// semaphores, fence and command buffer) records next, which slot last used each
/// swapchain image, and whether the window was resized since the last present.
pub struct FrameSync {
    current_frame: usize,
    images_in_flight: Vec<Option<usize>>,
    framebuffer_resized: bool,
}

impl FrameSync {
    pub closed spec fn current_frame(&self) -> nat {
        self.current_frame as nat
    }

    pub closed spec fn images_in_flight(&self) -> Seq<Option<usize>> {
        self.images_in_flight@
    }

    pub closed spec fn framebuffer_resized(&self) -> bool {
        self.framebuffer_resized
    }

    /// The slot recording next is a slot, and every image is held by a slot.
    pub open spec fn wf(&self) -> bool {
        &&& self.current_frame() < MAX_FRAMES_IN_FLIGHT
        &&& forall|i: int|
            0 <= i < self.images_in_flight().len() ==> (#[trigger] self.images_in_flight()[i] matches Some(
                f,
            ) ==> f < MAX_FRAMES_IN_FLIGHT)
    }

    /// The state of a new swapchain of `image_count` images: slot 0 records first,
    /// and no image is in use.
    pub fn new(image_count: usize) -> (sync: Self)
        ensures
            sync.wf(),
            sync.current_frame() == 0,
            sync.images_in_flight() == Seq::new(image_count as nat, |i: int| None::<usize>),
            !sync.framebuffer_resized(),
    {
        FrameSync {
            current_frame: 0,
            images_in_flight: Self::no_images_in_flight(image_count),
            framebuffer_resized: false,
        }
    }

    fn no_images_in_flight(image_count: usize) -> (images: Vec<Option<usize>>)
        ensures
            images@ == Seq::new(image_count as nat, |i: int| None::<usize>),
    {
        let mut images: Vec<Option<usize>> = Vec::new();
        let mut i: usize = 0;
        while i < image_count
            invariant
                i <= image_count,
                images@ == Seq::new(i as nat, |k: int| None::<usize>),
            decreases image_count - i,
        {
            images.push(None);
            i = i + 1;
            assert(images@ =~= Seq::new(i as nat, |k: int| None::<usize>));
        }
        images
    }

    /// The frame slot that records next.
    pub fn current_frame_index(&self) -> (frame: usize)
        ensures
            frame == self.current_frame(),
    {
        self.current_frame
    }

    /// The window changed size: the swapchain is rebuilt after the next present.
    pub fn on_window_resized(&mut self)
        requires
            old(self).wf(),
        ensures
            final(self).wf(),
            final(self).framebuffer_resized(),
            final(self).current_frame() == old(self).current_frame(),
            final(self).images_in_flight() == old(self).images_in_flight(),
    {
        self.framebuffer_resized = true;
    }

    /// Decides what to do with the image the swapchain handed out. A usable image
    /// becomes the current slot's; the slot that used it before, if any, must be
    /// waited for.
    pub fn on_image_acquired(&mut self, outcome: AcquireOutcome) -> (action: AcquireAction)
        requires
            old(self).wf(),
            outcome matches AcquireOutcome::Acquired { image_index } ==> image_index
                < old(self).images_in_flight().len(),
        ensures
            final(self).wf(),
            final(self).current_frame() == old(self).current_frame(),
            final(self).framebuffer_resized() == old(self).framebuffer_resized(),
            match outcome {
                AcquireOutcome::OutOfDate => action == AcquireAction::RecreateSwapchain
                    && final(self).images_in_flight() == old(self).images_in_flight(),
                AcquireOutcome::Acquired { image_index } => action == AcquireAction::Record {
                    image_index,
                    wait_for_frame: old(self).images_in_flight()[image_index as int],
                } && final(self).images_in_flight() == old(self).images_in_flight().update(
                    image_index as int,
                    Some(old(self).current_frame() as usize),
                ),
            },
    {
        match outcome {
            AcquireOutcome::OutOfDate => AcquireAction::RecreateSwapchain,
            AcquireOutcome::Acquired { image_index } => {
                let wait_for_frame = self.images_in_flight[image_index as usize];
                self.images_in_flight.set(image_index as usize, Some(self.current_frame));
                AcquireAction::Record { image_index, wait_for_frame }
            },
        }
    }

    /// After a present: answers whether the swapchain must be rebuilt (the window
    /// was resized, or the swapchain is suboptimal or out of date), and moves on to
    /// the next frame slot.
    pub fn on_present(&mut self, outcome: PresentOutcome) -> (recreate: bool)
        requires
            old(self).wf(),
        ensures
            final(self).wf(),
            recreate == (old(self).framebuffer_resized() || match outcome {
                PresentOutcome::Presented { suboptimal } => suboptimal,
                PresentOutcome::OutOfDate => true,
            }),
            !final(self).framebuffer_resized(),
            final(self).current_frame() == next_frame(old(self).current_frame()),
            final(self).images_in_flight() == old(self).images_in_flight(),
    {
        let mut recreate = self.framebuffer_resized;
        match outcome {
            PresentOutcome::Presented { suboptimal } => {
                if suboptimal {
                    recreate = true;
                }
            },
            PresentOutcome::OutOfDate => {
                recreate = true;
            },
        }
        if recreate {
            self.framebuffer_resized = false;
        }
        self.current_frame = (self.current_frame + 1) % MAX_FRAMES_IN_FLIGHT;
        recreate
    }

    /// A new swapchain of `image_count` images exists: none of them is in use.
    pub fn on_swapchain_recreated(&mut self, image_count: usize)
        requires
            old(self).wf(),
        ensures
            final(self).wf(),
            final(self).current_frame() == old(self).current_frame(),
            final(self).framebuffer_resized() == old(self).framebuffer_resized(),
            final(self).images_in_flight() == Seq::new(image_count as nat, |i: int| None::<usize>),
    {
        self.images_in_flight = Self::no_images_in_flight(image_count);
    }
}

/// The frame slot after `frame`, as `on_present` moves to it.
pub open spec fn next_frame(frame: nat) -> nat {
    (frame + 1) % (MAX_FRAMES_IN_FLIGHT as nat)
}

/// Frames take turns between the slots: a present moves to another slot, and after
/// `MAX_FRAMES_IN_FLIGHT` presents the first slot records again.
pub proof fn law_frame_slots_take_turns(frame: nat)
    requires
        frame < MAX_FRAMES_IN_FLIGHT,
    ensures
        next_frame(frame) != frame,
        next_frame(next_frame(frame)) == frame,
{
}

} // verus!
