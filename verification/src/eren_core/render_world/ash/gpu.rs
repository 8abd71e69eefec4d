use vstd::prelude::*;

verus! {

/// Vulkan's `VK_QUEUE_GRAPHICS_BIT`.
pub const QUEUE_GRAPHICS: u32 = 0x1;

/// Vulkan's `VK_FORMAT_B8G8R8A8_SRGB`.
pub const FORMAT_B8G8R8A8_SRGB: i32 = 50;

/// Vulkan's `VK_COLOR_SPACE_SRGB_NONLINEAR_KHR`.
pub const COLOR_SPACE_SRGB_NONLINEAR: i32 = 0;

/// Vulkan's `VK_PRESENT_MODE_MAILBOX_KHR`.
pub const PRESENT_MODE_MAILBOX: i32 = 1;

/// Vulkan's `VK_PRESENT_MODE_FIFO_KHR`, which every device supports.
pub const PRESENT_MODE_FIFO: i32 = 2;

/// The queue families that draw and present: the last of each kind found before
/// both kinds were found.
#[derive(Clone, Copy, PartialEq, Eq, Structural)]
pub struct QueueFamilyIndices {
    pub graphics_family: Option<u32>,
    pub present_family: Option<u32>,
}

impl QueueFamilyIndices {
    pub fn is_complete(&self) -> (complete: bool)
        ensures
            complete == (self.graphics_family is Some && self.present_family is Some),
    {
        self.graphics_family.is_some() && self.present_family.is_some()
    }
}

/// The last family among the first `k` whose flags hold `QUEUE_GRAPHICS`.
pub open spec fn last_graphics_family(queue_flags: Seq<u32>, k: int) -> Option<u32>
    decreases k,
{
    if k <= 0 {
        None
    } else if queue_flags[k - 1] & QUEUE_GRAPHICS != 0 {
        Some((k - 1) as u32)
    } else {
        last_graphics_family(queue_flags, k - 1)
    }
}

/// The last family among the first `k` that can present to the surface.
pub open spec fn last_present_family(present_support: Seq<bool>, k: int) -> Option<u32>
    decreases k,
{
    if k <= 0 {
        None
    } else if present_support[k - 1] {
        Some((k - 1) as u32)
    } else {
        last_present_family(present_support, k - 1)
    }
}

/// Whether the first `k` families hold one of each kind.
pub open spec fn complete_within(queue_flags: Seq<u32>, present_support: Seq<bool>, k: int) -> bool {
    last_graphics_family(queue_flags, k) is Some && last_present_family(present_support, k) is Some
}

/// How many families the search looks at from `k` on: it stops after the first
/// family with which both kinds have been seen, or at the end.
pub open spec fn scan_stop(queue_flags: Seq<u32>, present_support: Seq<bool>, k: int) -> int
    decreases queue_flags.len() - k,
{
    if k >= queue_flags.len() {
        queue_flags.len() as int
    } else if complete_within(queue_flags, present_support, k + 1) {
        k + 1
    } else {
        scan_stop(queue_flags, present_support, k + 1)
    }
}

/// Finds the graphics and present queue families of a device from the flags of
/// each family and whether each can present to the surface.
pub fn find_queue_families(queue_flags: &Vec<u32>, present_support: &Vec<bool>) -> (indices:
    QueueFamilyIndices)
    requires
        queue_flags@.len() == present_support@.len(),
        queue_flags@.len() <= u32::MAX,
    ensures
        ({
            let stop = scan_stop(queue_flags@, present_support@, 0);
            &&& indices.graphics_family == last_graphics_family(queue_flags@, stop)
            &&& indices.present_family == last_present_family(present_support@, stop)
            &&& forall|j: int|
                0 <= j < stop ==> !#[trigger] complete_within(queue_flags@, present_support@, j)
            &&& (exists|j: int|
                0 <= j <= queue_flags@.len() && #[trigger] complete_within(
                    queue_flags@,
                    present_support@,
                    j,
                )) ==> (indices.graphics_family is Some && indices.present_family is Some)
        }),
{
    let mut indices = QueueFamilyIndices { graphics_family: None, present_family: None };
    let n = queue_flags.len();
    let mut i: usize = 0;
    while i < n
        invariant
            n == queue_flags@.len() == present_support@.len() <= u32::MAX,
            i <= n,
            scan_stop(queue_flags@, present_support@, 0) == scan_stop(
                queue_flags@,
                present_support@,
                i as int,
            ),
            indices.graphics_family == last_graphics_family(queue_flags@, i as int),
            indices.present_family == last_present_family(present_support@, i as int),
        decreases n - i,
    {
        if queue_flags[i] & QUEUE_GRAPHICS != 0 {
            indices.graphics_family = Some(i as u32);
        }
        if present_support[i] {
            indices.present_family = Some(i as u32);
        }
        if indices.is_complete() {
            proof {
                law_queue_search_stops_at_first_complete(queue_flags@, present_support@);
            }
            return indices;
        }
        i = i + 1;
    }
    proof {
        law_queue_search_stops_at_first_complete(queue_flags@, present_support@);
    }
    indices
}

/// Whether two byte strings are equal.
pub fn bytes_equal(a: &Vec<u8>, b: &Vec<u8>) -> (equal: bool)
    ensures
        equal == (a@ == b@),
{
    if a.len() != b.len() {
        return false;
    }
    let mut i: usize = 0;
    while i < a.len()
        invariant
            a@.len() == b@.len(),
            i <= a@.len(),
            forall|j: int| 0 <= j < i ==> a@[j] == b@[j],
        decreases a@.len() - i,
    {
        if a[i] != b[i] {
            return false;
        }
        i = i + 1;
    }
    assert(a@ =~= b@);
    true
}

/// Whether the extension `name` is among `available`.
pub open spec fn extension_present(available: Seq<Vec<u8>>, name: Seq<u8>) -> bool {
    exists|a: int| 0 <= a < available.len() && #[trigger] available[a]@ == name
}

/// Whether every extension name of `required` is among `available`.
pub open spec fn extensions_available(available: Seq<Vec<u8>>, required: Seq<Vec<u8>>) -> bool {
    forall|r: int| 0 <= r < required.len() ==> #[trigger] extension_present(available, required[r]@)
}

/// Whether the device offers every required extension; names are compared as the
/// bytes before their terminating nul.
pub fn check_device_extension_support(available: &Vec<Vec<u8>>, required: &Vec<Vec<u8>>) -> (supported:
    bool)
    ensures
        supported == extensions_available(available@, required@),
{
    let mut r: usize = 0;
    while r < required.len()
        invariant
            r <= required@.len(),
            extensions_available(available@, required@.take(r as int)),
        decreases required@.len() - r,
    {
        let mut found = false;
        let mut a: usize = 0;
        while a < available.len()
            invariant
                r < required@.len(),
                a <= available@.len(),
                found == exists|k: int| 0 <= k < a && #[trigger] available@[k]@ == required@[r as int]@,
            decreases available@.len() - a,
        {
            if bytes_equal(&available[a], &required[r]) {
                found = true;
            }
            a = a + 1;
        }
        if !found {
            assert(!extension_present(available@, required@[r as int]@));
            return false;
        }
        assert(extensions_available(available@, required@.take(r + 1))) by {
            let t = required@.take(r + 1);
            assert forall|q: int| 0 <= q < t.len() implies #[trigger] extension_present(
                available@,
                t[q]@,
            ) by {
                if q < r {
                    assert(required@.take(r as int)[q] == t[q]);
                }
            }
        }
        r = r + 1;
    }
    assert(required@.take(r as int) =~= required@);
    true
}

/// What the search for a GPU learns of one physical device. The counts of surface
/// formats and present modes are only asked for, and only read, when the
/// device's extensions are supported.
#[derive(Clone, Copy)]
pub struct DeviceCandidate {
    pub queue_families: QueueFamilyIndices,
    pub extensions_supported: bool,
    pub surface_format_count: usize,
    pub present_mode_count: usize,
    pub shader_clip_distance: bool,
}

/// Whether a device can run the engine: it draws and presents, has the
/// extensions, can build a swapchain, and clips.
pub open spec fn device_suitable(candidate: DeviceCandidate) -> bool {
    &&& candidate.queue_families.graphics_family is Some
    &&& candidate.queue_families.present_family is Some
    &&& candidate.extensions_supported
    &&& candidate.surface_format_count > 0
    &&& candidate.present_mode_count > 0
    &&& candidate.shader_clip_distance
}

pub fn is_device_suitable(candidate: &DeviceCandidate) -> (suitable: bool)
    ensures
        suitable == device_suitable(*candidate),
{
    let swapchain_adequate = if candidate.extensions_supported {
        candidate.surface_format_count > 0 && candidate.present_mode_count > 0
    } else {
        false
    };
    candidate.queue_families.is_complete() && candidate.extensions_supported && swapchain_adequate
        && candidate.shader_clip_distance
}

/// The first suitable device, in the order in which Vulkan lists them.
pub fn pick_physical_device(candidates: &Vec<DeviceCandidate>) -> (picked: Option<usize>)
    ensures
        match picked {
            Some(i) => i < candidates@.len() && device_suitable(candidates@[i as int]) && forall|
                j: int,
            | 0 <= j < i ==> !device_suitable(#[trigger] candidates@[j]),
            None => forall|j: int|
                0 <= j < candidates@.len() ==> !device_suitable(#[trigger] candidates@[j]),
        },
{
    let mut i: usize = 0;
    while i < candidates.len()
        invariant
            i <= candidates@.len(),
            forall|j: int| 0 <= j < i ==> !device_suitable(#[trigger] candidates@[j]),
        decreases candidates@.len() - i,
    {
        if is_device_suitable(&candidates[i]) {
            return Some(i);
        }
        i = i + 1;
    }
    None
}

/// A surface format: Vulkan's `VkFormat` and `VkColorSpaceKHR`, as raw values.
#[derive(Clone, Copy, PartialEq, Eq, Structural)]
pub struct SurfaceFormat {
    pub format: i32,
    pub color_space: i32,
}

/// Whether `f` is 8-bit BGRA sRGB with the non-linear sRGB color space.
pub open spec fn is_preferred_surface_format(f: SurfaceFormat) -> bool {
    f.format == FORMAT_B8G8R8A8_SRGB && f.color_space == COLOR_SPACE_SRGB_NONLINEAR
}

/// The first preferred format offered, or else the first format offered.
pub fn choose_swap_surface_format(available_formats: &Vec<SurfaceFormat>) -> (chosen: SurfaceFormat)
    requires
        available_formats@.len() > 0,
    ensures
        (exists|i: int|
            0 <= i < available_formats@.len() && is_preferred_surface_format(
                #[trigger] available_formats@[i],
            )) ==> (is_preferred_surface_format(chosen) && exists|i: int|
            0 <= i < available_formats@.len() && #[trigger] available_formats@[i] == chosen
                && forall|j: int|
                0 <= j < i ==> !is_preferred_surface_format(#[trigger] available_formats@[j])),
        !(exists|i: int|
            0 <= i < available_formats@.len() && is_preferred_surface_format(
                #[trigger] available_formats@[i],
            )) ==> chosen == available_formats@[0],
{
    let mut i: usize = 0;
    while i < available_formats.len()
        invariant
            i <= available_formats@.len(),
            forall|j: int|
                0 <= j < i ==> !is_preferred_surface_format(#[trigger] available_formats@[j]),
        decreases available_formats@.len() - i,
    {
        let f = available_formats[i];
        if f.format == FORMAT_B8G8R8A8_SRGB && f.color_space == COLOR_SPACE_SRGB_NONLINEAR {
            return f;
        }
        i = i + 1;
    }
    available_formats[0]
}

/// Mailbox when the surface offers it, else FIFO.
pub fn choose_swap_present_mode(available_present_modes: &Vec<i32>) -> (mode: i32)
    ensures
        mode == (if available_present_modes@.contains(PRESENT_MODE_MAILBOX) {
            PRESENT_MODE_MAILBOX
        } else {
            PRESENT_MODE_FIFO
        }),
{
    let mut i: usize = 0;
    while i < available_present_modes.len()
        invariant
            i <= available_present_modes@.len(),
            forall|j: int| 0 <= j < i ==> available_present_modes@[j] != PRESENT_MODE_MAILBOX,
        decreases available_present_modes@.len() - i,
    {
        if available_present_modes[i] == PRESENT_MODE_MAILBOX {
            return PRESENT_MODE_MAILBOX;
        }
        i = i + 1;
    }
    PRESENT_MODE_FIFO
}

/// A width and a height, in pixels.
#[derive(Clone, Copy, PartialEq, Eq, Structural)]
pub struct Extent2D {
    pub width: u32,
    pub height: u32,
}

/// `x` brought within `[low, high]`.
pub open spec fn clamped(x: u32, low: u32, high: u32) -> u32 {
    if x < low {
        low
    } else if x > high {
        high
    } else {
        x
    }
}

fn clamp_u32(x: u32, low: u32, high: u32) -> (c: u32)
    ensures
        c == clamped(x, low, high),
{
    if x < low {
        low
    } else if x > high {
        high
    } else {
        x
    }
}

/// The swapchain's extent: the surface's own, unless the surface leaves it to the
/// application (a width of `u32::MAX`), in which case the window's size brought
/// within the surface's limits.
pub fn choose_swap_extent(
    window_size: Extent2D,
    current_extent: Extent2D,
    min_image_extent: Extent2D,
    max_image_extent: Extent2D,
) -> (extent: Extent2D)
    requires
        current_extent.width == u32::MAX ==> min_image_extent.width <= max_image_extent.width
            && min_image_extent.height <= max_image_extent.height,
    ensures
        extent == (if current_extent.width != u32::MAX {
            current_extent
        } else {
            Extent2D {
                width: clamped(window_size.width, min_image_extent.width, max_image_extent.width),
                height: clamped(
                    window_size.height,
                    min_image_extent.height,
                    max_image_extent.height,
                ),
            }
        }),
{
    if current_extent.width != u32::MAX {
        current_extent
    } else {
        Extent2D {
            width: clamp_u32(window_size.width, min_image_extent.width, max_image_extent.width),
            height: clamp_u32(window_size.height, min_image_extent.height, max_image_extent.height),
        }
    }
}

/// The number of swapchain images to ask for: one more than the least the surface
/// needs, within its limit when it has one (a limit of zero means none).
pub fn swapchain_image_count(min_image_count: u32, max_image_count: u32) -> (count: u32)
    requires
        min_image_count < u32::MAX,
    ensures
        count == (if max_image_count > 0 && min_image_count + 1 > max_image_count {
            max_image_count
        } else {
            (min_image_count + 1) as u32
        }),
{
    let mut image_count = min_image_count + 1;
    if max_image_count > 0 && image_count > max_image_count {
        image_count = max_image_count;
    }
    image_count
}

/// How swapchain images are shared between queue families.
#[derive(Clone, Copy, PartialEq, Eq, Structural)]
pub enum SharingMode {
    Exclusive,
    Concurrent,
}

/// Images are shared between the two families when drawing and presenting use
/// different ones, and owned by one family otherwise.
pub fn swapchain_sharing_mode(graphics_family: u32, present_family: u32) -> (mode: SharingMode)
    ensures
        mode == (if graphics_family != present_family {
            SharingMode::Concurrent
        } else {
            SharingMode::Exclusive
        }),
{
    if graphics_family != present_family {
        SharingMode::Concurrent
    } else {
        SharingMode::Exclusive
    }
}

} // verus!

verus! {

/// The last graphics family among the first `k` is the last family there with the
/// graphics bit; there is none when no such family has it.
pub proof fn law_last_graphics_family(queue_flags: Seq<u32>, k: int)
    requires
        0 <= k <= queue_flags.len(),
        k <= u32::MAX + 1,
    ensures
        match last_graphics_family(queue_flags, k) {
            Some(g) => g < k && queue_flags[g as int] & QUEUE_GRAPHICS != 0 && forall|j: int|
                g < j < k ==> #[trigger] queue_flags[j] & QUEUE_GRAPHICS == 0,
            None => forall|j: int| 0 <= j < k ==> #[trigger] queue_flags[j] & QUEUE_GRAPHICS == 0,
        },
    decreases k,
{
    if k > 0 {
        law_last_graphics_family(queue_flags, k - 1);
    }
}

/// The last present family among the first `k` is the last family there that can
/// present; there is none when none can.
pub proof fn law_last_present_family(present_support: Seq<bool>, k: int)
    requires
        0 <= k <= present_support.len(),
        k <= u32::MAX + 1,
    ensures
        match last_present_family(present_support, k) {
            Some(p) => p < k && present_support[p as int] && forall|j: int|
                p < j < k ==> !#[trigger] present_support[j],
            None => forall|j: int| 0 <= j < k ==> !#[trigger] present_support[j],
        },
    decreases k,
{
    if k > 0 {
        law_last_present_family(present_support, k - 1);
    }
}

proof fn lemma_scan_stop_from(queue_flags: Seq<u32>, present_support: Seq<bool>, k: int)
    requires
        0 <= k <= queue_flags.len(),
    ensures
        k <= scan_stop(queue_flags, present_support, k) <= queue_flags.len(),
        k < queue_flags.len() ==> k < scan_stop(queue_flags, present_support, k),
        scan_stop(queue_flags, present_support, k) < queue_flags.len() ==> complete_within(
            queue_flags,
            present_support,
            scan_stop(queue_flags, present_support, k),
        ),
        forall|j: int|
            k < j < scan_stop(queue_flags, present_support, k) ==> !#[trigger] complete_within(
                queue_flags,
                present_support,
                j,
            ),
    decreases queue_flags.len() - k,
{
    if k < queue_flags.len() && !complete_within(queue_flags, present_support, k + 1) {
        lemma_scan_stop_from(queue_flags, present_support, k + 1);
    }
}

/// The search for queue families stops at the first family with which both a
/// graphics and a present family have been seen, and looks at every family when
/// that never happens: no shorter prefix holds both, and the families found are
/// the last of each kind within the families looked at.
pub proof fn law_queue_search_stops_at_first_complete(
    queue_flags: Seq<u32>,
    present_support: Seq<bool>,
)
    requires
        queue_flags.len() == present_support.len(),
        queue_flags.len() <= u32::MAX,
    ensures
        ({
            let stop = scan_stop(queue_flags, present_support, 0);
            &&& 0 <= stop <= queue_flags.len()
            &&& forall|j: int| 0 <= j < stop ==> !#[trigger] complete_within(queue_flags, present_support, j)
            &&& (exists|j: int|
                0 <= j <= queue_flags.len() && #[trigger] complete_within(
                    queue_flags,
                    present_support,
                    j,
                )) ==> complete_within(queue_flags, present_support, stop)
            &&& complete_within(queue_flags, present_support, stop) ==> ({
                let g = last_graphics_family(queue_flags, stop)->0;
                let p = last_present_family(present_support, stop)->0;
                &&& queue_flags[g as int] & QUEUE_GRAPHICS != 0
                &&& present_support[p as int]
                &&& (g == stop - 1 || p == stop - 1)
                &&& g < stop && p < stop
            })
        }),
{
    let stop = scan_stop(queue_flags, present_support, 0);
    lemma_scan_stop_from(queue_flags, present_support, 0);
    assert(!complete_within(queue_flags, present_support, 0));
    if complete_within(queue_flags, present_support, stop) {
        law_last_graphics_family(queue_flags, stop);
        law_last_present_family(present_support, stop);
        law_last_graphics_family(queue_flags, stop - 1);
        law_last_present_family(present_support, stop - 1);
        assert(!complete_within(queue_flags, present_support, stop - 1));
        let g = last_graphics_family(queue_flags, stop)->0;
        let p = last_present_family(present_support, stop)->0;
        if g != stop - 1 && p != stop - 1 {
            assert(last_graphics_family(queue_flags, stop) == last_graphics_family(queue_flags, stop - 1));
            assert(last_present_family(present_support, stop) == last_present_family(present_support, stop - 1));
        }
    }
    if exists|j: int| 0 <= j <= queue_flags.len() && #[trigger] complete_within(queue_flags, present_support, j) {
        let j = choose|j: int| 0 <= j <= queue_flags.len() && #[trigger] complete_within(queue_flags, present_support, j);
        assert(j >= stop);
    }
}

} // verus!
