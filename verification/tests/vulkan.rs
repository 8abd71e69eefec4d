use eren::eren_2d::render_world::ash::asset_managers::sprite_asset_manager::find_memory_type;
use eren::eren_core::render_world::ash::buffer::{
    find_memory_type_index, memory_location_requirements, plan_buffer_mapping, MemoryLocation,
    MemoryProperties, MEMORY_PROPERTY_DEVICE_LOCAL, MEMORY_PROPERTY_HOST_CACHED,
    MEMORY_PROPERTY_HOST_COHERENT, MEMORY_PROPERTY_HOST_VISIBLE,
};
use eren::eren_core::render_world::ash::frames::{
    AcquireAction, AcquireOutcome, FrameSync, PresentOutcome,
};
use eren::eren_core::render_world::ash::gpu::{
    check_device_extension_support, choose_swap_extent, choose_swap_present_mode,
    choose_swap_surface_format, find_queue_families, pick_physical_device,
    swapchain_image_count, swapchain_sharing_mode, DeviceCandidate, Extent2D,
    QueueFamilyIndices, SharingMode, SurfaceFormat, PRESENT_MODE_FIFO, PRESENT_MODE_MAILBOX,
    QUEUE_GRAPHICS,
};

fn props(flags: Vec<u32>) -> MemoryProperties {
    MemoryProperties { memory_type_count: flags.len() as u32, property_flags: flags }
}

#[test]
fn memory_type_is_first_allowed_with_all_flags() {
    let p = props(vec![
        MEMORY_PROPERTY_HOST_VISIBLE,
        MEMORY_PROPERTY_DEVICE_LOCAL,
        MEMORY_PROPERTY_DEVICE_LOCAL | MEMORY_PROPERTY_HOST_VISIBLE,
        MEMORY_PROPERTY_HOST_VISIBLE | MEMORY_PROPERTY_HOST_COHERENT,
    ]);
    assert_eq!(find_memory_type_index(0b1111, &p, MEMORY_PROPERTY_DEVICE_LOCAL), Some(1));
    assert_eq!(find_memory_type_index(0b1101, &p, MEMORY_PROPERTY_DEVICE_LOCAL), Some(2));
    assert_eq!(
        find_memory_type_index(0b1111, &p, MEMORY_PROPERTY_HOST_VISIBLE | MEMORY_PROPERTY_HOST_COHERENT),
        Some(3)
    );
    assert_eq!(find_memory_type_index(0b0001, &p, MEMORY_PROPERTY_DEVICE_LOCAL), None);
    assert_eq!(find_memory_type_index(0b1111, &p, MEMORY_PROPERTY_HOST_CACHED), None);
}

#[test]
fn memory_types_beyond_count_are_ignored() {
    let mut p = props(vec![MEMORY_PROPERTY_HOST_VISIBLE, MEMORY_PROPERTY_DEVICE_LOCAL]);
    p.memory_type_count = 1;
    assert_eq!(find_memory_type_index(0b11, &p, MEMORY_PROPERTY_DEVICE_LOCAL), None);
}

#[test]
fn memory_locations_map_to_flags() {
    assert_eq!(memory_location_requirements(MemoryLocation::GpuOnly), (1, false));
    assert_eq!(memory_location_requirements(MemoryLocation::CpuToGpu), (2 | 4, true));
    assert_eq!(memory_location_requirements(MemoryLocation::GpuToCpu), (2 | 8, true));
}

#[test]
fn buffer_mapping_plans() {
    let p = plan_buffer_mapping(MemoryLocation::CpuToGpu, Some(64), 256);
    assert_eq!((p.memory_flags, p.map_size, p.keep_mapped), (6, Some(256), true));
    let p = plan_buffer_mapping(MemoryLocation::GpuOnly, Some(64), 256);
    assert_eq!((p.memory_flags, p.map_size, p.keep_mapped), (1, Some(64), false));
    let p = plan_buffer_mapping(MemoryLocation::GpuToCpu, None, 256);
    assert_eq!((p.memory_flags, p.map_size, p.keep_mapped), (10, Some(256), true));
    let p = plan_buffer_mapping(MemoryLocation::GpuOnly, None, 256);
    assert_eq!((p.memory_flags, p.map_size, p.keep_mapped), (1, None, false));
}

#[test]
fn queue_families_stop_once_complete() {
    let flags = vec![0, QUEUE_GRAPHICS, QUEUE_GRAPHICS];
    let present = vec![true, false, true];
    let q = find_queue_families(&flags, &present);
    assert!(q == QueueFamilyIndices { graphics_family: Some(1), present_family: Some(0) });
    assert!(q.is_complete());
}

#[test]
fn queue_families_take_the_last_before_completion() {
    let flags = vec![QUEUE_GRAPHICS, QUEUE_GRAPHICS | 0x2, 0];
    let present = vec![false, false, true];
    let q = find_queue_families(&flags, &present);
    assert!(q == QueueFamilyIndices { graphics_family: Some(1), present_family: Some(2) });
    let none = find_queue_families(&vec![0x2], &vec![false]);
    assert!(!none.is_complete());
    assert!(none == QueueFamilyIndices { graphics_family: None, present_family: None });
}

#[test]
fn extensions_are_matched_by_name() {
    let available = vec![b"VK_KHR_surface".to_vec(), b"VK_KHR_swapchain".to_vec()];
    assert!(check_device_extension_support(&available, &vec![b"VK_KHR_swapchain".to_vec()]));
    assert!(check_device_extension_support(&available, &vec![]));
    assert!(!check_device_extension_support(
        &available,
        &vec![b"VK_KHR_swapchain".to_vec(), b"VK_KHR_portability_subset".to_vec()]
    ));
}

fn candidate(complete: bool, ext: bool, formats: usize, modes: usize, clip: bool) -> DeviceCandidate {
    DeviceCandidate {
        queue_families: QueueFamilyIndices {
            graphics_family: Some(0),
            present_family: if complete { Some(0) } else { None },
        },
        extensions_supported: ext,
        surface_format_count: formats,
        present_mode_count: modes,
        shader_clip_distance: clip,
    }
}

#[test]
fn first_suitable_device_is_picked() {
    let devices = vec![
        candidate(false, true, 1, 1, true),
        candidate(true, false, 1, 1, true),
        candidate(true, true, 0, 1, true),
        candidate(true, true, 1, 1, false),
        candidate(true, true, 2, 3, true),
        candidate(true, true, 1, 1, true),
    ];
    assert_eq!(pick_physical_device(&devices), Some(4));
    assert_eq!(pick_physical_device(&devices[..4].to_vec()), None);
}

#[test]
fn surface_format_prefers_bgra_srgb() {
    let a = SurfaceFormat { format: 37, color_space: 0 };
    let b = SurfaceFormat { format: 50, color_space: 0 };
    let c = SurfaceFormat { format: 50, color_space: 1 };
    assert!(choose_swap_surface_format(&vec![a, c, b]) == b);
    assert!(choose_swap_surface_format(&vec![c, a]) == c);
}

#[test]
fn present_mode_prefers_mailbox() {
    assert_eq!(choose_swap_present_mode(&vec![2, 1, 0]), PRESENT_MODE_MAILBOX);
    assert_eq!(choose_swap_present_mode(&vec![0, 3]), PRESENT_MODE_FIFO);
    assert_eq!(choose_swap_present_mode(&vec![]), PRESENT_MODE_FIFO);
}

#[test]
fn swap_extent_uses_surface_or_clamped_window() {
    let e = |width, height| Extent2D { width, height };
    assert!(choose_swap_extent(e(10, 10), e(800, 600), e(1, 1), e(4096, 4096)) == e(800, 600));
    assert!(
        choose_swap_extent(e(5000, 0), e(u32::MAX, u32::MAX), e(1, 1), e(4096, 4096))
            == e(4096, 1)
    );
    assert!(choose_swap_extent(e(640, 480), e(u32::MAX, 0), e(1, 1), e(4096, 4096)) == e(640, 480));
}

#[test]
fn swapchain_image_count_and_sharing() {
    assert_eq!(swapchain_image_count(2, 0), 3);
    assert_eq!(swapchain_image_count(2, 8), 3);
    assert_eq!(swapchain_image_count(3, 3), 3);
    assert!(swapchain_sharing_mode(0, 1) == SharingMode::Concurrent);
    assert!(swapchain_sharing_mode(2, 2) == SharingMode::Exclusive);
}

#[test]
fn frames_alternate_and_guard_images() {
    let mut sync = FrameSync::new(3);
    assert_eq!(sync.current_frame_index(), 0);
    let a = sync.on_image_acquired(AcquireOutcome::Acquired { image_index: 1 });
    assert!(a == AcquireAction::Record { image_index: 1, wait_for_frame: None });
    assert!(!sync.on_present(PresentOutcome::Presented { suboptimal: false }));
    assert_eq!(sync.current_frame_index(), 1);
    let a = sync.on_image_acquired(AcquireOutcome::Acquired { image_index: 1 });
    assert!(a == AcquireAction::Record { image_index: 1, wait_for_frame: Some(0) });
    assert!(!sync.on_present(PresentOutcome::Presented { suboptimal: false }));
    assert_eq!(sync.current_frame_index(), 0);
    let a = sync.on_image_acquired(AcquireOutcome::Acquired { image_index: 1 });
    assert!(a == AcquireAction::Record { image_index: 1, wait_for_frame: Some(1) });
}

#[test]
fn resize_and_stale_swapchains_force_recreation() {
    let mut sync = FrameSync::new(2);
    sync.on_window_resized();
    assert!(sync.on_present(PresentOutcome::Presented { suboptimal: false }));
    assert!(!sync.on_present(PresentOutcome::Presented { suboptimal: false }));
    assert!(sync.on_present(PresentOutcome::Presented { suboptimal: true }));
    assert!(sync.on_present(PresentOutcome::OutOfDate));
    assert!(sync.on_image_acquired(AcquireOutcome::OutOfDate) == AcquireAction::RecreateSwapchain);
    sync.on_image_acquired(AcquireOutcome::Acquired { image_index: 0 });
    sync.on_swapchain_recreated(4);
    let a = sync.on_image_acquired(AcquireOutcome::Acquired { image_index: 3 });
    assert!(a == AcquireAction::Record { image_index: 3, wait_for_frame: None });
}

#[test]
fn sprite_images_take_the_first_fitting_memory_type() {
    let p = props(vec![
        MEMORY_PROPERTY_HOST_VISIBLE | MEMORY_PROPERTY_HOST_COHERENT,
        MEMORY_PROPERTY_DEVICE_LOCAL | MEMORY_PROPERTY_HOST_VISIBLE,
        MEMORY_PROPERTY_DEVICE_LOCAL,
    ]);
    assert_eq!(find_memory_type(0b111, MEMORY_PROPERTY_DEVICE_LOCAL, &p), Some(1));
    assert_eq!(find_memory_type(0b101, MEMORY_PROPERTY_DEVICE_LOCAL, &p), Some(2));
    assert_eq!(find_memory_type(0b001, MEMORY_PROPERTY_DEVICE_LOCAL, &p), None);
    assert_eq!(find_memory_type(0b111, MEMORY_PROPERTY_HOST_CACHED, &p), None);
}
