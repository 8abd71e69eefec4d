use vstd::prelude::*;

verus! {

/// Vulkan's `VK_MEMORY_PROPERTY_DEVICE_LOCAL_BIT`.
pub const MEMORY_PROPERTY_DEVICE_LOCAL: u32 = 0x1;

/// Vulkan's `VK_MEMORY_PROPERTY_HOST_VISIBLE_BIT`.
pub const MEMORY_PROPERTY_HOST_VISIBLE: u32 = 0x2;

/// Vulkan's `VK_MEMORY_PROPERTY_HOST_COHERENT_BIT`.
pub const MEMORY_PROPERTY_HOST_COHERENT: u32 = 0x4;

/// Vulkan's `VK_MEMORY_PROPERTY_HOST_CACHED_BIT`.
pub const MEMORY_PROPERTY_HOST_CACHED: u32 = 0x8;

/// Vulkan's `VK_MAX_MEMORY_TYPES`: the length of a device's table of memory types.
pub const MAX_MEMORY_TYPES: usize = 32;

/// Where a buffer's memory lives, and how the CPU reaches it.
#[derive(Clone, Copy, PartialEq, Eq, Structural)]
pub enum MemoryLocation {
    GpuOnly,
    /// Mapped, host visible and host coherent.
    CpuToGpu,
    /// Mapped, host visible and host cached (needs flush and invalidate).
    GpuToCpu,
}

/// A device's memory types, as `vkGetPhysicalDeviceMemoryProperties` reports them:
/// the property bits of each entry of the table, of which the first
/// `memory_type_count` are in use.
pub struct MemoryProperties {
    pub memory_type_count: u32,
    pub property_flags: Vec<u32>,
}

/// Whether `flags` holds every bit of `required`.
pub open spec fn flags_contain(flags: u32, required: u32) -> bool {
    flags & required == required
}

/// Whether memory type `i` is allowed by `type_bits` and has every property of
/// `required`.
pub open spec fn memory_type_fits(
    type_bits: u32,
    property_flags: Seq<u32>,
    required: u32,
    i: int,
) -> bool {
    &&& type_bits & (1u32 << (i as u32)) != 0
    &&& flags_contain(property_flags[i], required)
}

/// `found` is the first memory type among the first `count` that fits, or `None`
/// when none does.
pub open spec fn is_first_fitting_type(
    found: Option<u32>,
    type_bits: u32,
    property_flags: Seq<u32>,
    required: u32,
    count: int,
) -> bool {
    match found {
        Some(i) => {
            &&& i < count
            &&& memory_type_fits(type_bits, property_flags, required, i as int)
            &&& forall|j: int| 0 <= j < i ==> !memory_type_fits(type_bits, property_flags, required, j)
        },
        None => forall|j: int| 0 <= j < count ==> !memory_type_fits(type_bits, property_flags, required, j),
    }
}

/// The index of the first memory type that `memory_type_bits` allows and that has
/// every property in `flags`.
pub fn find_memory_type_index(
    memory_type_bits: u32,
    mem_props: &MemoryProperties,
    flags: u32,
) -> (found: Option<u32>)
    requires
        mem_props.memory_type_count <= mem_props.property_flags@.len(),
        mem_props.property_flags@.len() <= MAX_MEMORY_TYPES,
    ensures
        is_first_fitting_type(
            found,
            memory_type_bits,
            mem_props.property_flags@,
            flags,
            mem_props.memory_type_count as int,
        ),
{
    let count = mem_props.memory_type_count;
    let mut i: u32 = 0;
    while i < count
        invariant
            count == mem_props.memory_type_count,
            count <= mem_props.property_flags@.len() <= MAX_MEMORY_TYPES,
            i <= count,
            forall|j: int|
                0 <= j < i ==> !memory_type_fits(
                    memory_type_bits,
                    mem_props.property_flags@,
                    flags,
                    j,
                ),
        decreases count - i,
    {
        let property_flags = mem_props.property_flags[i as usize];
        if memory_type_bits & (1u32 << i) != 0 && property_flags & flags == flags {
            return Some(i);
        }
        i = i + 1;
    }
    None
}

/// The memory properties a buffer at `location` needs.
pub open spec fn location_memory_flags(location: MemoryLocation) -> u32 {
    match location {
        MemoryLocation::GpuOnly => MEMORY_PROPERTY_DEVICE_LOCAL,
        MemoryLocation::CpuToGpu => MEMORY_PROPERTY_HOST_VISIBLE | MEMORY_PROPERTY_HOST_COHERENT,
        MemoryLocation::GpuToCpu => MEMORY_PROPERTY_HOST_VISIBLE | MEMORY_PROPERTY_HOST_CACHED,
    }
}

/// Whether a buffer at `location` stays mapped for as long as it lives.
pub open spec fn location_stays_mapped(location: MemoryLocation) -> bool {
    !(location is GpuOnly)
}

/// The memory properties a buffer at `location` needs, and whether it stays mapped
/// for as long as it lives.
pub fn memory_location_requirements(location: MemoryLocation) -> (req: (u32, bool))
    ensures
        req == (location_memory_flags(location), location_stays_mapped(location)),
{
    match location {
        MemoryLocation::GpuOnly => (MEMORY_PROPERTY_DEVICE_LOCAL, false),
        MemoryLocation::CpuToGpu => (MEMORY_PROPERTY_HOST_VISIBLE | MEMORY_PROPERTY_HOST_COHERENT, true),
        MemoryLocation::GpuToCpu => (MEMORY_PROPERTY_HOST_VISIBLE | MEMORY_PROPERTY_HOST_CACHED, true),
    }
}

/// How a new buffer's memory is mapped into the CPU's address space.
pub struct BufferMapping {
    /// The memory properties its memory type must have.
    pub memory_flags: u32,
    /// The number of bytes mapped right after allocation, if any.
    pub map_size: Option<u64>,
    /// Whether that mapping is kept for the buffer's lifetime.
    pub keep_mapped: bool,
}

/// Decides how a buffer of `buffer_size` bytes at `location` is mapped. A location
/// mapped for good maps the whole buffer, and keeps that mapping for the buffer's
/// lifetime; initial data of `initial_data_size` bytes is copied into its start.
/// Elsewhere, initial data is copied through a mapping of exactly its size, which
/// is then released.
pub fn plan_buffer_mapping(
    location: MemoryLocation,
    initial_data_size: Option<u64>,
    buffer_size: u64,
) -> (plan: BufferMapping)
    requires
        initial_data_size matches Some(size) ==> size <= buffer_size,
    ensures
        plan.memory_flags == location_memory_flags(location),
        plan.map_size == (if location_stays_mapped(location) {
            Some(buffer_size)
        } else {
            initial_data_size
        }),
        plan.keep_mapped == location_stays_mapped(location),
{
    let (memory_flags, map_permanently) = memory_location_requirements(location);
    if map_permanently {
        BufferMapping { memory_flags, map_size: Some(buffer_size), keep_mapped: true }
    } else {
        BufferMapping { memory_flags, map_size: initial_data_size, keep_mapped: false }
    }
}

} // verus!
