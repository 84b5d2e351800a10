//! The firmware's memory map: the classes of memory, the layout of a
//! descriptor, the walk over a buffer of descriptors at the stride the
//! firmware reports, and the count of bytes that are free once boot services
//! are retired.

use crate::acpi::{le_u32, le_u64, read_u32, read_u64};
use crate::efi::EfiStatus;
use vstd::prelude::*;

verus! {

/// The unit of the firmware's memory accounting, in bytes. It is not the
/// processor's page size.
pub const EFI_PAGE_SIZE: u64 = 4096;

/// The number of memory regions that the map buffer is sized for.
pub const MAX_MEMORY_REGIONS: usize = 8;

/// The size in bytes of the buffer that receives the memory map.
pub const MEMORY_MAP_BYTES: usize = MAX_MEMORY_REGIONS * 1024;

/// The size in bytes of a descriptor as this library reads it. The firmware
/// may lay descriptors out further apart than this.
pub const DESCRIPTOR_SIZE: usize = 40;

/// The class of a region of physical memory.
#[derive(Clone, Copy, Debug, PartialEq, Eq, Structural)]
pub enum EfiMemoryType {
    /// Not used.
    EfiReservedMemoryType,
    /// The code of a loaded application.
    EfiLoaderCode,
    /// The data of a loaded application.
    EfiLoaderData,
    /// The code of a boot services driver.
    EfiBootServicesCode,
    /// The data of a boot services driver.
    EfiBootServicesData,
    /// The code of a runtime services driver.
    EfiRuntimeServicesCode,
    /// The data of a runtime services driver.
    EfiRuntimeServicesData,
    /// Free memory.
    EfiConventionalMemory,
    /// Memory in which errors have been detected.
    EfiUnusableMemory,
    /// Memory that holds the ACPI tables.
    EfiACPIReclaimMemory,
    /// Address space reserved for use by the firmware.
    EfiACPIMemoryNVS,
    /// Memory-mapped I/O that runtime services need mapped.
    EfiMemoryMappedIO,
    /// The memory-mapped I/O region that translates memory cycles to I/O
    /// cycles.
    EfiMemoryMappedIOPortSpace,
    /// Address space reserved for code that is part of the processor.
    EfiPalCode,
    /// Free memory that keeps its content without power.
    EfiPersistentMemory,
    /// Any code that names none of the classes above.
    Invalid,
}

/// The class that a region's numeric code names. Every code names exactly
/// one class; a code beyond the known ones names `Invalid`.
pub open spec fn classify(code: u32) -> EfiMemoryType {
    if code == 0 {
        EfiMemoryType::EfiReservedMemoryType
    } else if code == 1 {
        EfiMemoryType::EfiLoaderCode
    } else if code == 2 {
        EfiMemoryType::EfiLoaderData
    } else if code == 3 {
        EfiMemoryType::EfiBootServicesCode
    } else if code == 4 {
        EfiMemoryType::EfiBootServicesData
    } else if code == 5 {
        EfiMemoryType::EfiRuntimeServicesCode
    } else if code == 6 {
        EfiMemoryType::EfiRuntimeServicesData
    } else if code == 7 {
        EfiMemoryType::EfiConventionalMemory
    } else if code == 8 {
        EfiMemoryType::EfiUnusableMemory
    } else if code == 9 {
        EfiMemoryType::EfiACPIReclaimMemory
    } else if code == 10 {
        EfiMemoryType::EfiACPIMemoryNVS
    } else if code == 11 {
        EfiMemoryType::EfiMemoryMappedIO
    } else if code == 12 {
        EfiMemoryType::EfiMemoryMappedIOPortSpace
    } else if code == 13 {
        EfiMemoryType::EfiPalCode
    } else if code == 14 {
        EfiMemoryType::EfiPersistentMemory
    } else {
        EfiMemoryType::Invalid
    }
}

/// The code of a class, for each class but `Invalid`.
pub open spec fn code_of(class: EfiMemoryType) -> Option<u32> {
    match class {
        EfiMemoryType::EfiReservedMemoryType => Some(0u32),
        EfiMemoryType::EfiLoaderCode => Some(1u32),
        EfiMemoryType::EfiLoaderData => Some(2u32),
        EfiMemoryType::EfiBootServicesCode => Some(3u32),
        EfiMemoryType::EfiBootServicesData => Some(4u32),
        EfiMemoryType::EfiRuntimeServicesCode => Some(5u32),
        EfiMemoryType::EfiRuntimeServicesData => Some(6u32),
        EfiMemoryType::EfiConventionalMemory => Some(7u32),
        EfiMemoryType::EfiUnusableMemory => Some(8u32),
        EfiMemoryType::EfiACPIReclaimMemory => Some(9u32),
        EfiMemoryType::EfiACPIMemoryNVS => Some(10u32),
        EfiMemoryType::EfiMemoryMappedIO => Some(11u32),
        EfiMemoryType::EfiMemoryMappedIOPortSpace => Some(12u32),
        EfiMemoryType::EfiPalCode => Some(13u32),
        EfiMemoryType::EfiPersistentMemory => Some(14u32),
        EfiMemoryType::Invalid => None,
    }
}

/// Classification is total and exact: a code up to 14 names the class whose
/// code it is, and no other code names a class but `Invalid`.
pub proof fn lemma_classification_total(code: u32)
    ensures
        code <= 14 ==> code_of(classify(code)) == Some(code),
        code >= 15 ==> classify(code) == EfiMemoryType::Invalid,
        classify(code) == EfiMemoryType::Invalid <==> code >= 15,
{
}

/// Every class but `Invalid` is named by its own code.
pub proof fn lemma_every_class_has_a_code(class: EfiMemoryType)
    ensures
        code_of(class) matches Some(code) ==> code <= 14 && classify(code) == class,
        code_of(class) is None <==> class == EfiMemoryType::Invalid,
{
}

impl EfiMemoryType {
    /// Whether memory of this class is free for general use once boot
    /// services are retired.
    pub open spec fn is_available(self) -> bool {
        self == EfiMemoryType::EfiBootServicesCode || self == EfiMemoryType::EfiBootServicesData
            || self == EfiMemoryType::EfiConventionalMemory || self
            == EfiMemoryType::EfiPersistentMemory
    }

    /// Returns whether memory of this class is free for general use once
    /// boot services are retired.
    pub fn avail_post_exit_boot_services(&self) -> (avail: bool)
        ensures
            avail == self.is_available(),
    {
        match self {
            EfiMemoryType::EfiBootServicesCode
            | EfiMemoryType::EfiBootServicesData
            | EfiMemoryType::EfiConventionalMemory
            | EfiMemoryType::EfiPersistentMemory => true,
            _ => false,
        }
    }
}

impl From<u32> for EfiMemoryType {
    fn from(val: u32) -> (class: Self) {
        match val {
            0 => EfiMemoryType::EfiReservedMemoryType,
            1 => EfiMemoryType::EfiLoaderCode,
            2 => EfiMemoryType::EfiLoaderData,
            3 => EfiMemoryType::EfiBootServicesCode,
            4 => EfiMemoryType::EfiBootServicesData,
            5 => EfiMemoryType::EfiRuntimeServicesCode,
            6 => EfiMemoryType::EfiRuntimeServicesData,
            7 => EfiMemoryType::EfiConventionalMemory,
            8 => EfiMemoryType::EfiUnusableMemory,
            9 => EfiMemoryType::EfiACPIReclaimMemory,
            10 => EfiMemoryType::EfiACPIMemoryNVS,
            11 => EfiMemoryType::EfiMemoryMappedIO,
            12 => EfiMemoryType::EfiMemoryMappedIOPortSpace,
            13 => EfiMemoryType::EfiPalCode,
            14 => EfiMemoryType::EfiPersistentMemory,
            _ => EfiMemoryType::Invalid,
        }
    }
}

impl vstd::std_specs::convert::FromSpecImpl<u32> for EfiMemoryType {
    open spec fn obeys_from_spec() -> bool {
        true
    }

    open spec fn from_spec(val: u32) -> Self {
        classify(val)
    }
}

/// One region of the memory map, as the firmware describes it.
#[derive(Clone, Copy, Debug, Default, PartialEq, Eq, Structural)]
pub struct EfiMemoryDescriptor {
    /// The numeric code of the region's class.
    pub memory_type: u32,
    /// The physical address of the region's first byte.
    pub physical_start: u64,
    /// The virtual address of the region's first byte.
    pub virtual_start: u64,
    /// The length of the region in firmware pages.
    pub number_of_pages: u64,
    /// The capabilities of the region, as a bit mask.
    pub attribute: u64,
}

/// The descriptor whose fields the bytes of `buf` from `at` on spell: the
/// class code in the first four bytes, then, from the eighth byte on, the
/// physical start, the virtual start, the page count and the attributes in
/// eight bytes each. Bytes 4 to 7 are padding.
pub open spec fn descriptor_at(buf: Seq<u8>, at: int) -> EfiMemoryDescriptor {
    EfiMemoryDescriptor {
        memory_type: le_u32(buf, at) as u32,
        physical_start: le_u64(buf, at + 8) as u64,
        virtual_start: le_u64(buf, at + 16) as u64,
        number_of_pages: le_u64(buf, at + 24) as u64,
        attribute: le_u64(buf, at + 32) as u64,
    }
}

/// A descriptor is spelled by its 36 bytes of fields alone: two buffers that
/// agree on them give the same descriptor, whatever stands in the padding
/// and in the bytes that follow the descriptor.
pub proof fn lemma_descriptor_ignores_padding(a: Seq<u8>, b: Seq<u8>, at: int)
    requires
        forall|i: int| at <= i < at + 4 ==> a[i] == b[i],
        forall|i: int| at + 8 <= i < at + DESCRIPTOR_SIZE ==> a[i] == b[i],
    ensures
        descriptor_at(a, at) == descriptor_at(b, at),
{
}

/// Reads the descriptor that starts at byte `at` of `buf`.
pub fn read_descriptor(buf: &[u8], at: usize) -> (desc: EfiMemoryDescriptor)
    requires
        at + DESCRIPTOR_SIZE <= buf@.len(),
    ensures
        desc == descriptor_at(buf@, at as int),
{
    let len: usize = buf.len();
    assert(at + DESCRIPTOR_SIZE <= len);
    EfiMemoryDescriptor {
        memory_type: read_u32(buf, at),
        physical_start: read_u64(buf, at + 8),
        virtual_start: read_u64(buf, at + 16),
        number_of_pages: read_u64(buf, at + 24),
        attribute: read_u64(buf, at + 32),
    }
}

/// Why a memory map could not be read.
#[derive(Clone, Copy, Debug, PartialEq, Eq, Structural)]
pub enum MemoryMapError {
    /// The firmware found the buffer too small for the map; `needed` is the
    /// size it asks for. There is no second attempt with a larger buffer.
    BufferTooSmall { needed: usize },
    /// The firmware call failed with another status.
    Firmware { status: EfiStatus },
    /// The firmware reported a distance of zero between descriptors.
    ZeroStride,
    /// The descriptor that starts at `offset` does not lie wholly inside the
    /// bytes that the firmware returned.
    Truncated { offset: usize },
    /// The free bytes do not fit in 64 bits.
    TotalOverflow,
}

/// Whether a descriptor that starts at byte `at` lies wholly inside the
/// first `used` bytes of a buffer of `len` bytes.
pub open spec fn fits(len: int, used: int, at: int) -> bool {
    at + DESCRIPTOR_SIZE <= used && at + DESCRIPTOR_SIZE <= len
}

/// The number of bytes from `at` up to `used`; zero where `at` is not below
/// `used`.
pub open spec fn bytes_ahead(used: int, at: int) -> int {
    if at < used {
        used - at
    } else {
        0
    }
}

/// The first of the offsets `at`, `at + stride`, ... below `used` at which
/// no whole descriptor fits, if there is one.
pub open spec fn first_unfit(len: int, used: int, stride: int, at: int) -> Option<int>
    decreases bytes_ahead(used, at),
        when stride > 0
{
    if at >= used {
        None
    } else if !fits(len, used, at) {
        Some(at)
    } else {
        first_unfit(len, used, stride, at + stride)
    }
}

/// The descriptors at the offsets `at`, `at + stride`, ... below `used`, in
/// that order. Bytes between one descriptor's end and the next offset are
/// passed over.
pub open spec fn descriptors_from(buf: Seq<u8>, used: int, stride: int, at: int) -> Seq<
    EfiMemoryDescriptor,
>
    decreases bytes_ahead(used, at),
        when stride > 0
{
    if at >= used {
        Seq::empty()
    } else {
        seq![descriptor_at(buf, at)] + descriptors_from(buf, used, stride, at + stride)
    }
}

/// Why the walk over the first `used` bytes of a buffer of `len` bytes at
/// distance `stride` fails, if it does.
pub open spec fn walk_error(len: int, used: int, stride: int) -> Option<MemoryMapError> {
    if stride <= 0 {
        Some(MemoryMapError::ZeroStride)
    } else {
        match first_unfit(len, used, stride, 0) {
            Some(at) => Some(MemoryMapError::Truncated { offset: at as usize }),
            None => None,
        }
    }
}

/// The walk reads its `k`-th descriptor at byte `k * stride`, whatever the
/// stride: a stride larger than a descriptor shifts no later entry.
pub proof fn lemma_descriptor_offsets(buf: Seq<u8>, used: int, stride: int, at: int, k: int)
    requires
        stride > 0,
        0 <= k,
        at + k * stride < used,
    ensures
        k < descriptors_from(buf, used, stride, at).len(),
        descriptors_from(buf, used, stride, at)[k] == descriptor_at(buf, at + k * stride),
    decreases k,
{
    assert(k * stride >= 0) by (nonlinear_arith)
        requires
            k >= 0,
            stride > 0,
    ;
    let here = descriptors_from(buf, used, stride, at);
    let rest = descriptors_from(buf, used, stride, at + stride);
    assert(here == seq![descriptor_at(buf, at)] + rest);
    assert(here.len() == 1 + rest.len());
    if k > 0 {
        assert(stride + (k - 1) * stride == k * stride) by (nonlinear_arith);
        lemma_descriptor_offsets(buf, used, stride, at + stride, k - 1);
        assert(here[k] == rest[k - 1]);
    } else {
        assert(0 * stride == 0) by (nonlinear_arith);
    }
}

/// The walk reads exactly as many descriptors as there are multiples of the
/// stride below `used`.
pub proof fn lemma_descriptor_count(buf: Seq<u8>, used: int, stride: int, at: int, k: int)
    requires
        stride > 0,
        0 <= k,
        at + (k - 1) * stride < used <= at + k * stride,
    ensures
        descriptors_from(buf, used, stride, at).len() == k,
    decreases k,
{
    if k > 0 {
        assert(stride + (k - 1) * stride == k * stride) by (nonlinear_arith);
        assert(stride + (k - 2) * stride == (k - 1) * stride) by (nonlinear_arith);
        assert((k - 1) * stride >= 0) by (nonlinear_arith)
            requires
                k >= 1,
                stride > 0,
        ;
        lemma_descriptor_count(buf, used, stride, at + stride, k - 1);
        assert(descriptors_from(buf, used, stride, at) == seq![descriptor_at(buf, at)]
            + descriptors_from(buf, used, stride, at + stride));
    } else {
        assert(0 * stride == 0) by (nonlinear_arith);
    }
}

/// Reads the descriptors in the first `used` bytes of `buf`, one every
/// `stride` bytes from offset zero on. Fails if `stride` is zero, or at the
/// first offset below `used` whose descriptor does not lie wholly inside
/// both `used` and `buf`.
pub fn read_descriptors(buf: &[u8], used: usize, stride: usize) -> (res: Result<
    Vec<EfiMemoryDescriptor>,
    MemoryMapError,
>)
    ensures
        match res {
            Ok(descs) => walk_error(buf@.len() as int, used as int, stride as int) is None
                && descs@ == descriptors_from(buf@, used as int, stride as int, 0),
            Err(e) => walk_error(buf@.len() as int, used as int, stride as int) == Some(e),
        },
{
    if stride == 0 {
        return Err(MemoryMapError::ZeroStride);
    }
    let len: usize = buf.len();
    let mut descs: Vec<EfiMemoryDescriptor> = Vec::new();
    let mut at: usize = 0;
    while at < used
        invariant
            stride > 0,
            len == buf@.len(),
            first_unfit(len as int, used as int, stride as int, at as int) == first_unfit(
                len as int,
                used as int,
                stride as int,
                0,
            ),
            descs@ + descriptors_from(buf@, used as int, stride as int, at as int)
                == descriptors_from(buf@, used as int, stride as int, 0),
        decreases used - at,
    {
        if used - at < DESCRIPTOR_SIZE || at > len || len - at < DESCRIPTOR_SIZE {
            return Err(MemoryMapError::Truncated { offset: at });
        }
        let ghost before = descs@;
        let desc = read_descriptor(buf, at);
        descs.push(desc);
        let ghost next = at + stride;
        assert(descs@ + descriptors_from(buf@, used as int, stride as int, next) =~= before
            + descriptors_from(buf@, used as int, stride as int, at as int));
        if stride >= used - at {
            assert(first_unfit(len as int, used as int, stride as int, next) is None);
            at = used;
        } else {
            at += stride;
        }
    }
    Ok(descs)
}

/// The length of a region in bytes.
pub open spec fn region_bytes(desc: EfiMemoryDescriptor) -> int {
    desc.number_of_pages * EFI_PAGE_SIZE
}

/// Whether a region counts as free: whether its class is one of those that
/// are free for general use once boot services are retired.
pub open spec fn counts_as_free(desc: EfiMemoryDescriptor) -> bool {
    classify(desc.memory_type).is_available()
}

/// The bytes of all the regions among `descs` that count as free.
pub open spec fn free_bytes(descs: Seq<EfiMemoryDescriptor>) -> int
    decreases descs.len(),
{
    if descs.len() == 0 {
        0
    } else {
        free_bytes(descs.drop_last()) + if counts_as_free(descs.last()) {
            region_bytes(descs.last())
        } else {
            0
        }
    }
}

/// The free bytes of a prefix are no more than those of the whole.
pub proof fn lemma_free_bytes_grow(descs: Seq<EfiMemoryDescriptor>, k: int)
    requires
        0 <= k <= descs.len(),
    ensures
        0 <= free_bytes(descs.take(k)) <= free_bytes(descs),
    decreases descs.len(),
{
    if k == descs.len() {
        assert(descs.take(k) =~= descs);
        if k > 0 {
            lemma_free_bytes_grow(descs.drop_last(), k - 1);
        }
    } else {
        lemma_free_bytes_grow(descs.drop_last(), k);
        assert(descs.drop_last().take(k) =~= descs.take(k));
    }
}

impl EfiMemoryDescriptor {
    /// The class of the region.
    pub fn class(&self) -> (class: EfiMemoryType)
        ensures
            class == classify(self.memory_type),
    {
        EfiMemoryType::from(self.memory_type)
    }

    /// The length of the region in bytes, where that fits in 64 bits.
    pub fn size_in_bytes(&self) -> (size: Option<u64>)
        ensures
            match size {
                Some(bytes) => bytes == region_bytes(*self),
                None => region_bytes(*self) > u64::MAX,
            },
    {
        self.number_of_pages.checked_mul(EFI_PAGE_SIZE)
    }
}

/// Adds up the bytes of the regions that count as free. `None` where the sum
/// does not fit in 64 bits.
pub fn total_free_bytes(descs: &[EfiMemoryDescriptor]) -> (total: Option<u64>)
    ensures
        match total {
            Some(sum) => sum == free_bytes(descs@),
            None => free_bytes(descs@) > u64::MAX,
        },
{
    let mut free_memory: u64 = 0;
    let mut i: usize = 0;
    while i < descs.len()
        invariant
            i <= descs@.len(),
            free_memory == free_bytes(descs@.take(i as int)),
        decreases descs@.len() - i,
    {
        let desc = descs[i];
        proof {
            lemma_free_bytes_grow(descs@, i + 1);
            assert(descs@.take(i + 1).drop_last() =~= descs@.take(i as int));
        }
        if desc.class().avail_post_exit_boot_services() {
            let size = match desc.size_in_bytes() {
                Some(size) => size,
                None => {
                    return None;
                },
            };
            free_memory = match free_memory.checked_add(size) {
                Some(sum) => sum,
                None => {
                    return None;
                },
            };
        }
        i += 1;
    }
    assert(descs@.take(i as int) =~= descs@);
    Some(free_memory)
}

/// What a successful enumeration of memory yields.
#[derive(Debug)]
pub struct MemoryMap {
    /// The regions, in the order in which the firmware lists them.
    pub descriptors: Vec<EfiMemoryDescriptor>,
    /// The bytes that are free once boot services are retired.
    pub free_memory: u64,
}

/// Why the enumeration fails, if it does, given what the firmware answered:
/// its status, the `len` bytes of the buffer, the number of bytes it says it
/// used and the distance it reports between descriptors.
pub open spec fn map_error(status: EfiStatus, buf: Seq<u8>, used: int, stride: int) -> Option<
    MemoryMapError,
> {
    if status.0 & 5 != 0 {
        Some(MemoryMapError::BufferTooSmall { needed: used as usize })
    } else if status.0 != 0 {
        Some(MemoryMapError::Firmware { status })
    } else if walk_error(buf.len() as int, used, stride) is Some {
        walk_error(buf.len() as int, used, stride)
    } else if free_bytes(descriptors_from(buf, used, stride, 0)) > u64::MAX {
        Some(MemoryMapError::TotalOverflow)
    } else {
        None
    }
}

/// Reads the firmware's answer to a request for the memory map and totals
/// the free bytes.
///
/// `status` is what the call returned, `memory_map` the buffer it filled,
/// `size` the number of bytes it reports and `descriptor_size` the distance
/// in bytes from one descriptor to the next. A status with one of the bits
/// of the value 5 set says that the buffer was too small, and `size` is then
/// the size asked for; any other status but zero is a failure as well. On
/// success the descriptors are read at the reported distance and the pages
/// of each free region count 4096 bytes each.
pub fn get_memory_map(
    status: EfiStatus,
    memory_map: &[u8],
    size: usize,
    descriptor_size: usize,
) -> (res: Result<MemoryMap, MemoryMapError>)
    ensures
        match res {
            Ok(map) => {
                &&& map_error(status, memory_map@, size as int, descriptor_size as int) is None
                &&& map.descriptors@ == descriptors_from(
                    memory_map@,
                    size as int,
                    descriptor_size as int,
                    0,
                )
                &&& map.free_memory == free_bytes(map.descriptors@)
            },
            Err(e) => map_error(status, memory_map@, size as int, descriptor_size as int)
                == Some(e),
        },
{
    if status.0 & 5 != 0 {
        return Err(MemoryMapError::BufferTooSmall { needed: size });
    }
    if status.0 != 0 {
        return Err(MemoryMapError::Firmware { status });
    }
    let descriptors = match read_descriptors(memory_map, size, descriptor_size) {
        Ok(descriptors) => descriptors,
        Err(e) => {
            return Err(e);
        },
    };
    let total = total_free_bytes(descriptors.as_slice());
    match total {
        Some(free_memory) => Ok(MemoryMap { descriptors, free_memory }),
        None => Err(MemoryMapError::TotalOverflow),
    }
}

} // verus!
