use efi_boot::efi::EfiStatus;
use efi_boot::memory_map::{
    get_memory_map, read_descriptor, read_descriptors, total_free_bytes, EfiMemoryDescriptor,
    EfiMemoryType, MemoryMapError, DESCRIPTOR_SIZE, EFI_PAGE_SIZE, MAX_MEMORY_REGIONS,
    MEMORY_MAP_BYTES,
};

fn descriptor(memory_type: u32, pages: u64) -> EfiMemoryDescriptor {
    EfiMemoryDescriptor {
        memory_type,
        physical_start: 0x0010_0000 + 0x1000 * u64::from(memory_type),
        virtual_start: 0xffff_8000_0000_0000 + u64::from(memory_type),
        number_of_pages: pages,
        attribute: 0x8000_0000_0000_000f,
    }
}

fn lay_out(descs: &[EfiMemoryDescriptor], stride: usize, filler: u8) -> Vec<u8> {
    let mut buf = Vec::new();
    for desc in descs {
        let start = buf.len();
        buf.extend_from_slice(&desc.memory_type.to_le_bytes());
        buf.extend_from_slice(&[filler; 4]);
        buf.extend_from_slice(&desc.physical_start.to_le_bytes());
        buf.extend_from_slice(&desc.virtual_start.to_le_bytes());
        buf.extend_from_slice(&desc.number_of_pages.to_le_bytes());
        buf.extend_from_slice(&desc.attribute.to_le_bytes());
        buf.resize(start + stride, filler);
    }
    buf
}

#[test]
fn constants_have_their_values() {
    assert_eq!(EFI_PAGE_SIZE, 4096);
    assert_eq!(MAX_MEMORY_REGIONS, 8);
    assert_eq!(MEMORY_MAP_BYTES, 8192);
    assert_eq!(DESCRIPTOR_SIZE, 40);
}

#[test]
fn every_known_code_has_its_class() {
    let classes = [
        EfiMemoryType::EfiReservedMemoryType,
        EfiMemoryType::EfiLoaderCode,
        EfiMemoryType::EfiLoaderData,
        EfiMemoryType::EfiBootServicesCode,
        EfiMemoryType::EfiBootServicesData,
        EfiMemoryType::EfiRuntimeServicesCode,
        EfiMemoryType::EfiRuntimeServicesData,
        EfiMemoryType::EfiConventionalMemory,
        EfiMemoryType::EfiUnusableMemory,
        EfiMemoryType::EfiACPIReclaimMemory,
        EfiMemoryType::EfiACPIMemoryNVS,
        EfiMemoryType::EfiMemoryMappedIO,
        EfiMemoryType::EfiMemoryMappedIOPortSpace,
        EfiMemoryType::EfiPalCode,
        EfiMemoryType::EfiPersistentMemory,
    ];
    let mut code: u32 = 0;
    for class in classes {
        assert_eq!(EfiMemoryType::from(code), class);
        code += 1;
    }
    assert_eq!(code, 15);
}

#[test]
fn every_other_code_is_invalid() {
    for code in [15u32, 16, 17, 100, 0x7fff_ffff, 0x8000_0000, u32::MAX] {
        assert_eq!(EfiMemoryType::from(code), EfiMemoryType::Invalid);
    }
}

#[test]
fn four_classes_are_free_after_boot_services() {
    for code in 0..=20u32 {
        let class = EfiMemoryType::from(code);
        let expected = code == 3 || code == 4 || code == 7 || code == 14;
        assert_eq!(class.avail_post_exit_boot_services(), expected);
    }
    assert!(!EfiMemoryType::Invalid.avail_post_exit_boot_services());
}

#[test]
fn descriptor_fields_are_read_little_endian() {
    let mut buf = vec![0xeeu8; 3];
    buf.extend_from_slice(&[0x07, 0x00, 0x00, 0x00]);
    buf.extend_from_slice(&[0xaa, 0xbb, 0xcc, 0xdd]);
    buf.extend_from_slice(&[0x00, 0x10, 0x20, 0x30, 0x40, 0x50, 0x60, 0x70]);
    buf.extend_from_slice(&[0x01, 0x02, 0x03, 0x04, 0x05, 0x06, 0x07, 0x08]);
    buf.extend_from_slice(&[0x0a, 0x00, 0x00, 0x00, 0x00, 0x00, 0x00, 0x00]);
    buf.extend_from_slice(&[0xff, 0xff, 0xff, 0xff, 0xff, 0xff, 0xff, 0xff]);
    let desc = read_descriptor(&buf, 3);
    assert_eq!(desc.memory_type, 7);
    assert_eq!(desc.physical_start, 0x7060_5040_3020_1000);
    assert_eq!(desc.virtual_start, 0x0807_0605_0403_0201);
    assert_eq!(desc.number_of_pages, 10);
    assert_eq!(desc.attribute, u64::MAX);
    assert_eq!(desc.class(), EfiMemoryType::EfiConventionalMemory);
    assert_eq!(desc.size_in_bytes(), Some(40960));
}

#[test]
fn descriptor_type_code_uses_all_four_bytes() {
    let buf = lay_out(&[descriptor(0x8765_4321, 1)], 40, 0);
    let desc = read_descriptor(&buf, 0);
    assert_eq!(desc.memory_type, 0x8765_4321);
    assert_eq!(desc.class(), EfiMemoryType::Invalid);
}

#[test]
fn walk_at_nominal_stride() {
    let descs = vec![descriptor(7, 10), descriptor(8, 5), descriptor(4, 2)];
    let buf = lay_out(&descs, 40, 0);
    assert_eq!(read_descriptors(&buf, buf.len(), 40), Ok(descs));
}

#[test]
fn walk_with_padded_stride_reads_every_field() {
    let descs = vec![
        descriptor(7, 10),
        descriptor(8, 5),
        descriptor(4, 2),
        descriptor(14, 0x1234_5678_9abc),
    ];
    let buf = lay_out(&descs, 48, 0xa5);
    assert_eq!(buf.len(), 4 * 48);
    let got = read_descriptors(&buf, buf.len(), 48).unwrap();
    assert_eq!(got.len(), 4);
    for (got, want) in got.iter().zip(descs.iter()) {
        assert_eq!(got.memory_type, want.memory_type);
        assert_eq!(got.physical_start, want.physical_start);
        assert_eq!(got.virtual_start, want.virtual_start);
        assert_eq!(got.number_of_pages, want.number_of_pages);
        assert_eq!(got.attribute, want.attribute);
    }
}

#[test]
fn walk_ignores_what_the_padding_holds() {
    let descs = vec![descriptor(3, 1), descriptor(9, 2), descriptor(14, 3)];
    let zeros = lay_out(&descs, 56, 0x00);
    let ones = lay_out(&descs, 56, 0xff);
    assert_eq!(read_descriptors(&zeros, zeros.len(), 56), Ok(descs.clone()));
    assert_eq!(read_descriptors(&ones, ones.len(), 56), Ok(descs));
}

#[test]
fn walk_reads_only_the_bytes_in_use() {
    let descs = vec![descriptor(7, 10), descriptor(8, 5), descriptor(4, 2)];
    let mut buf = lay_out(&descs, 48, 0);
    buf.resize(MEMORY_MAP_BYTES, 0);
    assert_eq!(read_descriptors(&buf, 0, 48), Ok(vec![]));
    assert_eq!(read_descriptors(&buf, 48, 48), Ok(descs[..1].to_vec()));
    assert_eq!(read_descriptors(&buf, 96, 48), Ok(descs[..2].to_vec()));
    assert_eq!(read_descriptors(&buf, 136, 48), Ok(descs.clone()));
    assert_eq!(read_descriptors(&buf, 144, 48), Ok(descs));
}

#[test]
fn walk_rejects_zero_stride() {
    let buf = lay_out(&[descriptor(7, 10)], 40, 0);
    assert_eq!(read_descriptors(&buf, 40, 0), Err(MemoryMapError::ZeroStride));
    assert_eq!(read_descriptors(&buf, 0, 0), Err(MemoryMapError::ZeroStride));
}

#[test]
fn walk_rejects_a_cut_descriptor() {
    let descs = vec![descriptor(7, 10), descriptor(8, 5)];
    let buf = lay_out(&descs, 48, 0);
    assert_eq!(read_descriptors(&buf, 39, 48), Err(MemoryMapError::Truncated { offset: 0 }));
    assert_eq!(read_descriptors(&buf, 49, 48), Err(MemoryMapError::Truncated { offset: 48 }));
    assert_eq!(read_descriptors(&buf, 97, 48), Err(MemoryMapError::Truncated { offset: 96 }));
    assert_eq!(
        read_descriptors(&buf[..80], 96, 48),
        Err(MemoryMapError::Truncated { offset: 48 })
    );
    assert_eq!(read_descriptors(&[], 1, 1), Err(MemoryMapError::Truncated { offset: 0 }));
}

#[test]
fn walk_with_a_stride_near_the_limit_stops_after_one() {
    let descs = vec![descriptor(7, 10)];
    let buf = lay_out(&descs, 40, 0);
    assert_eq!(read_descriptors(&buf, 40, usize::MAX), Ok(descs));
}

#[test]
fn free_total_counts_only_free_classes() {
    let descs = vec![descriptor(7, 10), descriptor(8, 5), descriptor(4, 2)];
    assert_eq!(total_free_bytes(&descs), Some(49152));
    assert_eq!(total_free_bytes(&[]), Some(0));
    let all: Vec<EfiMemoryDescriptor> = (0..20u32).map(|code| descriptor(code, 1)).collect();
    assert_eq!(total_free_bytes(&all), Some(4 * 4096));
}

#[test]
fn free_total_reports_overflow() {
    let huge = descriptor(7, 1 << 52);
    assert_eq!(huge.size_in_bytes(), None);
    assert_eq!(total_free_bytes(&[huge]), None);
    let half = descriptor(7, 1 << 51);
    assert_eq!(half.size_in_bytes(), Some(1 << 63));
    assert_eq!(total_free_bytes(&[half]), Some(1 << 63));
    assert_eq!(total_free_bytes(&[half, half]), None);
    let not_free = descriptor(8, 1 << 52);
    assert_eq!(total_free_bytes(&[not_free, half]), Some(1 << 63));
    let most = descriptor(14, (1 << 52) - 1);
    assert_eq!(total_free_bytes(&[most]), Some(u64::MAX - 4095));
    assert_eq!(total_free_bytes(&[most, descriptor(3, 1)]), None);
}

#[test]
fn three_region_map_totals_free_bytes() {
    let descs = vec![descriptor(7, 10), descriptor(8, 5), descriptor(4, 2)];
    let mut buf = lay_out(&descs, 48, 0);
    let used = buf.len();
    buf.resize(MEMORY_MAP_BYTES, 0);
    let map = get_memory_map(EfiStatus(0), &buf, used, 48).unwrap();
    assert_eq!(map.free_memory, (10 + 2) * 4096);
    assert_eq!(map.free_memory, 49152);
    assert_eq!(map.descriptors, descs);
}

#[test]
fn map_with_unknown_class_leaves_it_out() {
    let descs = vec![descriptor(99, 7), descriptor(15, 7), descriptor(14, 1)];
    let buf = lay_out(&descs, 40, 0);
    let map = get_memory_map(EfiStatus(0), &buf, buf.len(), 40).unwrap();
    assert_eq!(map.free_memory, 4096);
    assert_eq!(map.descriptors.len(), 3);
}

#[test]
fn map_reports_buffer_too_small() {
    let buf = vec![0u8; MEMORY_MAP_BYTES];
    let too_small = EfiStatus((1usize << (usize::BITS - 1)) | 5);
    assert_eq!(
        get_memory_map(too_small, &buf, 12288, 48).unwrap_err(),
        MemoryMapError::BufferTooSmall { needed: 12288 }
    );
    assert_eq!(
        get_memory_map(EfiStatus(5), &buf, 0, 0).unwrap_err(),
        MemoryMapError::BufferTooSmall { needed: 0 }
    );
    assert_eq!(
        get_memory_map(EfiStatus(4), &buf, 7, 40).unwrap_err(),
        MemoryMapError::BufferTooSmall { needed: 7 }
    );
}

#[test]
fn map_reports_other_firmware_failures() {
    let buf = vec![0u8; MEMORY_MAP_BYTES];
    let invalid_parameter = EfiStatus((1usize << (usize::BITS - 1)) | 2);
    assert_eq!(
        get_memory_map(invalid_parameter, &buf, 80, 40).unwrap_err(),
        MemoryMapError::Firmware { status: invalid_parameter }
    );
    assert_eq!(
        get_memory_map(EfiStatus(2), &buf, 0, 0).unwrap_err(),
        MemoryMapError::Firmware { status: EfiStatus(2) }
    );
}

#[test]
fn map_reports_walk_and_total_errors() {
    let buf = lay_out(&[descriptor(7, 1 << 52)], 40, 0);
    assert_eq!(
        get_memory_map(EfiStatus(0), &buf, 40, 0).unwrap_err(),
        MemoryMapError::ZeroStride
    );
    assert_eq!(
        get_memory_map(EfiStatus(0), &buf, 41, 40).unwrap_err(),
        MemoryMapError::Truncated { offset: 40 }
    );
    assert_eq!(
        get_memory_map(EfiStatus(0), &buf, 40, 40).unwrap_err(),
        MemoryMapError::TotalOverflow
    );
}

#[test]
fn empty_map_has_nothing_free() {
    let buf = vec![0u8; MEMORY_MAP_BYTES];
    let map = get_memory_map(EfiStatus(0), &buf, 0, 48).unwrap();
    assert_eq!(map.free_memory, 0);
    assert!(map.descriptors.is_empty());
}
