use qecu::utils::loader::{assemble_elf, CodeSection, LoadError, Loader, SectionHeader, SegmentHeader};

struct Segment {
    kind: u32,
    offset: u32,
    vaddr: u32,
    filesz: u32,
}

struct Section {
    kind: u32,
    addr: u32,
    offset: u32,
    size: u32,
}

fn put16(image: &mut Vec<u8>, value: u16) {
    image.extend_from_slice(&value.to_le_bytes());
}

fn put32(image: &mut Vec<u8>, value: u32) {
    image.extend_from_slice(&value.to_le_bytes());
}

/// A little-endian 32-bit ELF image: the file header, the program headers,
/// the section headers, then `payload` from offset 0x200 on.
fn image(segments: &[Segment], sections: &[Section], payload: &[u8]) -> Vec<u8> {
    let phoff: u32 = if segments.is_empty() { 0 } else { 52 };
    let shoff: u32 = if sections.is_empty() { 0 } else { 52 + 32 * segments.len() as u32 };
    let mut image: Vec<u8> = vec![0x7f, b'E', b'L', b'F', 1, 1, 1, 0, 0, 0, 0, 0, 0, 0, 0, 0];
    put16(&mut image, 2);
    put16(&mut image, 44);
    put32(&mut image, 1);
    put32(&mut image, 0x8000_0000);
    put32(&mut image, phoff);
    put32(&mut image, shoff);
    put32(&mut image, 0);
    put16(&mut image, 52);
    put16(&mut image, 32);
    put16(&mut image, segments.len() as u16);
    put16(&mut image, 40);
    put16(&mut image, sections.len() as u16);
    put16(&mut image, 0);
    assert_eq!(image.len(), 52);
    for segment in segments {
        put32(&mut image, segment.kind);
        put32(&mut image, segment.offset);
        put32(&mut image, segment.vaddr);
        put32(&mut image, segment.vaddr);
        put32(&mut image, segment.filesz);
        put32(&mut image, segment.filesz);
        put32(&mut image, 7);
        put32(&mut image, 4);
    }
    for section in sections {
        put32(&mut image, 0);
        put32(&mut image, section.kind);
        put32(&mut image, 2);
        put32(&mut image, section.addr);
        put32(&mut image, section.offset);
        put32(&mut image, section.size);
        put32(&mut image, 0);
        put32(&mut image, 0);
        put32(&mut image, 4);
        put32(&mut image, 0);
    }
    assert!(image.len() <= 0x200);
    image.resize(0x200, 0);
    image.extend_from_slice(payload);
    image
}

fn payload() -> Vec<u8> {
    (1..=32u8).collect()
}

fn run(address: u64, data: &[u8]) -> CodeSection {
    CodeSection { address, size: data.len(), data: data.to_vec() }
}

const LOAD: u32 = 1;
const NOTE: u32 = 4;
const PROGBITS: u32 = 1;
const NOBITS: u32 = 8;

#[test]
fn loadable_segments_come_first_then_uncovered_sections() {
    let bytes = image(
        &[
            Segment { kind: LOAD, offset: 0x200, vaddr: 0x8000_0000, filesz: 8 },
            Segment { kind: NOTE, offset: 0x208, vaddr: 0x9000_0000, filesz: 4 },
            Segment { kind: LOAD, offset: 0x210, vaddr: 0x7000_0000, filesz: 2 },
        ],
        &[
            Section { kind: 0, addr: 0, offset: 0, size: 0 },
            Section { kind: PROGBITS, addr: 0x8000_0004, offset: 0x204, size: 4 },
            Section { kind: PROGBITS, addr: 0xA000_0000, offset: 0x20c, size: 4 },
            Section { kind: PROGBITS, addr: 0x8000_0008, offset: 0x218, size: 3 },
            Section { kind: NOBITS, addr: 0x7000_0002, offset: 0x21b, size: 64 },
            Section { kind: PROGBITS, addr: 0x7000_0001, offset: 0x211, size: 1 },
        ],
        &payload(),
    );
    let loaded = Loader::load_code_sections("elf", &bytes).unwrap();
    assert_eq!(
        loaded,
        vec![
            run(0x8000_0000, &[1, 2, 3, 4, 5, 6, 7, 8]),
            run(0x7000_0000, &[17, 18]),
            run(0, &[]),
            run(0xA000_0000, &[13, 14, 15, 16]),
            run(0x8000_0008, &[25, 26, 27]),
            run(0x7000_0002, &[]),
        ]
    );
    for section in &loaded {
        assert_eq!(section.size, section.data.len());
    }
    assert_eq!(Loader::load_elf_cs(&bytes), Ok(loaded));
}

#[test]
fn image_without_segments_loads_its_sections() {
    let bytes = image(
        &[],
        &[
            Section { kind: PROGBITS, addr: 0x8000_0000, offset: 0x200, size: 4 },
            Section { kind: PROGBITS, addr: 0x8000_0002, offset: 0x204, size: 4 },
        ],
        &payload(),
    );
    assert_eq!(
        Loader::load_code_sections("elf", &bytes),
        Ok(vec![run(0x8000_0000, &[1, 2, 3, 4]), run(0x8000_0002, &[5, 6, 7, 8])])
    );
}

#[test]
fn image_without_sections_loads_its_segments() {
    let bytes = image(
        &[
            Segment { kind: LOAD, offset: 0x21c, vaddr: 0x8000_0000, filesz: 4 },
            Segment { kind: LOAD, offset: 0x200, vaddr: 0x8000_0000, filesz: 1 },
        ],
        &[],
        &payload(),
    );
    assert_eq!(
        Loader::load_code_sections("elf", &bytes),
        Ok(vec![run(0x8000_0000, &[29, 30, 31, 32]), run(0x8000_0000, &[1])])
    );
}

#[test]
fn image_without_tables_loads_nothing() {
    let bytes = image(&[], &[], &payload());
    assert_eq!(Loader::load_code_sections("elf", &bytes), Ok(Vec::new()));
}

#[test]
fn unsupported_format_is_turned_down() {
    let bytes = image(&[], &[], &payload());
    assert_eq!(Loader::load_code_sections("ihex", &bytes), Err(LoadError::UnsupportedFormat));
    assert_eq!(Loader::load_code_sections("ELF", &bytes), Err(LoadError::UnsupportedFormat));
    assert_eq!(Loader::load_code_sections("", &[]), Err(LoadError::UnsupportedFormat));
}

#[test]
fn malformed_image_is_reported() {
    assert_eq!(Loader::load_code_sections("elf", &[]), Err(LoadError::Malformed));
    assert_eq!(Loader::load_code_sections("elf", b"not an elf file"), Err(LoadError::Malformed));
    let mut bytes = image(&[], &[], &payload());
    bytes[0] = 0x7e;
    assert_eq!(Loader::load_code_sections("elf", &bytes), Err(LoadError::Malformed));
    let mut truncated = image(
        &[Segment { kind: LOAD, offset: 0x200, vaddr: 0x8000_0000, filesz: 8 }],
        &[],
        &payload(),
    );
    truncated.truncate(60);
    assert_eq!(Loader::load_code_sections("elf", &truncated), Err(LoadError::Malformed));
}

#[test]
fn segment_data_past_the_end_of_the_image_is_reported() {
    let bytes = image(
        &[
            Segment { kind: LOAD, offset: 0x200, vaddr: 0x8000_0000, filesz: 8 },
            Segment { kind: NOTE, offset: 0x900, vaddr: 0x9000_0000, filesz: 4 },
            Segment { kind: LOAD, offset: 0x21e, vaddr: 0x7000_0000, filesz: 8 },
        ],
        &[Section { kind: PROGBITS, addr: 0x10, offset: 0x900, size: 4 }],
        &payload(),
    );
    assert_eq!(
        Loader::load_code_sections("elf", &bytes),
        Err(LoadError::SegmentData { index: 2 })
    );
}

#[test]
fn section_data_past_the_end_of_the_image_is_reported() {
    let bytes = image(
        &[Segment { kind: LOAD, offset: 0x200, vaddr: 0x8000_0000, filesz: 8 }],
        &[
            Section { kind: PROGBITS, addr: 0x8000_0001, offset: 0x900, size: 4 },
            Section { kind: PROGBITS, addr: 0x10, offset: 0x200, size: 4 },
            Section { kind: PROGBITS, addr: 0x20, offset: 0x21f, size: 4 },
        ],
        &payload(),
    );
    assert_eq!(
        Loader::load_code_sections("elf", &bytes),
        Err(LoadError::SectionData { index: 2 })
    );
}

#[test]
fn assembling_reads_the_data_by_table_index() {
    let bytes = image(
        &[
            Segment { kind: LOAD, offset: 0x200, vaddr: 0x8000_0000, filesz: 2 },
            Segment { kind: LOAD, offset: 0x202, vaddr: 0x8000_0002, filesz: 2 },
        ],
        &[Section { kind: PROGBITS, addr: 0x10, offset: 0x204, size: 2 }],
        &payload(),
    );
    // The caller's headers decide what is loaded and where; the data is
    // that of the image's entry at the same index.
    let segments = vec![
        SegmentHeader { kind: NOTE, vaddr: 0x8000_0000 },
        SegmentHeader { kind: LOAD, vaddr: 0x4000 },
    ];
    let sections = vec![SectionHeader { addr: 0x4001 }];
    assert_eq!(
        assemble_elf(&bytes, &segments, &sections),
        Ok(vec![run(0x4000, &[3, 4])])
    );
    let sections = vec![SectionHeader { addr: 0x4002 }];
    assert_eq!(
        assemble_elf(&bytes, &segments, &sections),
        Ok(vec![run(0x4000, &[3, 4]), run(0x4002, &[5, 6])])
    );
}

#[test]
fn no_container_format_describes_functions_yet() {
    let path = String::from("firmware.elf");
    assert!(Loader::load_functions("elf", &path).is_empty());
    assert!(Loader::load_functions("ihex", &path).is_empty());
}
