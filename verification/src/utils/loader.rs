//! Loading the parts of a binary image that go into emulated memory.
//!
//! An ELF image describes its contents twice: by segments, which say what a
//! loader puts where, and by sections, which say what the linker knew. The
//! two views overlap, and writing both into memory writes most bytes twice.
//! The loader takes the loadable segments as the canonical source and falls
//! back to a section only where no loaded segment holds the section's
//! address.

use crate::utils::workflow::{format_supported, is_supported_format};
use std::collections::HashMap;
use vstd::prelude::*;

verus! {

/// A run of bytes of the image together with the address it is loaded at.
#[derive(Clone, Debug, PartialEq, Eq)]
pub struct CodeSection {
    pub address: u64,
    /// Number of bytes in `data`.
    pub size: usize,
    pub data: Vec<u8>,
}

/// The mathematical value of a [`CodeSection`].
pub struct CodeSectionView {
    pub address: u64,
    pub data: Seq<u8>,
}

impl View for CodeSection {
    type V = CodeSectionView;

    open spec fn view(&self) -> CodeSectionView {
        CodeSectionView { address: self.address, data: self.data@ }
    }
}

impl CodeSection {
    /// The recorded size is the number of bytes held.
    pub open spec fn wf(&self) -> bool {
        self.size == self.data@.len()
    }
}

/// The views of a list of sections.
pub open spec fn sections_view(sections: Seq<CodeSection>) -> Seq<CodeSectionView> {
    sections.map_values(|s: CodeSection| s@)
}

/// Why an image could not be loaded.
#[derive(Clone, Copy, Debug, PartialEq, Eq, Structural)]
pub enum LoadError {
    /// The container format is not supported; `"elf"` is the one that is.
    UnsupportedFormat,
    /// The image is not a well-formed ELF file.
    Malformed,
    /// The file data of the loadable segment at index `index` of the
    /// program header table cannot be read.
    SegmentData { index: usize },
    /// The data of the section at index `index` of the section header table
    /// cannot be read.
    SectionData { index: usize },
}

/// What the loader reads of an entry of the program header table.
#[derive(Clone, Copy, Debug, PartialEq, Eq, Structural)]
pub struct SegmentHeader {
    /// The segment's type.
    pub kind: u32,
    /// The address at which the segment is loaded.
    pub vaddr: u64,
}

/// What the loader reads of an entry of the section header table.
#[derive(Clone, Copy, Debug, PartialEq, Eq, Structural)]
pub struct SectionHeader {
    /// The address at which the section resides in memory.
    pub addr: u64,
}

/// The type of a segment that is to be loaded into memory.
pub const PT_LOAD: u32 = 1;

/// Makes `elf::ParseError`, the error of the `elf` crate's parser, known as
/// a type. Nothing is claimed of its values.
#[verifier::external_type_specification]
#[verifier::external_body]
pub struct ExParseError(elf::ParseError);

/// The program header table of an ELF image, as the `elf` crate parses it:
/// `None` where the image's header cannot be parsed, `Some(None)` where the
/// image has no such table.
pub uninterp spec fn elf_segment_table(image: Seq<u8>) -> Option<Option<Seq<SegmentHeader>>>;

/// The file data of the segment at an index of the program header table, as
/// the `elf` crate reads it from the image: `None` where it cannot.
pub uninterp spec fn elf_segment_data(image: Seq<u8>, index: usize) -> Option<Seq<u8>>;

/// The section header table of an ELF image, as the `elf` crate parses it:
/// `None` where the image's header cannot be parsed, `Some(None)` where the
/// image has no such table.
pub uninterp spec fn elf_section_table(image: Seq<u8>) -> Option<Option<Seq<SectionHeader>>>;

/// The data of the section at an index of the section header table, as the
/// `elf` crate reads it from the image: `None` where it cannot.
pub uninterp spec fn elf_section_data(image: Seq<u8>, index: usize) -> Option<Seq<u8>>;

/// The view of bytes that may be missing.
pub open spec fn bytes_view(data: Option<Vec<u8>>) -> Option<Seq<u8>> {
    match data {
        Some(bytes) => Some(bytes@),
        None => None,
    }
}

/// The entries of the image's program header table, in table order.
///
/// Calls `ElfBytes::<AnyEndian>::minimal_parse` and `ElfBytes::segments`, and
/// walks the table with `ParsingTable::iter`, keeping the type and the
/// virtual address of each entry. The contract names the outcome: an error
/// where the parse fails, `None` where the image has no program headers.
#[verifier::external_body]
fn segment_table(image: &[u8]) -> (table: Result<Option<Vec<SegmentHeader>>, elf::ParseError>)
    ensures
        match table {
            Ok(Some(headers)) => elf_segment_table(image@) == Some(Some(headers@)),
            Ok(None) => elf_segment_table(image@) == Some(None::<Seq<SegmentHeader>>),
            Err(_) => elf_segment_table(image@) is None,
        },
{
    let file = elf::ElfBytes::<elf::endian::AnyEndian>::minimal_parse(image)?;
    Ok(file.segments().map(|table| {
        table.iter().map(|h| SegmentHeader { kind: h.p_type, vaddr: h.p_vaddr }).collect()
    }))
}

/// The file data of the segment at `index` of the image's program header
/// table.
///
/// Calls `ElfBytes::<AnyEndian>::minimal_parse`, `ElfBytes::segments`,
/// `ParsingTable::get` and `ElfBytes::segment_data`, and copies the bytes.
/// The contract names the outcome; it is `None` where any of the calls fails.
#[verifier::external_body]
fn segment_bytes(image: &[u8], index: usize) -> (data: Option<Vec<u8>>)
    ensures
        bytes_view(data) == elf_segment_data(image@, index),
{
    let file = elf::ElfBytes::<elf::endian::AnyEndian>::minimal_parse(image).ok()?;
    let header = file.segments()?.get(index).ok()?;
    file.segment_data(&header).ok().map(|bytes| bytes.to_vec())
}

/// The entries of the image's section header table, in table order.
///
/// Calls `ElfBytes::<AnyEndian>::minimal_parse` and
/// `ElfBytes::section_headers`, and walks the table with
/// `ParsingTable::iter`, keeping the address of each entry. The contract
/// names the outcome: an error where the parse fails, `None` where the image
/// has no section headers.
#[verifier::external_body]
fn section_table(image: &[u8]) -> (table: Result<Option<Vec<SectionHeader>>, elf::ParseError>)
    ensures
        match table {
            Ok(Some(headers)) => elf_section_table(image@) == Some(Some(headers@)),
            Ok(None) => elf_section_table(image@) == Some(None::<Seq<SectionHeader>>),
            Err(_) => elf_section_table(image@) is None,
        },
{
    let file = elf::ElfBytes::<elf::endian::AnyEndian>::minimal_parse(image)?;
    Ok(file.section_headers().map(|table| {
        table.iter().map(|h| SectionHeader { addr: h.sh_addr }).collect()
    }))
}

/// The data of the section at `index` of the image's section header table,
/// as it lies in the file: a compressed section is not decompressed.
///
/// Calls `ElfBytes::<AnyEndian>::minimal_parse`, `ElfBytes::section_headers`,
/// `ParsingTable::get` and `ElfBytes::section_data`, and copies the bytes.
/// The contract names the outcome; it is `None` where any of the calls fails.
#[verifier::external_body]
fn section_bytes(image: &[u8], index: usize) -> (data: Option<Vec<u8>>)
    ensures
        bytes_view(data) == elf_section_data(image@, index),
{
    let file = elf::ElfBytes::<elf::endian::AnyEndian>::minimal_parse(image).ok()?;
    let header = file.section_headers()?.get(index).ok()?;
    file.section_data(&header).ok().map(|found| found.0.to_vec())
}

/// The indices below `n`, in rising order.
pub open spec fn indices(n: nat) -> Seq<int> {
    Seq::new(n, |i: int| i)
}

/// The indices, among the first `n` program headers, of the segments that
/// are to be loaded.
pub open spec fn loadable_indices(headers: Seq<SegmentHeader>, n: nat) -> Seq<int> {
    indices(n).filter(|i: int| headers[i].kind == PT_LOAD)
}

/// What is loaded for the loadable segments among the first `n` program
/// headers: the file data of each at its virtual address, in table order.
pub open spec fn loaded_segments(image: Seq<u8>, headers: Seq<SegmentHeader>, n: nat) -> Seq<
    CodeSectionView,
> {
    loadable_indices(headers, n).map_values(
        |i: int|
            CodeSectionView {
                address: headers[i].vaddr,
                data: elf_segment_data(image, i as usize)->0,
            },
    )
}

/// The file data of every loadable segment among the first `n` program
/// headers can be read.
pub open spec fn segments_ok(image: Seq<u8>, headers: Seq<SegmentHeader>, n: nat) -> bool {
    forall|i: int|
        0 <= i < n && headers[i].kind == PT_LOAD ==> #[trigger] elf_segment_data(
            image,
            i as usize,
        ) is Some
}

/// Some loaded run of bytes holds the address `addr`.
pub open spec fn covered(loaded: Seq<CodeSectionView>, addr: u64) -> bool {
    exists|k: int|
        0 <= k < loaded.len() && (#[trigger] loaded[k]).address <= addr < loaded[k].address
            + loaded[k].data.len()
}

/// The indices, among the first `n` section headers, of the sections whose
/// address no loaded segment holds.
pub open spec fn fallback_indices(
    loaded: Seq<CodeSectionView>,
    headers: Seq<SectionHeader>,
    n: nat,
) -> Seq<int> {
    indices(n).filter(|i: int| !covered(loaded, headers[i].addr))
}

/// What is loaded for the sections, among the first `n`, whose address no
/// loaded segment holds: the data of each at its address, in table order.
pub open spec fn fallback_sections(
    image: Seq<u8>,
    loaded: Seq<CodeSectionView>,
    headers: Seq<SectionHeader>,
    n: nat,
) -> Seq<CodeSectionView> {
    fallback_indices(loaded, headers, n).map_values(
        |i: int|
            CodeSectionView {
                address: headers[i].addr,
                data: elf_section_data(image, i as usize)->0,
            },
    )
}

/// The data of every section, among the first `n`, whose address no loaded
/// segment holds can be read.
pub open spec fn sections_ok(
    image: Seq<u8>,
    loaded: Seq<CodeSectionView>,
    headers: Seq<SectionHeader>,
    n: nat,
) -> bool {
    forall|i: int|
        0 <= i < n && !covered(loaded, headers[i].addr) ==> #[trigger] elf_section_data(
            image,
            i as usize,
        ) is Some
}

/// The entries of a table that may be missing; a missing table has none.
pub open spec fn entries<T>(table: Option<Seq<T>>) -> Seq<T> {
    match table {
        Some(entries) => entries,
        None => Seq::empty(),
    }
}

/// What loading the ELF image `image` comes to, given its program headers
/// `segments` and its section headers `sections`.
///
/// Every loadable segment is loaded, in table order; then every section
/// whose address no loaded segment holds, in table order. The first piece of
/// data that cannot be read is reported, segments before sections.
pub open spec fn elf_assembles(
    image: Seq<u8>,
    segments: Seq<SegmentHeader>,
    sections: Seq<SectionHeader>,
    result: Result<Seq<CodeSectionView>, LoadError>,
) -> bool {
    let loaded = loaded_segments(image, segments, segments.len());
    match result {
        Ok(list) => {
            &&& segments_ok(image, segments, segments.len())
            &&& sections_ok(image, loaded, sections, sections.len())
            &&& list == loaded + fallback_sections(image, loaded, sections, sections.len())
        },
        Err(LoadError::SegmentData { index }) => {
            &&& index < segments.len()
            &&& segments[index as int].kind == PT_LOAD
            &&& elf_segment_data(image, index) is None
            &&& segments_ok(image, segments, index as nat)
        },
        Err(LoadError::SectionData { index }) => {
            &&& segments_ok(image, segments, segments.len())
            &&& index < sections.len()
            &&& !covered(loaded, sections[index as int].addr)
            &&& elf_section_data(image, index) is None
            &&& sections_ok(image, loaded, sections, index as nat)
        },
        Err(_) => false,
    }
}

/// What loading the ELF image `image` comes to: it is malformed where the
/// `elf` crate cannot parse its header, and otherwise assembled from its
/// two tables as [`elf_assembles`] says.
pub open spec fn elf_loads(image: Seq<u8>, result: Result<Seq<CodeSectionView>, LoadError>)
    -> bool {
    match (elf_segment_table(image), elf_section_table(image)) {
        (Some(segments), Some(sections)) => elf_assembles(
            image,
            entries(segments),
            entries(sections),
            result,
        ),
        _ => result == Err::<Seq<CodeSectionView>, LoadError>(LoadError::Malformed),
    }
}

/// An image loads to one outcome only.
pub proof fn lemma_elf_loads_unique(
    image: Seq<u8>,
    first: Result<Seq<CodeSectionView>, LoadError>,
    second: Result<Seq<CodeSectionView>, LoadError>,
)
    requires
        elf_loads(image, first),
        elf_loads(image, second),
    ensures
        first == second,
{
    match (elf_segment_table(image), elf_section_table(image)) {
        (Some(segments), Some(sections)) => {
            lemma_elf_assembles_unique(
                image,
                entries(segments),
                entries(sections),
                first,
                second,
            );
        },
        _ => {},
    }
}

/// The tables of an image assemble to one outcome only.
pub proof fn lemma_elf_assembles_unique(
    image: Seq<u8>,
    segments: Seq<SegmentHeader>,
    sections: Seq<SectionHeader>,
    first: Result<Seq<CodeSectionView>, LoadError>,
    second: Result<Seq<CodeSectionView>, LoadError>,
)
    requires
        elf_assembles(image, segments, sections, first),
        elf_assembles(image, segments, sections, second),
    ensures
        first == second,
{
    let loaded = loaded_segments(image, segments, segments.len());
    if let Err(LoadError::SegmentData { index }) = first {
        assert(!segments_ok(image, segments, segments.len())) by {
            assert(elf_segment_data(image, (index as int) as usize) is None);
        }
        if let Err(LoadError::SegmentData { index: other }) = second {
            if index < other {
                assert(elf_segment_data(image, (index as int) as usize) is None);
            }
            if other < index {
                assert(elf_segment_data(image, (other as int) as usize) is None);
            }
        }
    }
    if let Err(LoadError::SegmentData { index }) = second {
        assert(!segments_ok(image, segments, segments.len())) by {
            assert(elf_segment_data(image, (index as int) as usize) is None);
        }
    }
    if let Err(LoadError::SectionData { index }) = first {
        assert(!sections_ok(image, loaded, sections, sections.len())) by {
            assert(elf_section_data(image, (index as int) as usize) is None);
        }
        if let Err(LoadError::SectionData { index: other }) = second {
            if index < other {
                assert(elf_section_data(image, (index as int) as usize) is None);
            }
            if other < index {
                assert(elf_section_data(image, (other as int) as usize) is None);
            }
        }
    }
    if let Err(LoadError::SectionData { index }) = second {
        assert(!sections_ok(image, loaded, sections, sections.len())) by {
            assert(elf_section_data(image, (index as int) as usize) is None);
        }
    }
}

/// The view of the outcome of a load.
pub open spec fn load_view(result: Result<Vec<CodeSection>, LoadError>) -> Result<
    Seq<CodeSectionView>,
    LoadError,
> {
    match result {
        Ok(list) => Ok(sections_view(list@)),
        Err(e) => Err(e),
    }
}

proof fn lemma_indices_step(n: nat)
    ensures
        indices(n + 1).drop_last() == indices(n),
        indices(n + 1).last() == n,
{
    assert(indices(n + 1).drop_last() =~= indices(n));
}

/// Whether one of the first `count` runs of `list` holds the address `addr`.
fn is_covered(list: &Vec<CodeSection>, count: usize, addr: u64) -> (found: bool)
    requires
        count <= list@.len(),
    ensures
        found == covered(sections_view(list@).take(count as int), addr),
{
    let ghost loaded = sections_view(list@).take(count as int);
    let mut k: usize = 0;
    while k < count
        invariant
            0 <= k <= count <= list@.len(),
            loaded == sections_view(list@).take(count as int),
            forall|j: int|
                0 <= j < k ==> !((#[trigger] loaded[j]).address <= addr < loaded[j].address
                    + loaded[j].data.len()),
        decreases count - k,
    {
        let run = &list[k];
        assert(loaded[k as int] == run@);
        if run.address <= addr && ((addr - run.address) as u128) < (run.data.len() as u128) {
            return true;
        }
        k += 1;
    }
    false
}

/// Assembles what is loaded of the ELF image `image` from its program
/// headers `segments` and its section headers `sections`: see
/// [`elf_assembles`].
pub fn assemble_elf(image: &[u8], segments: &Vec<SegmentHeader>, sections: &Vec<SectionHeader>)
    -> (result: Result<Vec<CodeSection>, LoadError>)
    ensures
        elf_assembles(image@, segments@, sections@, load_view(result)),
        result matches Ok(list) ==> forall|i: int|
            0 <= i < list@.len() ==> (#[trigger] list@[i]).wf(),
{
    let mut list: Vec<CodeSection> = Vec::new();
    let mut i: usize = 0;
    proof {
        reveal(Seq::filter);
    }
    while i < segments.len()
        invariant
            0 <= i <= segments.len(),
            segments_ok(image@, segments@, i as nat),
            sections_view(list@) == loaded_segments(image@, segments@, i as nat),
            forall|k: int| 0 <= k < list@.len() ==> (#[trigger] list@[k]).wf(),
        decreases segments.len() - i,
    {
        let header = segments[i];
        proof {
            reveal(Seq::filter);
            lemma_indices_step(i as nat);
        }
        if header.kind == PT_LOAD {
            match segment_bytes(image, i) {
                Some(data) => {
                    let ghost old_list = list@;
                    let run = CodeSection { address: header.vaddr, size: data.len(), data };
                    list.push(run);
                    proof {
                        assert(sections_view(list@) =~= sections_view(old_list).push(run@));
                        assert(loaded_segments(image@, segments@, (i + 1) as nat)
                            =~= loaded_segments(image@, segments@, i as nat).push(run@));
                    }
                },
                None => {
                    return Err(LoadError::SegmentData { index: i });
                },
            }
        } else {
            proof {
                assert(loaded_segments(image@, segments@, (i + 1) as nat) =~= loaded_segments(
                    image@,
                    segments@,
                    i as nat,
                ));
            }
        }
        i += 1;
    }
    let count = list.len();
    let ghost loaded = sections_view(list@);
    let mut j: usize = 0;
    while j < sections.len()
        invariant
            0 <= j <= sections.len(),
            count <= list@.len(),
            loaded == loaded_segments(image@, segments@, segments@.len()),
            sections_view(list@).take(count as int) == loaded,
            segments_ok(image@, segments@, segments@.len()),
            sections_ok(image@, loaded, sections@, j as nat),
            sections_view(list@) == loaded + fallback_sections(
                image@,
                loaded,
                sections@,
                j as nat,
            ),
            forall|k: int| 0 <= k < list@.len() ==> (#[trigger] list@[k]).wf(),
        decreases sections.len() - j,
    {
        let header = sections[j];
        proof {
            reveal(Seq::filter);
            lemma_indices_step(j as nat);
        }
        if !is_covered(&list, count, header.addr) {
            match section_bytes(image, j) {
                Some(data) => {
                    let ghost old_list = list@;
                    let run = CodeSection { address: header.addr, size: data.len(), data };
                    list.push(run);
                    proof {
                        assert(sections_view(list@) =~= sections_view(old_list).push(run@));
                        assert(fallback_sections(image@, loaded, sections@, (j + 1) as nat)
                            =~= fallback_sections(image@, loaded, sections@, j as nat).push(run@));
                        assert(sections_view(list@).take(count as int) =~= loaded);
                    }
                },
                None => {
                    return Err(LoadError::SectionData { index: j });
                },
            }
        } else {
            proof {
                assert(fallback_sections(image@, loaded, sections@, (j + 1) as nat)
                    =~= fallback_sections(image@, loaded, sections@, j as nat));
            }
        }
        j += 1;
    }
    Ok(list)
}

/// The image loader.
pub struct Loader {}

impl Loader {
    /// What is loaded of the ELF image `image`: see [`elf_loads`].
    pub fn load_elf_cs(image: &[u8]) -> (result: Result<Vec<CodeSection>, LoadError>)
        ensures
            elf_loads(image@, load_view(result)),
            result matches Ok(list) ==> forall|i: int|
                0 <= i < list@.len() ==> (#[trigger] list@[i]).wf(),
    {
        let segments = match segment_table(image) {
            Ok(Some(headers)) => headers,
            Ok(None) => Vec::new(),
            Err(_) => {
                return Err(LoadError::Malformed);
            },
        };
        let sections = match section_table(image) {
            Ok(Some(headers)) => headers,
            Ok(None) => Vec::new(),
            Err(_) => {
                return Err(LoadError::Malformed);
            },
        };
        assemble_elf(image, &segments, &sections)
    }

    /// The runs of bytes that go into memory for the image `image` of the
    /// container format `format`, each with its address, in loading order.
    ///
    /// Only `"elf"` is supported; any other format is turned down.
    pub fn load_code_sections(format: &str, image: &[u8]) -> (result: Result<
        Vec<CodeSection>,
        LoadError,
    >)
        ensures
            if format_supported(format@) {
                elf_loads(image@, load_view(result))
            } else {
                result == Err::<Vec<CodeSection>, LoadError>(LoadError::UnsupportedFormat)
            },
            result matches Ok(list) ==> forall|i: int|
                0 <= i < list@.len() ==> (#[trigger] list@[i]).wf(),
    {
        if is_supported_format(format) {
            Self::load_elf_cs(image)
        } else {
            Err(LoadError::UnsupportedFormat)
        }
    }

    /// The functions of the image at `path`, by name, each with its address.
    /// No container format describes any yet: the table is empty.
    pub fn load_functions(format: &str, path: &String) -> (functions: HashMap<String, u64>)
        ensures
            functions@ == Map::<String, u64>::empty(),
    {
        HashMap::new()
    }
}

} // verus!
