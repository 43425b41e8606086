//! What the loader reads of an executable image, and the parser that finds it.

use vstd::prelude::*;

verus! {

/// Object file kind of a position-independent image.
pub const ET_DYN: u16 = 3;

/// Machine number of x86-64, the architecture of the host.
pub const ELF_HOST_ARCH: u16 = 62;

/// Kind of a segment that is loaded into memory.
pub const PT_LOAD: u32 = 1;

/// Kind of the segment that holds the template of thread-local storage.
pub const PT_TLS: u32 = 7;

/// Kind of the x86-64 relocation that adds the load base to an addend.
pub const R_X86_64_RELATIVE: u32 = 8;

/// Kind of the AArch64 relocation that adds the load base to an addend.
pub const R_AARCH64_RELATIVE: u32 = 1027;

/// One entry of the program header table.
#[derive(Clone, Copy, Debug, PartialEq, Eq, Structural)]
pub struct ProgramHeader {
    /// Kind of the segment.
    pub p_type: u32,
    /// Offset of the segment's bytes in the file.
    pub p_offset: u64,
    /// Address of the segment in the image.
    pub p_vaddr: u64,
    /// Number of the bytes that the file holds of the segment.
    pub p_filesz: u64,
    /// Number of the bytes that the segment takes in memory.
    pub p_memsz: u64,
    /// Alignment of the segment.
    pub p_align: u64,
}

/// One dynamic relocation of a table with addends.
#[derive(Clone, Copy, Debug)]
pub struct Rela {
    /// Kind of the relocation.
    pub r_type: u32,
    /// Offset in the image of the word to patch.
    pub r_offset: u64,
    /// Value to add to the load base, where the entry has one.
    pub r_addend: Option<i64>,
}

/// One note of a note segment.
#[derive(Debug)]
pub struct Note {
    /// Kind of the note.
    pub n_type: u32,
    /// Name of the note's owner, without the terminator.
    pub name: Vec<u8>,
    /// The note's descriptor.
    pub desc: Vec<u8>,
}

/// The notes of an image.
#[derive(Debug)]
pub enum Notes {
    /// The image has no note segment.
    Absent,
    /// A note of the image cannot be read.
    Malformed,
    /// The notes of all note segments, in file order.
    Present(Vec<Note>),
}

/// What the loader reads of a parsed image.
#[derive(Debug)]
pub struct ElfImage {
    /// Kind of the object file.
    pub e_type: u16,
    /// Machine that the image is for.
    pub e_machine: u16,
    /// Entry point as the file states it.
    pub entry: u64,
    /// Number of the shared libraries that the image asks for.
    pub libraries: usize,
    /// The program header table.
    pub program_headers: Vec<ProgramHeader>,
    /// The dynamic relocations with addends.
    pub dynrelas: Vec<Rela>,
}

impl ElfImage {
    /// Whether the image is position-independent.
    pub open spec fn is_dyn(&self) -> bool {
        self.e_type == ET_DYN
    }
}

/// `goblin::error::Error`, which is carried through as it is.
#[verifier::external_type_specification]
#[verifier::external_body]
pub struct ExGoblinError(goblin::error::Error);

/// What `goblin::elf::Elf::parse` makes of the bytes of a file, where it accepts them.
pub uninterp spec fn parsed_elf(image: Seq<u8>) -> Option<ElfImage>;

/// What `goblin::elf::Elf::iter_note_headers` finds in the bytes of a file.
pub uninterp spec fn note_headers(image: Seq<u8>) -> Notes;

/// Parses `image` with `goblin::elf::Elf::parse` and picks from the result the
/// fields that the loader reads: header, program headers, the libraries'
/// number, and the relocations with addends. Claimed without proof: goblin
/// returns for every file, the result depends on the bytes alone, and it is
/// an error exactly where goblin rejects them.
#[verifier::external_body]
pub(crate) fn parse_elf(image: &[u8]) -> (r: Result<ElfImage, goblin::error::Error>)
    ensures
        r is Ok <==> parsed_elf(image@) is Some,
        r matches Ok(elf) ==> parsed_elf(image@) == Some(elf),
{
    let elf = goblin::elf::Elf::parse(image)?;
    Ok(ElfImage {
        e_type: elf.header.e_type,
        e_machine: elf.header.e_machine,
        entry: elf.entry,
        libraries: elf.libraries.len(),
        program_headers: elf.program_headers.iter().map(|p| ProgramHeader { p_type: p.p_type, p_offset: p.p_offset, p_vaddr: p.p_vaddr, p_filesz: p.p_filesz, p_memsz: p.p_memsz, p_align: p.p_align }).collect(),
        dynrelas: elf.dynrelas.iter().map(|r| Rela { r_type: r.r_type, r_offset: r.r_offset, r_addend: r.r_addend }).collect(),
    })
}

/// Walks the notes of the note segments of `image` with
/// `goblin::elf::Elf::iter_note_headers`. `Absent` where the image does not
/// parse or has no note segment, `Malformed` where goblin fails on a note.
/// Claimed without proof: goblin returns for every file, and the result
/// depends on the bytes alone.
#[verifier::external_body]
pub(crate) fn read_notes(image: &[u8]) -> (r: Notes)
    ensures
        r == note_headers(image@),
{
    let elf = goblin::elf::Elf::parse(image).ok();
    match elf.and_then(|elf| elf.iter_note_headers(image)) {
        None => Notes::Absent,
        Some(notes) => match notes.map(|n| n.map(|n| Note { n_type: n.n_type, name: n.name.as_bytes().to_vec(), desc: n.desc.to_vec() })).collect::<Result<Vec<Note>, goblin::error::Error>>() {
            Ok(notes) => Notes::Present(notes),
            Err(_) => Notes::Malformed,
        },
    }
}

} // verus!
