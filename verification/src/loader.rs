//! The rules by which a parsed image is placed into guest memory.

use vstd::prelude::*;
use crate::boot_info::{
    default_tls_info, entry_version_note_type, TlsInfo, HERMIT_ENTRY_VERSION,
    NT_HERMIT_ENTRY_VERSION,
};
use crate::consts::{DYNAMIC_LOAD_BASE, STATIC_LOAD_BASE};
use crate::elf::{
    ElfImage, Note, Notes, ProgramHeader, Rela, ELF_HOST_ARCH, ET_DYN, PT_LOAD, PT_TLS,
    R_AARCH64_RELATIVE, R_X86_64_RELATIVE,
};
use crate::mem::{
    copy_into, fill_zero, in_bounds, lemma_addressable, load, store, store_u64, u64_at, write_u64, zeros,
};

verus! {

/// What is wrong with an image that the parser accepts.
#[derive(Clone, Copy, Debug, PartialEq, Eq, Structural)]
pub enum InvalidImage {
    /// The image asks for shared libraries.
    SharedLibraries,
    /// The image is for another machine.
    Machine,
    /// A note of the image cannot be read.
    Notes,
    /// The image speaks another version of the entry protocol.
    EntryVersion,
    /// The entry point lies beyond the address space.
    EntryPoint,
    /// A segment lies beyond the file or the address space.
    Segment,
    /// A relocation yields no address.
    Relocation,
}

/// Why an image that the parser accepts is not loaded.
#[derive(Clone, Copy, Debug, PartialEq, Eq, Structural)]
pub enum LoadFailure {
    /// The image is not one that this loader starts.
    Invalid(InvalidImage),
    /// The image does not fit into the guest memory.
    InsufficientMemory,
}

/// The name of the owner of the version note, `HERMIT`.
pub open spec fn hermit_name() -> Seq<u8> {
    seq![72u8, 69u8, 82u8, 77u8, 73u8, 84u8]
}

/// Whether `note` states the version of the entry protocol.
pub open spec fn is_entry_version_note(note: Note) -> bool {
    note.name@ == hermit_name() && note.n_type == NT_HERMIT_ENTRY_VERSION
}

/// The index of the first of the first `n` notes that states the version of
/// the entry protocol.
pub open spec fn first_entry_version_note(notes: Seq<Note>, n: nat) -> Option<int>
    decreases n,
{
    if n == 0 {
        None
    } else {
        match first_entry_version_note(notes, (n - 1) as nat) {
            Some(i) => Some(i),
            None => if is_entry_version_note(notes[n - 1]) {
                Some(n - 1)
            } else {
                None
            },
        }
    }
}

/// What a list of notes says against an image: nothing where no note states
/// a version, or where the first that does states the version of this loader.
pub open spec fn note_list_defect(notes: Seq<Note>) -> Option<InvalidImage> {
    match first_entry_version_note(notes, notes.len()) {
        None => None,
        Some(i) => if notes[i].desc@.len() > 0 && notes[i].desc@[0] == HERMIT_ENTRY_VERSION {
            None
        } else {
            Some(InvalidImage::EntryVersion)
        },
    }
}

/// What the notes of an image say against it.
pub open spec fn notes_defect(notes: Notes) -> Option<InvalidImage> {
    match notes {
        Notes::Absent => None,
        Notes::Malformed => Some(InvalidImage::Notes),
        Notes::Present(notes) => note_list_defect(notes@),
    }
}

/// What is wrong with an image before any of it is placed.
pub open spec fn image_defect(elf: ElfImage, notes: Notes) -> Option<InvalidImage> {
    if elf.libraries != 0 {
        Some(InvalidImage::SharedLibraries)
    } else if elf.e_machine != ELF_HOST_ARCH {
        Some(InvalidImage::Machine)
    } else if notes_defect(notes) is Some {
        notes_defect(notes)
    } else if elf.is_dyn() && DYNAMIC_LOAD_BASE + elf.entry > u64::MAX {
        Some(InvalidImage::EntryPoint)
    } else {
        None
    }
}

/// The address that an image is loaded at.
pub open spec fn load_base(dynamic: bool) -> u64 {
    if dynamic {
        DYNAMIC_LOAD_BASE
    } else {
        STATIC_LOAD_BASE
    }
}

/// The address at which the guest starts to run an image.
pub open spec fn entry_point(dynamic: bool, entry: u64) -> int {
    if dynamic {
        DYNAMIC_LOAD_BASE + entry
    } else {
        entry as int
    }
}

/// The guest physical address of `vaddr`: a position-independent image is
/// moved by its load base, a static one lies where it was linked.
pub open spec fn region_start(dynamic: bool, vaddr: u64) -> int {
    if dynamic {
        DYNAMIC_LOAD_BASE + vaddr
    } else {
        vaddr as int
    }
}

/// The number of the bytes of memory that the segment of `header` touches.
pub open spec fn region_len(header: ProgramHeader) -> int {
    if header.p_filesz > header.p_memsz {
        header.p_filesz as int
    } else {
        header.p_memsz as int
    }
}

/// Whether the segment of `header` lies inside a guest memory of `size` bytes.
pub open spec fn segment_fits(dynamic: bool, header: ProgramHeader, size: nat) -> bool {
    region_start(dynamic, header.p_vaddr) + region_len(header) <= size
}

/// Whether the bytes of the segment of `header` lie inside a file of `len` bytes.
pub open spec fn segment_in_file(header: ProgramHeader, len: nat) -> bool {
    header.p_offset + header.p_filesz <= len
}

/// `mem` with the segment of `header` placed: its bytes of the file, then
/// zeros up to its size in memory.
pub open spec fn place_segment(
    mem: Seq<u8>,
    file: Seq<u8>,
    dynamic: bool,
    header: ProgramHeader,
) -> Seq<u8> {
    let start = region_start(dynamic, header.p_vaddr);
    let copied = store(
        mem,
        start,
        file.subrange(header.p_offset as int, header.p_offset + header.p_filesz),
    );
    if header.p_memsz > header.p_filesz {
        store(copied, start + header.p_filesz, zeros((header.p_memsz - header.p_filesz) as nat))
    } else {
        copied
    }
}

/// The size of the image once the segment of `header` is counted: the end of
/// the segment in a position-independent image, the sum of the sizes in a
/// static one.
pub open spec fn grown_image_size(dynamic: bool, image_size: u64, header: ProgramHeader) -> int {
    if dynamic {
        header.p_vaddr + header.p_memsz
    } else {
        image_size + header.p_memsz
    }
}

/// The template of thread-local storage that the segment of `header` describes.
pub open spec fn tls_of(dynamic: bool, header: ProgramHeader) -> TlsInfo {
    TlsInfo {
        start: region_start(dynamic, header.p_vaddr) as u64,
        filesz: header.p_filesz,
        memsz: header.p_memsz,
        align: header.p_align,
    }
}

/// How far the segments of an image are placed.
pub struct Placement {
    /// The guest memory.
    pub mem: Seq<u8>,
    /// The size of the image so far.
    pub image_size: u64,
    /// The template of thread-local storage so far.
    pub tls_info: TlsInfo,
    /// Why the placement stopped, if it did.
    pub failure: Option<LoadFailure>,
}

/// The placement `state` after the program header `header`. A segment to load
/// is placed if it fits; the template of thread-local storage is noted; every
/// other header is passed over. After a failure nothing changes any more.
pub open spec fn place_header(
    state: Placement,
    file: Seq<u8>,
    dynamic: bool,
    header: ProgramHeader,
) -> Placement {
    if state.failure is Some {
        state
    } else if header.p_type == PT_LOAD {
        if !segment_fits(dynamic, header, state.mem.len()) {
            Placement { failure: Some(LoadFailure::InsufficientMemory), ..state }
        } else if !segment_in_file(header, file.len()) || grown_image_size(
            dynamic,
            state.image_size,
            header,
        ) > u64::MAX {
            Placement { failure: Some(LoadFailure::Invalid(InvalidImage::Segment)), ..state }
        } else {
            Placement {
                mem: place_segment(state.mem, file, dynamic, header),
                image_size: grown_image_size(dynamic, state.image_size, header) as u64,
                ..state
            }
        }
    } else if header.p_type == PT_TLS {
        if region_start(dynamic, header.p_vaddr) > u64::MAX {
            Placement { failure: Some(LoadFailure::Invalid(InvalidImage::Segment)), ..state }
        } else {
            Placement { tls_info: tls_of(dynamic, header), ..state }
        }
    } else {
        state
    }
}

/// The placement after the first `n` program headers, in the order of the
/// table, begun with the memory `mem`.
pub open spec fn place_headers(
    mem: Seq<u8>,
    file: Seq<u8>,
    dynamic: bool,
    headers: Seq<ProgramHeader>,
    n: nat,
) -> Placement
    decreases n,
{
    if n == 0 {
        Placement { mem, image_size: 0, tls_info: TlsInfo::none(), failure: None }
    } else {
        place_header(
            place_headers(mem, file, dynamic, headers, (n - 1) as nat),
            file,
            dynamic,
            headers[n - 1],
        )
    }
}

/// Whether `rela` asks to store the sum of load base and addend.
pub open spec fn is_relative(rela: Rela) -> bool {
    rela.r_type == R_X86_64_RELATIVE || rela.r_type == R_AARCH64_RELATIVE
}

/// The address that `rela` yields for an image loaded at `base`.
pub open spec fn relocated_value(base: u64, rela: Rela) -> int {
    match rela.r_addend {
        Some(addend) => base + addend,
        None => base as int,
    }
}

/// The guest physical address of the word that `rela` patches.
pub open spec fn relocation_target(base: u64, rela: Rela) -> int {
    base + rela.r_offset
}

/// How far the relocations of an image are applied.
pub struct Relocation {
    /// The guest memory.
    pub mem: Seq<u8>,
    /// Why the work stopped, if it did.
    pub failure: Option<LoadFailure>,
}

/// The state `state` after the relocation `rela`. A relative relocation
/// patches its word; every other is passed over.
pub open spec fn apply_rela(state: Relocation, base: u64, rela: Rela) -> Relocation {
    if state.failure is Some || !is_relative(rela) {
        state
    } else if !(0 <= relocated_value(base, rela) <= i64::MAX) {
        Relocation { failure: Some(LoadFailure::Invalid(InvalidImage::Relocation)), ..state }
    } else if !in_bounds(state.mem.len(), relocation_target(base, rela), 8) {
        Relocation { failure: Some(LoadFailure::InsufficientMemory), ..state }
    } else {
        Relocation {
            mem: store_u64(
                state.mem,
                relocation_target(base, rela),
                relocated_value(base, rela) as u64,
            ),
            ..state
        }
    }
}

/// The state after the first `n` relocations, in the order of the table,
/// begun with the memory `mem`.
pub open spec fn apply_relas(mem: Seq<u8>, base: u64, relas: Seq<Rela>, n: nat) -> Relocation
    decreases n,
{
    if n == 0 {
        Relocation { mem, failure: None }
    } else {
        apply_rela(apply_relas(mem, base, relas, (n - 1) as nat), base, relas[n - 1])
    }
}

/// Whether `name` is the name of the owner of the version note.
fn is_hermit_name(name: &Vec<u8>) -> (r: bool)
    ensures
        r == (name@ == hermit_name()),
{
    let r = name.len() == 6 && name[0] == 72 && name[1] == 69 && name[2] == 82 && name[3] == 77
        && name[4] == 73 && name[5] == 84;
    assert(r ==> name@ =~= hermit_name());
    r
}

/// Looks in a list of notes for the version of the entry protocol.
pub fn check_note_list(list: &Vec<Note>) -> (r: Option<InvalidImage>)
    ensures
        r == note_list_defect(list@),
{
    let kind = entry_version_note_type();
    let mut i: usize = 0;
    while i < list.len()
        invariant
            i <= list@.len(),
            kind == NT_HERMIT_ENTRY_VERSION,
            first_entry_version_note(list@, i as nat) is None,
        decreases list@.len() - i,
    {
        let note = &list[i];
        if is_hermit_name(&note.name) && note.n_type == kind {
            proof {
                lemma_first_note_found(list@, i as int, list@.len());
            }
            if note.desc.len() > 0 && note.desc[0] == HERMIT_ENTRY_VERSION {
                return None;
            } else {
                return Some(InvalidImage::EntryVersion);
            }
        }
        i += 1;
    }
    None
}

/// Looks among the notes of an image for what they say against it.
pub fn check_notes(notes: &Notes) -> (r: Option<InvalidImage>)
    ensures
        r == notes_defect(*notes),
{
    match notes {
        Notes::Absent => None,
        Notes::Malformed => Some(InvalidImage::Notes),
        Notes::Present(list) => check_note_list(list),
    }
}

/// A note that states the version, with none before it that does, is the
/// first such note of every longer list.
proof fn lemma_first_note_found(notes: Seq<Note>, i: int, n: nat)
    requires
        0 <= i < n <= notes.len(),
        first_entry_version_note(notes, i as nat) is None,
        is_entry_version_note(notes[i]),
    ensures
        first_entry_version_note(notes, n) == Some(i),
    decreases n,
{
    if n > i + 1 {
        lemma_first_note_found(notes, i, (n - 1) as nat);
    }
}

/// Looks for what is wrong with an image before any of it is placed.
pub fn check_image(elf: &ElfImage, notes: &Notes) -> (r: Option<InvalidImage>)
    ensures
        r == image_defect(*elf, *notes),
{
    if elf.libraries != 0 {
        return Some(InvalidImage::SharedLibraries);
    }
    if elf.e_machine != ELF_HOST_ARCH {
        return Some(InvalidImage::Machine);
    }
    let defect = check_notes(notes);
    if defect.is_some() {
        return defect;
    }
    if elf.e_type == ET_DYN && elf.entry > u64::MAX - DYNAMIC_LOAD_BASE {
        return Some(InvalidImage::EntryPoint);
    }
    None
}

/// The guest physical address of `vaddr`, where there is one.
fn region_address(dynamic: bool, vaddr: u64) -> (r: Option<u64>)
    ensures
        r is Some <==> region_start(dynamic, vaddr) <= u64::MAX,
        r matches Some(address) ==> address == region_start(dynamic, vaddr),
{
    if dynamic {
        DYNAMIC_LOAD_BASE.checked_add(vaddr)
    } else {
        Some(vaddr)
    }
}

/// Places one segment: copies its bytes out of the file and clears what
/// follows them up to the segment's size in memory.
pub fn load_segment(mem: &mut [u8], file: &[u8], dynamic: bool, header: &ProgramHeader) -> (r:
    Result<(), LoadFailure>)
    ensures
        r is Ok <==> segment_fits(dynamic, *header, old(mem)@.len()) && segment_in_file(
            *header,
            file@.len(),
        ),
        r matches Err(failure) ==> failure == (if !segment_fits(
            dynamic,
            *header,
            old(mem)@.len(),
        ) {
            LoadFailure::InsufficientMemory
        } else {
            LoadFailure::Invalid(InvalidImage::Segment)
        }),
        r is Ok ==> final(mem)@ == place_segment(old(mem)@, file@, dynamic, *header),
        r is Err ==> final(mem)@ == old(mem)@,
{
    if !fits(mem, dynamic, header) {
        return Err(LoadFailure::InsufficientMemory);
    }
    if !lies_in_file(file, header) {
        return Err(LoadFailure::Invalid(InvalidImage::Segment));
    }
    proof {
        lemma_addressable(mem);
        lemma_addressable(file);
    }
    let start = if dynamic {
        DYNAMIC_LOAD_BASE + header.p_vaddr
    } else {
        header.p_vaddr
    } as usize;
    let filesz = header.p_filesz as usize;
    let offset = header.p_offset as usize;
    let bytes = vstd::slice::slice_subrange(file, offset, offset + filesz);
    copy_into(mem, start, bytes);
    if header.p_memsz > header.p_filesz {
        fill_zero(mem, start + filesz, (header.p_memsz - header.p_filesz) as usize);
    }
    Ok(())
}

/// What holds of a segment that was placed: it lies inside the memory, its
/// first bytes are those of the file, the rest of it is clear, and no byte
/// outside of it has changed.
pub proof fn lemma_segment_placed(
    mem: Seq<u8>,
    file: Seq<u8>,
    dynamic: bool,
    header: ProgramHeader,
)
    requires
        segment_fits(dynamic, header, mem.len()),
        segment_in_file(header, file.len()),
    ensures
        ({
            let placed = place_segment(mem, file, dynamic, header);
            let start = region_start(dynamic, header.p_vaddr);
            &&& placed.len() == mem.len()
            &&& header.p_filesz <= header.p_memsz ==> start + header.p_memsz <= mem.len()
            &&& load(placed, start, header.p_filesz as int) == file.subrange(
                header.p_offset as int,
                header.p_offset + header.p_filesz,
            )
            &&& header.p_filesz <= header.p_memsz ==> load(
                placed,
                start + header.p_filesz,
                header.p_memsz - header.p_filesz,
            ) == zeros((header.p_memsz - header.p_filesz) as nat)
            &&& forall|i: int|
                0 <= i < mem.len() && !(start <= i < start + region_len(header)) ==> placed[i]
                    == mem[i]
        }),
{
    let placed = place_segment(mem, file, dynamic, header);
    let start = region_start(dynamic, header.p_vaddr);
    assert(load(placed, start, header.p_filesz as int) =~= file.subrange(
        header.p_offset as int,
        header.p_offset + header.p_filesz,
    ));
    if header.p_filesz <= header.p_memsz {
        assert(load(placed, start + header.p_filesz, header.p_memsz - header.p_filesz) =~= zeros(
            (header.p_memsz - header.p_filesz) as nat,
        ));
    }
}

/// Places the segments of an image in the order of its program headers, up
/// to the first that cannot be placed.
pub fn load_segments(mem: &mut [u8], file: &[u8], dynamic: bool, headers: &Vec<ProgramHeader>) -> (r:
    Result<(u64, TlsInfo), LoadFailure>)
    ensures
        ({
            let placed = place_headers(old(mem)@, file@, dynamic, headers@, headers@.len());
            &&& final(mem)@ == placed.mem
            &&& match r {
                Ok((image_size, tls_info)) => placed.failure is None && image_size
                    == placed.image_size && tls_info == placed.tls_info,
                Err(failure) => placed.failure == Some(failure),
            }
        }),
{
    let mut image_size: u64 = 0;
    let mut tls_info = default_tls_info();
    let mut i: usize = 0;
    while i < headers.len()
        invariant
            i <= headers@.len(),
            place_headers(old(mem)@, file@, dynamic, headers@, i as nat) == (Placement {
                mem: mem@,
                image_size,
                tls_info,
                failure: None,
            }),
        decreases headers@.len() - i,
    {
        let header = &headers[i];
        let ghost before = place_headers(old(mem)@, file@, dynamic, headers@, i as nat);
        let ghost after = place_headers(old(mem)@, file@, dynamic, headers@, (i + 1) as nat);
        assert(after == place_header(before, file@, dynamic, *header));
        if header.p_type == PT_LOAD {
            let grown = if dynamic {
                header.p_vaddr.checked_add(header.p_memsz)
            } else {
                image_size.checked_add(header.p_memsz)
            };
            if !fits(mem, dynamic, header) {
                proof {
                    lemma_failure_stays(old(mem)@, file@, dynamic, headers@, i + 1, headers@.len());
                }
                return Err(LoadFailure::InsufficientMemory);
            }
            if grown.is_none() || !lies_in_file(file, header) {
                proof {
                    lemma_failure_stays(old(mem)@, file@, dynamic, headers@, i + 1, headers@.len());
                }
                return Err(LoadFailure::Invalid(InvalidImage::Segment));
            }
            let placed = load_segment(mem, file, dynamic, header);
            assert(placed is Ok);
            image_size = grown.unwrap();
        } else if header.p_type == PT_TLS {
            match region_address(dynamic, header.p_vaddr) {
                Some(start) => {
                    tls_info =
                    TlsInfo {
                        start,
                        filesz: header.p_filesz,
                        memsz: header.p_memsz,
                        align: header.p_align,
                    };
                },
                None => {
                    proof {
                        lemma_failure_stays(
                            old(mem)@,
                            file@,
                            dynamic,
                            headers@,
                            i + 1,
                            headers@.len(),
                        );
                    }
                    return Err(LoadFailure::Invalid(InvalidImage::Segment));
                },
            }
        }
        i += 1;
    }
    Ok((image_size, tls_info))
}

/// Whether the bytes of the segment of `header` lie inside the file.
fn lies_in_file(file: &[u8], header: &ProgramHeader) -> (r: bool)
    ensures
        r == segment_in_file(*header, file@.len()),
{
    let len = file.len();
    header.p_offset <= len as u64 && header.p_filesz <= len as u64 - header.p_offset
}

/// Whether the segment of `header` lies inside the guest memory.
fn fits(mem: &[u8], dynamic: bool, header: &ProgramHeader) -> (r: bool)
    ensures
        r == segment_fits(dynamic, *header, mem@.len()),
{
    let size = mem.len();
    let len = if header.p_filesz > header.p_memsz {
        header.p_filesz
    } else {
        header.p_memsz
    };
    match region_address(dynamic, header.p_vaddr) {
        Some(start) => start <= size as u64 && len <= size as u64 - start,
        None => false,
    }
}

/// A placement that has failed stays as it is under all further headers.
pub proof fn lemma_failure_stays(
    mem: Seq<u8>,
    file: Seq<u8>,
    dynamic: bool,
    headers: Seq<ProgramHeader>,
    k: int,
    n: nat,
)
    requires
        0 <= k <= n <= headers.len(),
        place_headers(mem, file, dynamic, headers, k as nat).failure is Some,
    ensures
        place_headers(mem, file, dynamic, headers, n) == place_headers(
            mem,
            file,
            dynamic,
            headers,
            k as nat,
        ),
    decreases n,
{
    if n > k {
        lemma_failure_stays(mem, file, dynamic, headers, k, (n - 1) as nat);
    }
}

/// Applies the relative relocations of an image loaded at `base`, in the
/// order of the table, up to the first that cannot be applied.
pub fn relocate(mem: &mut [u8], base: u64, relas: &Vec<Rela>) -> (r: Result<(), LoadFailure>)
    requires
        base <= i64::MAX,
    ensures
        ({
            let done = apply_relas(old(mem)@, base, relas@, relas@.len());
            &&& final(mem)@ == done.mem
            &&& match r {
                Ok(()) => done.failure is None,
                Err(failure) => done.failure == Some(failure),
            }
        }),
{
    let size = mem.len();
    let mut i: usize = 0;
    while i < relas.len()
        invariant
            i <= relas@.len(),
            size == mem@.len(),
            base <= i64::MAX,
            apply_relas(old(mem)@, base, relas@, i as nat) == (Relocation {
                mem: mem@,
                failure: None,
            }),
        decreases relas@.len() - i,
    {
        let rela = &relas[i];
        let ghost before = apply_relas(old(mem)@, base, relas@, i as nat);
        assert(apply_relas(old(mem)@, base, relas@, (i + 1) as nat) == apply_rela(
            before,
            base,
            *rela,
        ));
        if rela.r_type == R_X86_64_RELATIVE || rela.r_type == R_AARCH64_RELATIVE {
            let addend = match rela.r_addend {
                Some(addend) => addend,
                None => 0,
            };
            assert(relocated_value(base, *rela) == base + addend);
            let value = (base as i64).checked_add(addend);
            if value.is_none() || value.unwrap() < 0 {
                proof {
                    lemma_relocation_failure_stays(old(mem)@, base, relas@, i + 1, relas@.len());
                }
                return Err(LoadFailure::Invalid(InvalidImage::Relocation));
            }
            let target = base.checked_add(rela.r_offset);
            if target.is_none() || target.unwrap() > size as u64 || size as u64 - target.unwrap()
                < 8 {
                proof {
                    lemma_relocation_failure_stays(old(mem)@, base, relas@, i + 1, relas@.len());
                }
                return Err(LoadFailure::InsufficientMemory);
            }
            write_u64(mem, target.unwrap() as usize, value.unwrap() as u64);
        }
        i += 1;
    }
    Ok(())
}

/// Relocations that have failed stay as they are under all further entries.
pub proof fn lemma_relocation_failure_stays(
    mem: Seq<u8>,
    base: u64,
    relas: Seq<Rela>,
    k: int,
    n: nat,
)
    requires
        0 <= k <= n <= relas.len(),
        apply_relas(mem, base, relas, k as nat).failure is Some,
    ensures
        apply_relas(mem, base, relas, n) == apply_relas(mem, base, relas, k as nat),
    decreases n,
{
    if n > k {
        lemma_relocation_failure_stays(mem, base, relas, k, (n - 1) as nat);
    }
}

/// Whether the segments of `a` and `b` touch no byte in common.
pub open spec fn regions_apart(dynamic: bool, a: ProgramHeader, b: ProgramHeader) -> bool {
    ||| region_start(dynamic, a.p_vaddr) + region_len(a) <= region_start(dynamic, b.p_vaddr)
    ||| region_start(dynamic, b.p_vaddr) + region_len(b) <= region_start(dynamic, a.p_vaddr)
}

/// A placement that has not failed in the end has not failed on the way, and
/// the memory keeps its size throughout.
pub proof fn lemma_placement_goes_on(
    mem: Seq<u8>,
    file: Seq<u8>,
    dynamic: bool,
    headers: Seq<ProgramHeader>,
    n: nat,
)
    requires
        n <= headers.len(),
        place_headers(mem, file, dynamic, headers, headers.len()).failure is None,
    ensures
        place_headers(mem, file, dynamic, headers, n).failure is None,
        place_headers(mem, file, dynamic, headers, n).mem.len() == mem.len(),
    decreases n,
{
    if place_headers(mem, file, dynamic, headers, n).failure is Some {
        lemma_failure_stays(mem, file, dynamic, headers, n as int, headers.len());
    }
    if n > 0 {
        lemma_placement_goes_on(mem, file, dynamic, headers, (n - 1) as nat);
        let before = place_headers(mem, file, dynamic, headers, (n - 1) as nat);
        let header = headers[n - 1];
        if header.p_type == PT_LOAD {
            lemma_segment_placed(before.mem, file, dynamic, header);
        }
    }
}

/// The bytes of the segment `k` are not touched by the headers from `k + 1`
/// up to `n`, where none of their segments overlaps it.
proof fn lemma_segment_stays(
    mem: Seq<u8>,
    file: Seq<u8>,
    dynamic: bool,
    headers: Seq<ProgramHeader>,
    k: int,
    n: nat,
)
    requires
        0 <= k < n <= headers.len(),
        place_headers(mem, file, dynamic, headers, headers.len()).failure is None,
        forall|j: int|
            k < j < headers.len() && (#[trigger] headers[j]).p_type == PT_LOAD ==> regions_apart(
                dynamic,
                headers[k],
                headers[j],
            ),
    ensures
        forall|i: int|
            region_start(dynamic, headers[k].p_vaddr) <= i < region_start(
                dynamic,
                headers[k].p_vaddr,
            ) + region_len(headers[k]) && 0 <= i < mem.len() ==> place_headers(
                mem,
                file,
                dynamic,
                headers,
                n,
            ).mem[i] == place_headers(mem, file, dynamic, headers, (k + 1) as nat).mem[i],
    decreases n,
{
    if n > k + 1 {
        lemma_segment_stays(mem, file, dynamic, headers, k, (n - 1) as nat);
        lemma_placement_goes_on(mem, file, dynamic, headers, (n - 1) as nat);
        lemma_placement_goes_on(mem, file, dynamic, headers, n);
        let before = place_headers(mem, file, dynamic, headers, (n - 1) as nat);
        let header = headers[n - 1];
        if header.p_type == PT_LOAD {
            assert(regions_apart(dynamic, headers[k], header));
            lemma_segment_placed(before.mem, file, dynamic, header);
        }
    }
}

/// Once all segments are placed, every segment that was loaded lies inside
/// the guest memory, begins with its bytes of the file and is clear from
/// there to its end, unless a segment that was loaded after it overlaps it.
pub proof fn lemma_segments_loaded(
    mem: Seq<u8>,
    file: Seq<u8>,
    dynamic: bool,
    headers: Seq<ProgramHeader>,
    k: int,
)
    requires
        0 <= k < headers.len(),
        headers[k].p_type == PT_LOAD,
        place_headers(mem, file, dynamic, headers, headers.len()).failure is None,
        forall|j: int|
            k < j < headers.len() && (#[trigger] headers[j]).p_type == PT_LOAD ==> regions_apart(
                dynamic,
                headers[k],
                headers[j],
            ),
    ensures
        ({
            let placed = place_headers(mem, file, dynamic, headers, headers.len()).mem;
            let header = headers[k];
            let start = region_start(dynamic, header.p_vaddr);
            &&& placed.len() == mem.len()
            &&& start + header.p_filesz <= mem.len()
            &&& start + header.p_memsz <= mem.len()
            &&& load(placed, start, header.p_filesz as int) == file.subrange(
                header.p_offset as int,
                header.p_offset + header.p_filesz,
            )
            &&& header.p_filesz <= header.p_memsz ==> load(
                placed,
                start + header.p_filesz,
                header.p_memsz - header.p_filesz,
            ) == zeros((header.p_memsz - header.p_filesz) as nat)
        }),
{
    let header = headers[k];
    let start = region_start(dynamic, header.p_vaddr);
    let n = headers.len();
    lemma_placement_goes_on(mem, file, dynamic, headers, k as nat);
    lemma_placement_goes_on(mem, file, dynamic, headers, (k + 1) as nat);
    lemma_placement_goes_on(mem, file, dynamic, headers, n);
    let before = place_headers(mem, file, dynamic, headers, k as nat);
    let after = place_headers(mem, file, dynamic, headers, (k + 1) as nat);
    assert(after == place_header(before, file, dynamic, header));
    lemma_segment_placed(before.mem, file, dynamic, header);
    lemma_segment_stays(mem, file, dynamic, headers, k, n);
    let placed = place_headers(mem, file, dynamic, headers, n).mem;
    assert(load(placed, start, header.p_filesz as int) =~= load(
        after.mem,
        start,
        header.p_filesz as int,
    ));
    if header.p_filesz <= header.p_memsz {
        assert(load(placed, start + header.p_filesz, header.p_memsz - header.p_filesz) =~= load(
            after.mem,
            start + header.p_filesz,
            header.p_memsz - header.p_filesz,
        ));
    }
}

/// Whether the words that `a` and `b` patch have no byte in common.
pub open spec fn words_apart(a: Rela, b: Rela) -> bool {
    a.r_offset + 8 <= b.r_offset || b.r_offset + 8 <= a.r_offset
}

/// Relocations that have not failed in the end have not failed on the way,
/// and the memory keeps its size throughout.
pub proof fn lemma_relocation_goes_on(mem: Seq<u8>, base: u64, relas: Seq<Rela>, n: nat)
    requires
        n <= relas.len(),
        apply_relas(mem, base, relas, relas.len()).failure is None,
    ensures
        apply_relas(mem, base, relas, n).failure is None,
        apply_relas(mem, base, relas, n).mem.len() == mem.len(),
    decreases n,
{
    if apply_relas(mem, base, relas, n).failure is Some {
        lemma_relocation_failure_stays(mem, base, relas, n as int, relas.len());
    }
    if n > 0 {
        lemma_relocation_goes_on(mem, base, relas, (n - 1) as nat);
    }
}

/// The word that the relocation `k` has patched is not touched by the
/// relocations from `k + 1` up to `n`, where none of their words overlaps it.
proof fn lemma_word_stays(mem: Seq<u8>, base: u64, relas: Seq<Rela>, k: int, n: nat)
    requires
        0 <= k < n <= relas.len(),
        is_relative(relas[k]),
        apply_relas(mem, base, relas, relas.len()).failure is None,
        forall|j: int|
            k < j < relas.len() && is_relative(#[trigger] relas[j]) ==> words_apart(
                relas[k],
                relas[j],
            ),
    ensures
        u64_at(apply_relas(mem, base, relas, n).mem, relocation_target(base, relas[k])) == u64_at(
            apply_relas(mem, base, relas, (k + 1) as nat).mem,
            relocation_target(base, relas[k]),
        ),
    decreases n,
{
    if n > k + 1 {
        lemma_word_stays(mem, base, relas, k, (n - 1) as nat);
        lemma_relocation_goes_on(mem, base, relas, (n - 1) as nat);
        lemma_relocation_goes_on(mem, base, relas, n);
        lemma_relocation_goes_on(mem, base, relas, (k + 1) as nat);
        lemma_relocation_goes_on(mem, base, relas, k as nat);
        let before = apply_relas(mem, base, relas, (n - 1) as nat);
        let rela = relas[n - 1];
        if is_relative(rela) {
            assert(words_apart(relas[k], rela));
            vstd::bytes::lemma_auto_spec_u64_to_from_le_bytes();
            crate::mem::lemma_load_apart(
                before.mem,
                relocation_target(base, rela),
                vstd::bytes::spec_u64_to_le_bytes(relocated_value(base, rela) as u64),
                relocation_target(base, relas[k]),
                8,
            );
        }
    }
}

/// Once all relocations are applied, the word at the load base plus the
/// offset of a relative relocation is the load base plus its addend, unless
/// a relative relocation after it patches a word that overlaps that word.
pub proof fn lemma_relocations_applied(mem: Seq<u8>, base: u64, relas: Seq<Rela>, k: int)
    requires
        0 <= k < relas.len(),
        is_relative(relas[k]),
        apply_relas(mem, base, relas, relas.len()).failure is None,
        forall|j: int|
            k < j < relas.len() && is_relative(#[trigger] relas[j]) ==> words_apart(
                relas[k],
                relas[j],
            ),
    ensures
        u64_at(apply_relas(mem, base, relas, relas.len()).mem, base + relas[k].r_offset)
            == relocated_value(base, relas[k]),
{
    lemma_relocation_goes_on(mem, base, relas, k as nat);
    lemma_relocation_goes_on(mem, base, relas, (k + 1) as nat);
    let before = apply_relas(mem, base, relas, k as nat);
    let after = apply_relas(mem, base, relas, (k + 1) as nat);
    assert(after == apply_rela(before, base, relas[k]));
    crate::mem::lemma_word_round_trip(before.mem, relocation_target(base, relas[k]));
    lemma_word_stays(mem, base, relas, k, relas.len());
}

} // verus!
