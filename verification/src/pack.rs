//! The section packer: lays the sections of an executable out as one run of
//! bytes, each at the distance from the start that its load address asks
//! for, and rounds the run up to a size that the console can load.
//!
//! Gaps between sections are filled with zero bytes, the room from the end
//! of the last section to the rounded size with `0xFF`.
//!
//! What the packed payload holds where is shown in `placement`.

use crate::elf::{section_views, ElfSection, SectionView};
use crate::names::{contains_name, name_views};
use vstd::prelude::*;

verus! {

/// The least size of a packed payload: the boot code loads this much.
pub const MIN_PAYLOAD: usize = 0x10_0000;

/// Image sizes are whole multiples of this.
pub const IMAGE_STEP: usize = 0x10_0000;

/// Bytes of the image that come before the payload: header and boot stage.
pub const PAYLOAD_OFFSET: usize = 0x1000;

/// The byte between sections.
pub const GAP_FILL: u8 = 0x00;

/// The byte after the last section.
pub const TAIL_FILL: u8 = 0xFF;

/// The sections that go into a ROM when the caller names none.
pub open spec fn default_sections() -> Seq<Seq<char>> {
    seq![".boot"@, ".text"@, ".rodata"@, ".data"@, ".assets"@, ".bss"@]
}

/// The names of the sections that go into a ROM: those that the caller
/// names, which then stand in place of the default ones, or the default ones.
pub open spec fn included_sections(overrides: Seq<Seq<char>>) -> Seq<Seq<char>> {
    if overrides.len() > 0 {
        overrides
    } else {
        default_sections()
    }
}

/// Whether a section is laid out at all: it has bytes, and its name is among
/// those included.
pub open spec fn is_packed(section: SectionView, included: Seq<Seq<char>>) -> bool {
    section.data.len() > 0 && included.contains(section.lookup_name())
}

/// The address up to which the payload is written once the first `n`
/// sections have been gone through, starting from `start`.
pub open spec fn cursor_after(
    sections: Seq<SectionView>,
    included: Seq<Seq<char>>,
    start: int,
    n: nat,
) -> int
    decreases n,
{
    if n == 0 {
        start
    } else {
        let before = cursor_after(sections, included, start, (n - 1) as nat);
        let section = sections[n - 1];
        if !is_packed(section, included) {
            before
        } else if before < section.addr {
            section.addr + section.data.len()
        } else {
            before + section.data.len()
        }
    }
}

/// A run of `n` bytes of one value.
pub open spec fn fill(n: int, value: u8) -> Seq<u8> {
    Seq::new(
        if n > 0 {
            n as nat
        } else {
            0
        },
        |i: int| value,
    )
}

/// The payload once the first `n` sections have been gone through: each
/// section that is laid out follows what was there, after as many zero bytes
/// as its address lies beyond the address written up to.
pub open spec fn packed_after(
    sections: Seq<SectionView>,
    included: Seq<Seq<char>>,
    start: int,
    n: nat,
) -> Seq<u8>
    decreases n,
{
    if n == 0 {
        Seq::empty()
    } else {
        let before = packed_after(sections, included, start, (n - 1) as nat);
        let section = sections[n - 1];
        if !is_packed(section, included) {
            before
        } else {
            before + fill(
                section.addr - cursor_after(sections, included, start, (n - 1) as nat),
                GAP_FILL,
            ) + section.data
        }
    }
}

/// The size that a payload of `len` bytes is brought to: the least size if
/// it is shorter, itself if it is exactly that, else what makes the image,
/// payload offset included, end on the next whole step.
pub open spec fn rounded_len(len: int) -> int {
    if len < MIN_PAYLOAD {
        MIN_PAYLOAD as int
    } else if len == MIN_PAYLOAD {
        len
    } else {
        ((len + PAYLOAD_OFFSET) / (IMAGE_STEP as int) + 1) * IMAGE_STEP - PAYLOAD_OFFSET
    }
}

/// A payload brought to its rounded size.
pub open spec fn rounded(raw: Seq<u8>) -> Seq<u8> {
    raw + fill(rounded_len(raw.len() as int) - raw.len(), TAIL_FILL)
}

/// The packed payload of a run of sections.
pub open spec fn packed(sections: Seq<SectionView>, included: Seq<Seq<char>>, start: int) -> Seq<
    u8,
> {
    rounded(packed_after(sections, included, start, sections.len()))
}

/// Whether the layout can be computed on this machine: no address passes
/// the end of the 64-bit address space, and the rounded payload is no
/// longer than a `Vec` can be.
pub open spec fn layout_fits(sections: Seq<SectionView>, included: Seq<Seq<char>>, start: int) -> bool {
    &&& cursor_after(sections, included, start, sections.len()) <= u64::MAX
    &&& packed_after(sections, included, start, sections.len()).len() + IMAGE_STEP + PAYLOAD_OFFSET
        <= isize::MAX
}

/// The payload is as long as the distance that the cursor has moved, and
/// neither ever goes back.
pub proof fn lemma_packed_len(
    sections: Seq<SectionView>,
    included: Seq<Seq<char>>,
    start: int,
    n: nat,
    m: nat,
)
    requires
        n <= m,
    ensures
        packed_after(sections, included, start, n).len() == cursor_after(
            sections,
            included,
            start,
            n,
        ) - start,
        cursor_after(sections, included, start, n) <= cursor_after(sections, included, start, m),
        start <= cursor_after(sections, included, start, n),
    decreases m,
{
    if n < m {
        lemma_packed_len(sections, included, start, n, (m - 1) as nat);
        lemma_packed_len(sections, included, start, (m - 1) as nat, (m - 1) as nat);
    } else if n > 0 {
        lemma_packed_len(sections, included, start, (n - 1) as nat, (n - 1) as nat);
    }
}

/// The rounded size is never under the least size nor under the size given,
/// and adds at most a step to a size that is not under the least size. A
/// size up to the least size is brought to the least size, a size over it to
/// where the image ends on a whole step.
pub proof fn lemma_rounded_len(len: int)
    requires
        0 <= len,
    ensures
        rounded_len(len) >= MIN_PAYLOAD,
        rounded_len(len) >= len,
        len >= MIN_PAYLOAD ==> rounded_len(len) <= len + IMAGE_STEP,
        len > MIN_PAYLOAD ==> (rounded_len(len) + PAYLOAD_OFFSET) % (IMAGE_STEP as int) == 0,
        len <= MIN_PAYLOAD ==> rounded_len(len) == MIN_PAYLOAD,
{
    if len > MIN_PAYLOAD {
        let total = len + PAYLOAD_OFFSET;
        let steps = total / (IMAGE_STEP as int) + 1;
        assert(total == (total / (IMAGE_STEP as int)) * IMAGE_STEP + total % (IMAGE_STEP as int));
        assert((steps * IMAGE_STEP) % (IMAGE_STEP as int) == 0) by (nonlinear_arith)
            requires
                IMAGE_STEP == 0x10_0000,
        ;
    }
}

/// The names of the sections that go into a ROM: `overrides` if it names
/// any, else the default ones.
pub fn section_names(overrides: Vec<String>) -> (names: Vec<String>)
    ensures
        name_views(names@) == included_sections(name_views(overrides@)),
{
    if !overrides.is_empty() {
        overrides
    } else {
        let mut names: Vec<String> = Vec::new();
        names.push(".boot".to_owned());
        names.push(".text".to_owned());
        names.push(".rodata".to_owned());
        names.push(".data".to_owned());
        names.push(".assets".to_owned());
        names.push(".bss".to_owned());
        assert(name_views(names@) =~= default_sections());
        assert(name_views(overrides@).len() == 0);
        names
    }
}

/// Whether a section is laid out under the given list of names.
pub fn is_section_packed(section: &ElfSection, included: &Vec<String>) -> (packed: bool)
    ensures
        packed == is_packed(section@, name_views(included@)),
{
    if section.data.len() == 0 {
        return false;
    }
    match &section.name {
        Some(name) => contains_name(included, name),
        None => contains_name(included, &String::new()),
    }
}

/// Whether the layout can be computed on this machine. A caller that cannot
/// tell otherwise asks this before it packs.
pub fn fits(sections: &Vec<ElfSection>, included: &Vec<String>, start: u64) -> (ok: bool)
    ensures
        ok == layout_fits(section_views(sections@), name_views(included@), start as int),
{
    let ghost views = section_views(sections@);
    let ghost names = name_views(included@);
    let mut ptr: u64 = start;
    let mut i: usize = 0;
    while i < sections.len()
        invariant
            i <= sections@.len(),
            views == section_views(sections@),
            names == name_views(included@),
            ptr == cursor_after(views, names, start as int, i as nat),
        decreases sections@.len() - i,
    {
        let section = &sections[i];
        proof {
            lemma_packed_len(views, names, start as int, (i + 1) as nat, views.len());
            assert(views[i as int] == section@);
        }
        if is_section_packed(section, included) {
            let base = if ptr < section.addr {
                section.addr
            } else {
                ptr
            };
            match base.checked_add(section.data.len() as u64) {
                Some(next) => {
                    ptr = next;
                },
                None => {
                    return false;
                },
            }
        }
        i += 1;
    }
    proof {
        lemma_packed_len(views, names, start as int, views.len(), views.len());
    }
    ptr - start <= (isize::MAX as usize - IMAGE_STEP - PAYLOAD_OFFSET) as u64
}

/// Brings a payload to its rounded size, filling with `TAIL_FILL`.
pub fn round_up(binary: &mut Vec<u8>)
    requires
        old(binary)@.len() + IMAGE_STEP + PAYLOAD_OFFSET <= isize::MAX,
    ensures
        final(binary)@ == rounded(old(binary)@),
        final(binary)@.len() >= MIN_PAYLOAD,
        old(binary)@.len() > MIN_PAYLOAD ==> (final(binary)@.len() + PAYLOAD_OFFSET) % (
        IMAGE_STEP as int) == 0,
{
    let len = binary.len();
    proof {
        lemma_rounded_len(len as int);
    }
    if len < MIN_PAYLOAD {
        binary.resize(MIN_PAYLOAD, TAIL_FILL);
    } else if len > MIN_PAYLOAD {
        let total = len + PAYLOAD_OFFSET;
        let steps = total / IMAGE_STEP + 1;
        binary.resize(steps * IMAGE_STEP - PAYLOAD_OFFSET, TAIL_FILL);
    }
    assert(binary@ =~= rounded(old(binary)@));
}

/// Packs the sections of an executable into one payload.
///
/// The sections are gone through in the order given, with the write
/// position starting at the address `start`. A section without bytes, or
/// with a name that is not in `included`, is passed over. Before any other
/// section, zero bytes are written up to its address if that lies ahead;
/// then come its bytes. The result is brought to its rounded size.
pub fn pack(sections: &Vec<ElfSection>, included: &Vec<String>, start: u64) -> (binary: Vec<u8>)
    requires
        layout_fits(section_views(sections@), name_views(included@), start as int),
    ensures
        binary@ == packed(section_views(sections@), name_views(included@), start as int),
        binary@.len() >= MIN_PAYLOAD,
        packed_after(
            section_views(sections@),
            name_views(included@),
            start as int,
            sections@.len(),
        ).len() > MIN_PAYLOAD ==> (binary@.len() + PAYLOAD_OFFSET) % (IMAGE_STEP as int) == 0,
{
    let ghost views = section_views(sections@);
    let ghost names = name_views(included@);
    let mut binary: Vec<u8> = Vec::new();
    let mut ptr: u64 = start;
    let mut i: usize = 0;
    while i < sections.len()
        invariant
            i <= sections@.len(),
            views == section_views(sections@),
            names == name_views(included@),
            layout_fits(views, names, start as int),
            ptr == cursor_after(views, names, start as int, i as nat),
            binary@ == packed_after(views, names, start as int, i as nat),
        decreases sections@.len() - i,
    {
        let section = &sections[i];
        proof {
            lemma_packed_len(views, names, start as int, (i + 1) as nat, views.len());
            lemma_packed_len(views, names, start as int, i as nat, i as nat);
            lemma_packed_len(views, names, start as int, views.len(), views.len());
            assert(views[i as int] == section@);
        }
        if is_section_packed(section, included) {
            let ghost before = binary@;
            if ptr < section.addr {
                let gap = section.addr - ptr;
                binary.resize(binary.len() + gap as usize, GAP_FILL);
                ptr = section.addr;
            }
            assert(binary@ =~= before + fill(section.addr - (start + before.len()), GAP_FILL));
            let ghost padded = binary@;
            binary.extend_from_slice(section.data.as_slice());
            assert(binary@ =~= padded + section.data@);
            ptr += section.data.len() as u64;
        }
        i += 1;
    }
    round_up(&mut binary);
    binary
}

} // verus!
