//! Reading an executable: what the `object` crate finds in the bytes of a
//! file, made into an `Elf` with its sections in the order of their
//! addresses.

use crate::elf::{is_ordered, section_views, Elf, ElfSection, ElfView, SectionView};
use crate::order::{at_addr, is_sorted_from, lemma_filter_one, lemma_insert};
use crate::Error;
use object::{Object, ObjectSection, SectionFlags};
use vstd::prelude::*;

verus! {

/// A section as the reader hands it out: what it could not tell is `None`.
#[derive(PartialEq, Debug)]
pub struct RawSection {
    /// The name, unless the file holds none that can be read.
    pub name: Option<String>,
    pub addr: u64,
    /// The bytes, unless the file holds none that can be read.
    pub data: Option<Vec<u8>>,
    /// The `sh_flags` of the section, if the file is an ELF file.
    pub flags: Option<u64>,
    pub kind: object::SectionKind,
}

/// What a `RawSection` holds, as plain values.
pub struct RawSectionView {
    pub name: Option<Seq<char>>,
    pub addr: u64,
    pub data: Option<Seq<u8>>,
    pub flags: Option<u64>,
    pub kind: object::SectionKind,
}

impl View for RawSection {
    type V = RawSectionView;

    open spec fn view(&self) -> RawSectionView {
        RawSectionView {
            name: match self.name {
                Some(name) => Some(name@),
                None => None,
            },
            addr: self.addr,
            data: match self.data {
                Some(data) => Some(data@),
                None => None,
            },
            flags: self.flags,
            kind: self.kind,
        }
    }
}

/// The views of a run of sections as read, in order.
pub open spec fn raw_views(sections: Seq<RawSection>) -> Seq<RawSectionView> {
    Seq::new(sections.len(), |i: int| sections[i]@)
}

/// What the `object` crate reads from the bytes of a file: the entry point
/// and the sections in the order of the file, or, for bytes that it cannot
/// read, the text of its error.
pub uninterp spec fn object_contents(raw: Seq<u8>) -> Result<
    (u64, Seq<RawSectionView>),
    Seq<char>,
>;

/// `object::File::parse` on the bytes of a file, and of the file that it
/// gives `Object::entry` and, for each of its `Object::sections`, the
/// `name`, `address`, `data`, `flags` and `kind` of `ObjectSection`. An error
/// of `parse` comes back as its text.
#[verifier::external_body]
fn read_object(raw: &[u8]) -> (contents: Result<(u64, Vec<RawSection>), String>)
    ensures
        match contents {
            Ok((entry, sections)) => object_contents(raw@) == Ok::<
                (u64, Seq<RawSectionView>),
                Seq<char>,
            >((entry, raw_views(sections@))),
            Err(text) => object_contents(raw@) == Err::<(u64, Seq<RawSectionView>), Seq<char>>(
                text@,
            ),
        },
{
    let file = object::File::parse(raw).map_err(|err| err.to_string())?;
    let sections = file.sections().map(|section| RawSection {
        name: section.name().ok().map(|name| name.to_string()),
        addr: section.address(),
        data: section.data().ok().map(|data| data.to_vec()),
        flags: match section.flags() {
            SectionFlags::Elf { sh_flags } => Some(sh_flags),
            _ => None,
        },
        kind: section.kind(),
    }).collect();
    Ok((file.entry(), sections))
}

/// A section as read, with what the reader could not tell filled in: no
/// bytes, and no flags.
pub open spec fn settled(raw: RawSectionView) -> SectionView {
    SectionView {
        name: raw.name,
        addr: raw.addr,
        data: match raw.data {
            Some(data) => data,
            None => Seq::empty(),
        },
        flags: match raw.flags {
            Some(flags) => flags,
            None => 0,
        },
        kind: raw.kind,
    }
}

/// A run of sections as read, each of them settled.
pub open spec fn all_settled(sections: Seq<RawSectionView>) -> Seq<SectionView> {
    Seq::new(sections.len(), |i: int| settled(sections[i]))
}

/// The entry point as the header holds it: the low 32 bits of the address.
pub open spec fn entry_point(entry: u64) -> u32 {
    (entry % 0x1_0000_0000) as u32
}

impl ElfSection {
    /// Settles a section as read: one without bytes that can be read has no
    /// bytes, one without ELF flags has no flags.
    pub fn from_raw(raw: RawSection) -> (section: ElfSection)
        ensures
            section@ == settled(raw@),
    {
        ElfSection {
            name: raw.name,
            addr: raw.addr,
            data: match raw.data {
                Some(data) => data,
                None => Vec::new(),
            },
            flags: match raw.flags {
                Some(flags) => flags,
                None => 0,
            },
            kind: raw.kind,
        }
    }
}

/// Where a section of the given address goes into sections in order: before
/// the first one that is not below it.
fn insertion_point(sorted: &Vec<ElfSection>, addr: u64) -> (p: usize)
    requires
        is_ordered(section_views(sorted@)),
    ensures
        p <= sorted@.len(),
        forall|j: int| 0 <= j < p ==> section_views(sorted@)[j].addr < addr,
        forall|j: int| p <= j < sorted@.len() ==> section_views(sorted@)[j].addr >= addr,
{
    let mut p: usize = 0;
    while p < sorted.len() && sorted[p].addr < addr
        invariant
            p <= sorted@.len(),
            forall|j: int| 0 <= j < p ==> section_views(sorted@)[j].addr < addr,
        decreases sorted@.len() - p,
    {
        assert(section_views(sorted@)[p as int].addr == sorted@[p as int].addr);
        p += 1;
    }
    assert forall|j: int| p <= j < sorted@.len() implies section_views(sorted@)[j].addr >= addr by {
        assert(section_views(sorted@)[p as int].addr == sorted@[p as int].addr);
    }
    p
}

/// Settles the sections as read and brings them into the order of their
/// addresses. Sections at one address keep the order in which they were
/// read.
pub fn sort_sections(sections: Vec<RawSection>) -> (sorted: Vec<ElfSection>)
    ensures
        is_sorted_from(section_views(sorted@), all_settled(raw_views(sections@))),
{
    let ghost given = all_settled(raw_views(sections@));
    let mut rest = sections;
    let mut sorted: Vec<ElfSection> = Vec::new();
    proof {
        assert(given.subrange(given.len() as int, given.len() as int) =~= section_views(sorted@));
    }
    while rest.len() > 0
        invariant
            rest@.len() <= given.len(),
            all_settled(raw_views(rest@)) == given.subrange(0, rest@.len() as int),
            sorted@.len() == given.len() - rest@.len(),
            is_ordered(section_views(sorted@)),
            forall|addr: u64| #[trigger]
                section_views(sorted@).filter(at_addr(addr)) == given.subrange(
                    rest@.len() as int,
                    given.len() as int,
                ).filter(at_addr(addr)),
        decreases rest@.len(),
    {
        let ghost k = rest@.len() - 1;
        let ghost before = section_views(sorted@);
        let ghost done = given.subrange(k + 1, given.len() as int);
        let ghost unread = rest@;
        let raw = rest.pop().unwrap();
        let section = ElfSection::from_raw(raw);
        proof {
            assert(all_settled(raw_views(unread))[k] == given[k]);
            assert(section@ == given[k]);
            assert(all_settled(raw_views(rest@)) =~= given.subrange(0, k));
            assert(given.subrange(k, given.len() as int) =~= seq![section@] + done);
        }
        let p = insertion_point(&sorted, section.addr);
        let ghost view = section@;
        sorted.insert(p, section);
        proof {
            assert(section_views(sorted@) =~= before.insert(p as int, view));
            assert forall|addr: u64| #[trigger]
                section_views(sorted@).filter(at_addr(addr)) == given.subrange(
                    k,
                    given.len() as int,
                ).filter(at_addr(addr)) by {
                lemma_insert(before, view, p as int, addr);
                lemma_filter_one(view, before, addr);
                lemma_filter_one(view, done, addr);
                assert(before.filter(at_addr(addr)) == done.filter(at_addr(addr)));
            }
            lemma_insert(before, view, p as int, 0);
        }
    }
    proof {
        assert(given.subrange(0, given.len() as int) =~= given);
    }
    sorted
}

impl ElfView {
    /// Whether this is the executable made of the given parts: the path and
    /// the bytes as they are, the entry point cut to 32 bits, and the
    /// sections settled and in the order of their addresses.
    pub open spec fn is_made_of(
        self,
        path: Seq<char>,
        raw: Seq<u8>,
        entry: u64,
        sections: Seq<RawSectionView>,
    ) -> bool {
        &&& self.path == path
        &&& self.raw == raw
        &&& self.entry == entry_point(entry)
        &&& is_sorted_from(self.sections, all_settled(sections))
    }
}

impl Elf {
    /// Makes an executable of what was read from a file.
    pub fn from_parts(path: String, raw: Vec<u8>, entry: u64, sections: Vec<RawSection>) -> (elf:
        Elf)
        ensures
            elf@.is_made_of(path@, raw@, entry, raw_views(sections@)),
            elf@.is_well_formed(),
    {
        Elf { path, raw, entry: (entry % 0x1_0000_0000) as u32, sections: sort_sections(sections) }
    }

    /// Reads an executable from the bytes of the file at `path`, and keeps of
    /// it what a ROM needs. The bytes stay at hand in `raw`.
    pub fn new(path: String, raw: Vec<u8>) -> (result: Result<Elf, Error>)
        ensures
            match object_contents(raw@) {
                Ok((entry, sections)) => result matches Ok(elf) && elf@.is_made_of(
                    path@,
                    raw@,
                    entry,
                    sections,
                ),
                Err(text) => result matches Err(Error::ObjectError(said)) && said@ == text,
            },
            result matches Ok(elf) ==> elf@.is_well_formed(),
    {
        match read_object(raw.as_slice()) {
            Ok((entry, sections)) => Ok(Elf::from_parts(path, raw, entry, sections)),
            Err(text) => Err(Error::ObjectError(text)),
        }
    }
}

} // verus!
