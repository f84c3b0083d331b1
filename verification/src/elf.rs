//! The executable that a ROM is made from: its entry point and its sections.

use vstd::prelude::*;

verus! {

/// `object::SectionKind`, carried through as the reader gave it.
#[verifier::external_type_specification]
#[verifier::external_body]
pub struct ExSectionKind(object::SectionKind);

/// The ELF section flag that marks a section as holding machine code.
pub const SHF_EXECINSTR: u64 = 0x4;

/// A section of an ELF file, cut down to what a ROM needs of it.
#[derive(PartialEq, Debug)]
pub struct ElfSection {
    pub name: Option<String>,
    pub addr: u64,
    pub data: Vec<u8>,
    pub flags: u64,
    pub kind: object::SectionKind,
}

/// What was read from an ELF file: where it came from, its bytes, its entry
/// point, and its sections.
#[derive(PartialEq, Debug)]
pub struct Elf {
    pub path: String,
    pub raw: Vec<u8>,
    pub entry: u32,
    pub sections: Vec<ElfSection>,
}

/// What an `Elf` holds, as plain values.
pub struct ElfView {
    pub path: Seq<char>,
    pub raw: Seq<u8>,
    pub entry: u32,
    pub sections: Seq<SectionView>,
}

impl View for Elf {
    type V = ElfView;

    open spec fn view(&self) -> ElfView {
        ElfView {
            path: self.path@,
            raw: self.raw@,
            entry: self.entry,
            sections: section_views(self.sections@),
        }
    }
}

/// What an `ElfSection` holds, as plain values.
pub struct SectionView {
    pub name: Option<Seq<char>>,
    pub addr: u64,
    pub data: Seq<u8>,
    pub flags: u64,
    pub kind: object::SectionKind,
}

impl View for ElfSection {
    type V = SectionView;

    open spec fn view(&self) -> SectionView {
        SectionView {
            name: match self.name {
                Some(name) => Some(name@),
                None => None,
            },
            addr: self.addr,
            data: self.data@,
            flags: self.flags,
            kind: self.kind,
        }
    }
}

impl SectionView {
    /// Whether the section goes by the given name.
    pub open spec fn is_named(self, name: Seq<char>) -> bool {
        self.name == Some(name)
    }

    /// The name by which the section is looked up in a list of names: its
    /// own, or the empty name if it has none.
    pub open spec fn lookup_name(self) -> Seq<char> {
        match self.name {
            Some(name) => name,
            None => Seq::empty(),
        }
    }

    /// Whether the section is marked as machine code.
    pub open spec fn is_code(self) -> bool {
        self.flags & SHF_EXECINSTR != 0
    }
}

/// The views of a run of sections, in order.
pub open spec fn section_views(sections: Seq<ElfSection>) -> Seq<SectionView> {
    Seq::new(sections.len(), |i: int| sections[i]@)
}

/// Whether no section comes before one of a lower address.
pub open spec fn is_ordered(sections: Seq<SectionView>) -> bool {
    forall|i: int, j: int| 0 <= i < j < sections.len() ==> sections[i].addr <= sections[j].addr
}

/// The least position from `from` on at which a section has the given name,
/// or the length of the run if none has it.
pub open spec fn first_named(sections: Seq<SectionView>, name: Seq<char>, from: int) -> int
    decreases sections.len() - from,
{
    if from < 0 || from >= sections.len() {
        sections.len() as int
    } else if sections[from].is_named(name) {
        from
    } else {
        first_named(sections, name, from + 1)
    }
}

/// Whether some section has the given name.
pub open spec fn has_section(sections: Seq<SectionView>, name: Seq<char>) -> bool {
    exists|i: int| 0 <= i < sections.len() && (#[trigger] sections[i]).is_named(name)
}

/// The name of the section that the console starts in.
pub open spec fn boot_name() -> Seq<char> {
    ".boot"@
}

/// `first_named` is a position from `from` on, no section before it has the
/// name, and the section at it has the name unless it is the end of the run.
pub proof fn lemma_first_named(sections: Seq<SectionView>, name: Seq<char>, from: int)
    requires
        0 <= from <= sections.len(),
    ensures
        from <= first_named(sections, name, from) <= sections.len(),
        forall|j: int|
            from <= j < first_named(sections, name, from) ==> !(#[trigger] sections[j]).is_named(
                name,
            ),
        first_named(sections, name, from) < sections.len() ==> sections[first_named(
            sections,
            name,
            from,
        )].is_named(name),
        from == 0 ==> (first_named(sections, name, from) < sections.len() <==> has_section(
            sections,
            name,
        )),
    decreases sections.len() - from,
{
    if from < sections.len() && !sections[from].is_named(name) {
        lemma_first_named(sections, name, from + 1);
    }
}

impl Clone for ElfSection {
    fn clone(&self) -> (copy: ElfSection)
        ensures
            copy@ == self@,
    {
        ElfSection {
            name: match &self.name {
                Some(name) => Some(name.clone()),
                None => None,
            },
            addr: self.addr,
            data: self.data.clone(),
            flags: self.flags,
            kind: self.kind,
        }
    }
}

impl Clone for Elf {
    fn clone(&self) -> (copy: Elf)
        ensures
            copy@ == self@,
    {
        let sections = self.sections.clone();
        assert(section_views(sections@) =~= section_views(self.sections@));
        Elf { path: self.path.clone(), raw: self.raw.clone(), entry: self.entry, sections }
    }
}

impl ElfSection {
    /// Whether the section goes by the given name.
    pub fn has_name(&self, name: &String) -> (named: bool)
        ensures
            named == self@.is_named(name@),
    {
        match &self.name {
            Some(own) => *own == *name,
            None => false,
        }
    }

    /// Whether the section is marked as machine code.
    pub fn is_code(&self) -> (code: bool)
        ensures
            code == self@.is_code(),
    {
        (self.flags & SHF_EXECINSTR) != 0
    }
}

impl ElfView {
    /// Whether the sections stand in the order of their addresses, as they
    /// do in an executable that was read from a file. Nothing in this
    /// library asks for it: sections are always taken in the order they
    /// stand in. But only then are they packed in the order of their
    /// addresses.
    pub open spec fn is_well_formed(self) -> bool {
        is_ordered(self.sections)
    }

    /// The position of the boot section: the first one named `.boot` (see
    /// `lemma_first_named`). It is the number of sections if there is none.
    pub open spec fn boot_position(self) -> int {
        first_named(self.sections, boot_name(), 0)
    }

    /// Whether the executable can be started: it has a boot section, and
    /// that section is marked as machine code.
    pub open spec fn can_boot(self) -> bool {
        &&& has_section(self.sections, boot_name())
        &&& self.sections[self.boot_position()].is_code()
    }
}

impl Elf {
    /// The position of the first section with the given name.
    pub fn position_by_name(&self, name: &str) -> (found: Option<usize>)
        ensures
            found is Some <==> has_section(self@.sections, name@),
            match found {
                Some(i) => i < self.sections@.len() && i == first_named(
                    self@.sections,
                    name@,
                    0,
                ),
                None => first_named(self@.sections, name@, 0) == self.sections@.len(),
            },
    {
        let target = name.to_owned();
        let mut i: usize = 0;
        proof {
            lemma_first_named(self@.sections, name@, 0);
        }
        while i < self.sections.len()
            invariant
                i <= self.sections@.len(),
                target@ == name@,
                first_named(self@.sections, name@, 0) == first_named(
                    self@.sections,
                    name@,
                    i as int,
                ),
            decreases self.sections@.len() - i,
        {
            assert(self@.sections[i as int] == self.sections@[i as int]@);
            if self.sections[i].has_name(&target) {
                return Some(i);
            }
            i += 1;
        }
        None
    }

    /// The first section with the given name, if there is one.
    pub fn section_by_name(&self, name: &str) -> (found: Option<&ElfSection>)
        ensures
            found is Some <==> has_section(self@.sections, name@),
            match found {
                Some(section) => {
                    let i = first_named(self@.sections, name@, 0);
                    0 <= i < self.sections@.len() && *section == self.sections@[i]
                },
                None => first_named(self@.sections, name@, 0) == self.sections@.len(),
            },
    {
        match self.position_by_name(name) {
            Some(i) => Some(&self.sections[i]),
            None => None,
        }
    }

    /// Whether the executable has a boot section that is marked as machine
    /// code.
    pub fn is_executable(&self) -> (executable: bool)
        ensures
            executable == self@.can_boot(),
    {
        let boot = ".boot";
        assert(boot@ == boot_name());
        match self.section_by_name(boot) {
            Some(section) => {
                assert(self@.sections[self@.boot_position()] == section@);
                section.is_code()
            },
            None => false,
        }
    }
}

} // verus!
