//! The ROM image: a 64-byte header, the boot stage, and the packed payload.

use crate::buffer::{
    bytes_from_vec, get_array, get_u16, get_u32, get_u64, get_u8, into_vec, put_slice, put_u16,
    put_u32, put_u64, put_u8, unread, with_capacity, written,
};
use crate::checksum::{boot_checksum, checksum_with_fingerprint, variant_of, WINDOW_BYTES};
use crate::codec::{
    be_u16, be_u32, be_u64, lemma_u16_bytes_of_value, lemma_u16_round_trip,
    lemma_u32_bytes_of_value, lemma_u32_round_trip, lemma_u64_bytes_of_value,
    lemma_u64_round_trip, u16_bytes, u32_bytes, u64_bytes,
};
use crate::elf::{boot_name, has_section, Elf, ElfView};
use crate::fingerprint::{crc32, crc32_iso_hdlc};
use crate::names::name_views;
use crate::pack::{
    fits, included_sections, layout_fits, pack, packed, section_names, IMAGE_STEP, MIN_PAYLOAD,
    PAYLOAD_OFFSET,
};
use crate::placement::lemma_packed_size;
use crate::Error;
use vstd::prelude::*;
use vstd::slice::slice_to_vec;
use vstd::string::StringSliceAdditionalSpecFns;
use vstd::utf8::encode_utf8;

verus! {

/// Bytes in an encoded header.
pub const HEADER_BYTES: usize = 64;

/// Bytes in the image name field of the header.
pub const NAME_BYTES: usize = 20;

/// Bytes in a boot stage.
pub const IPL3_BYTES: usize = 4032;

/// The ROM header with all its known fields, in the order in which they lie
/// in the image.
#[derive(Copy, Clone, Debug, PartialEq, Eq)]
pub struct Header {
    /// The first four bytes, which the boot code uses to set up the
    /// cartridge bus. Emulators often tell the byte order of an image by it.
    pub pi_regs: u32,
    pub clockrate: u32,
    /// The entry point. Boot stages differ in how they treat it.
    pub pc: u32,
    pub unknown0: u16,
    pub release: u16,
    pub checksum: u64,
    pub unknown1: u64,
    pub image_name: [u8; 20],
    pub unknown2: [u8; 7],
    pub media_format: u8,
    pub cart_id: u16,
    pub country: u8,
    pub revision: u8,
}

impl Default for Header {
    /// The header whose encoding is 64 zero bytes.
    fn default() -> (header: Header)
        ensures
            header.pi_regs == 0,
            header.clockrate == 0,
            header.pc == 0,
            header.unknown0 == 0,
            header.release == 0,
            header.checksum == 0,
            header.unknown1 == 0,
            header.image_name@ == Seq::new(20, |i: int| 0u8),
            header.unknown2@ == Seq::new(7, |i: int| 0u8),
            header.media_format == 0,
            header.cart_id == 0,
            header.country == 0,
            header.revision == 0,
    {
        let image_name = [0u8;20];
        let unknown2 = [0u8;7];
        assert(image_name@ =~= Seq::new(20, |i: int| 0u8));
        assert(unknown2@ =~= Seq::new(7, |i: int| 0u8));
        Header {
            pi_regs: 0,
            clockrate: 0,
            pc: 0,
            unknown0: 0,
            release: 0,
            checksum: 0,
            unknown1: 0,
            image_name,
            unknown2,
            media_format: 0,
            cart_id: 0,
            country: 0,
            revision: 0,
        }
    }
}

/// A name as the header holds it: its first 20 bytes, filled up with spaces.
pub open spec fn name_field(name: Seq<u8>) -> Seq<u8> {
    Seq::new(
        NAME_BYTES as nat,
        |i: int|
            if i < name.len() {
                name[i]
            } else {
                0x20u8
            },
    )
}

/// Lays a name out as the header holds it: cut to 20 bytes if it is longer,
/// filled up with spaces if it is shorter.
pub fn image_name(name: &str) -> (field: [u8; 20])
    ensures
        field@ == name_field(name.spec_bytes()),
{
    let bytes = name.as_bytes();
    let mut field = [0x20u8;20];
    let mut i: usize = 0;
    while i < NAME_BYTES && i < bytes.len()
        invariant
            i <= NAME_BYTES,
            i <= bytes@.len(),
            forall|j: int| 0 <= j < i ==> field@[j] == bytes@[j],
            forall|j: int| i <= j < NAME_BYTES ==> field@[j] == 0x20u8,
        decreases NAME_BYTES - i,
    {
        field[i] = bytes[i];
        i += 1;
    }
    assert(field@ =~= name_field(bytes@));
    field
}

impl Header {
    /// The 64 bytes that hold this header: every field big-endian, one after
    /// another, with nothing between them.
    pub open spec fn encoding(self) -> Seq<u8> {
        u32_bytes(self.pi_regs) + u32_bytes(self.clockrate) + u32_bytes(self.pc) + u16_bytes(
            self.unknown0,
        ) + u16_bytes(self.release) + u64_bytes(self.checksum) + u64_bytes(self.unknown1)
            + self.image_name@ + self.unknown2@ + seq![self.media_format] + u16_bytes(self.cart_id)
            + seq![self.country, self.revision]
    }

    /// Whether this header is what `bytes` hold, field by field at the fixed
    /// offsets of the layout.
    pub open spec fn is_decoding_of(self, bytes: Seq<u8>) -> bool {
        &&& self.pi_regs == be_u32(bytes.subrange(0, 4))
        &&& self.clockrate == be_u32(bytes.subrange(4, 8))
        &&& self.pc == be_u32(bytes.subrange(8, 12))
        &&& self.unknown0 == be_u16(bytes.subrange(12, 14))
        &&& self.release == be_u16(bytes.subrange(14, 16))
        &&& self.checksum == be_u64(bytes.subrange(16, 24))
        &&& self.unknown1 == be_u64(bytes.subrange(24, 32))
        &&& self.image_name@ == bytes.subrange(32, 52)
        &&& self.unknown2@ == bytes.subrange(52, 59)
        &&& self.media_format == bytes[59]
        &&& self.cart_id == be_u16(bytes.subrange(60, 62))
        &&& self.country == bytes[62]
        &&& self.revision == bytes[63]
    }

    /// Whether this is the header that is made for a payload: the entry
    /// point, the checksum and the name as given, the fixed values of this
    /// platform in the other fields.
    pub open spec fn is_generated(self, checksum: u64, name: Seq<u8>, entry: u32) -> bool {
        &&& self.pi_regs == 0x8037_1240
        &&& self.clockrate == 0x0000_000F
        &&& self.pc == entry
        &&& self.unknown0 == 0
        &&& self.release == 0x1E4E
        &&& self.checksum == checksum
        &&& self.unknown1 == 0
        &&& self.image_name@ == name_field(name)
        &&& self.unknown2@ == Seq::new(7, |i: int| 0u8)
        &&& self.media_format == 0x52
        &&& self.cart_id == 0x3634
        &&& self.country == 0x37
        &&& self.revision == 0x01
    }

    /// Decodes a header. Any 64 bytes are a header: nothing is checked.
    pub fn new(data: [u8; 64]) -> (header: Header)
        ensures
            header.is_decoding_of(data@),
    {
        let ghost bytes = data@;
        let mut data = bytes_from_vec(slice_to_vec(data.as_slice()));
        assert(unread(data).take(4) =~= bytes.subrange(0, 4));
        let pi_regs = get_u32(&mut data);
        assert(unread(data).take(4) =~= bytes.subrange(4, 8));
        let clockrate = get_u32(&mut data);
        assert(unread(data).take(4) =~= bytes.subrange(8, 12));
        let pc = get_u32(&mut data);
        assert(unread(data).take(2) =~= bytes.subrange(12, 14));
        let unknown0 = get_u16(&mut data);
        assert(unread(data).take(2) =~= bytes.subrange(14, 16));
        let release = get_u16(&mut data);
        assert(unread(data).take(8) =~= bytes.subrange(16, 24));
        let checksum = get_u64(&mut data);
        assert(unread(data).take(8) =~= bytes.subrange(24, 32));
        let unknown1 = get_u64(&mut data);
        assert(unread(data).take(20) =~= bytes.subrange(32, 52));
        let image_name = get_array::<20>(&mut data);
        assert(unread(data).take(7) =~= bytes.subrange(52, 59));
        let unknown2 = get_array::<7>(&mut data);
        assert(unread(data) =~= bytes.skip(59));
        let media_format = get_u8(&mut data);
        assert(unread(data).take(2) =~= bytes.subrange(60, 62));
        let cart_id = get_u16(&mut data);
        assert(unread(data) =~= bytes.skip(62));
        let country = get_u8(&mut data);
        assert(unread(data) =~= bytes.skip(63));
        let revision = get_u8(&mut data);
        Header {
            pi_regs,
            clockrate,
            pc,
            unknown0,
            release,
            checksum,
            unknown1,
            image_name,
            unknown2,
            media_format,
            cart_id,
            country,
            revision,
        }
    }

    /// Encodes the header.
    pub fn to_vec(&self) -> (bytes: Vec<u8>)
        ensures
            bytes@ == self.encoding(),
            bytes@.len() == HEADER_BYTES,
    {
        let mut data = with_capacity(HEADER_BYTES);
        put_u32(&mut data, self.pi_regs);
        put_u32(&mut data, self.clockrate);
        put_u32(&mut data, self.pc);
        put_u16(&mut data, self.unknown0);
        put_u16(&mut data, self.release);
        put_u64(&mut data, self.checksum);
        put_u64(&mut data, self.unknown1);
        put_slice(&mut data, self.image_name.as_slice());
        put_slice(&mut data, self.unknown2.as_slice());
        put_u8(&mut data, self.media_format);
        put_u16(&mut data, self.cart_id);
        put_u8(&mut data, self.country);
        put_u8(&mut data, self.revision);
        assert(written(data) =~= self.encoding());
        into_vec(&data)
    }

    /// Makes a header of an entry point, a checksum and a name. The name is
    /// cut or padded with spaces to 20 bytes; the other fields take the fixed
    /// values of this platform.
    pub fn synthesize(entry: u32, checksum: u64, name: &str) -> (header: Header)
        ensures
            header.is_generated(checksum, name.spec_bytes(), entry),
    {
        let unknown2 = [0x00u8;7];
        assert(unknown2@ =~= Seq::new(7, |i: int| 0u8));
        Header {
            pi_regs: 0x8037_1240,
            clockrate: 0x0000_000F,
            pc: entry,
            unknown0: 0x0000,
            release: 0x1E4E,
            checksum,
            unknown1: 0x0000_0000_0000_0000,
            image_name: image_name(name),
            unknown2,
            media_format: 0x52,
            cart_id: 0x3634,
            country: 0x37,
            revision: 0x01,
        }
    }

    /// Makes the header for a payload: the boot checksum of `binary` under
    /// `ipl3`, the entry point, and the name.
    ///
    /// `Header::new` decodes a header that exists already.
    pub fn generate(binary: &[u8], ipl3: [u8; 4032], name: &str, entry: u32) -> (header: Header)
        requires
            binary@.len() >= WINDOW_BYTES,
        ensures
            header.is_generated(
                boot_checksum(binary@, ipl3@, crc32(ipl3@)),
                name.spec_bytes(),
                entry,
            ),
    {
        Header::synthesize(entry, Header::calculate_checksum(binary, ipl3), name)
    }

    /// Computes the 64-bit checksum that the header carries: the boot
    /// checksum of `binary` under the boot stage `ipl3`.
    ///
    /// A boot stage that is not one of the known six gives zero.
    pub fn calculate_checksum(binary: &[u8], ipl3: [u8; 4032]) -> (checksum: u64)
        requires
            binary@.len() >= WINDOW_BYTES,
        ensures
            checksum == boot_checksum(binary@, ipl3@, crc32(ipl3@)),
            variant_of(crc32(ipl3@)) is None ==> checksum == 0,
    {
        let fingerprint = crc32_iso_hdlc(ipl3.as_slice());
        checksum_with_fingerprint(binary, &ipl3, fingerprint)
    }
}

/// A ROM image in its three parts.
#[derive(Debug, PartialEq)]
pub struct Rom {
    pub header: Header,
    /// The third stage of the boot process, which the console runs before
    /// the payload.
    pub ipl3: [u8; 4032],
    /// What follows the boot stage: the packed sections of the executable.
    pub binary: Vec<u8>,
}

/// What a `Rom` holds, as plain values.
pub struct RomView {
    pub header: Header,
    pub ipl3: Seq<u8>,
    pub binary: Seq<u8>,
}

impl View for Rom {
    type V = RomView;

    open spec fn view(&self) -> RomView {
        RomView { header: self.header, ipl3: self.ipl3@, binary: self.binary@ }
    }
}

impl Clone for Rom {
    fn clone(&self) -> (copy: Rom)
        ensures
            copy@ == self@,
    {
        Rom { header: self.header, ipl3: self.ipl3, binary: self.binary.clone() }
    }
}

/// `Path::file_name` of std on `path`, as text: the last component of the
/// path, if it has one. What a component is depends on the platform, so
/// nothing is stated of the result.
#[verifier::external_body]
fn file_name(path: &str) -> (name: Option<String>) {
    std::path::Path::new(path).file_name().map(|name| name.to_string_lossy().into_owned())
}

/// Whether `result` is what assembling gives for an executable, a boot stage,
/// the bytes of a name and a list of section names that the caller asks for.
///
/// Without a boot section there is no ROM, nor with one that is not machine
/// code. Else the ROM holds the boot stage as given, the sections packed
/// from the address of the boot section on, and the header made for them.
pub open spec fn is_assembly(
    result: Result<Rom, Error>,
    elf: ElfView,
    ipl3: Seq<u8>,
    name: Seq<u8>,
    overrides: Seq<Seq<char>>,
) -> bool {
    let boot = elf.boot_position();
    match result {
        Ok(rom) => {
            &&& elf.can_boot()
            &&& rom@.ipl3 == ipl3
            &&& rom@.binary == packed(
                elf.sections,
                included_sections(overrides),
                elf.sections[boot].addr as int,
            )
            &&& rom@.header.is_generated(
                boot_checksum(rom@.binary, ipl3, crc32(ipl3)),
                name,
                elf.entry,
            )
        },
        Err(Error::MissingBootSection) => !has_section(elf.sections, boot_name()),
        Err(Error::NotExecutable) => {
            &&& has_section(elf.sections, boot_name())
            &&& !elf.sections[boot].is_code()
        },
        Err(Error::ObjectError(_)) => false,
    }
}

/// Whether a payload of `len` bytes has a size that `assemble` gives one:
/// the least size, or a greater one that makes the image, header and boot
/// stage included, a whole number of steps long.
pub open spec fn has_image_size(len: int) -> bool {
    ||| len == MIN_PAYLOAD
    ||| len > MIN_PAYLOAD && (len + PAYLOAD_OFFSET) % (IMAGE_STEP as int) == 0
}

/// Whether the sections of an executable can be laid out on this machine
/// (see `layout_fits`). An executable that cannot be started is turned down
/// before anything is laid out, so nothing is asked of it.
pub open spec fn can_assemble(elf: ElfView, overrides: Seq<Seq<char>>) -> bool {
    elf.can_boot() ==> layout_fits(
        elf.sections,
        included_sections(overrides),
        elf.sections[elf.boot_position()].addr as int,
    )
}

impl Rom {
    /// Makes a ROM from an executable, a boot stage and a name.
    ///
    /// The sections `.boot`, `.text`, `.rodata`, `.data`, `.assets` and
    /// `.bss` go into the ROM, or, if `section_overrides` names any, those
    /// that it names and no others. They are packed from the address of the
    /// boot section on, in the order they have in `elf`, which for an
    /// executable that was read is the order of their addresses. The name is
    /// cut or padded with spaces to 20 bytes.
    pub fn assemble(
        elf: &Elf,
        ipl3: [u8; 4032],
        name: &str,
        section_overrides: Vec<String>,
    ) -> (result: Result<Rom, Error>)
        requires
            can_assemble(elf@, name_views(section_overrides@)),
        ensures
            is_assembly(result, elf@, ipl3@, name.spec_bytes(), name_views(section_overrides@)),
            result matches Ok(rom) ==> has_image_size(rom@.binary.len() as int),
    {
        let boot = match elf.section_by_name(".boot") {
            Some(section) => section,
            None => {
                return Err(Error::MissingBootSection);
            },
        };
        assert(elf@.sections[elf@.boot_position()] == boot@);
        if !boot.is_code() {
            return Err(Error::NotExecutable);
        }
        let included = section_names(section_overrides);
        let binary = pack(&elf.sections, &included, boot.addr);
        proof {
            lemma_packed_size(elf@.sections, name_views(included@), boot.addr as int);
        }
        let header = Header::generate(binary.as_slice(), ipl3, name, elf.entry);
        Ok(Rom { header, ipl3, binary })
    }

    /// Whether `assemble` and `new` can be called for an executable and a
    /// list of section names: whether the layout that they would compute
    /// fits this machine.
    pub fn fits(elf: &Elf, section_overrides: &Vec<String>) -> (ok: bool)
        ensures
            ok == can_assemble(elf@, name_views(section_overrides@)),
    {
        let boot = match elf.section_by_name(".boot") {
            Some(section) => section,
            None => {
                return true;
            },
        };
        assert(elf@.sections[elf@.boot_position()] == boot@);
        if !boot.is_code() {
            return true;
        }
        if section_overrides.is_empty() {
            let defaults = section_names(Vec::new());
            fits(&elf.sections, &defaults, boot.addr)
        } else {
            fits(&elf.sections, section_overrides, boot.addr)
        }
    }

    /// Makes a ROM from an executable, as `assemble` does. Without a name,
    /// the ROM is named after the file of the executable: the last component
    /// of its path, or nothing if the path has none.
    pub fn new(
        elf: &Elf,
        ipl3: [u8; 4032],
        name: Option<String>,
        section_overrides: Vec<String>,
    ) -> (result: Result<Rom, Error>)
        requires
            can_assemble(elf@, name_views(section_overrides@)),
        ensures
            match name {
                Some(given) => is_assembly(
                    result,
                    elf@,
                    ipl3@,
                    encode_utf8(given@),
                    name_views(section_overrides@),
                ),
                None => exists|chosen: Seq<u8>|
                    is_assembly(result, elf@, ipl3@, chosen, name_views(section_overrides@)),
            },
            result matches Ok(rom) ==> has_image_size(rom@.binary.len() as int),
    {
        let name = match name {
            Some(given) => given,
            None => match file_name(elf.path.as_str()) {
                Some(last) => last,
                None => String::new(),
            },
        };
        Rom::assemble(elf, ipl3, name.as_str(), section_overrides)
    }

    /// Brings the checksum in the header up to date with the payload.
    ///
    /// The header of a ROM whose payload was changed holds a checksum that
    /// the console will most likely refuse, until this is called.
    pub fn update_checksum(&mut self)
        requires
            old(self)@.binary.len() >= WINDOW_BYTES,
        ensures
            final(self)@ == (RomView {
                header: (Header {
                    checksum: boot_checksum(
                        old(self)@.binary,
                        old(self)@.ipl3,
                        crc32(old(self)@.ipl3),
                    ),
                    ..old(self)@.header
                }),
                ..old(self)@
            }),
    {
        self.header.checksum = Header::calculate_checksum(self.binary.as_slice(), self.ipl3);
    }

    /// The image as it is written out: the header, the boot stage and the
    /// payload, one after another.
    pub fn to_vec(&self) -> (bytes: Vec<u8>)
        requires
            HEADER_BYTES + IPL3_BYTES + self@.binary.len() <= isize::MAX,
        ensures
            bytes@ == self@.header.encoding() + self@.ipl3 + self@.binary,
            bytes@.len() == HEADER_BYTES + IPL3_BYTES + self@.binary.len(),
    {
        let mut data = with_capacity(HEADER_BYTES + self.ipl3.len() + self.binary.len());
        let header = self.header.to_vec();
        put_slice(&mut data, header.as_slice());
        put_slice(&mut data, self.ipl3.as_slice());
        put_slice(&mut data, self.binary.as_slice());
        into_vec(&data)
    }
}

/// Decoding the encoding of a header gives that header back.
pub proof fn lemma_decode_encode(header: Header, decoded: Header)
    requires
        decoded.is_decoding_of(header.encoding()),
    ensures
        decoded == header,
{
    lemma_encoding_fields(header);
    lemma_u32_round_trip(header.pi_regs);
    lemma_u32_round_trip(header.clockrate);
    lemma_u32_round_trip(header.pc);
    lemma_u16_round_trip(header.unknown0);
    lemma_u16_round_trip(header.release);
    lemma_u64_round_trip(header.checksum);
    lemma_u64_round_trip(header.unknown1);
    lemma_u16_round_trip(header.cart_id);
    assert(decoded.image_name =~= header.image_name);
    assert(decoded.unknown2 =~= header.unknown2);
}

/// Encoding the header that 64 bytes decode to gives those bytes back.
pub proof fn lemma_encode_decode(bytes: Seq<u8>, header: Header)
    requires
        bytes.len() == HEADER_BYTES,
        header.is_decoding_of(bytes),
    ensures
        header.encoding() == bytes,
{
    let held = header.encoding();
    lemma_encoding_fields(header);
    lemma_u32_bytes_of_value(bytes.subrange(0, 4));
    lemma_u32_bytes_of_value(bytes.subrange(4, 8));
    lemma_u32_bytes_of_value(bytes.subrange(8, 12));
    lemma_u16_bytes_of_value(bytes.subrange(12, 14));
    lemma_u16_bytes_of_value(bytes.subrange(14, 16));
    lemma_u64_bytes_of_value(bytes.subrange(16, 24));
    lemma_u64_bytes_of_value(bytes.subrange(24, 32));
    lemma_u16_bytes_of_value(bytes.subrange(60, 62));
    lemma_same_byte(held, bytes, 59);
    lemma_same_byte(held, bytes, 62);
    lemma_same_byte(held, bytes, 63);
    lemma_same_run(held, bytes, 0, 4, 8);
    lemma_same_run(held, bytes, 0, 8, 12);
    lemma_same_run(held, bytes, 0, 12, 14);
    lemma_same_run(held, bytes, 0, 14, 16);
    lemma_same_run(held, bytes, 0, 16, 24);
    lemma_same_run(held, bytes, 0, 24, 32);
    lemma_same_run(held, bytes, 0, 32, 52);
    lemma_same_run(held, bytes, 0, 52, 59);
    lemma_same_run(held, bytes, 0, 59, 60);
    lemma_same_run(held, bytes, 0, 60, 62);
    lemma_same_run(held, bytes, 0, 62, 63);
    lemma_same_run(held, bytes, 0, 63, 64);
    assert(held.subrange(0, 64) =~= held);
    assert(bytes.subrange(0, 64) =~= bytes);
}

/// Two runs of bytes that hold the same from `a` to `b` and from `b` to `c`
/// hold the same from `a` to `c`.
proof fn lemma_same_run(s: Seq<u8>, t: Seq<u8>, a: int, b: int, c: int)
    requires
        0 <= a <= b <= c <= s.len(),
        c <= t.len(),
        s.subrange(a, b) == t.subrange(a, b),
        s.subrange(b, c) == t.subrange(b, c),
    ensures
        s.subrange(a, c) == t.subrange(a, c),
{
    assert forall|i: int| 0 <= i < c - a implies s.subrange(a, c)[i] == t.subrange(a, c)[i] by {
        if a + i < b {
            assert(s.subrange(a, b)[i] == s[a + i]);
            assert(t.subrange(a, b)[i] == t[a + i]);
        } else {
            assert(s.subrange(b, c)[a + i - b] == s[a + i]);
            assert(t.subrange(b, c)[a + i - b] == t[a + i]);
        }
    }
    assert(s.subrange(a, c) =~= t.subrange(a, c));
}

/// Two runs of bytes with the same byte at `at` hold the same from `at` to
/// the place after it.
proof fn lemma_same_byte(s: Seq<u8>, t: Seq<u8>, at: int)
    requires
        0 <= at < s.len(),
        at < t.len(),
        s[at] == t[at],
    ensures
        s.subrange(at, at + 1) == t.subrange(at, at + 1),
{
    assert(s.subrange(at, at + 1) =~= t.subrange(at, at + 1));
}

/// A header that differs from the one that 64 bytes decode to in its entry
/// point and its name only is held by those bytes with the entry point and
/// the name replaced where they lie.
pub proof fn lemma_renamed_encoding(bytes: Seq<u8>, stored: Header, header: Header)
    requires
        bytes.len() == HEADER_BYTES,
        stored.is_decoding_of(bytes),
        header == (Header { pc: header.pc, image_name: header.image_name, ..stored }),
    ensures
        header.encoding() == bytes.subrange(0, 8) + u32_bytes(header.pc) + bytes.subrange(12, 32)
            + header.image_name@ + bytes.subrange(52, 64),
{
    let new = header.encoding();
    let old = stored.encoding();
    lemma_encode_decode(bytes, stored);
    lemma_encoding_fields(stored);
    lemma_encoding_fields(header);
    lemma_same_run(new, old, 0, 4, 8);
    lemma_same_run(new, old, 12, 14, 16);
    lemma_same_run(new, old, 12, 16, 24);
    lemma_same_run(new, old, 12, 24, 32);
    lemma_same_byte(new, old, 59);
    lemma_same_byte(new, old, 62);
    lemma_same_byte(new, old, 63);
    lemma_same_run(new, old, 52, 59, 60);
    lemma_same_run(new, old, 52, 60, 62);
    lemma_same_run(new, old, 52, 62, 63);
    lemma_same_run(new, old, 52, 63, 64);
    lemma_pieces(new, 8, 12, 32, 52);
}

/// A run of 64 bytes is its five pieces between the given places, one after
/// another.
proof fn lemma_pieces(s: Seq<u8>, a: int, b: int, c: int, d: int)
    requires
        s.len() == HEADER_BYTES,
        0 <= a <= b <= c <= d <= HEADER_BYTES,
    ensures
        s == s.subrange(0, a) + s.subrange(a, b) + s.subrange(b, c) + s.subrange(c, d) + s.subrange(
            d,
            HEADER_BYTES as int,
        ),
{
    assert(s =~= s.subrange(0, a) + s.subrange(a, b) + s.subrange(b, c) + s.subrange(c, d)
        + s.subrange(d, HEADER_BYTES as int));
}

/// Where each field lies in the encoding of a header.
pub proof fn lemma_encoding_fields(header: Header)
    ensures
        header.encoding().len() == HEADER_BYTES,
        header.encoding().subrange(0, 4) == u32_bytes(header.pi_regs),
        header.encoding().subrange(4, 8) == u32_bytes(header.clockrate),
        header.encoding().subrange(8, 12) == u32_bytes(header.pc),
        header.encoding().subrange(12, 14) == u16_bytes(header.unknown0),
        header.encoding().subrange(14, 16) == u16_bytes(header.release),
        header.encoding().subrange(16, 24) == u64_bytes(header.checksum),
        header.encoding().subrange(24, 32) == u64_bytes(header.unknown1),
        header.encoding().subrange(32, 52) == header.image_name@,
        header.encoding().subrange(52, 59) == header.unknown2@,
        header.encoding()[59] == header.media_format,
        header.encoding().subrange(60, 62) == u16_bytes(header.cart_id),
        header.encoding()[62] == header.country,
        header.encoding()[63] == header.revision,
{
    lemma_encoding_words(header);
    lemma_encoding_sums(header);
    lemma_encoding_rest(header);
}

/// Where the first five fields lie in the encoding of a header.
proof fn lemma_encoding_words(header: Header)
    ensures
        header.encoding().len() == HEADER_BYTES,
        header.encoding().subrange(0, 4) == u32_bytes(header.pi_regs),
        header.encoding().subrange(4, 8) == u32_bytes(header.clockrate),
        header.encoding().subrange(8, 12) == u32_bytes(header.pc),
        header.encoding().subrange(12, 14) == u16_bytes(header.unknown0),
        header.encoding().subrange(14, 16) == u16_bytes(header.release),
{
}

/// Where the checksum, the field after it and the name lie in the encoding
/// of a header.
proof fn lemma_encoding_sums(header: Header)
    ensures
        header.encoding().subrange(16, 24) == u64_bytes(header.checksum),
        header.encoding().subrange(24, 32) == u64_bytes(header.unknown1),
        header.encoding().subrange(32, 52) == header.image_name@,
{
}

/// Where the last five fields lie in the encoding of a header.
proof fn lemma_encoding_rest(header: Header)
    ensures
        header.encoding().subrange(52, 59) == header.unknown2@,
        header.encoding()[59] == header.media_format,
        header.encoding().subrange(60, 62) == u16_bytes(header.cart_id),
        header.encoding()[62] == header.country,
        header.encoding()[63] == header.revision,
{
}

} // verus!
