//! Boot stages as they come from outside: a file of any length that is to
//! serve as one, and the boot stage of the libdragon project, which comes
//! with a header of its own and loads an executable by itself.

use crate::codec::u32_bytes;
use crate::pack::fill;
use crate::rom::{
    image_name, lemma_renamed_encoding, name_field, Header, HEADER_BYTES, IPL3_BYTES,
};
use vstd::prelude::*;
use vstd::slice::slice_subrange;
use vstd::string::StringSliceAdditionalSpecFns;

verus! {

/// The executable after a libdragon boot stage starts on a multiple of this.
pub const LOAD_ALIGNMENT: usize = 256;

/// Bytes brought to the length of a boot stage: cut if there are more,
/// filled up with zeros if there are fewer.
pub open spec fn fitted(data: Seq<u8>) -> Seq<u8> {
    Seq::new(
        IPL3_BYTES as nat,
        |i: int|
            if i < data.len() {
                data[i]
            } else {
                0u8
            },
    )
}

/// Makes a boot stage of the bytes of a file, whatever its length.
pub fn boot_stage(data: &[u8]) -> (ipl3: [u8; 4032])
    ensures
        ipl3@ == fitted(data@),
{
    let mut ipl3 = [0u8;4032];
    let mut i: usize = 0;
    while i < IPL3_BYTES && i < data.len()
        invariant
            i <= IPL3_BYTES,
            i <= data@.len(),
            forall|j: int| 0 <= j < i ==> ipl3@[j] == data@[j],
            forall|j: int| i <= j < IPL3_BYTES ==> ipl3@[j] == 0u8,
        decreases IPL3_BYTES - i,
    {
        ipl3[i] = data[i];
        i += 1;
    }
    assert(ipl3@ =~= fitted(data@));
    ipl3
}

/// The first 64 bytes of a container, as an array.
fn stored_header(container: &[u8]) -> (stored: [u8; 64])
    requires
        container@.len() >= HEADER_BYTES,
    ensures
        stored@ == container@.subrange(0, HEADER_BYTES as int),
{
    let mut stored = [0u8;64];
    let mut i: usize = 0;
    while i < HEADER_BYTES
        invariant
            i <= HEADER_BYTES,
            container@.len() >= HEADER_BYTES,
            forall|j: int| 0 <= j < i ==> stored@[j] == container@[j],
        decreases HEADER_BYTES - i,
    {
        stored[i] = container[i];
        i += 1;
    }
    assert(stored@ =~= container@.subrange(0, HEADER_BYTES as int));
    stored
}

/// Zero bytes that stand between a libdragon boot stage and the executable:
/// as many as bring the length of the container up to the next multiple of
/// the load alignment, a whole step if it is one already.
pub open spec fn alignment_gap(len: int) -> int {
    LOAD_ALIGNMENT - len % (LOAD_ALIGNMENT as int)
}

/// The image that a libdragon boot stage makes with an executable: the
/// container, in whose header the entry point and the name are replaced,
/// then the alignment gap, then the file of the executable as it is.
pub open spec fn libdragon_layout(
    container: Seq<u8>,
    executable: Seq<u8>,
    entry: u32,
    name: Seq<u8>,
) -> Seq<u8> {
    container.subrange(0, 8) + u32_bytes(entry) + container.subrange(12, 32) + name_field(name)
        + container.subrange(52, container.len() as int) + fill(
        alignment_gap(container.len() as int),
        0,
    ) + executable
}

/// The header of a libdragon boot stage, with the entry point and the name
/// replaced.
fn renamed_header(container: &[u8], entry: u32, name: &str) -> (head: Vec<u8>)
    requires
        container@.len() >= HEADER_BYTES,
    ensures
        head@ == container@.subrange(0, 8) + u32_bytes(entry) + container@.subrange(12, 32)
            + name_field(name.spec_bytes()) + container@.subrange(52, 64),
{
    let stored = stored_header(container);
    let mut header = Header::new(stored);
    let ghost decoded = header;
    header.pc = entry;
    header.image_name = image_name(name);
    proof {
        lemma_renamed_encoding(stored@, decoded, header);
        assert(stored@.subrange(0, 8) =~= container@.subrange(0, 8));
        assert(stored@.subrange(12, 32) =~= container@.subrange(12, 32));
        assert(stored@.subrange(52, 64) =~= container@.subrange(52, 64));
    }
    header.to_vec()
}

/// Makes the image of an executable behind a libdragon boot stage.
///
/// `container` is the boot stage as the libdragon project ships it: a
/// header of 64 bytes and the code after it. The boot stage loads the
/// executable from its file, so `executable` is that file, not its sections.
pub fn libdragon_image(container: &[u8], executable: &[u8], entry: u32, name: &str) -> (image: Vec<
    u8,
>)
    requires
        container@.len() >= HEADER_BYTES,
        container@.len() + LOAD_ALIGNMENT + executable@.len() <= isize::MAX,
    ensures
        image@ == libdragon_layout(container@, executable@, entry, name.spec_bytes()),
{
    let misalignment = LOAD_ALIGNMENT - container.len() % LOAD_ALIGNMENT;
    let mut image = renamed_header(container, entry, name);
    let ghost front = container@.subrange(0, 8) + u32_bytes(entry) + container@.subrange(12, 32)
        + name_field(name.spec_bytes());
    image.extend_from_slice(slice_subrange(container, HEADER_BYTES, container.len()));
    assert(image@ =~= front + container@.subrange(52, container@.len() as int)) by {
        assert(image@ =~= front + container@.subrange(52, 64) + container@.subrange(
            64,
            container@.len() as int,
        ));
    }
    let ghost body = image@;
    image.resize(image.len() + misalignment, 0x00);
    assert(image@ =~= body + fill(alignment_gap(container@.len() as int), 0));
    let ghost padded = image@;
    image.extend_from_slice(executable);
    assert(image@ =~= padded + executable@);
    image
}

} // verus!
