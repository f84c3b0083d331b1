//! Makes a bootable Nintendo 64 ROM image of an executable: packs its
//! sections into one payload, computes the checksum that the console's boot
//! code expects, and puts a header and a boot stage in front.
//!
//! The parts, from the input to the image:
//!
//! - `reader` reads an executable with the `object` crate and makes an
//!   `elf::Elf` of it, its sections sorted as `order` says.
//! - `pack` lays the sections out as one payload; `placement` shows what
//!   the payload holds where.
//! - `checksum` computes the boot checksum of a payload; `fingerprint`
//!   recognises the boot stage that decides which one.
//! - `rom` holds the header, its 64-byte encoding, and the image as a whole.
//! - `ipl3`, `options` and `command` serve a program around the library:
//!   boot stages that come as files, and words from the command line.
//!
//! Every function of the library is verified against its contract, but for
//! the few that call into another crate or into parts of std that have no
//! specification. Those stand in `buffer` (`bytes`), `fingerprint` (`crc`),
//! `reader` and `elf` (`object`), `command` (`shlex`), `options` and `rom`
//! (std), each with a comment that says what is taken on trust.

use vstd::prelude::*;

pub mod buffer;
pub mod checksum;
pub mod codec;
pub mod command;
pub mod elf;
pub mod fingerprint;
pub mod ipl3;
pub mod names;
pub mod options;
pub mod order;
pub mod pack;
pub mod placement;
pub mod reader;
pub mod rom;

verus! {

/// Why no ROM could be made.
#[derive(Debug)]
pub enum Error {
    /// The bytes are not an executable that the reader understands. The
    /// text is what the reader said of them.
    ObjectError(String),
    /// The executable has no section named `.boot`.
    MissingBootSection,
    /// The boot section is not marked as machine code.
    NotExecutable,
}

} // verus!
