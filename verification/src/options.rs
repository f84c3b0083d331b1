//! Choices that a caller makes by a word on the command line.

use vstd::prelude::*;

verus! {

/// Which boot stage of the libdragon project to use.
#[derive(Debug, PartialEq)]
pub enum LibdragonIpl3Version {
    /// The one that starts an executable packed as a ROM.
    Compat,
    /// The one for development, which loads the file of an executable.
    Debug,
    /// The one for release, which loads the file of an executable.
    Release,
    /// One that is read from the file at this path.
    Path(String),
}

impl Clone for LibdragonIpl3Version {
    fn clone(&self) -> (copy: LibdragonIpl3Version)
        ensures
            match *self {
                LibdragonIpl3Version::Path(path) => copy matches LibdragonIpl3Version::Path(same)
                    && same@ == path@,
                _ => copy == *self,
            },
    {
        match self {
            LibdragonIpl3Version::Compat => LibdragonIpl3Version::Compat,
            LibdragonIpl3Version::Debug => LibdragonIpl3Version::Debug,
            LibdragonIpl3Version::Release => LibdragonIpl3Version::Release,
            LibdragonIpl3Version::Path(path) => LibdragonIpl3Version::Path(path.clone()),
        }
    }
}

/// The lower-case form of a text, as `str::to_lowercase` of std gives it.
pub uninterp spec fn lowercase(text: Seq<char>) -> Seq<char>;

/// `str::to_lowercase` of std: the text with every character in its
/// lower-case form, by the rules of Unicode, whatever the locale.
#[verifier::external_body]
fn to_lowercase(text: &str) -> (lower: String)
    ensures
        lower@ == lowercase(text@),
{
    text.to_lowercase()
}

/// The boot stage that a word stands for, if it is one of the words for one.
pub open spec fn version_named(word: Seq<char>) -> Option<LibdragonIpl3Version> {
    if word == "compat"@ {
        Some(LibdragonIpl3Version::Compat)
    } else if word == "d"@ || word == "debug"@ || word == "dev"@ {
        Some(LibdragonIpl3Version::Debug)
    } else if word == "r"@ || word == "release"@ || word == "prod"@ {
        Some(LibdragonIpl3Version::Release)
    } else {
        None
    }
}

/// What is said of a word that stands for no boot stage.
pub open spec fn unknown_version() -> Seq<char> {
    "Unable to parse libdragon IPL3 version. Expected: compat, debug, or release"@
}

/// Whether `outcome` is what a lower-case word chooses: the boot stage that
/// it stands for; else, if it is the path of a file, the boot stage in that
/// file; else nothing.
pub open spec fn is_choice(
    outcome: Result<LibdragonIpl3Version, String>,
    word: Seq<char>,
    is_file: bool,
) -> bool {
    match version_named(word) {
        Some(version) => outcome == Ok::<LibdragonIpl3Version, String>(version),
        None => if is_file {
            outcome matches Ok(LibdragonIpl3Version::Path(path)) && path@ == word
        } else {
            outcome matches Err(said) && said@ == unknown_version()
        },
    }
}

impl LibdragonIpl3Version {
    /// The boot stage that a lower-case word stands for.
    pub fn from_keyword(word: &String) -> (version: Option<LibdragonIpl3Version>)
        ensures
            version == version_named(word@),
    {
        if *word == "compat".to_owned() {
            Some(LibdragonIpl3Version::Compat)
        } else if *word == "d".to_owned() || *word == "debug".to_owned() || *word
            == "dev".to_owned() {
            Some(LibdragonIpl3Version::Debug)
        } else if *word == "r".to_owned() || *word == "release".to_owned() || *word
            == "prod".to_owned() {
            Some(LibdragonIpl3Version::Release)
        } else {
            None
        }
    }

    /// Chooses a boot stage by a word that is already in lower case.
    /// `is_file` says whether the word is the path of a file.
    pub fn select(word: String, is_file: bool) -> (outcome: Result<LibdragonIpl3Version, String>)
        ensures
            is_choice(outcome, word@, is_file),
    {
        match LibdragonIpl3Version::from_keyword(&word) {
            Some(version) => Ok(version),
            None => if is_file {
                Ok(LibdragonIpl3Version::Path(word))
            } else {
                Err(
                    "Unable to parse libdragon IPL3 version. Expected: compat, debug, or release".to_owned(),
                )
            },
        }
    }

    /// Chooses a boot stage by a word in any case. `is_file` says whether
    /// the word, in lower case, is the path of a file.
    pub fn parse(text: &str, is_file: bool) -> (outcome: Result<LibdragonIpl3Version, String>)
        ensures
            is_choice(outcome, lowercase(text@), is_file),
    {
        LibdragonIpl3Version::select(to_lowercase(text), is_file)
    }
}

} // verus!
