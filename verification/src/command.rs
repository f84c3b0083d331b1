//! Commands that run before and after a ROM is made, as the caller writes
//! them: one line, split into words the way a shell does.

use crate::names::name_views;
use vstd::prelude::*;

verus! {

/// A program and the arguments to start it with.
#[derive(Debug, PartialEq)]
pub struct CommandLine {
    pub program: String,
    pub args: Vec<String>,
}

impl Clone for CommandLine {
    fn clone(&self) -> (copy: CommandLine)
        ensures
            copy.program@ == self.program@,
            name_views(copy.args@) == name_views(self.args@),
    {
        let args = self.args.clone();
        assert(name_views(args@) =~= name_views(self.args@));
        CommandLine { program: self.program.clone(), args }
    }
}

/// The words that the `shlex` crate splits a line into, and whether it met
/// an error on the way (a quote that is not closed, a backslash at the end).
pub uninterp spec fn shell_words(line: Seq<char>) -> (Seq<Seq<char>>, bool);

/// `shlex::Shlex::new` on a line, all the words that the iterator gives,
/// and its `had_error` after the last one.
#[verifier::external_body]
fn split_words(line: &str) -> (split: (Vec<String>, bool))
    ensures
        (name_views(split.0@), split.1) == shell_words(line@),
{
    let mut lex = shlex::Shlex::new(line);
    let words = lex.by_ref().collect();
    (words, lex.had_error)
}

/// Whether `command` is what the words of a line make: nothing if there is
/// no word or the line was in error, else the first word as the program and
/// the others as its arguments.
pub open spec fn is_command(command: Option<CommandLine>, words: Seq<Seq<char>>, had_error: bool) -> bool {
    match command {
        Some(found) => {
            &&& !had_error
            &&& words.len() > 0
            &&& found.program@ == words[0]
            &&& name_views(found.args@) == words.skip(1)
        },
        None => had_error || words.len() == 0,
    }
}

/// Makes a command of the words of a line.
pub fn command_of(words: Vec<String>, had_error: bool) -> (command: Option<CommandLine>)
    ensures
        is_command(command, name_views(words@), had_error),
{
    if words.is_empty() || had_error {
        return None;
    }
    let mut args = words;
    let program = args.remove(0);
    assert(name_views(args@) =~= name_views(words@).skip(1));
    Some(CommandLine { program, args })
}

/// Splits a line into a program and its arguments. A line without a word,
/// or one that cannot be split, is no command.
pub fn parse_command(line: &str) -> (command: Option<CommandLine>)
    ensures
        is_command(command, shell_words(line@).0, shell_words(line@).1),
{
    let (words, had_error) = split_words(line);
    command_of(words, had_error)
}

} // verus!
