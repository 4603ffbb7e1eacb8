//! The command line.

use vstd::prelude::*;
use vstd::string::StringExecFns;

verus! {

/// What the command line asks for.
#[derive(Debug)]
pub struct Args {
    /// Show the image in a window while it is rendered.
    pub preview: bool,
}

/// A command line that could not be understood.
#[derive(Debug)]
pub struct ArgParseError {
    pub msg: String,
}

impl Default for Args {
    fn default() -> (args: Args)
        ensures
            !args.preview,
    {
        Args { preview: false }
    }
}

/// The one word that the command line may hold: show a preview.
pub open spec fn preview_flag() -> Seq<char> {
    "-p"@
}

/// The position of the first argument at or behind `from` that is not the
/// preview flag; the number of arguments if there is none.
pub open spec fn unknown_from(argv: Seq<String>, from: int) -> int
    decreases argv.len() - from,
{
    if from < 0 || from >= argv.len() {
        argv.len() as int
    } else if argv[from]@ == preview_flag() {
        unknown_from(argv, from + 1)
    } else {
        from
    }
}

/// The position of the first argument, behind the name of the program, that
/// is not the preview flag; the number of arguments if there is none.
pub open spec fn first_unknown(argv: Seq<String>) -> int {
    unknown_from(argv, 1)
}

/// What is said of an argument that is not understood.
pub open spec fn complaint(arg: Seq<char>) -> Seq<char> {
    "Unknown arg '"@ + arg + "'"@
}

/// `unknown_from` is what its name says: every argument from `from` up to
/// it is the preview flag, and the argument at it, if there is one, is not.
pub proof fn lemma_unknown_from(argv: Seq<String>, from: int)
    requires
        0 <= from,
    ensures
        from <= unknown_from(argv, from) || argv.len() < from,
        unknown_from(argv, from) <= argv.len(),
        forall|i: int| from <= i < unknown_from(argv, from) ==> (#[trigger] argv[i])@ == preview_flag(),
        unknown_from(argv, from) < argv.len() ==> argv[unknown_from(argv, from)]@ != preview_flag(),
    decreases argv.len() - from,
{
    if from < argv.len() && argv[from]@ == preview_flag() {
        lemma_unknown_from(argv, from + 1);
    }
}

/// Reads the command line, of which the first word is the name of the
/// program.
///
/// Every further word must be `-p`, which asks for the preview. The first
/// word that is anything else is reported, and nothing behind it is looked
/// at.
pub fn parse(argv: &Vec<String>) -> (parsed: Result<Args, ArgParseError>)
    ensures
        match parsed {
            Ok(args) => first_unknown(argv@) == argv@.len() && args.preview == (argv@.len() > 1),
            Err(e) => first_unknown(argv@) < argv@.len() && e.msg@ == complaint(
                argv@[first_unknown(argv@)]@,
            ),
        },
{
    let mut args = Args::default();
    let flag = String::from_str("-p");
    let mut i: usize = 1;
    while i < argv.len()
        invariant
            1 <= i,
            flag@ == preview_flag(),
            unknown_from(argv@, i as int) == first_unknown(argv@),
            args.preview == (i > 1),
            i <= argv@.len() || i == 1,
        decreases argv@.len() - i,
    {
        let arg = &argv[i];
        if *arg == flag {
            args.preview = true;
        } else {
            let msg = String::from_str("Unknown arg '").concat(arg.as_str()).concat("'");
            return Err(ArgParseError { msg });
        }
        i = i + 1;
    }
    Ok(args)
}

} // verus!
