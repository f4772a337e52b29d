//! The command line: which file to run, or to build and where.
use vstd::prelude::*;
use vstd::string::StringExecFns;
use crate::ast::str_eq;
use crate::text::{chars_of, concat3};

verus! {

/// What the command line asks for.
#[derive(Debug, Clone, PartialEq, Eq)]
pub enum CliCommand {
    /// Compile the source file and run the program.
    Run { source_path: String },
    /// Compile the source file to an executable at `output_path`.
    Build { source_path: String, output_path: String },
}

/// The model of a [`CliCommand`].
pub enum CommandView {
    Run { source_path: Seq<char> },
    Build { source_path: Seq<char>, output_path: Seq<char> },
}

impl View for CliCommand {
    type V = CommandView;

    open spec fn view(&self) -> CommandView {
        match self {
            CliCommand::Run { source_path } => CommandView::Run { source_path: source_path@ },
            CliCommand::Build { source_path, output_path } => CommandView::Build {
                source_path: source_path@,
                output_path: output_path@,
            },
        }
    }
}

pub open spec fn is_output_flag(arg: Seq<char>) -> bool {
    arg == "-o"@ || arg == "--output"@
}

pub open spec fn is_help_flag(arg: Seq<char>) -> bool {
    arg == "-h"@ || arg == "--help"@
}

/// The arguments from index `i` on, with the source and output paths seen
/// so far; the result is both paths, or the message of the first misuse.
pub open spec fn scan_args(
    args: Seq<Seq<char>>,
    i: nat,
    source: Option<Seq<char>>,
    output: Option<Seq<char>>,
) -> Result<(Option<Seq<char>>, Option<Seq<char>>), Seq<char>>
    decreases args.len() - i,
{
    if i >= args.len() {
        Ok((source, output))
    } else {
        let arg = args[i as int];
        if is_output_flag(arg) {
            if i + 1 >= args.len() {
                Err("missing output file after `-o`"@)
            } else {
                scan_args(args, i + 2, source, Some(args[i + 1int]))
            }
        } else if is_help_flag(arg) {
            Err("mould language cli"@)
        } else if arg.len() > 0 && arg[0] == '-' {
            Err("unknown option `"@ + arg + "`"@)
        } else if source is None {
            scan_args(args, i + 1, Some(arg), output)
        } else {
            Err("unexpected argument `"@ + arg + "`"@)
        }
    }
}

pub open spec fn msg_extension() -> Seq<char> {
    "source file must have `.mould` extension"@
}

/// The command for a source path, an optional output path and the source
/// path's extension.
pub open spec fn spec_command(source: Seq<char>, output: Option<Seq<char>>, extension: Option<Seq<char>>) -> Result<
    CommandView,
    Seq<char>,
> {
    if extension != Some("mould"@) {
        Err(msg_extension())
    } else {
        match output {
            Some(o) => Ok(CommandView::Build { source_path: source, output_path: o }),
            None => Ok(CommandView::Run { source_path: source }),
        }
    }
}

pub open spec fn strings_view(args: Seq<String>) -> Seq<Seq<char>> {
    args.map_values(|a: String| a@)
}

pub open spec fn command_result(r: Result<CliCommand, String>) -> Result<CommandView, Seq<char>> {
    match r {
        Ok(c) => Ok(c@),
        Err(m) => Err(m@),
    }
}

/// The index of the last `c` among the first `n` characters of `s`, or -1.
pub open spec fn last_index_of(s: Seq<char>, c: char, n: nat) -> int
    decreases n,
{
    if n == 0 || n > s.len() {
        -1
    } else if s[n - 1] == c {
        n - 1
    } else {
        last_index_of(s, c, (n - 1) as nat)
    }
}

/// The extension of a plain path, one that every platform's path syntax
/// reads alike: no `\` and no `:` anywhere, not starting with `//` (a
/// single leading `/` is a root on every platform),
/// and a last `.` that has a character other than `/` right before it and
/// a non-empty run after it with no `/`. For other paths, `None`: what
/// their extension is depends on the platform.
pub open spec fn plain_extension(path: Seq<char>) -> Option<Seq<char>> {
    let k = last_index_of(path, '.', path.len());
    if !path.contains('\\') && !path.contains(':') && path.len() > 0 && (path[0] != '/' || (path.len() > 1
        && path[1] != '/')) && 0 < k && k + 1 < path.len() && path[k - 1] != '/' && last_index_of(path, '/', path.len())
        < k {
        Some(path.subrange(k + 1, path.len() as int))
    } else {
        None
    }
}

/// The extension of a path's file name (std's `Path::extension`), as text.
/// The contract claims what holds on every platform: a plain path
/// (see [`plain_extension`]) has the part after its last `.` as extension,
/// and a path without any `.` has none. What the extension of other paths
/// is depends on the platform's path syntax, and is left unsaid.
#[verifier::external_body]
fn path_extension(path: &String) -> (r: Option<String>)
    ensures
        plain_extension(path@) is Some ==> option_view(r) == plain_extension(path@),
        !path@.contains('.') ==> r is None,
{
    match std::path::Path::new(path.as_str()).extension() {
        Some(extension) => match extension.to_str() {
            Some(text) => Some(text.to_string()),
            None => None,
        },
        None => None,
    }
}

fn starts_with_dash(arg: &String) -> (r: bool)
    ensures
        r == (arg@.len() > 0 && arg@[0] == '-'),
{
    let cs = chars_of(arg.as_str());
    cs.len() > 0 && cs[0] == '-'
}

fn copy_string(s: &String) -> (r: String)
    ensures
        r@ == s@,
{
    s.clone()
}

/// Reads the arguments that follow the program's name: a source path and,
/// after `-o` or `--output`, an output path.
pub fn read_args(args: &Vec<String>) -> (r: Result<(Option<String>, Option<String>), String>)
    ensures
        match r {
            Ok((source, output)) => scan_args(strings_view(args@), 0, None, None) == Ok::<
                (Option<Seq<char>>, Option<Seq<char>>),
                Seq<char>,
            >((option_view(source), option_view(output))),
            Err(m) => scan_args(strings_view(args@), 0, None, None) == Err::<
                (Option<Seq<char>>, Option<Seq<char>>),
                Seq<char>,
            >(m@),
        },
{
    let ghost all = strings_view(args@);
    let mut source: Option<String> = None;
    let mut output: Option<String> = None;
    let mut i: usize = 0;
    while i < args.len()
        invariant
            i <= args@.len(),
            all == strings_view(args@),
            scan_args(all, 0, None, None) == scan_args(all, i as nat, option_view(source), option_view(output)),
        decreases args@.len() - i,
    {
        let arg = &args[i];
        if str_eq(arg.as_str(), "-o") || str_eq(arg.as_str(), "--output") {
            if i + 1 >= args.len() {
                return Err(String::from_str("missing output file after `-o`"));
            }
            output = Some(copy_string(&args[i + 1]));
            i = i + 2;
        } else if str_eq(arg.as_str(), "-h") || str_eq(arg.as_str(), "--help") {
            return Err(String::from_str("mould language cli"));
        } else if starts_with_dash(arg) {
            return Err(concat3("unknown option `", arg.as_str(), "`"));
        } else if source.is_none() {
            source = Some(copy_string(arg));
            i = i + 1;
        } else {
            return Err(concat3("unexpected argument `", arg.as_str(), "`"));
        }
    }
    Ok((source, output))
}

pub open spec fn option_view(o: Option<String>) -> Option<Seq<char>> {
    match o {
        Some(s) => Some(s@),
        None => None,
    }
}

/// The command for a source path, an optional output path and the source
/// path's extension: a `.mould` source is required.
pub fn command_for(source: String, output: Option<String>, extension: Option<String>) -> (r: Result<
    CliCommand,
    String,
>)
    ensures
        command_result(r) == spec_command(source@, option_view(output), option_view(extension)),
{
    let is_mould = match &extension {
        Some(e) => str_eq(e.as_str(), "mould"),
        None => false,
    };
    if !is_mould {
        return Err(String::from_str("source file must have `.mould` extension"));
    }
    match output {
        Some(output_path) => Ok(CliCommand::Build { source_path: source, output_path }),
        None => Ok(CliCommand::Run { source_path: source }),
    }
}

/// Parses the arguments that follow the program's name. Misused arguments
/// and a missing source file are refused with their messages; otherwise
/// the result is what [`command_for`] gives for the source path's
/// extension. That extension is fixed for plain paths and for
/// paths without a `.`; for other paths the platform's path syntax decides.
pub fn parse_args(args: &Vec<String>) -> (r: Result<CliCommand, String>)
    ensures
        match scan_args(strings_view(args@), 0, None, None) {
            Err(m) => command_result(r) == Err::<CommandView, Seq<char>>(m),
            Ok((None, _)) => command_result(r) == Err::<CommandView, Seq<char>>("missing source file"@),
            Ok((Some(source), output)) => {
                &&& command_result(r) == spec_command(source, output, None) || command_result(r) == spec_command(
                    source,
                    output,
                    Some("mould"@),
                )
                &&& plain_extension(source) matches Some(e) ==> command_result(r) == spec_command(
                    source,
                    output,
                    Some(e),
                )
                &&& !source.contains('.') ==> command_result(r) == spec_command(source, output, None)
            },
        },
{
    let (source, output) = read_args(args)?;
    let source = match source {
        Some(s) => s,
        None => {
            return Err(String::from_str("missing source file"));
        },
    };
    let extension = path_extension(&source);
    let r = command_for(source, output, extension);
    proof {
        reveal_strlit("mould");
    }
    r
}

} // verus!
