//! The command line of the analyzer: its arguments and what it answers.
use vstd::prelude::*;
use crate::text::opt_chars;
use vstd::string::StringExecFns;
use crate::text::{join_strings, join_with, str_is, views_of};

verus! {

/// A command-line error, with the message printed for it.
#[derive(Debug, PartialEq, Eq)]
pub struct CliError {
    pub message: String,
}

impl CliError {
    /// An error with the given message.
    pub fn new(message: String) -> (res: Self)
        ensures
            res.message == message,
    {
        CliError { message }
    }

    /// The message, as the error displays itself.
    pub fn to_string(&self) -> (res: String)
        ensures
            res@ == self.message@,
    {
        self.message.clone()
    }
}

/// How the report is printed.
#[derive(Clone, Copy, Debug, PartialEq, Eq, Structural)]
pub enum OutputFormat {
    Markdown,
    Json,
    PrComment,
    Html,
}

/// What the arguments ask for: an analysis of a repository between two refs.
#[derive(Debug, PartialEq, Eq)]
pub struct Invocation {
    pub repo: String,
    pub base: String,
    pub head: String,
    pub format: OutputFormat,
    pub paths: Vec<String>,
}

/// What the command line asks for.
#[derive(Debug, PartialEq, Eq)]
pub enum Command {
    /// Print this text.
    Help(String),
    /// Run the analysis.
    Analyze(Invocation),
}

/// The arguments read so far.
pub struct ArgState {
    pub repo: Option<Seq<char>>,
    pub base: Option<Seq<char>>,
    pub head: Option<Seq<char>>,
    pub format: OutputFormat,
    pub paths: Seq<Seq<char>>,
}

/// Where reading the arguments ends.
pub enum ArgOutcome {
    Help,
    Error(Seq<char>),
    Done(ArgState),
}

/// The format a `--format` value names.
pub open spec fn format_named(v: Seq<char>) -> Option<OutputFormat> {
    if v == "markdown"@ {
        Some(OutputFormat::Markdown)
    } else if v == "json"@ {
        Some(OutputFormat::Json)
    } else if v == "pr-comment"@ {
        Some(OutputFormat::PrComment)
    } else if v == "html"@ {
        Some(OutputFormat::Html)
    } else {
        None
    }
}

/// Reads the arguments from index `i` on, in state `st`: each flag takes the
/// next argument as its value; `-h` or `--help` stops with help; a flag
/// without its value or an unknown argument stops with an error.
pub open spec fn read_args(args: Seq<Seq<char>>, i: int, st: ArgState) -> ArgOutcome
    decreases args.len() - i,
{
    if i < 0 || i >= args.len() {
        ArgOutcome::Done(st)
    } else {
        let a = args[i];
        let has_value = i + 1 < args.len();
        if a == "--repo"@ {
            if has_value { read_args(args, i + 2, ArgState { repo: Some(args[i + 1]), ..st }) }
            else { ArgOutcome::Error("missing value for --repo"@) }
        } else if a == "--base"@ {
            if has_value { read_args(args, i + 2, ArgState { base: Some(args[i + 1]), ..st }) }
            else { ArgOutcome::Error("missing value for --base"@) }
        } else if a == "--head"@ {
            if has_value { read_args(args, i + 2, ArgState { head: Some(args[i + 1]), ..st }) }
            else { ArgOutcome::Error("missing value for --head"@) }
        } else if a == "--format"@ {
            if has_value {
                match format_named(args[i + 1]) {
                    Some(f) => read_args(args, i + 2, ArgState { format: f, ..st }),
                    None => ArgOutcome::Error("unsupported format: "@ + args[i + 1]),
                }
            } else {
                ArgOutcome::Error("missing value for --format"@)
            }
        } else if a == "--path"@ {
            if has_value { read_args(args, i + 2, ArgState { paths: st.paths.push(args[i + 1]), ..st }) }
            else { ArgOutcome::Error("missing value for --path"@) }
        } else if a == "-h"@ || a == "--help"@ {
            ArgOutcome::Help
        } else {
            ArgOutcome::Error("unknown argument: "@ + a)
        }
    }
}

/// The usage text.
pub open spec fn help_text_of() -> Seq<char> {
    join_with(seq![
        "analyzer-cli --repo <path> --base <ref> --head <ref> [--format markdown|json|pr-comment|html] [--path <repo-relative-path>]..."@,
        ""@,
        "Prints a report for the diff between two git refs."@,
    ], "\n"@)
}

/// The usage text.
pub fn help_text() -> (res: String)
    ensures
        res@ == help_text_of(),
{
    let mut lines: Vec<String> = Vec::new();
    lines.push(String::from_str("analyzer-cli --repo <path> --base <ref> --head <ref> [--format markdown|json|pr-comment|html] [--path <repo-relative-path>]..."));
    lines.push(String::new());
    lines.push(String::from_str("Prints a report for the diff between two git refs."));
    proof { reveal_strlit(""); }
    assert(lines@[1]@ =~= ""@);
    assert(views_of(lines@) =~= seq![
        "analyzer-cli --repo <path> --base <ref> --head <ref> [--format markdown|json|pr-comment|html] [--path <repo-relative-path>]..."@,
        ""@,
        "Prints a report for the diff between two git refs."@,
    ]);
    join_strings(&lines, "\n")
}

/// What the command line asks for, as plain values.
pub enum CommandView {
    Help(Seq<char>),
    Analyze { repo: Seq<char>, base: Seq<char>, head: Seq<char>, format: OutputFormat, paths: Seq<Seq<char>> },
}

/// The answer to the arguments: help, an error message, or an analysis once
/// `--repo`, `--base` and `--head` are all given (checked in that order).
pub open spec fn command_of(args: Seq<Seq<char>>) -> Result<CommandView, Seq<char>> {
    let start = ArgState { repo: None, base: None, head: None, format: OutputFormat::Markdown, paths: Seq::empty() };
    match read_args(args, 0, start) {
        ArgOutcome::Help => Ok(CommandView::Help(help_text_of())),
        ArgOutcome::Error(m) => Err(m),
        ArgOutcome::Done(st) => match (st.repo, st.base, st.head) {
            (None, _, _) => Err("missing --repo"@),
            (Some(_), None, _) => Err("missing --base"@),
            (Some(_), Some(_), None) => Err("missing --head"@),
            (Some(repo), Some(base), Some(head)) => Ok(CommandView::Analyze { repo, base, head, format: st.format, paths: st.paths }),
        },
    }
}

/// A command as plain values.
pub open spec fn command_view(c: Command) -> CommandView {
    match c {
        Command::Help(t) => CommandView::Help(t@),
        Command::Analyze(inv) => CommandView::Analyze {
            repo: inv.repo@, base: inv.base@, head: inv.head@, format: inv.format, paths: views_of(inv.paths@),
        },
    }
}


fn error_with(prefix: &str, value: &str) -> (res: CliError)
    ensures
        res.message@ == prefix@ + value@,
{
    let mut m = String::from_str(prefix);
    m.append(value);
    CliError::new(m)
}

/// Reads the command line (the arguments after the program's name).
pub fn parse_args(args: &Vec<String>) -> (res: Result<Command, CliError>)
    ensures
        match (res, command_of(views_of(args@))) {
            (Ok(c), Ok(v)) => command_view(c) == v,
            (Err(e), Err(m)) => e.message@ == m,
            _ => false,
        },
{
    let ghost av = views_of(args@);
    let ghost start = ArgState { repo: None, base: None, head: None, format: OutputFormat::Markdown, paths: Seq::empty() };
    let mut repo: Option<String> = None;
    let mut base: Option<String> = None;
    let mut head: Option<String> = None;
    let mut format = OutputFormat::Markdown;
    let mut paths: Vec<String> = Vec::new();
    let mut i: usize = 0;
    assert(views_of(paths@) =~= Seq::<Seq<char>>::empty());
    while i < args.len()
        invariant
            i <= args.len(),
            av == views_of(args@),
            start == (ArgState { repo: None, base: None, head: None, format: OutputFormat::Markdown, paths: Seq::empty() }),
            read_args(av, 0, start) == read_args(av, i as int, ArgState {
                repo: opt_chars(repo), base: opt_chars(base), head: opt_chars(head), format, paths: views_of(paths@),
            }),
        decreases args.len() - i,
    {
        let a = args[i].as_str();
        let ghost st = ArgState {
            repo: opt_chars(repo), base: opt_chars(base), head: opt_chars(head), format, paths: views_of(paths@),
        };
        assert(av[i as int] == a@);
        assert(av.len() == args.len());
        let has_value = i + 1 < args.len();
        if has_value {
            assert(av[i + 1] == args@[i + 1]@);
        }
        if str_is(a, "--repo") {
            if !has_value {

                return Err(CliError::new(String::from_str("missing value for --repo")));
            }
            repo = Some(args[i + 1].clone());
            i = i + 2;
        } else if str_is(a, "--base") {
            if !has_value {
                return Err(CliError::new(String::from_str("missing value for --base")));
            }
            base = Some(args[i + 1].clone());
            i = i + 2;
        } else if str_is(a, "--head") {
            if !has_value {
                return Err(CliError::new(String::from_str("missing value for --head")));
            }
            head = Some(args[i + 1].clone());
            i = i + 2;
        } else if str_is(a, "--format") {
            if !has_value {
                return Err(CliError::new(String::from_str("missing value for --format")));
            }
            let v = args[i + 1].as_str();
            if str_is(v, "markdown") {
                format = OutputFormat::Markdown;
            } else if str_is(v, "json") {
                format = OutputFormat::Json;
            } else if str_is(v, "pr-comment") {
                format = OutputFormat::PrComment;
            } else if str_is(v, "html") {
                format = OutputFormat::Html;
            } else {
                return Err(error_with("unsupported format: ", v));
            }
            i = i + 2;
        } else if str_is(a, "--path") {
            if !has_value {
                return Err(CliError::new(String::from_str("missing value for --path")));
            }
            let ghost before = views_of(paths@);
            paths.push(args[i + 1].clone());
            assert(views_of(paths@) =~= before.push(av[i + 1]));
            i = i + 2;
        } else if str_is(a, "-h") || str_is(a, "--help") {
            return Ok(Command::Help(help_text()));
        } else {
            return Err(error_with("unknown argument: ", a));
        }
    }
    let repo = match repo {
        Some(r) => r,
        None => return Err(CliError::new(String::from_str("missing --repo"))),
    };
    let base = match base {
        Some(b) => b,
        None => return Err(CliError::new(String::from_str("missing --base"))),
    };
    let head = match head {
        Some(h) => h,
        None => return Err(CliError::new(String::from_str("missing --head"))),
    };
    Ok(Command::Analyze(Invocation { repo, base, head, format, paths }))
}

} // verus!
