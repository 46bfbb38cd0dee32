//! Reading `cargo check` diagnostics into compile errors.
use vstd::prelude::*;
use vstd::string::*;
use vstd::utf8::*;

use crate::patterns::{
    captures_all, end_of, group_text, groups_in_bounds, groups_on_boundaries, match_end,
    match_view, matches_view, regex_captures, text_of, Match,
};
use crate::text::{
    copy_str, decimal, join_spec, opt_view, parse_usize, parse_usize_spec, push_decimal,
    push_str, split_at_byte, views,
};

verus! {

/// One compiler diagnostic.
#[derive(Debug, Clone)]
pub struct CompileError {
    pub file: String,
    pub line: usize,
    pub column: usize,
    pub message: String,
    pub suggestion: Option<String>,
}

/// How an error is shown: `file:line:column: message`, then the suggestion on a line of its
/// own when there is one.
pub open spec fn error_text(e: CompileError) -> Seq<char> {
    e.file@ + ":"@ + decimal(e.line as nat) + ":"@ + decimal(e.column as nat) + ": "@ + e.message@
        + match e.suggestion {
        Some(s) => "\n  suggestion: "@ + s@,
        None => Seq::empty(),
    }
}

impl CompileError {
    /// The error as it is shown (see `error_text`).
    pub fn to_string(&self) -> (r: String)
        ensures
            r@ == error_text(*self),
    {
        let mut s = String::new();
        push_str(&mut s, self.file.as_str());
        push_str(&mut s, ":");
        push_decimal(&mut s, self.line);
        push_str(&mut s, ":");
        push_decimal(&mut s, self.column);
        push_str(&mut s, ": ");
        push_str(&mut s, self.message.as_str());
        match &self.suggestion {
            Some(sug) => {
                push_str(&mut s, "\n  suggestion: ");
                push_str(&mut s, sug.as_str());
            },
            None => {},
        }
        s
    }
}

/// The outcome of a compile check.
pub enum CompileResult {
    Success,
    Errors(Vec<CompileError>),
}

/// Checks that the Rust project in a directory compiles.
pub struct CompileChecker {
    project_dir: String,
}

impl CompileChecker {
    /// The project directory.
    pub closed spec fn dir(&self) -> Seq<char> {
        self.project_dir@
    }

    /// A checker for the project in `project_dir`.
    pub fn new(project_dir: &str) -> (r: CompileChecker)
        ensures
            r.dir() == project_dir@,
    {
        CompileChecker { project_dir: copy_str(project_dir) }
    }

    /// The project directory.
    pub fn project_dir(&self) -> (r: &str)
        ensures
            r@ == self.dir(),
    {
        self.project_dir.as_str()
    }

    /// The errors as they are shown, separated by blank lines.
    pub fn format_errors(errors: &[CompileError]) -> (r: String)
        ensures
            r@ == join_spec(errors@.map_values(|e: CompileError| error_text(e)), "\n\n"@),
    {
        let mut texts: Vec<String> = Vec::new();
        let mut i: usize = 0;
        while i < errors.len()
            invariant
                i <= errors@.len(),
                views(texts@) == errors@.take(i as int).map_values(|e: CompileError| error_text(e)),
            decreases errors@.len() - i,
        {
            let t = errors[i].to_string();
            let ghost prev = views(texts@);
            let ghost tv = t@;
            texts.push(t);
            assert(views(texts@) =~= prev.push(tv));
            assert(errors@.take(i + 1) =~= errors@.take(i as int).push(errors@[i as int]));
            i = i + 1;
        }
        assert(errors@.take(errors@.len() as int) =~= errors@);
        crate::text::join(&texts, "\n\n")
    }
}

/// The pattern of an error line followed by its location line: group 1 is the message, groups
/// 2 to 4 the file, line and column.
pub const ERROR_PATTERN: &'static str = r"(?m)^error(?:\[E\d+\])?: (.+)\n\s*--> (.+):(\d+):(\d+)";

/// The pattern of a help line; group 1 is the help text.
pub const HELP_PATTERN: &'static str = r"(?m)help: (.+)";

/// The value of a decimal number, or 0 when it does not parse as a `usize`.
pub open spec fn number_or_zero(t: Seq<char>) -> nat {
    match parse_usize_spec(t) {
        Some(v) => v,
        None => 0,
    }
}

/// The plain value of an error: file, line, column, message and suggestion.
pub open spec fn error_view(e: CompileError) -> (Seq<char>, nat, nat, Seq<char>, Option<Seq<char>>) {
    (e.file@, e.line as nat, e.column as nat, e.message@, opt_view(e.suggestion))
}

/// The error read from one match of `ERROR_PATTERN`, given the help text found after it.
pub open spec fn error_from_match_spec(
    m: Seq<Option<(int, int, Seq<char>)>>,
    suggestion: Option<Seq<char>>,
) -> (Seq<char>, nat, nat, Seq<char>, Option<Seq<char>>) {
    (
        group_text(m, 2),
        number_or_zero(group_text(m, 3)),
        number_or_zero(group_text(m, 4)),
        group_text(m, 1),
        suggestion,
    )
}

/// The text of the first match of `HELP_PATTERN` in `rest`, if any.
pub open spec fn first_help(rest: Seq<char>) -> Option<Seq<char>> {
    let hs = regex_captures(HELP_PATTERN@, rest);
    if hs.len() == 0 {
        None
    } else {
        Some(group_text(hs[0], 1))
    }
}

/// The text of `s` from byte offset `at` on.
pub open spec fn text_after(s: Seq<char>, at: int) -> Seq<char> {
    decode_utf8(encode_utf8(s).subrange(at, encode_utf8(s).len() as int))
}

/// The errors in `stderr`: one for each match of `ERROR_PATTERN`, with the first help text
/// that follows the match as its suggestion.
pub open spec fn parse_errors_spec(stderr: Seq<char>) -> Seq<
    (Seq<char>, nat, nat, Seq<char>, Option<Seq<char>>),
> {
    regex_captures(ERROR_PATTERN@, stderr).map_values(
        |m: Seq<Option<(int, int, Seq<char>)>>|
            error_from_match_spec(m, first_help(text_after(stderr, match_end(m)))),
    )
}

fn number_or_zero_exec(t: &str) -> (r: usize)
    ensures
        r == number_or_zero(t@),
{
    match parse_usize(t) {
        Some(v) => v,
        None => 0,
    }
}

/// The error read from one match of `ERROR_PATTERN`, with `suggestion` as its suggestion.
pub fn error_from_match(m: &Match, suggestion: Option<String>) -> (r: CompileError)
    ensures
        error_view(r) == error_from_match_spec(match_view(*m), opt_view(suggestion)),
{
    let message = text_of(m, 1);
    let file = text_of(m, 2);
    let line_text = text_of(m, 3);
    let column_text = text_of(m, 4);
    let line = number_or_zero_exec(line_text.as_str());
    let column = number_or_zero_exec(column_text.as_str());
    CompileError { file, line, column, message, suggestion }
}

/// The help text in `rest`, from the matches of `HELP_PATTERN` in it.
pub fn help_from_matches(hs: &Vec<Match>) -> (r: Option<String>)
    ensures
        opt_view(r) == if matches_view(hs@).len() == 0 {
            None
        } else {
            Some(group_text(matches_view(hs@)[0], 1))
        },
{
    if hs.len() == 0 {
        None
    } else {
        Some(text_of(&hs[0], 1))
    }
}

fn find_help(rest: &str) -> (r: Option<String>)
    ensures
        opt_view(r) == first_help(rest@),
{
    let hs = captures_all(HELP_PATTERN, rest);
    help_from_matches(&hs)
}

/// Reads the compile errors out of the standard error of `cargo check` (see
/// `parse_errors_spec`).
pub fn parse_compiler_errors(stderr: &str) -> (r: Vec<CompileError>)
    ensures
        r@.map_values(|e: CompileError| error_view(e)) == parse_errors_spec(stderr@),
{
    let ms = captures_all(ERROR_PATTERN, stderr);
    let ghost mv = matches_view(ms@);
    let mut errors: Vec<CompileError> = Vec::new();
    let mut i: usize = 0;
    while i < ms.len()
        invariant
            i <= ms@.len(),
            mv == matches_view(ms@),
            mv == regex_captures(ERROR_PATTERN@, stderr@),
            forall|j: int| 0 <= j < ms@.len() ==> groups_on_boundaries(#[trigger] ms@[j], stderr.spec_bytes()),
            errors@.map_values(|e: CompileError| error_view(e)) == mv.take(i as int).map_values(
                |m: Seq<Option<(int, int, Seq<char>)>>|
                    error_from_match_spec(m, first_help(text_after(stderr@, match_end(m)))),
            ),
        decreases ms@.len() - i,
    {
        let m = &ms[i];
        let end = end_of(m);
        assert(is_char_boundary(stderr.spec_bytes(), end as int)) by {
            assert(groups_on_boundaries(ms@[i as int], stderr.spec_bytes()));
            if m.groups@.len() > 0 && m.groups@[0] is Some {
                assert(match_view(ms@[i as int])[0] == crate::patterns::group_view(m.groups@[0]));
            } else {
                encode_utf8_valid_utf8(stderr@);
                is_char_boundary_start_end_of_seq(stderr.spec_bytes());
            }
        }
        let (_, rest) = split_at_byte(stderr, end);
        let suggestion = find_help(rest);
        let e = error_from_match(m, suggestion);
        let ghost prev = errors@.map_values(|e: CompileError| error_view(e));
        let ghost ev = error_view(e);
        errors.push(e);
        assert(errors@.map_values(|e: CompileError| error_view(e)) =~= prev.push(ev));
        assert(mv.take(i + 1) =~= mv.take(i as int).push(mv[i as int]));
        i = i + 1;
    }
    assert(mv.take(ms@.len() as int) =~= mv);
    errors
}

/// The outcome of a check from what `cargo check` reported: success when it succeeded;
/// otherwise the errors read from its standard error, or, when none can be read, one error
/// with no location whose message is the whole standard error.
pub open spec fn compile_outcome_spec(success: bool, stderr: Seq<char>) -> Option<
    Seq<(Seq<char>, nat, nat, Seq<char>, Option<Seq<char>>)>,
> {
    if success {
        None
    } else if parse_errors_spec(stderr).len() == 0 {
        Some(seq![(Seq::<char>::empty(), 0nat, 0nat, stderr, None::<Seq<char>>)])
    } else {
        Some(parse_errors_spec(stderr))
    }
}

/// The plain value of a compile result: nothing for success, else its errors.
pub open spec fn compile_result_view(r: CompileResult) -> Option<
    Seq<(Seq<char>, nat, nat, Seq<char>, Option<Seq<char>>)>,
> {
    match r {
        CompileResult::Success => None,
        CompileResult::Errors(es) => Some(es@.map_values(|e: CompileError| error_view(e))),
    }
}

/// Decides the outcome of a check from `cargo check`'s success and standard error (see
/// `compile_outcome_spec`).
pub fn compile_outcome(success: bool, stderr: &str) -> (r: CompileResult)
    ensures
        compile_result_view(r) == compile_outcome_spec(success, stderr@),
{
    if success {
        return CompileResult::Success;
    }
    let errors = parse_compiler_errors(stderr);
    if errors.len() == 0 {
        let mut v: Vec<CompileError> = Vec::new();
        v.push(
            CompileError {
                file: String::new(),
                line: 0,
                column: 0,
                message: copy_str(stderr),
                suggestion: None,
            },
        );
        let ghost ev = v@.map_values(|e: CompileError| error_view(e));
        assert(ev =~= seq![(Seq::<char>::empty(), 0nat, 0nat, stderr@, None::<Seq<char>>)]);
        CompileResult::Errors(v)
    } else {
        CompileResult::Errors(errors)
    }
}

} // verus!
