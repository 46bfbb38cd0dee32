//! Running the C/C++ program under AddressSanitizer and UndefinedBehaviorSanitizer,
//! and reading the issues they report.
//!
//! Building and running the instrumented program is left to the caller, which hands back what
//! each process reported; the decisions on those reports are made here.
use vstd::prelude::*;
use vstd::string::*;

use crate::text::{contains, contains_spec, copy_str, lines, lines_spec, push_str, views};

verus! {

/// One issue reported by a sanitizer.
#[derive(Debug)]
pub struct SanitizerIssue {
    pub sanitizer: String,
    pub message: String,
}

/// The outcome of one or more sanitizer runs.
#[derive(Debug)]
pub struct SanitizerResult {
    pub passed: bool,
    pub issues: Vec<SanitizerIssue>,
}

/// What a finished process reported: whether it exited successfully, and its standard error.
pub struct ProcessOutput {
    pub success: bool,
    pub stderr: String,
}

/// The compiler flag that enables AddressSanitizer.
pub const ASAN_FLAG: &'static str = "-fsanitize=address";

/// The compiler flag that enables UndefinedBehaviorSanitizer.
pub const UBSAN_FLAG: &'static str = "-fsanitize=undefined";

/// The name under which AddressSanitizer reports.
pub const ASAN_NAME: &'static str = "AddressSanitizer";

/// The name under which UndefinedBehaviorSanitizer reports.
pub const UBSAN_NAME: &'static str = "UndefinedBehaviorSanitizer";

/// The plain value of an issue: sanitizer and message.
pub open spec fn issue_view(i: SanitizerIssue) -> (Seq<char>, Seq<char>) {
    (i.sanitizer@, i.message@)
}

/// The plain values of issues.
pub open spec fn issue_views(is: Seq<SanitizerIssue>) -> Seq<(Seq<char>, Seq<char>)> {
    is.map_values(|i: SanitizerIssue| issue_view(i))
}

/// Whether a line of sanitizer output reports an issue.
pub open spec fn is_issue_line(l: Seq<char>) -> bool {
    ||| contains_spec(l, "ERROR:"@)
    ||| contains_spec(l, "runtime error"@)
    ||| contains_spec(l, "heap-buffer-overflow"@)
    ||| contains_spec(l, "use-after-free"@)
    ||| contains_spec(l, "stack-buffer-overflow"@)
    ||| contains_spec(l, "null pointer"@)
}

/// The issues among `ls`, each reported under `name`, in order.
pub open spec fn issue_lines(name: Seq<char>, ls: Seq<Seq<char>>) -> Seq<(Seq<char>, Seq<char>)>
    decreases ls.len(),
{
    if ls.len() == 0 {
        Seq::empty()
    } else {
        issue_lines(name, ls.drop_last()) + if is_issue_line(ls.last()) {
            seq![(name, ls.last())]
        } else {
            Seq::empty()
        }
    }
}

/// The issues of one run of an instrumented program: none when the run succeeded and its
/// standard error mentions no `ERROR:` and no `runtime error`; otherwise each line of its
/// standard error that reports an issue.
pub open spec fn run_issues_spec(name: Seq<char>, run_ok: bool, stderr: Seq<char>) -> Seq<
    (Seq<char>, Seq<char>),
> {
    if !run_ok || contains_spec(stderr, "ERROR:"@) || contains_spec(stderr, "runtime error"@) {
        issue_lines(name, lines_spec(stderr))
    } else {
        Seq::empty()
    }
}

/// The message of a failed build: `Failed to compile with NAME: STDERR`.
pub open spec fn compile_failure(name: Seq<char>, stderr: Seq<char>) -> Seq<char> {
    "Failed to compile with "@ + name + ": "@ + stderr
}

/// Whether `r` is the result of a sanitizer run that found the issues `issues`.
pub open spec fn result_is(r: SanitizerResult, issues: Seq<(Seq<char>, Seq<char>)>) -> bool {
    &&& issue_views(r.issues@) == issues
    &&& r.passed == (issues.len() == 0)
}

/// The outcome of one sanitizer from the build and the run of the instrumented program: an
/// error when the build failed, else the issues of the run.
pub fn sanitizer_outcome(name: &str, compile: &ProcessOutput, run: &ProcessOutput) -> (r: Result<
    SanitizerResult,
    String,
>)
    ensures
        match r {
            Ok(res) => compile.success && result_is(
                res,
                run_issues_spec(name@, run.success, run.stderr@),
            ),
            Err(e) => !compile.success && e@ == compile_failure(name@, compile.stderr@),
        },
{
    if !compile.success {
        let mut e = String::new();
        push_str(&mut e, "Failed to compile with ");
        push_str(&mut e, name);
        push_str(&mut e, ": ");
        push_str(&mut e, compile.stderr.as_str());
        return Err(e);
    }
    let stderr = run.stderr.as_str();
    let mut issues: Vec<SanitizerIssue> = Vec::new();
    if !run.success || contains(stderr, "ERROR:") || contains(stderr, "runtime error") {
        let ls = lines(stderr);
        let ghost l = views(ls@);
        let mut i: usize = 0;
        while i < ls.len()
            invariant
                i <= l.len(),
                l == views(ls@),
                issue_views(issues@) == issue_lines(name@, l.take(i as int)),
            decreases l.len() - i,
        {
            assert(l.take(i + 1).drop_last() =~= l.take(i as int));
            let line = ls[i].as_str();
            if contains(line, "ERROR:") || contains(line, "runtime error") || contains(
                line,
                "heap-buffer-overflow",
            ) || contains(line, "use-after-free") || contains(line, "stack-buffer-overflow")
                || contains(line, "null pointer") {
                let ghost prev = issue_views(issues@);
                let issue = SanitizerIssue { sanitizer: copy_str(name), message: copy_str(line) };
                issues.push(issue);
                assert(issue_views(issues@) =~= prev + seq![(name@, l[i as int])]);
            } else {
                assert(issue_lines(name@, l.take(i + 1)) =~= issue_lines(name@, l.take(i as int)));
            }
            i = i + 1;
        }
        assert(l.take(l.len() as int) =~= l);
    } else {
        assert(issue_views(issues@) =~= Seq::<(Seq<char>, Seq<char>)>::empty());
    }
    let passed = issues.len() == 0;
    Ok(SanitizerResult { passed, issues })
}

/// Runs the sanitizers on the C/C++ program.
pub struct SanitizerChecker {
    cc: String,
}

/// The issues of a combined check: those of each run that succeeded, and for each that
/// failed, one issue from that sanitizer saying why.
pub open spec fn combined_issues(
    asan: Result<Seq<(Seq<char>, Seq<char>)>, Seq<char>>,
    ubsan: Result<Seq<(Seq<char>, Seq<char>)>, Seq<char>>,
) -> Seq<(Seq<char>, Seq<char>)> {
    let a = match asan {
        Ok(is) => is,
        Err(e) => seq![(ASAN_NAME@, "Failed to run: "@ + e)],
    };
    let u = match ubsan {
        Ok(is) => is,
        Err(e) => seq![(UBSAN_NAME@, "Failed to run: "@ + e)],
    };
    a + u
}

/// The plain value of the outcome of one sanitizer.
pub open spec fn outcome_view(r: Result<SanitizerResult, String>) -> Result<
    Seq<(Seq<char>, Seq<char>)>,
    Seq<char>,
> {
    match r {
        Ok(res) => Ok(issue_views(res.issues@)),
        Err(e) => Err(e@),
    }
}

fn add_outcome(all: &mut Vec<SanitizerIssue>, name: &str, outcome: Result<SanitizerResult, String>)
    ensures
        issue_views(final(all)@) == issue_views(old(all)@) + match outcome_view(outcome) {
            Ok(is) => is,
            Err(e) => seq![(name@, "Failed to run: "@ + e)],
        },
{
    match outcome {
        Ok(res) => {
            let mut issues = res.issues;
            let ghost before = issue_views(all@);
            let ghost added = issue_views(issues@);
            all.append(&mut issues);
            assert(issue_views(all@) =~= before + added);
        },
        Err(e) => {
            let mut message = String::new();
            push_str(&mut message, "Failed to run: ");
            push_str(&mut message, e.as_str());
            let ghost before = issue_views(all@);
            all.push(SanitizerIssue { sanitizer: copy_str(name), message });
            assert(issue_views(all@) =~= before + seq![(name@, "Failed to run: "@ + e@)]);
        },
    }
}

impl SanitizerChecker {
    /// The compiler command.
    pub closed spec fn compiler(&self) -> Seq<char> {
        self.cc@
    }

    /// A checker that compiles with `cc`, or with `gcc` when none is given.
    pub fn new(cc: Option<String>) -> (r: SanitizerChecker)
        ensures
            r.compiler() == match cc {
                Some(c) => c@,
                None => "gcc"@,
            },
    {
        match cc {
            Some(c) => SanitizerChecker { cc: c },
            None => SanitizerChecker { cc: copy_str("gcc") },
        }
    }

    /// The command line that builds `source` into `binary` with the sanitizer `flag`, with
    /// debug information and the math library: the compiler, then its arguments.
    pub fn compile_command(&self, source: &str, flag: &str, binary: &str) -> (r: Vec<String>)
        ensures
            views(r@) == seq![self.compiler(), source@, flag@, "-g"@, "-o"@, binary@, "-lm"@],
    {
        let mut v: Vec<String> = Vec::new();
        v.push(copy_str(self.cc.as_str()));
        v.push(copy_str(source));
        v.push(copy_str(flag));
        v.push(copy_str("-g"));
        v.push(copy_str("-o"));
        v.push(copy_str(binary));
        v.push(copy_str("-lm"));
        assert(views(v@) =~= seq![self.compiler(), source@, flag@, "-g"@, "-o"@, binary@, "-lm"@]);
        v
    }

    /// The outcome of AddressSanitizer, from the build and the run of the program built with
    /// `ASAN_FLAG`.
    pub fn check_with_asan(&self, compile: &ProcessOutput, run: &ProcessOutput) -> (r: Result<
        SanitizerResult,
        String,
    >)
        ensures
            match r {
                Ok(res) => compile.success && result_is(
                    res,
                    run_issues_spec(ASAN_NAME@, run.success, run.stderr@),
                ),
                Err(e) => !compile.success && e@ == compile_failure(ASAN_NAME@, compile.stderr@),
            },
    {
        sanitizer_outcome(ASAN_NAME, compile, run)
    }

    /// The outcome of UndefinedBehaviorSanitizer, from the build and the run of the program
    /// built with `UBSAN_FLAG`.
    pub fn check_with_ubsan(&self, compile: &ProcessOutput, run: &ProcessOutput) -> (r: Result<
        SanitizerResult,
        String,
    >)
        ensures
            match r {
                Ok(res) => compile.success && result_is(
                    res,
                    run_issues_spec(UBSAN_NAME@, run.success, run.stderr@),
                ),
                Err(e) => !compile.success && e@ == compile_failure(UBSAN_NAME@, compile.stderr@),
            },
    {
        sanitizer_outcome(UBSAN_NAME, compile, run)
    }

    /// Combines the outcomes of both sanitizers (see `combined_issues`); the check passes when
    /// no issue remains.
    pub fn check_all(
        &self,
        asan: Result<SanitizerResult, String>,
        ubsan: Result<SanitizerResult, String>,
    ) -> (r: SanitizerResult)
        ensures
            result_is(r, combined_issues(outcome_view(asan), outcome_view(ubsan))),
    {
        let mut all: Vec<SanitizerIssue> = Vec::new();
        let ghost a = outcome_view(asan);
        let ghost u = outcome_view(ubsan);
        add_outcome(&mut all, ASAN_NAME, asan);
        add_outcome(&mut all, UBSAN_NAME, ubsan);
        assert(issue_views(all@) =~= combined_issues(a, u));
        let passed = all.len() == 0;
        SanitizerResult { passed, issues: all }
    }
}

/// One report line per issue: `[sanitizer] message`.
pub open spec fn report_lines(is: Seq<(Seq<char>, Seq<char>)>) -> Seq<char>
    decreases is.len(),
{
    if is.len() == 0 {
        Seq::empty()
    } else {
        report_lines(is.drop_last()) + "["@ + is.last().0 + "] "@ + is.last().1 + "\n"@
    }
}

/// The report of a result: a fixed sentence when it passed, else its issues one per line.
pub open spec fn report_spec(r: SanitizerResult) -> Seq<char> {
    if r.passed {
        "All sanitizer checks passed."@
    } else {
        "Sanitizer issues found:\n\n"@ + report_lines(issue_views(r.issues@))
    }
}

/// Formats a sanitizer result for the user (see `report_spec`).
pub fn format_sanitizer_report(result: &SanitizerResult) -> (r: String)
    ensures
        r@ == report_spec(*result),
{
    if result.passed {
        return copy_str("All sanitizer checks passed.");
    }
    let mut report = copy_str("Sanitizer issues found:\n\n");
    let ghost start = report@;
    let ghost iv = issue_views(result.issues@);
    let mut i: usize = 0;
    while i < result.issues.len()
        invariant
            i <= iv.len(),
            iv == issue_views(result.issues@),
            report@ == start + report_lines(iv.take(i as int)),
        decreases iv.len() - i,
    {
        assert(iv.take(i + 1).drop_last() =~= iv.take(i as int));
        let issue = &result.issues[i];
        push_str(&mut report, "[");
        push_str(&mut report, issue.sanitizer.as_str());
        push_str(&mut report, "] ");
        push_str(&mut report, issue.message.as_str());
        push_str(&mut report, "\n");
        i = i + 1;
    }
    assert(iv.take(iv.len() as int) =~= iv);
    report
}

} // verus!
