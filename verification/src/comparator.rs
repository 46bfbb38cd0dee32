//! Comparison of the output of a C/C++ program with that of its Rust conversion.
use vstd::prelude::*;
use vstd::string::*;

use crate::text::{
    copy_str, decimal, holds_text, lines, lines_spec, opt_view, push_decimal, push_str, str_eq, views,
};

verus! {

/// The outcome of comparing two outputs.
#[derive(Debug)]
pub struct ComparisonResult {
    pub matches: bool,
    pub c_output: String,
    pub rust_output: String,
    pub diff: Option<String>,
}

/// Compares program outputs; `cc` is the command that compiles the C/C++ program.
pub struct OutputComparator {
    cc: String,
}

impl OutputComparator {
    /// The compiler command.
    pub closed spec fn compiler(&self) -> Seq<char> {
        self.cc@
    }

    /// A comparator that compiles with `cc`, or with `gcc` when none is given.
    pub fn new(cc: Option<String>) -> (r: OutputComparator)
        ensures
            r.compiler() == match cc {
                Some(c) => c@,
                None => "gcc"@,
            },
    {
        match cc {
            Some(c) => OutputComparator { cc: c },
            None => OutputComparator { cc: copy_str("gcc") },
        }
    }

    /// The command line that compiles `c_source` into `output`, linking the math library:
    /// the compiler, then its arguments.
    pub fn compile_command(&self, c_source: &str, output: &str) -> (r: Vec<String>)
        ensures
            views(r@) == seq![self.compiler(), c_source@, "-o"@, output@, "-lm"@],
    {
        let mut v: Vec<String> = Vec::new();
        v.push(copy_str(self.cc.as_str()));
        v.push(copy_str(c_source));
        v.push(copy_str("-o"));
        v.push(copy_str(output));
        v.push(copy_str("-lm"));
        assert(views(v@) =~= seq![self.compiler(), c_source@, "-o"@, output@, "-lm"@]);
        v
    }

    /// Compares two captured outputs: they match when they are equal, and a line diff is
    /// given when they do not.
    pub fn compare_outputs(c_output: &str, rust_output: &str) -> (r: ComparisonResult)
        ensures
            r.matches == (c_output@ == rust_output@),
            r.c_output@ == c_output@,
            r.rust_output@ == rust_output@,
            opt_view(r.diff) == if c_output@ == rust_output@ {
                None
            } else {
                Some(diff_spec(c_output@, rust_output@))
            },
    {
        let matches = str_eq(c_output, rust_output);
        let diff = if matches {
            None
        } else {
            Some(generate_diff(c_output, rust_output))
        };
        ComparisonResult {
            matches,
            c_output: copy_str(c_output),
            rust_output: copy_str(rust_output),
            diff,
        }
    }
}

/// Line `i` of `ls`, or `<missing>` past its end.
pub open spec fn line_or_missing(ls: Seq<Seq<char>>, i: int) -> Seq<char> {
    if 0 <= i < ls.len() {
        ls[i]
    } else {
        "<missing>"@
    }
}

/// The report for line `i` (0-based): its number and both versions, when they differ.
pub open spec fn diff_entry(e: Seq<Seq<char>>, a: Seq<Seq<char>>, i: int) -> Seq<char> {
    if line_or_missing(e, i) != line_or_missing(a, i) {
        "Line "@ + decimal((i + 1) as nat) + ": \n  C/C++: "@ + line_or_missing(e, i) + "\n  Rust:  "@
            + line_or_missing(a, i) + "\n"@
    } else {
        Seq::empty()
    }
}

/// The reports for the first `k` lines.
pub open spec fn diff_upto(e: Seq<Seq<char>>, a: Seq<Seq<char>>, k: int) -> Seq<char>
    decreases k,
{
    if k <= 0 {
        Seq::empty()
    } else {
        diff_upto(e, a, k - 1) + diff_entry(e, a, k - 1)
    }
}

/// The line diff of two outputs: a report for each line (up to the longer output's line count)
/// on which they differ, then the two line counts when those differ.
pub open spec fn diff_spec(expected: Seq<char>, actual: Seq<char>) -> Seq<char> {
    let e = lines_spec(expected);
    let a = lines_spec(actual);
    let n = if e.len() >= a.len() {
        e.len()
    } else {
        a.len()
    };
    diff_upto(e, a, n as int) + if e.len() != a.len() {
        "\nLine count: C/C++="@ + decimal(e.len()) + ", Rust="@ + decimal(a.len()) + "\n"@
    } else {
        Seq::empty()
    }
}

fn line_or_missing_exec(ls: &Vec<String>, i: usize) -> (r: &str)
    ensures
        r@ == line_or_missing(views(ls@), i as int),
{
    if i < ls.len() {
        ls[i].as_str()
    } else {
        "<missing>"
    }
}

/// The line diff of an expected and an actual output (see `diff_spec`).
pub fn generate_diff(expected: &str, actual: &str) -> (r: String)
    ensures
        r@ == diff_spec(expected@, actual@),
{
    let el = lines(expected);
    let al = lines(actual);
    let ghost e = views(el@);
    let ghost a = views(al@);
    let n = if el.len() >= al.len() {
        el.len()
    } else {
        al.len()
    };
    let mut diff = String::new();
    let mut i: usize = 0;
    while i < n
        invariant
            i <= n,
            e == views(el@),
            a == views(al@),
            n == if e.len() >= a.len() {
                e.len()
            } else {
                a.len()
            },
            diff@ == diff_upto(e, a, i as int),
        decreases n - i,
    {
        let exp = line_or_missing_exec(&el, i);
        let act = line_or_missing_exec(&al, i);
        if !str_eq(exp, act) {
            push_str(&mut diff, "Line ");
            push_decimal(&mut diff, i + 1);
            push_str(&mut diff, ": \n  C/C++: ");
            push_str(&mut diff, exp);
            push_str(&mut diff, "\n  Rust:  ");
            push_str(&mut diff, act);
            push_str(&mut diff, "\n");
        }
        i = i + 1;
    }
    if el.len() != al.len() {
        push_str(&mut diff, "\nLine count: C/C++=");
        push_decimal(&mut diff, el.len());
        push_str(&mut diff, ", Rust=");
        push_decimal(&mut diff, al.len());
        push_str(&mut diff, "\n");
    }
    diff
}

proof fn lemma_diff_upto_split(e: Seq<Seq<char>>, a: Seq<Seq<char>>, i: int, n: int)
    requires
        0 <= i < n,
    ensures
        exists|t: Seq<char>| diff_upto(e, a, n) == diff_upto(e, a, i) + diff_entry(e, a, i) + t,
    decreases n,
{
    if n == i + 1 {
        assert(diff_upto(e, a, n) =~= diff_upto(e, a, i) + diff_entry(e, a, i) + Seq::<char>::empty());
    } else {
        lemma_diff_upto_split(e, a, i, n - 1);
        let t = choose|t: Seq<char>| diff_upto(e, a, n - 1) == diff_upto(e, a, i) + diff_entry(e, a, i) + t;
        assert(diff_upto(e, a, n) =~= diff_upto(e, a, i) + diff_entry(e, a, i) + (t + diff_entry(
            e,
            a,
            n - 1,
        )));
    }
}

/// Every line on which the two outputs differ is reported, up to the longer output's line
/// count, a line past the end of an output reading as `<missing>`: the diff holds the entry
/// `Line <i + 1>: ` with the C/C++ line and the Rust line.
#[verifier::spinoff_prover]
pub proof fn law_diff_reports_every_differing_line(expected: Seq<char>, actual: Seq<char>, i: int)
    requires
        0 <= i,
        i < lines_spec(expected).len() || i < lines_spec(actual).len(),
        (if i < lines_spec(expected).len() {
            lines_spec(expected)[i]
        } else {
            "<missing>"@
        }) != (if i < lines_spec(actual).len() {
            lines_spec(actual)[i]
        } else {
            "<missing>"@
        }),
    ensures
        ({
            let x = if i < lines_spec(expected).len() {
                lines_spec(expected)[i]
            } else {
                "<missing>"@
            };
            let y = if i < lines_spec(actual).len() {
                lines_spec(actual)[i]
            } else {
                "<missing>"@
            };
            let entry = "Line "@ + decimal((i + 1) as nat) + ": \n  C/C++: "@ + x + "\n  Rust:  "@ + y
                + "\n"@;
            holds_text(diff_spec(expected, actual), entry)
        }),
{
    let e = lines_spec(expected);
    let a = lines_spec(actual);
    let n = if e.len() >= a.len() {
        e.len()
    } else {
        a.len()
    };
    lemma_diff_upto_split(e, a, i, n as int);
    let t = choose|t: Seq<char>| diff_upto(e, a, n as int) == diff_upto(e, a, i) + diff_entry(e, a, i) + t;
    let entry = diff_entry(e, a, i);
    let foot = if e.len() != a.len() {
        "\nLine count: C/C++="@ + decimal(e.len()) + ", Rust="@ + decimal(a.len()) + "\n"@
    } else {
        Seq::empty()
    };
    let d = diff_spec(expected, actual);
    let k = diff_upto(e, a, i).len() as int;
    assert(d == diff_upto(e, a, i) + entry + t + foot);
    assert(d.subrange(k, k + entry.len()) =~= entry);
    let x = if i < e.len() {
        e[i]
    } else {
        "<missing>"@
    };
    let y = if i < a.len() {
        a[i]
    } else {
        "<missing>"@
    };
    assert(line_or_missing(e, i) == x);
    assert(line_or_missing(a, i) == y);
    let text = "Line "@ + decimal((i + 1) as nat) + ": \n  C/C++: "@ + x + "\n  Rust:  "@ + y + "\n"@;
    assert(entry == text);
    assert(d.len() == k + entry.len() + t.len() + foot.len());
    assert(0 <= k && k + text.len() <= d.len() && d.subrange(k, k + text.len()) == text);
    assert(holds_text(d, text));
}

/// When the two outputs have different line counts, the diff ends with both counts.
pub proof fn law_diff_ends_with_line_counts(expected: Seq<char>, actual: Seq<char>)
    requires
        lines_spec(expected).len() != lines_spec(actual).len(),
    ensures
        ({
            let footer = "\nLine count: C/C++="@ + decimal(lines_spec(expected).len()) + ", Rust="@
                + decimal(lines_spec(actual).len()) + "\n"@;
            let d = diff_spec(expected, actual);
            footer.len() <= d.len() && d.subrange(d.len() - footer.len(), d.len() as int) == footer
        }),
{
    let e = lines_spec(expected);
    let a = lines_spec(actual);
    let n = if e.len() >= a.len() {
        e.len()
    } else {
        a.len()
    };
    let foot = "\nLine count: C/C++="@ + decimal(e.len()) + ", Rust="@ + decimal(a.len()) + "\n"@;
    let d = diff_spec(expected, actual);
    assert(d == diff_upto(e, a, n as int) + foot);
    assert(d.subrange(d.len() - foot.len(), d.len() as int) =~= foot);
}

} // verus!
