//! The loop that asks a language model to fix converted Rust code until it compiles.
//!
//! The loop is a state machine: the caller performs each action (checking a version of the
//! code, or sending a request to the model) and hands back the event it produced.
use vstd::prelude::*;
use vstd::string::*;

use crate::compiler::{error_text, CompileChecker, CompileError, CompileResult};
use crate::patterns::regex_captures;
use crate::prompt::{extract_rust_code, rust_code_spec, RUST_BLOCK};
use crate::text::{copy_str, join_spec, push_str, views};

verus! {

/// The outcome of the fix loop.
pub struct FixResult {
    pub code: String,
    pub iterations: usize,
    pub success: bool,
    pub final_errors: Vec<String>,
}

/// The system prompt of a request to fix compile errors.
pub const COMPILE_FIX_SYSTEM: &'static str = "You are an expert Rust developer. Fix compilation errors in the code. Return ONLY the corrected code in a ```rust code block.";

/// The system prompt of a request to fix an output mismatch.
pub const OUTPUT_FIX_SYSTEM: &'static str = "You are an expert Rust developer fixing code conversion issues. Fix the code to produce the exact same output as the original C/C++ program.";

/// The error when a reply holds no Rust code block.
pub const NO_CODE_BLOCK: &'static str = "No Rust code block in fix response";

/// The request to fix compile errors in `code`.
pub open spec fn compile_fix_prompt(code: Seq<char>, errors: Seq<char>) -> Seq<char> {
    "The following Rust code has compilation errors. Fix them.\n\n## Current Code\n```rust\n"@ + code
        + "\n```\n\n## Compilation Errors\n"@ + errors
        + "\n\nFix ALL the errors and return the complete corrected Rust code in a ```rust block.\nDo not explain, just return the fixed code."@
}

/// The request to make `code` produce the C/C++ program's output, given their difference.
pub open spec fn output_fix_prompt(code: Seq<char>, diff: Seq<char>) -> Seq<char> {
    "The following Rust code produces different output than the original C/C++ code.\n\n## Current Rust Code\n```rust\n"@
        + code + "\n```\n\n## Output Difference\n"@ + diff
        + "\n\nFix the Rust code so it produces the same output as the original C/C++ code.\nReturn ONLY the fixed Rust code in a ```rust block."@
}

/// Builds the request to fix compile errors (see `compile_fix_prompt`).
pub fn build_compile_fix_prompt(code: &str, errors: &str) -> (r: String)
    ensures
        r@ == compile_fix_prompt(code@, errors@),
{
    let mut p = copy_str(
        "The following Rust code has compilation errors. Fix them.\n\n## Current Code\n```rust\n",
    );
    push_str(&mut p, code);
    push_str(&mut p, "\n```\n\n## Compilation Errors\n");
    push_str(&mut p, errors);
    push_str(
        &mut p,
        "\n\nFix ALL the errors and return the complete corrected Rust code in a ```rust block.\nDo not explain, just return the fixed code.",
    );
    p
}

/// Builds the request to fix an output mismatch (see `output_fix_prompt`).
pub fn build_output_fix_prompt(code: &str, diff: &str) -> (r: String)
    ensures
        r@ == output_fix_prompt(code@, diff@),
{
    let mut p = copy_str(
        "The following Rust code produces different output than the original C/C++ code.\n\n## Current Rust Code\n```rust\n",
    );
    push_str(&mut p, code);
    push_str(&mut p, "\n```\n\n## Output Difference\n");
    push_str(&mut p, diff);
    push_str(
        &mut p,
        "\n\nFix the Rust code so it produces the same output as the original C/C++ code.\nReturn ONLY the fixed Rust code in a ```rust block.",
    );
    p
}

/// The code of a fix reply: its first Rust block, or the error that it has none.
pub open spec fn fix_reply_spec(response: Seq<char>) -> Result<Seq<char>, Seq<char>> {
    match rust_code_spec(regex_captures(RUST_BLOCK@, response)) {
        Some(c) => Ok(c),
        None => Err(NO_CODE_BLOCK@),
    }
}

/// Reads the fixed code out of a model's reply (see `fix_reply_spec`).
pub fn code_from_fix_reply(response: &str) -> (r: Result<String, String>)
    ensures
        match r {
            Ok(c) => fix_reply_spec(response@) == Ok::<Seq<char>, Seq<char>>(c@),
            Err(e) => fix_reply_spec(response@) == Err::<Seq<char>, Seq<char>>(e@),
        },
{
    match extract_rust_code(response) {
        Some(c) => Ok(c),
        None => Err(copy_str(NO_CODE_BLOCK)),
    }
}

/// Where the loop stands: waiting for a compile check of the current code, or for the model's
/// reply to a fix request.
#[derive(Clone, Copy, Debug, PartialEq, Eq, Structural)]
pub enum FixPhase {
    Checking,
    Fixing,
}

/// The state of the loop: the number of fixes received so far, the current code, and what it
/// waits for.
pub struct FixState {
    pub iteration: usize,
    pub code: String,
    pub phase: FixPhase,
}

/// What the caller must do next.
pub enum FixAction {
    /// Write this code and run the compile check on it.
    Check(String),
    /// Send this request to the model.
    RequestFix { system: String, prompt: String },
    /// The loop is over.
    Finish(FixResult),
    /// The loop failed.
    Fail(String),
}

/// What the caller's action produced.
pub enum FixEvent {
    /// The outcome of the compile check.
    Checked(CompileResult),
    /// The model's reply.
    Replied(String),
}

/// The fix loop, allowed `max_iterations` requests to the model.
pub struct FixLoop {
    pub max_iterations: usize,
}

/// The plain value of a fix result: code, iterations, success and final errors.
pub open spec fn fix_result_view(r: FixResult) -> (Seq<char>, nat, bool, Seq<Seq<char>>) {
    (r.code@, r.iterations as nat, r.success, views(r.final_errors@))
}

impl FixLoop {
    /// A loop allowed `max_iterations` requests to the model.
    pub fn new(max_iterations: usize) -> (r: FixLoop)
        ensures
            r.max_iterations == max_iterations,
    {
        FixLoop { max_iterations }
    }

    /// Whether `s` is a state this loop can be in: no more fixes than allowed, and a pending
    /// request only while another one is allowed.
    pub open spec fn valid_state(&self, s: FixState) -> bool {
        &&& s.iteration <= self.max_iterations
        &&& s.phase == FixPhase::Fixing ==> s.iteration < self.max_iterations
    }

    /// How much work the loop can still ask for from state `s`: two steps for each fix still
    /// allowed, and one more while a check is pending.
    pub open spec fn remaining_steps(&self, s: FixState) -> nat {
        (2 * (self.max_iterations - s.iteration) + if s.phase == FixPhase::Checking {
            1int
        } else {
            0int
        }) as nat
    }

    /// Starts the loop on `code`: the first action checks it.
    pub fn start(&self, code: String) -> (r: (FixState, FixAction))
        ensures
            self.valid_state(r.0),
            r.0.iteration == 0,
            r.0.code@ == code@,
            r.0.phase == FixPhase::Checking,
            r.1 matches FixAction::Check(c) && c@ == code@,
            self.remaining_steps(r.0) == 2 * self.max_iterations + 1,
    {
        let c = copy_str(code.as_str());
        (FixState { iteration: 0, code, phase: FixPhase::Checking }, FixAction::Check(c))
    }

    /// One step of the loop. After a check: success finishes, counting the checks made
    /// (`iteration + 1`, at most `max_iterations`); errors lead to a fix request while one is
    /// allowed, and otherwise finish unsuccessfully with the errors as they are shown. After a
    /// reply: its code is checked next, or the loop fails when it holds none.
    pub fn step(&self, state: FixState, event: FixEvent) -> (r: (FixState, FixAction))
        requires
            self.valid_state(state),
            state.phase == FixPhase::Checking <==> event is Checked,
        ensures
            self.valid_state(r.0),
            (r.1 is Check || r.1 is RequestFix) ==> self.remaining_steps(r.0) < self.remaining_steps(
                state,
            ),
            match event {
                FixEvent::Checked(CompileResult::Success) => r.1 matches FixAction::Finish(res)
                    && fix_result_view(res) == (
                    state.code@,
                    (if state.iteration < self.max_iterations {
                        state.iteration + 1
                    } else {
                        state.iteration as int
                    }) as nat,
                    true,
                    Seq::<Seq<char>>::empty(),
                ),
                FixEvent::Checked(CompileResult::Errors(es)) => if state.iteration
                    < self.max_iterations {
                    &&& r.0.iteration == state.iteration
                    &&& r.0.code@ == state.code@
                    &&& r.0.phase == FixPhase::Fixing
                    &&& r.1 matches FixAction::RequestFix { system, prompt }
                    &&& system@ == COMPILE_FIX_SYSTEM@
                    &&& prompt@ == compile_fix_prompt(
                        state.code@,
                        join_spec(es@.map_values(|e: CompileError| error_text(e)), "\n\n"@),
                    )
                } else {
                    r.1 matches FixAction::Finish(res) && fix_result_view(res) == (
                        state.code@,
                        self.max_iterations as nat,
                        false,
                        es@.map_values(|e: CompileError| error_text(e)),
                    )
                },
                FixEvent::Replied(resp) => match fix_reply_spec(resp@) {
                    Ok(c) => {
                        &&& r.0.iteration == state.iteration + 1
                        &&& r.0.code@ == c
                        &&& r.0.phase == FixPhase::Checking
                        &&& r.1 matches FixAction::Check(cc)
                        &&& cc@ == c
                    },
                    Err(e) => r.1 matches FixAction::Fail(m) && m@ == e,
                },
            },
    {
        match event {
            FixEvent::Checked(CompileResult::Success) => {
                let iterations = if state.iteration < self.max_iterations {
                    state.iteration + 1
                } else {
                    state.iteration
                };
                let res = FixResult {
                    code: copy_str(state.code.as_str()),
                    iterations,
                    success: true,
                    final_errors: Vec::new(),
                };
                assert(views(res.final_errors@) =~= Seq::<Seq<char>>::empty());
                (state, FixAction::Finish(res))
            },
            FixEvent::Checked(CompileResult::Errors(es)) => {
                if state.iteration < self.max_iterations {
                    let errors = CompileChecker::format_errors(es.as_slice());
                    let prompt = build_compile_fix_prompt(state.code.as_str(), errors.as_str());
                    let next = FixState {
                        iteration: state.iteration,
                        code: state.code,
                        phase: FixPhase::Fixing,
                    };
                    (next, FixAction::RequestFix { system: copy_str(COMPILE_FIX_SYSTEM), prompt })
                } else {
                    let mut texts: Vec<String> = Vec::new();
                    let mut i: usize = 0;
                    while i < es.len()
                        invariant
                            i <= es@.len(),
                            views(texts@) == es@.take(i as int).map_values(
                                |e: CompileError| error_text(e),
                            ),
                        decreases es@.len() - i,
                    {
                        let t = es[i].to_string();
                        let ghost prev = views(texts@);
                        let ghost tv = t@;
                        texts.push(t);
                        assert(views(texts@) =~= prev.push(tv));
                        assert(es@.take(i + 1) =~= es@.take(i as int).push(es@[i as int]));
                        i = i + 1;
                    }
                    assert(es@.take(es@.len() as int) =~= es@);
                    let res = FixResult {
                        code: copy_str(state.code.as_str()),
                        iterations: self.max_iterations,
                        success: false,
                        final_errors: texts,
                    };
                    (state, FixAction::Finish(res))
                }
            },
            FixEvent::Replied(resp) => {
                match code_from_fix_reply(resp.as_str()) {
                    Ok(c) => {
                        let cc = copy_str(c.as_str());
                        let next = FixState {
                            iteration: state.iteration + 1,
                            code: c,
                            phase: FixPhase::Checking,
                        };
                        (next, FixAction::Check(cc))
                    },
                    Err(e) => (state, FixAction::Fail(e)),
                }
            },
        }
    }
}

} // verus!
