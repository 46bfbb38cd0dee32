use cpp_to_rust::compiler::{CompileError, CompileResult};
use cpp_to_rust::fix_loop::{
    build_output_fix_prompt, code_from_fix_reply, FixAction, FixEvent, FixLoop, FixPhase,
    FixResult, COMPILE_FIX_SYSTEM,
};

#[test]
fn test_fix_result_success() {
    let result = FixResult {
        code: "fn main() {}".to_string(),
        iterations: 1,
        success: true,
        final_errors: Vec::new(),
    };
    assert!(result.success);
    assert_eq!(result.iterations, 1);
}

fn an_error() -> CompileError {
    CompileError {
        file: "m.rs".to_string(),
        line: 1,
        column: 2,
        message: "oops".to_string(),
        suggestion: None,
    }
}

#[test]
fn loop_asks_for_a_fix_then_checks_the_reply() {
    let fl = FixLoop::new(2);
    let (state, action) = fl.start("fn main() { x }".to_string());
    assert!(matches!(action, FixAction::Check(ref c) if c == "fn main() { x }"));
    let (state, action) = fl.step(state, FixEvent::Checked(CompileResult::Errors(vec![an_error()])));
    assert_eq!(state.phase, FixPhase::Fixing);
    match action {
        FixAction::RequestFix { system, prompt } => {
            assert_eq!(system, COMPILE_FIX_SYSTEM);
            assert!(prompt.contains("## Compilation Errors\nm.rs:1:2: oops\n"));
        }
        _ => panic!("expected a fix request"),
    }
    let (state, action) = fl.step(state, FixEvent::Replied("```rust\nfn main() {}\n```".to_string()));
    assert_eq!(state.iteration, 1);
    assert!(matches!(action, FixAction::Check(ref c) if c == "fn main() {}"));
    let (_, action) = fl.step(state, FixEvent::Checked(CompileResult::Success));
    match action {
        FixAction::Finish(r) => {
            assert!(r.success);
            assert_eq!(r.iterations, 2);
            assert_eq!(r.code, "fn main() {}");
        }
        _ => panic!("expected the end"),
    }
}

#[test]
fn loop_gives_up_after_the_allowed_requests() {
    let fl = FixLoop::new(0);
    let (state, _) = fl.start("bad".to_string());
    let (_, action) = fl.step(state, FixEvent::Checked(CompileResult::Errors(vec![an_error()])));
    match action {
        FixAction::Finish(r) => {
            assert!(!r.success);
            assert_eq!(r.iterations, 0);
            assert_eq!(r.final_errors, vec!["m.rs:1:2: oops"]);
        }
        _ => panic!("expected the end"),
    }
}

#[test]
fn reply_without_code_fails() {
    assert_eq!(code_from_fix_reply("nothing"), Err("No Rust code block in fix response".to_string()));
    let fl = FixLoop::new(1);
    let (state, _) = fl.start("bad".to_string());
    let (state, _) = fl.step(state, FixEvent::Checked(CompileResult::Errors(vec![an_error()])));
    let (_, action) = fl.step(state, FixEvent::Replied("sorry".to_string()));
    assert!(matches!(action, FixAction::Fail(ref m) if m == "No Rust code block in fix response"));
}

#[test]
fn output_fix_prompt_holds_code_and_diff() {
    let p = build_output_fix_prompt("fn main() {}", "Line 1: ...");
    assert!(p.starts_with("The following Rust code produces different output than the original C/C++ code.\n\n## Current Rust Code\n```rust\nfn main() {}\n```\n\n## Output Difference\nLine 1: ..."));
}
