//! Conversion of files and functions through a language model: the requests sent, the code
//! taken from the replies, and where the converted files go.
//!
//! Sending a request and writing a file are left to the caller.
use vstd::prelude::*;
use vstd::string::*;
use vstd::utf8::*;

use crate::ownership::{generate_ownership_context, ownership_context_spec};
use crate::paths::{file_stem, join_path, last_component, parent, path_file_stem, path_join, path_last_component, path_parent};
use crate::patterns::regex_captures;
use crate::prompt::{
    build_file_prompt, build_function_prompt, build_system_prompt, extract_rust_code,
    file_prompt_spec, function_prompt_spec, rust_code_spec, system_prompt_spec,
    ConversionProfile, RUST_BLOCK,
};
use crate::text::{copy_str, opt_view, push_str};
use crate::types::{CppFile, CppFunction, Language};

verus! {

/// Where the Rust version of the C/C++ file `source_path` goes under `output_dir`: in the
/// directory named like the last component of the file's parent, as the file's stem (`mod`
/// when it has none) with the extension `.rs`.
pub open spec fn rust_path_spec(source_path: Seq<char>, output_dir: Seq<char>) -> Seq<char> {
    let stem = match path_file_stem(source_path) {
        Some(s) => s,
        None => "mod"@,
    };
    let relative = match path_parent(source_path) {
        Some(p) => match path_last_component(p) {
            Some(c) => c,
            None => Seq::empty(),
        },
        None => Seq::empty(),
    };
    path_join(path_join(output_dir, relative), stem + ".rs"@)
}

/// The path of the Rust version of `source_path` under `output_dir` (see `rust_path_spec`).
pub fn to_rust_path(source_path: &str, output_dir: &str) -> (r: String)
    ensures
        r@ == rust_path_spec(source_path@, output_dir@),
{
    let stem = match file_stem(source_path) {
        Some(s) => s,
        None => copy_str("mod"),
    };
    let relative = match parent(source_path) {
        Some(p) => match last_component(p.as_str()) {
            Some(c) => c,
            None => String::new(),
        },
        None => String::new(),
    };
    let dir = join_path(output_dir, relative.as_str());
    let mut name = stem;
    push_str(&mut name, ".rs");
    join_path(dir.as_str(), name.as_str())
}

/// A converted file: where it came from, where it goes, and its code.
pub struct GeneratedFile {
    pub original_path: String,
    pub rust_path: String,
    pub rust_code: String,
}

/// The outcome of converting a project: the converted files and the failures.
pub struct GenerationResult {
    pub files: Vec<GeneratedFile>,
    pub errors: Vec<String>,
}

/// The code taken from a reply: its first Rust block, or the whole reply when it has none.
pub open spec fn reply_code_spec(response: Seq<char>) -> Seq<char> {
    match rust_code_spec(regex_captures(RUST_BLOCK@, response)) {
        Some(c) => c,
        None => response,
    }
}

/// The code taken from a model's reply (see `reply_code_spec`).
pub fn code_from_response(response: &str) -> (r: String)
    ensures
        r@ == reply_code_spec(response@),
{
    match extract_rust_code(response) {
        Some(c) => c,
        None => copy_str(response),
    }
}

/// The converted file made from the model's reply to the request for `file`.
pub fn generated_file(file: &CppFile, output_dir: &str, response: &str) -> (r: GeneratedFile)
    ensures
        r.original_path@ == file.path@,
        r.rust_path@ == rust_path_spec(file.path@, output_dir@),
        r.rust_code@ == reply_code_spec(response@),
{
    GeneratedFile {
        original_path: copy_str(file.path.as_str()),
        rust_path: to_rust_path(file.path.as_str(), output_dir),
        rust_code: code_from_response(response),
    }
}

/// The message recorded when a file could not be converted.
pub open spec fn conversion_failure_spec(path: Seq<char>, error: Seq<char>) -> Seq<char> {
    "Failed to convert "@ + path + ": "@ + error
}

/// The message recorded when the file at `path` could not be converted (see
/// `conversion_failure_spec`).
pub fn conversion_failure(path: &str, error: &str) -> (r: String)
    ensures
        r@ == conversion_failure_spec(path@, error@),
{
    let mut m = copy_str("Failed to convert ");
    push_str(&mut m, path);
    push_str(&mut m, ": ");
    push_str(&mut m, error);
    m
}

/// Converts C/C++ code under a conversion profile.
pub struct Generator {
    pub profile: ConversionProfile,
}

impl Generator {
    /// A generator that follows `profile`.
    pub fn new(profile: ConversionProfile) -> (r: Generator)
        ensures
            r.profile == profile,
    {
        Generator { profile }
    }

    /// The system prompt and the user prompt that ask for the conversion of `file`.
    pub fn file_request(&self, file: &CppFile) -> (r: (String, String))
        ensures
            r.0@ == system_prompt_spec(self.profile, file.language),
            r.1@ == file_prompt_spec(*file),
    {
        (build_system_prompt(&self.profile, &file.language), build_file_prompt(file))
    }

    /// The system prompt and the user prompt that ask for the conversion of `func` alone, with
    /// its ownership context.
    pub fn function_request(&self, func: &CppFunction, language: &Language) -> (r: (String, String))
        requires
            encode_utf8(func.body@).len() < usize::MAX,
        ensures
            r.0@ == system_prompt_spec(self.profile, *language),
            r.1@ == function_prompt_spec(*func, ownership_context_spec(*func)),
    {
        let system = build_system_prompt(&self.profile, language);
        let context = generate_ownership_context(func);
        let user = build_function_prompt(func, context.as_str());
        (system, user)
    }
}

} // verus!
