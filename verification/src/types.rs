//! The model of an analysed C/C++ project: files, declarations and memory-management sites.
use vstd::prelude::*;

verus! {

/// The language standard a project is written against.
#[derive(Debug, Clone, Copy, PartialEq, Eq, Structural)]
pub enum CppStandard {
    C89,
    C99,
    C11,
    C17,
    Cpp03,
    Cpp11,
    Cpp14,
    Cpp17,
    Cpp20,
    Cpp23,
    Unknown,
}

/// The display name of a standard.
pub open spec fn standard_name(s: CppStandard) -> Seq<char> {
    match s {
        CppStandard::C89 => "C89"@,
        CppStandard::C99 => "C99"@,
        CppStandard::C11 => "C11"@,
        CppStandard::C17 => "C17"@,
        CppStandard::Cpp03 => "C++03"@,
        CppStandard::Cpp11 => "C++11"@,
        CppStandard::Cpp14 => "C++14"@,
        CppStandard::Cpp17 => "C++17"@,
        CppStandard::Cpp20 => "C++20"@,
        CppStandard::Cpp23 => "C++23"@,
        CppStandard::Unknown => "Unknown"@,
    }
}

impl CppStandard {
    /// The display name (`C89`, `C++17`, ...).
    pub fn as_str(&self) -> (r: &'static str)
        ensures
            r@ == standard_name(*self),
    {
        match self {
            CppStandard::C89 => "C89",
            CppStandard::C99 => "C99",
            CppStandard::C11 => "C11",
            CppStandard::C17 => "C17",
            CppStandard::Cpp03 => "C++03",
            CppStandard::Cpp11 => "C++11",
            CppStandard::Cpp14 => "C++14",
            CppStandard::Cpp17 => "C++17",
            CppStandard::Cpp20 => "C++20",
            CppStandard::Cpp23 => "C++23",
            CppStandard::Unknown => "Unknown",
        }
    }
}

/// The source language of a file or project.
#[derive(Debug, Clone, Copy, PartialEq, Eq, Structural)]
pub enum Language {
    C,
    Cpp,
}

/// The display name of a language.
pub open spec fn language_name(l: Language) -> Seq<char> {
    match l {
        Language::C => "C"@,
        Language::Cpp => "C++"@,
    }
}

impl Language {
    /// The display name (`C` or `C++`).
    pub fn as_str(&self) -> (r: &'static str)
        ensures
            r@ == language_name(*self),
    {
        match self {
            Language::C => "C",
            Language::Cpp => "C++",
        }
    }
}

/// Member or base-class access.
#[derive(Debug, Clone, Copy, PartialEq, Eq, Structural)]
pub enum Visibility {
    Public,
    Protected,
    Private,
}

/// An analysed project.
#[derive(Debug, Clone)]
pub struct CppProject {
    pub root: String,
    pub language: Language,
    pub standard: CppStandard,
    pub files: Vec<CppFile>,
}

/// An analysed source file.
#[derive(Debug, Clone)]
pub struct CppFile {
    pub path: String,
    pub source: String,
    pub language: Language,
    pub includes: Vec<String>,
    pub macros: Vec<CppMacro>,
    pub structs: Vec<CppStruct>,
    pub classes: Vec<CppClass>,
    pub functions: Vec<CppFunction>,
    pub globals: Vec<CppGlobal>,
}

/// A preprocessor macro or conditional.
#[derive(Debug, Clone)]
pub struct CppMacro {
    pub name: String,
    pub params: Option<Vec<String>>,
    pub body: String,
    pub is_conditional: bool,
}

/// A C struct.
#[derive(Debug, Clone)]
pub struct CppStruct {
    pub name: String,
    pub fields: Vec<CppField>,
    pub is_typedef: bool,
}

/// A C++ class.
#[derive(Debug, Clone)]
pub struct CppClass {
    pub name: String,
    pub bases: Vec<CppBase>,
    pub fields: Vec<CppField>,
    pub methods: Vec<CppFunction>,
    pub visibility_default: Visibility,
}

/// A base class in a class declaration.
#[derive(Debug, Clone)]
pub struct CppBase {
    pub name: String,
    pub visibility: Visibility,
    pub is_virtual: bool,
}

/// A struct or class field.
#[derive(Debug, Clone)]
pub struct CppField {
    pub name: String,
    pub type_text: String,
    pub visibility: Visibility,
    pub is_static: bool,
    pub is_const: bool,
}

/// A function or method.
#[derive(Debug, Clone)]
pub struct CppFunction {
    pub name: String,
    pub return_type: String,
    pub params: Vec<CppParam>,
    pub body: String,
    pub is_static: bool,
    pub is_virtual: bool,
    pub is_const: bool,
    pub is_template: bool,
    pub template_params: Vec<String>,
    pub visibility: Visibility,
}

/// A function parameter.
#[derive(Debug, Clone)]
pub struct CppParam {
    pub name: String,
    pub type_text: String,
    pub default_value: Option<String>,
    pub is_const: bool,
    pub is_reference: bool,
    pub is_pointer: bool,
}

/// A global variable.
#[derive(Debug, Clone)]
pub struct CppGlobal {
    pub name: String,
    pub type_text: String,
    pub is_const: bool,
    pub is_extern: bool,
}

/// A memory-management site: what it is, the trimmed source line, and its 1-based line number.
#[derive(Debug, Clone)]
pub struct MemoryPattern {
    pub kind: MemoryPatternKind,
    pub location: String,
    pub line: usize,
}

/// The kinds of memory-management sites.
#[derive(Debug, Clone, Copy, PartialEq, Eq, Structural)]
pub enum MemoryPatternKind {
    Malloc,
    Calloc,
    Realloc,
    Free,
    New,
    NewArray,
    Delete,
    DeleteArray,
    UniquePtr,
    SharedPtr,
    WeakPtr,
}

/// The display name of a memory pattern kind.
pub open spec fn memory_kind_name(k: MemoryPatternKind) -> Seq<char> {
    match k {
        MemoryPatternKind::Malloc => "malloc"@,
        MemoryPatternKind::Calloc => "calloc"@,
        MemoryPatternKind::Realloc => "realloc"@,
        MemoryPatternKind::Free => "free"@,
        MemoryPatternKind::New => "new"@,
        MemoryPatternKind::NewArray => "new[]"@,
        MemoryPatternKind::Delete => "delete"@,
        MemoryPatternKind::DeleteArray => "delete[]"@,
        MemoryPatternKind::UniquePtr => "unique_ptr"@,
        MemoryPatternKind::SharedPtr => "shared_ptr"@,
        MemoryPatternKind::WeakPtr => "weak_ptr"@,
    }
}

impl MemoryPatternKind {
    /// The display name (`malloc`, `new[]`, ...).
    pub fn as_str(&self) -> (r: &'static str)
        ensures
            r@ == memory_kind_name(*self),
    {
        match self {
            MemoryPatternKind::Malloc => "malloc",
            MemoryPatternKind::Calloc => "calloc",
            MemoryPatternKind::Realloc => "realloc",
            MemoryPatternKind::Free => "free",
            MemoryPatternKind::New => "new",
            MemoryPatternKind::NewArray => "new[]",
            MemoryPatternKind::Delete => "delete",
            MemoryPatternKind::DeleteArray => "delete[]",
            MemoryPatternKind::UniquePtr => "unique_ptr",
            MemoryPatternKind::SharedPtr => "shared_ptr",
            MemoryPatternKind::WeakPtr => "weak_ptr",
        }
    }
}

} // verus!
