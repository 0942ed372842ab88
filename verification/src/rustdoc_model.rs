//! The parts of rustdoc's JSON output that the markdown renderer reads.
//!
//! Items are found by id in `index`; ids are rustdoc's `Id` numbers.

use vstd::prelude::*;

verus! {

/// A documented crate: the id of its root module and its items by id.
pub struct DocCrate {
    pub root: u32,
    pub index: Vec<(u32, DocItem)>,
}

/// One item of the crate.
pub struct DocItem {
    /// Some items such as impls have no name
    pub name: Option<String>,
    /// The docstring; `Some("")` when present but empty
    pub docs: Option<String>,
    /// Whether the visibility is `pub`
    pub public: bool,
    /// Where the item is defined, if known
    pub span: Option<DocSpan>,
    pub inner: DocInner,
}

/// A source location: file (relative to the crate) and first line.
pub struct DocSpan {
    pub filename: String,
    pub line: usize,
}

/// What kind of item it is, with what the renderer reads of each kind.
pub enum DocInner {
    Module { items: Vec<u32> },
    Function(DocFunction),
    Struct { generics: Vec<String>, impls: Vec<u32> },
    Enum { generics: Vec<String>, variants: Vec<u32> },
    Trait { generics: Vec<String>, items: Vec<u32> },
    TypeAlias { generics: Vec<String>, ty: DocType },
    Constant { value: Option<String> },
    Macro,
    /// A `static`: its type and whether it is `static mut`
    Static { ty: DocType, is_mutable: bool },
    Union { generics: Vec<String>, impls: Vec<u32> },
    TraitAlias { generics: Vec<String> },
    /// A procedural macro and how it is invoked
    ProcMacro(DocMacroKind),
    Use { source: String, is_glob: bool },
    Impl { trait_path: Option<String>, items: Vec<u32> },
    /// Any other kind of item
    Other,
}

/// How a procedural macro is invoked: `name!(..)`, `#[name]` or `#[derive(name)]`.
pub enum DocMacroKind {
    Bang,
    Attr,
    Derive,
}

/// A function: the names of its generic parameters, its parameters and its
/// return type.
pub struct DocFunction {
    pub generics: Vec<String>,
    pub inputs: Vec<(String, DocType)>,
    pub output: Option<DocType>,
}

/// A type as rustdoc describes it.
pub enum DocType {
    ResolvedPath { path: String, args: Option<Box<DocGenericArgs>> },
    /// `dyn A + B`: the trait paths
    DynTrait(Vec<String>),
    Generic(String),
    Primitive(String),
    FunctionPointer,
    Tuple(Vec<DocType>),
    Slice(Box<DocType>),
    Array { ty: Box<DocType>, len: String },
    Pat(Box<DocType>),
    /// `impl A + B`: for each bound, its trait path, or `None` when it is not a trait bound
    ImplTrait(Vec<Option<String>>),
    Infer,
    RawPointer { is_mutable: bool, ty: Box<DocType> },
    BorrowedRef { lifetime: Option<String>, is_mutable: bool, ty: Box<DocType> },
    QualifiedPath { name: String, self_type: Box<DocType>, trait_path: Option<String> },
}

/// The generic arguments of a path.
pub enum DocGenericArgs {
    AngleBracketed(Vec<DocGenericArg>),
    Parenthesized { inputs: Vec<DocType>, output: Option<DocType> },
    ReturnTypeNotation,
}

/// One generic argument.
pub enum DocGenericArg {
    Lifetime(String),
    Type(DocType),
    Const { expr: String, value: Option<String> },
    Infer,
}

} // verus!
