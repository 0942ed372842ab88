//! Reading rustdoc's JSON output into the model of [`crate::rustdoc_model`],
//! and rendering a crate's documentation from that text.

use vstd::prelude::*;
use rustdoc_types::{Crate, Function, GenericArg, GenericArgs, GenericBound, Generics, Id, Item, ItemEnum, Type};
use crate::rustdoc_model::{
    DocCrate, DocFunction, DocGenericArg, DocGenericArgs, DocInner, DocItem, DocMacroKind, DocSpan, DocType,
};
use crate::rustdoc_render::{lookup, lookup_exec, render_crate, spec_render_crate};
use crate::text::{append_str, from_chars, to_chars};

verus! {

#[verifier::external_type_specification]
#[verifier::external_body]
pub struct ExCrate(Crate);

#[verifier::external_type_specification]
#[verifier::external_body]
pub struct ExItem(Item);

#[verifier::external_type_specification]
#[verifier::external_body]
pub struct ExItemEnum(ItemEnum);

#[verifier::external_type_specification]
#[verifier::external_body]
pub struct ExType(Type);

#[verifier::external_type_specification]
#[verifier::external_body]
pub struct ExGenericArgs(GenericArgs);

#[verifier::external_type_specification]
#[verifier::external_body]
pub struct ExGenericArg(GenericArg);

#[verifier::external_type_specification]
#[verifier::external_body]
pub struct ExGenericBound(GenericBound);

#[verifier::external_type_specification]
#[verifier::external_body]
pub struct ExFunction(Function);

#[verifier::external_type_specification]
#[verifier::external_body]
pub struct ExGenerics(Generics);

#[verifier::external_type_specification]
#[verifier::external_body]
pub struct ExId(Id);

/// What `serde_json` makes of a text as a `rustdoc_types::Crate`, read into
/// the model: the root's id and the items of the index by id (a later
/// duplicate id replacing an earlier one); or the parser's error message.
pub uninterp spec fn rustdoc_parse(text: Seq<char>) -> Result<(u32, Map<u32, DocItem>), Seq<char>>;

/// `index` lists exactly the entries of `items`, each id once, in some order.
pub open spec fn index_lists(index: Seq<(u32, DocItem)>, items: Map<u32, DocItem>) -> bool {
    &&& forall|i: int, j: int| 0 <= i < j < index.len() ==> #[trigger] index[i].0 != #[trigger] index[j].0
    &&& forall|i: int| 0 <= i < index.len() ==> items.contains_key(#[trigger] index[i].0) && items[index[i].0] == index[i].1
    &&& forall|id: u32| #[trigger] items.contains_key(id) ==> exists|i: int| 0 <= i < index.len() && #[trigger] index[i].0 == id
}

/// A crate as the model holds it: its root, and its index in the order in
/// which the parsed map is walked.
#[verifier::external_body]
fn doc_crate(k: &Crate) -> DocCrate {
    DocCrate { root: k.root.0, index: k.index.iter().map(|(id, item)| (id.0, doc_item(item))).collect() }
}

/// An item, field by field.
#[verifier::external_body]
fn doc_item(i: &Item) -> DocItem {
    DocItem {
        name: i.name.clone(),
        docs: i.docs.clone(),
        public: matches!(i.visibility, rustdoc_types::Visibility::Public),
        span: i.span.as_ref().map(|s| DocSpan { filename: s.filename.display().to_string(), line: s.begin.0 }),
        inner: doc_inner(&i.inner),
    }
}

/// The numbers of some ids.
#[verifier::external_body]
fn ids(v: &Vec<Id>) -> Vec<u32> {
    v.iter().map(|id| id.0).collect()
}

/// The names of the generic parameters.
#[verifier::external_body]
fn param_names(g: &Generics) -> Vec<String> {
    g.params.iter().map(|p| p.name.clone()).collect()
}

/// A function's generic parameters, parameters and return type.
#[verifier::external_body]
fn doc_function(f: &Function) -> DocFunction {
    DocFunction {
        generics: param_names(&f.generics),
        inputs: f.sig.inputs.iter().map(|(n, t)| (n.clone(), doc_type(t))).collect(),
        output: f.sig.output.as_ref().map(doc_type),
    }
}

/// The kind of an item: modules, functions, structs, enums and traits here.
#[verifier::external_body]
fn doc_inner(e: &ItemEnum) -> DocInner {
    match e {
        ItemEnum::Module(m) => DocInner::Module { items: ids(&m.items) },
        ItemEnum::Function(f) => DocInner::Function(doc_function(f)),
        ItemEnum::Struct(s) => DocInner::Struct { generics: param_names(&s.generics), impls: ids(&s.impls) },
        ItemEnum::Enum(x) => DocInner::Enum { generics: param_names(&x.generics), variants: ids(&x.variants) },
        ItemEnum::Trait(t) => DocInner::Trait { generics: param_names(&t.generics), items: ids(&t.items) },
        _ => doc_inner_rest(e),
    }
}

/// The kind of an item: type aliases, constants, macros, statics and unions here.
#[verifier::external_body]
fn doc_inner_rest(e: &ItemEnum) -> DocInner {
    match e {
        ItemEnum::TypeAlias(t) => DocInner::TypeAlias { generics: param_names(&t.generics), ty: doc_type(&t.type_) },
        ItemEnum::Constant { const_, .. } => DocInner::Constant { value: const_.value.clone() },
        ItemEnum::Macro(_) => DocInner::Macro,
        ItemEnum::Static(s) => DocInner::Static { ty: doc_type(&s.type_), is_mutable: s.is_mutable },
        ItemEnum::Union(u) => DocInner::Union { generics: param_names(&u.generics), impls: ids(&u.impls) },
        _ => doc_inner_last(e),
    }
}

/// The kind of an item: trait aliases, uses and impls here; any other kind is `Other`.
#[verifier::external_body]
fn doc_inner_last(e: &ItemEnum) -> DocInner {
    match e {
        ItemEnum::TraitAlias(t) => DocInner::TraitAlias { generics: param_names(&t.generics) },
        ItemEnum::ProcMacro(m) => DocInner::ProcMacro(doc_macro_kind(&m.kind)),
        ItemEnum::Use(u) => DocInner::Use { source: u.source.clone(), is_glob: u.is_glob },
        ItemEnum::Impl(i) => DocInner::Impl { trait_path: i.trait_.as_ref().map(|p| p.path.clone()), items: ids(&i.items) },
        _ => DocInner::Other,
    }
}

#[verifier::external_type_specification]
#[verifier::external_body]
pub struct ExMacroKind(rustdoc_types::MacroKind);

/// How a procedural macro is invoked, variant by variant.
#[verifier::external_body]
fn doc_macro_kind(k: &rustdoc_types::MacroKind) -> DocMacroKind {
    match k {
        rustdoc_types::MacroKind::Bang => DocMacroKind::Bang,
        rustdoc_types::MacroKind::Attr => DocMacroKind::Attr,
        rustdoc_types::MacroKind::Derive => DocMacroKind::Derive,
    }
}

/// A type: paths, trait objects, generics, primitives and function pointers here.
#[verifier::external_body]
fn doc_type(t: &Type) -> DocType {
    match t {
        Type::ResolvedPath(p) => DocType::ResolvedPath { path: p.path.clone(), args: p.args.as_ref().map(|a| Box::new(doc_args(a))) },
        Type::DynTrait(d) => DocType::DynTrait(d.traits.iter().map(|t| t.trait_.path.clone()).collect()),
        Type::Generic(g) => DocType::Generic(g.clone()),
        Type::Primitive(p) => DocType::Primitive(p.clone()),
        Type::FunctionPointer(_) => DocType::FunctionPointer,
        _ => doc_type_rest(t),
    }
}

/// A type: tuples, slices, arrays, patterns and `impl` types here.
#[verifier::external_body]
fn doc_type_rest(t: &Type) -> DocType {
    match t {
        Type::Tuple(ts) => DocType::Tuple(ts.iter().map(doc_type).collect()),
        Type::Slice(inner) => DocType::Slice(Box::new(doc_type(inner))),
        Type::Array { type_, len } => DocType::Array { ty: Box::new(doc_type(type_)), len: len.clone() },
        Type::Pat { type_, .. } => DocType::Pat(Box::new(doc_type(type_))),
        Type::ImplTrait(bounds) => DocType::ImplTrait(bounds.iter().map(doc_bound).collect()),
        _ => doc_type_last(t),
    }
}

/// A type: `_`, pointers, references and qualified paths here.
#[verifier::external_body]
fn doc_type_last(t: &Type) -> DocType {
    match t {
        Type::RawPointer { is_mutable, type_ } => DocType::RawPointer { is_mutable: *is_mutable, ty: Box::new(doc_type(type_)) },
        Type::BorrowedRef { lifetime, is_mutable, type_ } => DocType::BorrowedRef { lifetime: lifetime.clone(), is_mutable: *is_mutable, ty: Box::new(doc_type(type_)) },
        Type::QualifiedPath { name, self_type, trait_, .. } => DocType::QualifiedPath { name: name.clone(), self_type: Box::new(doc_type(self_type)), trait_path: trait_.as_ref().map(|p| p.path.clone()) },
        _ => DocType::Infer,
    }
}

/// The trait path of a trait bound; `None` for other bounds.
#[verifier::external_body]
fn doc_bound(b: &GenericBound) -> Option<String> {
    match b {
        GenericBound::TraitBound { trait_, .. } => Some(trait_.path.clone()),
        _ => None,
    }
}

/// The generic arguments of a path, variant by variant.
#[verifier::external_body]
fn doc_args(a: &GenericArgs) -> DocGenericArgs {
    match a {
        GenericArgs::AngleBracketed { args, .. } => DocGenericArgs::AngleBracketed(args.iter().map(doc_arg).collect()),
        GenericArgs::Parenthesized { inputs, output } => DocGenericArgs::Parenthesized { inputs: inputs.iter().map(doc_type).collect(), output: output.as_ref().map(doc_type) },
        GenericArgs::ReturnTypeNotation => DocGenericArgs::ReturnTypeNotation,
    }
}

/// One generic argument, variant by variant.
#[verifier::external_body]
fn doc_arg(g: &GenericArg) -> DocGenericArg {
    match g {
        GenericArg::Lifetime(l) => DocGenericArg::Lifetime(l.clone()),
        GenericArg::Type(t) => DocGenericArg::Type(doc_type(t)),
        GenericArg::Const(c) => DocGenericArg::Const { expr: c.expr.clone(), value: c.value.clone() },
        GenericArg::Infer => DocGenericArg::Infer,
    }
}

/// `serde_json::from_str::<rustdoc_types::Crate>`, read into the model, or the
/// error's message. The index lists the parsed map's entries in the order in
/// which the map is walked, which the contract leaves open.
#[verifier::external_body]
fn parse_rustdoc_json(text: &str) -> (r: Result<DocCrate, String>)
    ensures
        match r {
            Ok(k) => rustdoc_parse(text@) matches Ok(p) && k.root == p.0 && index_lists(k.index@, p.1),
            Err(e) => rustdoc_parse(text@) == Err::<(u32, Map<u32, DocItem>), Seq<char>>(e@),
        },
{
    match serde_json::from_str::<Crate>(text) {
        Ok(k) => Ok(doc_crate(&k)),
        Err(e) => Err(e.to_string()),
    }
}

proof fn lemma_lookup_some(index: Seq<(u32, DocItem)>, id: u32)
    ensures
        lookup(index, id) is Some <==> exists|i: int| 0 <= i < index.len() && #[trigger] index[i].0 == id,
    decreases index.len(),
{
    if index.len() > 0 {
        lemma_lookup_some(index.drop_first(), id);
        if lookup(index, id) is Some && index[0].0 != id {
            let i = choose|i: int| 0 <= i < index.drop_first().len() && #[trigger] index.drop_first()[i].0 == id;
            assert(index[i + 1].0 == id);
        }
        if exists|i: int| 0 <= i < index.len() && #[trigger] index[i].0 == id {
            let i = choose|i: int| 0 <= i < index.len() && #[trigger] index[i].0 == id;
            if i > 0 {
                assert(index.drop_first()[i - 1].0 == id);
            }
        }
    }
}

/// The markdown documentation of a crate from the text of its rustdoc JSON:
/// a text that does not parse gives `Failed to parse rustdoc JSON: ` and the
/// parser's message; JSON without its root item gives an error; otherwise the
/// rendering of the parsed crate.
pub fn render_docs_json(text: &str, crate_name: &str, crate_dir: &str) -> (r: Result<String, String>)
    ensures
        match rustdoc_parse(text@) {
            Err(m) => r matches Err(e) && e@ == "Failed to parse rustdoc JSON: "@ + m,
            Ok(p) => if p.1.contains_key(p.0) {
                r matches Ok(s) && exists|k: DocCrate|
                    k.root == p.0 && index_lists(k.index@, p.1) && s@ == #[trigger] spec_render_crate(k, crate_name@, crate_dir@)
            } else {
                r matches Err(e) && e@ == "rustdoc JSON has no root item"@
            },
        },
{
    match parse_rustdoc_json(text) {
        Err(m) => {
            let mut e = to_chars("Failed to parse rustdoc JSON: ");
            append_str(&mut e, m.as_str());
            Err(from_chars(&e))
        },
        Ok(k) => {
            proof {
                lemma_lookup_some(k.index@, k.root);
            }
            match lookup_exec(&k.index, k.root) {
                Some(_) => {
                    let s = render_crate(&k, crate_name, crate_dir);
                    Ok(s)
                },
                None => Err(from_chars(&to_chars("rustdoc JSON has no root item"))),
            }
        },
    }
}

} // verus!
