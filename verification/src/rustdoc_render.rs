//! Markdown documentation rendered from a crate's rustdoc description.

use vstd::prelude::*;
use crate::rustdoc_model::{DocCrate, DocFunction, DocGenericArg, DocGenericArgs, DocInner, DocItem, DocMacroKind, DocType};
use crate::text::{append, append_str, from_chars, to_chars};

verus! {

/// `parts` joined with `sep` between them.
pub open spec fn join(parts: Seq<Seq<char>>, sep: Seq<char>) -> Seq<char>
    decreases parts.len(),
{
    if parts.len() == 0 {
        Seq::empty()
    } else if parts.len() == 1 {
        parts[0]
    } else {
        join(parts.drop_last(), sep) + sep + parts.last()
    }
}

/// Appends `part` to a joined text that already holds `k` parts.
fn push_part(out: &mut Vec<char>, k: usize, part: &Vec<char>, sep: &str, Ghost(parts): Ghost<Seq<Seq<char>>>)
    requires
        parts.len() == k + 1,
        old(out)@ == join(parts.drop_last(), sep@),
        parts.last() == part@,
    ensures
        final(out)@ == join(parts, sep@),
{
    if k > 0 {
        append_str(out, sep);
    } else {
        assert(parts.drop_last() =~= Seq::<Seq<char>>::empty());
    }
    append(out, part);
    if k == 0 {
        assert(final(out)@ =~= parts[0]);
    }
}

pub open spec fn string_views(v: Seq<String>) -> Seq<Seq<char>> {
    v.map_values(|s: String| s@)
}

/// The text of a type, brief: paths as rustdoc gives them, function pointers as `fn(...)`.
pub open spec fn type_text(t: DocType) -> Seq<char>
    decreases t,
{
    match t {
        DocType::ResolvedPath { path, args } => path@ + match args {
            Some(a) => args_text(*a),
            None => Seq::empty(),
        },
        DocType::DynTrait(traits) => "dyn "@ + join(string_views(traits@), " + "@),
        DocType::Generic(g) => g@,
        DocType::Primitive(p) => p@,
        DocType::FunctionPointer => "fn(...)"@,
        DocType::Tuple(types) => "("@ + join(type_texts(types@), ", "@) + ")"@,
        DocType::Slice(inner) => "["@ + type_text(*inner) + "]"@,
        DocType::Array { ty, len } => "["@ + type_text(*ty) + "; "@ + len@ + "]"@,
        DocType::Pat(ty) => type_text(*ty),
        DocType::ImplTrait(bounds) => "impl "@ + join(trait_bounds(bounds@), " + "@),
        DocType::Infer => "_"@,
        DocType::RawPointer { is_mutable, ty } => "*"@ + (if is_mutable {
            "mut"@
        } else {
            "const"@
        }) + " "@ + type_text(*ty),
        DocType::BorrowedRef { lifetime, is_mutable, ty } => "&"@ + match lifetime {
            Some(l) => l@ + " "@,
            None => Seq::empty(),
        } + (if is_mutable {
            "mut "@
        } else {
            Seq::empty()
        }) + type_text(*ty),
        DocType::QualifiedPath { name, self_type, trait_path } => "<"@ + type_text(*self_type)
            + match trait_path {
            Some(tp) => " as "@ + tp@,
            None => Seq::empty(),
        } + ">::"@ + name@,
    }
}

/// The texts of a list of types.
pub open spec fn type_texts(types: Seq<DocType>) -> Seq<Seq<char>>
    decreases types,
{
    if types.len() == 0 {
        Seq::empty()
    } else {
        seq![type_text(types[0])] + type_texts(types.drop_first())
    }
}

/// The trait paths among the bounds of an `impl Trait` type.
pub open spec fn trait_bounds(bounds: Seq<Option<String>>) -> Seq<Seq<char>>
    decreases bounds.len(),
{
    if bounds.len() == 0 {
        Seq::empty()
    } else {
        let rest = trait_bounds(bounds.drop_last());
        match bounds.last() {
            Some(p) => rest.push(p@),
            None => rest,
        }
    }
}

/// The text of a path's generic arguments.
pub open spec fn args_text(a: DocGenericArgs) -> Seq<char>
    decreases a,
{
    match a {
        DocGenericArgs::AngleBracketed(args) => if args@.len() == 0 {
            Seq::empty()
        } else {
            "<"@ + join(arg_texts(args@), ", "@) + ">"@
        },
        DocGenericArgs::Parenthesized { inputs, output } => "("@ + join(type_texts(inputs@), ", "@)
            + ")"@ + match output {
            Some(o) => " -> "@ + type_text(o),
            None => Seq::empty(),
        },
        DocGenericArgs::ReturnTypeNotation => Seq::empty(),
    }
}

/// The texts of generic arguments; an inferred argument has none.
pub open spec fn arg_texts(args: Seq<DocGenericArg>) -> Seq<Seq<char>>
    decreases args,
{
    if args.len() == 0 {
        Seq::empty()
    } else {
        let rest = arg_texts(args.drop_last());
        match args.last() {
            DocGenericArg::Lifetime(l) => rest.push(l@),
            DocGenericArg::Type(t) => rest.push(type_text(t)),
            DocGenericArg::Const { expr, value } => rest.push(
                match value {
                    Some(v) => v@,
                    None => expr@,
                },
            ),
            DocGenericArg::Infer => rest,
        }
    }
}

proof fn lemma_type_texts(types: Seq<DocType>)
    ensures
        type_texts(types).len() == types.len(),
        forall|k: int| 0 <= k < types.len() ==> #[trigger] type_texts(types)[k] == type_text(types[k]),
    decreases types.len(),
{
    if types.len() > 0 {
        lemma_type_texts(types.drop_first());
        assert forall|k: int| 0 <= k < types.len() implies #[trigger] type_texts(types)[k] == type_text(types[k]) by {
            if k > 0 {
                assert(type_texts(types)[k] == type_texts(types.drop_first())[k - 1]);
            }
        }
    }
}

/// The texts of `types` joined with `, `.
fn render_type_list(types: &Vec<DocType>) -> (r: Vec<char>)
    ensures
        r@ == join(type_texts(types@), ", "@),
    decreases types,
{
    proof {
        lemma_type_texts(types@);
    }
    let ghost texts = type_texts(types@);
    let mut out: Vec<char> = Vec::new();
    let mut i: usize = 0;
    assert(texts.take(0) =~= Seq::<Seq<char>>::empty());
    while i < types.len()
        invariant
            i <= types@.len(),
            texts == type_texts(types@),
            texts.len() == types@.len(),
            forall|k: int| 0 <= k < types@.len() ==> #[trigger] texts[k] == type_text(types@[k]),
            out@ == join(texts.take(i as int), ", "@),
        decreases types.len() - i,
    {
        let part = render_type_brief(&types[i]);
        assert(texts.take(i + 1).drop_last() =~= texts.take(i as int));
        push_part(&mut out, i, &part, ", ", Ghost(texts.take(i + 1)));
        i += 1;
    }
    assert(texts.take(types.len() as int) =~= texts);
    out
}

/// The text of a slice is `[T]`, of an array `[T; N]`, of a pattern type the
/// text of its type, of `_` itself, of a function pointer `fn(...)`, and of a
/// primitive or generic parameter its name.
pub proof fn lemma_simple_type_texts(ty: DocType, len: String, name: String)
    ensures
        type_text(DocType::Slice(Box::new(ty))) == "["@ + type_text(ty) + "]"@,
        type_text(DocType::Array { ty: Box::new(ty), len }) == "["@ + type_text(ty) + "; "@ + len@ + "]"@,
        type_text(DocType::Pat(Box::new(ty))) == type_text(ty),
        type_text(DocType::Infer) == "_"@,
        type_text(DocType::FunctionPointer) == "fn(...)"@,
        type_text(DocType::Primitive(name)) == name@,
        type_text(DocType::Generic(name)) == name@,
{
}

/// The text of a raw pointer is `*mut ` or `*const ` (as it is mutable or not)
/// followed by the text of the type it points to; that of a reference is `&`,
/// its lifetime and a space if it has one, `mut ` if it is mutable, and the
/// text of the type it refers to.
pub proof fn lemma_pointer_texts(is_mutable: bool, lifetime: Option<String>, ty: DocType)
    ensures
        type_text(DocType::RawPointer { is_mutable, ty: Box::new(ty) }) == if is_mutable {
            "*mut "@ + type_text(ty)
        } else {
            "*const "@ + type_text(ty)
        },
        type_text(DocType::BorrowedRef { lifetime, is_mutable, ty: Box::new(ty) }) == "&"@ + match lifetime {
            Some(l) => l@ + " "@,
            None => Seq::empty(),
        } + if is_mutable {
            "mut "@ + type_text(ty)
        } else {
            type_text(ty)
        },
{
    reveal_strlit("*");
    reveal_strlit("mut");
    reveal_strlit("const");
    reveal_strlit(" ");
    reveal_strlit("*mut ");
    reveal_strlit("*const ");
    reveal_strlit("mut ");
    if is_mutable {
        assert("*"@ + "mut"@ + " "@ =~= "*mut "@);
        assert("*"@ + "mut"@ + " "@ + type_text(ty) =~= "*mut "@ + type_text(ty));
    } else {
        assert("*"@ + "const"@ + " "@ =~= "*const "@);
        assert("*"@ + "const"@ + " "@ + type_text(ty) =~= "*const "@ + type_text(ty));
    }
    let pre = "&"@ + match lifetime {
        Some(l) => l@ + " "@,
        None => Seq::empty(),
    };
    if is_mutable {
        assert(pre + "mut "@ + type_text(ty) =~= pre + ("mut "@ + type_text(ty)));
    } else {
        assert(pre + Seq::<char>::empty() + type_text(ty) =~= pre + type_text(ty));
    }
}

/// The text of a type.
pub fn render_type_brief(t: &DocType) -> (r: Vec<char>)
    ensures
        r@ == type_text(*t),
    decreases t,
{
    match t {
        DocType::ResolvedPath { path, args } => {
            let mut out = to_chars(path.as_str());
            match args {
                Some(a) => {
                    let at = render_generic_args(a);
                    append(&mut out, &at);
                },
                None => {},
            }
            out
        },
        DocType::DynTrait(traits) => {
            let mut out = to_chars("dyn ");
            let j = join_strings(traits, " + ");
            append(&mut out, &j);
            out
        },
        DocType::Generic(g) => to_chars(g.as_str()),
        DocType::Primitive(p) => to_chars(p.as_str()),
        DocType::FunctionPointer => to_chars("fn(...)"),
        DocType::Tuple(types) => {
            let mut out = to_chars("(");
            let inner = render_type_list(types);
            append(&mut out, &inner);
            append_str(&mut out, ")");
            out
        },
        DocType::Slice(inner) => {
            let mut out = to_chars("[");
            let it = render_type_brief(inner);
            append(&mut out, &it);
            append_str(&mut out, "]");
            out
        },
        DocType::Array { ty, len } => {
            let mut out = to_chars("[");
            let it = render_type_brief(ty);
            append(&mut out, &it);
            append_str(&mut out, "; ");
            append_str(&mut out, len.as_str());
            append_str(&mut out, "]");
            out
        },
        DocType::Pat(ty) => render_type_brief(ty),
        DocType::ImplTrait(bounds) => {
            let mut out = to_chars("impl ");
            let j = join_bounds(bounds);
            append(&mut out, &j);
            out
        },
        DocType::Infer => to_chars("_"),
        DocType::RawPointer { is_mutable, ty } => {
            let mut out = to_chars("*");
            if *is_mutable {
                append_str(&mut out, "mut");
            } else {
                append_str(&mut out, "const");
            }
            append_str(&mut out, " ");
            let it = render_type_brief(ty);
            append(&mut out, &it);
            out
        },
        DocType::BorrowedRef { lifetime, is_mutable, ty } => {
            let mut out = to_chars("&");
            match lifetime {
                Some(l) => {
                    append_str(&mut out, l.as_str());
                    append_str(&mut out, " ");
                },
                None => {},
            }
            if *is_mutable {
                append_str(&mut out, "mut ");
            }
            let it = render_type_brief(ty);
            append(&mut out, &it);
            out
        },
        DocType::QualifiedPath { name, self_type, trait_path } => {
            let mut out = to_chars("<");
            let st = render_type_brief(self_type);
            append(&mut out, &st);
            match trait_path {
                Some(tp) => {
                    append_str(&mut out, " as ");
                    append_str(&mut out, tp.as_str());
                },
                None => {},
            }
            append_str(&mut out, ">::");
            append_str(&mut out, name.as_str());
            out
        },
    }
}

/// The texts of `items` joined with `sep`.
fn join_strings(items: &Vec<String>, sep: &str) -> (r: Vec<char>)
    ensures
        r@ == join(string_views(items@), sep@),
{
    let ghost parts = string_views(items@);
    let mut out: Vec<char> = Vec::new();
    let mut i: usize = 0;
    assert(parts.take(0) =~= Seq::<Seq<char>>::empty());
    while i < items.len()
        invariant
            i <= items@.len(),
            parts == string_views(items@),
            out@ == join(parts.take(i as int), sep@),
        decreases items.len() - i,
    {
        let part = to_chars(items[i].as_str());
        assert(parts.take(i + 1).drop_last() =~= parts.take(i as int));
        push_part(&mut out, i, &part, sep, Ghost(parts.take(i + 1)));
        i += 1;
    }
    assert(parts.take(items.len() as int) =~= parts);
    out
}

/// The trait paths among `bounds` joined with ` + `.
fn join_bounds(bounds: &Vec<Option<String>>) -> (r: Vec<char>)
    ensures
        r@ == join(trait_bounds(bounds@), " + "@),
{
    let mut out: Vec<char> = Vec::new();
    let mut n: usize = 0;
    let mut i: usize = 0;
    assert(bounds@.take(0) =~= Seq::<Option<String>>::empty());
    while i < bounds.len()
        invariant
            i <= bounds@.len(),
            n <= i,
            n == trait_bounds(bounds@.take(i as int)).len(),
            out@ == join(trait_bounds(bounds@.take(i as int)), " + "@),
        decreases bounds.len() - i,
    {
        assert(bounds@.take(i + 1).drop_last() =~= bounds@.take(i as int));
        assert(bounds@.take(i + 1).last() == bounds@[i as int]);
        match &bounds[i] {
            Some(p) => {
                let part = to_chars(p.as_str());
                let ghost parts = trait_bounds(bounds@.take(i + 1));
                assert(parts.drop_last() =~= trait_bounds(bounds@.take(i as int)));
                push_part(&mut out, n, &part, " + ", Ghost(parts));
                n += 1;
            },
            None => {},
        }
        i += 1;
    }
    assert(bounds@.take(bounds.len() as int) =~= bounds@);
    out
}

/// The texts of the arguments joined with `, `.
fn render_arg_list(args: &Vec<DocGenericArg>) -> (r: Vec<char>)
    ensures
        r@ == join(arg_texts(args@), ", "@),
    decreases args,
{
    let mut out: Vec<char> = Vec::new();
    let mut n: usize = 0;
    let mut i: usize = 0;
    assert(args@.take(0) =~= Seq::<DocGenericArg>::empty());
    while i < args.len()
        invariant
            i <= args@.len(),
            n <= i,
            n == arg_texts(args@.take(i as int)).len(),
            out@ == join(arg_texts(args@.take(i as int)), ", "@),
        decreases args.len() - i,
    {
        assert(args@.take(i + 1).drop_last() =~= args@.take(i as int));
        assert(args@.take(i + 1).last() == args@[i as int]);
        let ghost parts = arg_texts(args@.take(i + 1));
        let part: Option<Vec<char>> = match &args[i] {
            DocGenericArg::Lifetime(l) => Some(to_chars(l.as_str())),
            DocGenericArg::Type(t) => Some(render_type_brief(t)),
            DocGenericArg::Const { expr, value } => match value {
                Some(v) => Some(to_chars(v.as_str())),
                None => Some(to_chars(expr.as_str())),
            },
            DocGenericArg::Infer => None,
        };
        match part {
            Some(p) => {
                assert(parts.drop_last() =~= arg_texts(args@.take(i as int)));
                push_part(&mut out, n, &p, ", ", Ghost(parts));
                n += 1;
            },
            None => {},
        }
        i += 1;
    }
    assert(args@.take(args.len() as int) =~= args@);
    out
}

/// The text of a path's generic arguments.
pub fn render_generic_args(a: &DocGenericArgs) -> (r: Vec<char>)
    ensures
        r@ == args_text(*a),
    decreases a,
{
    match a {
        DocGenericArgs::AngleBracketed(args) => {
            if args.len() == 0 {
                return Vec::new();
            }
            let mut out = to_chars("<");
            let inner = render_arg_list(args);
            append(&mut out, &inner);
            append_str(&mut out, ">");
            out
        },
        DocGenericArgs::Parenthesized { inputs, output } => {
            let mut out = to_chars("(");
            let inner = render_type_list(inputs);
            append(&mut out, &inner);
            append_str(&mut out, ")");
            match output {
                Some(o) => {
                    append_str(&mut out, " -> ");
                    let ot = render_type_brief(o);
                    append(&mut out, &ot);
                },
                None => {},
            }
            out
        },
        DocGenericArgs::ReturnTypeNotation => Vec::new(),
    }
}


// ---------------------------------------------------------------------------
// Items

/// The item with id `id`: the first entry of the index that has it.
pub open spec fn lookup(index: Seq<(u32, DocItem)>, id: u32) -> Option<DocItem>
    decreases index.len(),
{
    if index.len() == 0 {
        None
    } else if index[0].0 == id {
        Some(index[0].1)
    } else {
        lookup(index.drop_first(), id)
    }
}

/// A generic parameter list `<A, B>`, or nothing when there are no parameters.
pub open spec fn generics_text(params: Seq<String>) -> Seq<char> {
    if params.len() == 0 {
        Seq::empty()
    } else {
        "<"@ + join(string_views(params), ", "@) + ">"@
    }
}

/// The texts of function parameters: `name: Type`, or just the type for `self`.
pub open spec fn input_texts(inputs: Seq<(String, DocType)>) -> Seq<Seq<char>>
    decreases inputs.len(),
{
    if inputs.len() == 0 {
        Seq::empty()
    } else {
        let (pname, ty) = inputs.last();
        input_texts(inputs.drop_last()).push(
            if pname@ == "self"@ {
                type_text(ty)
            } else {
                pname@ + ": "@ + type_text(ty)
            },
        )
    }
}

/// A function signature: `fn name<G>(params) -> Ret`.
pub open spec fn fn_sig_text(name: Seq<char>, f: DocFunction) -> Seq<char> {
    "fn "@ + name + generics_text(f.generics@) + "("@ + join(input_texts(f.inputs@), ", "@) + ")"@
        + match f.output {
        Some(t) => " -> "@ + type_text(t),
        None => Seq::empty(),
    }
}

/// A markdown heading marker of `level` hashes, at most six.
pub open spec fn hashes(level: nat) -> Seq<char> {
    Seq::new(if level < 6 { level } else { 6 }, |i: int| '#')
}

/// An item's documentation as a paragraph: nothing when it is empty, a blank
/// line when there is none.
pub open spec fn docs_text(docs: Option<String>) -> Seq<char> {
    match docs {
        Some(d) => if d@.len() > 0 {
            "\n"@ + d@ + "\n\n"@
        } else {
            Seq::empty()
        },
        None => "\n"@,
    }
}

/// Where an item is defined: `<sub>dir/file:line</sub>`.
pub open spec fn source_link(item: DocItem, crate_dir: Seq<char>) -> Seq<char> {
    match item.span {
        Some(sp) => "<sub>"@ + crate::paths::path_join(crate_dir, sp.filename@) + ":"@
            + crate::text::decimal(sp.line as nat) + "</sub>\n"@,
        None => Seq::empty(),
    }
}

/// The first line of the documentation, trimmed.
pub open spec fn first_doc_line(d: Seq<char>) -> Seq<char> {
    let ls = crate::text::lines(d);
    crate::text::trim(if ls.len() > 0 { ls[0] } else { Seq::empty() })
}

/// ` — summary` after a member, from the first line of its documentation.
pub open spec fn doc_summary(docs: Option<String>) -> Seq<char> {
    match docs {
        Some(d) => if first_doc_line(d@).len() > 0 {
            " — "@ + first_doc_line(d@)
        } else {
            Seq::empty()
        },
        None => Seq::empty(),
    }
}

/// A bullet for a function member: `- `sig` — summary`.
pub open spec fn member_line(item: DocItem) -> Seq<char> {
    match (item.name, item.inner) {
        (Some(n), DocInner::Function(f)) => "- `"@ + fn_sig_text(n@, f) + "`"@ + doc_summary(item.docs) + "\n"@,
        _ => Seq::empty(),
    }
}

/// The bullets of the function members among `ids`, public ones only when `public_only`.
pub open spec fn member_lines(index: Seq<(u32, DocItem)>, ids: Seq<u32>, public_only: bool) -> Seq<char>
    decreases ids.len(),
{
    if ids.len() == 0 {
        Seq::empty()
    } else {
        member_lines(index, ids.drop_last(), public_only) + match lookup(index, ids.last()) {
            Some(m) => if !public_only || m.public {
                member_line(m)
            } else {
                Seq::empty()
            },
            None => Seq::empty(),
        }
    }
}

/// The bullets of an enum's variants.
pub open spec fn variant_lines(index: Seq<(u32, DocItem)>, ids: Seq<u32>) -> Seq<char>
    decreases ids.len(),
{
    if ids.len() == 0 {
        Seq::empty()
    } else {
        variant_lines(index, ids.drop_last()) + match lookup(index, ids.last()) {
            Some(v) => match v.name {
                Some(n) => "- `"@ + n@ + "`"@ + doc_summary(v.docs) + "\n"@,
                None => Seq::empty(),
            },
            None => Seq::empty(),
        }
    }
}

/// The public functions among `ids`.
pub open spec fn public_functions(index: Seq<(u32, DocItem)>, ids: Seq<u32>) -> Seq<DocItem>
    decreases ids.len(),
{
    if ids.len() == 0 {
        Seq::empty()
    } else {
        let rest = public_functions(index, ids.drop_last());
        match lookup(index, ids.last()) {
            Some(m) => if m.public && m.inner is Function {
                rest.push(m)
            } else {
                rest
            },
            None => rest,
        }
    }
}

/// Each line of a text indented by two spaces.
pub open spec fn indented(ls: Seq<Seq<char>>) -> Seq<char>
    decreases ls.len(),
{
    if ls.len() == 0 {
        Seq::empty()
    } else {
        indented(ls.drop_last()) + "  "@ + ls.last() + "\n"@
    }
}

/// A method with its documentation indented below it.
pub open spec fn method_detail(m: DocItem) -> Seq<char> {
    match (m.name, m.inner) {
        (Some(n), DocInner::Function(f)) => "- `"@ + fn_sig_text(n@, f) + "`\n"@ + match m.docs {
            Some(d) => if d@.len() > 0 {
                "\n"@ + indented(crate::text::lines(d@)) + "\n"@
            } else {
                Seq::empty()
            },
            None => Seq::empty(),
        },
        _ => Seq::empty(),
    }
}

pub open spec fn method_details(ms: Seq<DocItem>) -> Seq<char>
    decreases ms.len(),
{
    if ms.len() == 0 {
        Seq::empty()
    } else {
        method_details(ms.drop_last()) + method_detail(ms.last())
    }
}

/// The inherent methods of a struct, one section per impl block that has public ones.
pub open spec fn struct_methods(index: Seq<(u32, DocItem)>, impls: Seq<u32>, depth: nat) -> Seq<char>
    decreases impls.len(),
{
    if impls.len() == 0 {
        Seq::empty()
    } else {
        struct_methods(index, impls.drop_last(), depth) + match lookup(index, impls.last()) {
            Some(it) => match it.inner {
                DocInner::Impl { trait_path: None, items } => {
                    let ms = public_functions(index, items@);
                    if ms.len() == 0 {
                        Seq::empty()
                    } else {
                        hashes(depth + 3) + " Methods\n\n"@ + method_details(ms)
                    }
                },
                _ => Seq::empty(),
            },
            None => Seq::empty(),
        }
    }
}

/// A trait impl listed under its module: heading, documentation and public methods.
pub open spec fn impl_text(index: Seq<(u32, DocItem)>, item: DocItem, trait_path: Seq<char>, items: Seq<u32>, parent: Seq<char>) -> Seq<char> {
    "#### impl `"@ + trait_path + "` for `"@ + parent + "`\n"@ + match item.docs {
        Some(d) => if d@.len() > 0 {
            "\n"@ + d@ + "\n"@
        } else {
            Seq::empty()
        },
        None => Seq::empty(),
    } + member_lines(index, items, true) + "\n"@
}

/// The markdown of the items `ids` of module `parent` at nesting `depth`;
/// `stack` lists the modules being rendered, a module on it is not entered again.
pub open spec fn render_items(
    index: Seq<(u32, DocItem)>,
    ids: Seq<u32>,
    parent: Seq<char>,
    crate_dir: Seq<char>,
    depth: nat,
    stack: Seq<u32>,
) -> Seq<char>
    decreases index.len() - stack.len(), 1int, ids.len(),
{
    if ids.len() == 0 {
        Seq::empty()
    } else {
        render_items(index, ids.drop_last(), parent, crate_dir, depth, stack) + render_item(
            index,
            ids.last(),
            parent,
            crate_dir,
            depth,
            stack,
        )
    }
}

/// The markdown of one item of module `parent`.
pub open spec fn render_item(
    index: Seq<(u32, DocItem)>,
    id: u32,
    parent: Seq<char>,
    crate_dir: Seq<char>,
    depth: nat,
    stack: Seq<u32>,
) -> Seq<char>
    decreases index.len() - stack.len(), 0int, 0int,
{
    match lookup(index, id) {
        None => Seq::empty(),
        Some(item) => if !item.public {
            Seq::empty()
        } else {
            match item.name {
                None => match item.inner {
                    DocInner::Impl { trait_path: Some(tp), items } => if items@.len() > 0 {
                        impl_text(index, item, tp@, items@, parent)
                    } else {
                        Seq::empty()
                    },
                    _ => Seq::empty(),
                },
                Some(name) => {
                    let name = name@;
                    let h = hashes(depth + 2);
                    let link = source_link(item, crate_dir);
                    let docs = docs_text(item.docs);
                    match item.inner {
                        DocInner::Module { items } => h + " mod `"@ + name + "`\n\n"@ + docs + if !stack.contains(id)
                            && stack.len() < index.len() {
                            render_items(index, items@, parent + "::"@ + name, crate_dir, depth + 1, stack.push(id))
                        } else {
                            Seq::empty()
                        },
                        DocInner::Function(f) => h + " `"@ + fn_sig_text(name, f) + "`\n"@ + link + docs,
                        DocInner::Struct { generics, impls } => h + " struct `"@ + name + generics_text(generics@)
                            + "`\n"@ + link + docs + struct_methods(index, impls@, depth),
                        DocInner::Enum { generics, variants } => h + " enum `"@ + name + generics_text(generics@)
                            + "`\n"@ + link + docs + variant_lines(index, variants@) + "\n"@,
                        DocInner::Trait { generics, items } => h + " trait `"@ + name + generics_text(generics@)
                            + "`\n"@ + link + docs + member_lines(index, items@, false) + "\n"@,
                        DocInner::TypeAlias { generics, ty } => h + " type `"@ + name + generics_text(generics@)
                            + " = "@ + type_text(ty) + "`\n"@ + link + docs,
                        DocInner::Constant { value } => h + " const `"@ + name + match value {
                            Some(v) => " = "@ + v@,
                            None => Seq::empty(),
                        } + "`\n"@ + link + docs,
                        DocInner::Macro => h + " macro `"@ + name + "!`\n"@ + link + docs,
                        DocInner::Static { ty, is_mutable } => h + " static `"@ + (if is_mutable {
                            "mut "@
                        } else {
                            Seq::empty()
                        }) + name + ": "@ + type_text(ty) + "`\n"@ + link + docs,
                        DocInner::Union { generics, impls } => h + " union `"@ + name + generics_text(generics@)
                            + "`\n"@ + link + docs + struct_methods(index, impls@, depth),
                        DocInner::TraitAlias { generics } => h + " trait alias `"@ + name + generics_text(generics@)
                            + "`\n"@ + link + docs,
                        DocInner::ProcMacro(kind) => h + (match kind {
                            DocMacroKind::Bang => " macro `"@ + name + "!`\n"@,
                            DocMacroKind::Attr => " attribute macro `#["@ + name + "]`\n"@,
                            DocMacroKind::Derive => " derive macro `#[derive("@ + name + ")]`\n"@,
                        }) + link + docs,
                        DocInner::Use { source, is_glob } => "- pub use "@ + source@ + (if is_glob {
                            "::*"@
                        } else {
                            Seq::empty()
                        }) + "\n"@,
                        _ => Seq::empty(),
                    }
                },
            }
        },
    }
}

/// The whole document: the crate's documentation, its items, and a closing hint.
pub open spec fn spec_render_crate(krate: DocCrate, crate_name: Seq<char>, crate_dir: Seq<char>) -> Seq<char> {
    let index = krate.index@;
    let root = lookup(index, krate.root)->0;
    let head = match root.docs {
        Some(d) => if d@.len() > 0 {
            d@ + "\n"@ + "\n---\n\n"@
        } else {
            Seq::empty()
        },
        None => Seq::empty(),
    };
    let body = match root.inner {
        DocInner::Module { items } => render_items(index, items@, crate_name, crate_dir, 0, seq![krate.root]),
        _ => Seq::empty(),
    };
    head + body + "\nHint: Use `cargo read "@ + crate_name + "` for README, `cargo read --api "@
        + crate_name + "` for quick API overview.\n"@
}


/// The kinds of item that the documentation shows as a section of their own.
pub open spec fn has_section(inner: DocInner) -> bool {
    match inner {
        DocInner::Use { .. } | DocInner::Impl { .. } | DocInner::Other => false,
        _ => true,
    }
}

/// A public named item of a kind that has a section (a module, function,
/// struct, enum, trait, type alias, constant, macro, static, union, trait
/// alias or procedural macro) begins with a heading: `min(depth + 2, 6)`
/// hashes and a space.
#[verifier::rlimit(60)]
#[verifier::spinoff_prover]
pub proof fn lemma_item_heading(
    index: Seq<(u32, DocItem)>,
    id: u32,
    item: DocItem,
    parent: Seq<char>,
    crate_dir: Seq<char>,
    depth: nat,
    stack: Seq<u32>,
)
    requires
        lookup(index, id) == Some(item),
        item.public,
        item.name is Some,
        has_section(item.inner),
    ensures
        crate::text::starts_with(render_item(index, id, parent, crate_dir, depth, stack), hashes(depth + 2) + " "@),
{
    let r = render_item(index, id, parent, crate_dir, depth, stack);
    let h = hashes(depth + 2);
    match item.inner {
        DocInner::Module { .. } => {
            reveal_strlit(" mod `");
            assert(r.subrange(0, (h + " mod `"@).len() as int) =~= h + " mod `"@);
            lemma_space_after(r, h, " mod `"@);
        },
        DocInner::Function(..) => {
            reveal_strlit(" `");
            assert(r.subrange(0, (h + " `"@).len() as int) =~= h + " `"@);
            lemma_space_after(r, h, " `"@);
        },
        DocInner::Struct { .. } => {
            reveal_strlit(" struct `");
            assert(r.subrange(0, (h + " struct `"@).len() as int) =~= h + " struct `"@);
            lemma_space_after(r, h, " struct `"@);
        },
        DocInner::Enum { .. } => {
            reveal_strlit(" enum `");
            assert(r.subrange(0, (h + " enum `"@).len() as int) =~= h + " enum `"@);
            lemma_space_after(r, h, " enum `"@);
        },
        DocInner::Trait { .. } => {
            reveal_strlit(" trait `");
            assert(r.subrange(0, (h + " trait `"@).len() as int) =~= h + " trait `"@);
            lemma_space_after(r, h, " trait `"@);
        },
        DocInner::TypeAlias { .. } => {
            reveal_strlit(" type `");
            assert(r.subrange(0, (h + " type `"@).len() as int) =~= h + " type `"@);
            lemma_space_after(r, h, " type `"@);
        },
        DocInner::Constant { .. } => {
            reveal_strlit(" const `");
            assert(r.subrange(0, (h + " const `"@).len() as int) =~= h + " const `"@);
            lemma_space_after(r, h, " const `"@);
        },
        DocInner::Macro => {
            reveal_strlit(" macro `");
            assert(r.subrange(0, (h + " macro `"@).len() as int) =~= h + " macro `"@);
            lemma_space_after(r, h, " macro `"@);
        },
        DocInner::Static { .. } => {
            reveal_strlit(" static `");
            assert(r.subrange(0, (h + " static `"@).len() as int) =~= h + " static `"@);
            lemma_space_after(r, h, " static `"@);
        },
        DocInner::Union { .. } => {
            reveal_strlit(" union `");
            assert(r.subrange(0, (h + " union `"@).len() as int) =~= h + " union `"@);
            lemma_space_after(r, h, " union `"@);
        },
        DocInner::TraitAlias { .. } => {
            reveal_strlit(" trait alias `");
            assert(r.subrange(0, (h + " trait alias `"@).len() as int) =~= h + " trait alias `"@);
            lemma_space_after(r, h, " trait alias `"@);
        },
        DocInner::ProcMacro(DocMacroKind::Bang) => {
            reveal_strlit(" macro `");
            assert(r.subrange(0, (h + " macro `"@).len() as int) =~= h + " macro `"@);
            lemma_space_after(r, h, " macro `"@);
        },
        DocInner::ProcMacro(DocMacroKind::Attr) => {
            reveal_strlit(" attribute macro `#[");
            assert(r.subrange(0, (h + " attribute macro `#["@).len() as int) =~= h + " attribute macro `#["@);
            lemma_space_after(r, h, " attribute macro `#["@);
        },
        DocInner::ProcMacro(DocMacroKind::Derive) => {
            reveal_strlit(" derive macro `#[derive(");
            assert(r.subrange(0, (h + " derive macro `#[derive("@).len() as int) =~= h + " derive macro `#[derive("@);
            lemma_space_after(r, h, " derive macro `#[derive("@);
        },
        _ => {},
    }
}

proof fn lemma_space_after(r: Seq<char>, h: Seq<char>, lit: Seq<char>)
    requires
        lit.len() > 0,
        lit[0] == ' ',
        (h + lit).len() <= r.len(),
        r.subrange(0, (h + lit).len() as int) == h + lit,
    ensures
        crate::text::starts_with(r, h + " "@),
{
    reveal_strlit(" ");
    let n = (h + lit).len() as int;
    assert forall|k: int| 0 <= k < h.len() + 1 implies r[k] == #[trigger] (h + " "@)[k] by {
        assert(r.subrange(0, n)[k] == r[k]);
        assert(r.subrange(0, n)[k] == (h + lit)[k]);
        if k < h.len() {
            assert((h + lit)[k] == h[k]);
        } else {
            assert((h + lit)[k] == lit[0]);
        }
    }
    assert(r.subrange(0, h.len() + 1int) =~= h + " "@);
}

/// A public module named `name` is rendered as its heading (`min(depth + 2,
/// 6)` hashes, then ``mod `name` ``), its documentation, and then its items,
/// rendered one level deeper under the path `parent::name`; a module already
/// being rendered is not entered again.
pub proof fn lemma_module_children(
    index: Seq<(u32, DocItem)>,
    id: u32,
    item: DocItem,
    parent: Seq<char>,
    crate_dir: Seq<char>,
    depth: nat,
    stack: Seq<u32>,
)
    requires
        lookup(index, id) == Some(item),
        item.public,
        item.name is Some,
        item.inner is Module,
    ensures
        render_item(index, id, parent, crate_dir, depth, stack) == hashes(depth + 2) + " mod `"@ + item.name->0@
            + "`\n\n"@ + docs_text(item.docs) + if !stack.contains(id) && stack.len() < index.len() {
            render_items(index, item.inner->Module_items@, parent + "::"@ + item.name->0@, crate_dir, depth + 1, stack.push(id))
        } else {
            Seq::empty()
        },
{
}

/// A public type alias named `name` is rendered as its heading, ``type `name<G> = T` ``
/// (its generic parameters and the text of the aliased type), its source
/// link and its documentation.
pub proof fn lemma_type_alias_section(
    index: Seq<(u32, DocItem)>,
    id: u32,
    item: DocItem,
    parent: Seq<char>,
    crate_dir: Seq<char>,
    depth: nat,
    stack: Seq<u32>,
)
    requires
        lookup(index, id) == Some(item),
        item.public,
        item.name is Some,
        item.inner is TypeAlias,
    ensures
        render_item(index, id, parent, crate_dir, depth, stack) == hashes(depth + 2) + " type `"@ + item.name->0@
            + generics_text(item.inner->TypeAlias_generics@) + " = "@ + type_text(item.inner->TypeAlias_ty)
            + "`\n"@ + source_link(item, crate_dir) + docs_text(item.docs),
{
}

/// The section of each other kind of public named item: its heading line
/// (`min(depth + 2, 6)` hashes, then the kind and what identifies the item),
/// its source link and documentation, then what the kind lists: a struct's or
/// union's methods, an enum's variants, a trait's members. A re-export is one
/// line `- pub use SOURCE` (with `::*` for a glob).
pub proof fn lemma_item_sections(
    index: Seq<(u32, DocItem)>,
    id: u32,
    item: DocItem,
    parent: Seq<char>,
    crate_dir: Seq<char>,
    depth: nat,
    stack: Seq<u32>,
)
    requires
        lookup(index, id) == Some(item),
        item.public,
        item.name is Some,
    ensures
        ({
            let r = render_item(index, id, parent, crate_dir, depth, stack);
            let h = hashes(depth + 2);
            let name = item.name->0@;
            let link = source_link(item, crate_dir);
            let docs = docs_text(item.docs);
            match item.inner {
                DocInner::Function(f) => r == h + " `"@ + fn_sig_text(name, f) + "`\n"@ + link + docs,
                DocInner::Struct { generics, impls } => r == h + " struct `"@ + name + generics_text(generics@) + "`\n"@
                    + link + docs + struct_methods(index, impls@, depth),
                DocInner::Union { generics, impls } => r == h + " union `"@ + name + generics_text(generics@) + "`\n"@
                    + link + docs + struct_methods(index, impls@, depth),
                DocInner::Enum { generics, variants } => r == h + " enum `"@ + name + generics_text(generics@) + "`\n"@
                    + link + docs + variant_lines(index, variants@) + "\n"@,
                DocInner::Trait { generics, items } => r == h + " trait `"@ + name + generics_text(generics@) + "`\n"@
                    + link + docs + member_lines(index, items@, false) + "\n"@,
                DocInner::Constant { value: Some(v) } => r == h + " const `"@ + name + " = "@ + v@ + "`\n"@ + link + docs,
                DocInner::Constant { value: None } => r == h + " const `"@ + name + "`\n"@ + link + docs,
                DocInner::Macro => r == h + " macro `"@ + name + "!`\n"@ + link + docs,
                DocInner::Static { ty, is_mutable } => r == h + " static `"@ + (if is_mutable {
                    "mut "@
                } else {
                    Seq::empty()
                }) + name + ": "@ + type_text(ty) + "`\n"@ + link + docs,
                DocInner::TraitAlias { generics } => r == h + " trait alias `"@ + name + generics_text(generics@) + "`\n"@
                    + link + docs,
                DocInner::ProcMacro(DocMacroKind::Bang) => r == h + " macro `"@ + name + "!`\n"@ + link + docs,
                DocInner::ProcMacro(DocMacroKind::Attr) => r == h + " attribute macro `#["@ + name + "]`\n"@ + link + docs,
                DocInner::ProcMacro(DocMacroKind::Derive) => r == h + " derive macro `#[derive("@ + name + ")]`\n"@ + link
                    + docs,
                DocInner::Use { source, is_glob } => r == "- pub use "@ + source@ + (if is_glob {
                    "::*"@
                } else {
                    Seq::empty()
                }) + "\n"@,
                _ => true,
            }
        }),
{
}

// ---------------------------------------------------------------------------
// Rendering in code

pub(crate) fn lookup_exec<'a>(index: &'a Vec<(u32, DocItem)>, id: u32) -> (r: Option<&'a DocItem>)
    ensures
        r matches Some(it) ==> lookup(index@, id) == Some(*it),
        r is None ==> lookup(index@, id) is None,
{
    let mut i: usize = 0;
    assert(index@.skip(0) =~= index@);
    while i < index.len()
        invariant
            i <= index@.len(),
            lookup(index@, id) == lookup(index@.skip(i as int), id),
        decreases index.len() - i,
    {
        assert(index@.skip(i as int).drop_first() =~= index@.skip(i + 1));
        if index[i].0 == id {
            return Some(&index[i].1);
        }
        i += 1;
    }
    None
}

fn generics_exec(params: &Vec<String>) -> (r: Vec<char>)
    ensures
        r@ == generics_text(params@),
{
    if params.len() == 0 {
        return Vec::new();
    }
    let mut out = to_chars("<");
    let j = join_strings(params, ", ");
    append(&mut out, &j);
    append_str(&mut out, ">");
    out
}

proof fn lemma_input_texts_len(inputs: Seq<(String, DocType)>)
    ensures
        input_texts(inputs).len() == inputs.len(),
    decreases inputs.len(),
{
    if inputs.len() > 0 {
        lemma_input_texts_len(inputs.drop_last());
    }
}

fn fn_sig_exec(name: &Vec<char>, f: &DocFunction) -> (r: Vec<char>)
    ensures
        r@ == fn_sig_text(name@, *f),
{
    let mut out = to_chars("fn ");
    append(&mut out, name);
    let g = generics_exec(&f.generics);
    append(&mut out, &g);
    append_str(&mut out, "(");
    let ghost texts = input_texts(f.inputs@);
    let mut params: Vec<char> = Vec::new();
    let mut i: usize = 0;
    let slf = to_chars("self");
    assert(f.inputs@.take(0) =~= Seq::<(String, DocType)>::empty());
    while i < f.inputs.len()
        invariant
            i <= f.inputs@.len(),
            slf@ == "self"@,
            params@ == join(input_texts(f.inputs@.take(i as int)), ", "@),
        decreases f.inputs.len() - i,
    {
        assert(f.inputs@.take(i + 1).drop_last() =~= f.inputs@.take(i as int));
        assert(f.inputs@.take(i + 1).last() == f.inputs@[i as int]);
        let pname = to_chars(f.inputs[i].0.as_str());
        let ty = render_type_brief(&f.inputs[i].1);
        let part = if crate::text::chars_eq(&pname, &slf) {
            ty
        } else {
            let mut p = pname;
            append_str(&mut p, ": ");
            append(&mut p, &ty);
            p
        };
        proof {
            lemma_input_texts_len(f.inputs@.take(i + 1));
            assert(input_texts(f.inputs@.take(i + 1)) == input_texts(f.inputs@.take(i as int)).push(part@));
            assert(input_texts(f.inputs@.take(i + 1)).drop_last() =~= input_texts(f.inputs@.take(i as int)));
        }
        push_part(&mut params, i, &part, ", ", Ghost(input_texts(f.inputs@.take(i + 1))));
        i += 1;
    }
    assert(f.inputs@.take(f.inputs.len() as int) =~= f.inputs@);
    append(&mut out, &params);
    append_str(&mut out, ")");
    match &f.output {
        Some(t) => {
            append_str(&mut out, " -> ");
            let tt = render_type_brief(t);
            append(&mut out, &tt);
        },
        None => {},
    }
    out
}

fn hashes_exec(level: usize) -> (r: Vec<char>)
    ensures
        r@ == hashes(level as nat),
{
    let n = if level < 6 { level } else { 6 };
    let mut out: Vec<char> = Vec::new();
    let mut i: usize = 0;
    while i < n
        invariant
            i <= n,
            n == (if level < 6 { level } else { 6 }),
            out@ == Seq::new(i as nat, |k: int| '#'),
        decreases n - i,
    {
        out.push('#');
        i += 1;
        assert(out@ =~= Seq::new(i as nat, |k: int| '#'));
    }
    out
}

fn docs_exec(docs: &Option<String>) -> (r: Vec<char>)
    ensures
        r@ == docs_text(*docs),
{
    match docs {
        Some(d) => {
            let dv = to_chars(d.as_str());
            if dv.len() > 0 {
                let mut out = to_chars("\n");
                append(&mut out, &dv);
                append_str(&mut out, "\n\n");
                out
            } else {
                Vec::new()
            }
        },
        None => to_chars("\n"),
    }
}

fn source_link_exec(item: &DocItem, crate_dir: &Vec<char>) -> (r: Vec<char>)
    ensures
        r@ == source_link(*item, crate_dir@),
{
    match &item.span {
        Some(sp) => {
            let mut out = to_chars("<sub>");
            let file = to_chars(sp.filename.as_str());
            let p = crate::paths::path_join_chars(crate_dir, &file);
            append(&mut out, &p);
            append_str(&mut out, ":");
            crate::text::push_decimal(&mut out, sp.line);
            append_str(&mut out, "</sub>\n");
            out
        },
        None => Vec::new(),
    }
}

fn first_doc_line_exec(d: &String) -> (r: Vec<char>)
    ensures
        r@ == first_doc_line(d@),
{
    let dv = to_chars(d.as_str());
    let ls = crate::text::split_lines(&dv);
    if ls.len() > 0 {
        crate::text::trim_chars(&ls[0])
    } else {
        crate::text::trim_chars(&Vec::new())
    }
}

fn doc_summary_exec(docs: &Option<String>) -> (r: Vec<char>)
    ensures
        r@ == doc_summary(*docs),
{
    match docs {
        Some(d) => {
            let first = first_doc_line_exec(d);
            if first.len() > 0 {
                let mut out = to_chars(" — ");
                append(&mut out, &first);
                out
            } else {
                Vec::new()
            }
        },
        None => Vec::new(),
    }
}

fn member_line_exec(item: &DocItem) -> (r: Vec<char>)
    ensures
        r@ == member_line(*item),
{
    match (&item.name, &item.inner) {
        (Some(n), DocInner::Function(f)) => {
            let nv = to_chars(n.as_str());
            let mut out = to_chars("- `");
            let sig = fn_sig_exec(&nv, f);
            append(&mut out, &sig);
            append_str(&mut out, "`");
            let sum = doc_summary_exec(&item.docs);
            append(&mut out, &sum);
            append_str(&mut out, "\n");
            out
        },
        _ => Vec::new(),
    }
}

fn member_lines_exec(index: &Vec<(u32, DocItem)>, ids: &Vec<u32>, public_only: bool, out: &mut Vec<char>)
    ensures
        final(out)@ == old(out)@ + member_lines(index@, ids@, public_only),
{
    let mut i: usize = 0;
    assert(ids@.take(0) =~= Seq::<u32>::empty());
    assert(old(out)@ + member_lines(index@, ids@.take(0), public_only) =~= old(out)@);
    while i < ids.len()
        invariant
            i <= ids@.len(),
            out@ == old(out)@ + member_lines(index@, ids@.take(i as int), public_only),
        decreases ids.len() - i,
    {
        assert(ids@.take(i + 1).drop_last() =~= ids@.take(i as int));
        assert(ids@.take(i + 1).last() == ids@[i as int]);
        let ghost before = out@;
        match lookup_exec(index, ids[i]) {
            Some(m) => {
                if !public_only || m.public {
                    let l = member_line_exec(m);
                    append(out, &l);
                }
            },
            None => {},
        }
        i += 1;
    }
    assert(ids@.take(ids.len() as int) =~= ids@);
}

fn variant_lines_exec(index: &Vec<(u32, DocItem)>, ids: &Vec<u32>, out: &mut Vec<char>)
    ensures
        final(out)@ == old(out)@ + variant_lines(index@, ids@),
{
    let mut i: usize = 0;
    assert(ids@.take(0) =~= Seq::<u32>::empty());
    assert(old(out)@ + variant_lines(index@, ids@.take(0)) =~= old(out)@);
    while i < ids.len()
        invariant
            i <= ids@.len(),
            out@ == old(out)@ + variant_lines(index@, ids@.take(i as int)),
        decreases ids.len() - i,
    {
        assert(ids@.take(i + 1).drop_last() =~= ids@.take(i as int));
        assert(ids@.take(i + 1).last() == ids@[i as int]);
        match lookup_exec(index, ids[i]) {
            Some(v) => match &v.name {
                Some(n) => {
                    let mut l = to_chars("- `");
                    append_str(&mut l, n.as_str());
                    append_str(&mut l, "`");
                    let sum = doc_summary_exec(&v.docs);
                    append(&mut l, &sum);
                    append_str(&mut l, "\n");
                    append(out, &l);
                },
                None => {},
            },
            None => {},
        }
        i += 1;
    }
    assert(ids@.take(ids.len() as int) =~= ids@);
}

fn method_detail_exec(m: &DocItem, out: &mut Vec<char>)
    ensures
        final(out)@ == old(out)@ + method_detail(*m),
{
    match (&m.name, &m.inner) {
        (Some(n), DocInner::Function(f)) => {
            let nv = to_chars(n.as_str());
            let mut l = to_chars("- `");
            let sig = fn_sig_exec(&nv, f);
            append(&mut l, &sig);
            append_str(&mut l, "`\n");
            match &m.docs {
                Some(d) => {
                    let dv = to_chars(d.as_str());
                    if dv.len() > 0 {
                        append_str(&mut l, "\n");
                        let ls = crate::text::split_lines(&dv);
                        let ghost lv = crate::text::lines(dv@);
                        let mut k: usize = 0;
                        let ghost start = l@;
                        assert(lv.take(0) =~= Seq::<Seq<char>>::empty());
                        assert(start + indented(lv.take(0)) =~= start);
                        while k < ls.len()
                            invariant
                                k <= ls@.len(),
                                ls@.len() == lv.len(),
                                forall|j: int| 0 <= j < ls@.len() ==> #[trigger] ls@[j]@ == lv[j],
                                l@ == start + indented(lv.take(k as int)),
                            decreases ls.len() - k,
                        {
                            assert(lv.take(k + 1).drop_last() =~= lv.take(k as int));
                            assert(lv.take(k + 1).last() == ls@[k as int]@);
                            append_str(&mut l, "  ");
                            append(&mut l, &ls[k]);
                            append_str(&mut l, "\n");
                            k += 1;
                        }
                        assert(lv.take(ls.len() as int) =~= lv);
                        append_str(&mut l, "\n");
                    }
                },
                None => {},
            }
            append(out, &l);
        },
        _ => {},
    }
}

fn struct_methods_exec(index: &Vec<(u32, DocItem)>, impls: &Vec<u32>, depth: usize, out: &mut Vec<char>)
    ensures
        final(out)@ == old(out)@ + struct_methods(index@, impls@, depth as nat),
{
    let mut i: usize = 0;
    assert(impls@.take(0) =~= Seq::<u32>::empty());
    assert(old(out)@ + struct_methods(index@, impls@.take(0), depth as nat) =~= old(out)@);
    while i < impls.len()
        invariant
            i <= impls@.len(),
            out@ == old(out)@ + struct_methods(index@, impls@.take(i as int), depth as nat),
        decreases impls.len() - i,
    {
        assert(impls@.take(i + 1).drop_last() =~= impls@.take(i as int));
        assert(impls@.take(i + 1).last() == impls@[i as int]);
        let ghost before = out@;
        match lookup_exec(index, impls[i]) {
            Some(it) => match &it.inner {
                DocInner::Impl { trait_path: None, items } => {
                    let mut methods: Vec<&DocItem> = Vec::new();
                    let mut k: usize = 0;
                    assert(items@.take(0) =~= Seq::<u32>::empty());
                    while k < items.len()
                        invariant
                            k <= items@.len(),
                            methods@.map_values(|m: &DocItem| *m) == public_functions(index@, items@.take(k as int)),
                        decreases items.len() - k,
                    {
                        assert(items@.take(k + 1).drop_last() =~= items@.take(k as int));
                        assert(items@.take(k + 1).last() == items@[k as int]);
                        let ghost mb = methods@;
                        match lookup_exec(index, items[k]) {
                            Some(m) => {
                                if m.public && matches!(m.inner, DocInner::Function(_)) {
                                    methods.push(m);
                                    assert(methods@.map_values(|m: &DocItem| *m) =~= mb.map_values(|m: &DocItem| *m).push(*m));
                                }
                            },
                            None => {},
                        }
                        k += 1;
                    }
                    assert(items@.take(items.len() as int) =~= items@);
                    let ghost ms = public_functions(index@, items@);
                    if methods.len() > 0 {
                        let h = heading_exec(depth, 3);
                        append(out, &h);
                        append_str(out, " Methods\n\n");
                        let ghost mid = out@;
                        let mut j: usize = 0;
                        assert(ms.take(0) =~= Seq::<DocItem>::empty());
                        assert(mid + method_details(ms.take(0)) =~= mid);
                        while j < methods.len()
                            invariant
                                j <= methods@.len(),
                                methods@.map_values(|m: &DocItem| *m) == ms,
                                out@ == mid + method_details(ms.take(j as int)),
                            decreases methods.len() - j,
                        {
                            assert(ms.take(j + 1).drop_last() =~= ms.take(j as int));
                            assert(ms.take(j + 1).last() == *methods@[j as int]);
                            method_detail_exec(methods[j], out);
                            j += 1;
                        }
                        assert(ms.take(methods.len() as int) =~= ms);
                    }
                },
                _ => {},
            },
            None => {},
        }
        i += 1;
    }
    assert(impls@.take(impls.len() as int) =~= impls@);
}


fn heading_exec(depth: usize, extra: usize) -> (r: Vec<char>)
    requires
        extra <= 3,
    ensures
        r@ == hashes((depth + extra) as nat),
{
    let level = if depth < 6 { depth + extra } else { 6 };
    let r = hashes_exec(level);
    assert(r@ =~= hashes((depth + extra) as nat));
    r
}

fn vec_contains_u32(v: &Vec<u32>, x: u32) -> (r: bool)
    ensures
        r == v@.contains(x),
{
    let mut i: usize = 0;
    while i < v.len()
        invariant
            i <= v.len(),
            forall|k: int| 0 <= k < i ==> v@[k] != x,
        decreases v.len() - i,
    {
        if v[i] == x {
            return true;
        }
        i += 1;
    }
    false
}

fn render_items_exec(
    index: &Vec<(u32, DocItem)>,
    ids: &Vec<u32>,
    parent: &Vec<char>,
    crate_dir: &Vec<char>,
    depth: usize,
    stack: &mut Vec<u32>,
    out: &mut Vec<char>,
)
    requires
        old(stack)@.len() <= index@.len(),
        old(stack)@.len() == depth + 1,
    ensures
        final(stack)@ == old(stack)@,
        final(out)@ == old(out)@ + render_items(index@, ids@, parent@, crate_dir@, depth as nat, old(stack)@),
    decreases index@.len() - old(stack)@.len(), 1int,
{
    let mut i: usize = 0;
    assert(ids@.take(0) =~= Seq::<u32>::empty());
    assert(old(out)@ + render_items(index@, ids@.take(0), parent@, crate_dir@, depth as nat, stack@) =~= old(out)@);
    while i < ids.len()
        invariant
            i <= ids@.len(),
            stack@ == old(stack)@,
            stack@.len() <= index@.len(),
            stack@.len() == depth + 1,
            out@ == old(out)@ + render_items(index@, ids@.take(i as int), parent@, crate_dir@, depth as nat, stack@),
        decreases ids.len() - i,
    {
        assert(ids@.take(i + 1).drop_last() =~= ids@.take(i as int));
        assert(ids@.take(i + 1).last() == ids@[i as int]);
        render_item_exec(index, ids[i], parent, crate_dir, depth, stack, out);
        i += 1;
    }
    assert(ids@.take(ids.len() as int) =~= ids@);
}

fn render_item_exec(
    index: &Vec<(u32, DocItem)>,
    id: u32,
    parent: &Vec<char>,
    crate_dir: &Vec<char>,
    depth: usize,
    stack: &mut Vec<u32>,
    out: &mut Vec<char>,
)
    requires
        old(stack)@.len() <= index@.len(),
        old(stack)@.len() == depth + 1,
    ensures
        final(stack)@ == old(stack)@,
        final(out)@ == old(out)@ + render_item(index@, id, parent@, crate_dir@, depth as nat, old(stack)@),
    decreases index@.len() - old(stack)@.len(), 0int,
{
    let item = match lookup_exec(index, id) {
        Some(it) => it,
        None => return,
    };
    if !item.public {
        return;
    }
    let name = match &item.name {
        Some(n) => to_chars(n.as_str()),
        None => {
            match &item.inner {
                DocInner::Impl { trait_path: Some(tp), items } => {
                    if items.len() > 0 {
                        let mut t = to_chars("#### impl `");
                        append_str(&mut t, tp.as_str());
                        append_str(&mut t, "` for `");
                        append(&mut t, parent);
                        append_str(&mut t, "`\n");
                        match &item.docs {
                            Some(d) => {
                                let dv = to_chars(d.as_str());
                                if dv.len() > 0 {
                                    append_str(&mut t, "\n");
                                    append(&mut t, &dv);
                                    append_str(&mut t, "\n");
                                }
                            },
                            None => {},
                        }
                        member_lines_exec(index, items, true, &mut t);
                        append_str(&mut t, "\n");
                        append(out, &t);
                    }
                },
                _ => {},
            }
            return;
        },
    };
    let mut t = heading_exec(depth, 2);
    match &item.inner {
        DocInner::Module { items } => {
            append_str(&mut t, " mod `");
            append(&mut t, &name);
            append_str(&mut t, "`\n\n");
            let d = docs_exec(&item.docs);
            append(&mut t, &d);
            append(out, &t);
            if !vec_contains_u32(stack, id) && stack.len() < index.len() {
                let mut path = parent.clone();
                append_str(&mut path, "::");
                append(&mut path, &name);
                stack.push(id);
                render_items_exec(index, items, &path, crate_dir, depth + 1, stack, out);
                stack.pop();
                assert(stack@ =~= old(stack)@);
            }
            return;
        },
        DocInner::Function(f) => {
            append_str(&mut t, " `");
            let sig = fn_sig_exec(&name, f);
            append(&mut t, &sig);
            append_str(&mut t, "`\n");
        },
        DocInner::Struct { generics, impls } => {
            append_str(&mut t, " struct `");
            append(&mut t, &name);
            let g = generics_exec(generics);
            append(&mut t, &g);
            append_str(&mut t, "`\n");
        },
        DocInner::Enum { generics, variants } => {
            append_str(&mut t, " enum `");
            append(&mut t, &name);
            let g = generics_exec(generics);
            append(&mut t, &g);
            append_str(&mut t, "`\n");
        },
        DocInner::Trait { generics, items } => {
            append_str(&mut t, " trait `");
            append(&mut t, &name);
            let g = generics_exec(generics);
            append(&mut t, &g);
            append_str(&mut t, "`\n");
        },
        DocInner::TypeAlias { generics, ty } => {
            append_str(&mut t, " type `");
            append(&mut t, &name);
            let g = generics_exec(generics);
            append(&mut t, &g);
            append_str(&mut t, " = ");
            let tt = render_type_brief(ty);
            append(&mut t, &tt);
            append_str(&mut t, "`\n");
        },
        DocInner::Constant { value } => {
            append_str(&mut t, " const `");
            append(&mut t, &name);
            match value {
                Some(v) => {
                    append_str(&mut t, " = ");
                    append_str(&mut t, v.as_str());
                },
                None => {},
            }
            append_str(&mut t, "`\n");
        },
        DocInner::Macro => {
            append_str(&mut t, " macro `");
            append(&mut t, &name);
            append_str(&mut t, "!`\n");
        },
        DocInner::Static { ty, is_mutable } => {
            append_str(&mut t, " static `");
            if *is_mutable {
                append_str(&mut t, "mut ");
            }
            append(&mut t, &name);
            append_str(&mut t, ": ");
            let tt = render_type_brief(ty);
            append(&mut t, &tt);
            append_str(&mut t, "`\n");
        },
        DocInner::Union { generics, impls } => {
            append_str(&mut t, " union `");
            append(&mut t, &name);
            let g = generics_exec(generics);
            append(&mut t, &g);
            append_str(&mut t, "`\n");
        },
        DocInner::TraitAlias { generics } => {
            append_str(&mut t, " trait alias `");
            append(&mut t, &name);
            let g = generics_exec(generics);
            append(&mut t, &g);
            append_str(&mut t, "`\n");
        },
        DocInner::ProcMacro(kind) => {
            match kind {
                DocMacroKind::Bang => {
                    append_str(&mut t, " macro `");
                    append(&mut t, &name);
                    append_str(&mut t, "!`\n");
                },
                DocMacroKind::Attr => {
                    append_str(&mut t, " attribute macro `#[");
                    append(&mut t, &name);
                    append_str(&mut t, "]`\n");
                },
                DocMacroKind::Derive => {
                    append_str(&mut t, " derive macro `#[derive(");
                    append(&mut t, &name);
                    append_str(&mut t, ")]`\n");
                },
            }
        },
        DocInner::Use { source, is_glob } => {
            let mut u = to_chars("- pub use ");
            append_str(&mut u, source.as_str());
            if *is_glob {
                append_str(&mut u, "::*");
            }
            append_str(&mut u, "\n");
            append(out, &u);
            return;
        },
        _ => {
            return;
        },
    }
    let link = source_link_exec(item, crate_dir);
    append(&mut t, &link);
    let d = docs_exec(&item.docs);
    append(&mut t, &d);
    match &item.inner {
        DocInner::Struct { generics, impls } => {
            struct_methods_exec(index, impls, depth, &mut t);
        },
        DocInner::Union { generics, impls } => {
            struct_methods_exec(index, impls, depth, &mut t);
        },
        DocInner::Enum { generics, variants } => {
            variant_lines_exec(index, variants, &mut t);
            append_str(&mut t, "\n");
        },
        DocInner::Trait { generics, items } => {
            member_lines_exec(index, items, false, &mut t);
            append_str(&mut t, "\n");
        },
        _ => {},
    }
    append(out, &t);
}

/// The markdown documentation of a crate from its rustdoc description.
pub fn render_crate(krate: &DocCrate, crate_name: &str, crate_dir: &str) -> (r: String)
    requires
        lookup(krate.index@, krate.root) is Some,
    ensures
        r@ == spec_render_crate(*krate, crate_name@, crate_dir@),
{
    let root = match lookup_exec(&krate.index, krate.root) {
        Some(it) => it,
        None => return String::new(),
    };
    let name = to_chars(crate_name);
    let dir = to_chars(crate_dir);
    let mut out: Vec<char> = Vec::new();
    match &root.docs {
        Some(d) => {
            let dv = to_chars(d.as_str());
            if dv.len() > 0 {
                append(&mut out, &dv);
                append_str(&mut out, "\n");
                append_str(&mut out, "\n---\n\n");
            }
        },
        None => {},
    }
    let ghost head = out@;
    match &root.inner {
        DocInner::Module { items } => {
            let mut stack: Vec<u32> = Vec::new();
            stack.push(krate.root);
            assert(stack@ =~= seq![krate.root]);
            assert(krate.index@.len() > 0);
            render_items_exec(&krate.index, items, &name, &dir, 0, &mut stack, &mut out);
        },
        _ => {},
    }
    append_str(&mut out, "\nHint: Use `cargo read ");
    append_str(&mut out, crate_name);
    append_str(&mut out, "` for README, `cargo read --api ");
    append_str(&mut out, crate_name);
    append_str(&mut out, "` for quick API overview.\n");
    from_chars(&out)
}


/// Where `cargo rustdoc` writes a crate's JSON: `target/doc/{name}.json` under
/// the crate directory, with `-` in the name written as `_`.
pub fn rustdoc_json_path(crate_dir: &str, crate_name: &str) -> (r: String)
    ensures
        r@ == crate::paths::path_join(
            crate::paths::path_join(crate_dir@, "target/doc"@),
            crate::api_scan::crate_module_name(crate_name@) + ".json"@,
        ),
{
    let dir = to_chars(crate_dir);
    let sub = to_chars("target/doc");
    let docdir = crate::paths::path_join_chars(&dir, &sub);
    let name = to_chars(crate_name);
    let mut file = crate::api_scan::crate_module_name_chars(&name);
    append_str(&mut file, ".json");
    from_chars(&crate::paths::path_join_chars(&docdir, &file))
}

} // verus!
