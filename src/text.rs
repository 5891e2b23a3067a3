//! What each descriptor renders to, as sequences of characters.
use vstd::prelude::*;
use crate::model::{Docs, Ident, ObjectField, TypeDef, TypeExpr, TypeInfo, TypeName};

verus! {

/// The text of a string as a quoted, escaped literal (`{:?}` of `str`).
pub uninterp spec fn quoted_of(s: Seq<char>) -> Seq<char>;

/// Relies on the `Debug` formatting of `str`: the string in double quotes,
/// with quotes, backslashes and control characters escaped.
#[verifier::external_body]
pub(crate) fn quoted(s: &str) -> (r: String)
    ensures
        r@ == quoted_of(s@),
{
    format!("{:?}", s)
}

pub open spec fn lines_text(lines: Seq<String>) -> Seq<char>
    decreases lines.len(),
{
    if lines.len() == 0 {
        Seq::empty()
    } else {
        lines_text(lines.drop_last()) + " * "@ + lines.last()@ + "\n"@
    }
}

pub open spec fn docs_text(docs: Option<Docs>) -> Seq<char> {
    match docs {
        None => Seq::empty(),
        Some(d) => "\n/**\n"@ + lines_text(d.0@) + " */\n"@,
    }
}

/// Each path segment followed by a dot.
pub open spec fn path_text(path: Seq<Ident>) -> Seq<char>
    decreases path.len(),
{
    if path.len() == 0 {
        Seq::empty()
    } else {
        path_text(path.drop_last()) + path.last().0@ + "."@
    }
}

/// Path segments separated by dots.
pub open spec fn dotted_text(path: Seq<Ident>) -> Seq<char>
    decreases path.len(),
{
    if path.len() == 0 {
        Seq::empty()
    } else if path.len() == 1 {
        path[0].0@
    } else {
        dotted_text(path.drop_last()) + "."@ + path.last().0@
    }
}

pub open spec fn is_defined(types: Seq<TypeDef>, j: int) -> bool {
    0 <= j < types.len() && types[j].info is Defined
}

/// The text of a type expression, under root namespace `ns`.
///
/// A reference renders only when its index is below `bound`; what it renders
/// (a native definition, or a defined type's name with its generic
/// arguments) is then rendered with its own index as the bound. So native
/// definitions and generic arguments must refer to types listed before
/// them in the arena, which keeps them from unfolding into themselves.
/// A declaration's body may refer to any type of the arena.
pub open spec fn expr_text(types: Seq<TypeDef>, ns: Seq<char>, e: TypeExpr, bound: nat) -> Seq<char>
    decreases bound, e, 0nat,
{
    match e {
        TypeExpr::Ref(j) => {
            if j < types.len() && j < bound {
                match types[j as int].info {
                    TypeInfo::Native(n) => expr_text(types, ns, n.def, j as nat),
                    TypeInfo::Defined(d) => ns + "."@ + name_text(types, ns, d.name, j as nat),
                }
            } else {
                Seq::empty()
            }
        },
        TypeExpr::Name(n) => name_text(types, ns, n, bound),
        TypeExpr::String(s) => docs_text(s.docs) + quoted_of(s.value@),
        TypeExpr::Tuple(t) => docs_text(t.docs) + "["@ + list_text(types, ns, t.elements@, ","@, bound)
            + "]"@,
        TypeExpr::Object(o) => docs_text(o.docs) + "{"@ + fields_text(types, ns, o.fields@, bound)
            + "}"@,
        TypeExpr::Array(a) => docs_text(a.docs) + "("@ + expr_text(types, ns, *a.item, bound)
            + ")[]"@,
        TypeExpr::Union(u) => docs_text(u.docs) + if u.members@.len() == 0 {
            "never"@
        } else {
            "("@ + list_text(types, ns, u.members@, "|"@, bound) + ")"@
        },
        TypeExpr::Intersection(u) => docs_text(u.docs) + if u.members@.len() == 0 {
            "any"@
        } else {
            "("@ + list_text(types, ns, u.members@, "&"@, bound) + ")"@
        },
    }
}

/// The name with its generic arguments, without docs or path.
pub open spec fn name_tail_text(
    types: Seq<TypeDef>,
    ns: Seq<char>,
    name: Ident,
    generics: Seq<TypeExpr>,
    bound: nat,
) -> Seq<char>
    decreases bound, generics, 1nat,
{
    name.0@ + if generics.len() == 0 {
        Seq::empty()
    } else {
        "<"@ + list_text(types, ns, generics, ","@, bound) + ">"@
    }
}

pub open spec fn name_text(types: Seq<TypeDef>, ns: Seq<char>, n: TypeName, bound: nat) -> Seq<char>
    decreases bound, n, 0nat,
{
    docs_text(n.docs) + path_text(n.path@) + name_tail_text(types, ns, n.name, n.generics@, bound)
}

/// The expressions, separated by `sep`.
pub open spec fn list_text(
    types: Seq<TypeDef>,
    ns: Seq<char>,
    es: Seq<TypeExpr>,
    sep: Seq<char>,
    bound: nat,
) -> Seq<char>
    decreases bound, es, 0nat,
{
    if es.len() == 0 {
        Seq::empty()
    } else if es.len() == 1 {
        expr_text(types, ns, es[0], bound)
    } else {
        list_text(types, ns, es.drop_last(), sep, bound) + sep + expr_text(types, ns, es.last(), bound)
    }
}

pub open spec fn field_text(types: Seq<TypeDef>, ns: Seq<char>, f: ObjectField, bound: nat) -> Seq<char>
    decreases bound, f, 0nat,
{
    docs_text(f.docs) + f.name.0@ + (if f.optional { "?"@ } else { Seq::empty() }) + ":"@
        + expr_text(types, ns, f.ty, bound) + ";"@
}

pub open spec fn fields_text(types: Seq<TypeDef>, ns: Seq<char>, fs: Seq<ObjectField>, bound: nat) -> Seq<char>
    decreases bound, fs, 0nat,
{
    if fs.len() == 0 {
        Seq::empty()
    } else {
        fields_text(types, ns, fs.drop_last(), bound) + field_text(types, ns, fs.last(), bound)
    }
}

/// The declaration of type `j`: nothing for a native type.
pub open spec fn decl_text(types: Seq<TypeDef>, ns: Seq<char>, j: int) -> Seq<char> {
    if 0 <= j < types.len() {
        match types[j].info {
            TypeInfo::Native(_) => Seq::empty(),
            TypeInfo::Defined(d) => {
                let nested = d.name.path@.len() > 0;
                docs_text(d.docs) + (if nested {
                    "export namespace "@ + dotted_text(d.name.path@) + "{"@
                } else {
                    Seq::empty()
                }) + "export type "@ + docs_text(d.name.docs) + name_tail_text(
                    types,
                    ns,
                    d.name.name,
                    d.name.generics@,
                    j as nat,
                ) + "="@ + expr_text(types, ns, d.def, types.len()) + ";"@ + (if nested {
                    "}"@
                } else {
                    Seq::empty()
                }) + "\n"@
            },
        }
    } else {
        Seq::empty()
    }
}

} // verus!
