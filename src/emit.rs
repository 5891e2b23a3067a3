//! Rendering of descriptors into text, and the emission context.
use vstd::prelude::*;
use crate::model::{
    DefinedTypeInfo, DefinitionFileOptions, Docs, Ident, ObjectField, Stats, TypeDef, TypeExpr, TypeInfo, TypeName,
};
use crate::text::{
    docs_text, dotted_text, expr_text, field_text, fields_text, lines_text, list_text,
    name_tail_text, name_text, path_text, quoted, decl_text, is_defined,
};
use crate::walk::{
    count_defined, count_unvisited, decls_text, lemma_count_all_false,
    lemma_count_defined_le, lemma_count_update, lemma_decls_append, lemma_visit, lemma_visit_list,
    visit, visit_list, walk_order,
};

verus! {

fn emit_docs(out: &mut String, docs: &Option<Docs>)
    ensures
        final(out)@ == old(out)@ + docs_text(*docs),
{
    if let Some(d) = docs {
        out.append("\n/**\n");
        let lines = &d.0;
        let mut i: usize = 0;
        while i < lines.len()
            invariant
                i <= lines@.len(),
                out@ == old(out)@ + "\n/**\n"@ + lines_text(lines@.subrange(0, i as int)),
            decreases lines@.len() - i,
        {
            out.append(" * ");
            out.append(lines[i].as_str());
            out.append("\n");
            assert(lines@.subrange(0, i + 1).drop_last() =~= lines@.subrange(0, i as int));
            i = i + 1;
        }
        assert(lines@.subrange(0, lines@.len() as int) =~= lines@);
        out.append(" */\n");
        assert(out@ =~= old(out)@ + docs_text(*docs));
    }
}

fn emit_path(out: &mut String, path: &Vec<Ident>)
    ensures
        final(out)@ == old(out)@ + path_text(path@),
{
    let mut i: usize = 0;
    while i < path.len()
        invariant
            i <= path@.len(),
            out@ == old(out)@ + path_text(path@.subrange(0, i as int)),
        decreases path@.len() - i,
    {
        out.append(path[i].0.as_str());
        out.append(".");
        assert(path@.subrange(0, i + 1).drop_last() =~= path@.subrange(0, i as int));
        i = i + 1;
    }
    assert(path@.subrange(0, path@.len() as int) =~= path@);
}

fn emit_dotted(out: &mut String, path: &Vec<Ident>)
    ensures
        final(out)@ == old(out)@ + dotted_text(path@),
{
    let mut i: usize = 0;
    while i < path.len()
        invariant
            i <= path@.len(),
            out@ == old(out)@ + dotted_text(path@.subrange(0, i as int)),
        decreases path@.len() - i,
    {
        if i > 0 {
            out.append(".");
        }
        out.append(path[i].0.as_str());
        assert(path@.subrange(0, i + 1).drop_last() =~= path@.subrange(0, i as int));
        assert(out@ =~= old(out)@ + dotted_text(path@.subrange(0, i + 1)));
        i = i + 1;
    }
    assert(path@.subrange(0, path@.len() as int) =~= path@);
}

fn emit_expr(out: &mut String, types: &Vec<TypeDef>, ns: &str, e: &TypeExpr, bound: usize)
    ensures
        final(out)@ == old(out)@ + expr_text(types@, ns@, *e, bound as nat),
    decreases bound, *e, 0nat,
{
    match e {
        TypeExpr::Ref(j) => {
            let j = *j;
            if j < types.len() && j < bound {
                match &types[j].info {
                    TypeInfo::Native(n) => {
                        emit_expr(out, types, ns, &n.def, j);
                    },
                    TypeInfo::Defined(d) => {
                        out.append(ns);
                        out.append(".");
                        emit_name(out, types, ns, &d.name, j);
                    },
                }
            }
        },
        TypeExpr::Name(n) => {
            emit_name(out, types, ns, n, bound);
        },
        TypeExpr::String(s) => {
            emit_docs(out, &s.docs);
            let q = quoted(s.value.as_str());
            out.append(q.as_str());
        },
        TypeExpr::Tuple(t) => {
            emit_docs(out, &t.docs);
            out.append("[");
            emit_list(out, types, ns, &t.elements, ",", bound);
            out.append("]");
        },
        TypeExpr::Object(o) => {
            emit_docs(out, &o.docs);
            out.append("{");
            emit_fields(out, types, ns, &o.fields, bound);
            out.append("}");
        },
        TypeExpr::Array(a) => {
            emit_docs(out, &a.docs);
            out.append("(");
            emit_expr(out, types, ns, &a.item, bound);
            out.append(")[]");
        },
        TypeExpr::Union(u) => {
            emit_docs(out, &u.docs);
            if u.members.len() == 0 {
                out.append("never");
            } else {
                out.append("(");
                emit_list(out, types, ns, &u.members, "|", bound);
                out.append(")");
            }
        },
        TypeExpr::Intersection(u) => {
            emit_docs(out, &u.docs);
            if u.members.len() == 0 {
                out.append("any");
            } else {
                out.append("(");
                emit_list(out, types, ns, &u.members, "&", bound);
                out.append(")");
            }
        },
    }
    assert(out@ =~= old(out)@ + expr_text(types@, ns@, *e, bound as nat));
}

fn emit_name(out: &mut String, types: &Vec<TypeDef>, ns: &str, n: &TypeName, bound: usize)
    ensures
        final(out)@ == old(out)@ + name_text(types@, ns@, *n, bound as nat),
    decreases bound, *n, 0nat,
{
    emit_docs(out, &n.docs);
    emit_path(out, &n.path);
    emit_name_tail(out, types, ns, &n.name, &n.generics, bound);
    assert(out@ =~= old(out)@ + name_text(types@, ns@, *n, bound as nat));
}

fn emit_name_tail(
    out: &mut String,
    types: &Vec<TypeDef>,
    ns: &str,
    name: &Ident,
    generics: &Vec<TypeExpr>,
    bound: usize,
)
    ensures
        final(out)@ == old(out)@ + name_tail_text(types@, ns@, *name, generics@, bound as nat),
    decreases bound, generics@, 1nat,
{
    out.append(name.0.as_str());
    if generics.len() > 0 {
        out.append("<");
        emit_list(out, types, ns, generics, ",", bound);
        out.append(">");
    }
    assert(out@ =~= old(out)@ + name_tail_text(types@, ns@, *name, generics@, bound as nat));
}

fn emit_list(
    out: &mut String,
    types: &Vec<TypeDef>,
    ns: &str,
    es: &Vec<TypeExpr>,
    sep: &str,
    bound: usize,
)
    ensures
        final(out)@ == old(out)@ + list_text(types@, ns@, es@, sep@, bound as nat),
    decreases bound, es@, 0nat,
{
    let mut i: usize = 0;
    while i < es.len()
        invariant
            i <= es@.len(),
            out@ == old(out)@ + list_text(types@, ns@, es@.subrange(0, i as int), sep@, bound as nat),
        decreases es@.len() - i,
    {
        if i > 0 {
            out.append(sep);
        }
        emit_expr(out, types, ns, &es[i], bound);
        let ghost pre = es@.subrange(0, i + 1);
        assert(pre.drop_last() =~= es@.subrange(0, i as int));
        assert(pre.last() == es@[i as int]);
        assert(out@ =~= old(out)@ + list_text(types@, ns@, pre, sep@, bound as nat));
        i = i + 1;
    }
    assert(es@.subrange(0, es@.len() as int) =~= es@);
}

fn emit_field(out: &mut String, types: &Vec<TypeDef>, ns: &str, f: &ObjectField, bound: usize)
    ensures
        final(out)@ == old(out)@ + field_text(types@, ns@, *f, bound as nat),
    decreases bound, *f, 0nat,
{
    emit_docs(out, &f.docs);
    out.append(f.name.0.as_str());
    if f.optional {
        out.append("?");
    }
    out.append(":");
    emit_expr(out, types, ns, &f.ty, bound);
    out.append(";");
    assert(out@ =~= old(out)@ + field_text(types@, ns@, *f, bound as nat));
}

fn emit_fields(out: &mut String, types: &Vec<TypeDef>, ns: &str, fs: &Vec<ObjectField>, bound: usize)
    ensures
        final(out)@ == old(out)@ + fields_text(types@, ns@, fs@, bound as nat),
    decreases bound, fs@, 0nat,
{
    let mut i: usize = 0;
    while i < fs.len()
        invariant
            i <= fs@.len(),
            out@ == old(out)@ + fields_text(types@, ns@, fs@.subrange(0, i as int), bound as nat),
        decreases fs@.len() - i,
    {
        emit_field(out, types, ns, &fs[i], bound);
        let ghost pre = fs@.subrange(0, i + 1);
        assert(pre.drop_last() =~= fs@.subrange(0, i as int));
        assert(out@ =~= old(out)@ + fields_text(types@, ns@, pre, bound as nat));
        i = i + 1;
    }
    assert(fs@.subrange(0, fs@.len() as int) =~= fs@);
}

fn emit_decl(out: &mut String, types: &Vec<TypeDef>, ns: &str, d: &DefinedTypeInfo, i: usize)
    requires
        i < types@.len(),
        types@[i as int].info == TypeInfo::Defined(*d),
    ensures
        final(out)@ == old(out)@ + decl_text(types@, ns@, i as int),
{
    emit_docs(out, &d.docs);
    if d.name.path.len() > 0 {
        out.append("export namespace ");
        emit_dotted(out, &d.name.path);
        out.append("{");
    }
    out.append("export type ");
    emit_docs(out, &d.name.docs);
    emit_name_tail(out, types, ns, &d.name.name, &d.name.generics, i);
    out.append("=");
    emit_expr(out, types, ns, &d.def, types.len());
    out.append(";");
    if d.name.path.len() > 0 {
        out.append("}");
    }
    out.append("\n");
    assert(out@ =~= old(out)@ + decl_text(types@, ns@, i as int));
}

/// The lines of the header, each as a `//` comment, then a blank line.
pub open spec fn header_lines_text(lines: Seq<String>) -> Seq<char>
    decreases lines.len(),
{
    if lines.len() == 0 {
        Seq::empty()
    } else {
        header_lines_text(lines.drop_last()) + "// "@ + lines.last()@ + "\n"@
    }
}

pub open spec fn header_text(header: Option<Vec<String>>) -> Seq<char> {
    match header {
        None => Seq::empty(),
        Some(lines) => header_lines_text(lines@) + "\n"@,
    }
}

/// The whole module emitted for `root`: the header, the default export of
/// the root namespace, and the root namespace holding every declaration of
/// the walk from `root`.
pub open spec fn file_text(types: Seq<TypeDef>, root: int, options: DefinitionFileOptions) -> Seq<
    char,
> {
    let ns = options.root_namespace@;
    header_text(options.header) + "export default "@ + ns + ";\n"@ + "export namespace "@ + ns
        + "{\n"@ + decls_text(types, ns, walk_order(types, root)) + "}\n"@
}

/// The state of one emission run: the output so far, the options, which
/// types have been visited (by index) and the statistics.
pub struct EmitCtx {
    pub out: String,
    pub options: DefinitionFileOptions,
    pub visited: Vec<bool>,
    pub stats: Stats,
}

impl EmitCtx {
    /// A fresh run over an arena of `n_types` types: empty output, nothing
    /// visited, nothing counted.
    pub fn new(n_types: usize, options: DefinitionFileOptions) -> (r: EmitCtx)
        ensures
            r.out@ == Seq::<char>::empty(),
            r.options == options,
            r.visited@ == Seq::new(n_types as nat, |j: int| false),
            r.stats.type_definitions == 0,
    {
        let mut visited: Vec<bool> = Vec::new();
        let mut i: usize = 0;
        while i < n_types
            invariant
                i <= n_types,
                visited@ == Seq::new(i as nat, |j: int| false),
            decreases n_types - i,
        {
            visited.push(false);
            i = i + 1;
            assert(visited@ =~= Seq::new(i as nat, |j: int| false));
        }
        EmitCtx { out: String::new(), options, visited, stats: Stats { type_definitions: 0 } }
    }

    /// Visits type `i` and, through it, its dependency closure: each type not
    /// visited before is marked, its dependencies are visited in order, and
    /// its declaration is emitted after theirs.
    pub fn emit_type(&mut self, types: &Vec<TypeDef>, i: usize)
        requires
            old(self).visited@.len() == types@.len(),
            old(self).stats.type_definitions + count_unvisited(old(self).visited@) <= types@.len(),
        ensures
            final(self).visited@ == visit(types@, old(self).visited@, i as int).0,
            final(self).out@ == old(self).out@ + decls_text(
                types@,
                old(self).options.root_namespace@,
                visit(types@, old(self).visited@, i as int).1,
            ),
            final(self).stats.type_definitions == old(self).stats.type_definitions + count_defined(
                types@,
                visit(types@, old(self).visited@, i as int).1,
            ),
            final(self).stats.type_definitions + count_unvisited(final(self).visited@)
                <= old(self).stats.type_definitions + count_unvisited(old(self).visited@),
            final(self).options == old(self).options,
        decreases count_unvisited(self.visited@), 0nat, 0int,
    {
        proof {
            lemma_visit(types@, self.visited@, i as int);
        }
        if i < self.visited.len() && !self.visited[i] {
            let ghost vis0 = self.visited@;
            let ghost out0 = self.out@;
            let ghost s0 = self.stats.type_definitions;
            proof {
                lemma_count_update(vis0, i as int);
            }
            self.visited.set(i, true);
            assert(self.visited@ == vis0.update(i as int, true));
            let ghost v1 = self.visited@;
            let ghost ns = self.options.root_namespace@;
            proof {
                lemma_visit_list(types@, v1, types@[i as int].deps@, 0);
            }
            self.emit_deps(types, &types[i].deps, 0);
            let ghost o = visit_list(types@, v1, types@[i as int].deps@, 0).1;
            proof {
                lemma_count_defined_le(types@, o);
            }
            self.emit_def(types, i);
            proof {
                assert(o.push(i as int).drop_last() =~= o);
                assert(o.push(i as int).last() == i as int);
            }
            assert(self.out@ =~= out0 + decls_text(types@, ns, o.push(i as int)));
        }
    }

    /// Visits the dependencies `ds[k..]` in order.
    fn emit_deps(&mut self, types: &Vec<TypeDef>, ds: &Vec<usize>, k: usize)
        requires
            old(self).visited@.len() == types@.len(),
            old(self).stats.type_definitions + count_unvisited(old(self).visited@) < types@.len(),
        ensures
            final(self).visited@ == visit_list(types@, old(self).visited@, ds@, k as int).0,
            final(self).out@ == old(self).out@ + decls_text(
                types@,
                old(self).options.root_namespace@,
                visit_list(types@, old(self).visited@, ds@, k as int).1,
            ),
            final(self).stats.type_definitions == old(self).stats.type_definitions + count_defined(
                types@,
                visit_list(types@, old(self).visited@, ds@, k as int).1,
            ),
            final(self).stats.type_definitions + count_unvisited(final(self).visited@)
                <= old(self).stats.type_definitions + count_unvisited(old(self).visited@),
            final(self).options == old(self).options,
        decreases count_unvisited(self.visited@), 1nat, ds@.len() - k,
    {
        proof {
            lemma_visit_list(types@, self.visited@, ds@, k as int);
        }
        if k < ds.len() {
            let ghost vis0 = self.visited@;
            let ghost ns = self.options.root_namespace@;
            proof {
                lemma_visit(types@, vis0, ds@[k as int] as int);
            }
            self.emit_type(types, ds[k]);
            let ghost o1 = visit(types@, vis0, ds@[k as int] as int).1;
            let ghost v1 = self.visited@;
            self.emit_deps(types, ds, k + 1);
            let ghost o2 = visit_list(types@, v1, ds@, k + 1).1;
            proof {
                lemma_decls_append(types@, ns, o1, o2);
            }
        }
    }

    /// Emits the declaration of type `i`, and counts it, unless it is native.
    pub fn emit_def(&mut self, types: &Vec<TypeDef>, i: usize)
        requires
            i < types@.len(),
            old(self).stats.type_definitions < types@.len(),
        ensures
            final(self).out@ == old(self).out@ + decl_text(
                types@,
                old(self).options.root_namespace@,
                i as int,
            ),
            final(self).stats.type_definitions == old(self).stats.type_definitions + if is_defined(
                types@,
                i as int,
            ) {
                1int
            } else {
                0int
            },
            final(self).visited == old(self).visited,
            final(self).options == old(self).options,
    {
        match &types[i].info {
            TypeInfo::Native(_) => {},
            TypeInfo::Defined(d) => {
                let n = types.len();
                assert(self.stats.type_definitions < n);
                self.stats.type_definitions = self.stats.type_definitions + 1;
                emit_decl(&mut self.out, types, self.options.root_namespace.as_str(), d, i);
            },
        }
        assert(self.out@ =~= old(self).out@ + decl_text(
            types@,
            old(self).options.root_namespace@,
            i as int,
        ));
    }
}

/// Writes a TypeScript module with the declarations of type `root` and of
/// every type it transitively depends on, all under the root namespace of
/// `options`, which is also the default export of the module. Returns the
/// text and the number of declarations in it.
pub fn write_definition_file(types: &Vec<TypeDef>, root: usize, options: DefinitionFileOptions) -> (r: (String, Stats))
    ensures
        r.0@ == file_text(types@, root as int, options),
        r.1.type_definitions == count_defined(types@, walk_order(types@, root as int)),
{
    let mut ctx = EmitCtx::new(types.len(), options);
    proof {
        lemma_count_all_false(types@.len());
    }
    let mut text = String::new();
    if let Some(header) = &ctx.options.header {
        let mut i: usize = 0;
        while i < header.len()
            invariant
                i <= header@.len(),
                text@ == header_lines_text(header@.subrange(0, i as int)),
            decreases header@.len() - i,
        {
            text.append("// ");
            text.append(header[i].as_str());
            text.append("\n");
            assert(header@.subrange(0, i + 1).drop_last() =~= header@.subrange(0, i as int));
            i = i + 1;
        }
        assert(header@.subrange(0, header@.len() as int) =~= header@);
        text.append("\n");
    }
    text.append("export default ");
    text.append(ctx.options.root_namespace.as_str());
    text.append(";\n");
    text.append("export namespace ");
    text.append(ctx.options.root_namespace.as_str());
    text.append("{\n");
    ctx.emit_type(types, root);
    text.append(ctx.out.as_str());
    text.append("}\n");
    assert(text@ =~= file_text(types@, root as int, options));
    (text, ctx.stats)
}

} // verus!
