//! The type descriptor model: inert data describing the shape of types.
use vstd::prelude::*;

verus! {

/// An identifier of the target language, written out as it is.
pub struct Ident(pub String);

/// A documentation block, one string per line.
pub struct Docs(pub Vec<String>);

/// A name with its namespace path and generic arguments.
pub struct TypeName {
    pub docs: Option<Docs>,
    pub path: Vec<Ident>,
    pub name: Ident,
    pub generics: Vec<TypeExpr>,
}

/// A type with exactly one inhabitant: the given string.
pub struct TypeString {
    pub docs: Option<Docs>,
    pub value: String,
}

pub struct Tuple {
    pub docs: Option<Docs>,
    pub elements: Vec<TypeExpr>,
}

pub struct ObjectField {
    pub docs: Option<Docs>,
    pub name: Ident,
    pub optional: bool,
    pub ty: TypeExpr,
}

pub struct Object {
    pub docs: Option<Docs>,
    pub fields: Vec<ObjectField>,
}

pub struct Array {
    pub docs: Option<Docs>,
    pub item: Box<TypeExpr>,
}

pub struct Union {
    pub docs: Option<Docs>,
    pub members: Vec<TypeExpr>,
}

pub struct Intersection {
    pub docs: Option<Docs>,
    pub members: Vec<TypeExpr>,
}

/// A type expression. `Ref` names another type of the arena by its index;
/// every other variant is structural.
///
/// A native type's definition, and the generic arguments of a defined
/// type's name, may only refer to types listed before that type in the
/// arena; a reference that breaks this, or points outside the arena,
/// renders nothing. A declaration's body may refer to any type.
pub enum TypeExpr {
    Ref(usize),
    Name(TypeName),
    String(TypeString),
    Tuple(Tuple),
    Object(Object),
    Array(Array),
    Union(Union),
    Intersection(Intersection),
}

/// A type that renders itself inline through `def` and is never declared.
pub struct NativeTypeInfo {
    pub def: TypeExpr,
}

/// A type that is declared once, as `name`, with body `def`.
pub struct DefinedTypeInfo {
    pub docs: Option<Docs>,
    pub name: TypeName,
    pub def: TypeExpr,
}

pub enum TypeInfo {
    Native(NativeTypeInfo),
    Defined(DefinedTypeInfo),
}

/// One type of the arena: its descriptor and the indices of the types it
/// depends on, in order.
pub struct TypeDef {
    pub info: TypeInfo,
    pub deps: Vec<usize>,
}

/// Options of `write_definition_file`.
pub struct DefinitionFileOptions {
    /// Lines of a comment placed at the start of the output, or none.
    pub header: Option<Vec<String>>,
    /// The namespace that holds every declaration.
    pub root_namespace: String,
}

/// Statistics about one emission run.
pub struct Stats {
    /// The number of type declarations produced.
    pub type_definitions: usize,
}

impl Default for Stats {
    fn default() -> (r: Stats)
        ensures
            r.type_definitions == 0,
    {
        Stats { type_definitions: 0 }
    }
}

pub open spec fn default_header_text() -> Seq<char> {
    "AUTO-GENERATED by typescript-type-def"@
}

impl Default for DefinitionFileOptions {
    fn default() -> (r: DefinitionFileOptions)
        ensures
            r.header matches Some(h) && h@.len() == 1 && h@[0]@ == default_header_text(),
            r.root_namespace@ == "types"@,
    {
        let mut lines: Vec<String> = Vec::new();
        lines.push(String::from_str("AUTO-GENERATED by typescript-type-def"));
        DefinitionFileOptions {
            header: Some(lines),
            root_namespace: String::from_str("types"),
        }
    }
}

} // verus!
