//! Which fields of a record type are named references.
//!
//! A record type declares its cross-references as fields of type
//! `NamedHandle<T>` or `Vec<NamedHandle<T>>`. This module classifies the fields
//! of a type declaration, given as a plain syntax tree, and lists the reference
//! fields in declaration order.
use vstd::prelude::*;

verus! {

/// One argument between the angle brackets of a path segment.
#[derive(Debug, PartialEq, Eq)]
pub enum GenericArgument {
    /// A type argument.
    Type(Type),
    /// A lifetime, a constant, a binding or a constraint, with its text.
    Other(String),
}

/// What follows the name of a path segment.
#[derive(Debug, PartialEq, Eq)]
pub enum PathArguments {
    /// Nothing, as in `String`.
    Empty,
    /// Arguments in angle brackets, as in `Vec<u8>`.
    AngleBracketed(Vec<GenericArgument>),
    /// Arguments in round brackets, as in `Fn(u8) -> u8`, with their text.
    Parenthesized(String),
}

/// A segment of a type path: a name and its arguments.
#[derive(Debug, PartialEq, Eq)]
pub struct PathSegment {
    pub ident: String,
    pub arguments: PathArguments,
}

/// The type of a field, as far as the classification reads it.
#[derive(Debug, PartialEq, Eq)]
pub enum Type {
    /// A path such as `std::vec::Vec<u8>`, segment by segment.
    Path(Vec<PathSegment>),
    /// Any other type: a reference, a tuple, an array and so on, with its text.
    Other(String),
}

/// A named field of a struct.
#[derive(Debug, PartialEq, Eq)]
pub struct Field {
    pub ident: String,
    pub ty: Type,
}

/// The fields of a struct.
#[derive(Debug, PartialEq, Eq)]
pub enum Fields {
    Named(Vec<Field>),
    Unnamed,
    Unit,
}

/// The body of a type declaration.
#[derive(Debug, PartialEq, Eq)]
pub enum Data {
    Struct(Fields),
    Enum,
    Union,
}

/// A type declaration that asks for the reference fields to be derived.
#[derive(Debug, PartialEq, Eq)]
pub struct DeriveInput {
    pub ident: String,
    pub data: Data,
}

/// The class of a field.
#[derive(Debug, PartialEq, Eq)]
pub enum SpecHandleField<'a> {
    /// A single named reference; `args` are the arguments of `NamedHandle`.
    NamedHandle { field_name: &'a String, args: &'a Vec<GenericArgument> },
    /// A list of named references; `args` are the arguments of the inner `NamedHandle`.
    NamedHandleVec { field_name: &'a String, args: &'a Vec<GenericArgument> },
    /// Not a reference field.
    OtherField,
}

/// The reference fields of a record type, in declaration order.
#[derive(Debug, PartialEq, Eq)]
pub struct HandleFields<'a> {
    /// The fields of type `NamedHandle<..>`.
    pub named_handle_fields: Vec<SpecHandleField<'a>>,
    /// The fields of type `Vec<NamedHandle<..>>`.
    pub named_handle_vecs: Vec<SpecHandleField<'a>>,
}

/// The arguments of `NamedHandle<..>`, if the type is a path whose first
/// segment is `NamedHandle` with arguments in angle brackets.
pub open spec fn named_handle_args(ty: Type) -> Option<Vec<GenericArgument>> {
    match ty {
        Type::Path(segments) => {
            if segments@.len() > 0 && segments@[0].ident@ == "NamedHandle"@ {
                match segments@[0].arguments {
                    PathArguments::AngleBracketed(args) => Some(args),
                    _ => None,
                }
            } else {
                None
            }
        },
        Type::Other(_) => None,
    }
}

/// The arguments of `Vec<..>`, if the type is a path whose first segment is
/// `Vec` with arguments in angle brackets.
pub open spec fn vec_args(ty: Type) -> Option<Vec<GenericArgument>> {
    match ty {
        Type::Path(segments) => {
            if segments@.len() > 0 && segments@[0].ident@ == "Vec"@ {
                match segments@[0].arguments {
                    PathArguments::AngleBracketed(args) => Some(args),
                    _ => None,
                }
            } else {
                None
            }
        },
        Type::Other(_) => None,
    }
}

/// A field can be classified unless its type is a `Vec` with angle brackets
/// that hold no argument or more than one.
pub open spec fn classifiable(field: Field) -> bool {
    match vec_args(field.ty) {
        Some(args) => args@.len() == 1,
        None => true,
    }
}

/// The class of a field: decided by the first segment of its type path, and
/// for a `Vec` by the first segment of its only argument.
pub open spec fn field_class(field: &Field) -> SpecHandleField<'_> {
    match named_handle_args(field.ty) {
        Some(args) => SpecHandleField::NamedHandle { field_name: &field.ident, args: &args },
        None => match vec_args(field.ty) {
            Some(outer) => {
                if outer@.len() == 1 {
                    match outer@[0] {
                        GenericArgument::Type(inner) => match named_handle_args(inner) {
                            Some(args) => SpecHandleField::NamedHandleVec {
                                field_name: &field.ident,
                                args: &args,
                            },
                            None => SpecHandleField::OtherField,
                        },
                        GenericArgument::Other(_) => SpecHandleField::OtherField,
                    }
                } else {
                    SpecHandleField::OtherField
                }
            },
            None => SpecHandleField::OtherField,
        },
    }
}

fn first_segment_named<'a>(ty: &'a Type, name: &str) -> (r: Option<&'a PathSegment>)
    ensures
        match r {
            Some(seg) => ty matches Type::Path(segments) && segments@.len() > 0 && *seg
                == segments@[0] && seg.ident@ == name@,
            None => !(ty matches Type::Path(segments) && segments@.len() > 0 && segments@[0].ident@
                == name@),
        },
{
    match ty {
        Type::Path(segments) => {
            if segments.len() > 0 {
                let wanted = name.to_owned();
                if segments[0].ident == wanted {
                    Some(&segments[0])
                } else {
                    None
                }
            } else {
                None
            }
        },
        Type::Other(_) => None,
    }
}

fn angle_bracketed<'a>(seg: &'a PathSegment) -> (r: Option<&'a Vec<GenericArgument>>)
    ensures
        match r {
            Some(args) => seg.arguments == PathArguments::AngleBracketed(*args),
            None => !(seg.arguments is AngleBracketed),
        },
{
    match &seg.arguments {
        PathArguments::AngleBracketed(args) => Some(args),
        _ => None,
    }
}

/// Whether `parse_field` accepts the field.
pub fn is_classifiable(field: &Field) -> (r: bool)
    ensures
        r == classifiable(*field),
{
    match first_segment_named(&field.ty, "Vec") {
        Some(seg) => match angle_bracketed(seg) {
            Some(args) => args.len() == 1,
            None => true,
        },
        None => true,
    }
}

/// Classifies one field.
pub fn parse_field<'a>(field: &'a Field) -> (r: SpecHandleField<'a>)
    requires
        classifiable(*field),
    ensures
        r == field_class(field),
{
    proof {
        reveal_strlit("NamedHandle");
        reveal_strlit("Vec");
        assert("NamedHandle"@.len() != "Vec"@.len());
    }
    if let Some(seg) = first_segment_named(&field.ty, "NamedHandle") {
        return match angle_bracketed(seg) {
            Some(args) => SpecHandleField::NamedHandle { field_name: &field.ident, args },
            None => SpecHandleField::OtherField,
        };
    }
    if let Some(seg) = first_segment_named(&field.ty, "Vec") {
        if let Some(outer) = angle_bracketed(seg) {
            if let GenericArgument::Type(inner) = &outer[0] {
                if let Some(inner_seg) = first_segment_named(inner, "NamedHandle") {
                    if let Some(args) = angle_bracketed(inner_seg) {
                        return SpecHandleField::NamedHandleVec { field_name: &field.ident, args };
                    }
                }
            }
        }
    }
    SpecHandleField::OtherField
}

/// The named fields of the declared struct; none for any other declaration.
pub open spec fn declared_fields(input: &DeriveInput) -> Seq<Field> {
    match input.data {
        Data::Struct(Fields::Named(fields)) => fields@,
        _ => Seq::empty(),
    }
}

/// Every declared field can be classified.
pub open spec fn derivable(input: &DeriveInput) -> bool {
    forall|i: int| 0 <= i < declared_fields(input).len() ==> classifiable(#[trigger] declared_fields(input)[i])
}

/// The classes of the reference fields among `fields`, in order: the lists
/// where `lists` holds, the single references where it does not.
pub open spec fn reference_fields<'a>(fields: Seq<Field>, lists: bool) -> Seq<SpecHandleField<'a>>
    decreases fields.len(),
{
    if fields.len() == 0 {
        Seq::empty()
    } else {
        let before = reference_fields(fields.drop_last(), lists);
        match field_class(&fields.last()) {
            SpecHandleField::NamedHandle { field_name, args } => if lists {
                before
            } else {
                before.push(SpecHandleField::NamedHandle { field_name, args })
            },
            SpecHandleField::NamedHandleVec { field_name, args } => if lists {
                before.push(SpecHandleField::NamedHandleVec { field_name, args })
            } else {
                before
            },
            SpecHandleField::OtherField => before,
        }
    }
}

/// Whether `spec_derive` accepts the declaration.
pub fn is_derivable(ast: &DeriveInput) -> (r: bool)
    ensures
        r == derivable(ast),
{
    match &ast.data {
        Data::Struct(Fields::Named(fields)) => {
            let mut i: usize = 0;
            while i < fields.len()
                invariant
                    i <= fields.len(),
                    fields@ == declared_fields(ast),
                    forall|k: int| 0 <= k < i ==> classifiable(#[trigger] fields@[k]),
                decreases fields.len() - i,
            {
                if !is_classifiable(&fields[i]) {
                    assert(!classifiable(declared_fields(ast)[i as int]));
                    return false;
                }
                i += 1;
            }
            true
        },
        _ => true,
    }
}

/// Lists the reference fields of a declared record type: the single named
/// references and the lists of named references, each in declaration order.
/// A declaration that is not a struct with named fields has none.
pub fn spec_derive<'a>(ast: &'a DeriveInput) -> (r: HandleFields<'a>)
    requires
        derivable(ast),
    ensures
        r.named_handle_fields@ == reference_fields(declared_fields(ast), false),
        r.named_handle_vecs@ == reference_fields(declared_fields(ast), true),
{
    let mut named_handle_fields: Vec<SpecHandleField<'a>> = Vec::new();
    let mut named_handle_vecs: Vec<SpecHandleField<'a>> = Vec::new();
    if let Data::Struct(Fields::Named(fields)) = &ast.data {
        let mut i: usize = 0;
        while i < fields.len()
            invariant
                i <= fields.len(),
                fields@ == declared_fields(ast),
                derivable(ast),
                named_handle_fields@ == reference_fields(fields@.take(i as int), false),
                named_handle_vecs@ == reference_fields(fields@.take(i as int), true),
            decreases fields.len() - i,
        {
            proof {
                assert(fields@.take(i + 1).drop_last() == fields@.take(i as int));
                assert(fields@.take(i + 1).last() == fields@[i as int]);
                assert(classifiable(declared_fields(ast)[i as int]));
            }
            match parse_field(&fields[i]) {
                SpecHandleField::NamedHandle { field_name, args } => {
                    named_handle_fields.push(SpecHandleField::NamedHandle { field_name, args });
                },
                SpecHandleField::NamedHandleVec { field_name, args } => {
                    named_handle_vecs.push(SpecHandleField::NamedHandleVec { field_name, args });
                },
                SpecHandleField::OtherField => {},
            }
            i += 1;
        }
        proof {
            assert(fields@.take(fields@.len() as int) == fields@);
        }
    }
    HandleFields { named_handle_fields, named_handle_vecs }
}

} // verus!
