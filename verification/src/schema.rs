use crate::error::EncodeError;
use vstd::prelude::*;

verus! {

/// The kinds of primitive type that a schema can declare.
#[derive(Clone, Copy, Debug, PartialEq, Eq, Structural)]
pub enum Kind {
    Null,
    Boolean,
    Int,
    Long,
    Float,
    Double,
    Bytes,
    String,
}

/// A declared type: a primitive, an ordered union of member types, or a
/// named record with ordered fields. The order of a union's members is
/// significant: it gives each member its branch index and its priority
/// when a value is matched against the union.
#[derive(Debug, PartialEq)]
pub enum TypeRef {
    Primitive(Kind),
    Union(Vec<TypeRef>),
    Record(String, Vec<Field>),
}

/// One named field of a record type.
#[derive(Debug, PartialEq)]
pub struct Field {
    pub name: String,
    pub ty: TypeRef,
}

/// The mathematical content of a [`TypeRef`].
pub enum Shape {
    Primitive(Kind),
    Union(Seq<Shape>),
    Record(Seq<char>, Seq<(Seq<char>, Shape)>),
}

/// The content of a declared type, member by member and field by field.
pub open spec fn shape_of(t: TypeRef) -> Shape
    decreases t,
{
    match t {
        TypeRef::Primitive(kind) => Shape::Primitive(kind),
        TypeRef::Union(members) => Shape::Union(
            Seq::new(
                members.len() as nat,
                |i: int|
                    if 0 <= i < members.len() {
                        shape_of(members[i])
                    } else {
                        Shape::Primitive(Kind::Null)
                    },
            ),
        ),
        TypeRef::Record(name, fields) => Shape::Record(
            name@,
            Seq::new(
                fields.len() as nat,
                |i: int|
                    if 0 <= i < fields.len() {
                        (fields[i].name@, shape_of(fields[i].ty))
                    } else {
                        (Seq::empty(), Shape::Primitive(Kind::Null))
                    },
            ),
        ),
    }
}

impl View for TypeRef {
    type V = Shape;

    open spec fn view(&self) -> Shape {
        shape_of(*self)
    }
}

impl View for Field {
    type V = (Seq<char>, Shape);

    open spec fn view(&self) -> (Seq<char>, Shape) {
        (self.name@, self.ty@)
    }
}

/// The shapes of a union's members.
pub open spec fn shapes_of(members: Vec<TypeRef>) -> Seq<Shape> {
    Seq::new(members.len() as nat, |i: int| members[i]@)
}

/// The names and shapes of a record's fields.
pub open spec fn fields_of(fields: Vec<Field>) -> Seq<(Seq<char>, Shape)> {
    Seq::new(fields.len() as nat, |i: int| fields[i]@)
}

/// The union of the primitives `first` and `second`, in that order.
pub open spec fn pair_of(first: Kind, second: Kind) -> Shape {
    Shape::Union(seq![Shape::Primitive(first), Shape::Primitive(second)])
}

/// A union type has the shapes of its members, in their order.
pub proof fn union_shape(t: TypeRef)
    requires
        t is Union,
    ensures
        t@ == Shape::Union(shapes_of(t->Union_0)),
{
    assert(t@->Union_0 =~= shapes_of(t->Union_0));
}

/// A record type has its name and the names and shapes of its fields, in
/// their order.
pub proof fn record_shape(t: TypeRef)
    requires
        t is Record,
    ensures
        t@ == Shape::Record(t->Record_0@, fields_of(t->Record_1)),
{
    assert(t@->Record_1 =~= fields_of(t->Record_1));
}

impl TypeRef {
    /// The union of `kind` and null, in that order: the usual type of a
    /// field that may be absent.
    pub fn nullable(kind: Kind) -> (t: TypeRef)
        ensures
            t@ == pair_of(kind, Kind::Null),
    {
        let mut ms: Vec<TypeRef> = Vec::new();
        ms.push(TypeRef::Primitive(kind));
        ms.push(TypeRef::Primitive(Kind::Null));
        let t = TypeRef::Union(ms);
        proof {
            union_shape(t);
            assert(shapes_of(ms) =~= seq![
                Shape::Primitive(kind),
                Shape::Primitive(Kind::Null),
            ]);
        }
        t
    }
}

/// A schema as it comes from outside, already parsed. Besides what a
/// [`TypeRef`] can say, it can name constructs that this library does not
/// support.
#[derive(Debug, PartialEq)]
pub enum Description {
    Primitive(Kind),
    Union(Vec<Description>),
    Record(String, Vec<DescribedField>),
    /// A reference to a named type, by its name.
    Reference(String),
    /// Any other construct (a logical type, an array, a map, an
    /// enumeration, a fixed), by its name.
    Other(String),
}

/// One named field of a described record.
#[derive(Debug, PartialEq)]
pub struct DescribedField {
    pub name: String,
    pub ty: Description,
}

/// The description holds primitives, unions and records only.
pub open spec fn supported(d: Description) -> bool
    decreases d,
{
    match d {
        Description::Primitive(_) => true,
        Description::Union(members) => forall|i: int|
            0 <= i < members.len() ==> supported(#[trigger] members[i]),
        Description::Record(_, fields) => forall|i: int|
            0 <= i < fields.len() ==> supported((#[trigger] fields[i]).ty),
        Description::Reference(_) => false,
        Description::Other(_) => false,
    }
}

/// The shape that a supported description describes: the same
/// primitives, members and fields, with the same names, in the same order.
pub open spec fn described(d: Description) -> Shape
    decreases d,
{
    match d {
        Description::Primitive(kind) => Shape::Primitive(kind),
        Description::Union(members) => Shape::Union(
            Seq::new(
                members.len() as nat,
                |i: int|
                    if 0 <= i < members.len() {
                        described(members[i])
                    } else {
                        Shape::Primitive(Kind::Null)
                    },
            ),
        ),
        Description::Record(name, fields) => Shape::Record(
            name@,
            Seq::new(
                fields.len() as nat,
                |i: int|
                    if 0 <= i < fields.len() {
                        (fields[i].name@, described(fields[i].ty))
                    } else {
                        (Seq::empty(), Shape::Primitive(Kind::Null))
                    },
            ),
        ),
        Description::Reference(_) => Shape::Primitive(Kind::Null),
        Description::Other(_) => Shape::Primitive(Kind::Null),
    }
}

impl Description {
    /// The type that this description describes, or `None` where it holds
    /// a construct that is not supported.
    pub fn to_type(&self) -> (result: Option<TypeRef>)
        ensures
            match result {
                Some(t) => supported(*self) && t@ == described(*self),
                None => !supported(*self),
            },
        decreases self,
    {
        match self {
            Description::Primitive(kind) => Some(TypeRef::Primitive(*kind)),
            Description::Union(members) => {
                let mut out: Vec<TypeRef> = Vec::new();
                let mut i: usize = 0;
                while i < members.len()
                    invariant
                        i <= members.len(),
                        out.len() == i,
                        *self matches Description::Union(ms) && ms == *members,
                        forall|j: int|
                            0 <= j < i ==> supported(#[trigger] members[j]) && out[j]@
                                == described(members[j]),
                    decreases members.len() - i,
                {
                    match members[i].to_type() {
                        Some(t) => {
                            out.push(t);
                        },
                        None => {
                            return None;
                        },
                    }
                    i = i + 1;
                }
                let t = TypeRef::Union(out);
                proof {
                    union_shape(t);
                    assert(shapes_of(out) =~= described(*self)->Union_0);
                }
                Some(t)
            },
            Description::Record(name, fields) => {
                let mut out: Vec<Field> = Vec::new();
                let mut i: usize = 0;
                while i < fields.len()
                    invariant
                        i <= fields.len(),
                        out.len() == i,
                        *self matches Description::Record(_, fs) && fs == *fields,
                        forall|j: int|
                            0 <= j < i ==> {
                                &&& supported((#[trigger] fields[j]).ty)
                                &&& fields[j].name@ == out[j].name@
                                &&& out[j].ty@ == described(fields[j].ty)
                            },
                    decreases fields.len() - i,
                {
                    match fields[i].ty.to_type() {
                        Some(t) => {
                            out.push(Field { name: fields[i].name.clone(), ty: t });
                        },
                        None => {
                            return None;
                        },
                    }
                    i = i + 1;
                }
                let t = TypeRef::Record(name.clone(), out);
                proof {
                    record_shape(t);
                    assert(fields_of(out) =~= described(*self)->Record_1);
                }
                Some(t)
            },
            Description::Reference(_) => None,
            Description::Other(_) => None,
        }
    }
}

/// A record schema, fixed once it is built.
#[derive(Debug, PartialEq)]
pub struct SchemaModel {
    root: TypeRef,
}

impl SchemaModel {
    /// The shape of the schema's top-level type.
    pub closed spec fn root(&self) -> Shape {
        self.root@
    }

    /// The top-level type is a record.
    #[verifier::type_invariant]
    spec fn top_is_record(self) -> bool {
        self.root is Record
    }


    /// Builds the schema that `description` describes. A description that
    /// is no record, or that holds an unsupported construct anywhere, is
    /// refused here, before anything is encoded.
    pub fn new(description: &Description) -> (result: Result<SchemaModel, EncodeError>)
        ensures
            match result {
                Ok(schema) => {
                    &&& *description is Record
                    &&& supported(*description)
                    &&& schema.root() == described(*description)
                },
                Err(e) => {
                    &&& e == EncodeError::SchemaConstruction
                    &&& !(*description is Record && supported(*description))
                },
            },
    {
        match description {
            Description::Record(_, _) => match description.to_type() {
                Some(root) => Ok(SchemaModel { root }),
                None => Err(EncodeError::SchemaConstruction),
            },
            _ => Err(EncodeError::SchemaConstruction),
        }
    }

    /// The top-level type, which is a record.
    pub fn type_ref(&self) -> (t: &TypeRef)
        ensures
            t@ == self.root(),
            *t is Record,
    {
        proof {
            use_type_invariant(self);
        }
        &self.root
    }

    /// The declared fields of the top-level record, in declared order.
    pub fn fields(&self) -> (fields: &Vec<Field>)
        ensures
            self.root() matches Shape::Record(_, fs) && fs == fields_of(*fields),
    {
        proof {
            use_type_invariant(self);
        }
        match &self.root {
            TypeRef::Record(_, fields) => {
                proof {
                    record_shape(self.root);
                }
                fields
            },
            _ => vstd::pervasive::unreached(),
        }
    }
}

} // verus!
