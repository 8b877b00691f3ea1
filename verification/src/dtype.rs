//! The native type tree that crosses the boundary.
//!
//! A closed recursive sum type over primitive leaves and parameterized
//! variants, together with a mathematical view used by every contract of the
//! bridge. The internal-only [`DataType::BinaryOffset`] variant must never be
//! handed to the boundary codecs; callers check with
//! [`DataType::boundary_safe`].
use vstd::prelude::*;

verus! {

/// Time resolution of a datetime or duration type.
#[derive(Clone, Copy, Debug, PartialEq, Eq, Structural)]
pub enum TimeUnit {
    Nanoseconds,
    Microseconds,
    Milliseconds,
}

impl TimeUnit {
    /// The fixed two-character textual code exchanged with the host.
    pub open spec fn code_spec(self) -> Seq<char> {
        match self {
            TimeUnit::Nanoseconds => "ns"@,
            TimeUnit::Microseconds => "us"@,
            TimeUnit::Milliseconds => "ms"@,
        }
    }

    /// Textual code for this time unit.
    pub fn code(self) -> (r: &'static str)
        ensures
            r@ == self.code_spec(),
    {
        match self {
            TimeUnit::Nanoseconds => "ns",
            TimeUnit::Microseconds => "us",
            TimeUnit::Milliseconds => "ms",
        }
    }
}

impl View for TimeUnit {
    type V = TimeUnit;

    open spec fn view(&self) -> TimeUnit {
        *self
    }
}

/// Ordering mode of a categorical or enumeration type.
#[derive(Clone, Copy, Debug, PartialEq, Eq, Structural)]
pub enum CategoricalOrdering {
    /// Order by the physical dictionary code.
    Physical,
    /// Order by the string value.
    Lexical,
}

impl CategoricalOrdering {
    /// The textual mode exchanged with the host.
    pub open spec fn mode_spec(self) -> Seq<char> {
        match self {
            CategoricalOrdering::Physical => "physical"@,
            CategoricalOrdering::Lexical => "lexical"@,
        }
    }

    /// Textual mode for this ordering.
    pub fn mode(self) -> (r: &'static str)
        ensures
            r@ == self.mode_spec(),
    {
        match self {
            CategoricalOrdering::Physical => "physical",
            CategoricalOrdering::Lexical => "lexical",
        }
    }
}

impl View for CategoricalOrdering {
    type V = CategoricalOrdering;

    open spec fn view(&self) -> CategoricalOrdering {
        *self
    }
}

/// A deferred placeholder carried by [`DataType::Unknown`], materialized into
/// a concrete minimal type before it is encoded for the host.
#[derive(Clone, Copy, Debug, PartialEq, Eq, Structural)]
pub enum UnknownKind {
    /// Nothing is known yet.
    Any,
    /// A dynamic integer literal; materializes into the smallest signed
    /// integer type that holds it.
    Int(i64),
    /// A dynamic float literal; materializes into the wide float type.
    Float,
    /// A dynamic string literal; materializes into the string type.
    Str,
}

/// Mathematical view of a [`Field`].
#[verifier::ext_equal]
pub struct FieldV {
    pub name: Seq<char>,
    pub dtype: DataTypeV,
}

/// Mathematical view of a [`DataType`].
#[verifier::ext_equal]
pub enum DataTypeV {
    Int8,
    Int16,
    Int32,
    Int64,
    UInt8,
    UInt16,
    UInt32,
    UInt64,
    Float32,
    Float64,
    Boolean,
    Utf8,
    Binary,
    /// Internal-only; never crosses the boundary.
    BinaryOffset,
    Date,
    Time,
    Datetime(TimeUnit, Option<Seq<char>>),
    Duration(TimeUnit),
    Decimal(Option<usize>, Option<usize>),
    Array(Box<DataTypeV>, usize),
    List(Box<DataTypeV>),
    Struct(Seq<FieldV>),
    Categorical(Option<Seq<Seq<char>>>, CategoricalOrdering),
    Enum(Seq<Seq<char>>, CategoricalOrdering),
    Object,
    Null,
    Unknown(UnknownKind),
}

/// One named sub-field of a struct type.
#[derive(Debug, PartialEq)]
pub struct Field {
    pub name: String,
    pub dtype: DataType,
}

/// The native data type of a column.
///
/// Primitive leaves plus parameterized recursive variants. Categorical and
/// enumeration types carry their reverse mapping as an ordered category
/// vector; for a categorical it is optional, for an enumeration it is always
/// present.
#[derive(Debug, PartialEq)]
pub enum DataType {
    Int8,
    Int16,
    Int32,
    Int64,
    UInt8,
    UInt16,
    UInt32,
    UInt64,
    Float32,
    Float64,
    Boolean,
    /// UTF-8 string; boundary identifier `String`.
    Utf8,
    Binary,
    /// Internal-only binary layout; never exposed at the boundary.
    BinaryOffset,
    Date,
    Time,
    /// Time unit plus optional time zone name.
    Datetime(TimeUnit, Option<String>),
    Duration(TimeUnit),
    /// Optional precision and optional scale; a missing scale means "infer".
    Decimal(Option<usize>, Option<usize>),
    /// Fixed-size list of an inner type.
    Array(Box<DataType>, usize),
    /// Variable-size list of an inner type.
    List(Box<DataType>),
    /// Ordered list of named sub-fields.
    Struct(Vec<Field>),
    /// Optional reverse mapping plus ordering mode.
    Categorical(Option<Vec<String>>, CategoricalOrdering),
    /// Reverse mapping (ordered categories) plus ordering mode.
    Enum(Vec<String>, CategoricalOrdering),
    /// Opaque host-side object type.
    Object,
    Null,
    /// Deferred placeholder, materialized lazily.
    Unknown(UnknownKind),
}


/// An ordered mapping from column name to data type. Names need not be
/// unique at this layer; order is significant and preserved.
#[derive(Debug, PartialEq)]
pub struct Schema {
    pub fields: Vec<Field>,
}

impl View for Schema {
    type V = Seq<FieldV>;

    open spec fn view(&self) -> Seq<FieldV> {
        fields_view(self.fields@)
    }
}

/// View of a sequence of category strings.
pub open spec fn strings_view(s: Seq<String>) -> Seq<Seq<char>> {
    Seq::new(s.len(), |i: int| s[i]@)
}

/// View of a sequence of fields, elementwise.
pub open spec fn fields_view(s: Seq<Field>) -> Seq<FieldV>
    decreases s,
{
    if s.len() == 0 {
        Seq::empty()
    } else {
        fields_view(s.drop_last()).push(field_view(s[s.len() - 1]))
    }
}

/// View of one field.
pub open spec fn field_view(f: Field) -> FieldV
    decreases f,
{
    FieldV { name: f.name@, dtype: dtype_view(f.dtype) }
}

/// View of a data type.
pub open spec fn dtype_view(dt: DataType) -> DataTypeV
    decreases dt,
{
    match dt {
        DataType::Int8 => DataTypeV::Int8,
        DataType::Int16 => DataTypeV::Int16,
        DataType::Int32 => DataTypeV::Int32,
        DataType::Int64 => DataTypeV::Int64,
        DataType::UInt8 => DataTypeV::UInt8,
        DataType::UInt16 => DataTypeV::UInt16,
        DataType::UInt32 => DataTypeV::UInt32,
        DataType::UInt64 => DataTypeV::UInt64,
        DataType::Float32 => DataTypeV::Float32,
        DataType::Float64 => DataTypeV::Float64,
        DataType::Boolean => DataTypeV::Boolean,
        DataType::Utf8 => DataTypeV::Utf8,
        DataType::Binary => DataTypeV::Binary,
        DataType::BinaryOffset => DataTypeV::BinaryOffset,
        DataType::Date => DataTypeV::Date,
        DataType::Time => DataTypeV::Time,
        DataType::Datetime(tu, tz) => DataTypeV::Datetime(
            tu,
            match tz {
                Some(z) => Some(z@),
                None => None,
            },
        ),
        DataType::Duration(tu) => DataTypeV::Duration(tu),
        DataType::Decimal(p, s) => DataTypeV::Decimal(p, s),
        DataType::Array(inner, size) => DataTypeV::Array(Box::new(dtype_view(*inner)), size),
        DataType::List(inner) => DataTypeV::List(Box::new(dtype_view(*inner))),
        DataType::Struct(fields) => DataTypeV::Struct(fields_view(fields@)),
        DataType::Categorical(rev, ord) => DataTypeV::Categorical(
            match rev {
                Some(cats) => Some(strings_view(cats@)),
                None => None,
            },
            ord,
        ),
        DataType::Enum(cats, ord) => DataTypeV::Enum(strings_view(cats@), ord),
        DataType::Object => DataTypeV::Object,
        DataType::Null => DataTypeV::Null,
        DataType::Unknown(k) => DataTypeV::Unknown(k),
    }
}

impl View for Field {
    type V = FieldV;

    open spec fn view(&self) -> FieldV {
        field_view(*self)
    }
}

impl View for DataType {
    type V = DataTypeV;

    open spec fn view(&self) -> DataTypeV {
        dtype_view(*self)
    }
}

/// Whether a type tree contains the internal-only binary-offset variant
/// anywhere. Such a tree must never reach the boundary codecs.
pub open spec fn has_internal_only(dt: DataTypeV) -> bool
    decreases dt,
{
    match dt {
        DataTypeV::BinaryOffset => true,
        DataTypeV::Array(inner, _) => has_internal_only(*inner),
        DataTypeV::List(inner) => has_internal_only(*inner),
        DataTypeV::Struct(fields) => fields_have_internal_only(fields),
        _ => false,
    }
}

/// Whether any field's type contains the internal-only variant.
pub open spec fn fields_have_internal_only(fields: Seq<FieldV>) -> bool
    decreases fields,
{
    if fields.len() == 0 {
        false
    } else {
        has_internal_only(fields[fields.len() - 1].dtype) || fields_have_internal_only(
            fields.drop_last(),
        )
    }
}

impl DataType {
    /// True when the type tree is free of the internal-only variant and may
    /// therefore be handed to the boundary codecs.
    pub fn boundary_safe(&self) -> (r: bool)
        ensures
            r == !has_internal_only(self@),
        decreases *self,
    {
        match self {
            DataType::BinaryOffset => false,
            DataType::Array(inner, _) => inner.boundary_safe(),
            DataType::List(inner) => inner.boundary_safe(),
            DataType::Struct(fields) => {
                let mut i: usize = 0;
                let mut ok = true;
                proof {
                    assert(fields_view(fields@.take(0)) =~= Seq::<FieldV>::empty());
                }
                while i < fields.len()
                    invariant
                        i <= fields.len(),
                        ok == !fields_have_internal_only(fields_view(fields@.take(i as int))),
                        self == DataType::Struct(*fields),
                    decreases fields.len() - i,
                {
                    proof {
                        assert(fields@.take(i + 1).drop_last() =~= fields@.take(i as int));
                        assert(fields@.take(i + 1)[i as int] == fields@[i as int]);
                        lemma_fields_view_len(fields@.take(i + 1));
                        lemma_fields_view_len(fields@.take(i as int));
                        assert(fields_view(fields@.take(i + 1)) == fields_view(
                            fields@.take(i as int),
                        ).push(field_view(fields@[i as int])));
                    }
                    proof {
                        assert(decreases_to!(*self => self->Struct_0));
                        assert(self->Struct_0 == *fields);
                        assert(decreases_to!(*fields => fields@));
                        assert(decreases_to!(fields@ => fields@[i as int]));
                        assert(decreases_to!(fields@[i as int] => fields@[i as int].dtype));
                        assert(decreases_to!(*self => fields@[i as int].dtype));
                    }
                    if !fields[i].dtype.boundary_safe() {
                        ok = false;
                    }
                    proof {
                        let fv = fields_view(fields@.take(i + 1));
                        assert(fv.drop_last() =~= fields_view(fields@.take(i as int)));
                        assert(fv[fv.len() - 1] == field_view(fields@[i as int]));
                    }
                    i = i + 1;
                }
                proof {
                    assert(fields@.take(fields@.len() as int) =~= fields@);
                }
                ok
            },
            _ => true,
        }
    }
}

/// The view of a field sequence has the same length.
pub proof fn lemma_fields_view_len(s: Seq<Field>)
    ensures
        fields_view(s).len() == s.len(),
    decreases s,
{
    if s.len() > 0 {
        lemma_fields_view_len(s.drop_last());
    }
}

/// Elementwise description of the field-sequence view.
pub proof fn lemma_fields_view_index(s: Seq<Field>, i: int)
    requires
        0 <= i < s.len(),
    ensures
        fields_view(s).len() == s.len(),
        fields_view(s)[i] == field_view(s[i]),
    decreases s,
{
    lemma_fields_view_len(s);
    if i < s.len() - 1 {
        lemma_fields_view_index(s.drop_last(), i);
    }
}


/// The view keeps the variant: each case of the view corresponds exactly to
/// the same case of the concrete type.
pub proof fn lemma_dtype_view_variant(dt: DataType)
    ensures
        (dtype_view(dt) is Int8) == (dt is Int8),
        (dtype_view(dt) is Int16) == (dt is Int16),
        (dtype_view(dt) is Int32) == (dt is Int32),
        (dtype_view(dt) is Int64) == (dt is Int64),
        (dtype_view(dt) is UInt8) == (dt is UInt8),
        (dtype_view(dt) is UInt16) == (dt is UInt16),
        (dtype_view(dt) is UInt32) == (dt is UInt32),
        (dtype_view(dt) is UInt64) == (dt is UInt64),
        (dtype_view(dt) is Float32) == (dt is Float32),
        (dtype_view(dt) is Float64) == (dt is Float64),
        (dtype_view(dt) is Boolean) == (dt is Boolean),
        (dtype_view(dt) is Utf8) == (dt is Utf8),
        (dtype_view(dt) is Binary) == (dt is Binary),
        (dtype_view(dt) is BinaryOffset) == (dt is BinaryOffset),
        (dtype_view(dt) is Date) == (dt is Date),
        (dtype_view(dt) is Time) == (dt is Time),
        (dtype_view(dt) is Datetime) == (dt is Datetime),
        (dtype_view(dt) is Duration) == (dt is Duration),
        (dtype_view(dt) is Decimal) == (dt is Decimal),
        (dtype_view(dt) is Array) == (dt is Array),
        (dtype_view(dt) is List) == (dt is List),
        (dtype_view(dt) is Struct) == (dt is Struct),
        (dtype_view(dt) is Categorical) == (dt is Categorical),
        (dtype_view(dt) is Enum) == (dt is Enum),
        (dtype_view(dt) is Object) == (dt is Object),
        (dtype_view(dt) is Null) == (dt is Null),
        (dtype_view(dt) is Unknown) == (dt is Unknown),
{
    match dt {
        DataType::Int8 => {},
        DataType::Int16 => {},
        DataType::Int32 => {},
        DataType::Int64 => {},
        DataType::UInt8 => {},
        DataType::UInt16 => {},
        DataType::UInt32 => {},
        DataType::UInt64 => {},
        DataType::Float32 => {},
        DataType::Float64 => {},
        DataType::Boolean => {},
        DataType::Utf8 => {},
        DataType::Binary => {},
        DataType::BinaryOffset => {},
        DataType::Date => {},
        DataType::Time => {},
        DataType::Datetime(_, _) => {},
        DataType::Duration(_) => {},
        DataType::Decimal(_, _) => {},
        DataType::Array(_, _) => {},
        DataType::List(_) => {},
        DataType::Struct(_) => {},
        DataType::Categorical(_, _) => {},
        DataType::Enum(_, _) => {},
        DataType::Object => {},
        DataType::Null => {},
        DataType::Unknown(_) => {},
    }
}

/// Materialize a deferred placeholder into a concrete minimal type: a dynamic
/// integer becomes the smallest signed integer type that holds it, a dynamic
/// float becomes the wide float type and a dynamic string becomes the string
/// type. The fully unknown placeholder stays as it is.
pub open spec fn materialize_unknown_spec(k: UnknownKind) -> DataTypeV {
    match k {
        UnknownKind::Any => DataTypeV::Unknown(UnknownKind::Any),
        UnknownKind::Int(v) => if -0x8000_0000 <= v && v <= 0x7fff_ffff {
            DataTypeV::Int32
        } else {
            DataTypeV::Int64
        },
        UnknownKind::Float => DataTypeV::Float64,
        UnknownKind::Str => DataTypeV::Utf8,
    }
}

/// Materialize a deferred placeholder into a concrete minimal type.
pub fn materialize_unknown(k: UnknownKind) -> (r: DataType)
    ensures
        r@ == materialize_unknown_spec(k),
{
    match k {
        UnknownKind::Any => DataType::Unknown(UnknownKind::Any),
        UnknownKind::Int(v) => if -0x8000_0000i64 <= v && v <= 0x7fff_ffffi64 {
            DataType::Int32
        } else {
            DataType::Int64
        },
        UnknownKind::Float => DataType::Float64,
        UnknownKind::Str => DataType::Utf8,
    }
}

} // verus!
