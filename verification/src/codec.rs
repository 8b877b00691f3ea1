//! Recursive, bidirectional translation between the native type tree and the
//! host's type objects.
//!
//! `encode_dtype` dispatches on the native tag and names the host class to
//! construct, with its parameters; `decode_dtype` resolves the bare-class
//! versus parameterized-instance case first and then dispatches on the exact
//! identifier string. Bare identifiers decode to documented conservative
//! defaults, which makes the decode of an encode exact but the encode of a
//! decode intentionally not.
use vstd::prelude::*;
use vstd::string::StringExecFns;

use crate::dtype::CategoricalOrdering;
use crate::dtype::DataType;
use crate::dtype::DataTypeV;
use crate::dtype::Field;
use crate::dtype::FieldV;
use crate::dtype::TimeUnit;
use crate::dtype::UnknownKind;
use crate::dtype::fields_view;
use crate::dtype::field_view;
use crate::dtype::has_internal_only;
use crate::dtype::strings_view;
use crate::error::BridgeError;
use crate::error::BridgeErrorV;
use crate::error::res_view;
use crate::host::HostArg;
use crate::host::HostArgV;
use crate::host::HostDType;
use crate::host::HostDTypeV;
use crate::host::HostField;
use crate::host::HostFieldV;
use crate::host::host_args_view;
use crate::host::host_fields_view;
use crate::host::host_strings_view;

verus! {

broadcast use vstd::string::group_string_axioms;

/// Relies on `str`'s `PartialEq`: two string slices compare equal exactly
/// when their character sequences are equal.
#[verifier::external_body]
pub(crate) fn str_eq(a: &str, b: &str) -> (r: bool)
    ensures
        r == (a@ == b@),
{
    a == b
}

/// Parse the two-character time-unit code exchanged with the host.
pub open spec fn parse_time_unit_spec(code: Seq<char>) -> Result<TimeUnit, BridgeErrorV> {
    if code == "ns"@ {
        Ok(TimeUnit::Nanoseconds)
    } else if code == "us"@ {
        Ok(TimeUnit::Microseconds)
    } else if code == "ms"@ {
        Ok(TimeUnit::Milliseconds)
    } else {
        Err(BridgeErrorV::InvalidTimeUnit(code))
    }
}

/// Parse a textual time-unit code; anything outside the fixed set is an
/// invalid-parameter error naming the offending code.
pub fn parse_time_unit(code: &str) -> (r: Result<TimeUnit, BridgeError>)
    ensures
        res_view(r) == parse_time_unit_spec(code@),
{
    if str_eq(code, "ns") {
        Ok(TimeUnit::Nanoseconds)
    } else if str_eq(code, "us") {
        Ok(TimeUnit::Microseconds)
    } else if str_eq(code, "ms") {
        Ok(TimeUnit::Milliseconds)
    } else {
        Err(BridgeError::InvalidTimeUnit { code: String::from_str(code) })
    }
}

/// Parse the textual ordering mode of a categorical type.
pub open spec fn parse_ordering_spec(mode: Seq<char>) -> Result<
    CategoricalOrdering,
    BridgeErrorV,
> {
    if mode == "physical"@ {
        Ok(CategoricalOrdering::Physical)
    } else if mode == "lexical"@ {
        Ok(CategoricalOrdering::Lexical)
    } else {
        Err(BridgeErrorV::InvalidOrdering(mode))
    }
}

/// Parse a textual ordering mode; anything outside the fixed set is an
/// invalid-parameter error naming the offending value.
pub fn parse_ordering(mode: &str) -> (r: Result<CategoricalOrdering, BridgeError>)
    ensures
        res_view(r) == parse_ordering_spec(mode@),
{
    if str_eq(mode, "physical") {
        Ok(CategoricalOrdering::Physical)
    } else if str_eq(mode, "lexical") {
        Ok(CategoricalOrdering::Lexical)
    } else {
        Err(BridgeError::InvalidOrdering { value: String::from_str(mode) })
    }
}

/// The data type named by a parameterless identifier, if any.
pub open spec fn simple_type_spec(id: Seq<char>) -> Option<DataTypeV> {
    if id == "Int8"@ {
        Some(DataTypeV::Int8)
    } else if id == "Int16"@ {
        Some(DataTypeV::Int16)
    } else if id == "Int32"@ {
        Some(DataTypeV::Int32)
    } else if id == "Int64"@ {
        Some(DataTypeV::Int64)
    } else if id == "UInt8"@ {
        Some(DataTypeV::UInt8)
    } else if id == "UInt16"@ {
        Some(DataTypeV::UInt16)
    } else if id == "UInt32"@ {
        Some(DataTypeV::UInt32)
    } else if id == "UInt64"@ {
        Some(DataTypeV::UInt64)
    } else if id == "Float32"@ {
        Some(DataTypeV::Float32)
    } else if id == "Float64"@ {
        Some(DataTypeV::Float64)
    } else if id == "Boolean"@ {
        Some(DataTypeV::Boolean)
    } else if id == "String"@ {
        Some(DataTypeV::Utf8)
    } else if id == "Binary"@ {
        Some(DataTypeV::Binary)
    } else if id == "Date"@ {
        Some(DataTypeV::Date)
    } else if id == "Time"@ {
        Some(DataTypeV::Time)
    } else if id == "Null"@ {
        Some(DataTypeV::Null)
    } else if id == "Unknown"@ {
        Some(DataTypeV::Unknown(UnknownKind::Any))
    } else {
        None
    }
}

/// Decode a parameterless identifier to its data type, if it names one.
fn simple_type(id: &str) -> (r: Option<DataType>)
    ensures
        match r {
            Some(dt) => simple_type_spec(id@) == Some(dt@),
            None => simple_type_spec(id@) is None,
        },
{
    if str_eq(id, "Int8") {
        Some(DataType::Int8)
    } else if str_eq(id, "Int16") {
        Some(DataType::Int16)
    } else if str_eq(id, "Int32") {
        Some(DataType::Int32)
    } else if str_eq(id, "Int64") {
        Some(DataType::Int64)
    } else if str_eq(id, "UInt8") {
        Some(DataType::UInt8)
    } else if str_eq(id, "UInt16") {
        Some(DataType::UInt16)
    } else if str_eq(id, "UInt32") {
        Some(DataType::UInt32)
    } else if str_eq(id, "UInt64") {
        Some(DataType::UInt64)
    } else if str_eq(id, "Float32") {
        Some(DataType::Float32)
    } else if str_eq(id, "Float64") {
        Some(DataType::Float64)
    } else if str_eq(id, "Boolean") {
        Some(DataType::Boolean)
    } else if str_eq(id, "String") {
        Some(DataType::Utf8)
    } else if str_eq(id, "Binary") {
        Some(DataType::Binary)
    } else if str_eq(id, "Date") {
        Some(DataType::Date)
    } else if str_eq(id, "Time") {
        Some(DataType::Time)
    } else if str_eq(id, "Null") {
        Some(DataType::Null)
    } else if str_eq(id, "Unknown") {
        Some(DataType::Unknown(UnknownKind::Any))
    } else {
        None
    }
}

/// What a bare (unparameterized) identifier decodes to: the conservative
/// default parameters of each parameterized family, the type itself for a
/// parameterless identifier, and an unsupported-type error otherwise.
pub open spec fn decode_bare_spec(id: Seq<char>) -> Result<DataTypeV, BridgeErrorV> {
    match simple_type_spec(id) {
        Some(dt) => Ok(dt),
        None => if id == "Categorical"@ {
            Ok(DataTypeV::Categorical(None, CategoricalOrdering::Physical))
        } else if id == "Enum"@ {
            Ok(DataTypeV::Enum(Seq::empty(), CategoricalOrdering::Physical))
        } else if id == "Datetime"@ {
            Ok(DataTypeV::Datetime(TimeUnit::Microseconds, None))
        } else if id == "Duration"@ {
            Ok(DataTypeV::Duration(TimeUnit::Microseconds))
        } else if id == "Decimal"@ {
            Ok(DataTypeV::Decimal(None, None))
        } else if id == "List"@ {
            Ok(DataTypeV::List(Box::new(DataTypeV::Null)))
        } else if id == "Array"@ {
            Ok(DataTypeV::Array(Box::new(DataTypeV::Null), 0))
        } else if id == "Struct"@ {
            Ok(DataTypeV::Struct(Seq::empty()))
        } else {
            Err(BridgeErrorV::UnsupportedType(id))
        },
    }
}

/// Decode a bare class identifier to the documented default-parameter type.
pub fn decode_bare(id: &str) -> (r: Result<DataType, BridgeError>)
    ensures
        res_view(r) == decode_bare_spec(id@),
{
    match simple_type(id) {
        Some(dt) => Ok(dt),
        None => if str_eq(id, "Categorical") {
            Ok(DataType::Categorical(None, CategoricalOrdering::Physical))
        } else if str_eq(id, "Enum") {
            proof {
                assert(strings_view(Seq::<String>::empty()) =~= Seq::<Seq<char>>::empty());
            }
            Ok(DataType::Enum(Vec::new(), CategoricalOrdering::Physical))
        } else if str_eq(id, "Datetime") {
            Ok(DataType::Datetime(TimeUnit::Microseconds, None))
        } else if str_eq(id, "Duration") {
            Ok(DataType::Duration(TimeUnit::Microseconds))
        } else if str_eq(id, "Decimal") {
            Ok(DataType::Decimal(None, None))
        } else if str_eq(id, "List") {
            proof {
                assert(crate::dtype::dtype_view(DataType::Null) == DataTypeV::Null);
            }
            Ok(DataType::List(Box::new(DataType::Null)))
        } else if str_eq(id, "Array") {
            proof {
                assert(crate::dtype::dtype_view(DataType::Null) == DataTypeV::Null);
            }
            Ok(DataType::Array(Box::new(DataType::Null), 0))
        } else if str_eq(id, "Struct") {
            proof {
                assert(fields_view(Seq::<Field>::empty()) =~= Seq::<FieldV>::empty());
            }
            Ok(DataType::Struct(Vec::new()))
        } else {
            Err(BridgeError::UnsupportedType { identifier: String::from_str(id) })
        },
    }
}

/// Encode of a field sequence, elementwise: each field becomes a host field
/// object with the same name and the encoded sub-type.
pub open spec fn encode_fields_spec(fields: Seq<FieldV>) -> Seq<HostFieldV>
    decreases fields,
{
    if fields.len() == 0 {
        Seq::empty()
    } else {
        encode_fields_spec(fields.drop_last()).push(
            HostFieldV {
                name: fields[fields.len() - 1].name,
                dtype: encode_spec(fields[fields.len() - 1].dtype),
            },
        )
    }
}

/// What a native type encodes to: the host class identifier to construct and
/// the ordered parameters handed to its constructor. Deferred placeholders
/// are materialized first; the time type and the null type are exchanged as
/// bare classes.
pub open spec fn encode_spec(dt: DataTypeV) -> HostDTypeV
    decreases dt,
{
    match dt {
        DataTypeV::Int8 => HostDTypeV::Instance("Int8"@, Seq::empty()),
        DataTypeV::Int16 => HostDTypeV::Instance("Int16"@, Seq::empty()),
        DataTypeV::Int32 => HostDTypeV::Instance("Int32"@, Seq::empty()),
        DataTypeV::Int64 => HostDTypeV::Instance("Int64"@, Seq::empty()),
        DataTypeV::UInt8 => HostDTypeV::Instance("UInt8"@, Seq::empty()),
        DataTypeV::UInt16 => HostDTypeV::Instance("UInt16"@, Seq::empty()),
        DataTypeV::UInt32 => HostDTypeV::Instance("UInt32"@, Seq::empty()),
        DataTypeV::UInt64 => HostDTypeV::Instance("UInt64"@, Seq::empty()),
        DataTypeV::Float32 => HostDTypeV::Instance("Float32"@, Seq::empty()),
        DataTypeV::Float64 => HostDTypeV::Instance("Float64"@, Seq::empty()),
        DataTypeV::Boolean => HostDTypeV::Instance("Boolean"@, Seq::empty()),
        DataTypeV::Utf8 => HostDTypeV::Instance("String"@, Seq::empty()),
        DataTypeV::Binary => HostDTypeV::Instance("Binary"@, Seq::empty()),
        DataTypeV::BinaryOffset => arbitrary(),
        DataTypeV::Date => HostDTypeV::Instance("Date"@, Seq::empty()),
        DataTypeV::Time => HostDTypeV::Class("Time"@),
        DataTypeV::Datetime(tu, tz) => HostDTypeV::Instance(
            "Datetime"@,
            seq![HostArgV::StrVal(tu.code_spec()), HostArgV::OptStr(tz)],
        ),
        DataTypeV::Duration(tu) => HostDTypeV::Instance(
            "Duration"@,
            seq![HostArgV::StrVal(tu.code_spec())],
        ),
        DataTypeV::Decimal(p, s) => HostDTypeV::Instance(
            "Decimal"@,
            seq![HostArgV::OptUInt(p), HostArgV::OptUInt(s)],
        ),
        DataTypeV::Array(inner, size) => HostDTypeV::Instance(
            "Array"@,
            seq![HostArgV::TypeObj(Box::new(encode_spec(*inner))), HostArgV::UIntVal(size)],
        ),
        DataTypeV::List(inner) => HostDTypeV::Instance(
            "List"@,
            seq![HostArgV::TypeObj(Box::new(encode_spec(*inner)))],
        ),
        DataTypeV::Struct(fields) => HostDTypeV::Instance(
            "Struct"@,
            seq![HostArgV::FieldObjs(encode_fields_spec(fields))],
        ),
        DataTypeV::Categorical(_, ord) => HostDTypeV::Instance(
            "Categorical"@,
            seq![HostArgV::StrVal(ord.mode_spec())],
        ),
        DataTypeV::Enum(cats, _) => HostDTypeV::Instance(
            "Enum"@,
            seq![HostArgV::Categories(cats)],
        ),
        DataTypeV::Object => HostDTypeV::Instance("Object"@, Seq::empty()),
        DataTypeV::Null => HostDTypeV::Class("Null"@),
        DataTypeV::Unknown(k) => match k {
            UnknownKind::Any => HostDTypeV::Instance("Unknown"@, Seq::empty()),
            UnknownKind::Int(v) => if -0x8000_0000 <= v && v <= 0x7fff_ffff {
                HostDTypeV::Instance("Int32"@, Seq::empty())
            } else {
                HostDTypeV::Instance("Int64"@, Seq::empty())
            },
            UnknownKind::Float => HostDTypeV::Instance("Float64"@, Seq::empty()),
            UnknownKind::Str => HostDTypeV::Instance("String"@, Seq::empty()),
        },
    }
}

/// The view of a one-element argument vector.
proof fn lemma_host_args_view1(s: Seq<HostArg>)
    requires
        s.len() == 1,
    ensures
        host_args_view(s) =~= seq![crate::host::host_arg_view(s[0])],
{
    crate::host::lemma_host_args_view_index(s, 0);
}

/// The view of a two-element argument vector.
proof fn lemma_host_args_view2(s: Seq<HostArg>)
    requires
        s.len() == 2,
    ensures
        host_args_view(s) =~= seq![
            crate::host::host_arg_view(s[0]),
            crate::host::host_arg_view(s[1]),
        ],
{
    crate::host::lemma_host_args_view_index(s, 0);
    crate::host::lemma_host_args_view_index(s, 1);
}

/// Clone a category vector.
fn clone_strings(v: &Vec<String>) -> (r: Vec<String>)
    ensures
        strings_view(r@) =~= strings_view(v@),
        host_strings_view(r@) =~= host_strings_view(v@),
{
    let mut out: Vec<String> = Vec::new();
    let mut i: usize = 0;
    while i < v.len()
        invariant
            i <= v.len(),
            out@.len() == i,
            forall|j: int| 0 <= j < i ==> out@[j]@ == v@[j]@,
        decreases v.len() - i,
    {
        out.push(v[i].clone());
        i = i + 1;
    }
    out
}

/// Clone an optional string.
fn clone_opt_string(o: &Option<String>) -> (r: Option<String>)
    ensures
        match (r, o) {
            (Some(a), Some(b)) => a@ == b@,
            (None, None) => true,
            _ => false,
        },
{
    match o {
        Some(s) => Some(s.clone()),
        None => None,
    }
}

/// Encode a native type for the host: name the host class to construct and
/// assemble its ordered constructor parameters. The internal-only variant
/// must not occur anywhere in the tree.
pub fn encode_dtype(dt: &DataType) -> (r: HostDType)
    requires
        !has_internal_only(dt@),
    ensures
        r@ == encode_spec(dt@),
    decreases *dt,
{
    match dt {
        DataType::Int8 => HostDType::Instance(String::from_str("Int8"), Vec::new()),
        DataType::Int16 => HostDType::Instance(String::from_str("Int16"), Vec::new()),
        DataType::Int32 => HostDType::Instance(String::from_str("Int32"), Vec::new()),
        DataType::Int64 => HostDType::Instance(String::from_str("Int64"), Vec::new()),
        DataType::UInt8 => HostDType::Instance(String::from_str("UInt8"), Vec::new()),
        DataType::UInt16 => HostDType::Instance(String::from_str("UInt16"), Vec::new()),
        DataType::UInt32 => HostDType::Instance(String::from_str("UInt32"), Vec::new()),
        DataType::UInt64 => HostDType::Instance(String::from_str("UInt64"), Vec::new()),
        DataType::Float32 => HostDType::Instance(String::from_str("Float32"), Vec::new()),
        DataType::Float64 => HostDType::Instance(String::from_str("Float64"), Vec::new()),
        DataType::Boolean => HostDType::Instance(String::from_str("Boolean"), Vec::new()),
        DataType::Utf8 => HostDType::Instance(String::from_str("String"), Vec::new()),
        DataType::Binary => HostDType::Instance(String::from_str("Binary"), Vec::new()),
        DataType::BinaryOffset => vstd::pervasive::unreached(),
        DataType::Date => HostDType::Instance(String::from_str("Date"), Vec::new()),
        DataType::Time => HostDType::Class(String::from_str("Time")),
        DataType::Datetime(tu, tz) => {
            let mut args: Vec<HostArg> = Vec::new();
            args.push(HostArg::StrVal(String::from_str(tu.code())));
            args.push(HostArg::OptStr(clone_opt_string(tz)));
            proof {
                lemma_host_args_view2(args@);
            }
            HostDType::Instance(String::from_str("Datetime"), args)
        },
        DataType::Duration(tu) => {
            let mut args: Vec<HostArg> = Vec::new();
            args.push(HostArg::StrVal(String::from_str(tu.code())));
            proof {
                lemma_host_args_view1(args@);
            }
            HostDType::Instance(String::from_str("Duration"), args)
        },
        DataType::Decimal(p, s) => {
            let mut args: Vec<HostArg> = Vec::new();
            args.push(HostArg::OptUInt(*p));
            args.push(HostArg::OptUInt(*s));
            proof {
                lemma_host_args_view2(args@);
            }
            HostDType::Instance(String::from_str("Decimal"), args)
        },
        DataType::Array(inner, size) => {
            let encoded = encode_dtype(inner);
            let mut args: Vec<HostArg> = Vec::new();
            args.push(HostArg::TypeObj(Box::new(encoded)));
            args.push(HostArg::UIntVal(*size));
            proof {
                lemma_host_args_view2(args@);
            }
            HostDType::Instance(String::from_str("Array"), args)
        },
        DataType::List(inner) => {
            let encoded = encode_dtype(inner);
            let mut args: Vec<HostArg> = Vec::new();
            args.push(HostArg::TypeObj(Box::new(encoded)));
            proof {
                lemma_host_args_view1(args@);
            }
            HostDType::Instance(String::from_str("List"), args)
        },
        DataType::Struct(fields) => {
            let mut out: Vec<HostField> = Vec::new();
            let mut i: usize = 0;
            proof {
                assert(fields_view(fields@.take(0)) =~= Seq::<FieldV>::empty());
                assert(host_fields_view(out@) =~= encode_fields_spec(
                    fields_view(fields@.take(0)),
                ));
            }
            while i < fields.len()
                invariant
                    i <= fields.len(),
                    !has_internal_only(DataType::Struct(*fields)@),
                    host_fields_view(out@) =~= encode_fields_spec(
                        fields_view(fields@.take(i as int)),
                    ),
                    dt == DataType::Struct(*fields),
                decreases fields.len() - i,
            {
                proof {
                    assert(decreases_to!(*dt => dt->Struct_0));
                    assert(dt->Struct_0 == *fields);
                    assert(decreases_to!(*fields => fields@));
                    assert(decreases_to!(fields@ => fields@[i as int]));
                    assert(decreases_to!(fields@[i as int] => fields@[i as int].dtype));
                    assert(decreases_to!(*dt => fields@[i as int].dtype));
                    crate::dtype::lemma_fields_view_index(fields@, i as int);
                    lemma_struct_member_internal(fields_view(fields@), i as int);
                }
                let encoded = encode_dtype(&fields[i].dtype);
                let ghost prev_out = out@;
                out.push(HostField { name: fields[i].name.clone(), dtype: encoded });
                proof {
                    let prev = fields_view(fields@.take(i as int));
                    let cur = fields_view(fields@.take(i + 1));
                    assert(fields@.take(i + 1).drop_last() =~= fields@.take(i as int));
                    crate::dtype::lemma_fields_view_len(fields@.take(i + 1));
                    assert(fields@.take(i + 1)[i as int] == fields@[i as int]);
                    assert(cur == prev.push(field_view(fields@[i as int])));
                    assert(cur.drop_last() =~= prev);
                    assert(out@.drop_last() =~= prev_out);
                    assert(host_fields_view(out@) == host_fields_view(prev_out).push(
                        crate::host::host_field_view(out@[out@.len() - 1]),
                    ));
                    assert(encode_fields_spec(cur) == encode_fields_spec(prev).push(
                        HostFieldV {
                            name: cur[cur.len() - 1].name,
                            dtype: encode_spec(cur[cur.len() - 1].dtype),
                        },
                    ));
                    assert(host_fields_view(out@) =~= encode_fields_spec(cur));
                }
                i = i + 1;
            }
            proof {
                assert(fields@.take(fields@.len() as int) =~= fields@);
            }
            let mut args: Vec<HostArg> = Vec::new();
            args.push(HostArg::FieldObjs(out));
            proof {
                lemma_host_args_view1(args@);
            }
            HostDType::Instance(String::from_str("Struct"), args)
        },
        DataType::Categorical(_, ord) => {
            let mut args: Vec<HostArg> = Vec::new();
            args.push(HostArg::StrVal(String::from_str(ord.mode())));
            proof {
                lemma_host_args_view1(args@);
            }
            HostDType::Instance(String::from_str("Categorical"), args)
        },
        DataType::Enum(cats, _) => {
            let mut args: Vec<HostArg> = Vec::new();
            args.push(HostArg::Categories(clone_strings(cats)));
            proof {
                lemma_host_args_view1(args@);
            }
            HostDType::Instance(String::from_str("Enum"), args)
        },
        DataType::Object => HostDType::Instance(String::from_str("Object"), Vec::new()),
        DataType::Null => HostDType::Class(String::from_str("Null")),
        DataType::Unknown(k) => match k {
            UnknownKind::Any => HostDType::Instance(String::from_str("Unknown"), Vec::new()),
            UnknownKind::Int(v) => if -0x8000_0000i64 <= *v && *v <= 0x7fff_ffffi64 {
                HostDType::Instance(String::from_str("Int32"), Vec::new())
            } else {
                HostDType::Instance(String::from_str("Int64"), Vec::new())
            },
            UnknownKind::Float => HostDType::Instance(String::from_str("Float64"), Vec::new()),
            UnknownKind::Str => HostDType::Instance(String::from_str("String"), Vec::new()),
        },
    }
}

/// Decode of a host field sequence, elementwise and from the left: the first
/// failing sub-type decides the error.
pub open spec fn decode_fields_spec(fs: Seq<HostFieldV>) -> Result<Seq<FieldV>, BridgeErrorV>
    decreases fs,
{
    if fs.len() == 0 {
        Ok(Seq::empty())
    } else {
        match decode_fields_spec(fs.drop_last()) {
            Err(e) => Err(e),
            Ok(init) => match decode_spec(fs[fs.len() - 1].dtype) {
                Err(e) => Err(e),
                Ok(dt) => Ok(init.push(FieldV { name: fs[fs.len() - 1].name, dtype: dt })),
            },
        }
    }
}

/// What a parameterized host instance decodes to. Parameterless identifiers
/// ignore their arguments; parameterized identifiers demand exactly the
/// argument shape their constructor takes, and reject out-of-set time-unit
/// codes and ordering modes with invalid-parameter errors. The opaque object
/// type and every unmatched identifier fail as unsupported.
pub open spec fn decode_instance_spec(id: Seq<char>, args: Seq<HostArgV>) -> Result<
    DataTypeV,
    BridgeErrorV,
>
    decreases args,
{
    match simple_type_spec(id) {
        Some(dt) => Ok(dt),
        None => if id == "Categorical"@ {
            if args.len() == 1 && args[0] is StrVal {
                match parse_ordering_spec(args[0]->StrVal_0) {
                    Ok(o) => Ok(DataTypeV::Categorical(None, o)),
                    Err(e) => Err(e),
                }
            } else {
                Err(BridgeErrorV::MalformedArguments(id))
            }
        } else if id == "Enum"@ {
            if args.len() == 1 && args[0] is Categories {
                Ok(DataTypeV::Enum(args[0]->Categories_0, CategoricalOrdering::Physical))
            } else {
                Err(BridgeErrorV::MalformedArguments(id))
            }
        } else if id == "Datetime"@ {
            if args.len() == 2 && args[0] is StrVal && args[1] is OptStr {
                match parse_time_unit_spec(args[0]->StrVal_0) {
                    Ok(tu) => Ok(DataTypeV::Datetime(tu, args[1]->OptStr_0)),
                    Err(e) => Err(e),
                }
            } else {
                Err(BridgeErrorV::MalformedArguments(id))
            }
        } else if id == "Duration"@ {
            if args.len() == 1 && args[0] is StrVal {
                match parse_time_unit_spec(args[0]->StrVal_0) {
                    Ok(tu) => Ok(DataTypeV::Duration(tu)),
                    Err(e) => Err(e),
                }
            } else {
                Err(BridgeErrorV::MalformedArguments(id))
            }
        } else if id == "Decimal"@ {
            if args.len() == 2 && args[0] is OptUInt && args[1] is OptUInt && args[1]->OptUInt_0
                is Some {
                Ok(DataTypeV::Decimal(args[0]->OptUInt_0, args[1]->OptUInt_0))
            } else {
                Err(BridgeErrorV::MalformedArguments(id))
            }
        } else if id == "List"@ {
            if args.len() == 1 && args[0] is TypeObj {
                match decode_spec(*args[0]->TypeObj_0) {
                    Ok(t) => Ok(DataTypeV::List(Box::new(t))),
                    Err(e) => Err(e),
                }
            } else {
                Err(BridgeErrorV::MalformedArguments(id))
            }
        } else if id == "Array"@ {
            if args.len() == 2 && args[0] is TypeObj && args[1] is UIntVal {
                match decode_spec(*args[0]->TypeObj_0) {
                    Ok(t) => Ok(DataTypeV::Array(Box::new(t), args[1]->UIntVal_0)),
                    Err(e) => Err(e),
                }
            } else {
                Err(BridgeErrorV::MalformedArguments(id))
            }
        } else if id == "Struct"@ {
            if args.len() == 1 && args[0] is FieldObjs {
                match decode_fields_spec(args[0]->FieldObjs_0) {
                    Ok(fs) => Ok(DataTypeV::Struct(fs)),
                    Err(e) => Err(e),
                }
            } else {
                Err(BridgeErrorV::MalformedArguments(id))
            }
        } else {
            Err(BridgeErrorV::UnsupportedType(id))
        },
    }
}

/// What a host type object decodes to: the bare-class or parameterized-
/// instance case is decided first, then dispatch goes by the exact
/// identifier.
pub open spec fn decode_spec(h: HostDTypeV) -> Result<DataTypeV, BridgeErrorV>
    decreases h,
{
    match h {
        HostDTypeV::Class(id) => decode_bare_spec(id),
        HostDTypeV::Instance(id, args) => decode_instance_spec(id, args),
    }
}

/// An error in a prefix of a field sequence decides the whole decode.
proof fn lemma_decode_fields_error_extends(fs: Seq<HostFieldV>, i: int, e: BridgeErrorV)
    requires
        0 <= i <= fs.len(),
        decode_fields_spec(fs.take(i)) == Err::<Seq<FieldV>, BridgeErrorV>(e),
    ensures
        decode_fields_spec(fs) == Err::<Seq<FieldV>, BridgeErrorV>(e),
    decreases fs.len() - i,
{
    if i == fs.len() {
        assert(fs.take(i) =~= fs);
    } else {
        assert(fs.take(i + 1).drop_last() =~= fs.take(i));
        lemma_decode_fields_error_extends(fs, i + 1, e);
    }
}

/// Decode a host type object into a native type.
///
/// The bare-class versus parameterized-instance case is resolved once, up
/// front; dispatch then goes by exact string match on the fixed identifier
/// table. Unmatched identifiers and the opaque object type fail with an
/// unsupported-type error naming the identifier; malformed parameters fail
/// with invalid-parameter errors.
pub fn decode_dtype(h: &HostDType) -> (r: Result<DataType, BridgeError>)
    ensures
        res_view(r) == decode_spec(h@),
    decreases *h,
{
    match h {
        HostDType::Class(id) => decode_bare(id.as_str()),
        HostDType::Instance(id, args) => {
            proof {
                crate::host::lemma_host_args_view_len(args@);
            }
            match simple_type(id.as_str()) {
                Some(dt) => Ok(dt),
                None => if str_eq(id.as_str(), "Categorical") {
                    if args.len() == 1 {
                        proof {
                            crate::host::lemma_host_args_view_index(args@, 0);
                        }
                        match &args[0] {
                            HostArg::StrVal(mode) => match parse_ordering(mode.as_str()) {
                                Ok(o) => Ok(DataType::Categorical(None, o)),
                                Err(e) => Err(e),
                            },
                            _ => Err(
                                BridgeError::MalformedArguments { identifier: id.clone() },
                            ),
                        }
                    } else {
                        Err(BridgeError::MalformedArguments { identifier: id.clone() })
                    }
                } else if str_eq(id.as_str(), "Enum") {
                    if args.len() == 1 {
                        proof {
                            crate::host::lemma_host_args_view_index(args@, 0);
                        }
                        match &args[0] {
                            HostArg::Categories(cats) => Ok(
                                DataType::Enum(
                                    clone_strings(cats),
                                    CategoricalOrdering::Physical,
                                ),
                            ),
                            _ => Err(
                                BridgeError::MalformedArguments { identifier: id.clone() },
                            ),
                        }
                    } else {
                        Err(BridgeError::MalformedArguments { identifier: id.clone() })
                    }
                } else if str_eq(id.as_str(), "Datetime") {
                    if args.len() == 2 {
                        proof {
                            crate::host::lemma_host_args_view_index(args@, 0);
                            crate::host::lemma_host_args_view_index(args@, 1);
                        }
                        match (&args[0], &args[1]) {
                            (HostArg::StrVal(code), HostArg::OptStr(tz)) => match parse_time_unit(
                                code.as_str(),
                            ) {
                                Ok(tu) => Ok(DataType::Datetime(tu, clone_opt_string(tz))),
                                Err(e) => Err(e),
                            },
                            _ => Err(
                                BridgeError::MalformedArguments { identifier: id.clone() },
                            ),
                        }
                    } else {
                        Err(BridgeError::MalformedArguments { identifier: id.clone() })
                    }
                } else if str_eq(id.as_str(), "Duration") {
                    if args.len() == 1 {
                        proof {
                            crate::host::lemma_host_args_view_index(args@, 0);
                        }
                        match &args[0] {
                            HostArg::StrVal(code) => match parse_time_unit(code.as_str()) {
                                Ok(tu) => Ok(DataType::Duration(tu)),
                                Err(e) => Err(e),
                            },
                            _ => Err(
                                BridgeError::MalformedArguments { identifier: id.clone() },
                            ),
                        }
                    } else {
                        Err(BridgeError::MalformedArguments { identifier: id.clone() })
                    }
                } else if str_eq(id.as_str(), "Decimal") {
                    if args.len() == 2 {
                        proof {
                            crate::host::lemma_host_args_view_index(args@, 0);
                            crate::host::lemma_host_args_view_index(args@, 1);
                        }
                        match (&args[0], &args[1]) {
                            (HostArg::OptUInt(p), HostArg::OptUInt(s)) => match s {
                                Some(sv) => Ok(DataType::Decimal(*p, Some(*sv))),
                                None => Err(
                                    BridgeError::MalformedArguments { identifier: id.clone() },
                                ),
                            },
                            _ => Err(
                                BridgeError::MalformedArguments { identifier: id.clone() },
                            ),
                        }
                    } else {
                        Err(BridgeError::MalformedArguments { identifier: id.clone() })
                    }
                } else if str_eq(id.as_str(), "List") {
                    if args.len() == 1 {
                        proof {
                            crate::host::lemma_host_args_view_index(args@, 0);
                        }
                        match &args[0] {
                            HostArg::TypeObj(inner) => {
                                proof {
                                    assert(decreases_to!(*h => h->Instance_1));
                                    assert(h->Instance_1 == *args);
                                    assert(decreases_to!(*args => args@));
                                    assert(decreases_to!(args@ => args@[0]));
                                    assert(decreases_to!(args@[0] => args@[0]->TypeObj_0));
                                }
                                match decode_dtype(inner) {
                                    Ok(t) => Ok(DataType::List(Box::new(t))),
                                    Err(e) => Err(e),
                                }
                            },
                            _ => Err(
                                BridgeError::MalformedArguments { identifier: id.clone() },
                            ),
                        }
                    } else {
                        Err(BridgeError::MalformedArguments { identifier: id.clone() })
                    }
                } else if str_eq(id.as_str(), "Array") {
                    if args.len() == 2 {
                        proof {
                            crate::host::lemma_host_args_view_index(args@, 0);
                            crate::host::lemma_host_args_view_index(args@, 1);
                        }
                        match (&args[0], &args[1]) {
                            (HostArg::TypeObj(inner), HostArg::UIntVal(size)) => {
                                proof {
                                    assert(decreases_to!(*h => h->Instance_1));
                                    assert(h->Instance_1 == *args);
                                    assert(decreases_to!(*args => args@));
                                    assert(decreases_to!(args@ => args@[0]));
                                    assert(decreases_to!(args@[0] => args@[0]->TypeObj_0));
                                }
                                match decode_dtype(inner) {
                                    Ok(t) => Ok(DataType::Array(Box::new(t), *size)),
                                    Err(e) => Err(e),
                                }
                            },
                            _ => Err(
                                BridgeError::MalformedArguments { identifier: id.clone() },
                            ),
                        }
                    } else {
                        Err(BridgeError::MalformedArguments { identifier: id.clone() })
                    }
                } else if str_eq(id.as_str(), "Struct") {
                    if args.len() == 1 {
                        proof {
                            crate::host::lemma_host_args_view_index(args@, 0);
                        }
                        match &args[0] {
                            HostArg::FieldObjs(fs) => decode_struct_fields(h, id, args, fs),
                            _ => Err(
                                BridgeError::MalformedArguments { identifier: id.clone() },
                            ),
                        }
                    } else {
                        Err(BridgeError::MalformedArguments { identifier: id.clone() })
                    }
                } else {
                    Err(BridgeError::UnsupportedType { identifier: id.clone() })
                },
            }
        },
    }
}

/// Decode the field list of a struct instance; the first failing sub-type
/// decides the error.
#[verifier::loop_isolation(false)]
fn decode_struct_fields(
    h: &HostDType,
    id: &String,
    args: &Vec<HostArg>,
    fs: &Vec<HostField>,
) -> (r: Result<DataType, BridgeError>)
    requires
        *h == HostDType::Instance(*id, *args),
        args@.len() == 1,
        args@[0] == HostArg::FieldObjs(*fs),
        id@ == "Struct"@,
        simple_type_spec(id@) is None,
        !(id@ == "Categorical"@) && !(id@ == "Enum"@) && !(id@ == "Datetime"@) && !(id@
            == "Duration"@) && !(id@ == "Decimal"@) && !(id@ == "List"@) && !(id@ == "Array"@),
    ensures
        res_view(r) == decode_spec(h@),
    decreases *h, 0int,
{
    let ghost hv = host_fields_view(fs@);
    proof {
        crate::host::lemma_host_args_view_index(args@, 0);
        crate::host::lemma_host_fields_view_len(fs@);
        assert(decode_fields_spec(hv.take(0)) == Ok::<Seq<FieldV>, BridgeErrorV>(
            Seq::<FieldV>::empty(),
        )) by {
            assert(hv.take(0) =~= Seq::<HostFieldV>::empty());
        }
        assert(fields_view(Seq::<Field>::empty()) =~= Seq::<FieldV>::empty());
    }
    let mut out: Vec<Field> = Vec::new();
    let mut i: usize = 0;
    while i < fs.len()
        invariant
            i <= fs.len(),
            *h == HostDType::Instance(*id, *args),
            args@.len() == 1,
            args@[0] == HostArg::FieldObjs(*fs),
            hv == host_fields_view(fs@),
            hv.len() == fs@.len(),
            decode_fields_spec(hv.take(i as int)) == Ok::<Seq<FieldV>, BridgeErrorV>(
                fields_view(out@),
            ),
        decreases fs.len() - i,
    {
        proof {
            assert(decreases_to!(*h => h->Instance_1));
            assert(h->Instance_1 == *args);
            assert(decreases_to!(*args => args@));
            assert(decreases_to!(args@ => args@[0]));
            assert(decreases_to!(args@[0] => args@[0]->FieldObjs_0));
            assert(decreases_to!(*fs => fs@));
            assert(decreases_to!(fs@ => fs@[i as int]));
            assert(decreases_to!(fs@[i as int] => fs@[i as int].dtype));
            assert(decreases_to!(*h => fs@[i as int].dtype));
            crate::host::lemma_host_fields_view_index(fs@, i as int);
        }
        match decode_dtype(&fs[i].dtype) {
            Ok(t) => {
                let ghost prev_out = out@;
                out.push(Field { name: fs[i].name.clone(), dtype: t });
                proof {
                    assert(out@.drop_last() =~= prev_out);
                    assert(fields_view(out@) == fields_view(prev_out).push(
                        field_view(out@[out@.len() - 1]),
                    ));
                    assert(hv.take(i + 1).drop_last() =~= hv.take(i as int));
                    assert(hv.take(i + 1)[i as int] == hv[i as int]);
                    assert(decode_fields_spec(hv.take(i + 1))
                        == Ok::<Seq<FieldV>, BridgeErrorV>(fields_view(out@)));
                }
                i = i + 1;
            },
            Err(e) => {
                proof {
                    assert(hv.take(i + 1).drop_last() =~= hv.take(i as int));
                    assert(hv.take(i + 1)[i as int] == hv[i as int]);
                    assert(decode_fields_spec(hv.take(i + 1)) == Err::<
                        Seq<FieldV>,
                        BridgeErrorV,
                    >(e@));
                    lemma_decode_fields_error_extends(hv, i + 1, e@);
                }
                return Err(e);
            },
        }
    }
    proof {
        assert(hv.take(fs@.len() as int) =~= hv);
    }
    Ok(DataType::Struct(out))
}

/// A struct member of an internal-free field sequence is itself
/// internal-free.
proof fn lemma_struct_member_internal(fields: Seq<FieldV>, i: int)
    requires
        0 <= i < fields.len(),
        !crate::dtype::fields_have_internal_only(fields),
    ensures
        !has_internal_only(fields[i].dtype),
    decreases fields,
{
    if i < fields.len() - 1 {
        lemma_struct_member_internal(fields.drop_last(), i);
    }
}



/// Encode a schema for the host: each column name with its encoded type,
/// in order. Names and order are preserved exactly.
#[verifier::loop_isolation(false)]
pub fn encode_schema(schema: &crate::dtype::Schema) -> (r: Vec<HostField>)
    requires
        !crate::dtype::fields_have_internal_only(schema@),
    ensures
        host_fields_view(r@) == encode_fields_spec(schema@),
{
    let fields = &schema.fields;
    let mut out: Vec<HostField> = Vec::new();
    let mut i: usize = 0;
    proof {
        assert(fields_view(fields@.take(0)) =~= Seq::<FieldV>::empty());
        assert(host_fields_view(out@) =~= encode_fields_spec(fields_view(fields@.take(0))));
    }
    while i < fields.len()
        invariant
            i <= fields.len(),
            host_fields_view(out@) =~= encode_fields_spec(fields_view(fields@.take(i as int))),
        decreases fields.len() - i,
    {
        proof {
            crate::dtype::lemma_fields_view_index(fields@, i as int);
            lemma_struct_member_internal(fields_view(fields@), i as int);
        }
        let encoded = encode_dtype(&fields[i].dtype);
        let ghost prev_out = out@;
        out.push(HostField { name: fields[i].name.clone(), dtype: encoded });
        proof {
            let prev = fields_view(fields@.take(i as int));
            let cur = fields_view(fields@.take(i + 1));
            assert(fields@.take(i + 1).drop_last() =~= fields@.take(i as int));
            crate::dtype::lemma_fields_view_len(fields@.take(i + 1));
            assert(fields@.take(i + 1)[i as int] == fields@[i as int]);
            assert(cur == prev.push(field_view(fields@[i as int])));
            assert(cur.drop_last() =~= prev);
            assert(out@.drop_last() =~= prev_out);
            assert(host_fields_view(out@) == host_fields_view(prev_out).push(
                crate::host::host_field_view(out@[out@.len() - 1]),
            ));
            assert(encode_fields_spec(cur) == encode_fields_spec(prev).push(
                HostFieldV {
                    name: cur[cur.len() - 1].name,
                    dtype: encode_spec(cur[cur.len() - 1].dtype),
                },
            ));
            assert(host_fields_view(out@) =~= encode_fields_spec(cur));
        }
        i = i + 1;
    }
    proof {
        assert(fields@.take(fields@.len() as int) =~= fields@);
    }
    out
}

/// A decoded field sequence never contains the internal-only variant.
proof fn lemma_decode_fields_no_internal(fs: Seq<HostFieldV>)
    ensures
        decode_fields_spec(fs) matches Ok(flds) ==> !crate::dtype::fields_have_internal_only(
            flds,
        ),
    decreases fs,
{
    if fs.len() > 0 {
        lemma_decode_fields_no_internal(fs.drop_last());
        lemma_decode_no_internal(fs[fs.len() - 1].dtype);
        match decode_fields_spec(fs) {
            Ok(flds) => {
                assert(flds.drop_last() =~= decode_fields_spec(fs.drop_last())->Ok_0);
            },
            Err(_) => {},
        }
    }
}

/// A decoded type never contains the internal-only variant: no identifier
/// in the vocabulary names it.
pub proof fn lemma_decode_no_internal(h: HostDTypeV)
    ensures
        decode_spec(h) matches Ok(dt) ==> !has_internal_only(dt),
    decreases h,
{
    assert(!crate::dtype::fields_have_internal_only(Seq::<FieldV>::empty()));
    assert(!has_internal_only(DataTypeV::Null));
    match h {
        HostDTypeV::Class(_) => {
        },
        HostDTypeV::Instance(id, args) => {
            if args.len() >= 1 && args[0] is TypeObj {
                lemma_decode_no_internal(*args[0]->TypeObj_0);
            }
            if args.len() >= 1 && args[0] is FieldObjs {
                lemma_decode_fields_no_internal(args[0]->FieldObjs_0);
            }
        },
    }
}

/// Whether every field's type round-trips exactly.
pub open spec fn fields_round_trippable(fields: Seq<FieldV>) -> bool
    decreases fields,
{
    if fields.len() == 0 {
        true
    } else {
        fields_round_trippable(fields.drop_last()) && round_trippable(
            fields[fields.len() - 1].dtype,
        )
    }
}

/// The types whose encode is decoded back exactly: everything constructible
/// with explicit parameters, except what the boundary intentionally loses.
/// The internal-only variant never crosses; the opaque object type is
/// refused on decode; non-`Any` placeholders are materialized on encode; a
/// categorical's reverse mapping is dropped on encode; an enumeration's
/// ordering mode is not transmitted, so only the physical default survives;
/// and a decimal without an explicit scale is rejected on decode.
pub open spec fn round_trippable(dt: DataTypeV) -> bool
    decreases dt,
{
    match dt {
        DataTypeV::BinaryOffset => false,
        DataTypeV::Object => false,
        DataTypeV::Unknown(k) => k is Any,
        DataTypeV::Categorical(rev, _) => rev is None,
        DataTypeV::Enum(_, ord) => ord is Physical,
        DataTypeV::Decimal(_, s) => s is Some,
        DataTypeV::Array(inner, _) => round_trippable(*inner),
        DataTypeV::List(inner) => round_trippable(*inner),
        DataTypeV::Struct(fields) => fields_round_trippable(fields),
        _ => true,
    }
}

/// The fixed identifier vocabulary: what each parameterless identifier
/// names, which identifiers are parameterized, and that the identifiers and
/// parameter codes are pairwise distinct where the dispatch tables need it.
#[verifier::rlimit(100)]
pub proof fn lemma_vocabulary()
    ensures
        simple_type_spec("Int8"@) == Some(DataTypeV::Int8),
        simple_type_spec("Int16"@) == Some(DataTypeV::Int16),
        simple_type_spec("Int32"@) == Some(DataTypeV::Int32),
        simple_type_spec("Int64"@) == Some(DataTypeV::Int64),
        simple_type_spec("UInt8"@) == Some(DataTypeV::UInt8),
        simple_type_spec("UInt16"@) == Some(DataTypeV::UInt16),
        simple_type_spec("UInt32"@) == Some(DataTypeV::UInt32),
        simple_type_spec("UInt64"@) == Some(DataTypeV::UInt64),
        simple_type_spec("Float32"@) == Some(DataTypeV::Float32),
        simple_type_spec("Float64"@) == Some(DataTypeV::Float64),
        simple_type_spec("Boolean"@) == Some(DataTypeV::Boolean),
        simple_type_spec("String"@) == Some(DataTypeV::Utf8),
        simple_type_spec("Binary"@) == Some(DataTypeV::Binary),
        simple_type_spec("Date"@) == Some(DataTypeV::Date),
        simple_type_spec("Time"@) == Some(DataTypeV::Time),
        simple_type_spec("Null"@) == Some(DataTypeV::Null),
        simple_type_spec("Unknown"@) == Some(DataTypeV::Unknown(UnknownKind::Any)),
        simple_type_spec("Categorical"@) is None,
        simple_type_spec("Enum"@) is None,
        simple_type_spec("Datetime"@) is None,
        simple_type_spec("Duration"@) is None,
        simple_type_spec("Decimal"@) is None,
        simple_type_spec("List"@) is None,
        simple_type_spec("Array"@) is None,
        simple_type_spec("Struct"@) is None,
        simple_type_spec("Object"@) is None,
        "Enum"@ != "Categorical"@,
        "Datetime"@ != "Categorical"@,
        "Datetime"@ != "Enum"@,
        "Duration"@ != "Categorical"@,
        "Duration"@ != "Enum"@,
        "Duration"@ != "Datetime"@,
        "Decimal"@ != "Categorical"@,
        "Decimal"@ != "Enum"@,
        "Decimal"@ != "Datetime"@,
        "Decimal"@ != "Duration"@,
        "List"@ != "Categorical"@,
        "List"@ != "Enum"@,
        "List"@ != "Datetime"@,
        "List"@ != "Duration"@,
        "List"@ != "Decimal"@,
        "Array"@ != "Categorical"@,
        "Array"@ != "Enum"@,
        "Array"@ != "Datetime"@,
        "Array"@ != "Duration"@,
        "Array"@ != "Decimal"@,
        "Array"@ != "List"@,
        "Struct"@ != "Categorical"@,
        "Struct"@ != "Enum"@,
        "Struct"@ != "Datetime"@,
        "Struct"@ != "Duration"@,
        "Struct"@ != "Decimal"@,
        "Struct"@ != "List"@,
        "Struct"@ != "Array"@,
        "Object"@ != "Categorical"@,
        "Object"@ != "Enum"@,
        "Object"@ != "Datetime"@,
        "Object"@ != "Duration"@,
        "Object"@ != "Decimal"@,
        "Object"@ != "List"@,
        "Object"@ != "Array"@,
        "Object"@ != "Struct"@,
        "us"@ != "ns"@,
        "ms"@ != "ns"@,
        "ms"@ != "us"@,
        "lexical"@ != "physical"@,
{
    reveal_strlit("Int8");
    reveal_strlit("Int16");
    reveal_strlit("Int32");
    reveal_strlit("Int64");
    reveal_strlit("UInt8");
    reveal_strlit("UInt16");
    reveal_strlit("UInt32");
    reveal_strlit("UInt64");
    reveal_strlit("Float32");
    reveal_strlit("Float64");
    reveal_strlit("Boolean");
    reveal_strlit("String");
    reveal_strlit("Binary");
    reveal_strlit("Date");
    reveal_strlit("Time");
    reveal_strlit("Null");
    reveal_strlit("Unknown");
    reveal_strlit("Categorical");
    reveal_strlit("Enum");
    reveal_strlit("Datetime");
    reveal_strlit("Duration");
    reveal_strlit("Decimal");
    reveal_strlit("List");
    reveal_strlit("Array");
    reveal_strlit("Struct");
    reveal_strlit("Object");
    reveal_strlit("ns");
    reveal_strlit("us");
    reveal_strlit("ms");
    reveal_strlit("physical");
    reveal_strlit("lexical");
    assert("Int8"@.len() == 4);
    assert("Int8"@[0] == 'I');
    assert("Int8"@[1] == 'n');
    assert("Int8"@[2] == 't');
    assert("Int8"@[3] == '8');
    assert("Int16"@.len() == 5);
    assert("Int16"@[0] == 'I');
    assert("Int16"@[1] == 'n');
    assert("Int16"@[2] == 't');
    assert("Int16"@[3] == '1');
    assert("Int16"@[4] == '6');
    assert("Int32"@.len() == 5);
    assert("Int32"@[0] == 'I');
    assert("Int32"@[1] == 'n');
    assert("Int32"@[2] == 't');
    assert("Int32"@[3] == '3');
    assert("Int32"@[4] == '2');
    assert("Int64"@.len() == 5);
    assert("Int64"@[0] == 'I');
    assert("Int64"@[1] == 'n');
    assert("Int64"@[2] == 't');
    assert("Int64"@[3] == '6');
    assert("Int64"@[4] == '4');
    assert("UInt8"@.len() == 5);
    assert("UInt8"@[0] == 'U');
    assert("UInt8"@[1] == 'I');
    assert("UInt8"@[2] == 'n');
    assert("UInt8"@[3] == 't');
    assert("UInt8"@[4] == '8');
    assert("UInt16"@.len() == 6);
    assert("UInt16"@[0] == 'U');
    assert("UInt16"@[1] == 'I');
    assert("UInt16"@[2] == 'n');
    assert("UInt16"@[3] == 't');
    assert("UInt16"@[4] == '1');
    assert("UInt16"@[5] == '6');
    assert("UInt32"@.len() == 6);
    assert("UInt32"@[0] == 'U');
    assert("UInt32"@[1] == 'I');
    assert("UInt32"@[2] == 'n');
    assert("UInt32"@[3] == 't');
    assert("UInt32"@[4] == '3');
    assert("UInt32"@[5] == '2');
    assert("UInt64"@.len() == 6);
    assert("UInt64"@[0] == 'U');
    assert("UInt64"@[1] == 'I');
    assert("UInt64"@[2] == 'n');
    assert("UInt64"@[3] == 't');
    assert("UInt64"@[4] == '6');
    assert("UInt64"@[5] == '4');
    assert("Float32"@.len() == 7);
    assert("Float32"@[0] == 'F');
    assert("Float32"@[1] == 'l');
    assert("Float32"@[2] == 'o');
    assert("Float32"@[3] == 'a');
    assert("Float32"@[4] == 't');
    assert("Float32"@[5] == '3');
    assert("Float32"@[6] == '2');
    assert("Float64"@.len() == 7);
    assert("Float64"@[0] == 'F');
    assert("Float64"@[1] == 'l');
    assert("Float64"@[2] == 'o');
    assert("Float64"@[3] == 'a');
    assert("Float64"@[4] == 't');
    assert("Float64"@[5] == '6');
    assert("Float64"@[6] == '4');
    assert("Boolean"@.len() == 7);
    assert("Boolean"@[0] == 'B');
    assert("Boolean"@[1] == 'o');
    assert("Boolean"@[2] == 'o');
    assert("Boolean"@[3] == 'l');
    assert("Boolean"@[4] == 'e');
    assert("Boolean"@[5] == 'a');
    assert("Boolean"@[6] == 'n');
    assert("String"@.len() == 6);
    assert("String"@[0] == 'S');
    assert("String"@[1] == 't');
    assert("String"@[2] == 'r');
    assert("String"@[3] == 'i');
    assert("String"@[4] == 'n');
    assert("String"@[5] == 'g');
    assert("Binary"@.len() == 6);
    assert("Binary"@[0] == 'B');
    assert("Binary"@[1] == 'i');
    assert("Binary"@[2] == 'n');
    assert("Binary"@[3] == 'a');
    assert("Binary"@[4] == 'r');
    assert("Binary"@[5] == 'y');
    assert("Date"@.len() == 4);
    assert("Date"@[0] == 'D');
    assert("Date"@[1] == 'a');
    assert("Date"@[2] == 't');
    assert("Date"@[3] == 'e');
    assert("Time"@.len() == 4);
    assert("Time"@[0] == 'T');
    assert("Time"@[1] == 'i');
    assert("Time"@[2] == 'm');
    assert("Time"@[3] == 'e');
    assert("Null"@.len() == 4);
    assert("Null"@[0] == 'N');
    assert("Null"@[1] == 'u');
    assert("Null"@[2] == 'l');
    assert("Null"@[3] == 'l');
    assert("Unknown"@.len() == 7);
    assert("Unknown"@[0] == 'U');
    assert("Unknown"@[1] == 'n');
    assert("Unknown"@[2] == 'k');
    assert("Unknown"@[3] == 'n');
    assert("Unknown"@[4] == 'o');
    assert("Unknown"@[5] == 'w');
    assert("Unknown"@[6] == 'n');
    assert("Categorical"@.len() == 11);
    assert("Categorical"@[0] == 'C');
    assert("Categorical"@[1] == 'a');
    assert("Categorical"@[2] == 't');
    assert("Categorical"@[3] == 'e');
    assert("Categorical"@[4] == 'g');
    assert("Categorical"@[5] == 'o');
    assert("Categorical"@[6] == 'r');
    assert("Categorical"@[7] == 'i');
    assert("Categorical"@[8] == 'c');
    assert("Categorical"@[9] == 'a');
    assert("Categorical"@[10] == 'l');
    assert("Enum"@.len() == 4);
    assert("Enum"@[0] == 'E');
    assert("Enum"@[1] == 'n');
    assert("Enum"@[2] == 'u');
    assert("Enum"@[3] == 'm');
    assert("Datetime"@.len() == 8);
    assert("Datetime"@[0] == 'D');
    assert("Datetime"@[1] == 'a');
    assert("Datetime"@[2] == 't');
    assert("Datetime"@[3] == 'e');
    assert("Datetime"@[4] == 't');
    assert("Datetime"@[5] == 'i');
    assert("Datetime"@[6] == 'm');
    assert("Datetime"@[7] == 'e');
    assert("Duration"@.len() == 8);
    assert("Duration"@[0] == 'D');
    assert("Duration"@[1] == 'u');
    assert("Duration"@[2] == 'r');
    assert("Duration"@[3] == 'a');
    assert("Duration"@[4] == 't');
    assert("Duration"@[5] == 'i');
    assert("Duration"@[6] == 'o');
    assert("Duration"@[7] == 'n');
    assert("Decimal"@.len() == 7);
    assert("Decimal"@[0] == 'D');
    assert("Decimal"@[1] == 'e');
    assert("Decimal"@[2] == 'c');
    assert("Decimal"@[3] == 'i');
    assert("Decimal"@[4] == 'm');
    assert("Decimal"@[5] == 'a');
    assert("Decimal"@[6] == 'l');
    assert("List"@.len() == 4);
    assert("List"@[0] == 'L');
    assert("List"@[1] == 'i');
    assert("List"@[2] == 's');
    assert("List"@[3] == 't');
    assert("Array"@.len() == 5);
    assert("Array"@[0] == 'A');
    assert("Array"@[1] == 'r');
    assert("Array"@[2] == 'r');
    assert("Array"@[3] == 'a');
    assert("Array"@[4] == 'y');
    assert("Struct"@.len() == 6);
    assert("Struct"@[0] == 'S');
    assert("Struct"@[1] == 't');
    assert("Struct"@[2] == 'r');
    assert("Struct"@[3] == 'u');
    assert("Struct"@[4] == 'c');
    assert("Struct"@[5] == 't');
    assert("Object"@.len() == 6);
    assert("Object"@[0] == 'O');
    assert("Object"@[1] == 'b');
    assert("Object"@[2] == 'j');
    assert("Object"@[3] == 'e');
    assert("Object"@[4] == 'c');
    assert("Object"@[5] == 't');
    assert("ns"@.len() == 2);
    assert("ns"@[0] == 'n');
    assert("ns"@[1] == 's');
    assert("us"@.len() == 2);
    assert("us"@[0] == 'u');
    assert("us"@[1] == 's');
    assert("ms"@.len() == 2);
    assert("ms"@[0] == 'm');
    assert("ms"@[1] == 's');
    assert("physical"@.len() == 8);
    assert("physical"@[0] == 'p');
    assert("physical"@[1] == 'h');
    assert("physical"@[2] == 'y');
    assert("physical"@[3] == 's');
    assert("physical"@[4] == 'i');
    assert("physical"@[5] == 'c');
    assert("physical"@[6] == 'a');
    assert("physical"@[7] == 'l');
    assert("lexical"@.len() == 7);
    assert("lexical"@[0] == 'l');
    assert("lexical"@[1] == 'e');
    assert("lexical"@[2] == 'x');
    assert("lexical"@[3] == 'i');
    assert("lexical"@[4] == 'c');
    assert("lexical"@[5] == 'a');
    assert("lexical"@[6] == 'l');
}

/// Decoding an encoded field sequence restores it exactly, when every
/// field's type round-trips.
pub proof fn lemma_fields_round_trip(fields: Seq<FieldV>)
    requires
        fields_round_trippable(fields),
    ensures
        decode_fields_spec(encode_fields_spec(fields)) == Ok::<Seq<FieldV>, BridgeErrorV>(fields),
    decreases fields,
{
    if fields.len() == 0 {
        assert(fields =~= Seq::<FieldV>::empty());
        assert(decode_fields_spec(encode_fields_spec(fields)) == Ok::<Seq<FieldV>, BridgeErrorV>(
            Seq::<FieldV>::empty(),
        ));
    } else {
        lemma_fields_round_trip(fields.drop_last());
        lemma_dtype_round_trip(fields[fields.len() - 1].dtype);
        let efs = encode_fields_spec(fields);
        let last = fields[fields.len() - 1];
        let init = encode_fields_spec(fields.drop_last());
        let enc_last = HostFieldV { name: last.name, dtype: encode_spec(last.dtype) };
        assert(efs == init.push(enc_last));
        assert(efs.len() == init.len() + 1);
        assert(efs.drop_last() =~= init);
        assert(efs[efs.len() - 1] == enc_last);
        assert(decode_spec(enc_last.dtype) == Ok::<DataTypeV, BridgeErrorV>(last.dtype));
        assert(decode_fields_spec(efs) == Ok::<Seq<FieldV>, BridgeErrorV>(
            fields.drop_last().push(FieldV { name: last.name, dtype: last.dtype }),
        ));
        assert(FieldV { name: last.name, dtype: last.dtype } =~= last);
        assert(fields.drop_last().push(last) =~= fields);
    }
}

/// Decoding an encoded type restores it exactly, for every type that is
/// constructible with explicit parameters and round-trippable at the
/// boundary.
pub proof fn lemma_dtype_round_trip(dt: DataTypeV)
    requires
        round_trippable(dt),
    ensures
        decode_spec(encode_spec(dt)) == Ok::<DataTypeV, BridgeErrorV>(dt),
    decreases dt,
{
    lemma_vocabulary();
    match dt {
        DataTypeV::Array(inner, size) => {
            lemma_dtype_round_trip(*inner);
            assert(Box::new(*inner) == inner);
        },
        DataTypeV::List(inner) => {
            lemma_dtype_round_trip(*inner);
            assert(Box::new(*inner) == inner);
        },
        DataTypeV::Struct(fields) => {
            lemma_fields_round_trip(fields);
        },
        _ => {},
    }
}

/// A bare (unparameterized) identifier decodes to the documented
/// default-parameter variant of its family: list of null, fixed list of
/// null with length zero, empty struct, microsecond datetime with no zone,
/// microsecond duration, decimal with inferred parameters, physically
/// ordered categorical without a reverse mapping, and an empty physically
/// ordered enumeration.
pub proof fn lemma_bare_defaults()
    ensures
        decode_spec(HostDTypeV::Class("List"@)) == Ok::<DataTypeV, BridgeErrorV>(
            DataTypeV::List(Box::new(DataTypeV::Null)),
        ),
        decode_spec(HostDTypeV::Class("Array"@)) == Ok::<DataTypeV, BridgeErrorV>(
            DataTypeV::Array(Box::new(DataTypeV::Null), 0),
        ),
        decode_spec(HostDTypeV::Class("Struct"@)) == Ok::<DataTypeV, BridgeErrorV>(
            DataTypeV::Struct(Seq::empty()),
        ),
        decode_spec(HostDTypeV::Class("Datetime"@)) == Ok::<DataTypeV, BridgeErrorV>(
            DataTypeV::Datetime(TimeUnit::Microseconds, None),
        ),
        decode_spec(HostDTypeV::Class("Duration"@)) == Ok::<DataTypeV, BridgeErrorV>(
            DataTypeV::Duration(TimeUnit::Microseconds),
        ),
        decode_spec(HostDTypeV::Class("Decimal"@)) == Ok::<DataTypeV, BridgeErrorV>(
            DataTypeV::Decimal(None, None),
        ),
        decode_spec(HostDTypeV::Class("Categorical"@)) == Ok::<DataTypeV, BridgeErrorV>(
            DataTypeV::Categorical(None, CategoricalOrdering::Physical),
        ),
        decode_spec(HostDTypeV::Class("Enum"@)) == Ok::<DataTypeV, BridgeErrorV>(
            DataTypeV::Enum(Seq::empty(), CategoricalOrdering::Physical),
        ),
{
    lemma_vocabulary();
}

} // verus!
