//! Plain-value representation of the host runtime's type objects.
//!
//! The host exposes a type either as a *bare class* (an identifier with no
//! parameters) or as a *parameterized instance* (an identifier plus an ordered
//! constructor argument list). The bridge decides between the two cases once,
//! before any type-specific dispatch. The thin glue outside the library turns
//! real host objects into these values and back.
use vstd::prelude::*;

verus! {

/// Mathematical view of a [`HostField`].
#[verifier::ext_equal]
pub struct HostFieldV {
    pub name: Seq<char>,
    pub dtype: HostDTypeV,
}

/// Mathematical view of a [`HostArg`].
#[verifier::ext_equal]
pub enum HostArgV {
    TypeObj(Box<HostDTypeV>),
    UIntVal(usize),
    OptUInt(Option<usize>),
    StrVal(Seq<char>),
    OptStr(Option<Seq<char>>),
    FieldObjs(Seq<HostFieldV>),
    Categories(Seq<Seq<char>>),
}

/// Mathematical view of a [`HostDType`].
#[verifier::ext_equal]
pub enum HostDTypeV {
    Class(Seq<char>),
    Instance(Seq<char>, Seq<HostArgV>),
}

/// One constructor argument of a host type instance.
#[derive(Debug, PartialEq)]
pub enum HostArg {
    /// A nested type object.
    TypeObj(Box<HostDType>),
    /// An unsigned size, such as a fixed-list length.
    UIntVal(usize),
    /// An optional unsigned value, such as a decimal precision or scale.
    OptUInt(Option<usize>),
    /// A required string, such as a time-unit code or an ordering mode.
    StrVal(String),
    /// An optional string, such as a time-zone name.
    OptStr(Option<String>),
    /// An ordered list of named sub-field objects.
    FieldObjs(Vec<HostField>),
    /// The ordered category vector backing an enumeration.
    Categories(Vec<String>),
}

/// A host field object: a name plus a nested type object.
#[derive(Debug, PartialEq)]
pub struct HostField {
    pub name: String,
    pub dtype: HostDType,
}

/// A host type object, as seen by the bridge.
#[derive(Debug, PartialEq)]
pub enum HostDType {
    /// A bare class reference carrying only its identifier.
    Class(String),
    /// A parameterized instance: identifier plus ordered constructor
    /// arguments.
    Instance(String, Vec<HostArg>),
}

/// View of a sequence of host strings.
pub open spec fn host_strings_view(s: Seq<String>) -> Seq<Seq<char>> {
    Seq::new(s.len(), |i: int| s[i]@)
}

/// View of a host argument sequence, elementwise.
pub open spec fn host_args_view(s: Seq<HostArg>) -> Seq<HostArgV>
    decreases s,
{
    if s.len() == 0 {
        Seq::empty()
    } else {
        host_args_view(s.drop_last()).push(host_arg_view(s[s.len() - 1]))
    }
}

/// View of a host field sequence, elementwise.
pub open spec fn host_fields_view(s: Seq<HostField>) -> Seq<HostFieldV>
    decreases s,
{
    if s.len() == 0 {
        Seq::empty()
    } else {
        host_fields_view(s.drop_last()).push(host_field_view(s[s.len() - 1]))
    }
}

/// View of one host field object.
pub open spec fn host_field_view(f: HostField) -> HostFieldV
    decreases f,
{
    HostFieldV { name: f.name@, dtype: host_dtype_view(f.dtype) }
}

/// View of one host argument.
pub open spec fn host_arg_view(a: HostArg) -> HostArgV
    decreases a,
{
    match a {
        HostArg::TypeObj(t) => HostArgV::TypeObj(Box::new(host_dtype_view(*t))),
        HostArg::UIntVal(n) => HostArgV::UIntVal(n),
        HostArg::OptUInt(n) => HostArgV::OptUInt(n),
        HostArg::StrVal(s) => HostArgV::StrVal(s@),
        HostArg::OptStr(s) => HostArgV::OptStr(
            match s {
                Some(z) => Some(z@),
                None => None,
            },
        ),
        HostArg::FieldObjs(fs) => HostArgV::FieldObjs(host_fields_view(fs@)),
        HostArg::Categories(cs) => HostArgV::Categories(host_strings_view(cs@)),
    }
}

/// View of a host type object.
pub open spec fn host_dtype_view(h: HostDType) -> HostDTypeV
    decreases h,
{
    match h {
        HostDType::Class(id) => HostDTypeV::Class(id@),
        HostDType::Instance(id, args) => HostDTypeV::Instance(id@, host_args_view(args@)),
    }
}

impl View for HostField {
    type V = HostFieldV;

    open spec fn view(&self) -> HostFieldV {
        host_field_view(*self)
    }
}

impl View for HostArg {
    type V = HostArgV;

    open spec fn view(&self) -> HostArgV {
        host_arg_view(*self)
    }
}

impl View for HostDType {
    type V = HostDTypeV;

    open spec fn view(&self) -> HostDTypeV {
        host_dtype_view(*self)
    }
}

/// The view of a host argument sequence has the same length, elementwise.
pub proof fn lemma_host_args_view_index(s: Seq<HostArg>, i: int)
    requires
        0 <= i < s.len(),
    ensures
        host_args_view(s).len() == s.len(),
        host_args_view(s)[i] == host_arg_view(s[i]),
    decreases s,
{
    lemma_host_args_view_len(s);
    if i < s.len() - 1 {
        lemma_host_args_view_index(s.drop_last(), i);
    }
}

/// The view of a host argument sequence has the same length.
pub proof fn lemma_host_args_view_len(s: Seq<HostArg>)
    ensures
        host_args_view(s).len() == s.len(),
    decreases s,
{
    if s.len() > 0 {
        lemma_host_args_view_len(s.drop_last());
    }
}

/// The view of a host field sequence has the same length.
pub proof fn lemma_host_fields_view_len(s: Seq<HostField>)
    ensures
        host_fields_view(s).len() == s.len(),
    decreases s,
{
    if s.len() > 0 {
        lemma_host_fields_view_len(s.drop_last());
    }
}

/// Elementwise description of the host field sequence view.
pub proof fn lemma_host_fields_view_index(s: Seq<HostField>, i: int)
    requires
        0 <= i < s.len(),
    ensures
        host_fields_view(s).len() == s.len(),
        host_fields_view(s)[i] == host_field_view(s[i]),
    decreases s,
{
    lemma_host_fields_view_len(s);
    if i < s.len() - 1 {
        lemma_host_fields_view_index(s.drop_last(), i);
    }
}

} // verus!
