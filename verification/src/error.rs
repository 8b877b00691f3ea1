//! Failure taxonomy of the bridge.
//!
//! Every boundary-facing operation returns one of these errors; there is no
//! silent recovery. Each variant carries the offending value so that the
//! human-readable message can name it.
use vstd::prelude::*;
use vstd::string::StringExecFns;

verus! {

/// Mathematical view of a [`BridgeError`].
#[verifier::ext_equal]
pub enum BridgeErrorV {
    UnsupportedType(Seq<char>),
    InvalidTimeUnit(Seq<char>),
    InvalidOrdering(Seq<char>),
    MalformedArguments(Seq<char>),
    LengthMismatch(usize, usize),
    Conversion(Seq<char>),
    PlanDecode(usize),
}

/// An error surfaced to the caller of a boundary operation.
#[derive(Debug, PartialEq)]
pub enum BridgeError {
    /// The identifier names no known data type, or names one whose enabling
    /// build capability is absent.
    UnsupportedType { identifier: String },
    /// A recognized type carried a time-unit code outside the accepted set.
    InvalidTimeUnit { code: String },
    /// A recognized type carried an ordering mode outside the accepted set.
    InvalidOrdering { value: String },
    /// A recognized type's parameter list does not have the expected shape.
    MalformedArguments { identifier: String },
    /// Columns of a table do not all share the height of the first column.
    LengthMismatch { expected: usize, found: usize },
    /// A chunk's payload could not be interpreted as its declared type.
    Conversion { identifier: String },
    /// A plan or expression blob failed to decode at the given byte offset;
    /// tagged distinctly because the likely cause is version skew between
    /// the native and host builds.
    PlanDecode { offset: usize },
}

impl View for BridgeError {
    type V = BridgeErrorV;

    open spec fn view(&self) -> BridgeErrorV {
        match self {
            BridgeError::UnsupportedType { identifier } => BridgeErrorV::UnsupportedType(
                identifier@,
            ),
            BridgeError::InvalidTimeUnit { code } => BridgeErrorV::InvalidTimeUnit(code@),
            BridgeError::InvalidOrdering { value } => BridgeErrorV::InvalidOrdering(value@),
            BridgeError::MalformedArguments { identifier } => BridgeErrorV::MalformedArguments(
                identifier@,
            ),
            BridgeError::LengthMismatch { expected, found } => BridgeErrorV::LengthMismatch(
                *expected,
                *found,
            ),
            BridgeError::Conversion { identifier } => BridgeErrorV::Conversion(identifier@),
            BridgeError::PlanDecode { offset } => BridgeErrorV::PlanDecode(*offset),
        }
    }
}

/// View of a boundary result: both payload and error replaced by their views.
pub open spec fn res_view<T: View, E: View>(r: Result<T, E>) -> Result<T::V, E::V> {
    match r {
        Ok(t) => Ok(t.view()),
        Err(e) => Err(e.view()),
    }
}

impl BridgeError {
    /// The human-readable text of this error.
    pub open spec fn message_spec(&self) -> Seq<char> {
        match self@ {
            BridgeErrorV::UnsupportedType(id) => "'"@ + id
                + "' is not a supported data type, or the required capability was not enabled at build time"@,
            BridgeErrorV::InvalidTimeUnit(code) => "time_unit must be one of {'ns', 'us', 'ms'}, got "@
                + code,
            BridgeErrorV::InvalidOrdering(value) => "invalid ordering argument: "@ + value,
            BridgeErrorV::MalformedArguments(id) => "malformed parameters for data type '"@ + id
                + "'"@,
            BridgeErrorV::LengthMismatch(_, _) => "could not create a table: columns do not all have the same height"@,
            BridgeErrorV::Conversion(id) => "could not interpret chunk data as declared type '"@
                + id + "'"@,
            BridgeErrorV::PlanDecode(_) => "failed to deserialize the plan blob; this may be due to mismatched versions of the native and host builds"@,
        }
    }

    /// Render the human-readable text of this error.
    pub fn message(&self) -> (r: String)
        ensures
            r@ == self.message_spec(),
    {
        match self {
            BridgeError::UnsupportedType { identifier } => {
                let mut s = String::from_str("'");
                s.append(identifier.as_str());
                s.append(
                    "' is not a supported data type, or the required capability was not enabled at build time",
                );
                s
            },
            BridgeError::InvalidTimeUnit { code } => {
                let mut s = String::from_str("time_unit must be one of {'ns', 'us', 'ms'}, got ");
                s.append(code.as_str());
                s
            },
            BridgeError::InvalidOrdering { value } => {
                let mut s = String::from_str("invalid ordering argument: ");
                s.append(value.as_str());
                s
            },
            BridgeError::MalformedArguments { identifier } => {
                let mut s = String::from_str("malformed parameters for data type '");
                s.append(identifier.as_str());
                s.append("'");
                s
            },
            BridgeError::LengthMismatch { expected: _, found: _ } => String::from_str(
                "could not create a table: columns do not all have the same height",
            ),
            BridgeError::Conversion { identifier } => {
                let mut s = String::from_str("could not interpret chunk data as declared type '");
                s.append(identifier.as_str());
                s.append("'");
                s
            },
            BridgeError::PlanDecode { offset: _ } => String::from_str(
                "failed to deserialize the plan blob; this may be due to mismatched versions of the native and host builds",
            ),
        }
    }
}

} // verus!
