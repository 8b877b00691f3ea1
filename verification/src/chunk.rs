//! Zero-copy export and import of one chunk of typed column data.
//!
//! A chunk crosses the boundary as a transient descriptor pair: a *schema
//! descriptor* carrying the recursive logical type, and a *data descriptor*
//! carrying length, null count, offset and the payload. The receiver copies
//! the schema descriptor; the data descriptor's payload is moved, and the
//! pair is consumed by exactly one import call — ownership transfer is by
//! construction, so the payload can be neither leaked by both sides nor
//! released twice.
use vstd::prelude::*;

use crate::codec::decode_dtype;
use crate::codec::decode_spec;
use crate::codec::encode_dtype;
use crate::codec::encode_spec;
use crate::dtype::DataType;
use crate::dtype::DataTypeV;
use crate::dtype::FieldV;
use crate::dtype::has_internal_only;
use crate::error::BridgeError;
use crate::error::BridgeErrorV;
use crate::host::HostDType;

verus! {

broadcast use vstd::std_specs::vec::group_vec_axioms;

/// Mathematical view of a [`Cell`].
#[verifier::ext_equal]
pub enum CellV {
    Null,
    Int(i64),
    UInt(u64),
    F32Bits(u32),
    F64Bits(u64),
    Bool(bool),
    Text(Seq<char>),
    Blob(Seq<u8>),
    List(Seq<CellV>),
}

/// One logical value of a column.
///
/// Signed integer types, dates, times, datetimes, durations and scaled
/// decimals are carried as `Int`; unsigned integer types and the dictionary
/// codes of categorical and enumeration types as `UInt`; floating-point
/// values as their raw bit patterns, which the bridge moves without
/// interpreting; list, fixed-list and struct values as `List` of their
/// children.
#[derive(Debug, PartialEq)]
pub enum Cell {
    Null,
    Int(i64),
    UInt(u64),
    F32Bits(u32),
    F64Bits(u64),
    Bool(bool),
    Text(String),
    Blob(Vec<u8>),
    List(Vec<Cell>),
}

/// View of a sequence of cells, elementwise.
pub open spec fn cells_view(s: Seq<Cell>) -> Seq<CellV>
    decreases s,
{
    if s.len() == 0 {
        Seq::empty()
    } else {
        cells_view(s.drop_last()).push(cell_view(s[s.len() - 1]))
    }
}

/// View of one cell.
pub open spec fn cell_view(c: Cell) -> CellV
    decreases c,
{
    match c {
        Cell::Null => CellV::Null,
        Cell::Int(v) => CellV::Int(v),
        Cell::UInt(v) => CellV::UInt(v),
        Cell::F32Bits(v) => CellV::F32Bits(v),
        Cell::F64Bits(v) => CellV::F64Bits(v),
        Cell::Bool(v) => CellV::Bool(v),
        Cell::Text(s) => CellV::Text(s@),
        Cell::Blob(b) => CellV::Blob(b@),
        Cell::List(cs) => CellV::List(cells_view(cs@)),
    }
}

impl View for Cell {
    type V = CellV;

    open spec fn view(&self) -> CellV {
        cell_view(*self)
    }
}

/// The cell sequence view has the same length.
pub proof fn lemma_cells_view_len(s: Seq<Cell>)
    ensures
        cells_view(s).len() == s.len(),
    decreases s,
{
    if s.len() > 0 {
        lemma_cells_view_len(s.drop_last());
    }
}

/// Whether one cell is a valid value of the given type. A null is valid at
/// every type; every other cell must carry the representation of its type,
/// within its range.
pub open spec fn cell_matches(dt: DataTypeV, c: CellV) -> bool
    decreases c,
{
    match c {
        CellV::Null => true,
        CellV::Int(v) => match dt {
            DataTypeV::Int8 => -128 <= v <= 127,
            DataTypeV::Int16 => -0x8000 <= v <= 0x7fff,
            DataTypeV::Int32 => -0x8000_0000 <= v <= 0x7fff_ffff,
            DataTypeV::Int64 => true,
            DataTypeV::Date => true,
            DataTypeV::Time => true,
            DataTypeV::Datetime(_, _) => true,
            DataTypeV::Duration(_) => true,
            DataTypeV::Decimal(_, _) => true,
            _ => false,
        },
        CellV::UInt(v) => match dt {
            DataTypeV::UInt8 => v <= 255,
            DataTypeV::UInt16 => v <= 0xffff,
            DataTypeV::UInt32 => v <= 0xffff_ffff,
            DataTypeV::UInt64 => true,
            DataTypeV::Categorical(rev, _) => match rev {
                Some(cats) => v < cats.len(),
                None => true,
            },
            DataTypeV::Enum(cats, _) => v < cats.len(),
            _ => false,
        },
        CellV::F32Bits(_) => dt is Float32,
        CellV::F64Bits(_) => dt is Float64,
        CellV::Bool(_) => dt is Boolean,
        CellV::Text(_) => dt is Utf8,
        CellV::Blob(_) => dt is Binary,
        CellV::List(cs) => match dt {
            DataTypeV::List(inner) => cells_all_match(*inner, cs),
            DataTypeV::Array(inner, size) => cs.len() == size && cells_all_match(*inner, cs),
            DataTypeV::Struct(fields) => cells_match_fields(fields, cs),
            _ => false,
        },
    }
}

/// Whether every cell of a sequence is valid at the given type.
pub open spec fn cells_all_match(dt: DataTypeV, cs: Seq<CellV>) -> bool
    decreases cs,
{
    if cs.len() == 0 {
        true
    } else {
        cells_all_match(dt, cs.drop_last()) && cell_matches(dt, cs[cs.len() - 1])
    }
}

/// Whether a cell sequence is a valid struct row: one child cell per field,
/// each valid at its field's type.
pub open spec fn cells_match_fields(fields: Seq<FieldV>, cs: Seq<CellV>) -> bool
    decreases cs,
{
    if cs.len() == 0 {
        fields.len() == 0
    } else if fields.len() != cs.len() {
        false
    } else {
        cells_match_fields(fields.drop_last(), cs.drop_last()) && cell_matches(
            fields[cs.len() - 1].dtype,
            cs[cs.len() - 1],
        )
    }
}

/// A sequence is valid exactly when each of its cells is.
pub proof fn lemma_cells_all_match_iff(dt: DataTypeV, cs: Seq<CellV>)
    ensures
        cells_all_match(dt, cs) <==> (forall|i: int|
            0 <= i < cs.len() ==> cell_matches(dt, #[trigger] cs[i])),
    decreases cs,
{
    if cs.len() > 0 {
        lemma_cells_all_match_iff(dt, cs.drop_last());
        assert(forall|i: int| 0 <= i < cs.len() - 1 ==> cs.drop_last()[i] == #[trigger] cs[i]);
    }
}

/// The number of nulls in a sequence of cells.
pub open spec fn count_nulls(cs: Seq<CellV>) -> int
    decreases cs,
{
    if cs.len() == 0 {
        0
    } else {
        count_nulls(cs.drop_last()) + if cs[cs.len() - 1] is Null {
            1int
        } else {
            0int
        }
    }
}

/// One contiguous segment of a column's values.
#[derive(Debug, PartialEq)]
pub struct Chunk {
    pub cells: Vec<Cell>,
}

impl View for Chunk {
    type V = Seq<CellV>;

    open spec fn view(&self) -> Seq<CellV> {
        cells_view(self.cells@)
    }
}

/// The transferable description of a chunk's logical type. The receiver
/// always copies it, so the sender may release its own allocation as soon
/// as the call returns.
#[derive(Debug, PartialEq)]
pub struct SchemaDescriptor {
    /// The recursive type tag tree.
    pub dtype_repr: HostDType,
}

/// The transferable description of a chunk's data. The payload is moved:
/// the descriptor is consumed by exactly one import call, so exactly one
/// side ever releases the underlying memory.
#[derive(Debug, PartialEq)]
pub struct DataDescriptor {
    /// Number of logical values.
    pub length: usize,
    /// Number of nulls among them.
    pub null_count: usize,
    /// Offset of the first logical value inside the payload.
    pub offset: usize,
    /// The payload, moved across the boundary.
    pub cells: Vec<Cell>,
}

/// Whether a data descriptor is internally consistent.
pub open spec fn data_descriptor_wf(d: DataDescriptor) -> bool {
    &&& d.length == cells_view(d.cells@).len()
    &&& d.null_count == count_nulls(cells_view(d.cells@))
    &&& d.offset == 0
}

/// Count the nulls of a chunk payload.
fn count_nulls_exec(cells: &Vec<Cell>) -> (r: usize)
    ensures
        r == count_nulls(cells_view(cells@)),
{
    let mut i: usize = 0;
    let mut n: usize = 0;
    proof {
        assert(cells_view(cells@.take(0)) =~= Seq::<CellV>::empty());
    }
    while i < cells.len()
        invariant
            i <= cells.len(),
            n == count_nulls(cells_view(cells@.take(i as int))),
            n <= i,
        decreases cells.len() - i,
    {
        proof {
            let prev = cells_view(cells@.take(i as int));
            let cur = cells_view(cells@.take(i + 1));
            assert(cells@.take(i + 1).drop_last() =~= cells@.take(i as int));
            lemma_cells_view_len(cells@.take(i + 1));
            assert(cells@.take(i + 1)[i as int] == cells@[i as int]);
            assert(cur == prev.push(cell_view(cells@[i as int])));
            assert(cur.drop_last() =~= prev);
        }
        let is_null = match &cells[i] {
            Cell::Null => true,
            _ => false,
        };
        if is_null {
            n = n + 1;
        }
        i = i + 1;
    }
    proof {
        assert(cells@.take(cells@.len() as int) =~= cells@);
    }
    n
}

/// Whether every cell of a payload is valid at the given type.
#[verifier::loop_isolation(false)]
pub fn cells_match_exec(dt: &DataType, cells: &Vec<Cell>) -> (r: bool)
    ensures
        r == cells_all_match(dt@, cells_view(cells@)),
    decreases *cells,
{
    let mut i: usize = 0;
    let mut ok = true;
    proof {
        assert(cells_view(cells@.take(0)) =~= Seq::<CellV>::empty());
    }
    while i < cells.len()
        invariant
            i <= cells.len(),
            ok == cells_all_match(dt@, cells_view(cells@.take(i as int))),
        decreases cells.len() - i,
    {
        proof {
            assert(decreases_to!(*cells => cells@));
            assert(decreases_to!(cells@ => cells@[i as int]));
            let prev = cells_view(cells@.take(i as int));
            let cur = cells_view(cells@.take(i + 1));
            assert(cells@.take(i + 1).drop_last() =~= cells@.take(i as int));
            lemma_cells_view_len(cells@.take(i + 1));
            assert(cells@.take(i + 1)[i as int] == cells@[i as int]);
            assert(cur == prev.push(cell_view(cells@[i as int])));
            assert(cur.drop_last() =~= prev);
        }
        if !cell_match_exec(dt, &cells[i]) {
            ok = false;
        }
        i = i + 1;
    }
    proof {
        assert(cells@.take(cells@.len() as int) =~= cells@);
    }
    ok
}

/// Whether one cell is valid at the given type.
#[verifier::loop_isolation(false)]
pub fn cell_match_exec(dt: &DataType, c: &Cell) -> (r: bool)
    ensures
        r == cell_matches(dt@, c@),
    decreases *c,
{
    proof {
        crate::dtype::lemma_dtype_view_variant(*dt);
    }
    let r = match c {
        Cell::Null => true,
        Cell::Int(v) => {
            proof {
                assert(c@ == CellV::Int(*v));
            }
            match dt {
                DataType::Int8 => -128 <= *v && *v <= 127,
                DataType::Int16 => -0x8000 <= *v && *v <= 0x7fff,
                DataType::Int32 => -0x8000_0000 <= *v && *v <= 0x7fff_ffff,
                DataType::Int64 => true,
                DataType::Date => true,
                DataType::Time => true,
                DataType::Datetime(_, _) => true,
                DataType::Duration(_) => true,
                DataType::Decimal(_, _) => true,
                _ => false,
            }
        },
        Cell::UInt(v) => {
            proof {
                assert(c@ == CellV::UInt(*v));
            }
            match dt {
                DataType::UInt8 => *v <= 255,
                DataType::UInt16 => *v <= 0xffff,
                DataType::UInt32 => *v <= 0xffff_ffff,
                DataType::UInt64 => true,
                DataType::Categorical(rev, _) => match rev {
                    Some(cats) => *v < cats.len() as u64,
                    None => true,
                },
                DataType::Enum(cats, _) => *v < cats.len() as u64,
                _ => false,
            }
        },
        Cell::F32Bits(_) => matches!(dt, DataType::Float32),
        Cell::F64Bits(_) => matches!(dt, DataType::Float64),
        Cell::Bool(_) => matches!(dt, DataType::Boolean),
        Cell::Text(_) => matches!(dt, DataType::Utf8),
        Cell::Blob(_) => matches!(dt, DataType::Binary),
        Cell::List(cs) => {
            proof {
                assert(c@ == CellV::List(cells_view(cs@)));
            }
            match dt {
                DataType::List(inner) => {
                    proof {
                        assert(dt@ == DataTypeV::List(Box::new((**inner)@)));
                        assert(*(dt@->List_0) == (**inner)@);
                    }
                    cells_match_exec(inner, cs)
                },
                DataType::Array(inner, size) => {
                    proof {
                        assert(dt@ == DataTypeV::Array(Box::new((**inner)@), *size));
                        assert(*(dt@->Array_0) == (**inner)@);
                        lemma_cells_view_len(cs@);
                    }
                    let len_ok = cs.len() == *size;
                    len_ok && cells_match_exec(inner, cs)
                },
                DataType::Struct(fields) => {
                    proof {
                        assert(dt@ == DataTypeV::Struct(crate::dtype::fields_view(fields@)));
                        lemma_cells_view_len(cs@);
                        crate::dtype::lemma_fields_view_len(fields@);
                    }
                    if fields.len() != cs.len() {
                        false
                    } else {
                        cells_match_struct(fields, cs)
                    }
                },
                _ => false,
            }
        },
    };
    proof {
        assert(r == cell_matches(dt@, c@));
    }
    r
}

/// Whether a cell sequence is a valid row of the given fields.
#[verifier::loop_isolation(false)]
fn cells_match_struct(fields: &Vec<crate::dtype::Field>, cs: &Vec<Cell>) -> (r: bool)
    requires
        fields@.len() == cs@.len(),
    ensures
        r == cells_match_fields(crate::dtype::fields_view(fields@), cells_view(cs@)),
    decreases *cs,
{
    let mut i: usize = 0;
    let mut ok = true;
    proof {
        assert(cells_view(cs@.take(0)) =~= Seq::<CellV>::empty());
        assert(crate::dtype::fields_view(fields@.take(0)) =~= Seq::<FieldV>::empty());
    }
    while i < cs.len()
        invariant
            i <= cs.len(),
            ok == cells_match_fields(
                crate::dtype::fields_view(fields@.take(i as int)),
                cells_view(cs@.take(i as int)),
            ),
        decreases cs.len() - i,
    {
        proof {
            assert(decreases_to!(*cs => cs@));
            assert(decreases_to!(cs@ => cs@[i as int]));
            let prevf = crate::dtype::fields_view(fields@.take(i as int));
            let curf = crate::dtype::fields_view(fields@.take(i + 1));
            assert(fields@.take(i + 1).drop_last() =~= fields@.take(i as int));
            crate::dtype::lemma_fields_view_len(fields@.take(i + 1));
            crate::dtype::lemma_fields_view_len(fields@.take(i as int));
            assert(fields@.take(i + 1)[i as int] == fields@[i as int]);
            assert(curf == prevf.push(crate::dtype::field_view(fields@[i as int])));
            assert(curf.drop_last() =~= prevf);
            let prevc = cells_view(cs@.take(i as int));
            let curc = cells_view(cs@.take(i + 1));
            assert(cs@.take(i + 1).drop_last() =~= cs@.take(i as int));
            lemma_cells_view_len(cs@.take(i + 1));
            lemma_cells_view_len(cs@.take(i as int));
            assert(cs@.take(i + 1)[i as int] == cs@[i as int]);
            assert(curc == prevc.push(cell_view(cs@[i as int])));
            assert(curc.drop_last() =~= prevc);
        }
        if !cell_match_exec(&fields[i].dtype, &cs[i]) {
            ok = false;
        }
        i = i + 1;
    }
    proof {
        assert(cs@.take(cs@.len() as int) =~= cs@);
        assert(fields@.take(fields@.len() as int) =~= fields@);
    }
    ok
}

/// Export one chunk: produce the transferable descriptor pair. The schema
/// descriptor carries the encoded logical type; the data descriptor takes
/// ownership of the payload, with its length and null count filled in.
pub fn export_chunk(dtype: &DataType, chunk: Chunk) -> (r: (SchemaDescriptor, DataDescriptor))
    requires
        !has_internal_only(dtype@),
    ensures
        r.0.dtype_repr@ == encode_spec(dtype@),
        cells_view(r.1.cells@) == chunk@,
        data_descriptor_wf(r.1),
{
    let null_count = count_nulls_exec(&chunk.cells);
    let length = chunk.cells.len();
    proof {
        lemma_cells_view_len(chunk.cells@);
    }
    let schema = SchemaDescriptor { dtype_repr: encode_dtype(dtype) };
    let data = DataDescriptor { length, null_count, offset: 0, cells: chunk.cells };
    (schema, data)
}

/// Import one chunk from a descriptor pair, consuming the pair: read the
/// logical type out of the schema descriptor, then interpret the payload at
/// that type. A payload that does not fit the declared type is a
/// conversion error naming the declared identifier; an unreadable schema
/// descriptor fails with its own decode error. The resulting chunk owns the
/// payload.
pub fn import_chunk(schema: &SchemaDescriptor, data: DataDescriptor) -> (r: Result<
    (DataType, Chunk),
    BridgeError,
>)
    ensures
        match r {
            Ok(p) => decode_spec(schema.dtype_repr@) == Ok::<DataTypeV, BridgeErrorV>(p.0@)
                && cells_all_match(p.0@, cells_view(p.1.cells@)) && cells_view(p.1.cells@)
                == cells_view(data.cells@),
            Err(e) => match decode_spec(schema.dtype_repr@) {
                Err(de) => e@ == de,
                Ok(dt) => !cells_all_match(dt, cells_view(data.cells@)) && e@ is Conversion,
            },
        },
{
    let dtype = match decode_dtype(&schema.dtype_repr) {
        Ok(dt) => dt,
        Err(e) => {
            return Err(e);
        },
    };
    if !cells_match_exec(&dtype, &data.cells) {
        let identifier = match &schema.dtype_repr {
            HostDType::Class(id) => id.clone(),
            HostDType::Instance(id, _) => id.clone(),
        };
        return Err(BridgeError::Conversion { identifier });
    }
    Ok((dtype, Chunk { cells: data.cells }))
}


} // verus!
