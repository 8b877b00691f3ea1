//! Encode and decode of one named, typed column.
//!
//! Before export a series is forced into a single contiguous chunk, so the
//! boundary protocol is simply "each chunk exported independently" with one
//! chunk. A *compatibility level* is negotiated once per export: the host is
//! probed for its newest supported level; if the probe yields nothing, the
//! oldest, most conservative level is assumed.
use vstd::prelude::*;

use crate::chunk::Cell;
use crate::chunk::CellV;
use crate::chunk::Chunk;
use crate::chunk::DataDescriptor;
use crate::chunk::SchemaDescriptor;
use crate::chunk::cells_all_match;
use crate::chunk::cells_view;
use crate::chunk::data_descriptor_wf;
use crate::chunk::export_chunk;
use crate::chunk::import_chunk;
use crate::chunk::lemma_cells_all_match_iff;
use crate::chunk::lemma_cells_view_len;
use crate::codec::decode_spec;
use crate::codec::encode_spec;
use crate::dtype::DataType;
use crate::dtype::DataTypeV;
use crate::dtype::has_internal_only;
use crate::error::BridgeError;
use crate::error::BridgeErrorV;

verus! {

broadcast use vstd::std_specs::vec::group_vec_axioms;

/// The newest compatibility level this bridge understands.
pub open spec fn newest_level_spec() -> u16 {
    1
}

/// A negotiated boundary compatibility level: a small ordinal no newer than
/// what this bridge understands. The oldest level, zero, guarantees the
/// broadest compatibility.
#[derive(Clone, Copy, Debug, PartialEq, Eq, Structural)]
pub struct CompatLevel {
    pub level: u16,
}

/// Whether a compatibility level value is one this bridge understands.
pub open spec fn compat_level_wf(c: CompatLevel) -> bool {
    c.level <= newest_level_spec()
}

impl CompatLevel {
    /// The newest level.
    pub fn newest() -> (r: CompatLevel)
        ensures
            r.level == newest_level_spec(),
            compat_level_wf(r),
    {
        CompatLevel { level: 1 }
    }

    /// The oldest, most conservative level.
    pub fn oldest() -> (r: CompatLevel)
        ensures
            r.level == 0,
            compat_level_wf(r),
    {
        CompatLevel { level: 0 }
    }

    /// Accept a level if this bridge understands it.
    pub fn with_level(level: u16) -> (r: Option<CompatLevel>)
        ensures
            match r {
                Some(c) => level <= newest_level_spec() && c.level == level && compat_level_wf(c),
                None => level > newest_level_spec(),
            },
    {
        if level <= 1 {
            Some(CompatLevel { level })
        } else {
            None
        }
    }

    /// The raw ordinal.
    pub fn get_level(self) -> (r: u16)
        ensures
            r == self.level,
    {
        self.level
    }
}

/// The negotiated level for a probed host capability: the probed level when
/// this bridge understands it, the newest known level when the probe names
/// something newer, and the oldest level when the host offers no probe.
pub open spec fn negotiate_spec(probe: Option<u16>) -> CompatLevel {
    match probe {
        None => CompatLevel { level: 0 },
        Some(l) => if l <= newest_level_spec() {
            CompatLevel { level: l }
        } else {
            CompatLevel { level: newest_level_spec() }
        },
    }
}

/// Negotiate the compatibility level from the host's probed answer, if the
/// probe hook existed.
pub fn negotiate_compat_level(probe: Option<u16>) -> (r: CompatLevel)
    ensures
        r == negotiate_spec(probe),
        compat_level_wf(r),
{
    match probe {
        None => CompatLevel::oldest(),
        Some(l) => match CompatLevel::with_level(l) {
            Some(c) => c,
            None => CompatLevel::newest(),
        },
    }
}

/// Mathematical view of a [`Series`].
#[verifier::ext_equal]
pub struct SeriesV {
    pub name: Seq<char>,
    pub dtype: DataTypeV,
    pub chunks: Seq<Seq<CellV>>,
}

/// A named, typed, chunked column.
#[derive(Debug, PartialEq)]
pub struct Series {
    pub name: String,
    pub dtype: DataType,
    pub chunks: Vec<Chunk>,
}

/// View of a chunk sequence, elementwise.
pub open spec fn chunks_view(s: Seq<Chunk>) -> Seq<Seq<CellV>> {
    Seq::new(s.len(), |i: int| cells_view(s[i].cells@))
}

impl View for Series {
    type V = SeriesV;

    open spec fn view(&self) -> SeriesV {
        SeriesV { name: self.name@, dtype: self.dtype@, chunks: chunks_view(self.chunks@) }
    }
}

/// The logical values of a series: its chunks, in order, flattened.
pub open spec fn series_logical(s: SeriesV) -> Seq<CellV> {
    s.chunks.flatten()
}

/// A well-formed series: its type is boundary safe and every cell of every
/// chunk is valid at its type.
pub open spec fn series_wf(s: SeriesV) -> bool {
    &&& !has_internal_only(s.dtype)
    &&& forall|i: int| 0 <= i < s.chunks.len() ==> cells_all_match(s.dtype, #[trigger] s.chunks[i])
}

/// Flattening chunks of valid cells yields valid cells.
pub proof fn lemma_flatten_matches(dt: DataTypeV, chunks: Seq<Seq<CellV>>)
    requires
        forall|i: int| 0 <= i < chunks.len() ==> cells_all_match(dt, #[trigger] chunks[i]),
    ensures
        cells_all_match(dt, chunks.flatten()),
    decreases chunks.len(),
{
    if chunks.len() == 0 {
        assert(chunks.flatten() =~= Seq::<CellV>::empty());
    } else {
        assert(chunks.flatten() == chunks.first() + chunks.drop_first().flatten());
        lemma_flatten_matches(dt, chunks.drop_first());
        lemma_cells_all_match_iff(dt, chunks.first());
        lemma_cells_all_match_iff(dt, chunks.drop_first().flatten());
        lemma_cells_all_match_iff(dt, chunks.flatten());
        assert forall|i: int| 0 <= i < chunks.flatten().len() implies cell_ok(
            dt,
            chunks.flatten(),
            i,
        ) by {
            let head = chunks.first();
            if i < head.len() {
                assert(chunks.flatten()[i] == head[i]);
            } else {
                assert(chunks.flatten()[i] == chunks.drop_first().flatten()[i - head.len()]);
            }
        }
    }
}

/// One cell of a sequence is valid at the type.
pub open spec fn cell_ok(dt: DataTypeV, cs: Seq<CellV>, i: int) -> bool {
    crate::chunk::cell_matches(dt, cs[i])
}


/// For a series of any supported type, export followed by import preserves
/// the series exactly: the declared type survives the descriptor round trip
/// for every round-trippable type, and the payload — every value and every
/// null position — is importable unchanged at that type.
pub proof fn lemma_series_round_trip(s: SeriesV)
    requires
        series_wf(s),
        crate::codec::round_trippable(s.dtype),
    ensures
        crate::codec::decode_spec(crate::codec::encode_spec(s.dtype)) == Ok::<
            DataTypeV,
            BridgeErrorV,
        >(s.dtype),
        cells_all_match(s.dtype, series_logical(s)),
{
    crate::codec::lemma_dtype_round_trip(s.dtype);
    lemma_flatten_matches(s.dtype, s.chunks);
}

/// Force a series into a single contiguous chunk. The name, the type and
/// the logical values are unchanged; afterwards there is exactly one chunk
/// holding all values in order.
pub fn rechunk(s: Series) -> (r: Series)
    ensures
        r@.name == s@.name,
        r@.dtype == s@.dtype,
        r@.chunks.len() == 1,
        r@.chunks[0] == series_logical(s@),
        series_logical(r@) == series_logical(s@),
        series_wf(s@) ==> series_wf(r@),
{
    let Series { name, dtype, chunks } = s;
    let mut cells: Vec<Cell> = Vec::new();
    let mut i: usize = 0;
    let ghost cv = chunks_view(chunks@);
    proof {
        assert(cells_view(cells@) =~= Seq::<CellV>::empty());
        assert(cv.take(0).flatten() =~= Seq::<CellV>::empty()) by {
            assert(cv.take(0) =~= Seq::<Seq<CellV>>::empty());
        }
    }
    while i < chunks.len()
        invariant
            i <= chunks.len(),
            cv == chunks_view(chunks@),
            cells_view(cells@) == cv.take(i as int).flatten(),
        decreases chunks.len() - i,
    {
        let chunk = &chunks[i];
        let mut j: usize = 0;
        let ghost base = cells_view(cells@);
        while j < chunk.cells.len()
            invariant
                j <= chunk.cells.len(),
                i < chunks.len(),
                cv == chunks_view(chunks@),
                chunk == &chunks@[i as int],
                cells_view(cells@) == base + cells_view(chunk.cells@.take(j as int)),
            decreases chunk.cells.len() - j,
        {
            let ghost prev_raw = cells@;
            let ghost prev = cells_view(cells@);
            let cell = copy_cell(&chunk.cells[j]);
            cells.push(cell);
            proof {
                assert(cells@.drop_last() =~= prev_raw);
                assert(cells_view(cells@) == prev.push(crate::chunk::cell_view(cells@[cells@.len()
                    - 1])));
                assert(chunk.cells@.take(j + 1).drop_last() =~= chunk.cells@.take(j as int));
                lemma_cells_view_len(chunk.cells@.take(j + 1));
                assert(chunk.cells@.take(j + 1)[j as int] == chunk.cells@[j as int]);
                assert(cells_view(chunk.cells@.take(j + 1)) == cells_view(
                    chunk.cells@.take(j as int),
                ).push(crate::chunk::cell_view(chunk.cells@[j as int])));
                assert(cells_view(cells@) =~= base + cells_view(chunk.cells@.take(j + 1)));
            }
            j = j + 1;
        }
        proof {
            assert(chunk.cells@.take(chunk.cells@.len() as int) =~= chunk.cells@);
            assert(cv.take(i + 1).drop_last() =~= cv.take(i as int));
            assert(cv.take(i + 1)[i as int] == cv[i as int]);
            cv.take(i as int).lemma_flatten_push(cv[i as int]);
            assert(cv.take(i + 1) =~= cv.take(i as int).push(cv[i as int]));
            assert(cv[i as int] == cells_view(chunks@[i as int].cells@));
            assert(cells_view(cells@) =~= cv.take(i + 1).flatten());
        }
        i = i + 1;
    }
    proof {
        assert(cv.take(cv.len() as int) =~= cv);
    }
    let out = Series { name, dtype, chunks: vec_of_one(Chunk { cells }) };
    proof {
        assert(chunks_view(out.chunks@) =~= seq![cells_view(out.chunks@[0].cells@)]);
        assert(seq![cv.flatten()].flatten() =~= cv.flatten()) by {
            assert(seq![cv.flatten()].drop_first() =~= Seq::<Seq<CellV>>::empty());
        }
        if series_wf(SeriesV { name: name@, dtype: dtype@, chunks: cv }) {
            lemma_flatten_matches(dtype@, cv);
        }
    }
    out
}

/// A vector holding exactly one element.
fn vec_of_one(c: Chunk) -> (r: Vec<Chunk>)
    ensures
        r@.len() == 1,
        r@[0] == c,
{
    let mut v: Vec<Chunk> = Vec::new();
    v.push(c);
    v
}

/// Deep copy of one cell.
fn copy_cell(c: &Cell) -> (r: Cell)
    ensures
        r@ == c@,
    decreases *c,
{
    match c {
        Cell::Null => Cell::Null,
        Cell::Int(v) => Cell::Int(*v),
        Cell::UInt(v) => Cell::UInt(*v),
        Cell::F32Bits(v) => Cell::F32Bits(*v),
        Cell::F64Bits(v) => Cell::F64Bits(*v),
        Cell::Bool(v) => Cell::Bool(*v),
        Cell::Text(s) => Cell::Text(s.clone()),
        Cell::Blob(b) => Cell::Blob(copy_bytes(b)),
        Cell::List(cs) => {
            let mut out: Vec<Cell> = Vec::new();
            let mut i: usize = 0;
            proof {
                assert(cells_view(out@) =~= cells_view(cs@.take(0)));
            }
            while i < cs.len()
                invariant
                    i <= cs.len(),
                    c == Cell::List(*cs),
                    cells_view(out@) == cells_view(cs@.take(i as int)),
                decreases cs.len() - i,
            {
                proof {
                    assert(decreases_to!(*c => c->List_0));
                    assert(c->List_0 == *cs);
                    assert(decreases_to!(*cs => cs@));
                    assert(decreases_to!(cs@ => cs@[i as int]));
                }
                let ghost prev_raw = out@;
                let ghost prev = cells_view(out@);
                let copied = copy_cell(&cs[i]);
                out.push(copied);
                proof {
                    assert(out@.drop_last() =~= prev_raw);
                    assert(cells_view(out@) == prev.push(crate::chunk::cell_view(out@[out@.len()
                        - 1])));
                    assert(cs@.take(i + 1).drop_last() =~= cs@.take(i as int));
                    lemma_cells_view_len(cs@.take(i + 1));
                    assert(cs@.take(i + 1)[i as int] == cs@[i as int]);
                    assert(cells_view(cs@.take(i + 1)) == cells_view(cs@.take(i as int)).push(
                        crate::chunk::cell_view(cs@[i as int]),
                    ));
                }
                i = i + 1;
            }
            proof {
                assert(cs@.take(cs@.len() as int) =~= cs@);
            }
            Cell::List(out)
        },
    }
}

/// Copy a byte vector.
fn copy_bytes(b: &Vec<u8>) -> (r: Vec<u8>)
    ensures
        r@ == b@,
{
    let mut out: Vec<u8> = Vec::new();
    let mut i: usize = 0;
    proof {
        assert(out@ =~= b@.take(0));
    }
    while i < b.len()
        invariant
            i <= b.len(),
            out@ == b@.take(i as int),
        decreases b.len() - i,
    {
        out.push(b[i]);
        proof {
            assert(b@.take(i + 1) =~= b@.take(i as int).push(b@[i as int]));
        }
        i = i + 1;
    }
    proof {
        assert(b@.take(b@.len() as int) =~= b@);
    }
    out
}

/// One exported series: the declared name, the negotiated compatibility
/// level and the descriptor pair of its single rechunked chunk.
#[derive(Debug, PartialEq)]
pub struct SeriesExport {
    pub name: String,
    pub compat: CompatLevel,
    pub schema: SchemaDescriptor,
    pub data: DataDescriptor,
}

/// Export one series: force it into a single chunk, negotiate the
/// compatibility level from the host's probed answer, and hand the chunk's
/// payload over through a descriptor pair. The name, the logical values and
/// their order, including null positions, are preserved exactly.
pub fn encode_series(s: Series, probe: Option<u16>) -> (r: SeriesExport)
    requires
        series_wf(s@),
    ensures
        r.name@ == s@.name,
        r.compat == negotiate_spec(probe),
        r.schema.dtype_repr@ == encode_spec(s@.dtype),
        cells_view(r.data.cells@) == series_logical(s@),
        data_descriptor_wf(r.data),
{
    let compat = negotiate_compat_level(probe);
    let single = rechunk(s);
    let Series { name, dtype, chunks } = single;
    let mut chunks = chunks;
    let chunk = match chunks.pop() {
        Some(c) => c,
        None => Chunk { cells: Vec::new() },
    };
    let (schema, data) = export_chunk(&dtype, chunk);
    SeriesExport { name, compat, schema, data }
}

/// Import one series from its export, consuming it: read the declared name,
/// decode the logical type out of the schema descriptor and interpret the
/// payload at that type. Succeeds exactly when the type decodes and every
/// payload cell is valid at it; the resulting one-chunk series then carries
/// the name, the values and the null positions exactly as exported.
pub fn decode_series(export: SeriesExport) -> (r: Result<Series, BridgeError>)
    ensures
        match r {
            Ok(s2) => decode_spec(export.schema.dtype_repr@) == Ok::<DataTypeV, BridgeErrorV>(
                s2@.dtype,
            ) && s2@.name == export.name@ && s2@.chunks.len() == 1 && s2@.chunks[0] == cells_view(
                export.data.cells@,
            ) && series_logical(s2@) == cells_view(export.data.cells@) && series_wf(s2@),
            Err(e) => match decode_spec(export.schema.dtype_repr@) {
                Err(de) => e@ == de,
                Ok(dt) => !cells_all_match(dt, cells_view(export.data.cells@)) && e@ is Conversion,
            },
        },
{
    let SeriesExport { name, compat: _, schema, data } = export;
    let ghost data_cells = cells_view(data.cells@);
    let (dtype, chunk) = match import_chunk(&schema, data) {
        Ok(p) => p,
        Err(e) => {
            return Err(e);
        },
    };
    let out = Series { name, dtype, chunks: vec_of_one(chunk) };
    proof {
        assert(chunks_view(out.chunks@) =~= seq![cells_view(out.chunks@[0].cells@)]);
        let cv = chunks_view(out.chunks@);
        assert(cv.flatten() =~= cv[0]) by {
            assert(cv.drop_first() =~= Seq::<Seq<CellV>>::empty());
            assert(cv.drop_first().flatten() =~= Seq::<CellV>::empty());
            assert(cv.flatten() == cv.first() + cv.drop_first().flatten());
            assert(cv[0] + Seq::<CellV>::empty() =~= cv[0]);
        }
        crate::codec::lemma_decode_no_internal(schema.dtype_repr@);
    }
    Ok(out)
}

} // verus!
