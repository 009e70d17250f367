//! The Parquet reader: the schema, row count, memory estimate, row groups
//! and compression codecs all come from the file's metadata (read by the
//! application with the `parquet` crate) without scanning rows.
use crate::delimited::{saturate, DatasetSummary};
use crate::error::DatagovError;
use crate::recognizer::strings_view;
use crate::report::{ColumnSchema, DataType, ParquetInfo, RowGroupInfo};
use crate::text::chars_of;
use crate::text::concat4;
use parquet::basic::{Repetition, Type as ParquetPhysical};
use parquet::file::metadata::{ParquetMetaData, ParquetMetaDataReader};
use vstd::prelude::*;

verus! {

/// A Parquet column's physical type.
#[derive(Debug, Clone, Copy, PartialEq, Eq, Structural)]
pub enum PhysicalType {
    Boolean,
    Int32,
    Int64,
    Int96,
    Float,
    Double,
    ByteArray,
    FixedLenByteArray,
}

/// One leaf column of the file schema.
#[derive(Debug)]
pub struct ParquetColumn {
    pub name: String,
    pub physical_type: PhysicalType,
    /// Whether the column's repetition is `REQUIRED`.
    pub required: bool,
}

/// One row group of the file metadata.
#[derive(Debug)]
pub struct ParquetRowGroup {
    pub num_rows: i64,
    pub compressed_size: i64,
    /// The uncompressed size of the row group.
    pub total_byte_size: i64,
    /// The display name of each column chunk's compression codec.
    pub codecs: Vec<String>,
}

/// The file metadata the reader looks at.
#[derive(Debug)]
pub struct ParquetMetadata {
    pub num_rows: i64,
    pub columns: Vec<ParquetColumn>,
    pub row_groups: Vec<ParquetRowGroup>,
}

/// The reader's data type for a physical type.
pub open spec fn physical_data_type(p: PhysicalType) -> DataType {
    match p {
        PhysicalType::Boolean => DataType::Boolean,
        PhysicalType::Int32 | PhysicalType::Int64 | PhysicalType::Int96 => DataType::Integer,
        PhysicalType::Float | PhysicalType::Double => DataType::Float,
        PhysicalType::ByteArray | PhysicalType::FixedLenByteArray => DataType::String,
    }
}

/// Map a physical type to the reader's data type: byte arrays (fixed or
/// not) are strings.
pub fn map_physical_type(p: PhysicalType) -> (t: DataType)
    ensures
        t == physical_data_type(p),
{
    match p {
        PhysicalType::Boolean => DataType::Boolean,
        PhysicalType::Int32 | PhysicalType::Int64 | PhysicalType::Int96 => DataType::Integer,
        PhysicalType::Float | PhysicalType::Double => DataType::Float,
        PhysicalType::ByteArray | PhysicalType::FixedLenByteArray => DataType::String,
    }
}

/// `a` sorts before `b` (character by character, a prefix first), which is
/// the byte order of their UTF-8 encodings.
pub open spec fn text_before(a: Seq<char>, b: Seq<char>) -> bool
    decreases a.len(),
{
    if a.len() == 0 {
        b.len() > 0
    } else if b.len() == 0 {
        false
    } else if a[0] != b[0] {
        a[0] < b[0]
    } else {
        text_before(a.skip(1), b.skip(1))
    }
}

/// `text_before` is a strict total order.
pub proof fn lemma_text_order(a: Seq<char>, b: Seq<char>, c: Seq<char>)
    ensures
        !text_before(a, a),
        a != b ==> (text_before(a, b) || text_before(b, a)),
        text_before(a, b) ==> !text_before(b, a),
        text_before(a, b) && text_before(b, c) ==> text_before(a, c),
    decreases a.len() + b.len() + c.len(),
{
    if a.len() > 0 && b.len() > 0 && c.len() > 0 {
        lemma_text_order(a.skip(1), b.skip(1), c.skip(1));
    } else if a.len() > 0 && b.len() > 0 {
        lemma_text_order(a.skip(1), b.skip(1), c);
    }
    lemma_text_irreflexive(a);
    if a.len() > 0 && b.len() > 0 && a[0] == b[0] && a != b {
        assert(a.skip(1) != b.skip(1)) by {
            if a.skip(1) == b.skip(1) {
                assert(a =~= seq![a[0]] + a.skip(1));
                assert(b =~= seq![b[0]] + b.skip(1));
            }
        }
    }
    if a.len() == 0 && b.len() == 0 {
        assert(a =~= b);
    }
}

proof fn lemma_text_irreflexive(a: Seq<char>)
    ensures
        !text_before(a, a),
    decreases a.len(),
{
    if a.len() > 0 {
        lemma_text_irreflexive(a.skip(1));
    }
}

/// Add `s` to a sorted list of distinct names unless it is already there.
pub open spec fn insert_name(v: Seq<Seq<char>>, s: Seq<char>) -> Seq<Seq<char>> {
    if v.contains(s) {
        v
    } else {
        v.insert(names_before(v, s) as int, s)
    }
}

/// How many names of `v` sort before `s`.
pub open spec fn names_before(v: Seq<Seq<char>>, s: Seq<char>) -> nat
    decreases v.len(),
{
    if v.len() == 0 {
        0
    } else {
        names_before(v.drop_last(), s) + (if text_before(v.last(), s) {
            1nat
        } else {
            0nat
        })
    }
}

/// The distinct names of `names`, sorted.
pub open spec fn sorted_distinct(names: Seq<Seq<char>>) -> Seq<Seq<char>>
    decreases names.len(),
{
    if names.len() == 0 {
        Seq::empty()
    } else {
        insert_name(sorted_distinct(names.drop_last()), names.last())
    }
}

/// Strictly increasing in text order.
pub open spec fn names_sorted(v: Seq<Seq<char>>) -> bool {
    forall|i: int, j: int| 0 <= i < j < v.len() ==> text_before(#[trigger] v[i], #[trigger] v[j])
}

proof fn lemma_names_before_prefix(v: Seq<Seq<char>>, s: Seq<char>)
    requires
        names_sorted(v),
    ensures
        names_before(v, s) <= v.len(),
        forall|i: int| 0 <= i < names_before(v, s) ==> text_before(#[trigger] v[i], s),
        forall|i: int| names_before(v, s) <= i < v.len() ==> !text_before(#[trigger] v[i], s),
    decreases v.len(),
{
    if v.len() > 0 {
        let t = v.drop_last();
        let n = v.len() - 1;
        assert(names_sorted(t)) by {
            assert forall|i: int, j: int| 0 <= i < j < t.len() implies text_before(#[trigger] t[i], #[trigger] t[j]) by {
                assert(t[i] == v[i] && t[j] == v[j]);
            }
        }
        lemma_names_before_prefix(t, s);
        assert forall|i: int| 0 <= i < n implies #[trigger] t[i] == v[i] by {}
        if text_before(v[n], s) {
            if names_before(t, s) < t.len() {
                let k = names_before(t, s) as int;
                assert(!text_before(t[k], s));
                assert(text_before(v[k], v[n]));
                lemma_text_order(v[k], v[n], s);
                assert(false);
            }
            assert forall|i: int| 0 <= i < names_before(v, s) implies text_before(#[trigger] v[i], s) by {
                if i < n {
                    assert(t[i] == v[i]);
                }
            }
        } else {
            assert forall|i: int| 0 <= i < names_before(v, s) implies text_before(#[trigger] v[i], s) by {
                assert(t[i] == v[i]);
            }
            assert forall|i: int| names_before(v, s) <= i < v.len() implies !text_before(#[trigger] v[i], s) by {
                if i < n {
                    assert(t[i] == v[i]);
                }
            }
        }
    }
}

/// The codec names come out sorted, each once, and exactly the names
/// given.
pub proof fn lemma_sorted_distinct(names: Seq<Seq<char>>)
    ensures
        names_sorted(sorted_distinct(names)),
        forall|x: Seq<char>| #[trigger] sorted_distinct(names).contains(x) <==> names.contains(x),
    decreases names.len(),
{
    if names.len() > 0 {
        let t = names.drop_last();
        let s = names.last();
        lemma_sorted_distinct(t);
        let v = sorted_distinct(t);
        if !v.contains(s) {
            lemma_names_before_prefix(v, s);
            let p = names_before(v, s) as int;
            let r = v.insert(p, s);
            assert forall|i: int, j: int| 0 <= i < j < r.len() implies text_before(#[trigger] r[i], #[trigger] r[j]) by {
                if j < p {
                    assert(r[i] == v[i] && r[j] == v[j]);
                } else if j == p {
                    assert(r[i] == v[i]);
                } else if i == p {
                    assert(r[j] == v[j - 1]);
                    assert(!text_before(v[j - 1], s));
                    assert(v[j - 1] != s);
                    lemma_text_order(s, v[j - 1], s);
                } else if i < p {
                    assert(r[i] == v[i] && r[j] == v[j - 1]);
                } else {
                    assert(r[i] == v[i - 1] && r[j] == v[j - 1]);
                }
            }
            assert forall|x: Seq<char>| #[trigger] r.contains(x) <==> names.contains(x) by {
                if r.contains(x) {
                    let i = choose|i: int| 0 <= i < r.len() && r[i] == x;
                    if i < p {
                        assert(v[i] == x);
                        assert(v.contains(x));
                        assert(t.contains(x));
                        let k = choose|k: int| 0 <= k < t.len() && t[k] == x;
                        assert(names[k] == x);
                    } else if i == p {
                        assert(names[names.len() - 1] == x);
                    } else {
                        assert(v[i - 1] == x);
                        assert(v.contains(x));
                        assert(t.contains(x));
                        let k = choose|k: int| 0 <= k < t.len() && t[k] == x;
                        assert(names[k] == x);
                    }
                }
                if names.contains(x) {
                    let k = choose|k: int| 0 <= k < names.len() && names[k] == x;
                    if k < names.len() - 1 {
                        assert(t[k] == x);
                        assert(v.contains(x));
                        let i = choose|i: int| 0 <= i < v.len() && v[i] == x;
                        if i < p {
                            assert(r[i] == x);
                        } else {
                            assert(r[i + 1] == x);
                        }
                    } else {
                        assert(r[p] == x);
                    }
                }
            }
        } else {
            assert forall|x: Seq<char>| #[trigger] v.contains(x) <==> names.contains(x) by {
                if v.contains(x) {
                    assert(t.contains(x));
                    let k = choose|k: int| 0 <= k < t.len() && t[k] == x;
                    assert(names[k] == x);
                }
                if names.contains(x) {
                    let k = choose|k: int| 0 <= k < names.len() && names[k] == x;
                    if k < names.len() - 1 {
                        assert(t[k] == x);
                    }
                }
            }
        }
    }
}

} // verus!

verus! {

fn before_exec(a: &[char], b: &[char]) -> (r: bool)
    ensures
        r == text_before(a@, b@),
{
    let mut i: usize = 0;
    assert(a@.skip(0) =~= a@);
    assert(b@.skip(0) =~= b@);
    while i < a.len() && i < b.len()
        invariant
            i <= a@.len(),
            i <= b@.len(),
            text_before(a@, b@) == text_before(a@.skip(i as int), b@.skip(i as int)),
        decreases a.len() - i,
    {
        assert(a@.skip(i as int)[0] == a@[i as int]);
        assert(b@.skip(i as int)[0] == b@[i as int]);
        if a[i] != b[i] {
            return a[i] < b[i];
        }
        assert(a@.skip(i as int).skip(1) =~= a@.skip(i + 1));
        assert(b@.skip(i as int).skip(1) =~= b@.skip(i + 1));
        i = i + 1;
    }
    i == a.len() && i < b.len()
}

fn insert_name_exec(v: &mut Vec<String>, s: &str)
    ensures
        strings_view(final(v)@) == insert_name(strings_view(old(v)@), s@),
{
    let ghost sv = strings_view(v@);
    let sc = chars_of(s);
    let mut k: usize = 0;
    let mut before: usize = 0;
    let mut found = false;
    while k < v.len()
        invariant
            k <= v@.len(),
            sv == strings_view(v@),
            sc@ == s@,
            found == sv.take(k as int).contains(s@),
            before == names_before(sv.take(k as int), s@),
            before <= k,
        decreases v.len() - k,
    {
        let vc = chars_of(v[k].as_str());
        proof {
            assert(sv.take(k + 1).drop_last() =~= sv.take(k as int));
            assert(sv.take(k + 1).last() == sv[k as int]);
            assert(sv[k as int] == vc@);
            let p = sv.take(k as int);
            let q = sv.take(k + 1);
            if p.contains(s@) {
                let i = choose|i: int| 0 <= i < p.len() && #[trigger] p[i] == s@;
                assert(q[i] == s@);
            }
            if q.contains(s@) && sv[k as int] != s@ {
                let i = choose|i: int| 0 <= i < q.len() && #[trigger] q[i] == s@;
                assert(p[i] == s@);
            }
            if sv[k as int] == s@ {
                assert(sv.take(k + 1)[k as int] == s@);
            }
        }
        if crate::text::chars_eq_str(&vc, s) {
            found = true;
        }
        if before_exec(&vc, &sc) {
            before = before + 1;
        }
        k = k + 1;
    }
    assert(sv.take(k as int) =~= sv);
    if !found {
        let ghost prev = v@;
        v.insert(before, String::from_str(s));
        assert(strings_view(v@) =~= sv.insert(before as int, s@));
    }
}

/// Every codec name of every row group, in order.
pub open spec fn all_codecs(groups: Seq<ParquetRowGroup>) -> Seq<Seq<char>>
    decreases groups.len(),
{
    if groups.len() == 0 {
        Seq::empty()
    } else {
        all_codecs(groups.drop_last()) + strings_view(groups.last().codecs@)
    }
}

/// The sum of the non-negative uncompressed sizes of the row groups.
pub open spec fn groups_memory(groups: Seq<ParquetRowGroup>) -> int
    decreases groups.len(),
{
    if groups.len() == 0 {
        0
    } else {
        groups_memory(groups.drop_last()) + (if groups.last().total_byte_size > 0 {
            groups.last().total_byte_size as int
        } else {
            0
        })
    }
}

/// What the summary of Parquet metadata states.
pub open spec fn parquet_summarizes(s: DatasetSummary, info: ParquetInfo, meta: ParquetMetadata) -> bool {
    &&& s.format@ == "parquet"@
    &&& s.row_count == (if meta.num_rows > 0 {
        meta.num_rows as int
    } else {
        0
    })
    &&& s.column_count == meta.columns@.len() as u32
    &&& s.schema@.len() == meta.columns@.len()
    &&& forall|i: int|
        0 <= i < meta.columns@.len() ==> {
            &&& (#[trigger] s.schema@[i]).name@ == meta.columns@[i].name@
            &&& s.schema@[i].data_type == physical_data_type(meta.columns@[i].physical_type)
            &&& s.schema@[i].nullable == !meta.columns@[i].required
        }
    &&& s.approx_memory_bytes == saturate(groups_memory(meta.row_groups@))
    &&& s.sample_rows@.len() == 0
    &&& info.row_groups@.len() == meta.row_groups@.len()
    &&& forall|i: int|
        0 <= i < meta.row_groups@.len() ==> (#[trigger] info.row_groups@[i]) == (RowGroupInfo {
            index: i as usize,
            row_count: meta.row_groups@[i].num_rows,
            compressed_size_bytes: meta.row_groups@[i].compressed_size,
            uncompressed_size_bytes: meta.row_groups@[i].total_byte_size,
        })
    &&& strings_view(info.compression_codecs@) == sorted_distinct(all_codecs(meta.row_groups@))
}

/// Reads Parquet metadata.
#[derive(Debug)]
pub struct ParquetReader;

impl ParquetReader {
    /// Summarize a Parquet file from its metadata: the sample rows are read
    /// separately, so the summary carries none.
    pub fn summarize(&self, meta: &ParquetMetadata) -> (r: (DatasetSummary, ParquetInfo))
        ensures
            parquet_summarizes(r.0, r.1, *meta),
    {
        let mut schema: Vec<ColumnSchema> = Vec::new();
        let mut i: usize = 0;
        while i < meta.columns.len()
            invariant
                i <= meta.columns@.len(),
                schema@.len() == i,
                forall|k: int|
                    0 <= k < i ==> {
                        &&& (#[trigger] schema@[k]).name@ == meta.columns@[k].name@
                        &&& schema@[k].data_type == physical_data_type(meta.columns@[k].physical_type)
                        &&& schema@[k].nullable == !meta.columns@[k].required
                    },
            decreases meta.columns.len() - i,
        {
            let c = &meta.columns[i];
            schema.push(
                ColumnSchema {
                    name: String::from_str(c.name.as_str()),
                    data_type: map_physical_type(c.physical_type),
                    nullable: !c.required,
                },
            );
            i = i + 1;
        }
        let ghost gs = meta.row_groups@;
        let mut groups: Vec<RowGroupInfo> = Vec::new();
        let mut memory: u64 = 0;
        let mut codecs: Vec<String> = Vec::new();
        let mut g: usize = 0;
        while g < meta.row_groups.len()
            invariant
                g <= gs.len(),
                gs == meta.row_groups@,
                groups@.len() == g,
                forall|k: int|
                    0 <= k < g ==> (#[trigger] groups@[k]) == (RowGroupInfo {
                        index: k as usize,
                        row_count: gs[k].num_rows,
                        compressed_size_bytes: gs[k].compressed_size,
                        uncompressed_size_bytes: gs[k].total_byte_size,
                    }),
                memory == saturate(groups_memory(gs.take(g as int))),
                strings_view(codecs@) == sorted_distinct(all_codecs(gs.take(g as int))),
            decreases meta.row_groups.len() - g,
        {
            let rg = &meta.row_groups[g];
            proof {
                assert(gs.take(g + 1).drop_last() =~= gs.take(g as int));
                assert(gs.take(g + 1).last() == gs[g as int]);
            }
            let size: u64 = if rg.total_byte_size > 0 {
                rg.total_byte_size as u64
            } else {
                0
            };
            memory = memory.saturating_add(size);
            groups.push(
                RowGroupInfo {
                    index: g,
                    row_count: rg.num_rows,
                    compressed_size_bytes: rg.compressed_size,
                    uncompressed_size_bytes: rg.total_byte_size,
                },
            );
            let ghost base = all_codecs(gs.take(g as int));
            let mut c: usize = 0;
            while c < rg.codecs.len()
                invariant
                    c <= rg.codecs@.len(),
                    strings_view(codecs@) == sorted_distinct(base + strings_view(rg.codecs@).take(c as int)),
                decreases rg.codecs.len() - c,
            {
                proof {
                    let a = base + strings_view(rg.codecs@).take(c + 1);
                    assert(a.drop_last() =~= base + strings_view(rg.codecs@).take(c as int));
                    assert(a.last() == rg.codecs@[c as int]@);
                }
                insert_name_exec(&mut codecs, rg.codecs[c].as_str());
                c = c + 1;
            }
            assert(strings_view(rg.codecs@).take(c as int) =~= strings_view(rg.codecs@));
            g = g + 1;
        }
        assert(gs.take(g as int) =~= gs);
        let summary = DatasetSummary {
            format: String::from_str("parquet"),
            row_count: if meta.num_rows > 0 {
                meta.num_rows as u64
            } else {
                0
            },
            column_count: #[verifier::truncate] (meta.columns.len() as u32),
            schema,
            approx_memory_bytes: memory,
            sample_rows: Vec::new(),
        };
        (summary, ParquetInfo { row_groups: groups, compression_codecs: codecs })
    }
}

/// Parquet needs random access, so standard input is refused.
pub fn parquet_stdin_error() -> (e: DatagovError)
    ensures
        e is InvalidArgs && e.spec_message() == "parquet input must be a real file path"@
            && e.spec_remediation()
            == "pass a file path instead of '-'; Parquet requires random access and cannot be read from stdin"@,
{
    DatagovError::invalid_args(
        "parquet input must be a real file path",
        "pass a file path instead of '-'; Parquet requires random access and cannot be read from stdin",
    )
}

} // verus!

verus! {

/// The file metadata of the `parquet` crate.
#[verifier::external_type_specification]
#[verifier::external_body]
pub struct ExternalParquetMetaData(ParquetMetaData);

/// A physical type of the `parquet` crate.
#[verifier::external_type_specification]
#[verifier::external_body]
pub struct ExternalParquetPhysical(ParquetPhysical);

/// A `parquet` physical type, one variant to one type.
#[verifier::external_body]
fn physical_type(t: ParquetPhysical) -> PhysicalType {
    match t {
        ParquetPhysical::BOOLEAN => PhysicalType::Boolean,
        ParquetPhysical::INT32 => PhysicalType::Int32,
        ParquetPhysical::INT64 => PhysicalType::Int64,
        ParquetPhysical::INT96 => PhysicalType::Int96,
        ParquetPhysical::FLOAT => PhysicalType::Float,
        ParquetPhysical::DOUBLE => PhysicalType::Double,
        ParquetPhysical::BYTE_ARRAY => PhysicalType::ByteArray,
        ParquetPhysical::FIXED_LEN_BYTE_ARRAY => PhysicalType::FixedLenByteArray,
    }
}

/// The leaf columns of the metadata's schema: name, physical type, and
/// whether the repetition is `REQUIRED`.
#[verifier::external_body]
fn parquet_columns(m: &ParquetMetaData) -> Vec<ParquetColumn> {
    m.file_metadata().schema_descr().columns().iter().map(|c| ParquetColumn {
        name: c.name().to_string(),
        physical_type: physical_type(c.physical_type()),
        required: c.self_type().get_basic_info().repetition() == Repetition::REQUIRED,
    }).collect()
}

/// The row groups of the metadata: rows, sizes, and each column chunk's
/// compression codec by its display name.
#[verifier::external_body]
fn parquet_row_groups(m: &ParquetMetaData) -> Vec<ParquetRowGroup> {
    m.row_groups().iter().map(|rg| ParquetRowGroup {
        num_rows: rg.num_rows(),
        compressed_size: rg.compressed_size(),
        total_byte_size: rg.total_byte_size(),
        codecs: rg.columns().iter().map(|c| c.compression().to_string()).collect(),
    }).collect()
}

/// What `parquet::file::metadata::ParquetMetaDataReader::parse_and_finish`
/// (the footer read of `SerializedFileReader::new`) makes of a file's bytes,
/// as far as the reader looks into it: the row count, the leaf columns and
/// the row groups, or the display text of its error.
pub uninterp spec fn parquet_metadata_of(file: Seq<u8>) -> Result<ParquetMetadata, Seq<char>>;

/// Reads the footer metadata of a Parquet file held in memory with
/// `ParquetMetaDataReader::parse_and_finish`. The outcome is named
/// `parquet_metadata_of`.
#[verifier::external_body]
pub fn read_parquet_metadata(file: &[u8]) -> (r: Result<ParquetMetadata, String>)
    ensures
        match r {
            Ok(m) => parquet_metadata_of(file@) == Ok::<ParquetMetadata, Seq<char>>(m),
            Err(e) => parquet_metadata_of(file@) == Err::<ParquetMetadata, Seq<char>>(e@),
        },
{
    let chunk = bytes::Bytes::copy_from_slice(file);
    let m = ParquetMetaDataReader::new().parse_and_finish(&chunk).map_err(|e| e.to_string())?;
    let num_rows = m.file_metadata().num_rows();
    Ok(ParquetMetadata { num_rows, columns: parquet_columns(&m), row_groups: parquet_row_groups(&m) })
}

impl ParquetReader {
    /// Read a Parquet file's metadata from its bytes and summarize it;
    /// `source_name` names the file in the error for bytes that are not a
    /// readable Parquet file.
    pub fn inspect(&self, file: &[u8], source_name: &str) -> (r: Result<
        (DatasetSummary, ParquetInfo),
        DatagovError,
    >)
        ensures
            match parquet_metadata_of(file@) {
                Ok(m) => r is Ok && parquet_summarizes(r->Ok_0.0, r->Ok_0.1, m),
                Err(e) => r is Err && r->Err_0 is Internal && r->Err_0.spec_message()
                    == "failed to read Parquet metadata for "@ + source_name@ + ": "@ + e,
            },
    {
        match read_parquet_metadata(file) {
            Ok(m) => Ok(self.summarize(&m)),
            Err(e) => {
                let msg = concat4("failed to read Parquet metadata for ", source_name, ": ", e.as_str());
                Err(DatagovError::internal(msg.as_str()))
            },
        }
    }
}

} // verus!

verus! {

/// Whatever bytes a Parquet file holds, the inspection reports its codecs
/// strictly sorted (so each once), exactly the codecs of its column chunks,
/// and its row groups numbered from zero in file order.
pub proof fn lemma_parquet_inspection_info(file: Seq<u8>, s: DatasetSummary, info: ParquetInfo)
    requires
        parquet_metadata_of(file) is Ok,
        parquet_summarizes(s, info, parquet_metadata_of(file)->Ok_0),
    ensures
        names_sorted(strings_view(info.compression_codecs@)),
        forall|x: Seq<char>|
            #[trigger] strings_view(info.compression_codecs@).contains(x) <==> all_codecs(
                parquet_metadata_of(file)->Ok_0.row_groups@,
            ).contains(x),
        forall|i: int| 0 <= i < info.row_groups@.len() ==> (#[trigger] info.row_groups@[i]).index == i as usize,
{
    let m = parquet_metadata_of(file)->Ok_0;
    lemma_sorted_distinct(all_codecs(m.row_groups@));
    assert forall|i: int| 0 <= i < info.row_groups@.len() implies (#[trigger] info.row_groups@[i]).index == i as usize by {
        assert(info.row_groups@[i] == (RowGroupInfo {
            index: i as usize,
            row_count: m.row_groups@[i].num_rows,
            compressed_size_bytes: m.row_groups@[i].compressed_size,
            uncompressed_size_bytes: m.row_groups@[i].total_byte_size,
        }));
    }
}

} // verus!

verus! {

/// Parquet's integer physical types (INT32, INT64, INT96) are reported as
/// integers, its floating types (FLOAT, DOUBLE) as floats, BOOLEAN as a
/// boolean, and its byte arrays (plain or fixed length) as strings; no
/// other physical type is reported as any of these.
pub proof fn lemma_physical_type_table(p: PhysicalType)
    ensures
        physical_data_type(p) == DataType::Integer <==> (p == PhysicalType::Int32 || p == PhysicalType::Int64
            || p == PhysicalType::Int96),
        physical_data_type(p) == DataType::Float <==> (p == PhysicalType::Float || p == PhysicalType::Double),
        physical_data_type(p) == DataType::Boolean <==> p == PhysicalType::Boolean,
        physical_data_type(p) == DataType::String <==> (p == PhysicalType::ByteArray || p
            == PhysicalType::FixedLenByteArray),
{
}

/// In the summary of a Parquet file, a column stored with an integer
/// physical type has the integer data type, and one stored as FLOAT or
/// DOUBLE has the float data type.
pub proof fn lemma_parquet_integer_columns(s: DatasetSummary, info: ParquetInfo, meta: ParquetMetadata, i: int)
    requires
        parquet_summarizes(s, info, meta),
        0 <= i < meta.columns@.len(),
    ensures
        (meta.columns@[i].physical_type == PhysicalType::Int32 || meta.columns@[i].physical_type
            == PhysicalType::Int64 || meta.columns@[i].physical_type == PhysicalType::Int96)
            ==> s.schema@[i].data_type == DataType::Integer,
        (meta.columns@[i].physical_type == PhysicalType::Float || meta.columns@[i].physical_type
            == PhysicalType::Double) ==> s.schema@[i].data_type == DataType::Float,
        s.schema@[i].name@ == meta.columns@[i].name@,
{
    assert(s.schema@[i].data_type == physical_data_type(meta.columns@[i].physical_type));
    lemma_physical_type_table(meta.columns@[i].physical_type);
}

} // verus!
