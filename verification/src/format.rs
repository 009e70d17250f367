//! Format detection for dataset inputs: the `--type` flag first, then the
//! file extension (case-insensitive), then content sniffing of the file's
//! first bytes.
use crate::error::DatagovError;
use crate::path::{extension_of, path_extension};
use crate::text::{chars_of, concat3, concat4, lower, str_eq, to_ascii_lowercase};
use vstd::prelude::*;

verus! {

/// Number of bytes read from the front of a real file for content sniffing.
pub const SNIFF_PREFIX_BYTES: usize = 65536;

/// One of the five supported dataset formats.
#[derive(Debug, Clone, Copy, PartialEq, Eq, Structural)]
pub enum Format {
    Csv,
    Tsv,
    Json,
    Jsonl,
    Parquet,
}

/// The canonical lowercase name of each format.
pub open spec fn format_name(f: Format) -> Seq<char> {
    match f {
        Format::Csv => "csv"@,
        Format::Tsv => "tsv"@,
        Format::Json => "json"@,
        Format::Jsonl => "jsonl"@,
        Format::Parquet => "parquet"@,
    }
}

/// The format an already-lowercased name or extension stands for.
pub open spec fn format_for_name(n: Seq<char>) -> Option<Format> {
    if n == "csv"@ {
        Some(Format::Csv)
    } else if n == "tsv"@ {
        Some(Format::Tsv)
    } else if n == "json"@ {
        Some(Format::Json)
    } else if n == "jsonl"@ || n == "ndjson"@ {
        Some(Format::Jsonl)
    } else if n == "parquet"@ {
        Some(Format::Parquet)
    } else {
        None
    }
}

/// The format of a `--type` value, ignoring ASCII case.
pub open spec fn flag_format(v: Seq<char>) -> Option<Format> {
    format_for_name(lower(v))
}

/// The format a path's extension names, ignoring ASCII case.
pub open spec fn extension_format(target: Seq<char>) -> Option<Format> {
    match path_extension(target) {
        Some(e) => format_for_name(lower(e)),
        None => None,
    }
}

fn format_for_lowered(n: &str) -> (r: Option<Format>)
    ensures
        r == format_for_name(n@),
{
    if str_eq(n, "csv") {
        Some(Format::Csv)
    } else if str_eq(n, "tsv") {
        Some(Format::Tsv)
    } else if str_eq(n, "json") {
        Some(Format::Json)
    } else if str_eq(n, "jsonl") || str_eq(n, "ndjson") {
        Some(Format::Jsonl)
    } else if str_eq(n, "parquet") {
        Some(Format::Parquet)
    } else {
        None
    }
}

impl Format {
    /// The canonical lowercase name used in `--type`, extensions, and reports.
    pub fn as_str(self) -> (s: &'static str)
        ensures
            s@ == format_name(self),
    {
        match self {
            Format::Csv => "csv",
            Format::Tsv => "tsv",
            Format::Json => "json",
            Format::Jsonl => "jsonl",
            Format::Parquet => "parquet",
        }
    }

    /// Parse a `--type` flag value (case-insensitive). Unrecognized names are
    /// an invalid argument naming the lowercased value.
    pub fn from_flag(value: &str) -> (r: Result<Format, DatagovError>)
        ensures
            match r {
                Ok(f) => flag_format(value@) == Some(f),
                Err(e) => {
                    &&& flag_format(value@) is None
                    &&& e is InvalidArgs
                    &&& e.spec_message() == "unrecognized --type '"@ + lower(value@) + "'"@
                    &&& e.spec_remediation() == "use one of: csv, tsv, json, jsonl, parquet"@
                },
            },
    {
        let lowered = to_ascii_lowercase(value);
        match format_for_lowered(lowered.as_str()) {
            Some(f) => Ok(f),
            None => {
                let message = concat3("unrecognized --type '", lowered.as_str(), "'");
                Err(
                    DatagovError::invalid_args(
                        message.as_str(),
                        "use one of: csv, tsv, json, jsonl, parquet",
                    ),
                )
            },
        }
    }
}

/// Every format's name parses back to that format.
pub proof fn lemma_format_name_round_trip(f: Format)
    ensures
        flag_format(format_name(f)) == Some(f),
        format_for_name(format_name(f)) == Some(f),
{
    reveal_strlit("csv");
    reveal_strlit("tsv");
    reveal_strlit("json");
    reveal_strlit("jsonl");
    reveal_strlit("ndjson");
    reveal_strlit("parquet");
    assert(lower(format_name(f)) =~= format_name(f));
    assert("csv"@[0] != "tsv"@[0]);
    assert("json"@.len() != "csv"@.len());
    assert("jsonl"@.len() != "json"@.len());
}

/// The format named by the extension of `target`, if it is one of the five.
pub fn format_from_extension(target: &str) -> (r: Option<Format>)
    ensures
        r == extension_format(target@),
{
    match extension_of(target) {
        Some(ext) => {
            let lowered = to_ascii_lowercase(ext.as_str());
            format_for_lowered(lowered.as_str())
        },
        None => None,
    }
}

} // verus!

verus! {

/// ASCII whitespace bytes: space, tab, line feed, form feed, carriage return.
pub open spec fn is_ws_byte(b: u8) -> bool {
    b == 32 || b == 9 || b == 10 || b == 12 || b == 13
}

/// Index of the first non-whitespace byte, or -1 when there is none.
pub open spec fn first_non_ws(buf: Seq<u8>) -> int
    decreases buf.len(),
{
    if buf.len() == 0 {
        -1
    } else if !is_ws_byte(buf[0]) {
        0
    } else {
        let k = first_non_ws(buf.drop_first());
        if k < 0 { -1 } else { k + 1 }
    }
}

/// Index of the first occurrence of `b`, or the length when there is none.
pub open spec fn first_index_or_len(s: Seq<u8>, b: u8) -> int
    decreases s.len(),
{
    if s.len() == 0 {
        0
    } else if s[0] == b {
        0
    } else {
        first_index_or_len(s.drop_first(), b) + 1
    }
}

/// How many times `b` occurs in `s`.
pub open spec fn count_byte(s: Seq<u8>, b: u8) -> nat
    decreases s.len(),
{
    if s.len() == 0 {
        0
    } else {
        count_byte(s.drop_last(), b) + (if s.last() == b { 1nat } else { 0nat })
    }
}

/// Scanning the bytes in order: the number of `\n`-separated lines seen so
/// far that hold a non-whitespace byte, and whether the current line does.
pub open spec fn line_scan(s: Seq<u8>) -> (nat, bool)
    decreases s.len(),
{
    if s.len() == 0 {
        (0, false)
    } else {
        let (count, open) = line_scan(s.drop_last());
        let b = s.last();
        if b == 10 {
            (count, false)
        } else if !is_ws_byte(b) && !open {
            (count + 1, true)
        } else {
            (count, open)
        }
    }
}

/// The number of lines (split on `\n`) holding a non-whitespace byte.
pub open spec fn content_lines(s: Seq<u8>) -> nat {
    line_scan(s).0
}

/// The content-sniffing rule: Parquet magic `PAR1` at the start; else the
/// first non-whitespace byte `[` is JSON, `{` is JSON when one line has
/// content and JSONL when several do; otherwise the first line (from the
/// first non-whitespace byte) is delimited text, CSV when it has more
/// commas than tabs, TSV when fewer; a tie, or no content at all, is
/// undetermined.
pub open spec fn sniff(buf: Seq<u8>) -> Option<Format> {
    let i = first_non_ws(buf);
    if buf.len() >= 4 && buf[0] == 80 && buf[1] == 65 && buf[2] == 82 && buf[3] == 49 {
        Some(Format::Parquet)
    } else if i < 0 {
        None
    } else if buf[i] == 91 {
        Some(Format::Json)
    } else if buf[i] == 123 {
        if content_lines(buf) > 1 {
            Some(Format::Jsonl)
        } else {
            Some(Format::Json)
        }
    } else {
        let rest = buf.skip(i);
        let line = rest.take(first_index_or_len(rest, 10));
        let commas = count_byte(line, 44);
        let tabs = count_byte(line, 9);
        if commas > tabs {
            Some(Format::Csv)
        } else if commas < tabs {
            Some(Format::Tsv)
        } else {
            None
        }
    }
}

proof fn lemma_first_non_ws(buf: Seq<u8>)
    ensures
        -1 <= first_non_ws(buf) < buf.len(),
        first_non_ws(buf) >= 0 ==> !is_ws_byte(buf[first_non_ws(buf)]),
        forall|j: int|
            0 <= j < buf.len() && (first_non_ws(buf) < 0 || j < first_non_ws(buf)) ==> is_ws_byte(
                buf[j],
            ),
    decreases buf.len(),
{
    if buf.len() > 0 && is_ws_byte(buf[0]) {
        lemma_first_non_ws(buf.drop_first());
        assert forall|j: int|
            0 <= j < buf.len() && (first_non_ws(buf) < 0 || j < first_non_ws(buf)) implies is_ws_byte(
            buf[j],
        ) by {
            if j > 0 {
                assert(buf.drop_first()[j - 1] == buf[j]);
            }
        }
    }
}

proof fn lemma_first_non_ws_unique(buf: Seq<u8>, i: int)
    requires
        0 <= i < buf.len(),
        !is_ws_byte(buf[i]),
        forall|j: int| 0 <= j < i ==> is_ws_byte(buf[j]),
    ensures
        first_non_ws(buf) == i,
    decreases buf.len(),
{
    if i > 0 {
        assert forall|j: int| 0 <= j < i - 1 implies is_ws_byte(buf.drop_first()[j]) by {
            assert(buf.drop_first()[j] == buf[j + 1]);
        }
        lemma_first_non_ws_unique(buf.drop_first(), i - 1);
    }
}

proof fn lemma_first_index_step(s: Seq<u8>, b: u8, k: int)
    requires
        0 <= k <= s.len(),
        forall|j: int| 0 <= j < k ==> s[j] != b,
        k == s.len() || s[k] == b,
    ensures
        first_index_or_len(s, b) == k,
    decreases s.len(),
{
    if s.len() > 0 && k > 0 {
        assert forall|j: int| 0 <= j < k - 1 implies s.drop_first()[j] != b by {
            assert(s.drop_first()[j] == s[j + 1]);
        }
        lemma_first_index_step(s.drop_first(), b, k - 1);
    }
}

/// Pure content sniffing over a byte prefix (no I/O).
pub fn format_from_bytes(buf: &[u8]) -> (r: Option<Format>)
    ensures
        r == sniff(buf@),
{
    if buf.len() >= 4 && buf[0] == 80 && buf[1] == 65 && buf[2] == 82 && buf[3] == 49 {
        return Some(Format::Parquet);
    }
    let n = buf.len();
    let mut i: usize = 0;
    while i < n
        invariant
            n == buf.len(),
            i <= n,
            forall|j: int| 0 <= j < i ==> is_ws_byte(buf@[j]),
        ensures
            i <= n,
            forall|j: int| 0 <= j < i ==> is_ws_byte(buf@[j]),
            i < n ==> !is_ws_byte(buf@[i as int]),
        decreases n - i,
    {
        let b = buf[i];
        if !(b == 32 || b == 9 || b == 10 || b == 12 || b == 13) {
            break;
        }
        i = i + 1;
    }
    proof {
        lemma_first_non_ws(buf@);
        if i < n {
            lemma_first_non_ws_unique(buf@, i as int);
        }
    }
    if i == n {
        return None;
    }
    if buf[i] == 91 {
        return Some(Format::Json);
    }
    if buf[i] == 123 {
        let mut count: usize = 0;
        let mut open = false;
        let mut k: usize = 0;
        while k < n
            invariant
                n == buf.len(),
                k <= n,
                count <= k,
                (count as nat, open) == line_scan(buf@.take(k as int)),
            decreases n - k,
        {
            assert(buf@.take(k + 1).drop_last() =~= buf@.take(k as int));
            let b = buf[k];
            if b == 10 {
                open = false;
            } else if !(b == 32 || b == 9 || b == 10 || b == 12 || b == 13) && !open {
                count = count + 1;
                open = true;
            }
            k = k + 1;
        }
        assert(buf@.take(n as int) =~= buf@);
        if count > 1 {
            return Some(Format::Jsonl);
        } else {
            return Some(Format::Json);
        }
    }
    let ghost rest = buf@.skip(i as int);
    let mut e: usize = i;
    while e < n && buf[e] != 10
        invariant
            n == buf.len(),
            i <= e <= n,
            forall|j: int| i <= j < e ==> buf@[j] != 10,
        decreases n - e,
    {
        e = e + 1;
    }
    proof {
        lemma_first_index_step(rest, 10, e - i);
    }
    let ghost line = rest.take(e - i);
    let mut commas: usize = 0;
    let mut tabs: usize = 0;
    let mut k: usize = i;
    while k < e
        invariant
            n == buf.len(),
            i <= k <= e <= n,
            line == buf@.subrange(i as int, e as int),
            commas as nat == count_byte(buf@.subrange(i as int, k as int), 44),
            tabs as nat == count_byte(buf@.subrange(i as int, k as int), 9),
            commas <= k - i,
            tabs <= k - i,
        decreases e - k,
    {
        assert(buf@.subrange(i as int, k + 1).drop_last() =~= buf@.subrange(i as int, k as int));
        if buf[k] == 44 {
            commas = commas + 1;
        } else if buf[k] == 9 {
            tabs = tabs + 1;
        }
        k = k + 1;
    }
    assert(line =~= buf@.subrange(i as int, e as int));
    if commas > tabs {
        Some(Format::Csv)
    } else if commas < tabs {
        Some(Format::Tsv)
    } else {
        None
    }
}

} // verus!

verus! {

/// Whether resolving `target` needs its content: no `--type`, not stdin, and
/// no recognized extension.
pub open spec fn needs_content_spec(target: Seq<char>, has_flag: bool) -> bool {
    !has_flag && target != "-"@ && extension_format(target) is None
}

/// Whether [`detect`] will look at the file's content for `target`; the
/// caller reads the first [`SNIFF_PREFIX_BYTES`] bytes only then.
pub fn needs_content(target: &str, type_flag: Option<&str>) -> (r: bool)
    ensures
        r == needs_content_spec(target@, type_flag is Some),
{
    type_flag.is_none() && !str_eq(target, "-") && format_from_extension(target).is_none()
}

/// Why the first bytes of a file could not be had: it could not be opened,
/// or reading from it failed; each with the system's description.
#[derive(Debug)]
pub enum ReadFailure {
    Open(String),
    Read(String),
}

/// Resolve the `Format` for `target` (a path, or `-` for stdin). A `--type`
/// flag always wins; stdin without one is an invalid argument; otherwise the
/// extension decides, and failing that the content: `prefix` holds the
/// first bytes of the file, or why they could not be read. It is looked at
/// only when the flag and the extension do not decide (see `needs_content`).
pub fn detect(target: &str, type_flag: Option<&str>, prefix: Result<&[u8], ReadFailure>) -> (r: Result<
    Format,
    DatagovError,
>)
    ensures
        type_flag matches Some(v) ==> match r {
            Ok(f) => flag_format(v@) == Some(f),
            Err(e) => flag_format(v@) is None && e is InvalidArgs && e.spec_message()
                == "unrecognized --type '"@ + lower(v@) + "'"@ && e.spec_remediation()
                == "use one of: csv, tsv, json, jsonl, parquet"@,
        },
        type_flag is None && target@ == "-"@ ==> (r matches Err(e) && e is InvalidArgs
            && e.spec_message() == "--type is required when reading from stdin"@
            && e.spec_remediation() == "pass --type <csv|tsv|json|jsonl|parquet>"@),
        type_flag is None && target@ != "-"@ && extension_format(target@) is Some ==> r == Ok::<
            Format,
            DatagovError,
        >(extension_format(target@)->0),
        needs_content_spec(target@, type_flag is Some) ==> match prefix {
            Err(ReadFailure::Open(d)) => (r matches Err(e) && e is InputNotFound && e.spec_message()
                == "cannot open "@ + target@ + ": "@ + d@ && e.spec_remediation() == "check that "@
                + target@ + " exists and is readable"@),
            Err(ReadFailure::Read(d)) => (r matches Err(e) && e is Internal && e.spec_message()
                == "failed to read "@ + target@ + ": "@ + d@),
            Ok(p) => match sniff(p@) {
                Some(f) => r == Ok::<Format, DatagovError>(f),
                None => (r matches Err(e) && e is UnsupportedInput && e.spec_message()
                    == "could not detect the format of "@ + target@
                    + " from its extension or content"@ && e.spec_remediation()
                    == "pass --type <csv|tsv|json|jsonl|parquet> to disambiguate"@),
            },
        },
{
    if let Some(flag) = type_flag {
        return Format::from_flag(flag);
    }
    if str_eq(target, "-") {
        return Err(
            DatagovError::invalid_args(
                "--type is required when reading from stdin",
                "pass --type <csv|tsv|json|jsonl|parquet>",
            ),
        );
    }
    if let Some(f) = format_from_extension(target) {
        return Ok(f);
    }
    match prefix {
        Err(ReadFailure::Open(d)) => {
            let message = concat4("cannot open ", target, ": ", d.as_str());
            let remediation = concat3("check that ", target, " exists and is readable");
            Err(DatagovError::input_not_found(message.as_str(), remediation.as_str()))
        },
        Err(ReadFailure::Read(d)) => {
            let message = concat4("failed to read ", target, ": ", d.as_str());
            Err(DatagovError::internal(message.as_str()))
        },
        Ok(p) => match format_from_bytes(p) {
            Some(f) => Ok(f),
            None => {
                let message = concat3(
                    "could not detect the format of ",
                    target,
                    " from its extension or content",
                );
                Err(
                    DatagovError::unsupported_input(
                        message.as_str(),
                        "pass --type <csv|tsv|json|jsonl|parquet> to disambiguate",
                    ),
                )
            },
        },
    }
}

} // verus!
