//! Command-line surface shared by the commands: the parsed command line,
//! the output-format restriction, human-readable byte sizes, and the
//! content hash of an input.
use crate::config::OutputFormat;
use crate::error::DatagovError;
use crate::text::{concat2, concat3, decimal, decimal_string, push_char, str_eq};
use vstd::prelude::*;

verus! {

/// The commands of the tool.
#[derive(Debug)]
pub enum Command {
    /// Print the version.
    Version,
    /// Report compiled commands, supported formats, and enabled features.
    Capabilities,
    /// Inspect a dataset (a path, or `-` for standard input).
    Inspect { path: String, type_flag: Option<String> },
    /// Profile a dataset's columns.
    Profile { path: String, type_flag: Option<String>, columns: Option<Vec<String>>, sample: Option<u64> },
    /// Run a SQL query over dataset files.
    Query { sql: String, limit: Option<usize> },
    /// Parse, format or transpile SQL.
    Sql(SqlCommand),
    /// Scan for PII, or list and validate recognizers.
    Pii(PiiCommand),
}

/// The `sql` subcommands (a path, or `-` for standard input).
#[derive(Debug)]
pub enum SqlCommand {
    Parse { path: String, dialect: Option<String> },
    Format { path: String, dialect: Option<String>, write: bool },
    Transpile { path: String, from: String, to: String },
}

/// The `pii` subcommands.
#[derive(Debug)]
pub enum PiiCommand {
    /// Scan a dataset; `fail_on` is a confidence threshold in millionths.
    Scan {
        path: String,
        type_flag: Option<String>,
        sample: Option<u64>,
        fields: Option<Vec<String>>,
        recognizers: Option<String>,
        fail_on: Option<i64>,
    },
    /// List the built-in recognizers.
    RecognizersList,
    /// Validate a recognizers file.
    RecognizersValidate { path: String },
}

/// The parsed command line.
#[derive(Debug)]
pub struct Cli {
    /// Output rendering.
    pub output: OutputFormat,
    /// Suppress all diagnostics except errors.
    pub quiet: bool,
    /// Emit debug-level diagnostics.
    pub verbose: bool,
    pub command: Command,
}

/// Every command but `query` rejects `--output csv`.
pub fn reject_csv(output: OutputFormat, command_name: &str) -> (r: Result<(), DatagovError>)
    ensures
        output == OutputFormat::Csv <==> r is Err,
        r matches Err(e) ==> e is InvalidArgs && e.spec_message() == "'"@ + command_name@
            + "' does not support --output csv"@ && e.spec_remediation()
            == "use --output json or --output table; only 'query' supports csv"@,
{
    match output {
        OutputFormat::Csv => {
            let m = concat3("'", command_name, "' does not support --output csv");
            Err(
                DatagovError::invalid_args(
                    m.as_str(),
                    "use --output json or --output table; only 'query' supports csv",
                ),
            )
        },
        _ => Ok(()),
    }
}

/// 1024 to the power `k`.
pub open spec fn pow1024(k: nat) -> nat
    decreases k,
{
    if k == 0 {
        1
    } else {
        1024 * pow1024((k - 1) as nat)
    }
}

/// The binary unit a byte count is shown in: the largest of B, KiB, MiB,
/// GiB, TiB that the count reaches.
pub open spec fn unit_index(bytes: nat) -> nat {
    if bytes < pow1024(1) {
        0
    } else if bytes < pow1024(2) {
        1
    } else if bytes < pow1024(3) {
        2
    } else if bytes < pow1024(4) {
        3
    } else {
        4
    }
}

/// The unit names.
pub open spec fn unit_name(k: nat) -> Seq<char> {
    if k == 0 {
        "B"@
    } else if k == 1 {
        "KiB"@
    } else if k == 2 {
        "MiB"@
    } else if k == 3 {
        "GiB"@
    } else {
        "TiB"@
    }
}

/// `n / d` rounded to the nearest integer, ties to even.
pub open spec fn round_half_even(n: nat, d: nat) -> nat
    recommends
        d > 0,
{
    let q = n / d;
    let r = n % d;
    if 2 * r > d || (2 * r == d && q % 2 == 1) {
        q + 1
    } else {
        q
    }
}

/// A byte count for humans: whole bytes below 1 KiB, else the value in the
/// largest unit reached with one decimal place (ties to even).
pub open spec fn humanized(bytes: nat) -> Seq<char> {
    let k = unit_index(bytes);
    if k == 0 {
        decimal(bytes) + " B"@
    } else {
        let tenths = round_half_even(bytes * 10, pow1024(k));
        decimal(tenths / 10) + "."@ + decimal(tenths % 10) + " "@ + unit_name(k)
    }
}

/// Render a byte count as a human-readable size in binary units, e.g.
/// `482.9 KiB`.
pub fn humanize_bytes(bytes: u64) -> (s: String)
    ensures
        s@ == humanized(bytes as nat),
{
    proof {
        reveal_with_fuel(pow1024, 5);
    }
    let b = bytes as u128;
    let (k, unit, d): (u64, &str, u128) = if b < 1024 {
        (0, "B", 1)
    } else if b < 1048576 {
        (1, "KiB", 1024)
    } else if b < 1073741824 {
        (2, "MiB", 1048576)
    } else if b < 1099511627776 {
        (3, "GiB", 1073741824)
    } else {
        (4, "TiB", 1099511627776)
    };
    assert(k == unit_index(bytes as nat));
    assert(d == pow1024(k as nat));
    assert(unit@ == unit_name(k as nat));
    if k == 0 {
        let digits = decimal_string(bytes);
        return concat2(digits.as_str(), " B");
    }
    let n = b * 10;
    let q = n / d;
    let r = n % d;
    let tenths: u128 = if 2 * r > d || (2 * r == d && q % 2 == 1) {
        q + 1
    } else {
        q
    };
    assert(tenths == round_half_even(bytes as nat * 10, pow1024(k as nat)));
    assert(tenths / 10 <= u64::MAX);
    let whole = decimal_string((tenths / 10) as u64);
    let frac = decimal_string((tenths % 10) as u64);
    let a = concat3(whole.as_str(), ".", frac.as_str());
    concat3(a.as_str(), " ", unit)
}

/// What `sha2::Sha256` computes for `bytes`.
pub uninterp spec fn sha256_of(bytes: Seq<u8>) -> Seq<u8>;

/// The SHA-256 digest of `bytes`, by `sha2::Sha256::digest`: the digest is
/// the crate's, named `sha256_of`, and is 32 bytes long.
#[verifier::external_body]
fn sha256_digest(bytes: &[u8]) -> (d: Vec<u8>)
    ensures
        d@ == sha256_of(bytes@),
        d@.len() == 32,
{
    <sha2::Sha256 as sha2::Digest>::digest(bytes).to_vec()
}

/// The lowercase hexadecimal digit for `v` in `0..16`.
pub open spec fn hex_digit(v: int) -> char {
    if v < 10 {
        (v + '0' as int) as char
    } else {
        (v - 10 + 'a' as int) as char
    }
}

/// Bytes as lowercase hexadecimal, two digits per byte.
pub open spec fn hex_of(bytes: Seq<u8>) -> Seq<char>
    decreases bytes.len(),
{
    if bytes.len() == 0 {
        Seq::empty()
    } else {
        hex_of(bytes.drop_last()) + seq![
            hex_digit(bytes.last() as int / 16),
            hex_digit(bytes.last() as int % 16),
        ]
    }
}

fn hex_digit_exec(v: u8) -> (c: char)
    requires
        v < 16,
    ensures
        c == hex_digit(v as int),
{
    if v < 10 {
        ((v + 48) as char)
    } else {
        ((v - 10 + 97) as char)
    }
}

/// The content hash of an input's bytes: `sha256:` and the lowercase hex
/// SHA-256 digest.
pub fn content_hash_sha256(bytes: &[u8]) -> (s: String)
    ensures
        s@ == "sha256:"@ + hex_of(sha256_of(bytes@)),
{
    let d = sha256_digest(bytes);
    let mut s = String::from_str("sha256:");
    let ghost prefix = s@;
    let mut i: usize = 0;
    while i < d.len()
        invariant
            i <= d@.len(),
            prefix == "sha256:"@,
            s@ == prefix + hex_of(d@.take(i as int)),
        decreases d.len() - i,
    {
        let byte = d[i];
        push_char(&mut s, hex_digit_exec(byte / 16));
        push_char(&mut s, hex_digit_exec(byte % 16));
        proof {
            assert(d@.take(i + 1).drop_last() =~= d@.take(i as int));
            assert(d@.take(i + 1).last() == byte);
            assert(s@ =~= prefix + hex_of(d@.take(i + 1)));
        }
        i = i + 1;
    }
    assert(d@.take(i as int) =~= d@);
    s
}

/// The content hash of an input: none for standard input (`-`) or an
/// input whose bytes could not be read, else the SHA-256 hash of its bytes.
pub fn content_hash_for(path: &str, contents: Option<&[u8]>) -> (h: Option<String>)
    ensures
        path@ == "-"@ ==> h is None,
        path@ != "-"@ ==> match contents {
            Some(b) => h is Some && h->Some_0@ == "sha256:"@ + hex_of(sha256_of(b@)),
            None => h is None,
        },
{
    if str_eq(path, "-") {
        None
    } else {
        match contents {
            Some(b) => Some(content_hash_sha256(b)),
            None => None,
        }
    }
}

} // verus!
