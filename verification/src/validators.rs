//! Deterministic validators for the built-in PII entities, plus the names
//! custom recognizers use to declare them.
use crate::text::{chars_of, lower_char, str_eq};
use vstd::prelude::*;
use vstd::utf8::{encode_utf8, is_char_boundary};
use vstd::string::StringSliceAdditionalSpecFns;

verus! {

/// One of the validators a recognizer (built-in or custom) can declare.
#[derive(Debug, Clone, Copy, PartialEq, Eq, Structural)]
pub enum ValidatorKind {
    Luhn,
    Ipv4,
    Ipv6,
    Url,
    UsSsn,
    Uuid,
    UsZip,
}

/// The declaration name of each validator.
pub open spec fn validator_name(k: ValidatorKind) -> Seq<char> {
    match k {
        ValidatorKind::Luhn => "luhn"@,
        ValidatorKind::Ipv4 => "ipv4"@,
        ValidatorKind::Ipv6 => "ipv6"@,
        ValidatorKind::Url => "url"@,
        ValidatorKind::UsSsn => "us_ssn"@,
        ValidatorKind::Uuid => "uuid"@,
        ValidatorKind::UsZip => "us_zip"@,
    }
}

/// The validator a declaration name stands for (case-sensitive).
pub open spec fn validator_from_name(n: Seq<char>) -> Option<ValidatorKind> {
    if n == "luhn"@ {
        Some(ValidatorKind::Luhn)
    } else if n == "ipv4"@ {
        Some(ValidatorKind::Ipv4)
    } else if n == "ipv6"@ {
        Some(ValidatorKind::Ipv6)
    } else if n == "url"@ {
        Some(ValidatorKind::Url)
    } else if n == "us_ssn"@ {
        Some(ValidatorKind::UsSsn)
    } else if n == "uuid"@ {
        Some(ValidatorKind::Uuid)
    } else if n == "us_zip"@ {
        Some(ValidatorKind::UsZip)
    } else {
        None
    }
}

impl ValidatorKind {
    /// The declaration name of this validator.
    pub fn name(self) -> (n: &'static str)
        ensures
            n@ == validator_name(self),
    {
        match self {
            ValidatorKind::Luhn => "luhn",
            ValidatorKind::Ipv4 => "ipv4",
            ValidatorKind::Ipv6 => "ipv6",
            ValidatorKind::Url => "url",
            ValidatorKind::UsSsn => "us_ssn",
            ValidatorKind::Uuid => "uuid",
            ValidatorKind::UsZip => "us_zip",
        }
    }

    /// Parse a declaration name (case-sensitive); `None` for any other name.
    pub fn from_name(name: &str) -> (k: Option<ValidatorKind>)
        ensures
            k == validator_from_name(name@),
    {
        if str_eq(name, "luhn") {
            Some(ValidatorKind::Luhn)
        } else if str_eq(name, "ipv4") {
            Some(ValidatorKind::Ipv4)
        } else if str_eq(name, "ipv6") {
            Some(ValidatorKind::Ipv6)
        } else if str_eq(name, "url") {
            Some(ValidatorKind::Url)
        } else if str_eq(name, "us_ssn") {
            Some(ValidatorKind::UsSsn)
        } else if str_eq(name, "uuid") {
            Some(ValidatorKind::Uuid)
        } else if str_eq(name, "us_zip") {
            Some(ValidatorKind::UsZip)
        } else {
            None
        }
    }
}

/// Every validator name parses back to its validator.
pub proof fn lemma_name_round_trip(k: ValidatorKind)
    ensures
        validator_from_name(validator_name(k)) == Some(k),
{
    reveal_strlit("luhn");
    reveal_strlit("ipv4");
    reveal_strlit("ipv6");
    reveal_strlit("url");
    reveal_strlit("us_ssn");
    reveal_strlit("uuid");
    reveal_strlit("us_zip");
    assert("luhn"@[0] != "ipv4"@[0] && "luhn"@[0] != "ipv6"@[0] && "ipv4"@[3] != "ipv6"@[3]);
    assert("uuid"@[0] != "luhn"@[0] && "uuid"@[0] != "ipv4"@[0] && "uuid"@[0] != "ipv6"@[0]);
    assert("us_zip"@[3] != "us_ssn"@[3]);
    assert("luhn"@ != "ipv4"@ && "luhn"@ != "ipv6"@ && "ipv4"@ != "ipv6"@);
    assert("url"@.len() != "luhn"@.len());
    assert("url"@ != "luhn"@ && "url"@ != "ipv4"@ && "url"@ != "ipv6"@);
    assert("us_ssn"@ != "luhn"@ && "us_ssn"@ != "ipv4"@ && "us_ssn"@ != "ipv6"@);
    assert("us_ssn"@ != "url"@);
    assert("uuid"@ != "luhn"@ && "uuid"@ != "ipv4"@ && "uuid"@ != "ipv6"@);
    assert("uuid"@ != "url"@ && "uuid"@ != "us_ssn"@);
    assert("us_zip"@ != "luhn"@ && "us_zip"@ != "ipv4"@ && "us_zip"@ != "ipv6"@);
    assert("us_zip"@ != "url"@ && "us_zip"@ != "us_ssn"@ && "us_zip"@ != "uuid"@);
}

} // verus!

verus! {

/// An ASCII decimal digit.
pub open spec fn is_digit(c: char) -> bool {
    '0' <= c && c <= '9'
}

/// An ASCII hexadecimal digit.
pub open spec fn is_hex(c: char) -> bool {
    ('0' <= c && c <= '9') || ('a' <= c && c <= 'f') || ('A' <= c && c <= 'F')
}

/// The numeric value of a decimal digit character.
pub open spec fn digit_value(c: char) -> int {
    c as int - '0' as int
}

/// The decimal digits of `s`, in order.
pub open spec fn digits_of(s: Seq<char>) -> Seq<char>
    decreases s.len(),
{
    if s.len() == 0 {
        Seq::empty()
    } else if is_digit(s.last()) {
        digits_of(s.drop_last()).push(s.last())
    } else {
        digits_of(s.drop_last())
    }
}

/// One Luhn term: doubled digits above 9 have 9 subtracted.
pub open spec fn luhn_term(d: int, double: bool) -> int {
    if double {
        if 2 * d > 9 { 2 * d - 9 } else { 2 * d }
    } else {
        d
    }
}

/// The Luhn checksum sum of a digit string: counting positions from the
/// right starting at 0, digits in odd positions are doubled.
pub open spec fn luhn_sum(ds: Seq<char>) -> int
    decreases ds.len(),
{
    if ds.len() == 0 {
        0
    } else {
        luhn_term(digit_value(ds[0]), (ds.len() - 1) % 2 == 1) + luhn_sum(ds.drop_first())
    }
}

/// Credit-card check: only digits, spaces and dashes; 13 to 19 digits; and a
/// Luhn sum divisible by 10.
pub open spec fn luhn_valid_spec(s: Seq<char>) -> bool {
    &&& forall|i: int| 0 <= i < s.len() ==> (is_digit(s[i]) || s[i] == ' ' || s[i] == '-')
    &&& 13 <= digits_of(s).len() <= 19
    &&& luhn_sum(digits_of(s)) % 10 == 0
}

/// The digits of `s`, collected in order.
pub fn collect_digits(s: &[char]) -> (ds: Vec<char>)
    ensures
        ds@ == digits_of(s@),
{
    let mut ds: Vec<char> = Vec::new();
    let mut i: usize = 0;
    while i < s.len()
        invariant
            i <= s.len(),
            ds@ == digits_of(s@.take(i as int)),
        decreases s.len() - i,
    {
        assert(s@.take(i + 1).drop_last() =~= s@.take(i as int));
        if '0' <= s[i] && s[i] <= '9' {
            ds.push(s[i]);
        }
        i = i + 1;
    }
    assert(s@.take(s.len() as int) =~= s@);
    ds
}

proof fn lemma_luhn_sum_bound(ds: Seq<char>)
    requires
        forall|i: int| 0 <= i < ds.len() ==> is_digit(ds[i]),
    ensures
        0 <= luhn_sum(ds) <= 9 * ds.len(),
    decreases ds.len(),
{
    if ds.len() > 0 {
        lemma_luhn_sum_bound(ds.drop_first());
    }
}

proof fn lemma_digits_are_digits(s: Seq<char>)
    ensures
        forall|i: int| 0 <= i < digits_of(s).len() ==> is_digit(digits_of(s)[i]),
        digits_of(s).len() <= s.len(),
    decreases s.len(),
{
    if s.len() > 0 {
        lemma_digits_are_digits(s.drop_last());
    }
}

fn luhn_valid(raw: &str) -> (r: bool)
    ensures
        r == luhn_valid_spec(raw@),
{
    let s = chars_of(raw);
    let mut i: usize = 0;
    while i < s.len()
        invariant
            s@ == raw@,
            i <= s.len(),
            forall|k: int| 0 <= k < i ==> (is_digit(s@[k]) || s@[k] == ' ' || s@[k] == '-'),
        decreases s.len() - i,
    {
        let c = s[i];
        if !(('0' <= c && c <= '9') || c == ' ' || c == '-') {
            return false;
        }
        i = i + 1;
    }
    let ds = collect_digits(&s);
    let len = ds.len();
    if len < 13 || len > 19 {
        return false;
    }
    proof {
        lemma_digits_are_digits(raw@);
    }
    let mut sum: u32 = 0;
    let mut double = false;
    let mut j: usize = len;
    while j > 0
        invariant
            ds@ == digits_of(raw@),
            len == ds.len(),
            13 <= len <= 19,
            j <= len,
            forall|k: int| 0 <= k < ds@.len() ==> is_digit(ds@[k]),
            sum as int == luhn_sum(ds@.subrange(j as int, len as int)),
            double == ((len - j) % 2 == 1),
        decreases j,
    {
        j = j - 1;
        let c = ds[j];
        let mut d: u32 = (c as u32) - ('0' as u32);
        if double {
            d = d * 2;
            if d > 9 {
                d = d - 9;
            }
        }
        proof {
            let tail = ds@.subrange(j as int, len as int);
            assert(tail.drop_first() =~= ds@.subrange(j + 1, len as int));
            assert(tail[0] == c);
            lemma_luhn_sum_bound(ds@.subrange(j + 1, len as int));
        }
        sum = sum + d;
        double = !double;
    }
    assert(ds@.subrange(0, len as int) =~= ds@);
    sum % 10 == 0
}

} // verus!

verus! {

/// US SSN check: exactly nine digits whose three-digit area number is not
/// `000`, not `666` and below `900`.
pub open spec fn ssn_valid_spec(s: Seq<char>) -> bool {
    let ds = digits_of(s);
    let area = 100 * digit_value(ds[0]) + 10 * digit_value(ds[1]) + digit_value(ds[2]);
    ds.len() == 9 && area != 0 && area != 666 && area < 900
}

fn us_ssn_valid(raw: &str) -> (r: bool)
    ensures
        r == ssn_valid_spec(raw@),
{
    let s = chars_of(raw);
    let ds = collect_digits(&s);
    if ds.len() != 9 {
        return false;
    }
    proof {
        lemma_digits_are_digits(raw@);
    }
    let area: u32 = 100 * ((ds[0] as u32) - ('0' as u32)) + 10 * ((ds[1] as u32) - ('0' as u32))
        + ((ds[2] as u32) - ('0' as u32));
    area != 0 && area != 666 && area < 900
}

/// `s` with every `-` removed.
pub open spec fn without_dashes(s: Seq<char>) -> Seq<char>
    decreases s.len(),
{
    if s.len() == 0 {
        Seq::empty()
    } else if s.last() != '-' {
        without_dashes(s.drop_last()).push(s.last())
    } else {
        without_dashes(s.drop_last())
    }
}

/// UUID check: with dashes removed, 32 hexadecimal digits whose version
/// nibble (index 12) is `1`-`5` and whose variant nibble (index 16) is `8`,
/// `9`, `a` or `b` (either case).
pub open spec fn uuid_valid_spec(s: Seq<char>) -> bool {
    let h = without_dashes(s);
    &&& h.len() == 32
    &&& forall|i: int| 0 <= i < h.len() ==> is_hex(h[i])
    &&& '1' <= h[12] && h[12] <= '5'
    &&& (lower_char(h[16]) == '8' || lower_char(h[16]) == '9' || lower_char(h[16]) == 'a'
        || lower_char(h[16]) == 'b')
}

fn uuid_valid(raw: &str) -> (r: bool)
    ensures
        r == uuid_valid_spec(raw@),
{
    let s = chars_of(raw);
    let mut h: Vec<char> = Vec::new();
    let mut i: usize = 0;
    while i < s.len()
        invariant
            s@ == raw@,
            i <= s.len(),
            h@ == without_dashes(s@.take(i as int)),
        decreases s.len() - i,
    {
        assert(s@.take(i + 1).drop_last() =~= s@.take(i as int));
        if s[i] != '-' {
            h.push(s[i]);
        }
        i = i + 1;
    }
    assert(s@.take(s.len() as int) =~= s@);
    if h.len() != 32 {
        return false;
    }
    let mut k: usize = 0;
    while k < h.len()
        invariant
            k <= h.len(),
            h.len() == 32,
            h@ == without_dashes(raw@),
            forall|j: int| 0 <= j < k ==> is_hex(h@[j]),
        decreases h.len() - k,
    {
        let c = h[k];
        if !(('0' <= c && c <= '9') || ('a' <= c && c <= 'f') || ('A' <= c && c <= 'F')) {
            assert(!is_hex(h@[k as int]));
            return false;
        }
        k = k + 1;
    }
    let version = h[12];
    let variant = crate::text::lower_char_exec(h[16]);
    '1' <= version && version <= '5' && (variant == '8' || variant == '9' || variant == 'a'
        || variant == 'b')
}

/// The first five characters of `s` are all `c`.
pub open spec fn starts_with_five(s: Seq<char>, c: char) -> bool {
    s.len() >= 5 && s[0] == c && s[1] == c && s[2] == c && s[3] == c && s[4] == c
}

/// US ZIP check: the five-character prefix is not one of the placeholder
/// ZIPs `00000` or `99999`.
pub open spec fn zip_valid_spec(s: Seq<char>) -> bool {
    !starts_with_five(s, '0') && !starts_with_five(s, '9')
}

/// Whether the ZIP check can take the five-byte prefix of `s`: the string is
/// at most five bytes long, or byte 5 starts a character.
pub open spec fn zip_prefix_ok(s: Seq<char>) -> bool {
    encode_utf8(s).len() <= 5 || is_char_boundary(encode_utf8(s), 5)
}

/// Whether the ZIP check can take the five-byte prefix of `s`.
pub fn zip_prefix_checkable(s: &str) -> (r: bool)
    ensures
        r == zip_prefix_ok(s@),
{
    let bytes = s.as_bytes();
    bytes.len() <= 5 || s.is_char_boundary(5)
}

fn us_zip_valid(raw: &str) -> (r: bool)
    ensures
        r == zip_valid_spec(raw@),
{
    let s = chars_of(raw);
    if s.len() < 5 {
        return true;
    }
    let zeros = s[0] == '0' && s[1] == '0' && s[2] == '0' && s[3] == '0' && s[4] == '0';
    let nines = s[0] == '9' && s[1] == '9' && s[2] == '9' && s[3] == '9' && s[4] == '9';
    !zeros && !nines
}

/// What `url::Url::parse` makes of a string: `None` when it fails to parse,
/// otherwise the parsed scheme and whether the URL has a host.
pub uninterp spec fn url_parse_outcome(raw: Seq<char>) -> Option<(Seq<char>, bool)>;

/// Parses `raw` with `url::Url::parse`, returning the scheme and whether a
/// host is present. The result is the outcome of the `url` crate's parser,
/// named `url_parse_outcome`; nothing more is claimed about it.
#[verifier::external_body]
fn parse_url(raw: &str) -> (r: Option<(String, bool)>)
    ensures
        match r {
            Some((scheme, host)) => url_parse_outcome(raw@) == Some((scheme@, host)),
            None => url_parse_outcome(raw@) is None,
        },
{
    match url::Url::parse(raw) {
        Ok(parsed) => Some((parsed.scheme().to_string(), parsed.host().is_some())),
        Err(_) => None,
    }
}

/// URL check: parses, with a non-empty scheme and a host.
pub open spec fn url_valid_spec(s: Seq<char>) -> bool {
    match url_parse_outcome(s) {
        Some((scheme, host)) => scheme.len() > 0 && host,
        None => false,
    }
}

fn url_valid(raw: &str) -> (r: bool)
    ensures
        r == url_valid_spec(raw@),
{
    match parse_url(raw) {
        Some((scheme, host)) => {
            let sc = chars_of(scheme.as_str());
            sc.len() > 0 && host
        },
        None => false,
    }
}

/// What `kind` decides for `candidate`. For `Ipv4`/`Ipv6` the decision is
/// whether the candidate parses as that address type, which the caller
/// supplies as `address_parses`.
pub open spec fn validate_spec(kind: ValidatorKind, c: Seq<char>, address_parses: bool) -> bool {
    match kind {
        ValidatorKind::Luhn => luhn_valid_spec(c),
        ValidatorKind::Ipv4 => address_parses,
        ValidatorKind::Ipv6 => address_parses,
        ValidatorKind::Url => url_valid_spec(c),
        ValidatorKind::UsSsn => ssn_valid_spec(c),
        ValidatorKind::Uuid => uuid_valid_spec(c),
        ValidatorKind::UsZip => zip_valid_spec(c),
    }
}

/// Apply `kind` to a matched substring `candidate`; `true` means the
/// candidate is a genuine instance of the entity. The address validators
/// (`Ipv4`, `Ipv6`) are decided by the standard library's address parsers,
/// whose verdict the caller passes as `address_parses`.
pub fn validate(kind: ValidatorKind, candidate: &str, address_parses: bool) -> (r: bool)
    requires
        kind == ValidatorKind::UsZip ==> zip_prefix_ok(candidate@),
    ensures
        r == validate_spec(kind, candidate@, address_parses),
{
    match kind {
        ValidatorKind::Luhn => luhn_valid(candidate),
        ValidatorKind::Ipv4 => address_parses,
        ValidatorKind::Ipv6 => address_parses,
        ValidatorKind::Url => url_valid(candidate),
        ValidatorKind::UsSsn => us_ssn_valid(candidate),
        ValidatorKind::Uuid => uuid_valid(candidate),
        ValidatorKind::UsZip => us_zip_valid(candidate),
    }
}

} // verus!
