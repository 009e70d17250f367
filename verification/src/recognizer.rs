//! PII recognizers: the shape shared by the built-ins and by custom
//! recognizers loaded from a recognizers file, the fixed table of built-ins,
//! and the override-by-id merge of custom recognizers into that table.
//! Patterns are kept as their regular-expression text; confidences are in
//! millionths (see `crate::confidence`).
use crate::confidence::CONFIDENCE_SCALE;
use crate::text::str_eq;
use crate::validators::ValidatorKind;
use vstd::prelude::*;

verus! {

/// A single PII recognizer.
#[derive(Debug)]
pub struct Recognizer {
    pub id: String,
    pub entity: String,
    /// Declared base confidence, in millionths.
    pub base_confidence: i64,
    /// Alternative regular expressions; a match against any counts.
    pub patterns: Vec<String>,
    /// Terms matched case-insensitively against the column name.
    pub context: Vec<String>,
    /// Validators every candidate must pass (all of them).
    pub validators: Vec<ValidatorKind>,
}

/// The flat listing shape of a recognizer.
#[derive(Debug)]
pub struct RecognizerSummary {
    pub id: String,
    pub entity: String,
    /// Declared base confidence, in millionths.
    pub confidence: i64,
    pub pattern_count: usize,
}

/// A recognizer as plain values: id, entity, base confidence, patterns,
/// context terms and validators.
pub type RecognizerModel = (Seq<char>, Seq<char>, int, Seq<Seq<char>>, Seq<Seq<char>>, Seq<ValidatorKind>);

/// The views of a list of strings.
pub open spec fn strings_view(v: Seq<String>) -> Seq<Seq<char>> {
    v.map_values(|s: String| s@)
}

/// The views of a list of string slices.
pub open spec fn strs_view(v: Seq<&str>) -> Seq<Seq<char>> {
    v.map_values(|s: &str| s@)
}

impl Recognizer {
    /// This recognizer as plain values.
    pub open spec fn model(&self) -> RecognizerModel {
        (
            self.id@,
            self.entity@,
            self.base_confidence as int,
            strings_view(self.patterns@),
            strings_view(self.context@),
            self.validators@,
        )
    }

    /// How many alternative patterns this recognizer has.
    pub fn pattern_count(&self) -> (n: usize)
        ensures
            n == self.patterns@.len(),
    {
        self.patterns.len()
    }

    /// The listing row for this recognizer.
    pub fn summary(&self) -> (s: RecognizerSummary)
        ensures
            s.id@ == self.id@,
            s.entity@ == self.entity@,
            s.confidence == self.base_confidence,
            s.pattern_count == self.patterns@.len(),
    {
        RecognizerSummary {
            id: String::from_str(self.id.as_str()),
            entity: String::from_str(self.entity.as_str()),
            confidence: self.base_confidence,
            pattern_count: self.pattern_count(),
        }
    }
}

/// The models of a list of recognizers.
pub open spec fn models(v: Seq<Recognizer>) -> Seq<RecognizerModel> {
    v.map_values(|r: Recognizer| r.model())
}

/// Owned copies of the given strings.
pub fn strings(items: &[&str]) -> (v: Vec<String>)
    ensures
        strings_view(v@) == strs_view(items@),
{
    let mut v: Vec<String> = Vec::new();
    let mut i: usize = 0;
    while i < items.len()
        invariant
            i <= items@.len(),
            strings_view(v@) == strs_view(items@.take(i as int)),
        decreases items.len() - i,
    {
        v.push(String::from_str(items[i]));
        assert(strs_view(items@.take((i + 1) as int)) == strs_view(items@.take(i as int)).push(
            items@[i as int]@,
        ));
        i = i + 1;
    }
    assert(items@.take(items@.len() as int) == items@);
    v
}

/// The built-in table, in its fixed order.
pub open spec fn builtin_models() -> Seq<RecognizerModel> {
    seq![
        (
            "email_address"@,
            "EMAIL_ADDRESS"@,
            750000,
            seq![r"(?i)\b[a-z0-9._%+-]+@[a-z0-9.-]+\.[a-z]{2,}\b"@],
            seq!["email"@, "e-mail"@],
            seq![],
        ),
        (
            "phone_number"@,
            "PHONE_NUMBER"@,
            600000,
            seq![r"\(\d{3}\)\s?\d{3}-\d{4}|\b\d{3}-\d{3}-\d{4}\b|\b\d{3}\.\d{3}\.\d{4}\b"@],
            seq!["phone"@, "phone_number"@, "mobile"@, "cell"@, "telephone"@],
            seq![],
        ),
        (
            "ip_address_v4"@,
            "IP_ADDRESS_V4"@,
            550000,
            seq![r"\b(?:\d{1,3}\.){3}\d{1,3}\b"@],
            seq!["ipv4"@, "ip_address"@, "ip address"@, "ipaddr"@],
            seq![ValidatorKind::Ipv4],
        ),
        (
            "ip_address_v6"@,
            "IP_ADDRESS_V6"@,
            550000,
            seq![r"[0-9A-Fa-f:]{2,45}"@],
            seq!["ipv6"@, "ip_address"@, "ip address"@, "ipaddr"@],
            seq![ValidatorKind::Ipv6],
        ),
        (
            "url"@,
            "URL"@,
            650000,
            seq![r#"(?i)\bhttps?://[^\s"'<>]+"#@],
            seq!["url"@, "website"@, "link"@, "uri"@],
            seq![ValidatorKind::Url],
        ),
        (
            "us_ssn"@,
            "US_SSN"@,
            750000,
            seq![r"\b\d{3}-\d{2}-\d{4}\b"@],
            seq!["ssn"@, "social_security"@, "taxpayer_id"@],
            seq![ValidatorKind::UsSsn],
        ),
        (
            "credit_card"@,
            "CREDIT_CARD"@,
            700000,
            seq![r"\b\d[\d -]{11,21}\d\b"@],
            seq!["credit_card"@, "card_number"@, "creditcard"@, "cc_number"@],
            seq![ValidatorKind::Luhn],
        ),
        (
            "uuid"@,
            "UUID"@,
            550000,
            seq![r"(?i)\b[0-9a-f]{8}-[0-9a-f]{4}-[0-9a-f]{4}-[0-9a-f]{4}-[0-9a-f]{12}\b"@],
            seq!["uuid"@, "guid"@],
            seq![ValidatorKind::Uuid],
        ),
        (
            "mac_address"@,
            "MAC_ADDRESS"@,
            800000,
            seq![r"(?i)\b(?:[0-9a-f]{2}[:-]){5}[0-9a-f]{2}\b"@],
            seq!["mac_address"@, "macaddr"@, "hwaddr"@],
            seq![],
        ),
        (
            "us_zip_code"@,
            "US_ZIP_CODE"@,
            500000,
            seq![r"\b\d{5}(?:-\d{4})?\b"@],
            seq!["zip"@, "zip_code"@, "zipcode"@, "postal_code"@, "postal"@],
            seq![ValidatorKind::UsZip],
        ),
    ]
}

} // verus!

verus! {

/// A recognizer from literal parts.
fn recognizer_of(
    id: &str,
    entity: &str,
    base_confidence: i64,
    patterns: &[&str],
    context: &[&str],
    validators: &[ValidatorKind],
) -> (r: Recognizer)
    ensures
        r.model() == (id@, entity@, base_confidence as int, strs_view(patterns@), strs_view(context@), validators@),
{
    Recognizer {
        id: String::from_str(id),
        entity: String::from_str(entity),
        base_confidence,
        patterns: strings(patterns),
        context: strings(context),
        validators: vstd::slice::slice_to_vec(validators),
    }
}

/// The built-in recognizers, in their fixed order: email address, phone
/// number, IPv4 and IPv6 address, URL, US SSN, credit card, UUID, MAC
/// address and US ZIP code.
pub fn builtin_recognizers() -> (v: Vec<Recognizer>)
    ensures
        models(v@) == builtin_models(),
{
    let mut v: Vec<Recognizer> = Vec::new();
    let r0 = recognizer_of("email_address", "EMAIL_ADDRESS", 750000, &[r"(?i)\b[a-z0-9._%+-]+@[a-z0-9.-]+\.[a-z]{2,}\b"], &["email", "e-mail"], &[]);
    assert(r0.model() == builtin_models()[0]);
    v.push(r0);
    let r1 = recognizer_of("phone_number", "PHONE_NUMBER", 600000, &[r"\(\d{3}\)\s?\d{3}-\d{4}|\b\d{3}-\d{3}-\d{4}\b|\b\d{3}\.\d{3}\.\d{4}\b"], &["phone", "phone_number", "mobile", "cell", "telephone"], &[]);
    assert(r1.model() == builtin_models()[1]);
    v.push(r1);
    let r2 = recognizer_of("ip_address_v4", "IP_ADDRESS_V4", 550000, &[r"\b(?:\d{1,3}\.){3}\d{1,3}\b"], &["ipv4", "ip_address", "ip address", "ipaddr"], &[ValidatorKind::Ipv4]);
    assert(r2.model() == builtin_models()[2]);
    v.push(r2);
    let r3 = recognizer_of("ip_address_v6", "IP_ADDRESS_V6", 550000, &[r"[0-9A-Fa-f:]{2,45}"], &["ipv6", "ip_address", "ip address", "ipaddr"], &[ValidatorKind::Ipv6]);
    assert(r3.model() == builtin_models()[3]);
    v.push(r3);
    let r4 = recognizer_of("url", "URL", 650000, &[r#"(?i)\bhttps?://[^\s"'<>]+"#], &["url", "website", "link", "uri"], &[ValidatorKind::Url]);
    assert(r4.model() == builtin_models()[4]);
    v.push(r4);
    let r5 = recognizer_of("us_ssn", "US_SSN", 750000, &[r"\b\d{3}-\d{2}-\d{4}\b"], &["ssn", "social_security", "taxpayer_id"], &[ValidatorKind::UsSsn]);
    assert(r5.model() == builtin_models()[5]);
    v.push(r5);
    let r6 = recognizer_of("credit_card", "CREDIT_CARD", 700000, &[r"\b\d[\d -]{11,21}\d\b"], &["credit_card", "card_number", "creditcard", "cc_number"], &[ValidatorKind::Luhn]);
    assert(r6.model() == builtin_models()[6]);
    v.push(r6);
    let r7 = recognizer_of("uuid", "UUID", 550000, &[r"(?i)\b[0-9a-f]{8}-[0-9a-f]{4}-[0-9a-f]{4}-[0-9a-f]{4}-[0-9a-f]{12}\b"], &["uuid", "guid"], &[ValidatorKind::Uuid]);
    assert(r7.model() == builtin_models()[7]);
    v.push(r7);
    let r8 = recognizer_of("mac_address", "MAC_ADDRESS", 800000, &[r"(?i)\b(?:[0-9a-f]{2}[:-]){5}[0-9a-f]{2}\b"], &["mac_address", "macaddr", "hwaddr"], &[]);
    assert(r8.model() == builtin_models()[8]);
    v.push(r8);
    let r9 = recognizer_of("us_zip_code", "US_ZIP_CODE", 500000, &[r"\b\d{5}(?:-\d{4})?\b"], &["zip", "zip_code", "zipcode", "postal_code", "postal"], &[ValidatorKind::UsZip]);
    assert(r9.model() == builtin_models()[9]);
    v.push(r9);
    assert(models(v@) =~= builtin_models());
    v
}

} // verus!

verus! {

/// No two entries share an id.
pub open spec fn distinct_ids(s: Seq<RecognizerModel>) -> bool {
    forall|i: int, j: int| 0 <= i < j < s.len() ==> #[trigger] s[i].0 != #[trigger] s[j].0
}

/// The index of the first entry with id `id`, or -1 when there is none.
pub open spec fn find_id(s: Seq<RecognizerModel>, id: Seq<char>) -> int
    decreases s.len(),
{
    if s.len() == 0 {
        -1
    } else {
        let k = find_id(s.drop_last(), id);
        if k >= 0 {
            k
        } else if s.last().0 == id {
            s.len() - 1
        } else {
            -1
        }
    }
}

/// Merge one custom recognizer: it replaces the entry with its id in place,
/// or is appended when no entry has its id.
pub open spec fn merge_one(acc: Seq<RecognizerModel>, c: RecognizerModel) -> Seq<RecognizerModel> {
    let k = find_id(acc, c.0);
    if k >= 0 {
        acc.update(k, c)
    } else {
        acc.push(c)
    }
}

/// Merge custom recognizers, in order, into `base`.
pub open spec fn merge_spec(base: Seq<RecognizerModel>, customs: Seq<RecognizerModel>) -> Seq<
    RecognizerModel,
>
    decreases customs.len(),
{
    if customs.len() == 0 {
        base
    } else {
        merge_one(merge_spec(base, customs.drop_last()), customs.last())
    }
}

/// `find_id` finds the first entry with the id, and only reports -1 when
/// there is none.
pub proof fn lemma_find_id(s: Seq<RecognizerModel>, id: Seq<char>)
    ensures
        -1 <= find_id(s, id) < s.len(),
        find_id(s, id) == -1 <==> (forall|i: int| 0 <= i < s.len() ==> #[trigger] s[i].0 != id),
        find_id(s, id) >= 0 ==> s[find_id(s, id)].0 == id,
        forall|i: int| 0 <= i < find_id(s, id) ==> #[trigger] s[i].0 != id,
    decreases s.len(),
{
    if s.len() > 0 {
        lemma_find_id(s.drop_last(), id);
        assert forall|i: int| 0 <= i < s.len() - 1 implies #[trigger] s[i] == s.drop_last()[i] by {}
    }
}

/// Merging one recognizer into a table with distinct ids keeps the ids
/// distinct, puts the recognizer in the table (in the slot of the entry it
/// overrides, or at the end), leaves every other entry where it was, and
/// grows the table only when the id was new.
pub proof fn lemma_merge_one(acc: Seq<RecognizerModel>, c: RecognizerModel)
    requires
        distinct_ids(acc),
    ensures
        distinct_ids(merge_one(acc, c)),
        find_id(acc, c.0) >= 0 ==> merge_one(acc, c).len() == acc.len(),
        find_id(acc, c.0) < 0 ==> merge_one(acc, c).len() == acc.len() + 1,
        merge_one(acc, c)[find_id(merge_one(acc, c), c.0)] == c,
        find_id(merge_one(acc, c), c.0) >= 0,
        forall|j: int|
            0 <= j < acc.len() && acc[j].0 != c.0 ==> #[trigger] merge_one(acc, c)[j] == acc[j],
{
    lemma_find_id(acc, c.0);
    let r = merge_one(acc, c);
    lemma_find_id(r, c.0);
    if find_id(acc, c.0) >= 0 {
        let k = find_id(acc, c.0);
        assert(r[k] == c);
        assert forall|i: int, j: int| 0 <= i < j < r.len() implies #[trigger] r[i].0 != #[trigger] r[j].0 by {
            if i != k && j != k {
                assert(r[i] == acc[i] && r[j] == acc[j]);
            } else if i == k {
                assert(r[j] == acc[j]);
            } else {
                assert(r[i] == acc[i]);
            }
        }
        assert(find_id(r, c.0) == k) by {
            assert(r[k].0 == c.0);
            if find_id(r, c.0) < k {
                assert(r[find_id(r, c.0)] == acc[find_id(r, c.0)]);
            }
        }
    } else {
        let n = acc.len() as int;
        assert(r[n] == c);
        assert forall|i: int, j: int| 0 <= i < j < r.len() implies #[trigger] r[i].0 != #[trigger] r[j].0 by {
            if j == n {
                assert(r[i] == acc[i]);
            } else {
                assert(r[i] == acc[i] && r[j] == acc[j]);
            }
        }
        assert(find_id(r, c.0) == n) by {
            if find_id(r, c.0) < n {
                assert(r[find_id(r, c.0)] == acc[find_id(r, c.0)]);
            }
        }
    }
}

/// Merging custom recognizers into a table with distinct ids keeps the ids
/// distinct, and the last custom recognizer is in the result as given.
pub proof fn lemma_merge_keeps_ids_distinct(base: Seq<RecognizerModel>, customs: Seq<RecognizerModel>)
    requires
        distinct_ids(base),
    ensures
        distinct_ids(merge_spec(base, customs)),
        merge_spec(base, customs).len() <= base.len() + customs.len(),
        base.len() <= merge_spec(base, customs).len(),
        customs.len() > 0 ==> merge_spec(base, customs)[find_id(
            merge_spec(base, customs),
            customs.last().0,
        )] == customs.last(),
    decreases customs.len(),
{
    if customs.len() > 0 {
        lemma_merge_keeps_ids_distinct(base, customs.drop_last());
        lemma_merge_one(merge_spec(base, customs.drop_last()), customs.last());
    }
}

/// The built-in ids are all different.
pub proof fn lemma_builtin_ids_distinct()
    ensures
        distinct_ids(builtin_models()),
        builtin_models().len() == 10,
{
    let b = builtin_models();
    reveal_strlit("email_address");
    reveal_strlit("phone_number");
    reveal_strlit("ip_address_v4");
    reveal_strlit("ip_address_v6");
    reveal_strlit("url");
    reveal_strlit("us_ssn");
    reveal_strlit("credit_card");
    reveal_strlit("uuid");
    reveal_strlit("mac_address");
    reveal_strlit("us_zip_code");
    assert forall|i: int, j: int| 0 <= i < j < b.len() implies #[trigger] b[i].0 != #[trigger] b[j].0 by {
        assert(b[i].0.len() != b[j].0.len() || b[i].0[0] != b[j].0[0] || b[i].0[1] != b[j].0[1]
            || b[i].0[3] != b[j].0[3] || b[i].0[12] != b[j].0[12]);
    }
}

/// Every built-in has at least one pattern and a base confidence within
/// `0..=1`.
pub proof fn lemma_builtins_well_formed()
    ensures
        forall|i: int|
            0 <= i < builtin_models().len() ==> (#[trigger] builtin_models()[i]).3.len() >= 1 && 0
                <= builtin_models()[i].2 <= CONFIDENCE_SCALE,
{
}

/// The index of the recognizer with id `id` in `v`, if any.
fn slot_of(v: &Vec<Recognizer>, id: &str) -> (k: Option<usize>)
    ensures
        match k {
            Some(i) => i as int == find_id(models(v@), id@),
            None => find_id(models(v@), id@) == -1,
        },
{
    proof {
        lemma_find_id(models(v@), id@);
    }
    let mut i: usize = 0;
    while i < v.len()
        invariant
            i <= v@.len(),
            forall|j: int| 0 <= j < i ==> #[trigger] models(v@)[j].0 != id@,
            -1 <= find_id(models(v@), id@) < v@.len(),
            find_id(models(v@), id@) == -1 <==> (forall|j: int|
                0 <= j < v@.len() ==> #[trigger] models(v@)[j].0 != id@),
            find_id(models(v@), id@) >= 0 ==> models(v@)[find_id(models(v@), id@)].0 == id@,
            forall|j: int| 0 <= j < find_id(models(v@), id@) ==> #[trigger] models(v@)[j].0 != id@,
        decreases v.len() - i,
    {
        if str_eq(v[i].id.as_str(), id) {
            assert(models(v@)[i as int].0 == id@);
            return Some(i);
        }
        i = i + 1;
    }
    None
}

/// Merge custom recognizers into the built-in table: a custom recognizer
/// whose id matches an entry replaces it in place, any other is appended;
/// customs are applied in order.
pub fn merge(customs: Vec<Recognizer>) -> (merged: Vec<Recognizer>)
    ensures
        models(merged@) == merge_spec(builtin_models(), models(customs@)),
{
    let mut merged = builtin_recognizers();
    let mut rest = customs;
    let ghost all = models(rest@);
    let ghost mut done: int = 0;
    while rest.len() > 0
        invariant
            0 <= done <= all.len(),
            models(rest@) == all.skip(done),
            models(merged@) == merge_spec(builtin_models(), all.take(done)),
        decreases rest.len(),
    {
        let ghost before = rest@;
        assert(models(before).len() == before.len());
        assert(models(before)[0] == before[0].model());
        let custom = rest.remove(0);
        proof {
            assert(all.skip(done)[0] == all[done]);
            assert(custom.model() == all[done]);
            assert(models(rest@) =~= models(before).skip(1));
            assert(all.take(done + 1).drop_last() == all.take(done));
            assert(models(rest@) == all.skip(done + 1));
        }
        proof {
            lemma_find_id(models(merged@), custom.id@);
        }
        let ghost prev = models(merged@);
        match slot_of(&merged, custom.id.as_str()) {
            Some(i) => {
                merged.set(i, custom);
            },
            None => {
                merged.push(custom);
            },
        }
        proof {
            assert(models(merged@) =~= merge_one(prev, custom.model()));
            assert(all.take(done + 1).last() == all[done]);
            done = done + 1;
            assert(models(merged@) == merge_spec(builtin_models(), all.take(done)));
        }
    }
    assert(all.take(done) == all);
    merged
}

} // verus!

verus! {

/// The built-in e-mail recognizer (the first built-in, id `email_address`,
/// entity `EMAIL_ADDRESS`, confidence 0.75, no validators) has a single
/// case-insensitive pattern: a local part of letters, digits and
/// `._%+-`, an `@`, a domain of letters, digits, dots and hyphens, and a
/// top-level domain of a dot followed by two or more letters, on word
/// boundaries; so `.com`, `.org` and two-letter country domains qualify.
pub proof fn lemma_email_recognizer_pattern()
    ensures
        builtin_models()[0].0 == "email_address"@,
        builtin_models()[0].1 == "EMAIL_ADDRESS"@,
        builtin_models()[0].2 == 750000,
        builtin_models()[0].5.len() == 0,
        builtin_models()[0].3.len() == 1,
        builtin_models()[0].3[0] == r"(?i)"@ + r"\b[a-z0-9._%+-]+"@ + "@"@ + r"[a-z0-9.-]+"@
            + r"\.[a-z]{2,}\b"@,
{
    reveal_strlit(r"(?i)\b[a-z0-9._%+-]+@[a-z0-9.-]+\.[a-z]{2,}\b");
    reveal_strlit(r"(?i)");
    reveal_strlit(r"\b[a-z0-9._%+-]+");
    reveal_strlit("@");
    reveal_strlit(r"[a-z0-9.-]+");
    reveal_strlit(r"\.[a-z]{2,}\b");
    assert(builtin_models()[0].3[0] =~= r"(?i)"@ + r"\b[a-z0-9._%+-]+"@ + "@"@ + r"[a-z0-9.-]+"@
        + r"\.[a-z]{2,}\b"@);
}

/// The built-in recognizers are, in order: email address, phone number,
/// IPv4 address, IPv6 address, URL, US SSN, credit card, UUID, MAC address
/// and US ZIP code, each with its entity in capitals and its base
/// confidence in millionths.
pub proof fn lemma_builtin_ids_entities_confidences()
    ensures
        builtin_models().len() == 10,
        builtin_models()[0].0 == "email_address"@ && builtin_models()[0].1 == "EMAIL_ADDRESS"@ && builtin_models()[0].2 == 750000,
        builtin_models()[1].0 == "phone_number"@ && builtin_models()[1].1 == "PHONE_NUMBER"@ && builtin_models()[1].2 == 600000,
        builtin_models()[2].0 == "ip_address_v4"@ && builtin_models()[2].1 == "IP_ADDRESS_V4"@ && builtin_models()[2].2 == 550000,
        builtin_models()[3].0 == "ip_address_v6"@ && builtin_models()[3].1 == "IP_ADDRESS_V6"@ && builtin_models()[3].2 == 550000,
        builtin_models()[4].0 == "url"@ && builtin_models()[4].1 == "URL"@ && builtin_models()[4].2 == 650000,
        builtin_models()[5].0 == "us_ssn"@ && builtin_models()[5].1 == "US_SSN"@ && builtin_models()[5].2 == 750000,
        builtin_models()[6].0 == "credit_card"@ && builtin_models()[6].1 == "CREDIT_CARD"@ && builtin_models()[6].2 == 700000,
        builtin_models()[7].0 == "uuid"@ && builtin_models()[7].1 == "UUID"@ && builtin_models()[7].2 == 550000,
        builtin_models()[8].0 == "mac_address"@ && builtin_models()[8].1 == "MAC_ADDRESS"@ && builtin_models()[8].2 == 800000,
        builtin_models()[9].0 == "us_zip_code"@ && builtin_models()[9].1 == "US_ZIP_CODE"@ && builtin_models()[9].2 == 500000,
{
}

} // verus!
