//! Custom recognizers from a recognizers file. The file's YAML is decoded
//! by the application into `RawRecognizer` entries; this module checks each
//! entry (confidence range, at least one pattern, every pattern compiles,
//! every validator name is known) and builds the `Recognizer`s, reporting
//! the first problem as an invalid-arguments error that names the
//! recognizer id and the offending field.
use crate::confidence::CONFIDENCE_SCALE;
use crate::error::DatagovError;
use crate::recognizer::{models, strings_view, Recognizer, RecognizerModel};
use crate::text::{concat2, concat3, concat4, concat5};
use crate::validators::{validator_from_name, ValidatorKind};
use vstd::prelude::*;

verus! {

/// The remediation attached to every recognizers-file error.
pub const RECOGNIZERS_FILE_REMEDIATION: &'static str =
    "fix the recognizer file and try again — see the documentation for the expected schema";

/// One entry of a recognizers file, as decoded from YAML.
#[derive(Debug)]
pub struct RawRecognizer {
    pub id: String,
    pub entity: String,
    /// The declared confidence in millionths. A value outside `0.0..=1.0`
    /// is carried as a number outside `0..=1_000_000`.
    pub confidence: i64,
    /// The declared confidence as written, for error messages.
    pub confidence_text: String,
    pub patterns: Vec<String>,
    /// Defaults to empty when the entry omits it.
    pub context: Vec<String>,
    /// Validator names; defaults to empty when the entry omits it.
    pub validators: Vec<String>,
}

/// What `regex::Regex::new` reports for `pattern`: `None` when it compiles,
/// otherwise the display text of its error.
pub uninterp spec fn regex_compile_outcome(pattern: Seq<char>) -> Option<Seq<char>>;

/// Compiles `pattern` with `regex::Regex::new`, returning the display text
/// of the error when it does not compile. The outcome is the `regex`
/// crate's, named `regex_compile_outcome`; nothing more is claimed about it.
#[verifier::external_body]
fn regex_error_text(pattern: &str) -> (r: Option<String>)
    ensures
        match r {
            Some(e) => regex_compile_outcome(pattern@) == Some(e@),
            None => regex_compile_outcome(pattern@) is None,
        },
{
    match regex::Regex::new(pattern) {
        Ok(_) => None,
        Err(e) => Some(e.to_string()),
    }
}

/// The prefix of every per-recognizer message.
pub open spec fn about(id: Seq<char>) -> Seq<char> {
    "recognizer '"@ + id + "': field '"@
}

/// The message for the first pattern of `patterns` that does not compile.
pub open spec fn first_pattern_error(id: Seq<char>, patterns: Seq<Seq<char>>) -> Option<Seq<char>>
    decreases patterns.len(),
{
    if patterns.len() == 0 {
        None
    } else {
        match regex_compile_outcome(patterns[0]) {
            Some(e) => Some(
                about(id) + "patterns' has an invalid regex '"@ + patterns[0] + "': "@ + e,
            ),
            None => first_pattern_error(id, patterns.skip(1)),
        }
    }
}

/// The message for the first validator name of `names` that is not known.
pub open spec fn first_validator_error(id: Seq<char>, names: Seq<Seq<char>>) -> Option<Seq<char>>
    decreases names.len(),
{
    if names.len() == 0 {
        None
    } else if validator_from_name(names[0]) is None {
        Some(about(id) + "validators' has an unknown validator '"@ + names[0] + "'"@)
    } else {
        first_validator_error(id, names.skip(1))
    }
}

/// The validators named by `names` (all known).
pub open spec fn named_validators(names: Seq<Seq<char>>) -> Seq<ValidatorKind> {
    names.map_values(|n: Seq<char>| validator_from_name(n).unwrap())
}

impl RawRecognizer {
    /// The message of the first problem with this entry, checked in order:
    /// confidence range, pattern count, each pattern, each validator name.
    pub open spec fn problem(&self) -> Option<Seq<char>> {
        if !(0 <= self.confidence <= CONFIDENCE_SCALE) {
            Some(
                about(self.id@) + "confidence' must be within [0.0, 1.0], got "@
                    + self.confidence_text@,
            )
        } else if self.patterns@.len() == 0 {
            Some(about(self.id@) + "patterns' must have at least one entry"@)
        } else if first_pattern_error(self.id@, strings_view(self.patterns@)) is Some {
            first_pattern_error(self.id@, strings_view(self.patterns@))
        } else {
            first_validator_error(self.id@, strings_view(self.validators@))
        }
    }

    /// The recognizer this entry describes (when it has no problem).
    pub open spec fn built(&self) -> RecognizerModel {
        (
            self.id@,
            self.entity@,
            self.confidence as int,
            strings_view(self.patterns@),
            strings_view(self.context@),
            named_validators(strings_view(self.validators@)),
        )
    }
}

/// A recognizers-file error: invalid arguments with `message`.
pub open spec fn file_error(e: DatagovError, message: Seq<char>) -> bool {
    e is InvalidArgs && e.spec_message() == message && e.spec_remediation()
        == RECOGNIZERS_FILE_REMEDIATION@
}

fn invalid(message: &str) -> (e: DatagovError)
    ensures
        file_error(e, message@),
{
    DatagovError::invalid_args(message, RECOGNIZERS_FILE_REMEDIATION)
}

/// Check the patterns, first to last.
fn check_patterns(id: &str, patterns: &Vec<String>) -> (r: Option<String>)
    ensures
        match r {
            Some(m) => first_pattern_error(id@, strings_view(patterns@)) == Some(m@),
            None => first_pattern_error(id@, strings_view(patterns@)) is None,
        },
{
    let mut i: usize = 0;
    assert(strings_view(patterns@).skip(0) =~= strings_view(patterns@));
    while i < patterns.len()
        invariant
            i <= patterns@.len(),
            first_pattern_error(id@, strings_view(patterns@)) == first_pattern_error(
                id@,
                strings_view(patterns@).skip(i as int),
            ),
        decreases patterns.len() - i,
    {
        let ghost rest = strings_view(patterns@).skip(i as int);
        assert(rest[0] == patterns@[i as int]@);
        assert(rest.skip(1) =~= strings_view(patterns@).skip(i + 1));
        match regex_error_text(patterns[i].as_str()) {
            Some(e) => {
                let head = concat3("recognizer '", id, "': field '");
                let m = concat5(head.as_str(), "patterns' has an invalid regex '", patterns[i].as_str(), "': ", e.as_str());
                return Some(m);
            },
            None => {},
        }
        i = i + 1;
    }
    assert(strings_view(patterns@).skip(i as int).len() == 0);
    None
}

/// Resolve the validator names, first to last; the first unknown one is
/// reported.
fn resolve_validators(id: &str, names: &Vec<String>) -> (r: Result<Vec<ValidatorKind>, String>)
    ensures
        match r {
            Ok(v) => first_validator_error(id@, strings_view(names@)) is None && v@ == named_validators(
                strings_view(names@),
            ),
            Err(m) => first_validator_error(id@, strings_view(names@)) == Some(m@),
        },
{
    let mut out: Vec<ValidatorKind> = Vec::new();
    let mut i: usize = 0;
    assert(strings_view(names@).skip(0) =~= strings_view(names@));
    while i < names.len()
        invariant
            i <= names@.len(),
            first_validator_error(id@, strings_view(names@)) == first_validator_error(
                id@,
                strings_view(names@).skip(i as int),
            ),
            out@ == named_validators(strings_view(names@).take(i as int)),
        decreases names.len() - i,
    {
        let ghost rest = strings_view(names@).skip(i as int);
        assert(rest[0] == names@[i as int]@);
        assert(rest.skip(1) =~= strings_view(names@).skip(i + 1));
        match ValidatorKind::from_name(names[i].as_str()) {
            Some(k) => {
                out.push(k);
                assert(named_validators(strings_view(names@).take(i + 1)) =~= named_validators(
                    strings_view(names@).take(i as int),
                ).push(k));
            },
            None => {
                let head = concat3("recognizer '", id, "': field '");
                let m = concat4(head.as_str(), "validators' has an unknown validator '", names[i].as_str(), "'");
                return Err(m);
            },
        }
        i = i + 1;
    }
    assert(strings_view(names@).take(i as int) =~= strings_view(names@));
    Ok(out)
}

/// Check one entry and build its recognizer.
pub fn build_recognizer(raw: RawRecognizer) -> (r: Result<Recognizer, DatagovError>)
    ensures
        match r {
            Ok(rec) => raw.problem() is None && rec.model() == raw.built(),
            Err(e) => raw.problem() is Some && file_error(e, raw.problem().unwrap()),
        },
{
    if raw.confidence < 0 || raw.confidence > CONFIDENCE_SCALE {
        let head = concat3("recognizer '", raw.id.as_str(), "': field '");
        let m = concat3(head.as_str(), "confidence' must be within [0.0, 1.0], got ", raw.confidence_text.as_str());
        return Err(invalid(m.as_str()));
    }
    if raw.patterns.len() == 0 {
        let head = concat3("recognizer '", raw.id.as_str(), "': field '");
        let m = concat2(head.as_str(), "patterns' must have at least one entry");
        return Err(invalid(m.as_str()));
    }
    match check_patterns(raw.id.as_str(), &raw.patterns) {
        Some(m) => {
            return Err(invalid(m.as_str()));
        },
        None => {},
    }
    let validators = match resolve_validators(raw.id.as_str(), &raw.validators) {
        Ok(v) => v,
        Err(m) => {
            return Err(invalid(m.as_str()));
        },
    };
    Ok(
        Recognizer {
            id: raw.id,
            entity: raw.entity,
            base_confidence: raw.confidence,
            patterns: raw.patterns,
            context: raw.context,
            validators,
        },
    )
}

} // verus!

verus! {

/// The message of the first entry of `raws` with a problem.
pub open spec fn first_problem(raws: Seq<RawRecognizer>) -> Option<Seq<char>>
    decreases raws.len(),
{
    if raws.len() == 0 {
        None
    } else if raws[0].problem() is Some {
        raws[0].problem()
    } else {
        first_problem(raws.skip(1))
    }
}

/// The recognizers the entries describe.
pub open spec fn built_models(raws: Seq<RawRecognizer>) -> Seq<RecognizerModel> {
    raws.map_values(|r: RawRecognizer| r.built())
}

/// Check every entry, in file order, and build the recognizers; the first
/// entry with a problem is reported.
pub fn build_recognizers(raws: Vec<RawRecognizer>) -> (r: Result<Vec<Recognizer>, DatagovError>)
    ensures
        match r {
            Ok(v) => first_problem(raws@) is None && models(v@) == built_models(raws@),
            Err(e) => first_problem(raws@) is Some && file_error(e, first_problem(raws@).unwrap()),
        },
{
    let ghost all = raws@;
    let mut rest = raws;
    let mut out: Vec<Recognizer> = Vec::new();
    let ghost mut done: int = 0;
    assert(all.skip(0) =~= all);
    while rest.len() > 0
        invariant
            all == raws@,
            0 <= done <= all.len(),
            rest@ == all.skip(done),
            first_problem(all) == first_problem(all.skip(done)),
            models(out@) == built_models(all.take(done)),
        decreases rest.len(),
    {
        let ghost before = rest@;
        let raw = rest.remove(0);
        proof {
            assert(raw == all[done]);
            assert(all.skip(done).skip(1) =~= all.skip(done + 1));
        }
        match build_recognizer(raw) {
            Ok(rec) => {
                out.push(rec);
                proof {
                    assert(built_models(all.take(done + 1)) =~= built_models(all.take(done)).push(
                        all[done].built(),
                    ));
                    done = done + 1;
                }
            },
            Err(e) => {
                assert(all.skip(done)[0] == all[done]);
                return Err(e);
            },
        }
    }
    assert(all.take(done) =~= all);
    Ok(out)
}

/// The error for a recognizers file whose YAML does not decode; `detail`
/// is the decoder's own description.
pub fn malformed_file_error(source_name: &str, detail: &str) -> (e: DatagovError)
    ensures
        file_error(e, source_name@ + " is not a valid recognizers file: "@ + detail@),
{
    let m = concat3(source_name, " is not a valid recognizers file: ", detail);
    invalid(m.as_str())
}

/// Validate a recognizers file given its decoded entries (or the error of
/// reading or decoding it): the number of recognizers it holds when every
/// entry is valid.
pub fn validate_recognizers_file(decoded: Result<Vec<RawRecognizer>, DatagovError>) -> (r: Result<
    usize,
    DatagovError,
>)
    ensures
        match decoded {
            Err(e) => r == Err::<usize, DatagovError>(e),
            Ok(raws) => match r {
                Ok(n) => first_problem(raws@) is None && n == raws@.len(),
                Err(e) => first_problem(raws@) is Some && file_error(e, first_problem(raws@).unwrap()),
            },
        },
{
    match decoded {
        Err(e) => Err(e),
        Ok(raws) => {
            let ghost n = raws@.len();
            match build_recognizers(raws) {
                Ok(v) => {
                    assert(models(v@).len() == v@.len());
                    Ok(v.len())
                },
                Err(e) => Err(e),
            }
        },
    }
}

/// The recognizer set of a scan: the built-ins, with the custom recognizers
/// of a recognizers file (when one was given) merged in.
pub fn load_recognizers(decoded: Option<Result<Vec<RawRecognizer>, DatagovError>>) -> (r: Result<
    Vec<Recognizer>,
    DatagovError,
>)
    ensures
        match decoded {
            None => r is Ok && models(r->Ok_0@) == crate::recognizer::builtin_models(),
            Some(Err(e)) => r == Err::<Vec<Recognizer>, DatagovError>(e),
            Some(Ok(raws)) => match r {
                Ok(v) => first_problem(raws@) is None && models(v@)
                    == crate::recognizer::merge_spec(
                    crate::recognizer::builtin_models(),
                    built_models(raws@),
                ),
                Err(e) => first_problem(raws@) is Some && file_error(e, first_problem(raws@).unwrap()),
            },
        },
{
    match decoded {
        None => Ok(crate::recognizer::builtin_recognizers()),
        Some(Err(e)) => Err(e),
        Some(Ok(raws)) => match build_recognizers(raws) {
            Ok(customs) => Ok(crate::recognizer::merge(customs)),
            Err(e) => Err(e),
        },
    }
}

} // verus!
