//! Configuration resolution. A configuration has two optional settings
//! (output format, thread count). Layers are applied from lowest to highest
//! priority, each overriding only the settings it sets: built-in defaults,
//! `~/.config/datagov/config.yaml`, `$XDG_CONFIG_HOME/datagov/config.yaml`,
//! `./.datagov/config.yaml`, `./datagov.yaml`, then the `DATAGOV_OUTPUT`
//! and `DATAGOV_THREADS` environment variables. Reading and decoding the
//! YAML files is done by the application; it hands each layer over as
//! absent, decoded, or failed.
use crate::error::DatagovError;
use crate::literal::{all_digits, digits_value};
use crate::text::{chars_of, concat2, concat3, lower, str_eq, to_ascii_lowercase};
use vstd::prelude::*;

verus! {

/// The rendering format for command output.
#[derive(Debug, Clone, Copy, PartialEq, Eq, Structural)]
pub enum OutputFormat {
    Json,
    Table,
    /// Only `query` renders CSV; every other command rejects it.
    Csv,
}

/// The output format a (lowercased) name stands for.
pub open spec fn output_format_named(l: Seq<char>) -> Option<OutputFormat> {
    if l == "json"@ {
        Some(OutputFormat::Json)
    } else if l == "table"@ {
        Some(OutputFormat::Table)
    } else if l == "csv"@ {
        Some(OutputFormat::Csv)
    } else {
        None
    }
}

impl OutputFormat {
    /// Parse an output format name, ignoring ASCII case.
    pub fn from_str(s: &str) -> (r: Result<OutputFormat, String>)
        ensures
            match output_format_named(lower(s@)) {
                Some(f) => r == Ok::<OutputFormat, String>(f),
                None => r is Err && r->Err_0@ == "unknown output format: "@ + lower(s@),
            },
    {
        let l = to_ascii_lowercase(s);
        if str_eq(l.as_str(), "json") {
            Ok(OutputFormat::Json)
        } else if str_eq(l.as_str(), "table") {
            Ok(OutputFormat::Table)
        } else if str_eq(l.as_str(), "csv") {
            Ok(OutputFormat::Csv)
        } else {
            Err(concat2("unknown output format: ", l.as_str()))
        }
    }
}

/// The configuration surface. `None` means "not set by any layer".
#[derive(Debug, Clone, Copy, PartialEq, Eq, Structural)]
pub struct Config {
    pub output: Option<OutputFormat>,
    pub threads: Option<usize>,
}

impl Default for Config {
    /// The built-in defaults: nothing set.
    fn default() -> (c: Config)
        ensures
            c == (Config { output: None, threads: None }),
    {
        Config { output: None, threads: None }
    }
}

/// `upper` layered over `lower`: each setting `upper` sets wins.
pub open spec fn merged(lower: Config, upper: Config) -> Config {
    Config {
        output: if upper.output is Some {
            upper.output
        } else {
            lower.output
        },
        threads: if upper.threads is Some {
            upper.threads
        } else {
            lower.threads
        },
    }
}

impl Config {
    /// The built-in defaults: nothing set.
    pub fn empty() -> (c: Config)
        ensures
            c == (Config { output: None, threads: None }),
    {
        Config { output: None, threads: None }
    }

    /// Override the settings that `other` sets, keeping the rest.
    pub fn merge_from(&mut self, other: Config)
        ensures
            *final(self) == merged(*old(self), other),
    {
        if let Some(output) = other.output {
            self.output = Some(output);
        }
        if let Some(threads) = other.threads {
            self.threads = Some(threads);
        }
    }
}

/// Layering an empty configuration changes nothing.
pub proof fn lemma_merge_empty_is_identity(c: Config)
    ensures
        merged(c, Config { output: None, threads: None }) == c,
        merged(Config { output: None, threads: None }, c) == c,
{
}

/// Layering is associative: merging `b` then `c` over `a` is merging the
/// merge of `b` and `c` over `a`.
pub proof fn lemma_merge_associative(a: Config, b: Config, c: Config)
    ensures
        merged(merged(a, b), c) == merged(a, merged(b, c)),
{
}

/// Layering the same configuration twice is layering it once.
pub proof fn lemma_merge_idempotent(a: Config, b: Config)
    ensures
        merged(merged(a, b), b) == merged(a, b),
{
}

/// The value of a thread-count variable: decimal digits only.
pub open spec fn threads_value(s: Seq<char>) -> Option<nat> {
    let u = if s.len() > 0 && s[0] == '+' {
        s.skip(1)
    } else {
        s
    };
    if u.len() > 0 && all_digits(u) && digits_value(u) <= usize::MAX {
        Some(digits_value(u))
    } else {
        None
    }
}

/// Parse a thread count the way `usize::from_str` does: an optional `+`,
/// then decimal digits, within range.
pub fn parse_threads(s: &str) -> (r: Option<usize>)
    ensures
        match r {
            Some(n) => threads_value(s@) == Some(n as nat),
            None => threads_value(s@) is None,
        },
{
    let c = chars_of(s);
    let n = c.len();
    let start: usize = if n > 0 && c[0] == '+' {
        1
    } else {
        0
    };
    let ghost u = if s@.len() > 0 && s@[0] == '+' {
        s@.skip(1)
    } else {
        s@
    };
    assert(u =~= c@.subrange(start as int, n as int));
    if start == n {
        return None;
    }
    let mut acc: usize = 0;
    let mut i = start;
    while i < n
        invariant
            start <= i <= n,
            n == c@.len(),
            c@ == s@,
            u == (if s@.len() > 0 && s@[0] == '+' {
                s@.skip(1)
            } else {
                s@
            }),
            u.len() > 0,
            u == c@.subrange(start as int, n as int),
            all_digits(u.take(i - start)),
            acc == digits_value(u.take(i - start)),
        decreases n - i,
    {
        let ch = c[i];
        if !(ch >= '0' && ch <= '9') {
            assert(u[i - start] == ch);
            assert(!crate::literal::is_digit(u[i - start]));
            return None;
        }
        let d = ((ch as u32) - ('0' as u32)) as usize;
        proof {
            let p = u.take(i - start);
            let q = u.take(i - start + 1);
            assert(q.drop_last() == p);
            assert(q.last() == ch);
            assert(all_digits(q)) by {
                assert forall|j: int| 0 <= j < q.len() implies #[trigger] crate::literal::is_digit(q[j]) by {
                    if j < p.len() {
                        assert(q[j] == p[j]);
                    }
                }
            }
        }
        match acc.checked_mul(10) {
            Some(m) => match m.checked_add(d) {
                Some(v) => {
                    acc = v;
                },
                None => {
                    proof {
                        lemma_digits_overflow(u, i - start + 1);
                    }
                    return None;
                },
            },
            None => {
                proof {
                    lemma_digits_overflow(u, i - start + 1);
                }
                return None;
            },
        }
        i = i + 1;
    }
    assert(u.take(n - start) == u);
    Some(acc)
}

/// Once a prefix of the digits exceeds a bound, the whole number does.
proof fn lemma_digits_overflow(u: Seq<char>, k: int)
    requires
        0 < k <= u.len(),
        digits_value(u.take(k)) > usize::MAX,
    ensures
        !(u.len() > 0 && all_digits(u) && digits_value(u) <= usize::MAX),
    decreases u.len() - k,
{
    if !all_digits(u) {
    } else if k < u.len() {
        let p = u.take(k);
        let q = u.take(k + 1);
        assert(q.drop_last() == p);
        assert(crate::literal::is_digit(u[k]));
        assert(digits_value(q) >= digits_value(p) * 10) by {
            assert(q.last() == u[k]);
        }
        assert(digits_value(p) * 10 >= digits_value(p)) by (nonlinear_arith)
            requires
                digits_value(p) >= 0,
        ;
        lemma_digits_overflow(u, k + 1);
    } else {
        assert(u.take(k) == u);
    }
}

} // verus!

verus! {

/// `config` after the environment overrides: a valid `DATAGOV_OUTPUT` sets
/// the output format, a valid `DATAGOV_THREADS` the thread count; invalid
/// values are ignored.
pub open spec fn env_applied(config: Config, output: Option<Seq<char>>, threads: Option<Seq<char>>) -> Config {
    Config {
        output: match output {
            Some(v) => match output_format_named(lower(v)) {
                Some(f) => Some(f),
                None => config.output,
            },
            None => config.output,
        },
        threads: match threads {
            Some(v) => match threads_value(v) {
                Some(n) => Some(n as usize),
                None => config.threads,
            },
            None => config.threads,
        },
    }
}

/// The view of an optional string slice.
pub open spec fn opt_str(o: Option<&str>) -> Option<Seq<char>> {
    match o {
        Some(s) => Some(s@),
        None => None,
    }
}

/// Apply the `DATAGOV_OUTPUT` and `DATAGOV_THREADS` values, when set.
pub fn apply_env_overrides(config: &mut Config, output: Option<&str>, threads: Option<&str>)
    ensures
        *final(config) == env_applied(*old(config), opt_str(output), opt_str(threads)),
{
    if let Some(value) = output {
        if let Ok(format) = OutputFormat::from_str(value) {
            config.output = Some(format);
        }
    }
    if let Some(value) = threads {
        if let Some(n) = parse_threads(value) {
            config.threads = Some(n);
        }
    }
}

/// One configuration layer: absent (`Ok(None)`), decoded, or failed.
pub open spec fn layer_config(l: Result<Option<Config>, DatagovError>) -> Config {
    match l {
        Ok(Some(c)) => c,
        _ => Config { output: None, threads: None },
    }
}

/// An optional layer (read only when its variable is set) as a layer.
pub open spec fn opt_layer(l: Option<Result<Option<Config>, DatagovError>>) -> Result<Option<Config>, DatagovError> {
    match l {
        Some(x) => x,
        None => Ok(None),
    }
}

/// The layers in priority order, lowest first.
pub open spec fn layers(
    home: Option<Result<Option<Config>, DatagovError>>,
    xdg: Option<Result<Option<Config>, DatagovError>>,
    dot_dir: Result<Option<Config>, DatagovError>,
    project: Result<Option<Config>, DatagovError>,
) -> Seq<Result<Option<Config>, DatagovError>> {
    seq![opt_layer(home), opt_layer(xdg), dot_dir, project]
}

/// The first failed layer, lowest priority first.
pub open spec fn first_failure(ls: Seq<Result<Option<Config>, DatagovError>>) -> Option<DatagovError>
    decreases ls.len(),
{
    if ls.len() == 0 {
        None
    } else if ls[0] is Err {
        Some(ls[0]->Err_0)
    } else {
        first_failure(ls.skip(1))
    }
}

/// All layers merged in order over the defaults.
pub open spec fn merge_layers(base: Config, ls: Seq<Result<Option<Config>, DatagovError>>) -> Config
    decreases ls.len(),
{
    if ls.len() == 0 {
        base
    } else {
        merge_layers(merged(base, layer_config(ls[0])), ls.skip(1))
    }
}

fn merge_layer(config: &mut Config, layer: Result<Option<Config>, DatagovError>) -> (r: Result<(), DatagovError>)
    ensures
        match layer {
            Err(e) => r == Err::<(), DatagovError>(e),
            Ok(_) => r is Ok && *final(config) == merged(*old(config), layer_config(layer)),
        },
{
    match layer {
        Err(e) => Err(e),
        Ok(Some(c)) => {
            config.merge_from(c);
            Ok(())
        },
        Ok(None) => {
            config.merge_from(Config::empty());
            Ok(())
        },
    }
}

/// Resolve the configuration: the file layers merged lowest priority
/// first (`~/.config/datagov/config.yaml` when `HOME` is set,
/// `$XDG_CONFIG_HOME/datagov/config.yaml` when that is set,
/// `./.datagov/config.yaml`, `./datagov.yaml`), then the environment
/// overrides. The first layer that failed to read or decode is the error.
pub fn load(
    home: Option<Result<Option<Config>, DatagovError>>,
    xdg: Option<Result<Option<Config>, DatagovError>>,
    dot_dir: Result<Option<Config>, DatagovError>,
    project: Result<Option<Config>, DatagovError>,
    env_output: Option<&str>,
    env_threads: Option<&str>,
) -> (r: Result<Config, DatagovError>)
    ensures
        match first_failure(layers(home, xdg, dot_dir, project)) {
            Some(e) => r == Err::<Config, DatagovError>(e),
            None => r == Ok::<Config, DatagovError>(
                env_applied(
                    merge_layers(Config { output: None, threads: None }, layers(home, xdg, dot_dir, project)),
                    opt_str(env_output),
                    opt_str(env_threads),
                ),
            ),
        },
{
    let ghost ls = layers(home, xdg, dot_dir, project);
    let ghost empty = Config { output: None, threads: None };
    assert(ls.skip(1).skip(1).skip(1).skip(1) =~= Seq::<Result<Option<Config>, DatagovError>>::empty());
    assert(ls[0] == opt_layer(home) && ls.skip(1)[0] == opt_layer(xdg));
    assert(ls.skip(1).skip(1)[0] == dot_dir && ls.skip(1).skip(1).skip(1)[0] == project);
    let mut config = Config::empty();
    let h = match home {
        Some(l) => l,
        None => Ok(None),
    };
    let x = match xdg {
        Some(l) => l,
        None => Ok(None),
    };
    let ghost l1 = ls.skip(1);
    let ghost l2 = l1.skip(1);
    let ghost l3 = l2.skip(1);
    let ghost l4 = l3.skip(1);
    assert(ls[0] == h && l1[0] == x && l2[0] == dot_dir && l3[0] == project);
    let ghost c0 = config;
    match merge_layer(&mut config, h) {
        Err(e) => {
            return Err(e);
        },
        Ok(()) => {},
    }
    let ghost c1 = config;
    match merge_layer(&mut config, x) {
        Err(e) => {
            assert(first_failure(l1) == Some(e));
            return Err(e);
        },
        Ok(()) => {},
    }
    let ghost c2 = config;
    match merge_layer(&mut config, dot_dir) {
        Err(e) => {
            assert(first_failure(l2) == Some(e));
            assert(first_failure(l1) == Some(e));
            return Err(e);
        },
        Ok(()) => {},
    }
    let ghost c3 = config;
    match merge_layer(&mut config, project) {
        Err(e) => {
            assert(first_failure(l3) == Some(e));
            assert(first_failure(l2) == Some(e));
            assert(first_failure(l1) == Some(e));
            return Err(e);
        },
        Ok(()) => {},
    }
    assert(merge_layers(config, l4) == config);
    assert(first_failure(l4) is None);
    assert(first_failure(l3) is None);
    assert(first_failure(l2) is None);
    assert(first_failure(l1) is None);
    assert(merge_layers(c3, l3) == config);
    assert(merge_layers(c2, l2) == config);
    assert(merge_layers(c1, l1) == config);
    apply_env_overrides(&mut config, env_output, env_threads);
    Ok(config)
}

/// A setting from a higher-priority layer always wins over the lower
/// ones: merging `b` then `c` over `a` takes each setting from the highest
/// layer that sets it.
pub proof fn lemma_higher_layer_wins(a: Config, b: Config, c: Config)
    ensures
        merged(merged(a, b), c).output == (if c.output is Some {
            c.output
        } else if b.output is Some {
            b.output
        } else {
            a.output
        }),
        merged(merged(a, b), c).threads == (if c.threads is Some {
            c.threads
        } else if b.threads is Some {
            b.threads
        } else {
            a.threads
        }),
{
}

/// A valid environment value beats every file layer.
pub proof fn lemma_env_beats_files(c: Config, output: Seq<char>)
    requires
        output_format_named(lower(output)) is Some,
    ensures
        env_applied(c, Some(output), None).output == output_format_named(lower(output)),
{
}

/// `rel` appended to `base` as `Path::join` does for a relative `rel`: a
/// separator is added unless `base` is empty or already ends in one.
pub open spec fn joined(base: Seq<char>, rel: Seq<char>) -> Seq<char> {
    if base.len() == 0 || base.last() == '/' {
        base + rel
    } else {
        base + "/"@ + rel
    }
}

fn join(base: &str, rel: &str) -> (s: String)
    ensures
        s@ == joined(base@, rel@),
{
    let b = chars_of(base);
    if b.len() == 0 || b[b.len() - 1] == '/' {
        concat2(base, rel)
    } else {
        concat3(base, "/", rel)
    }
}

/// The four configuration file locations, lowest priority first: the
/// home and XDG ones only when `HOME` and `XDG_CONFIG_HOME` are set.
pub fn layer_paths(start_dir: &str, home: Option<&str>, xdg: Option<&str>) -> (r: (
    Option<String>,
    Option<String>,
    String,
    String,
))
    ensures
        match home {
            Some(h) => r.0 is Some && r.0->Some_0@ == joined(h@, ".config/datagov/config.yaml"@),
            None => r.0 is None,
        },
        match xdg {
            Some(x) => r.1 is Some && r.1->Some_0@ == joined(x@, "datagov/config.yaml"@),
            None => r.1 is None,
        },
        r.2@ == joined(start_dir@, ".datagov/config.yaml"@),
        r.3@ == joined(start_dir@, "datagov.yaml"@),
{
    let h = match home {
        Some(h) => Some(join(h, ".config/datagov/config.yaml")),
        None => None,
    };
    let x = match xdg {
        Some(x) => Some(join(x, "datagov/config.yaml")),
        None => None,
    };
    (h, x, join(start_dir, ".datagov/config.yaml"), join(start_dir, "datagov.yaml"))
}

/// The error for a configuration file whose YAML does not decode.
pub fn malformed_config(path: &str, detail: &str) -> (e: DatagovError)
    ensures
        e is InvalidArgs && e.spec_message() == "malformed config at "@ + path@ + ": "@ + detail@
            && e.spec_remediation() == "fix the YAML syntax in "@ + path@
            + " (see the documentation for the expected shape)"@,
{
    let a = concat3("malformed config at ", path, ": ");
    let m = concat2(a.as_str(), detail);
    let r = concat3("fix the YAML syntax in ", path, " (see the documentation for the expected shape)");
    DatagovError::invalid_args(m.as_str(), r.as_str())
}

/// The error for a configuration file that exists but cannot be read.
pub fn unreadable_config(path: &str, detail: &str) -> (e: DatagovError)
    ensures
        e is InvalidArgs && e.spec_message() == "cannot read config at "@ + path@ + ": "@ + detail@
            && e.spec_remediation() == "check permissions on "@ + path@,
{
    let a = concat3("cannot read config at ", path, ": ");
    let m = concat2(a.as_str(), detail);
    let r = concat2("check permissions on ", path);
    DatagovError::invalid_args(m.as_str(), r.as_str())
}

} // verus!
