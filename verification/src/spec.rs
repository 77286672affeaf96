use vstd::prelude::*;
use vstd::string::*;
use crate::transport::{append_decimal, decimal, digit_char};

verus! {

/// A YAML value of a node's configuration or a pattern's body, carried as it was read.
#[verifier::external_type_specification]
#[verifier::external_body]
pub struct ExYamlValue(serde_yaml::Value);

/// A scenario of the test DSL: a linear pipeline of named nodes and a script of steps.
#[derive(Debug)]
pub struct Spec {
    pub version: u32,
    pub name: String,
    pub fail_after: Option<HumanDuration>,
    pub time_epsilon: Option<HumanDuration>,
    pub default_within: Option<HumanDuration>,
    pub pipeline: Vec<Node>,
    pub script: Vec<Step>,
}

/// The timing tolerance of a scenario that gives none, in milliseconds.
pub const DEFAULT_TIME_EPSILON_MS: u64 = 5;

impl Spec {
    /// The timing tolerance for comparisons: `time_epsilon` where the scenario
    /// gives one, else 5 ms.
    pub fn effective_time_epsilon(&self) -> (r: HumanDuration)
        ensures
            r == (match self.time_epsilon {
                Some(d) => d,
                None => HumanDuration(DEFAULT_TIME_EPSILON_MS),
            }),
    {
        match self.time_epsilon {
            Some(d) => d,
            None => HumanDuration(DEFAULT_TIME_EPSILON_MS),
        }
    }
}

/// A node of the scenario's pipeline.
#[derive(Debug)]
pub struct Node {
    pub id: String,
    pub kind: String,
    pub config: Option<serde_yaml::Value>,
}

/// A step of the scenario's script.
#[derive(Debug)]
pub enum Step {
    /// A message matching `pattern` must be observed at `node` within a window.
    Await { node: String, direction: Direction, pattern: Pattern, within: Option<HumanDuration> },
    /// A message is injected at `node` after a delay.
    Send { node: String, direction: Direction, after: HumanDuration, pattern: Pattern },
}

/// The direction in which a message travels through the pipeline.
#[derive(Debug, Clone, Copy, PartialEq, Eq, Structural)]
pub enum Direction {
    Downstream,
    Upstream,
}

/// A message selector: its type and, optionally, a body to match.
#[derive(Debug)]
pub struct Pattern {
    pub msg_type: String,
    pub body: Option<serde_yaml::Value>,
}

/// A duration in milliseconds.
#[derive(Debug, Clone, Copy, PartialEq, Eq, Structural)]
pub struct HumanDuration(pub u64);

/// One reason why a scenario is not valid.
#[derive(Debug)]
pub enum ValidationErrorKind {
    /// The scenario's version is not the supported one.
    UnsupportedVersion(u32),
    /// Two nodes share this id; reported for each later occurrence.
    DuplicateNodeId(String),
    /// The step at this index names a node that the pipeline does not hold.
    UnknownNode(String, usize),
    /// The await step at this index has no window and the scenario has no default one.
    MissingWithin(usize),
}

/// All the reasons why a scenario is not valid, in the order they were found.
#[derive(Debug)]
pub struct ValidationError {
    pub errors: Vec<ValidationErrorKind>,
}


/// Whether a node whose id reads `name` occurs among the first `k` nodes.
pub open spec fn node_among(nodes: Seq<Node>, k: int, name: Seq<char>) -> bool {
    exists|j: int| 0 <= j < k && #[trigger] nodes[j].id@ == name
}

/// The error for the version, if it is not the supported version 1.
pub open spec fn version_errors(s: Spec) -> Seq<ValidationErrorKind> {
    if s.version != 1 {
        seq![ValidationErrorKind::UnsupportedVersion(s.version)]
    } else {
        Seq::empty()
    }
}

/// The duplicate-id errors among the first `k` nodes: one for each node whose
/// id an earlier node already has.
pub open spec fn duplicate_errors(nodes: Seq<Node>, k: nat) -> Seq<ValidationErrorKind>
    decreases k,
{
    if k == 0 {
        Seq::empty()
    } else {
        let i = k - 1;
        duplicate_errors(nodes, (k - 1) as nat) + if node_among(nodes, i, nodes[i].id@) {
            seq![ValidationErrorKind::DuplicateNodeId(nodes[i].id)]
        } else {
            Seq::empty()
        }
    }
}

/// The errors of the step at index `i`: an unknown node, then, for an await
/// step, a missing window when the scenario has no default window either.
pub open spec fn step_errors_at(s: Spec, i: int) -> Seq<ValidationErrorKind> {
    let nodes = s.pipeline@;
    match s.script@[i] {
        Step::Await { node, within, .. } => (if !node_among(nodes, nodes.len() as int, node@) {
            seq![ValidationErrorKind::UnknownNode(node, i as usize)]
        } else {
            Seq::empty()
        }) + (if within is None && s.default_within is None {
            seq![ValidationErrorKind::MissingWithin(i as usize)]
        } else {
            Seq::empty()
        }),
        Step::Send { node, .. } => if !node_among(nodes, nodes.len() as int, node@) {
            seq![ValidationErrorKind::UnknownNode(node, i as usize)]
        } else {
            Seq::empty()
        },
    }
}

/// The errors of the first `k` steps, step by step.
pub open spec fn step_errors(s: Spec, k: nat) -> Seq<ValidationErrorKind>
    decreases k,
{
    if k == 0 {
        Seq::empty()
    } else {
        step_errors(s, (k - 1) as nat) + step_errors_at(s, k - 1)
    }
}

/// Every reason why the scenario is not valid, in order: the version, then
/// duplicate node ids in pipeline order, then the steps in script order.
pub open spec fn validation_errors(s: Spec) -> Seq<ValidationErrorKind> {
    version_errors(s) + duplicate_errors(s.pipeline@, s.pipeline@.len()) + step_errors(
        s,
        s.script@.len(),
    )
}

/// The duplicate-id errors of the first `k` nodes keep those of the first `j`.
proof fn lemma_duplicate_errors_grow(nodes: Seq<Node>, j: nat, k: nat)
    requires
        j <= k,
    ensures
        duplicate_errors(nodes, k).subrange(0, duplicate_errors(nodes, j).len() as int) == duplicate_errors(
            nodes,
            j,
        ),
        duplicate_errors(nodes, j).len() <= duplicate_errors(nodes, k).len(),
    decreases k,
{
    if j < k {
        lemma_duplicate_errors_grow(nodes, j, (k - 1) as nat);
        let a = duplicate_errors(nodes, (k - 1) as nat);
        let b = duplicate_errors(nodes, k);
        assert(b.subrange(0, a.len() as int) =~= a);
        assert(b.subrange(0, duplicate_errors(nodes, j).len() as int) =~= a.subrange(
            0,
            duplicate_errors(nodes, j).len() as int,
        ));
    } else {
        assert(duplicate_errors(nodes, k).subrange(0, duplicate_errors(nodes, k).len() as int) =~= duplicate_errors(
            nodes,
            k,
        ));
    }
}

/// Two nodes with the same id make the scenario invalid: whatever lies
/// between them, the later one is reported as a duplicate.
pub proof fn lemma_repeated_ids_are_reported(s: Spec, i: int, j: int)
    requires
        0 <= i < j < s.pipeline@.len(),
        s.pipeline@[i].id@ == s.pipeline@[j].id@,
    ensures
        validation_errors(s).contains(ValidationErrorKind::DuplicateNodeId(s.pipeline@[j].id)),
        validation_errors(s).len() > 0,
{
    let nodes = s.pipeline@;
    let e = ValidationErrorKind::DuplicateNodeId(nodes[j].id);
    assert(node_among(nodes, j, nodes[j].id@));
    let dj = duplicate_errors(nodes, (j + 1) as nat);
    assert(dj.last() == e);
    lemma_duplicate_errors_grow(nodes, (j + 1) as nat, nodes.len());
    let all = duplicate_errors(nodes, nodes.len());
    let k = dj.len() - 1;
    assert(all[k] == dj.subrange(0, dj.len() as int)[k]);
    let errs = validation_errors(s);
    let v = version_errors(s);
    assert(errs[v.len() + k] == all[k]);
}

/// A valid scenario names every node differently.
pub proof fn lemma_valid_scenarios_have_distinct_ids(s: Spec)
    requires
        validation_errors(s).len() == 0,
    ensures
        forall|i: int, j: int| 0 <= i < j < s.pipeline@.len() ==> s.pipeline@[i].id@ != s.pipeline@[j].id@,
{
    assert forall|i: int, j: int| 0 <= i < j < s.pipeline@.len() implies s.pipeline@[i].id@
        != s.pipeline@[j].id@ by {
        if s.pipeline@[i].id@ == s.pipeline@[j].id@ {
            lemma_repeated_ids_are_reported(s, i, j);
        }
    }
}

/// Whether one of the first `k` nodes has the id `name`.
fn node_occurs_before(nodes: &Vec<Node>, k: usize, name: &String) -> (r: bool)
    requires
        k <= nodes@.len(),
    ensures
        r == node_among(nodes@, k as int, name@),
{
    let mut j: usize = 0;
    while j < k
        invariant
            j <= k <= nodes@.len(),
            !node_among(nodes@, j as int, name@),
        decreases k - j,
    {
        if nodes[j].id == *name {
            assert(nodes@[j as int].id@ == name@);
            return true;
        }
        j = j + 1;
    }
    false
}

/// Checks a scenario: the version must be 1, node ids must be unique, every
/// step must name a node of the pipeline, and every await step needs a window
/// unless the scenario gives a default one. All violations are reported, in
/// the order of `validation_errors`.
pub fn validate_spec(spec: &Spec) -> (r: Result<(), ValidationError>)
    ensures
        r is Ok <==> validation_errors(*spec).len() == 0,
        r matches Err(e) ==> e.errors@ == validation_errors(*spec),
{
    let mut errs: Vec<ValidationErrorKind> = Vec::new();

    if spec.version != 1 {
        errs.push(ValidationErrorKind::UnsupportedVersion(spec.version));
    }
    assert(errs@ =~= version_errors(*spec));

    let n = spec.pipeline.len();
    let mut k: usize = 0;
    while k < n
        invariant
            k <= n == spec.pipeline@.len(),
            errs@ == version_errors(*spec) + duplicate_errors(spec.pipeline@, k as nat),
        decreases n - k,
    {
        if node_occurs_before(&spec.pipeline, k, &spec.pipeline[k].id) {
            errs.push(ValidationErrorKind::DuplicateNodeId(spec.pipeline[k].id.clone()));
        }
        assert(errs@ =~= version_errors(*spec) + duplicate_errors(spec.pipeline@, (k + 1) as nat));
        k = k + 1;
    }

    let m = spec.script.len();
    let mut i: usize = 0;
    while i < m
        invariant
            i <= m == spec.script@.len(),
            n == spec.pipeline@.len(),
            errs@ == version_errors(*spec) + duplicate_errors(spec.pipeline@, n as nat) + step_errors(
                *spec,
                i as nat,
            ),
        decreases m - i,
    {
        match &spec.script[i] {
            Step::Await { node, within, .. } => {
                if !node_occurs_before(&spec.pipeline, n, node) {
                    errs.push(ValidationErrorKind::UnknownNode(node.clone(), i));
                }
                if within.is_none() && spec.default_within.is_none() {
                    errs.push(ValidationErrorKind::MissingWithin(i));
                }
            },
            Step::Send { node, .. } => {
                if !node_occurs_before(&spec.pipeline, n, node) {
                    errs.push(ValidationErrorKind::UnknownNode(node.clone(), i));
                }
            },
        }
        assert(errs@ =~= version_errors(*spec) + duplicate_errors(spec.pipeline@, n as nat) + step_errors(
            *spec,
            (i + 1) as nat,
        ));
        i = i + 1;
    }

    if errs.len() == 0 {
        Ok(())
    } else {
        Err(ValidationError { errors: errs })
    }
}


/// Unicode's White_Space property, which `char::is_whitespace` and `str::trim` follow.
pub open spec fn is_white_space(c: char) -> bool {
    ||| ('\u{9}' <= c && c <= '\u{d}')
    ||| c == ' '
    ||| c == '\u{85}'
    ||| c == '\u{a0}'
    ||| c == '\u{1680}'
    ||| ('\u{2000}' <= c && c <= '\u{200a}')
    ||| c == '\u{2028}'
    ||| c == '\u{2029}'
    ||| c == '\u{202f}'
    ||| c == '\u{205f}'
    ||| c == '\u{3000}'
}

/// `s` without its leading white space.
pub open spec fn trim_start(s: Seq<char>) -> Seq<char>
    decreases s.len(),
{
    if s.len() > 0 && is_white_space(s[0]) {
        trim_start(s.drop_first())
    } else {
        s
    }
}

/// `s` without its trailing white space.
pub open spec fn trim_end(s: Seq<char>) -> Seq<char>
    decreases s.len(),
{
    if s.len() > 0 && is_white_space(s.last()) {
        trim_end(s.drop_last())
    } else {
        s
    }
}

/// `s` without leading and trailing white space, as `str::trim` gives it.
pub open spec fn trim(s: Seq<char>) -> Seq<char> {
    trim_end(trim_start(s))
}

/// Whether `c` is one of the ASCII digits.
pub open spec fn is_digit(c: char) -> bool {
    '0' <= c && c <= '9'
}

/// The number that a string of decimal digits denotes.
pub open spec fn digits_value(d: Seq<char>) -> nat
    decreases d.len(),
{
    if d.len() == 0 {
        0
    } else {
        digits_value(d.drop_last()) * 10 + ((d.last() as int) - ('0' as int)) as nat
    }
}

/// What `str::parse::<u64>` gives: an optional `+` sign followed by at least one
/// decimal digit, and the number must fit in a `u64`.
pub open spec fn parse_u64(t: Seq<char>) -> Option<u64> {
    digits_to_u64(
        if t.len() > 0 && t[0] == '+' {
            t.drop_first()
        } else {
            t
        },
    )
}

/// The number that at least one decimal digit denotes, when it fits in a `u64`.
pub open spec fn digits_to_u64(d: Seq<char>) -> Option<u64> {
    if d.len() > 0 && (forall|i: int| 0 <= i < d.len() ==> is_digit(#[trigger] d[i])) && digits_value(d)
        <= u64::MAX {
        Some(digits_value(d) as u64)
    } else {
        None
    }
}

/// How a duration reads: its number of milliseconds, or why it is refused.
pub enum DurationReading {
    Millis(int),
    BadNumber,
    NoUnit,
}

/// A duration is a number followed by `ms` (milliseconds) or `s` (seconds);
/// white space around the number is allowed.
pub open spec fn read_duration(s: Seq<char>) -> DurationReading {
    if s.len() >= 2 && s[s.len() - 2] == 'm' && s[s.len() - 1] == 's' {
        match parse_u64(trim(s.subrange(0, s.len() - 2))) {
            Some(v) => DurationReading::Millis(v as int),
            None => DurationReading::BadNumber,
        }
    } else if s.len() >= 1 && s[s.len() - 1] == 's' {
        match parse_u64(trim(s.subrange(0, s.len() - 1))) {
            Some(v) => DurationReading::Millis(v * 1000),
            None => DurationReading::BadNumber,
        }
    } else {
        DurationReading::NoUnit
    }
}

/// Whether `c` has Unicode's White_Space property.
fn is_whitespace_char(c: char) -> (r: bool)
    ensures
        r == is_white_space(c),
{
    ('\u{9}' <= c && c <= '\u{d}') || c == ' ' || c == '\u{85}' || c == '\u{a0}' || c == '\u{1680}' || (
    '\u{2000}' <= c && c <= '\u{200a}') || c == '\u{2028}' || c == '\u{2029}' || c == '\u{202f}' || c
        == '\u{205f}' || c == '\u{3000}'
}

proof fn lemma_digits_value_prefix(d: Seq<char>, k: int)
    requires
        0 <= k <= d.len(),
        forall|i: int| 0 <= i < d.len() ==> is_digit(#[trigger] d[i]),
    ensures
        digits_value(d.subrange(0, k)) <= digits_value(d),
    decreases d.len() - k,
{
    if k < d.len() {
        lemma_digits_value_prefix(d, k + 1);
        let p = d.subrange(0, k + 1);
        assert(p.drop_last() =~= d.subrange(0, k));
        assert(digits_value(p) >= digits_value(d.subrange(0, k)));
    } else {
        assert(d.subrange(0, k) =~= d);
    }
}

/// Parses the characters of `s` in positions `from..to` as `str::parse::<u64>` does.
fn parse_u64_in(s: &str, from: usize, to: usize) -> (r: Option<u64>)
    requires
        from <= to <= s@.len(),
    ensures
        r == parse_u64(s@.subrange(from as int, to as int)),
{
    let ghost t = s@.subrange(from as int, to as int);
    let mut start = from;
    if from < to && s.get_char(from) == '+' {
        start = from + 1;
    }
    let ghost d = s@.subrange(start as int, to as int);
    proof {
        if from < to && t[0] == '+' {
            assert(d =~= t.drop_first());
        } else {
            assert(d =~= t);
        }
    }
    if start == to {
        return None;
    }
    let mut acc: u64 = 0;
    let mut i = start;
    while i < to
        invariant
            start <= i <= to <= s@.len(),
            d == s@.subrange(start as int, to as int),
            parse_u64(s@.subrange(from as int, to as int)) == digits_to_u64(d),
            forall|j: int| 0 <= j < i - start ==> is_digit(#[trigger] d[j]),
            acc as nat == digits_value(d.subrange(0, i - start)),
        decreases to - i,
    {
        let c = s.get_char(i);
        if !('0' <= c && c <= '9') {
            assert(!is_digit(d[i - start]));
            return None;
        }
        let digit = (c as u32 - '0' as u32) as u64;
        proof {
            let p = d.subrange(0, i - start + 1);
            assert(p.drop_last() =~= d.subrange(0, i - start));
            assert(p.last() == c);
        }
        if acc > (u64::MAX - digit) / 10 {
            proof {
                let p = d.subrange(0, i - start + 1);
                assert(digits_value(p) > u64::MAX);
                if forall|j: int| 0 <= j < d.len() ==> is_digit(#[trigger] d[j]) {
                    lemma_digits_value_prefix(d, i - start + 1);
                }
            }
            return None;
        }
        acc = acc * 10 + digit;
        i = i + 1;
    }
    assert(d.subrange(0, to - start) =~= d);
    Some(acc)
}

/// The positions `a..b` of `s` that remain of `from..to` once white space is
/// trimmed from both ends.
fn trimmed_bounds(s: &str, from: usize, to: usize) -> (r: (usize, usize))
    requires
        from <= to <= s@.len(),
    ensures
        from <= r.0 <= r.1 <= to,
        s@.subrange(r.0 as int, r.1 as int) == trim(s@.subrange(from as int, to as int)),
{
    let mut a = from;
    while a < to && is_whitespace_char(s.get_char(a))
        invariant
            from <= a <= to <= s@.len(),
            trim_start(s@.subrange(from as int, to as int)) == trim_start(s@.subrange(a as int, to as int)),
        decreases to - a,
    {
        assert(s@.subrange(a as int, to as int).drop_first() =~= s@.subrange(a + 1, to as int));
        a = a + 1;
    }
    assert(trim_start(s@.subrange(a as int, to as int)) == s@.subrange(a as int, to as int));
    let mut b = to;
    while b > a && is_whitespace_char(s.get_char(b - 1))
        invariant
            from <= a <= b <= to <= s@.len(),
            trim_end(s@.subrange(a as int, to as int)) == trim_end(s@.subrange(a as int, b as int)),
        decreases b - a,
    {
        assert(s@.subrange(a as int, b as int).drop_last() =~= s@.subrange(a as int, b - 1));
        b = b - 1;
    }
    assert(trim_end(s@.subrange(a as int, b as int)) == s@.subrange(a as int, b as int));
    (a, b)
}

/// Parses the number in positions `from..to` of `s`, white space around it allowed.
fn parse_trimmed_u64(s: &str, from: usize, to: usize) -> (r: Option<u64>)
    requires
        from <= to <= s@.len(),
    ensures
        r == parse_u64(trim(s@.subrange(from as int, to as int))),
{
    let (a, b) = trimmed_bounds(s, from, to);
    parse_u64_in(s, a, b)
}

/// The message for a number that does not parse.
fn invalid_duration_message(s: &str) -> (m: String)
    ensures
        m@ == "Invalid duration: "@ + s@,
{
    let mut m = String::from_str("Invalid duration: ");
    m.append(s);
    m
}

/// The message for a duration without a unit.
fn missing_unit_message(s: &str) -> (m: String)
    ensures
        m@ == "Duration must end with 'ms' or 's': "@ + s@,
{
    let mut m = String::from_str("Duration must end with 'ms' or 's': ");
    m.append(s);
    m
}

/// Whether `s` reads as a number of milliseconds that fits in a `u64`, or is
/// refused; false only for a number of seconds too large to convert.
pub fn duration_fits(s: &str) -> (r: bool)
    ensures
        r == (read_duration(s@) matches DurationReading::Millis(v) ==> v <= u64::MAX),
{
    let n = s.unicode_len();
    if n >= 2 && s.get_char(n - 2) == 'm' && s.get_char(n - 1) == 's' {
        true
    } else if n >= 1 && s.get_char(n - 1) == 's' {
        match parse_trimmed_u64(s, 0, n - 1) {
            Some(v) => v <= u64::MAX / 1000,
            None => true,
        }
    } else {
        true
    }
}

/// Reads a duration such as `150ms` or `2s` as a number of milliseconds.
/// A number that does not parse gives "Invalid duration: <s>"; a missing unit
/// gives "Duration must end with 'ms' or 's': <s>". A number of seconds whose
/// milliseconds do not fit in a `u64` is left out: the multiplication overflows.
pub fn parse_duration_ms(s: &str) -> (r: Result<u64, String>)
    requires
        read_duration(s@) matches DurationReading::Millis(v) ==> v <= u64::MAX,
    ensures
        match read_duration(s@) {
            DurationReading::Millis(v) => r == Ok::<u64, String>(v as u64),
            DurationReading::BadNumber => r matches Err(m) && m@ == "Invalid duration: "@ + s@,
            DurationReading::NoUnit => r matches Err(m) && m@ == "Duration must end with 'ms' or 's': "@
                + s@,
        },
{
    let n = s.unicode_len();
    if n >= 2 && s.get_char(n - 2) == 'm' && s.get_char(n - 1) == 's' {
        match parse_trimmed_u64(s, 0, n - 2) {
            Some(v) => Ok(v),
            None => Err(invalid_duration_message(s)),
        }
    } else if n >= 1 && s.get_char(n - 1) == 's' {
        match parse_trimmed_u64(s, 0, n - 1) {
            Some(v) => Ok(v * 1000),
            None => Err(invalid_duration_message(s)),
        }
    } else {
        Err(missing_unit_message(s))
    }
}


/// A digit character stands for its digit.
proof fn lemma_digit_char(k: nat)
    requires
        k < 10,
    ensures
        is_digit(digit_char(k)),
        (digit_char(k) as int) - ('0' as int) == k,
{
    assert(('0' as nat) + k <= 57);
}

/// The decimal digits of `n` are digits, there is at least one, and they
/// denote `n`.
proof fn lemma_decimal_digits(n: nat)
    ensures
        decimal(n).len() > 0,
        forall|i: int| 0 <= i < decimal(n).len() ==> is_digit(#[trigger] decimal(n)[i]),
        digits_value(decimal(n)) == n,
    decreases n,
{
    lemma_digit_char(n % 10);
    if n < 10 {
        assert(decimal(n).drop_last() =~= Seq::<char>::empty());
        assert(n % 10 == n);
        assert(decimal(n).last() == digit_char(n));
        assert(digits_value(decimal(n)) == digits_value(Seq::<char>::empty()) * 10 + n);
    } else {
        lemma_decimal_digits(n / 10);
        assert(decimal(n).drop_last() =~= decimal(n / 10));
        assert(decimal(n).last() == digit_char(n % 10));
        assert((n / 10) * 10 + n % 10 == n);
        assert(digits_value(decimal(n)) == digits_value(decimal(n / 10)) * 10 + n % 10);
        assert forall|i: int| 0 <= i < decimal(n).len() implies is_digit(#[trigger] decimal(n)[i]) by {
            if i < decimal(n / 10).len() {
                assert(decimal(n)[i] == decimal(n / 10)[i]);
            }
        }
    }
}

/// A string of digits has no white space to trim.
proof fn lemma_trim_digits(d: Seq<char>)
    requires
        d.len() > 0,
        forall|i: int| 0 <= i < d.len() ==> is_digit(#[trigger] d[i]),
    ensures
        trim(d) == d,
{
    assert(is_digit(d[0]));
    assert(is_digit(d.last()));
}

/// A number followed by `ms` reads as that many milliseconds, and a number
/// followed by `s` as a thousand times as many, when that fits in a `u64`.
pub proof fn lemma_duration_units(n: u64)
    ensures
        read_duration(decimal(n as nat) + seq!['m', 's']) == DurationReading::Millis(n as int),
        read_duration(decimal(n as nat) + seq!['s']) == DurationReading::Millis(n * 1000),
{
    let d = decimal(n as nat);
    lemma_decimal_digits(n as nat);
    lemma_trim_digits(d);
    assert(is_digit(d[0]));
    assert(d[0] != '+');
    assert(digits_to_u64(d) == Some(n));
    let ms = d + seq!['m', 's'];
    assert(ms.subrange(0, ms.len() - 2) =~= d);
    let secs = d + seq!['s'];
    assert(secs.subrange(0, secs.len() - 1) =~= d);
    assert(secs[secs.len() - 2] == d.last());
    assert(is_digit(d.last()));
}

/// Whether every character of `w` is white space.
pub open spec fn all_white_space(w: Seq<char>) -> bool {
    forall|i: int| 0 <= i < w.len() ==> is_white_space(#[trigger] w[i])
}

/// Leading white space is trimmed away.
proof fn lemma_trim_start_skips(w: Seq<char>, x: Seq<char>)
    requires
        all_white_space(w),
    ensures
        trim_start(w + x) == trim_start(x),
    decreases w.len(),
{
    if w.len() > 0 {
        assert(is_white_space(w[0]));
        assert((w + x).drop_first() =~= w.drop_first() + x);
        lemma_trim_start_skips(w.drop_first(), x);
    } else {
        assert(w + x =~= x);
    }
}

/// Trailing white space is trimmed away.
proof fn lemma_trim_end_skips(x: Seq<char>, w: Seq<char>)
    requires
        all_white_space(w),
    ensures
        trim_end(x + w) == trim_end(x),
    decreases w.len(),
{
    if w.len() > 0 {
        assert(is_white_space(w.last()));
        assert((x + w).drop_last() =~= x + w.drop_last());
        lemma_trim_end_skips(x, w.drop_last());
    } else {
        assert(x + w =~= x);
    }
}

/// A number with any white space around it, followed by `ms`, reads as that
/// many milliseconds; followed by `s`, as a thousand times as many. Trimming
/// is the same for both units.
pub proof fn lemma_duration_units_around_white_space(w1: Seq<char>, n: u64, w2: Seq<char>)
    requires
        all_white_space(w1),
        all_white_space(w2),
    ensures
        read_duration(w1 + decimal(n as nat) + w2 + seq!['m', 's']) == DurationReading::Millis(n as int),
        read_duration(w1 + decimal(n as nat) + w2 + seq!['s']) == DurationReading::Millis(n * 1000),
{
    let d = decimal(n as nat);
    lemma_decimal_digits(n as nat);
    lemma_trim_digits(d);
    assert(is_digit(d[0]));
    assert(!is_white_space(d[0]));
    assert(is_digit(d.last()));
    assert(!is_white_space(d.last()));
    assert(d[0] != '+');
    assert(digits_to_u64(d) == Some(n));
    let body = w1 + d + w2;
    lemma_trim_start_skips(w1, d + w2);
    assert(w1 + (d + w2) =~= body);
    assert((d + w2)[0] == d[0]);
    assert(trim_start(d + w2) == d + w2);
    lemma_trim_end_skips(d, w2);
    assert(trim_end(d) == d);
    assert(trim(body) == d);
    let ms = body + seq!['m', 's'];
    assert(ms.subrange(0, ms.len() - 2) =~= body);
    let secs = body + seq!['s'];
    assert(secs.subrange(0, secs.len() - 1) =~= body);
    if w2.len() > 0 {
        assert(secs[secs.len() - 2] == w2.last());
        assert(is_white_space(w2.last()));
    } else {
        assert(secs[secs.len() - 2] == d.last());
    }
}

/// The outcome of checking many scenarios, given how many of them failed:
/// success when none did, else "<count> spec(s) failed validation".
pub fn validation_summary(failed: usize) -> (r: Result<(), String>)
    ensures
        failed == 0 ==> r is Ok,
        failed > 0 ==> (r matches Err(m) && m@ == decimal(failed as nat) + " spec(s) failed validation"@),
{
    if failed == 0 {
        Ok(())
    } else {
        let mut m = String::new();
        append_decimal(&mut m, failed as u64);
        m.append(" spec(s) failed validation");
        Err(m)
    }
}

} // verus!
