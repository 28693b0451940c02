use vstd::prelude::*;

use crate::error::{CommandError, ErrorKind};

verus! {

#[verifier::external_type_specification]
#[verifier::external_body]
pub struct ExPattern(glob::Pattern);

#[verifier::external_type_specification]
#[verifier::external_body]
pub struct ExPatternError(glob::PatternError);

#[verifier::external_type_specification]
#[verifier::external_body]
pub struct ExDurationError(humantime::DurationError);

/// Whether `pattern` is a well-formed shell glob.
pub uninterp spec fn glob_valid(pattern: Seq<char>) -> bool;

/// Whether the well-formed glob `pattern` matches `path`.
pub uninterp spec fn glob_match(pattern: Seq<char>, path: Seq<char>) -> bool;

/// The duration that `text` spells, in nanoseconds, where it spells one.
pub uninterp spec fn duration_nanos(text: Seq<char>) -> Option<u128>;

/// Relies on glob::Pattern::new: compiling succeeds exactly on the well-formed globs, and
/// which those are depends on the text alone.
pub assume_specification[ glob::Pattern::new ](pattern: &str) -> (r: Result<
    glob::Pattern,
    glob::PatternError,
>)
    ensures
        r is Ok <==> glob_valid(pattern@),
;

/// Relies on glob::Pattern::matches, applied to what glob::Pattern::new compiles from
/// `pattern`: whether the path matches depends on the two texts alone. A pattern that does
/// not compile matches nothing.
#[verifier::external_body]
fn pattern_matches(pattern: &str, path: &str) -> (r: bool)
    ensures
        r == (glob_valid(pattern@) && glob_match(pattern@, path@)),
{
    match glob::Pattern::new(pattern) {
        Ok(p) => p.matches(path),
        Err(_) => false,
    }
}

/// Relies on humantime::parse_duration: the duration that `text` spells (for instance
/// `200ms` or `2h 37min`), converted to whole nanoseconds. With at most
/// `MAX_DURATION_DIGITS` digits, every number in the text is below 10^11, so the seconds it
/// sums stay below 4 * 10^18, far from the `u64` overflow at which the parser's final
/// `Duration::new` panics; the parser's other arithmetic is checked.
#[verifier::external_body]
fn parse_nanos(text: &str) -> (r: Result<u128, humantime::DurationError>)
    requires
        digit_count(text@) <= MAX_DURATION_DIGITS,
    ensures
        match r {
            Ok(n) => duration_nanos(text@) == Some(n),
            Err(_) => duration_nanos(text@) is None,
        },
{
    match humantime::parse_duration(text) {
        Ok(d) => Ok(d.as_nanos()),
        Err(e) => Err(e),
    }
}

/// The most decimal digits a duration text may hold.
pub const MAX_DURATION_DIGITS: u64 = 11;

/// Whether `c` is a decimal digit.
pub open spec fn is_digit(c: char) -> bool {
    0x30 <= (c as u32) <= 0x39
}

/// How many decimal digits `s` holds.
pub open spec fn digit_count(s: Seq<char>) -> nat
    decreases s.len(),
{
    if s.len() == 0 {
        0
    } else {
        digit_count(s.drop_last()) + if is_digit(s.last()) {
            1nat
        } else {
            0nat
        }
    }
}

/// Counts the decimal digits of `text`.
pub fn count_digits(text: &str) -> (r: u64)
    ensures
        r == digit_count(text@),
{
    let n = text.unicode_len();
    let mut count: u64 = 0;
    let mut i: usize = 0;
    while i < n
        invariant
            n == text@.len(),
            i <= n,
            count == digit_count(text@.take(i as int)),
            count <= i,
        decreases n - i,
    {
        let c = text.get_char(i);
        proof {
            assert(text@.take(i + 1).drop_last() =~= text@.take(i as int));
            assert(text@.take(i + 1).last() == c);
        }
        let u = c as u32;
        if 0x30 <= u && u <= 0x39 {
            count = count + 1;
        }
        i = i + 1;
    }
    proof {
        assert(text@.take(n as int) =~= text@);
    }
    count
}

/// Whether some pattern of `patterns` is well-formed and matches `path`.
pub open spec fn excluded_by(patterns: Seq<Seq<char>>, path: Seq<char>) -> bool {
    exists|i: int| 0 <= i < patterns.len() && glob_valid(patterns[i]) && glob_match(patterns[i], path)
}

/// Whether every pattern of `patterns` is well-formed.
pub open spec fn all_globs_valid(patterns: Seq<Seq<char>>) -> bool {
    forall|i: int| 0 <= i < patterns.len() ==> glob_valid(#[trigger] patterns[i])
}

/// What a sequence of string slices holds, as character sequences.
pub open spec fn str_views(v: Seq<&str>) -> Seq<Seq<char>> {
    v.map_values(|t: &str| t@)
}

/// The whole milliseconds in a number of nanoseconds.
pub open spec fn millis_of(nanos: u128) -> int {
    nanos as int / 1_000_000
}

/// Checks that each exclude pattern is a well-formed glob.
pub fn check_globs(patterns: &Vec<&str>) -> (r: Result<(), CommandError>)
    ensures
        r is Ok <==> all_globs_valid(str_views(patterns@)),
        r matches Err(e) ==> e.kind == ErrorKind::Config,
{
    let mut i: usize = 0;
    while i < patterns.len()
        invariant
            i <= patterns@.len(),
            forall|k: int| 0 <= k < i ==> glob_valid(#[trigger] str_views(patterns@)[k]),
        decreases patterns@.len() - i,
    {
        match glob::Pattern::new(patterns[i]) {
            Ok(_) => {},
            Err(_) => {
                assert(!glob_valid(str_views(patterns@)[i as int]));
                let mut msg = "invalid glob pattern: ".to_owned();
                msg.append(patterns[i]);
                return Err(CommandError::new(ErrorKind::Config, msg));
            },
        }
        i = i + 1;
    }
    Ok(())
}

/// Tells whether `path` is excluded: whether some pattern of `patterns` matches it.
pub fn is_excluded(patterns: &Vec<&str>, path: &str) -> (r: bool)
    ensures
        r == excluded_by(str_views(patterns@), path@),
{
    let mut i: usize = 0;
    while i < patterns.len()
        invariant
            i <= patterns@.len(),
            forall|k: int|
                0 <= k < i ==> !(glob_valid(#[trigger] str_views(patterns@)[k]) && glob_match(
                    str_views(patterns@)[k],
                    path@,
                )),
        decreases patterns@.len() - i,
    {
        if pattern_matches(patterns[i], path) {
            assert(str_views(patterns@)[i as int] == patterns@[i as int]@);
            return true;
        }
        i = i + 1;
    }
    false
}

/// The whole milliseconds in `nanos` nanoseconds, where their number fits in a `u64`.
pub fn nanos_to_millis(nanos: u128) -> (r: Option<u64>)
    ensures
        r is Some <==> millis_of(nanos) <= u64::MAX,
        r matches Some(ms) ==> ms == millis_of(nanos),
{
    let ms = nanos / 1_000_000;
    if ms <= u64::MAX as u128 {
        Some(ms as u64)
    } else {
        None
    }
}

/// Reads a duration such as `200ms`, `5s` or `1h 30m`, in whole milliseconds. Text with
/// more than `MAX_DURATION_DIGITS` digits, text that spells no duration, and a duration too
/// long to count in milliseconds are configuration errors.
pub fn parse_duration(text: &str) -> (r: Result<u64, CommandError>)
    ensures
        r is Ok <==> (digit_count(text@) <= MAX_DURATION_DIGITS && (duration_nanos(text@) matches Some(
            n,
        ) && millis_of(n) <= u64::MAX)),
        r matches Ok(ms) ==> duration_nanos(text@) matches Some(n) && ms == millis_of(n),
        r matches Err(e) ==> e.kind == ErrorKind::Config,
{
    if count_digits(text) > MAX_DURATION_DIGITS {
        let mut msg = "duration has too many digits: ".to_owned();
        msg.append(text);
        return Err(CommandError::new(ErrorKind::Config, msg));
    }
    match parse_nanos(text) {
        Ok(n) => match nanos_to_millis(n) {
            Some(ms) => Ok(ms),
            None => {
                let mut msg = "duration out of range: ".to_owned();
                msg.append(text);
                Err(CommandError::new(ErrorKind::Config, msg))
            },
        },
        Err(_) => {
            let mut msg = "invalid duration: ".to_owned();
            msg.append(text);
            Err(CommandError::new(ErrorKind::Config, msg))
        },
    }
}

} // verus!
