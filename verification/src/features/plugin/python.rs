//! The Python runtime that plugins run on.
use vstd::prelude::*;

use crate::text::{
    chars_of_str, decimal_chars, is_space, parse_unsigned, parse_unsigned_spec, push_char, push_decimal,
};

verus! {

pub const MINIMUM_PYTHON_MAJOR: u32 = 3;
pub const MINIMUM_PYTHON_MINOR: u32 = 11;

/// `"3.11"`.
pub fn minimum_version_string() -> (version: String)
    ensures
        version@ == decimal_chars(MINIMUM_PYTHON_MAJOR as nat) + "."@ + decimal_chars(MINIMUM_PYTHON_MINOR as nat),
{
    let mut version = String::new();
    push_decimal(&mut version, MINIMUM_PYTHON_MAJOR as u64);
    version.append(".");
    push_decimal(&mut version, MINIMUM_PYTHON_MINOR as u64);
    version
}

/// Number of leading characters of `s` that satisfy `is_space`.
pub open spec fn space_prefix(s: Seq<char>) -> nat
    decreases s.len(),
{
    if s.len() > 0 && is_space(s[0]) { 1 + space_prefix(s.drop_first()) } else { 0 }
}

/// Number of leading characters of `s` that are not whitespace.
pub open spec fn word_prefix(s: Seq<char>) -> nat
    decreases s.len(),
{
    if s.len() > 0 && !is_space(s[0]) { 1 + word_prefix(s.drop_first()) } else { 0 }
}

/// The first whitespace-separated word of `s`, if it has one.
pub open spec fn first_word(s: Seq<char>) -> Option<Seq<char>> {
    let rest = s.skip(space_prefix(s) as int);
    if rest.len() == 0 { None } else { Some(rest.take(word_prefix(rest) as int)) }
}

/// Number of leading characters of `s` that are not `.`.
pub open spec fn field_len(s: Seq<char>) -> nat
    decreases s.len(),
{
    if s.len() > 0 && s[0] != '.' { 1 + field_len(s.drop_first()) } else { 0 }
}

/// Major and minor version of a `python --version`-style string: the first two
/// `.`-separated fields of its first word, each an unsigned 32-bit number.
pub open spec fn parse_version_spec(version: Seq<char>) -> Option<(u32, u32)> {
    match first_word(version) {
        None => None,
        Some(word) => {
            let major = word.take(field_len(word) as int);
            if field_len(word) == word.len() {
                None
            } else {
                let after = word.skip(field_len(word) as int + 1);
                let minor = after.take(field_len(after) as int);
                match (parse_unsigned_spec(major, u32::MAX as nat), parse_unsigned_spec(minor, u32::MAX as nat)) {
                    (Some(a), Some(b)) => Some((a as u32, b as u32)),
                    _ => None,
                }
            }
        },
    }
}

/// The string whose characters are those of `chars` from `start` to `end`.
fn string_of_range(chars: &Vec<char>, start: usize, end: usize) -> (text: String)
    requires
        start <= end <= chars@.len(),
    ensures
        text@ == chars@.subrange(start as int, end as int),
{
    let mut text = String::new();
    let mut i = start;
    while i < end
        invariant
            start <= i <= end <= chars@.len(),
            text@ == chars@.subrange(start as int, i as int),
        decreases end - i,
    {
        push_char(&mut text, chars[i]);
        i += 1;
        assert(text@ =~= chars@.subrange(start as int, i as int));
    }
    text
}

fn count_while(chars: &Vec<char>, start: usize, spaces: bool) -> (end: usize)
    requires
        start <= chars@.len(),
    ensures
        start <= end <= chars@.len(),
        spaces ==> end - start == space_prefix(chars@.skip(start as int)),
        !spaces ==> end - start == word_prefix(chars@.skip(start as int)),
{
    let mut end = start;
    while end < chars.len() && crate::text::is_whitespace(chars[end]) == spaces
        invariant
            start <= end <= chars@.len(),
            spaces ==> space_prefix(chars@.skip(start as int)) == (end - start) + space_prefix(chars@.skip(end as int)),
            !spaces ==> word_prefix(chars@.skip(start as int)) == (end - start) + word_prefix(chars@.skip(end as int)),
        decreases chars.len() - end,
    {
        assert(chars@.skip(end as int).drop_first() =~= chars@.skip(end + 1));
        end += 1;
    }
    proof {
        if end == chars@.len() {
            assert(chars@.skip(end as int).len() == 0);
        } else {
            assert(chars@.skip(end as int)[0] == chars@[end as int]);
        }
    }
    end
}

fn field_end(chars: &Vec<char>, start: usize, end: usize) -> (stop: usize)
    requires
        start <= end <= chars@.len(),
    ensures
        start <= stop <= end,
        stop - start == field_len(chars@.subrange(start as int, end as int)),
{
    let ghost word = chars@.subrange(start as int, end as int);
    let mut stop = start;
    assert(word.skip(0) =~= word);
    while stop < end && chars[stop] != '.'
        invariant
            start <= stop <= end <= chars@.len(),
            word == chars@.subrange(start as int, end as int),
            field_len(word) == (stop - start) + field_len(word.skip(stop - start)),
        decreases end - stop,
    {
        assert(word.skip(stop - start).drop_first() =~= word.skip(stop - start + 1));
        stop += 1;
    }
    proof {
        if stop == end {
            assert(word.skip(stop - start).len() == 0);
        } else {
            assert(word.skip(stop - start)[0] == chars@[stop as int]);
        }
    }
    stop
}

pub fn parse_python_version(version: &str) -> (parsed: Option<(u32, u32)>)
    ensures
        parsed == parse_version_spec(version@),
{
    let chars = chars_of_str(version);
    let start = count_while(&chars, 0, true);
    assert(chars@.skip(0) =~= chars@);
    if start == chars.len() {
        assert(chars@.skip(start as int).len() == 0);
        return None;
    }
    let end = count_while(&chars, start, false);
    let ghost rest = chars@.skip(start as int);
    let ghost word = rest.take(word_prefix(rest) as int);
    assert(word =~= chars@.subrange(start as int, end as int));
    let major_end = field_end(&chars, start, end);
    if major_end == end {
        return None;
    }
    let minor_end = field_end(&chars, major_end + 1, end);
    proof {
        assert(word.take(field_len(word) as int) =~= chars@.subrange(start as int, major_end as int));
        let after = word.skip(field_len(word) as int + 1);
        assert(after =~= chars@.subrange(major_end + 1, end as int));
        assert(after.take(field_len(after) as int) =~= chars@.subrange(major_end + 1, minor_end as int));
    }
    let major_text = string_of_range(&chars, start, major_end);
    let minor_text = string_of_range(&chars, major_end + 1, minor_end);
    let major = parse_unsigned(major_text.as_str(), u32::MAX as u64);
    let minor = parse_unsigned(minor_text.as_str(), u32::MAX as u64);
    match (major, minor) {
        (Some(a), Some(b)) => Some((a as u32, b as u32)),
        _ => None,
    }
}

/// Why a Python runtime cannot host plugins.
pub enum VersionError {
    Unparseable { version: String },
    TooOld { major: u32, minor: u32 },
}

impl VersionError {
    pub fn message(&self) -> (message: String)
        ensures
            message@ == (match self {
                VersionError::Unparseable { version } => "could not parse Python version from '"@ + version@ + "'"@,
                VersionError::TooOld { major, minor } => "python "@ + decimal_chars(*major as nat) + "."@
                    + decimal_chars(*minor as nat) + " is below the required minimum version "@
                    + decimal_chars(MINIMUM_PYTHON_MAJOR as nat) + "."@ + decimal_chars(MINIMUM_PYTHON_MINOR as nat),
            }),
    {
        match self {
            VersionError::Unparseable { version } => {
                let mut message = "could not parse Python version from '".to_owned();
                message.append(version.as_str());
                message.append("'");
                message
            },
            VersionError::TooOld { major, minor } => {
                let mut message = "python ".to_owned();
                push_decimal(&mut message, *major as u64);
                message.append(".");
                push_decimal(&mut message, *minor as u64);
                message.append(" is below the required minimum version ");
                let minimum = minimum_version_string();
                message.append(minimum.as_str());
                message
            },
        }
    }
}

/// Python 3.11 or later is supported.
pub fn ensure_supported_version(version: &str) -> (checked: Result<(), VersionError>)
    ensures
        parse_version_spec(version@) is None ==> (checked matches Err(VersionError::Unparseable { version: v }) && v@ == version@),
        parse_version_spec(version@) matches Some((major, minor)) ==> (
            if major < MINIMUM_PYTHON_MAJOR || (major == MINIMUM_PYTHON_MAJOR && minor < MINIMUM_PYTHON_MINOR) {
                checked matches Err(VersionError::TooOld { major: a, minor: b }) && a == major && b == minor
            } else {
                checked is Ok
            }),
        checked is Ok <==> (parse_version_spec(version@) matches Some((major, minor)) && (major > MINIMUM_PYTHON_MAJOR
            || (major == MINIMUM_PYTHON_MAJOR && minor >= MINIMUM_PYTHON_MINOR))),
{
    match parse_python_version(version) {
        None => Err(VersionError::Unparseable { version: version.to_owned() }),
        Some((major, minor)) => {
            if major < MINIMUM_PYTHON_MAJOR || (major == MINIMUM_PYTHON_MAJOR && minor < MINIMUM_PYTHON_MINOR) {
                Err(VersionError::TooOld { major, minor })
            } else {
                Ok(())
            }
        },
    }
}

/// The backends plugins can run on.
pub fn configured_backend_names() -> (names: Vec<String>)
    ensures
        names@.len() == 1,
        names@[0]@ == "subprocess"@,
{
    let mut names = Vec::new();
    names.push("subprocess".to_owned());
    names
}

} // verus!
