use vstd::prelude::*;

verus! {

/// The failure conditions shared by all field-level validations.
#[derive(Debug, Clone, PartialEq, Eq)]
pub enum Error {
    Required(String),
    Equal(String, String),
    NotEqual(String, String),
    TooShort(String, usize),
    TooLong(String, usize),
    GreatestThan(String, i64),
    LesserThan(String, i64),
    NotInRange(String, i64, i64),
    InvalidFormat(String),
    Generic(String),
}

/// What `regex::Regex::is_match` answers for a pattern and a text, taken as
/// `false` when the pattern itself does not compile. The result is a function
/// of the two strings alone.
pub uninterp spec fn regex_matches(pattern: Seq<char>, text: Seq<char>) -> bool;

/// Relies on `regex::Regex::new` and `regex::Regex::is_match`: whether `text`
/// contains a match for `pattern`, with an uncompilable pattern matching nothing.
#[verifier::external_body]
fn regex_is_match(pattern: &str, text: &str) -> (r: bool)
    ensures
        r == regex_matches(pattern@, text@),
{
    match regex::Regex::new(pattern) {
        Ok(re) => re.is_match(text),
        Err(_) => false,
    }
}

/// Character-for-character string comparison.
pub fn str_eq(a: &str, b: &str) -> (r: bool)
    ensures
        r == (a@ == b@),
{
    let a_len = a.unicode_len();
    let b_len = b.unicode_len();
    if a_len != b_len {
        return false;
    }
    for i in 0..a_len
        invariant
            a_len == a@.len(),
            b_len == b@.len(),
            a_len == b_len,
            forall|j: int| 0 <= j < i ==> a@[j] == b@[j],
    {
        if a.get_char(i) != b.get_char(i) {
            return false;
        }
    }
    proof {
        assert(a@ =~= b@);
    }
    true
}

/// Whether the prefix opens the string, character for character.
pub fn str_starts_with(s: &str, prefix: &str) -> (r: bool)
    ensures
        r == prefix@.is_prefix_of(s@),
{
    let n = prefix.unicode_len();
    if n > s.unicode_len() {
        return false;
    }
    for i in 0..n
        invariant
            n == prefix@.len(),
            n <= s@.len(),
            forall|j: int| 0 <= j < i ==> s@[j] == prefix@[j],
    {
        if s.get_char(i) != prefix.get_char(i) {
            proof {
                assert(s@.subrange(0, n as int)[i as int] != prefix@[i as int]);
            }
            return false;
        }
    }
    proof {
        assert(s@.subrange(0, n as int) =~= prefix@);
    }
    true
}

/// Validates that a value is not empty.
pub fn not_empty(name: &str, value: &str) -> (r: Result<(), Error>)
    ensures
        match r {
            Ok(()) => value@.len() != 0,
            Err(e) => value@.len() == 0 && (e matches Error::Required(n) && n@ == name@),
        },
{
    if value.is_empty() {
        Err(Error::Required(name.to_owned()))
    } else {
        Ok(())
    }
}

/// Check if a value is equal to an expected value.
pub fn equals(name: &str, value: &str, expected: &str) -> (r: Result<(), Error>)
    ensures
        match r {
            Ok(()) => value@ == expected@,
            Err(e) => value@ != expected@ && (e matches Error::NotEqual(n, x) && n@ == name@
                && x@ == expected@),
        },
{
    if !str_eq(value, expected) {
        Err(Error::NotEqual(name.to_owned(), expected.to_owned()))
    } else {
        Ok(())
    }
}

/// Check if a value differs from an expected value.
pub fn not_equals(name: &str, value: &str, expected: &str) -> (r: Result<(), Error>)
    ensures
        match r {
            Ok(()) => value@ != expected@,
            Err(e) => value@ == expected@ && (e matches Error::NotEqual(n, x) && n@ == name@
                && x@ == expected@),
        },
{
    if str_eq(value, expected) {
        Err(Error::NotEqual(name.to_owned(), expected.to_owned()))
    } else {
        Ok(())
    }
}

/// Check that a condition holds.
pub fn is_true(value: bool, msg: &str) -> (r: Result<(), Error>)
    ensures
        match r {
            Ok(()) => value,
            Err(e) => !value && (e matches Error::Generic(m) && m@ == msg@),
        },
{
    if value {
        Ok(())
    } else {
        Err(Error::Generic(msg.to_owned()))
    }
}

/// Check that a condition does not hold.
pub fn is_false(value: bool, msg: &str) -> (r: Result<(), Error>)
    ensures
        match r {
            Ok(()) => !value,
            Err(e) => value && (e matches Error::Generic(m) && m@ == msg@),
        },
{
    if !value {
        Ok(())
    } else {
        Err(Error::Generic(msg.to_owned()))
    }
}

/// Check if a value has at most `max` characters.
pub fn max_length(name: &str, value: &str, max: usize) -> (r: Result<(), Error>)
    ensures
        match r {
            Ok(()) => value@.len() <= max,
            Err(e) => value@.len() > max && (e matches Error::TooLong(n, m) && n@ == name@
                && m == max),
        },
{
    if value.unicode_len() > max {
        Err(Error::TooLong(name.to_owned(), max))
    } else {
        Ok(())
    }
}

/// Check if a value has at least `min` characters.
pub fn min_length(name: &str, value: &str, min: usize) -> (r: Result<(), Error>)
    ensures
        match r {
            Ok(()) => value@.len() >= min,
            Err(e) => value@.len() < min && (e matches Error::TooShort(n, m) && n@ == name@
                && m == min),
        },
{
    if value.unicode_len() < min {
        Err(Error::TooShort(name.to_owned(), min))
    } else {
        Ok(())
    }
}

/// Check that a value has a length between a minimum and a maximum.
pub fn length_between(name: &str, value: &str, min: usize, max: usize) -> (r: Result<(), Error>)
    ensures
        match r {
            Ok(()) => min <= value@.len() <= max,
            Err(e) => match e {
                Error::TooShort(n, m) => value@.len() < min && n@ == name@ && m == min,
                Error::TooLong(n, m) => value@.len() > max && value@.len() >= min && n@ == name@
                    && m == max,
                _ => false,
            },
        },
{
    min_length(name, value, min)?;
    max_length(name, value, max)?;
    Ok(())
}

/// Check that a value is at most a maximum.
pub fn max(name: &str, value: i64, max_value: i64) -> (r: Result<(), Error>)
    ensures
        match r {
            Ok(()) => value <= max_value,
            Err(e) => value > max_value && (e matches Error::GreatestThan(n, m) && n@ == name@
                && m == max_value),
        },
{
    if value > max_value {
        Err(Error::GreatestThan(name.to_owned(), max_value))
    } else {
        Ok(())
    }
}

/// Check that a value is at least a minimum.
pub fn min(name: &str, value: i64, min_value: i64) -> (r: Result<(), Error>)
    ensures
        match r {
            Ok(()) => value >= min_value,
            Err(e) => value < min_value && (e matches Error::LesserThan(n, m) && n@ == name@
                && m == min_value),
        },
{
    if value < min_value {
        Err(Error::LesserThan(name.to_owned(), min_value))
    } else {
        Ok(())
    }
}

/// Check that a value lies between a minimum and a maximum.
pub fn in_range(name: &str, value: i64, min_value: i64, max_value: i64) -> (r: Result<(), Error>)
    ensures
        match r {
            Ok(()) => min_value <= value <= max_value,
            Err(e) => !(min_value <= value <= max_value) && (e matches Error::NotInRange(n, lo, hi)
                && n@ == name@ && lo == min_value && hi == max_value),
        },
{
    if value < min_value || value > max_value {
        Err(Error::NotInRange(name.to_owned(), min_value, max_value))
    } else {
        Ok(())
    }
}

/// Check that a value matches a regular expression.
pub fn matches(name: &str, value: &str, pattern: &str) -> (r: Result<(), Error>)
    ensures
        match r {
            Ok(()) => regex_matches(pattern@, value@),
            Err(e) => !regex_matches(pattern@, value@) && (e matches Error::InvalidFormat(n)
                && n@ == name@),
        },
{
    if !regex_is_match(pattern, value) {
        Err(Error::InvalidFormat(name.to_owned()))
    } else {
        Ok(())
    }
}

} // verus!
