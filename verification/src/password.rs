use vstd::prelude::*;
use vstd::string::StringExecFns;
use vstd::string::StrSliceExecFns;
use argon2::password_hash::{PasswordHasher, PasswordVerifier};
use crate::validate::Error;

verus! {

/// What `char::is_alphabetic` answers: whether the character is a letter.
pub uninterp spec fn char_alphabetic(c: char) -> bool;

/// What `char::is_uppercase` answers: whether the character is an
/// upper-case letter.
pub uninterp spec fn char_uppercase(c: char) -> bool;

/// What `char::is_numeric` answers: whether the character is numeric.
pub uninterp spec fn char_numeric(c: char) -> bool;

/// Relies on `char::is_alphabetic`: every ASCII letter is a letter, and no
/// other ASCII character is.
#[verifier::external_body]
fn is_alphabetic(c: char) -> (r: bool)
    ensures
        r == char_alphabetic(c),
        ('A' <= c <= 'Z' || 'a' <= c <= 'z') ==> r,
        ((c as u32) < 128 && !('A' <= c <= 'Z' || 'a' <= c <= 'z')) ==> !r,
{
    c.is_alphabetic()
}

/// Relies on `char::is_uppercase`: every ASCII capital is upper case, and
/// no other ASCII character is.
#[verifier::external_body]
fn is_uppercase(c: char) -> (r: bool)
    ensures
        r == char_uppercase(c),
        ('A' <= c <= 'Z') ==> r,
        ((c as u32) < 128 && !('A' <= c <= 'Z')) ==> !r,
{
    c.is_uppercase()
}

/// Relies on `char::is_numeric`: every ASCII digit is numeric, and no other
/// ASCII character is.
#[verifier::external_body]
fn is_numeric(c: char) -> (r: bool)
    ensures
        r == char_numeric(c),
        ('0' <= c <= '9') ==> r,
        ((c as u32) < 128 && !('0' <= c <= '9')) ==> !r,
{
    c.is_numeric()
}

/// Relies on `rand::random_range`: a uniformly chosen index below the bound.
#[verifier::external_body]
fn random_below(bound: usize) -> (r: usize)
    requires
        0 < bound,
    ensures
        r < bound,
{
    rand::random_range(0..bound)
}

/// Relies on `argon2::Argon2::hash_password` with a freshly generated salt:
/// the PHC string of the salted Argon2 hash of the password. The salt is
/// random, so nothing is assumed of the outcome.
#[verifier::external_body]
fn argon2_hash(password: &str) -> (r: Result<String, Error>)
    ensures
        r matches Err(e) ==> e is Generic,
{
    match PasswordHasher::hash_password(&argon2::Argon2::default(), password.as_bytes()) {
        Ok(hash) => Ok(hash.to_string()),
        Err(e) => Err(Error::Generic(e.to_string())),
    }
}

/// What `argon2::Argon2::verify_password` decides for a PHC hash string
/// and a password, when the hash is usable: the verdict is a function of
/// the two strings alone.
pub uninterp spec fn argon2_matches(hash: Seq<char>, password: Seq<char>) -> bool;

/// Relies on `argon2::Argon2::verify_password`: `Ok(true)` when the
/// password matches the PHC hash string, `Ok(false)` when it does not, and
/// an error when the hash cannot be used.
#[verifier::external_body]
fn argon2_verify(hash: &str, password: &str) -> (r: Result<bool, Error>)
    ensures
        r matches Ok(b) ==> b == argon2_matches(hash@, password@),
        r matches Err(e) ==> e is Generic,
{
    match PasswordVerifier::verify_password(&argon2::Argon2::default(), password.as_bytes(), hash) {
        Ok(()) => Ok(true),
        Err(argon2::password_hash::Error::PasswordInvalid) => Ok(false),
        Err(e) => Err(Error::Generic(e.to_string())),
    }
}

/// How many letters the string holds.
pub open spec fn spec_count_letters(s: Seq<char>) -> nat
    decreases s.len(),
{
    if s.len() == 0 {
        0
    } else {
        spec_count_letters(s.drop_last()) + if char_alphabetic(s.last()) {
            1nat
        } else {
            0nat
        }
    }
}

/// How many upper-case letters the string holds.
pub open spec fn spec_count_uppers(s: Seq<char>) -> nat
    decreases s.len(),
{
    if s.len() == 0 {
        0
    } else {
        spec_count_uppers(s.drop_last()) + if char_alphabetic(s.last()) && char_uppercase(
            s.last(),
        ) {
            1nat
        } else {
            0nat
        }
    }
}

/// How many digits outside the letters the string holds.
pub open spec fn spec_count_digits(s: Seq<char>) -> nat
    decreases s.len(),
{
    if s.len() == 0 {
        0
    } else {
        spec_count_digits(s.drop_last()) + if !char_alphabetic(s.last()) && char_numeric(
            s.last(),
        ) {
            1nat
        } else {
            0nat
        }
    }
}

/// How many characters that are neither letters nor numeric the string
/// holds.
pub open spec fn spec_count_symbols(s: Seq<char>) -> nat
    decreases s.len(),
{
    if s.len() == 0 {
        0
    } else {
        spec_count_symbols(s.drop_last()) + if !char_alphabetic(s.last()) && !char_numeric(
            s.last(),
        ) {
            1nat
        } else {
            0nat
        }
    }
}

/// The strength score of a password: a length bonus past 7 characters, one
/// point for each letter and symbol, and a combination bonus when at least
/// two letters meet at least two digits.
pub open spec fn spec_strength(s: Seq<char>) -> int {
    (if s.len() > 7 {
        10 + (s.len() - 7)
    } else {
        0
    }) + spec_count_letters(s) + spec_count_symbols(s) + (if spec_count_letters(s) >= 2
        && spec_count_digits(s) >= 2 {
        spec_count_letters(s) + spec_count_digits(s)
    } else {
        0
    })
}

/// The strength score of the string, computed over its characters.
fn strength_of(s: &str) -> (r: u128)
    ensures
        r == spec_strength(s@),
{
    let length = s.unicode_len();
    let mut digit_count: usize = 0;
    let mut letter_count: usize = 0;
    let mut lower_count: usize = 0;
    let mut upper_count: usize = 0;
    let mut symbol_count: usize = 0;
    for i in 0..length
        invariant
            length == s@.len(),
            letter_count == spec_count_letters(s@.take(i as int)),
            upper_count == spec_count_uppers(s@.take(i as int)),
            lower_count == spec_count_letters(s@.take(i as int)) - spec_count_uppers(
                s@.take(i as int),
            ),
            digit_count == spec_count_digits(s@.take(i as int)),
            symbol_count == spec_count_symbols(s@.take(i as int)),
            letter_count <= i && digit_count <= i && symbol_count <= i,
            upper_count <= letter_count && lower_count <= letter_count,
    {
        let ch = s.get_char(i);
        proof {
            assert(s@.take(i + 1).drop_last() =~= s@.take(i as int));
            assert(s@.take(i + 1).last() == s@[i as int]);
        }
        if is_alphabetic(ch) {
            letter_count += 1;
            if is_uppercase(ch) {
                upper_count += 1;
            } else {
                lower_count += 1;
            }
        } else if is_numeric(ch) {
            digit_count += 1;
        } else {
            symbol_count += 1;
        }
    }
    proof {
        assert(s@.take(length as int) =~= s@);
    }
    let mut strength: u128 = 0;
    if length > 7 {
        strength = 10 + (length as u128 - 7);
    }
    strength = strength + upper_count as u128 + lower_count as u128 + symbol_count as u128;
    if letter_count >= 2 && digit_count >= 2 {
        strength = strength + letter_count as u128 + digit_count as u128;
    }
    strength
}

/// Value object representing a plain text password.
#[derive(Debug, PartialEq, Eq)]
pub struct PlainPassword(String);

impl View for PlainPassword {
    type V = Seq<char>;

    closed spec fn view(&self) -> Seq<char> {
        self.0@
    }
}

impl Clone for PlainPassword {
    /// Cloning keeps the password text.
    fn clone(&self) -> (r: Self)
        ensures
            r == *self,
    {
        PlainPassword(self.0.clone())
    }
}

impl Default for PlainPassword {
    /// The default plain password is empty.
    fn default() -> (r: Self)
        ensures
            r@ == Seq::<char>::empty(),
    {
        PlainPassword(String::new())
    }
}

impl PlainPassword {
    /// Creates a new `PlainPassword` holding the given text as it is.
    pub fn new(password: &str) -> (r: Self)
        ensures
            r@ == password@,
    {
        PlainPassword(password.to_owned())
    }

    /// Generates a new random password: random letters, digits and symbols
    /// until the result is longer than 7 characters and strong.
    pub fn generate() -> (r: Self)
        ensures
            r@.len() > 7,
            spec_strength(r@) >= 20,
    {
        let uppers = "ABCDEFGHIJKLMNOPQRSTUVWXYZ";
        let lowers = "abcdefghijklmnopqrstuvwxyz";
        let digits = "0123456789";
        let symbols = "\"`!?$?%^&*()_-+={[}]:;@'~#|\\<,>.?/";
        proof {
            reveal_strlit("ABCDEFGHIJKLMNOPQRSTUVWXYZ");
            reveal_strlit("abcdefghijklmnopqrstuvwxyz");
            reveal_strlit("0123456789");
            reveal_strlit("\"`!?$?%^&*()_-+={[}]:;@'~#|\\<,>.?/");
        }
        let mut password = String::new();
        loop
            invariant
                uppers@.len() == 26,
                lowers@.len() == 26,
                digits@.len() == 10,
                symbols@.len() == 34,
                password@.len() <= 16,
            decreases 17 - password@.len(),
        {
            let opt = random_below(4);
            if opt == 0 {
                let index = random_below(26);
                password.append(uppers.substring_char(index, index + 1));
            } else if opt == 1 {
                let index = random_below(26);
                password.append(lowers.substring_char(index, index + 1));
            } else if opt == 2 {
                let index = random_below(10);
                password.append(digits.substring_char(index, index + 1));
            } else {
                let index = random_below(34);
                password.append(symbols.substring_char(index, index + 1));
            }
            if password.as_str().unicode_len() > 7 && strength_of(password.as_str()) >= 20 {
                return PlainPassword(password);
            }
            proof {
                // The length bonus alone reaches the threshold at 17
                // characters, so the loop keeps the password short of that.
                if password@.len() > 7 {
                    assert(spec_strength(password@) >= 10 + (password@.len() - 7));
                }
            }
        }
    }

    /// Whether the password meets the very strong threshold.
    pub fn is_very_strong(&self) -> (r: bool)
        ensures
            r == (spec_strength(self@) >= 40),
    {
        self.calculate_strength() >= 40
    }

    /// Whether the password meets the strong threshold.
    pub fn is_strong(&self) -> (r: bool)
        ensures
            r == (spec_strength(self@) >= 20),
    {
        self.calculate_strength() >= 20
    }

    /// Whether the password misses the strong threshold.
    pub fn is_weak(&self) -> (r: bool)
        ensures
            r == (spec_strength(self@) < 20),
    {
        self.calculate_strength() < 20
    }

    /// The strength score of the password.
    fn calculate_strength(&self) -> (r: u128)
        ensures
            r == spec_strength(self@),
    {
        strength_of(self.0.as_str())
    }

    /// Hash the password with a fresh random salt. The hash depends on that
    /// salt, so nothing is stated of the resulting text.
    pub fn encrypt(&self) -> (r: Result<EncryptedPassword, Error>)
        ensures
            r matches Err(e) ==> e is Generic,
    {
        match argon2_hash(self.0.as_str()) {
            Ok(hash) => Ok(EncryptedPassword(hash)),
            Err(e) => Err(e),
        }
    }

    /// The text of the password.
    pub fn as_ref(&self) -> (r: &str)
        ensures
            r@ == self@,
    {
        self.0.as_str()
    }

    /// The masked rendering of the password; the text itself is never
    /// shown.
    pub fn to_string(&self) -> (r: String)
        ensures
            r@ == "***"@,
    {
        "***".to_owned()
    }
}

/// An encrypted version of a plain text password: a PHC hash string.
#[derive(Debug, PartialEq, Eq)]
pub struct EncryptedPassword(String);

impl View for EncryptedPassword {
    type V = Seq<char>;

    closed spec fn view(&self) -> Seq<char> {
        self.0@
    }
}

impl Clone for EncryptedPassword {
    /// Cloning keeps the hash text.
    fn clone(&self) -> (r: Self)
        ensures
            r == *self,
    {
        EncryptedPassword(self.0.clone())
    }
}

impl Default for EncryptedPassword {
    /// The default encrypted password is empty.
    fn default() -> (r: Self)
        ensures
            r@ == Seq::<char>::empty(),
    {
        EncryptedPassword(String::new())
    }
}

impl EncryptedPassword {
    /// Creates a new `EncryptedPassword` from an existing hash string.
    pub fn new(encrypted_password: &str) -> (r: Self)
        ensures
            r@ == encrypted_password@,
    {
        EncryptedPassword(encrypted_password.to_owned())
    }

    /// Check the password against the hash: the hash function's verdict,
    /// or an error when the hash cannot be used.
    pub fn verify(&self, password: PlainPassword) -> (r: Result<bool, Error>)
        ensures
            r matches Ok(b) ==> b == argon2_matches(self@, password@),
            r matches Err(e) ==> e is Generic,
    {
        argon2_verify(self.0.as_str(), password.as_ref())
    }

    /// The text of the hash.
    pub fn as_ref(&self) -> (r: &str)
        ensures
            r@ == self@,
    {
        self.0.as_str()
    }

    /// The masked rendering of the hash; the text itself is never shown.
    pub fn to_string(&self) -> (r: String)
        ensures
            r@ == "***"@,
    {
        "***".to_owned()
    }
}

} // verus!
