//! Domain value objects: subscription tokens for double opt-in confirmation
//! and administrator passwords.

use vstd::prelude::*;
use vstd::string::StrSliceExecFns;
use vstd::string::StringExecFns;
use vstd::utf8::encode_utf8;
use vstd::utf8::is_ascii_chars;
use vstd::utf8::is_ascii_chars_encode_utf8;

verus! {

/// What `char::is_alphanumeric` returns for a character. The full definition
/// walks the Unicode `Alphabetic` and `Number` category tables, so it is left
/// uninterpreted; the trusted wrapper below ties it to the standard library.
pub uninterp spec fn unicode_alphanumeric(c: char) -> bool;

/// How many extended grapheme clusters a character sequence divides into
/// under Unicode text segmentation. The segmentation rules are left
/// uninterpreted; the trusted wrapper below ties the name to the
/// `unicode-segmentation` crate.
pub uninterp spec fn grapheme_count(s: Seq<char>) -> nat;

/// The ASCII letters and digits.
pub open spec fn ascii_alphanumeric_char(c: char) -> bool {
    'a' <= c <= 'z' || 'A' <= c <= 'Z' || '0' <= c <= '9'
}

/// Relies on `char::is_alphanumeric`: true exactly for characters in the
/// Unicode `Alphabetic` or `Number` categories, which is a function of the
/// character alone and includes the ASCII letters and digits.
#[verifier::external_body]
fn is_alphanumeric_char(c: char) -> (r: bool)
    ensures
        r == unicode_alphanumeric(c),
        ascii_alphanumeric_char(c) ==> r,
{
    c.is_alphanumeric()
}

/// Relies on `unicode_segmentation::UnicodeSegmentation::graphemes` with
/// extended clusters: it splits a string into its grapheme clusters, a
/// function of the characters alone; this returns how many there are.
#[verifier::external_body]
fn count_graphemes(s: &str) -> (n: usize)
    ensures
        n == grapheme_count(s@),
{
    unicode_segmentation::UnicodeSegmentation::graphemes(s, true).count()
}

/// Relies on `rand::thread_rng`: a handle to the thread-local random number
/// generator. Nothing is assumed about the values it produces.
#[verifier::external_body]
fn new_thread_rng() -> rand::rngs::ThreadRng {
    rand::thread_rng()
}

/// The thread-local generator type of the `rand` crate, opaque to the
/// verifier; values of it are only threaded through to `sample_alphanumeric`.
#[verifier::external_type_specification]
#[verifier::external_body]
pub struct ExThreadRng(rand::rngs::ThreadRng);

/// Relies on `rand::distributions::Alphanumeric`: sampling it yields a byte
/// drawn from the ASCII ranges `A-Z`, `a-z` and `0-9`, whichever random value
/// the generator produces.
#[verifier::external_body]
fn sample_alphanumeric(rng: &mut rand::rngs::ThreadRng) -> (b: u8)
    ensures
        97 <= b <= 122 || 65 <= b <= 90 || 48 <= b <= 57,
{
    rand::Rng::sample(rng, rand::distributions::Alphanumeric)
}

/// Relies on `String::from_utf8`: a vector of ASCII bytes is valid UTF-8 and
/// becomes the string with exactly those bytes, one character per byte.
#[verifier::external_body]
fn ascii_bytes_to_string(bytes: Vec<u8>) -> (s: String)
    requires
        forall|i: int| 0 <= i < bytes@.len() ==> bytes@[i] < 128,
    ensures
        s@.len() == bytes@.len(),
        forall|i: int| 0 <= i < s@.len() ==> s@[i] == bytes@[i] as char,
{
    String::from_utf8(bytes).unwrap()
}

/// A syntactically valid subscription token: 25 bytes in UTF-8, all of its
/// characters alphanumeric.
pub open spec fn valid_subscription_token(s: Seq<char>) -> bool {
    &&& encode_utf8(s).len() == 25
    &&& forall|i: int| 0 <= i < s.len() ==> unicode_alphanumeric(#[trigger] s[i])
}

/// The secret a subscriber must present to confirm their subscription.
#[derive(Debug)]
pub struct SubscriptionToken {
    token: String,
}

impl View for SubscriptionToken {
    type V = Seq<char>;

    /// The character sequence of the token.
    closed spec fn view(&self) -> Seq<char> {
        self.token@
    }
}

impl SubscriptionToken {
    /// Validates a raw string as a subscription token: accepted exactly when
    /// it is 25 bytes long and entirely alphanumeric.
    pub fn parse(s: String) -> (r: Result<SubscriptionToken, String>)
        ensures
            r is Ok <==> valid_subscription_token(s@),
            r matches Ok(t) ==> t@ == s@,
    {
        let t = s.as_str();
        let is_25_characters = t.as_bytes().len() == 25;
        let contains_only_alphanumerics = all_alphanumeric(t);

        if is_25_characters && contains_only_alphanumerics {
            Ok(SubscriptionToken { token: s })
        } else {
            Err(s.concat(" is not a valid subscription token!"))
        }
    }

    /// Draws a fresh 25-character alphanumeric token from the thread-local
    /// random number generator.
    pub fn generate() -> (t: SubscriptionToken)
        ensures
            valid_subscription_token(t@),
    {
        let mut rng = new_thread_rng();
        let mut bytes: Vec<u8> = Vec::new();
        while bytes.len() < 25
            invariant
                bytes@.len() <= 25,
                forall|i: int| 0 <= i < bytes@.len() ==> {
                    ||| 97 <= #[trigger] bytes@[i] <= 122
                    ||| 65 <= bytes@[i] <= 90
                    ||| 48 <= bytes@[i] <= 57
                },
            decreases 25 - bytes@.len(),
        {
            let b = sample_alphanumeric(&mut rng);
            bytes.push(b);
        }
        let s = ascii_bytes_to_string(bytes);
        proof {
            assert(forall|i: int|
                0 <= i < s@.len() ==> ascii_alphanumeric_char(#[trigger] s@[i]));
            assert(is_ascii_chars(s@));
            is_ascii_chars_encode_utf8(s@);
        }
        // Checking the fresh token also carries the wrapper's guarantee that
        // ASCII letters and digits count as alphanumeric into the proof.
        let confirmed = all_alphanumeric(s.as_str());
        assert(confirmed);
        SubscriptionToken { token: s }
    }

    /// The underlying string.
    pub fn as_ref(&self) -> (r: &str)
        ensures
            r@ == self@,
    {
        self.token.as_str()
    }

    /// The underlying string, as an owned-string reference.
    pub fn as_string(&self) -> (r: &String)
        ensures
            r@ == self@,
    {
        &self.token
    }
}

/// True exactly when every character of the string is alphanumeric.
fn all_alphanumeric(s: &str) -> (r: bool)
    ensures
        r == forall|i: int| 0 <= i < s@.len() ==> unicode_alphanumeric(#[trigger] s@[i]),
        (forall|i: int| 0 <= i < s@.len() ==> ascii_alphanumeric_char(#[trigger] s@[i])) ==> r,
{
    let n = s.unicode_len();
    for j in 0..n
        invariant
            n == s@.len(),
            forall|i: int| 0 <= i < j ==> unicode_alphanumeric(#[trigger] s@[i]),
    {
        let c = s.get_char(j);
        if !is_alphanumeric_char(c) {
            return false;
        }
    }
    true
}

/// A syntactically valid administrator password: strictly more than 12
/// grapheme clusters.
pub open spec fn valid_admin_password(s: Seq<char>) -> bool {
    grapheme_count(s) > 12
}

/// An administrator password that met the length policy.
#[derive(Debug)]
pub struct AdminPassword {
    password: String,
}

impl View for AdminPassword {
    type V = Seq<char>;

    /// The character sequence of the password.
    closed spec fn view(&self) -> Seq<char> {
        self.password@
    }
}

impl AdminPassword {
    /// Validates a raw password: accepted exactly when it is longer than 12
    /// grapheme clusters, so that trivially short secrets are rejected.
    pub fn parse(s: String) -> (r: Result<AdminPassword, String>)
        ensures
            r is Ok <==> valid_admin_password(s@),
            r matches Ok(p) ==> p@ == s@,
    {
        let is_too_short = count_graphemes(s.as_str()) <= 12;

        if is_too_short {
            Err(String::from_str("Passwords must be longer than 12 characters."))
        } else {
            Ok(AdminPassword { password: s })
        }
    }

    /// The underlying secret string.
    pub fn expose_secret(&self) -> (r: &String)
        ensures
            r@ == self@,
    {
        &self.password
    }
}

} // verus!
