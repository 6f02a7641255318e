//! Random store parameters: the database subfolder name and the store
//! passphrase, both alphanumeric strings drawn from a freshly seeded
//! generator.

use vstd::prelude::*;

verus! {

/// `rand::rngs::StdRng`, the cryptographically seeded generator the store
/// parameters are drawn from.
#[verifier::external_type_specification]
#[verifier::external_body]
pub struct ExStdRng(rand::rngs::StdRng);

/// True for the ASCII codes of `0`-`9`, `A`-`Z` and `a`-`z`.
pub open spec fn is_alnum_byte(b: u8) -> bool {
    (48 <= b <= 57) || (65 <= b <= 90) || (97 <= b <= 122)
}

/// True for the characters `0`-`9`, `A`-`Z` and `a`-`z`.
pub open spec fn is_alnum_char(c: char) -> bool {
    ('0' <= c <= '9') || ('A' <= c <= 'Z') || ('a' <= c <= 'z')
}

/// True when every character of `s` is alphanumeric.
pub open spec fn all_alnum(s: Seq<char>) -> bool {
    forall|i: int| 0 <= i < s.len() ==> is_alnum_char(s[i])
}

/// Relies on rand::SeedableRng::from_entropy: a generator seeded from the
/// operating system's entropy source. Nothing is promised of its output.
#[verifier::external_body]
fn fresh_std_rng() -> rand::rngs::StdRng {
    <rand::rngs::StdRng as rand::SeedableRng>::from_entropy()
}

/// Relies on rand::distributions::Alphanumeric: sampling draws a byte from
/// the charset `A`-`Z`, `a`-`z`, `0`-`9` and nothing else.
#[verifier::external_body]
fn sample_alnum_byte(rng: &mut rand::rngs::StdRng) -> (b: u8)
    ensures
        is_alnum_byte(b),
{
    rand::Rng::sample(rng, rand::distributions::Alphanumeric)
}

/// Relies on String::push: it appends the given character to the end of
/// the string and does nothing else.
pub assume_specification[ String::push ](s: &mut String, ch: char)
    ensures
        final(s)@ == old(s)@.push(ch),
;

/// Draw `len` alphanumeric characters from `rng`.
fn random_alnum_string(rng: &mut rand::rngs::StdRng, len: usize) -> (s: String)
    ensures
        s@.len() == len,
        all_alnum(s@),
{
    let mut s = String::new();
    let mut i: usize = 0;
    while i < len
        invariant
            0 <= i <= len,
            s@.len() == i,
            all_alnum(s@),
        decreases len - i,
    {
        let b = sample_alnum_byte(rng);
        let c = b as char;
        assert(is_alnum_char(c));
        s.push(c);
        i = i + 1;
    }
    s
}

/// Generate the two random store parameters of a fresh client session:
/// a 7-character database subfolder name and a 32-character passphrase.
pub fn generate_store_params() -> (r: (String, String))
    ensures
        r.0@.len() == 7 && all_alnum(r.0@),
        r.1@.len() == 32 && all_alnum(r.1@),
{
    let mut rng = fresh_std_rng();
    let subfolder = random_alnum_string(&mut rng, 7);
    let passphrase = random_alnum_string(&mut rng, 32);
    (subfolder, passphrase)
}

} // verus!
