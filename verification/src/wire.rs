use vstd::prelude::*;

use base64::Engine as _;
use base64::engine::general_purpose;

verus! {

/// The text-safe (standard 64-symbol alphabet, padded) encoding of a byte
/// sequence, as the outside encoder produces it.
pub uninterp spec fn b64_of(bytes: Seq<u8>) -> Seq<char>;

/// Relies on base64's standard engine: encoding yields the canonical padded
/// text form of the input bytes.
#[verifier::external_body]
pub fn b64_encode(s: &str) -> (r: String)
    ensures
        r@ == b64_of(vstd::utf8::encode_utf8(s@)),
{
    general_purpose::STANDARD.encode(s.as_bytes())
}

/// Relies on base64's standard engine, which accepts exactly the canonical
/// padded encodings (canonical padding required, no trailing bits), and on
/// String::from_utf8: decoding succeeds exactly on the canonical encoding of
/// the UTF-8 bytes of some string, and returns that string.
#[verifier::external_body]
pub fn b64_decode(s: &str) -> (r: Result<String, String>)
    ensures
        r matches Ok(t) ==> s@ == b64_of(vstd::utf8::encode_utf8(t@)),
        r matches Ok(t) ==> forall|u: Seq<char>|
            s@ == b64_of(vstd::utf8::encode_utf8(u)) ==> u == t@,
        (exists|u: Seq<char>| s@ == b64_of(vstd::utf8::encode_utf8(u))) ==> r is Ok,
{
    match general_purpose::STANDARD.decode(s.as_bytes()) {
        Ok(bytes) => match String::from_utf8(bytes) {
            Ok(t) => Ok(t),
            Err(e) => Err(format!("{}", e)),
        },
        Err(e) => Err(format!("{}", e)),
    }
}

/// Relies on std's character iterator: collecting a vector of characters
/// yields the string with exactly those characters.
#[verifier::external_body]
pub fn chars_to_string(v: &Vec<char>) -> (r: String)
    ensures
        r@ == v@,
{
    v.iter().collect()
}

/// The characters of a string slice, one by one.
pub fn str_to_chars(s: &str) -> (r: Vec<char>)
    ensures
        r@ == s@,
{
    let n = s.unicode_len();
    let mut out: Vec<char> = Vec::new();
    let mut i: usize = 0;
    while i < n
        invariant
            n == s@.len(),
            0 <= i <= n,
            out@ == s@.take(i as int),
        decreases n - i,
    {
        out.push(s.get_char(i));
        proof {
            assert(s@.take(i as int + 1) =~= s@.take(i as int).push(s@[i as int]));
        }
        i = i + 1;
    }
    proof {
        assert(s@.take(n as int) =~= s@);
    }
    out
}

} // verus!
