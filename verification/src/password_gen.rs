//! Random passwords.

use vstd::prelude::*;
use rand::Rng;
use sha2::Digest;

verus! {

/// The characters a password is drawn from: digits three times, letters, and
/// lower-case letters twice more, so that letters and digits are more likely
/// than the special characters that end the list.
pub open spec fn password_charset() -> Seq<char> {
    seq![
        '0', '1', '2', '3', '4', '5', '6', '7', '8', '9', '0', '1', '2', '3', '4', '5',
        '6', '7', '8', '9', '0', '1', '2', '3', '4', '5', '6', '7', '8', '9', 'a', 'b',
        'c', 'd', 'e', 'f', 'g', 'h', 'i', 'j', 'k', 'l', 'm', 'n', 'o', 'p', 'q', 'r',
        's', 't', 'u', 'v', 'w', 'x', 'y', 'z', 'A', 'B', 'C', 'D', 'E', 'F', 'G', 'H',
        'I', 'J', 'K', 'L', 'M', 'N', 'O', 'P', 'Q', 'R', 'S', 'T', 'U', 'V', 'W', 'X',
        'Y', 'Z', 'a', 'b', 'c', 'd', 'e', 'f', 'g', 'h', 'i', 'j', 'k', 'l', 'm', 'n',
        'o', 'p', 'q', 'r', 's', 't', 'u', 'v', 'w', 'x', 'y', 'z', 'a', 'b', 'c', 'd',
        'e', 'f', 'g', 'h', 'i', 'j', 'k', 'l', 'm', 'n', 'o', 'p', 'q', 'r', 's', 't',
        'u', 'v', 'w', 'x', 'y', 'z', '!', '@', '#', '$', '%', '^', '&', '*', '(', ')',
        '_', '-', '+', '=', '[', ']', '{', '}', '|', ';', ':', ',', '.', '<', '>', '/',
    ]
}

fn charset() -> (c: [char; 160])
    ensures
        c@ == password_charset(),
{
    let c: [char; 160] = [
        '0', '1', '2', '3', '4', '5', '6', '7', '8', '9', '0', '1', '2', '3', '4', '5',
        '6', '7', '8', '9', '0', '1', '2', '3', '4', '5', '6', '7', '8', '9', 'a', 'b',
        'c', 'd', 'e', 'f', 'g', 'h', 'i', 'j', 'k', 'l', 'm', 'n', 'o', 'p', 'q', 'r',
        's', 't', 'u', 'v', 'w', 'x', 'y', 'z', 'A', 'B', 'C', 'D', 'E', 'F', 'G', 'H',
        'I', 'J', 'K', 'L', 'M', 'N', 'O', 'P', 'Q', 'R', 'S', 'T', 'U', 'V', 'W', 'X',
        'Y', 'Z', 'a', 'b', 'c', 'd', 'e', 'f', 'g', 'h', 'i', 'j', 'k', 'l', 'm', 'n',
        'o', 'p', 'q', 'r', 's', 't', 'u', 'v', 'w', 'x', 'y', 'z', 'a', 'b', 'c', 'd',
        'e', 'f', 'g', 'h', 'i', 'j', 'k', 'l', 'm', 'n', 'o', 'p', 'q', 'r', 's', 't',
        'u', 'v', 'w', 'x', 'y', 'z', '!', '@', '#', '$', '%', '^', '&', '*', '(', ')',
        '_', '-', '+', '=', '[', ']', '{', '}', '|', ';', ':', ',', '.', '<', '>', '/',
    ];
    assert(c@ =~= password_charset());
    c
}

/// Calls `rand::rngs::OsRng.gen_range(0..bound)`: an index below the bound,
/// drawn from the operating system's randomness.
#[verifier::external_body]
fn random_index(bound: usize) -> (i: usize)
    requires
        bound > 0,
    ensures
        i < bound,
{
    rand::rngs::OsRng.gen_range(0..bound)
}

/// Calls `sha2::Sha256::digest` on the bytes. Nothing is stated of the
/// digest: the password does not depend on it.
#[verifier::external_body]
fn sha256_digest(data: &[u8]) -> (h: [u8; 32]) {
    sha2::Sha256::digest(data).into()
}

/// Calls `rand::rngs::OsRng.fill` on the buffer: the operating system's
/// randomness is drawn into it. Nothing is stated of the bytes.
#[verifier::external_body]
fn fill_random(buf: &mut [u8; 32]) {
    rand::rngs::OsRng.fill(buf)
}

/// The password whose characters are the charset's at the given indices.
pub fn password_from_indices(indices: &Vec<usize>) -> (s: String)
    requires
        forall|i: int| 0 <= i < indices@.len() ==> #[trigger] indices@[i] < 160,
    ensures
        s@ == indices@.map_values(|i: usize| password_charset()[i as int]),
{
    let c = charset();
    let mut s = String::new();
    let mut k: usize = 0;
    while k < indices.len()
        invariant
            0 <= k <= indices@.len(),
            c@ == password_charset(),
            forall|i: int| 0 <= i < indices@.len() ==> #[trigger] indices@[i] < 160,
            s@ =~= indices@.take(k as int).map_values(|i: usize| password_charset()[i as int]),
        decreases indices@.len() - k,
    {
        crate::text::push_char(&mut s, c[indices[k]]);
        k += 1;
    }
    assert(indices@.take(indices@.len() as int) =~= indices@);
    s
}

/// A random password of the given length drawn from the charset.
pub fn get_random_string(length: usize) -> (s: String)
    ensures
        s@.len() == length,
        forall|i: int| 0 <= i < length ==> password_charset().contains(#[trigger] s@[i]),
{
    let mut indices: Vec<usize> = Vec::new();
    let mut k: usize = 0;
    while k < length
        invariant
            0 <= k <= length,
            indices@.len() == k,
            forall|i: int| 0 <= i < indices@.len() ==> #[trigger] indices@[i] < 160,
        decreases length - k,
    {
        indices.push(random_index(160));
        k += 1;
    }
    let s = password_from_indices(&indices);
    assert forall|i: int| 0 <= i < length implies password_charset().contains(#[trigger] s@[i]) by {
        assert(s@[i] == password_charset()[indices@[i] as int]);
    }
    s
}

/// A random password of the given length. The entropy text is hashed and
/// fresh randomness drawn before the password is drawn from the charset.
pub fn generate_password(entropy: String, length: usize) -> (s: String)
    ensures
        s@.len() == length,
        forall|i: int| 0 <= i < length ==> password_charset().contains(#[trigger] s@[i]),
{
    let mut hash_array = sha256_digest(entropy.as_str().as_bytes());
    fill_random(&mut hash_array);
    get_random_string(length)
}

} // verus!
