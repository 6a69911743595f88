//! Random test-data generators: integers, names, money amounts and currency
//! codes, drawn from the process's thread-local random generator.

use vstd::prelude::*;

use rand::Rng;

verus! {

/// Relies on `rand::Rng::gen_range` over `rand::thread_rng`: returns a value
/// uniformly distributed in the half-open range `[min, max)`, and panics
/// only on an empty range, which the precondition rules out.
#[verifier::external_body]
pub fn random_int(min: i64, max: i64) -> (r: i64)
    requires
        min < max,
    ensures
        min <= r < max,
{
    let mut rng = rand::thread_rng();
    rng.gen_range(min..max)
}

/// Relies on `String::from_utf8`: bytes that are all ASCII are valid UTF-8
/// and decode to exactly one char per byte, so the call cannot fail.
#[verifier::external_body]
fn ascii_string(bytes: Vec<u8>) -> (r: String)
    requires
        forall|i: int| 0 <= i < bytes@.len() ==> bytes@[i] < 128,
    ensures
        r@.len() == bytes@.len(),
        forall|i: int| 0 <= i < bytes@.len() ==> r@[i] == bytes@[i] as char,
{
    String::from_utf8(bytes).unwrap()
}

/// A random string of `len` lowercase letters.
pub fn random_string(len: usize) -> (r: String)
    ensures
        r@.len() == len,
        forall|i: int| 0 <= i < r@.len() ==> 'a' <= #[trigger] r@[i] <= 'y',
{
    let mut bytes: Vec<u8> = Vec::new();
    let mut k: usize = 0;
    while k < len
        invariant
            k <= len,
            bytes@.len() == k,
            forall|i: int| 0 <= i < k ==> 97 <= #[trigger] bytes@[i] < 122,
        decreases len - k,
    {
        let c = random_int(97, 122);
        bytes.push(c as u8);
        k = k + 1;
    }
    ascii_string(bytes)
}

/// A random six-letter owner name.
pub fn random_owner() -> (r: String)
    ensures
        r@.len() == 6,
        forall|i: int| 0 <= i < r@.len() ==> 'a' <= #[trigger] r@[i] <= 'y',
{
    random_string(6)
}

/// A random money amount in minor units, within `[0, 1000)`.
pub fn random_money() -> (r: i64)
    ensures
        0 <= r < 1000,
{
    random_int(0, 1000)
}

/// The currency codes `random_currency` draws from.
pub open spec fn is_currency_code(s: Seq<char>) -> bool {
    s == "USD"@ || s == "EUR"@ || s == "JPY"@ || s == "CNY"@ || s == "KRW"@
}

/// One of five fixed currency codes, chosen at random.
pub fn random_currency() -> (r: String)
    ensures
        is_currency_code(r@),
{
    let idx = random_int(0, 5);
    if idx == 0 {
        "USD".to_owned()
    } else if idx == 1 {
        "EUR".to_owned()
    } else if idx == 2 {
        "JPY".to_owned()
    } else if idx == 3 {
        "CNY".to_owned()
    } else {
        "KRW".to_owned()
    }
}

} // verus!
