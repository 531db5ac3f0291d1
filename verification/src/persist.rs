//! High-score persistence: a single byte kept as a decimal string under the
//! key `"score"` in the durable key-value store.
//!
//! Reads fail soft: a missing key, a malformed string, or a value out of
//! range all yield a score of zero. The decimal codec is verified; only the
//! two narrow calls into the store are trusted.

use vstd::prelude::*;

verus! {

/// The persisted record: the best round length ever achieved.
#[derive(Copy, Clone)]
pub struct State {
    pub score: u8,
}

/// ASCII decimal digit.
pub open spec fn is_digit(b: u8) -> bool {
    0x30 <= b <= 0x39
}

pub open spec fn all_digits(s: Seq<u8>) -> bool {
    forall|j: int| 0 <= j < s.len() ==> is_digit(s[j])
}

/// Value of a digit string read as a decimal number.
pub open spec fn dec_value(s: Seq<u8>) -> int
    decreases s.len(),
{
    if s.len() == 0 {
        0
    } else {
        dec_value(s.drop_last()) * 10 + (s.last() - 0x30)
    }
}

/// How a digit string parses as a `u8`: at least one digit, nothing but
/// digits, value at most 255.
pub open spec fn spec_parse_digits(s: Seq<u8>) -> Option<u8> {
    if s.len() == 0 {
        None
    } else if !all_digits(s) {
        None
    } else if dec_value(s) > 255 {
        None
    } else {
        Some(dec_value(s) as u8)
    }
}

/// How a whole stored string parses as a `u8`: an optional leading `+`
/// sign, then digits.
pub open spec fn spec_parse_u8(s: Seq<u8>) -> Option<u8> {
    if s.len() > 0 && s[0] == 0x2b {
        spec_parse_digits(s.subrange(1, s.len() as int))
    } else {
        spec_parse_digits(s)
    }
}

/// The fail-soft reading of a stored string: its parsed value, or zero.
pub open spec fn spec_score_of_bytes(s: Seq<u8>) -> u8 {
    match spec_parse_u8(s) {
        Some(v) => v,
        None => 0,
    }
}

/// The canonical decimal form of a score, as the store receives it: no
/// sign, no leading zeros.
pub open spec fn spec_dec_repr(n: u8) -> Seq<u8> {
    if n < 10 {
        seq![(0x30 + n) as u8]
    } else if n < 100 {
        seq![(0x30 + n / 10) as u8, (0x30 + n % 10) as u8]
    } else {
        seq![(0x30 + n / 100) as u8, (0x30 + (n / 10) % 10) as u8, (0x30 + n % 10) as u8]
    }
}

proof fn lemma_dec_value_nonneg(s: Seq<u8>)
    requires
        all_digits(s),
    ensures
        dec_value(s) >= 0,
    decreases s.len(),
{
    if s.len() > 0 {
        assert(all_digits(s.drop_last()));
        lemma_dec_value_nonneg(s.drop_last());
    }
}

/// A decimal number only grows as digits are appended: once a prefix is
/// over 255, the whole string is.
proof fn lemma_dec_value_prefix_bound(s: Seq<u8>, i: int)
    requires
        all_digits(s),
        0 <= i <= s.len(),
    ensures
        dec_value(s.take(i)) <= dec_value(s),
    decreases s.len() - i,
{
    if i == s.len() {
        assert(s.take(i) =~= s);
    } else {
        assert(s.take(i + 1).drop_last() =~= s.take(i));
        assert(s.take(i + 1).last() == s[i]);
        assert(all_digits(s.take(i)));
        lemma_dec_value_nonneg(s.take(i));
        assert(dec_value(s.take(i + 1)) == dec_value(s.take(i)) * 10 + (s[i] - 0x30));
        lemma_dec_value_prefix_bound(s, i + 1);
    }
}

/// Parse a stored byte string exactly as `u8` decimal parsing does:
/// optional `+`, at least one digit, value at most 255.
pub fn parse_u8(bytes: &Vec<u8>) -> (r: Option<u8>)
    ensures
        r == spec_parse_u8(bytes@),
{
    let n: usize = bytes.len();
    if n == 0 {
        return None;
    }
    let start: usize = if bytes[0] == 0x2b { 1 } else { 0 };
    let ghost digits: Seq<u8> = bytes@.subrange(start as int, n as int);
    proof {
        if start == 0 {
            assert(digits =~= bytes@);
        }
    }
    if n == start {
        return None;
    }
    let mut acc: u32 = 0;
    let mut i: usize = start;
    while i < n
        invariant
            start <= i <= n,
            start <= 1,
            start < n,
            n == bytes@.len(),
            start == 1 <==> bytes@[0] == 0x2b,
            digits == bytes@.subrange(start as int, n as int),
            all_digits(digits.take(i as int - start as int)),
            acc == dec_value(digits.take(i as int - start as int)),
            acc <= 255,
        decreases n - i,
    {
        let b: u8 = bytes[i];
        proof {
            assert(digits[i as int - start as int] == b);
        }
        if b < 0x30 || b > 0x39 {
            assert(!all_digits(digits));
            return None;
        }
        let d: u32 = (b - 0x30) as u32;
        let next: u32 = acc * 10 + d;
        proof {
            let k = i as int - start as int;
            assert(digits.take(k + 1).drop_last() =~= digits.take(k));
            assert(digits.take(k + 1).last() == digits[k]);
            assert(dec_value(digits.take(k + 1)) == acc * 10 + (b - 0x30));
        }
        if next > 255 {
            proof {
                if start == 0 {
                    assert(digits =~= bytes@);
                }
                if all_digits(digits) {
                    lemma_dec_value_prefix_bound(digits, i as int - start as int + 1);
                    assert(dec_value(digits) > 255);
                }
                assert(spec_parse_digits(digits) == None::<u8>);
            }
            return None;
        }
        acc = next;
        i = i + 1;
    }
    proof {
        assert(digits.take(n as int - start as int) =~= digits);
    }
    Some(acc as u8)
}

/// Write a score in its canonical decimal form.
pub fn format_score(score: u8) -> (r: Vec<u8>)
    ensures
        r@ == spec_dec_repr(score),
{
    let mut v: Vec<u8> = Vec::new();
    if score >= 100 {
        v.push(0x30 + score / 100);
        v.push(0x30 + (score / 10) % 10);
        v.push(0x30 + score % 10);
        proof {
            assert(v@ =~= spec_dec_repr(score));
        }
    } else if score >= 10 {
        v.push(0x30 + score / 10);
        v.push(0x30 + score % 10);
        proof {
            assert(score / 10 == (score / 10) % 10);
            assert(v@ =~= spec_dec_repr(score));
        }
    } else {
        v.push(0x30 + score);
        proof {
            assert(v@ =~= spec_dec_repr(score));
        }
    }
    v
}

/// Writing a score and reading it back yields the same score, and reading
/// an absent record yields zero.
pub proof fn lemma_score_round_trip(score: u8)
    ensures
        spec_parse_u8(spec_dec_repr(score)) == Some(score),
        spec_score_of_bytes(spec_dec_repr(score)) == score,
{
    let s = spec_dec_repr(score);
    assert(dec_value(Seq::<u8>::empty()) == 0);
    if score < 10 {
        assert(s.drop_last() =~= Seq::<u8>::empty());
        assert(dec_value(s) == dec_value(s.drop_last()) * 10 + (s.last() - 0x30));
        assert(dec_value(s) == score);
    } else if score < 100 {
        let d1 = seq![(0x30 + score / 10) as u8];
        assert(s.drop_last() =~= d1);
        assert(d1.drop_last() =~= Seq::<u8>::empty());
        assert(dec_value(d1) == dec_value(d1.drop_last()) * 10 + (d1.last() - 0x30));
        assert(dec_value(d1) == score / 10);
        assert(dec_value(s) == dec_value(s.drop_last()) * 10 + (s.last() - 0x30));
        assert(dec_value(s) == (score / 10) * 10 + score % 10);
        assert((score / 10) * 10 + score % 10 == score);
    } else {
        let d2 = seq![(0x30 + score / 100) as u8, (0x30 + (score / 10) % 10) as u8];
        let d1 = seq![(0x30 + score / 100) as u8];
        assert(s.drop_last() =~= d2);
        assert(d2.drop_last() =~= d1);
        assert(d1.drop_last() =~= Seq::<u8>::empty());
        assert(dec_value(d1) == dec_value(d1.drop_last()) * 10 + (d1.last() - 0x30));
        assert(dec_value(d1) == score / 100);
        assert(dec_value(d2) == dec_value(d2.drop_last()) * 10 + (d2.last() - 0x30));
        assert(dec_value(d2) == (score / 100) * 10 + (score / 10) % 10);
        assert(dec_value(s) == dec_value(s.drop_last()) * 10 + (s.last() - 0x30));
        assert(dec_value(s) == ((score / 100) * 10 + (score / 10) % 10) * 10 + score % 10);
        assert(((score / 100) * 10 + (score / 10) % 10) * 10 + score % 10 == score);
    }
    assert(is_digit(s[0]) && s[0] != 0x2b);
}

/// Relies on `quad_storage::STORAGE` and `LocalStorage::get`: hands back
/// the string stored under the key, if any, as bytes. A store that cannot
/// be read counts as holding nothing.
#[verifier::external_body]
fn storage_get_raw(key: &str) -> (r: Option<Vec<u8>>) {
    match quad_storage::STORAGE.lock() {
        Ok(storage) => storage.get(key).map(|s| s.into_bytes()),
        Err(_) => None,
    }
}

/// Relies on `quad_storage::STORAGE` and `LocalStorage::set`: stores the
/// bytes as a string under the key. Fire and forget: nothing is promised
/// of the store's contents.
#[verifier::external_body]
fn storage_set_raw(key: &str, value: &Vec<u8>) {
    if let Ok(mut storage) = quad_storage::STORAGE.lock() {
        if let Ok(s) = String::from_utf8(value.clone()) {
            storage.set(key, &s);
        }
    }
}

/// The fail-soft interpretation of whatever the store handed back.
pub fn score_from_stored(stored: &Option<Vec<u8>>) -> (score: u8)
    ensures
        stored is None ==> score == 0,
        stored matches Some(b) ==> score == spec_score_of_bytes(b@),
{
    match stored {
        None => 0,
        Some(b) => match parse_u8(b) {
            Some(v) => v,
            None => 0,
        },
    }
}

/// Load the persisted high score; any read or parse failure yields zero.
/// The stored value itself is outside the logic's reach, so all this can
/// promise is that the result is the fail-soft reading of whatever the
/// store held; `score_from_stored` carries the exact contract.
pub fn load_state() -> State {
    let stored = storage_get_raw("score");
    let score = score_from_stored(&stored);
    State { score }
}

/// Persist the high score as a decimal string under the key `"score"`.
pub fn save_state(state: &State) {
    let digits = format_score(state.score);
    storage_set_raw("score", &digits);
}

} // verus!
