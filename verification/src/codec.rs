//! Reversible encoding between numeric record ids and short textual keys.
//!
//! Ids are written in base 62 over the alphabet `a..z`, `A..Z`, `0..9`
//! (in that order), most significant digit first, with no padding; the id 0
//! encodes as the empty string.  A public short key wraps the encoded id in a
//! four-character guard: the guard's first two characters come first, then
//! the encoded id, then the guard's last two characters.

use vstd::prelude::*;
use vstd::string::StrSliceExecFns;
use vstd::string::StringExecFns;

verus! {

/// Failure of decoding or splitting a short key.
#[derive(Clone, Copy, Debug, PartialEq, Eq, Structural)]
pub enum KeyError {
    /// The key holds a character outside the alphabet, is too short to
    /// carry a guard, or encodes a value too large for an id.
    InvalidKey,
}

/// Positional value of a character in the base-62 alphabet, or -1 if the
/// character lies outside the alphabet.
pub open spec fn char_value(c: char) -> int {
    let u = c as int;
    if 'a' as int <= u && u <= 'z' as int {
        u - 'a' as int
    } else if 'A' as int <= u && u <= 'Z' as int {
        26 + (u - 'A' as int)
    } else if '0' as int <= u && u <= '9' as int {
        52 + (u - '0' as int)
    } else {
        -1
    }
}

/// The alphabet character at position `i`, for `0 <= i < 62`.
pub open spec fn alphabet_char(i: int) -> char {
    if i < 26 {
        (('a' as int + i) as u8) as char
    } else if i < 52 {
        (('A' as int + (i - 26)) as u8) as char
    } else {
        (('0' as int + (i - 52)) as u8) as char
    }
}

/// Every character of `s` lies in the alphabet.
pub open spec fn valid_key(s: Seq<char>) -> bool {
    forall|i: int| 0 <= i < s.len() ==> char_value(s[i]) >= 0
}

/// Base-62 encoding of `n`, most significant digit first; empty for `n == 0`.
pub open spec fn encode(n: nat) -> Seq<char>
    decreases n,
{
    if n == 0 {
        Seq::empty()
    } else {
        encode(n / 62) + seq![alphabet_char(n as int % 62)]
    }
}

/// Base-62 value of `s`; characters outside the alphabet contribute -1.
pub open spec fn decode(s: Seq<char>) -> int
    decreases s.len(),
{
    if s.len() == 0 {
        0
    } else {
        decode(s.drop_last()) * 62 + char_value(s.last())
    }
}

/// `s` decodes to a value an `i64` id can carry.
pub open spec fn decode_ok(s: Seq<char>) -> bool {
    valid_key(s) && decode(s) <= i64::MAX
}

/// First two and last two characters of a short key: the guard.
pub open spec fn guard_of(s: Seq<char>) -> Seq<char> {
    s.subrange(0, 2) + s.subrange(s.len() - 2, s.len() as int)
}

/// The encoded id between the guard halves of a short key.
pub open spec fn middle_of(s: Seq<char>) -> Seq<char> {
    s.subrange(2, s.len() - 2)
}

/// What splitting a short key yields: the id and the guard, or nothing if
/// the key is too short or its middle does not decode.
pub open spec fn split_spec(s: Seq<char>) -> Option<(int, Seq<char>)> {
    if s.len() < 4 {
        None
    } else if !decode_ok(middle_of(s)) {
        None
    } else {
        Some((decode(middle_of(s)), guard_of(s)))
    }
}

/// A short key for id `id` under the four-character guard `guard`.
pub open spec fn compose_spec(id: int, guard: Seq<char>) -> Seq<char> {
    guard.subrange(0, 2) + encode(id as nat) + guard.subrange(2, 4)
}

pub proof fn lemma_char_value_alphabet(i: int)
    requires
        0 <= i < 62,
    ensures
        char_value(alphabet_char(i)) == i,
{
}

/// Every character an encoding produces lies in the alphabet.
pub proof fn lemma_encode_valid(n: nat)
    ensures
        valid_key(encode(n)),
    decreases n,
{
    if n > 0 {
        lemma_encode_valid(n / 62);
        lemma_char_value_alphabet(n as int % 62);
        assert forall|i: int| 0 <= i < encode(n).len() implies char_value(encode(n)[i]) >= 0 by {
            if i < encode(n / 62).len() {
                assert(encode(n)[i] == encode(n / 62)[i]);
            }
        }
    }
}

/// Decoding undoes encoding: the round trip over the alphabet is exact.
pub proof fn lemma_decode_encode(n: nat)
    ensures
        decode(encode(n)) == n,
    decreases n,
{
    if n > 0 {
        let m = n / 62;
        let d = n as int % 62;
        lemma_decode_encode(m);
        lemma_char_value_alphabet(d);
        assert(encode(n).drop_last() =~= encode(m));
        assert(encode(n).last() == alphabet_char(d));
        vstd::arithmetic::div_mod::lemma_fundamental_div_mod(n as int, 62);
    }
}

/// A decoded value is never negative when every character is in the alphabet.
pub proof fn lemma_decode_nonneg(s: Seq<char>)
    requires
        valid_key(s),
    ensures
        decode(s) >= 0,
    decreases s.len(),
{
    if s.len() > 0 {
        assert(valid_key(s.drop_last())) by {
            assert forall|i: int| 0 <= i < s.drop_last().len() implies char_value(
                s.drop_last()[i],
            ) >= 0 by {
                assert(s.drop_last()[i] == s[i]);
            }
        }
        lemma_decode_nonneg(s.drop_last());
        assert(char_value(s.last()) >= 0);
    }
}

/// Of a fully valid key, every prefix decodes to at most the whole.
pub proof fn lemma_decode_prefix_le(s: Seq<char>, i: int)
    requires
        0 <= i <= s.len(),
        valid_key(s),
    ensures
        decode(s.subrange(0, i)) <= decode(s),
    decreases s.len() - i,
{
    if i < s.len() {
        let p = s.subrange(0, i);
        let q = s.subrange(0, i + 1);
        assert(q.drop_last() =~= p);
        assert(q.last() == s[i]);
        assert(valid_key(p)) by {
            assert forall|j: int| 0 <= j < p.len() implies char_value(p[j]) >= 0 by {
                assert(p[j] == s[j]);
            }
        }
        lemma_decode_nonneg(p);
        assert(decode(q) == decode(p) * 62 + char_value(s[i]));
        assert(decode(p) * 62 >= decode(p));
        lemma_decode_prefix_le(s, i + 1);
    } else {
        assert(s.subrange(0, i) =~= s);
    }
}

/// Splitting recovers exactly what composing put in.
pub proof fn lemma_split_compose(id: int, guard: Seq<char>)
    requires
        0 <= id <= i64::MAX,
        guard.len() == 4,
    ensures
        split_spec(compose_spec(id, guard)) == Some((id, guard)),
{
    let s = compose_spec(id, guard);
    let e = encode(id as nat);
    assert(s.len() == 4 + e.len());
    assert(middle_of(s) =~= e);
    assert(guard_of(s) =~= guard);
    lemma_encode_valid(id as nat);
    lemma_decode_encode(id as nat);
}

/// Positional value of a character, computed; -1 outside the alphabet.
pub fn char_value_exec(c: char) -> (v: i64)
    ensures
        v == char_value(c),
{
    let u = c as u32;
    if 97 <= u && u <= 122 {
        (u - 97) as i64
    } else if 65 <= u && u <= 90 {
        26 + (u - 65) as i64
    } else if 48 <= u && u <= 57 {
        52 + (u - 48) as i64
    } else {
        -1
    }
}

/// The alphabet character at position `i`.
pub fn alphabet_char_exec(i: u64) -> (c: char)
    requires
        i < 62,
    ensures
        c == alphabet_char(i as int),
{
    let b: u8 = if i < 26 {
        97 + i as u8
    } else if i < 52 {
        65 + (i as u8 - 26)
    } else {
        48 + (i as u8 - 52)
    };
    b as char
}

/// Relies on `String`'s `FromIterator<char>` impl: collecting characters
/// yields the string of exactly those characters, in order.
#[verifier::external_body]
pub(crate) fn chars_to_string(v: &Vec<char>) -> (s: String)
    ensures
        s@ == v@,
{
    v.iter().collect()
}

/// Appends the base-62 digits of `n`, most significant first, to `out`.
fn push_encoded(n: u64, out: &mut Vec<char>)
    ensures
        final(out)@ == old(out)@ + encode(n as nat),
    decreases n,
{
    if n > 0 {
        push_encoded(n / 62, out);
        let c = alphabet_char_exec(n % 62);
        out.push(c);
        proof {
            assert(out@ =~= old(out)@ + encode(n as nat));
        }
    } else {
        proof {
            assert(out@ =~= old(out)@ + encode(0));
        }
    }
}

/// Writes a nonnegative id in base 62 over the alphabet; 0 becomes "".
pub fn id_to_key(id: i64) -> (r: String)
    requires
        0 <= id,
    ensures
        r@ == encode(id as nat),
{
    let mut digits: Vec<char> = Vec::new();
    push_encoded(id as u64, &mut digits);
    chars_to_string(&digits)
}

/// Reads a base-62 key back into an id; rejects characters outside the
/// alphabet and values beyond what an `i64` carries.
pub fn key_to_id(key: &str) -> (r: Result<i64, KeyError>)
    ensures
        match r {
            Ok(v) => decode_ok(key@) && v == decode(key@),
            Err(_) => !decode_ok(key@),
        },
{
    let n = key.unicode_len();
    let mut acc: i64 = 0;
    let mut i: usize = 0;
    while i < n
        invariant
            i <= n,
            n == key@.len(),
            valid_key(key@.subrange(0, i as int)),
            acc == decode(key@.subrange(0, i as int)),
            0 <= acc,
        decreases n - i,
    {
        let c = key.get_char(i);
        let v = char_value_exec(c);
        if v < 0 {
            proof {
                assert(char_value(key@[i as int]) < 0);
            }
            return Err(KeyError::InvalidKey);
        }
        let shifted = match acc.checked_mul(62) {
            Some(x) => x,
            None => {
                proof {
                    overflow_implies_not_ok(key@, i as int, acc as int, char_value(c));
                }
                return Err(KeyError::InvalidKey);
            },
        };
        let next = match shifted.checked_add(v) {
            Some(x) => x,
            None => {
                proof {
                    overflow_implies_not_ok(key@, i as int, acc as int, char_value(c));
                }
                return Err(KeyError::InvalidKey);
            },
        };
        proof {
            let p = key@.subrange(0, i as int);
            let q = key@.subrange(0, i as int + 1);
            assert(q.drop_last() =~= p);
            assert(q.last() == key@[i as int]);
            assert forall|j: int| 0 <= j < q.len() implies char_value(q[j]) >= 0 by {
                assert(q[j] == key@[j]);
                if j < i as int {
                    assert(p[j] == key@[j]);
                }
            }
        }
        acc = next;
        i = i + 1;
    }
    proof {
        assert(key@.subrange(0, n as int) =~= key@);
    }
    Ok(acc)
}

/// The value of the key up to and including position `i` already exceeds
/// what an id can carry, so the whole key cannot decode into one.
proof fn overflow_implies_not_ok(s: Seq<char>, i: int, acc: int, v: int)
    requires
        0 <= i < s.len(),
        valid_key(s.subrange(0, i)),
        acc == decode(s.subrange(0, i)),
        0 <= v,
        v == char_value(s[i]),
        acc * 62 + v > i64::MAX,
    ensures
        !decode_ok(s),
{
    if valid_key(s) {
        let p = s.subrange(0, i);
        let q = s.subrange(0, i + 1);
        assert(q.drop_last() =~= p);
        assert(q.last() == s[i]);
        assert(decode(q) == acc * 62 + v);
        lemma_decode_prefix_le(s, i + 1);
    }
}

/// Takes the first two and last two characters of a short key as the guard
/// and decodes the middle as the id.
pub fn split_short_key(short_key: &str) -> (r: Result<(i64, String), KeyError>)
    ensures
        match r {
            Ok((id, guard)) => split_spec(short_key@) == Some((id as int, guard@)),
            Err(_) => split_spec(short_key@) is None,
        },
{
    let n = short_key.unicode_len();
    if n < 4 {
        return Err(KeyError::InvalidKey);
    }
    let front = short_key.substring_char(0, 2);
    let back = short_key.substring_char(n - 2, n);
    let middle = short_key.substring_char(2, n - 2);
    let id = match key_to_id(middle) {
        Ok(id) => id,
        Err(e) => {
            return Err(e);
        },
    };
    proof {
        lemma_decode_nonneg(middle@);
    }
    let guard = front.to_owned().concat(back);
    Ok((id, guard))
}

/// Wraps the encoded id in the four-character guard, two characters on
/// each side.
pub fn compose_short_key(id: i64, guard: &str) -> (r: String)
    requires
        0 <= id,
        guard@.len() == 4,
    ensures
        r@ == compose_spec(id as int, guard@),
{
    let front = guard.substring_char(0, 2);
    let back = guard.substring_char(2, 4);
    let encoded = id_to_key(id);
    let r = front.to_owned().concat(encoded.as_str()).concat(back);
    proof {
        assert(r@ =~= compose_spec(id as int, guard@));
    }
    r
}

} // verus!
