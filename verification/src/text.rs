//! Text helpers for the query filters and the update check: ASCII case
//! folding and substring search.

use vstd::prelude::*;

verus! {

/// A byte with ASCII upper-case letters folded to lower case.
pub open spec fn fold_byte(b: u8) -> u8 {
    if 65 <= b <= 90 {
        (b + 32) as u8
    } else {
        b
    }
}

/// A byte string with ASCII upper-case letters folded to lower case.
pub open spec fn fold_bytes(s: Seq<u8>) -> Seq<u8> {
    s.map_values(|b: u8| fold_byte(b))
}

/// `needle` occurs contiguously somewhere in `hay`.
pub open spec fn has_substring(hay: Seq<u8>, needle: Seq<u8>) -> bool {
    exists|i: int|
        0 <= i && i + needle.len() <= hay.len() && #[trigger] hay.subrange(i, i + needle.len())
            == needle
}

/// The UTF-8 bytes of a string value.
pub open spec fn bytes_of(s: Seq<char>) -> Seq<u8> {
    vstd::utf8::encode_utf8(s)
}

/// Case-insensitive (ASCII) substring test, the meaning of the `contains`
/// filters of the list endpoints.
pub open spec fn contains_ci(hay: Seq<char>, needle: Seq<char>) -> bool {
    has_substring(fold_bytes(bytes_of(hay)), fold_bytes(bytes_of(needle)))
}

fn fold_byte_ex(b: u8) -> (r: u8)
    ensures
        r == fold_byte(b),
{
    if 65 <= b && b <= 90 {
        b + 32
    } else {
        b
    }
}

/// Whether the folded window of `hay` starting at `i` equals the folded `needle`.
fn window_matches(hay: &[u8], needle: &[u8], i: usize) -> (r: bool)
    requires
        i + needle@.len() <= hay@.len(),
    ensures
        r == (fold_bytes(hay@).subrange(i as int, i as int + fold_bytes(needle@).len() as int)
            == fold_bytes(needle@)),
{
    let ghost window = fold_bytes(hay@).subrange(
        i as int,
        i as int + fold_bytes(needle@).len() as int,
    );
    let h = hay.len();
    let n = needle.len();
    let mut j: usize = 0;
    while j < n
        invariant
            h == hay@.len(),
            n == needle@.len(),
            i + n <= h,
            0 <= j <= n,
            window == fold_bytes(hay@).subrange(
                i as int,
                i as int + fold_bytes(needle@).len() as int,
            ),
            forall|k: int| 0 <= k < j ==> fold_byte(hay@[i + k]) == fold_byte(needle@[k]),
        decreases n - j,
    {
        let hb = hay[i + j];
        let nb = needle[j];
        if fold_byte_ex(hb) != fold_byte_ex(nb) {
            proof {
                assert(window[j as int] == fold_byte(hay@[i + j]));
                assert(fold_bytes(needle@)[j as int] == fold_byte(needle@[j as int]));
            }
            return false;
        }
        j += 1;
    }
    proof {
        assert(window =~= fold_bytes(needle@)) by {
            assert(forall|k: int| 0 <= k < n ==> #[trigger] window[k] == fold_byte(hay@[i + k]));
            assert(forall|k: int|
                0 <= k < n ==> #[trigger] fold_bytes(needle@)[k] == fold_byte(needle@[k]));
        }
    }
    true
}

/// Case-insensitive (ASCII) substring test on string slices.
pub fn contains_str_ci(hay: &str, needle: &str) -> (r: bool)
    ensures
        r == contains_ci(hay@, needle@),
{
    let hay_bytes = hay.as_bytes();
    let needle_bytes = needle.as_bytes();
    let ghost fh = fold_bytes(hay_bytes@);
    let ghost fnd = fold_bytes(needle_bytes@);
    let h = hay_bytes.len();
    let n = needle_bytes.len();
    proof {
        assert(fh.len() == h && fnd.len() == n);
        assert(hay_bytes@ == bytes_of(hay@));
        assert(needle_bytes@ == bytes_of(needle@));
    }
    if n > h {
        return false;
    }
    if n == 0 {
        proof {
            assert(fh.subrange(0, 0 + fnd.len() as int) =~= fnd);
            assert(has_substring(fh, fnd));
        }
        return true;
    }
    let mut i: usize = 0;
    while i <= h - n
        invariant
            h == hay_bytes@.len(),
            n == needle_bytes@.len(),
            1 <= n <= h,
            fh == fold_bytes(bytes_of(hay@)),
            fnd == fold_bytes(bytes_of(needle@)),
            fh == fold_bytes(hay_bytes@),
            fnd == fold_bytes(needle_bytes@),
            fh.len() == h && fnd.len() == n,
            0 <= i <= h - n + 1,
            forall|k: int| 0 <= k < i ==> #[trigger] fh.subrange(k, k + fnd.len()) != fnd,
        decreases h - n + 1 - i,
    {
        if window_matches(hay_bytes, needle_bytes, i) {
            proof {
                assert(fh.subrange(i as int, i as int + fnd.len()) == fnd);
                assert(has_substring(fh, fnd));
            }
            return true;
        }
        i += 1;
    }
    proof {
        assert(!has_substring(fh, fnd)) by {
            assert(forall|k: int|
                0 <= k && k + fnd.len() <= fh.len() ==> #[trigger] fh.subrange(k, k + fnd.len())
                    != fnd);
        }
    }
    false
}

/// The decimal rendering of a number, as ASCII bytes, most significant
/// digit first.
pub open spec fn dec_bytes(n: nat) -> Seq<u8>
    decreases n,
{
    if n < 10 {
        seq![(48 + n) as u8]
    } else {
        dec_bytes(n / 10).push((48 + (n % 10)) as u8)
    }
}

/// `s` is exactly the decimal rendering of `n`, the comparison the update
/// check makes between a stored version code and a reported build number.
pub open spec fn is_decimal(s: Seq<char>, n: nat) -> bool {
    bytes_of(s) == dec_bytes(n)
}

fn dec_bytes_ex(n: usize) -> (r: Vec<u8>)
    ensures
        r@ == dec_bytes(n as nat),
    decreases n,
{
    if n < 10 {
        let mut v: Vec<u8> = Vec::new();
        v.push(48 + (n as u8));
        proof {
            assert(v@ =~= dec_bytes(n as nat));
        }
        v
    } else {
        let mut v = dec_bytes_ex(n / 10);
        v.push(48 + ((n % 10) as u8));
        v
    }
}

/// Whether `s` is the decimal rendering of `n`.
pub fn matches_decimal(s: &str, n: usize) -> (r: bool)
    ensures
        r == is_decimal(s@, n as nat),
{
    let sb = s.as_bytes();
    let db = dec_bytes_ex(n);
    proof {
        assert(sb@ == bytes_of(s@));
    }
    if sb.len() != db.len() {
        proof {
            assert(bytes_of(s@).len() != dec_bytes(n as nat).len());
        }
        return false;
    }
    let len = sb.len();
    let mut i: usize = 0;
    while i < len
        invariant
            len == sb@.len() == db@.len(),
            sb@ == bytes_of(s@),
            db@ == dec_bytes(n as nat),
            0 <= i <= len,
            forall|k: int| 0 <= k < i ==> sb@[k] == db@[k],
        decreases len - i,
    {
        if sb[i] != db[i] {
            proof {
                assert(bytes_of(s@)[i as int] != dec_bytes(n as nat)[i as int]);
            }
            return false;
        }
        i += 1;
    }
    proof {
        assert(sb@ =~= db@);
    }
    true
}

} // verus!
