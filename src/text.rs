//! Splitting text at ASCII delimiters, stated over the characters of the text.

use vstd::prelude::*;
use vstd::string::StringSliceAdditionalSpecFns;
use vstd::utf8::*;

verus! {

broadcast use vstd::utf8::encode_utf8_decode_utf8, vstd::utf8::encode_utf8_valid_utf8;

/// The first index at which `c` occurs in `s`, if any.
#[verifier::opaque]
pub open spec fn first_index(s: Seq<char>, c: char) -> Option<int> {
    if s.contains(c) {
        Some(choose|i: int| 0 <= i < s.len() && s[i] == c && forall|j: int| 0 <= j < i ==> s[j] != c)
    } else {
        None
    }
}

/// The last index at which `c` occurs in `s`, if any.
#[verifier::opaque]
pub open spec fn last_index(s: Seq<char>, c: char) -> Option<int> {
    if s.contains(c) {
        Some(choose|i: int| 0 <= i < s.len() && s[i] == c && forall|j: int| i < j < s.len() ==> s[j] != c)
    } else {
        None
    }
}

/// `s` cut at the first `c`: what stands before it and what follows it.
pub open spec fn split_first(s: Seq<char>, c: char) -> Option<(Seq<char>, Seq<char>)> {
    match first_index(s, c) {
        Some(i) => Some((s.take(i), s.skip(i + 1))),
        None => None,
    }
}

/// `s` cut at the last `c`: what stands before it and what follows it.
pub open spec fn split_last(s: Seq<char>, c: char) -> Option<(Seq<char>, Seq<char>)> {
    match last_index(s, c) {
        Some(i) => Some((s.take(i), s.skip(i + 1))),
        None => None,
    }
}

/// The byte of the space character.
pub const SPACE: u8 = 0x20;

/// The byte of the NUL character.
pub const NUL: u8 = 0;

/// `b` is the byte of an ASCII character.
pub open spec fn is_ascii_byte(b: u8) -> bool {
    b < 128
}

/// A split of `s` at `i` where `s[i] == c` and no earlier character is `c`
/// is the split that `split_first` describes.
pub proof fn lemma_split_first_at(s: Seq<char>, c: char, i: int)
    requires
        0 <= i < s.len(),
        s[i] == c,
        forall|j: int| 0 <= j < i ==> s[j] != c,
    ensures
        split_first(s, c) == Some((s.take(i), s.skip(i + 1))),
{
    reveal(first_index);
    assert(s.contains(c));
    let k = choose|k: int| 0 <= k < s.len() && s[k] == c && forall|j: int| 0 <= j < k ==> s[j] != c;
    assert(k == i) by {
        if k < i {
            assert(s[k] != c);
        } else if k > i {
            assert(s[i] != c);
        }
    }
}

/// A split of `s` at `i` where `s[i] == c` and no later character is `c`
/// is the split that `split_last` describes.
pub proof fn lemma_split_last_at(s: Seq<char>, c: char, i: int)
    requires
        0 <= i < s.len(),
        s[i] == c,
        forall|j: int| i < j < s.len() ==> s[j] != c,
    ensures
        split_last(s, c) == Some((s.take(i), s.skip(i + 1))),
{
    reveal(last_index);
    assert(s.contains(c));
    let k = choose|k: int| 0 <= k < s.len() && s[k] == c && forall|j: int| k < j < s.len() ==> s[j] != c;
    assert(k == i) by {
        if k < i {
            assert(s[i] != c);
        } else if k > i {
            assert(s[k] != c);
        }
    }
}

/// Where `c` occurs in `s`, it has a first occurrence.
proof fn lemma_first_occurrence(s: Seq<char>, c: char) -> (i: int)
    requires
        s.contains(c),
    ensures
        0 <= i < s.len(),
        s[i] == c,
        forall|j: int| 0 <= j < i ==> s[j] != c,
    decreases s.len(),
{
    if s[0] == c {
        0
    } else {
        let k = choose|k: int| 0 <= k < s.len() && s[k] == c;
        assert(s.drop_first()[k - 1] == c);
        let i = lemma_first_occurrence(s.drop_first(), c);
        assert forall|j: int| 0 <= j < i + 1 implies s[j] != c by {
            if j > 0 {
                assert(s[j] == s.drop_first()[j - 1]);
            }
        }
        i + 1
    }
}

/// A split at `c` leaves out exactly that one `c`.
pub proof fn lemma_split_first_parts(s: Seq<char>, c: char)
    ensures
        split_first(s, c) matches Some((a, t)) ==> s == a + seq![c] + t && t.len() < s.len(),
{
    reveal(first_index);
    if s.contains(c) {
        let i = lemma_first_occurrence(s, c);
        lemma_split_first_at(s, c, i);
        assert(s =~= s.take(i) + seq![c] + s.skip(i + 1));
    }
}

/// UTF-8 encoding distributes over concatenation.
pub proof fn lemma_encode_concat(x: Seq<char>, y: Seq<char>)
    ensures
        encode_utf8(x + y) == encode_utf8(x) + encode_utf8(y),
    decreases x.len(),
{
    if x.len() == 0 {
        assert(x + y =~= y);
    } else {
        lemma_encode_concat(x.drop_first(), y);
        assert((x + y).drop_first() =~= x.drop_first() + y);
        assert((x + y)[0] == x[0]);
    }
}

/// An ASCII character is encoded as the one byte of the same value.
pub proof fn lemma_encode_ascii(b: u8)
    requires
        is_ascii_byte(b),
    ensures
        encode_utf8(seq![b as char]) == seq![b],
{
    let s = seq![b as char];
    let v = (b as char) as u32;
    assert(v == b as u32);
    assert(has_width_1_encoding(v));
    assert(((b as u32) & 0x7F) as u8 == b) by (bit_vector)
        requires
            b < 128,
    ;
    assert(s.drop_first() =~= Seq::<char>::empty());
    assert(encode_utf8(s.drop_first()) =~= Seq::<u8>::empty());
    assert(encode_utf8(s) =~= seq![b]);
}

/// If `x` holds the ASCII character of value `b`, its encoding holds the byte `b`.
pub proof fn lemma_encode_contains_ascii(x: Seq<char>, b: u8)
    requires
        is_ascii_byte(b),
        x.contains(b as char),
    ensures
        encode_utf8(x).contains(b),
    decreases x.len(),
{
    let k = choose|k: int| 0 <= k < x.len() && x[k] == b as char;
    assert(x =~= x.take(k) + (seq![b as char] + x.skip(k + 1)));
    lemma_encode_concat(x.take(k), seq![b as char] + x.skip(k + 1));
    lemma_encode_concat(seq![b as char], x.skip(k + 1));
    lemma_encode_ascii(b);
    let e = encode_utf8(x);
    assert(e[encode_utf8(x.take(k)).len() as int] == b);
}

/// The byte sequence `bytes` read as text, where it is the encoding of `s`.
pub proof fn lemma_decode_of_encoding(s: Seq<char>, bytes: Seq<u8>)
    requires
        bytes == encode_utf8(s),
    ensures
        decode_utf8(bytes) == s,
{
}

/// In valid text, a byte of an ASCII character starts a character.
pub proof fn lemma_ascii_boundary(bytes: Seq<u8>, i: int)
    requires
        valid_utf8(bytes),
        0 <= i < bytes.len(),
        is_ascii_byte(bytes[i]),
    ensures
        is_char_boundary(bytes, i),
{
    is_char_boundary_iff_not_is_continuation_byte(bytes, i);
}

/// In valid text that starts with an ASCII character, the second byte starts a character.
pub proof fn lemma_ascii_head_boundary(bytes: Seq<u8>)
    requires
        valid_utf8(bytes),
        bytes.len() > 0,
        is_ascii_byte(bytes[0]),
    ensures
        is_char_boundary(bytes, 1),
{
    assert(length_of_first_scalar(bytes) == 1);
    reveal_with_fuel(is_char_boundary, 2);
}

/// Where the encoding of `s` is the encoding of `a`, the byte `d` and the
/// encoding of `t`, with `d` ASCII, `s` is `a`, the character `d` and `t`.
pub proof fn lemma_rejoin(s: Seq<char>, a: Seq<char>, t: Seq<char>, d: u8)
    requires
        is_ascii_byte(d),
        encode_utf8(s) == encode_utf8(a) + seq![d] + encode_utf8(t),
    ensures
        s == a + seq![d as char] + t,
{
    let x = a + seq![d as char] + t;
    lemma_encode_concat(a + seq![d as char], t);
    lemma_encode_concat(a, seq![d as char]);
    lemma_encode_ascii(d);
    assert(encode_utf8(x) =~= encode_utf8(s));
    lemma_decode_of_encoding(x, encode_utf8(x));
    lemma_decode_of_encoding(s, encode_utf8(s));
}

/// Cuts `s` at its first ASCII character `d`.
pub fn split_once_ascii<'a>(s: &'a str, d: u8) -> (r: Option<(&'a str, &'a str)>)
    requires
        is_ascii_byte(d),
    ensures
        match r {
            None => split_first(s@, d as char) is None,
            Some((a, t)) => split_first(s@, d as char) == Some((a@, t@)),
        },
{
    let bytes = s.as_bytes();
    let n = bytes.len();
    let mut i: usize = 0;
    while i < n
        invariant
            0 <= i <= n,
            n == bytes@.len(),
            bytes@ == encode_utf8(s@),
            is_ascii_byte(d),
            forall|j: int| 0 <= j < i ==> bytes@[j] != d,
        decreases n - i,
    {
        if bytes[i] == d {
            proof {
                lemma_ascii_boundary(bytes@, i as int);
            }
            let (a, rest) = s.split_at(i);
            proof {
                assert(rest.spec_bytes()[0] == d);
                lemma_ascii_head_boundary(rest.spec_bytes());
            }
            let (_, t) = rest.split_at(1);
            proof {
                let c = d as char;
                assert(bytes@ =~= encode_utf8(a@) + seq![d] + encode_utf8(t@));
                lemma_rejoin(s@, a@, t@, d);
                assert(!a@.contains(c)) by {
                    if a@.contains(c) {
                        lemma_encode_contains_ascii(a@, d);
                    }
                }
                lemma_split_first_at(s@, c, a@.len() as int);
                assert(s@.take(a@.len() as int) =~= a@);
                assert(s@.skip(a@.len() as int + 1) =~= t@);
            }
            return Some((a, t));
        }
        i += 1;
    }
    proof {
        reveal(first_index);
        reveal(last_index);
        if s@.contains(d as char) {
            lemma_encode_contains_ascii(s@, d);
        }
    }
    None
}

/// Cuts `s` at its last ASCII character `d`.
pub fn rsplit_once_ascii<'a>(s: &'a str, d: u8) -> (r: Option<(&'a str, &'a str)>)
    requires
        is_ascii_byte(d),
    ensures
        match r {
            None => split_last(s@, d as char) is None,
            Some((a, t)) => split_last(s@, d as char) == Some((a@, t@)),
        },
{
    let bytes = s.as_bytes();
    let n = bytes.len();
    let mut i: usize = n;
    while i > 0
        invariant
            0 <= i <= n,
            n == bytes@.len(),
            bytes@ == encode_utf8(s@),
            is_ascii_byte(d),
            forall|j: int| i <= j < n ==> bytes@[j] != d,
        decreases i,
    {
        if bytes[i - 1] == d {
            let k = i - 1;
            proof {
                lemma_ascii_boundary(bytes@, k as int);
            }
            let (a, rest) = s.split_at(k);
            proof {
                assert(rest.spec_bytes()[0] == d);
                lemma_ascii_head_boundary(rest.spec_bytes());
            }
            let (_, t) = rest.split_at(1);
            proof {
                let c = d as char;
                assert(bytes@ =~= encode_utf8(a@) + seq![d] + encode_utf8(t@));
                lemma_rejoin(s@, a@, t@, d);
                assert(!t@.contains(c)) by {
                    if t@.contains(c) {
                        lemma_encode_contains_ascii(t@, d);
                        let e = encode_utf8(t@);
                        let m = choose|m: int| 0 <= m < e.len() && e[m] == d;
                        assert(bytes@[k + 1 + m] == d);
                    }
                }
                let len = a@.len() as int;
                assert forall|j: int| len < j < s@.len() implies s@[j] != c by {
                    assert(s@[j] == t@[j - len - 1]);
                }
                lemma_split_last_at(s@, c, len);
                assert(s@.take(len) =~= a@);
                assert(s@.skip(len + 1) =~= t@);
            }
            return Some((a, t));
        }
        i -= 1;
    }
    proof {
        reveal(first_index);
        reveal(last_index);
        if s@.contains(d as char) {
            lemma_encode_contains_ascii(s@, d);
        }
    }
    None
}


/// Relies on `std::str::from_utf8`: it accepts exactly the valid UTF-8 byte
/// sequences and reads them as the characters they encode.
#[verifier::external_body]
pub(crate) fn utf8_text(bytes: &[u8]) -> (r: Option<&str>)
    ensures
        r is Some <==> valid_utf8(bytes@),
        r matches Some(s) ==> s@ == decode_utf8(bytes@),
{
    std::str::from_utf8(bytes).ok()
}

/// The text that `String::from_utf8_lossy` makes of `b`.
pub uninterp spec fn lossy_text_of(b: Seq<u8>) -> Seq<char>;

/// Relies on `String::from_utf8_lossy`: its text depends on the bytes alone,
/// and valid UTF-8 is read as the characters it encodes.
#[verifier::external_body]
pub(crate) fn lossy_text(bytes: &[u8]) -> (r: String)
    ensures
        r@ == lossy_text_of(bytes@),
        valid_utf8(bytes@) ==> r@ == decode_utf8(bytes@),
{
    String::from_utf8_lossy(bytes).into_owned()
}

} // verus!
