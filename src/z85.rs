//! The canonical printable form of a raw key: Z85, five characters out of an
//! alphabet of 85 for every four bytes.

use vstd::prelude::*;
use vstd::string::StringSliceAdditionalSpecFns;

verus! {

/// The character that stands for the base-85 digit `d` (0 <= d < 85).
#[verifier::opaque]
pub open spec fn z85_char(d: int) -> u8 {
    if d < 10 {
        (48 + d) as u8
    } else if d < 36 {
        (97 + d - 10) as u8
    } else if d < 62 {
        (65 + d - 36) as u8
    } else if d == 62 {
        46u8
    } else if d == 63 {
        45u8
    } else if d == 64 {
        58u8
    } else if d == 65 {
        43u8
    } else if d == 66 {
        61u8
    } else if d == 67 {
        94u8
    } else if d == 68 {
        33u8
    } else if d == 69 {
        47u8
    } else if d == 70 {
        42u8
    } else if d == 71 {
        63u8
    } else if d == 72 {
        38u8
    } else if d == 73 {
        60u8
    } else if d == 74 {
        62u8
    } else if d == 75 {
        40u8
    } else if d == 76 {
        41u8
    } else if d == 77 {
        91u8
    } else if d == 78 {
        93u8
    } else if d == 79 {
        123u8
    } else if d == 80 {
        125u8
    } else if d == 81 {
        64u8
    } else if d == 82 {
        37u8
    } else if d == 83 {
        36u8
    } else {
        35u8
    }
}

/// The base-85 digit that the character `c` stands for, or 85 where `c` is
/// not in the alphabet.
#[verifier::opaque]
pub open spec fn z85_digit(c: u8) -> int {
    if 48 <= c <= 57 {
        c - 48
    } else if 97 <= c <= 122 {
        c - 97 + 10
    } else if 65 <= c <= 90 {
        c - 65 + 36
    } else if c == 46 {
        62
    } else if c == 45 {
        63
    } else if c == 58 {
        64
    } else if c == 43 {
        65
    } else if c == 61 {
        66
    } else if c == 94 {
        67
    } else if c == 33 {
        68
    } else if c == 47 {
        69
    } else if c == 42 {
        70
    } else if c == 63 {
        71
    } else if c == 38 {
        72
    } else if c == 60 {
        73
    } else if c == 62 {
        74
    } else if c == 40 {
        75
    } else if c == 41 {
        76
    } else if c == 91 {
        77
    } else if c == 93 {
        78
    } else if c == 123 {
        79
    } else if c == 125 {
        80
    } else if c == 64 {
        81
    } else if c == 37 {
        82
    } else if c == 36 {
        83
    } else if c == 35 {
        84
    } else {
        85
    }
}

/// The big-endian value of the first four bytes of `g`.
pub open spec fn group_value(g: Seq<u8>) -> int {
    g[0] * 16777216 + g[1] * 65536 + g[2] * 256 + g[3]
}

/// The five characters that encode a value below 2^32, most significant
/// digit first.
pub open spec fn value_text(v: int) -> Seq<u8> {
    seq![
        z85_char(v / 85 / 85 / 85 / 85 % 85),
        z85_char(v / 85 / 85 / 85 % 85),
        z85_char(v / 85 / 85 % 85),
        z85_char(v / 85 % 85),
        z85_char(v % 85),
    ]
}

/// Z85 text of `b`, four bytes at a time (a trailing part shorter than four
/// bytes is not encoded).
pub open spec fn z85_text(b: Seq<u8>) -> Seq<u8>
    decreases b.len(),
{
    if b.len() < 4 {
        Seq::empty()
    } else {
        value_text(group_value(b)) + z85_text(b.subrange(4, b.len() as int))
    }
}

/// The value that the first five characters of `t` stand for.
pub open spec fn text_value(t: Seq<u8>) -> int {
    (((z85_digit(t[0]) * 85 + z85_digit(t[1])) * 85 + z85_digit(t[2])) * 85 + z85_digit(t[3]))
        * 85 + z85_digit(t[4])
}

/// The four bytes of a value below 2^32, most significant first.
pub open spec fn value_bytes(v: int) -> Seq<u8> {
    seq![(v / 16777216 % 256) as u8, (v / 65536 % 256) as u8, (v / 256 % 256) as u8, (v % 256) as u8]
}

/// Each character of the first five of `t` is in the alphabet, and they
/// stand for a value that fits in four bytes.
pub open spec fn group_valid(t: Seq<u8>) -> bool {
    &&& forall|i: int| 0 <= i < 5 ==> z85_digit(#[trigger] t[i]) < 85
    &&& text_value(t) < 0x1_0000_0000
}

/// `t` is Z85 text: a whole number of valid groups of five characters.
pub open spec fn z85_valid(t: Seq<u8>) -> bool
    decreases t.len(),
{
    if t.len() == 0 {
        true
    } else if t.len() < 5 {
        false
    } else {
        group_valid(t) && z85_valid(t.subrange(5, t.len() as int))
    }
}

/// The bytes that the Z85 text `t` stands for.
pub open spec fn z85_bytes(t: Seq<u8>) -> Seq<u8>
    decreases t.len(),
{
    if t.len() < 5 {
        Seq::empty()
    } else {
        value_bytes(text_value(t)) + z85_bytes(t.subrange(5, t.len() as int))
    }
}

proof fn lemma_char_digit(d: int)
    requires
        0 <= d < 85,
    ensures
        z85_digit(z85_char(d)) == d,
{
    reveal(z85_char);
    reveal(z85_digit);
}

proof fn lemma_digits(v: int)
    requires
        0 <= v < 0x1_0000_0000,
    ensures
        group_valid(value_text(v)),
        text_value(value_text(v)) == v,
{
    let t = value_text(v);
    let q1 = v / 85;
    let q2 = q1 / 85;
    let q3 = q2 / 85;
    let q4 = q3 / 85;
    assert(q4 < 85);
    lemma_char_digit(q4 % 85);
    lemma_char_digit(q3 % 85);
    lemma_char_digit(q2 % 85);
    lemma_char_digit(q1 % 85);
    lemma_char_digit(v % 85);
    assert(text_value(t) == (((q4 * 85 + q3 % 85) * 85 + q2 % 85) * 85 + q1 % 85) * 85 + v % 85);
    assert(q3 == q4 * 85 + q3 % 85);
    assert(q2 == q3 * 85 + q2 % 85);
    assert(q1 == q2 * 85 + q1 % 85);
    assert(v == q1 * 85 + v % 85);
    assert forall|j: int| 0 <= j < 5 implies z85_digit(#[trigger] t[j]) < 85 by {}
}

proof fn lemma_bytes(g: Seq<u8>)
    requires
        g.len() >= 4,
    ensures
        0 <= group_value(g) < 0x1_0000_0000,
        value_bytes(group_value(g)) =~= g.subrange(0, 4),
{
    let v = group_value(g);
    let b0 = g[0] as int;
    let b1 = g[1] as int;
    let b2 = g[2] as int;
    let b3 = g[3] as int;
    assert(v / 256 == b0 * 65536 + b1 * 256 + b2);
    assert(v / 65536 == b0 * 256 + b1);
    assert(v / 16777216 == b0);
}

proof fn lemma_round_trip(k: Seq<u8>)
    requires
        k.len() % 4 == 0,
    ensures
        z85_valid(z85_text(k)),
        z85_bytes(z85_text(k)) == k,
    decreases k.len(),
{
    if k.len() == 0 {
        assert(z85_bytes(z85_text(k)) =~= k);
    } else {
        let v = group_value(k);
        let rest = k.subrange(4, k.len() as int);
        lemma_bytes(k);
        lemma_digits(v);
        lemma_round_trip(rest);
        let t = z85_text(k);
        let head = value_text(v);
        assert(t.subrange(5, t.len() as int) =~= z85_text(rest));
        assert forall|j: int| 0 <= j < 5 implies t[j] == head[j] by {}
        assert(text_value(t) == text_value(head));
        assert(group_valid(t)) by {
            assert forall|j: int| 0 <= j < 5 implies z85_digit(#[trigger] t[j]) < 85 by {
                assert(t[j] == head[j]);
            }
        }
        assert(z85_bytes(t) =~= k);
    }
}

/// Encoding a key, decoding the text, and encoding the bytes again gives the
/// text of the first encoding: the text of a key is valid Z85 text, and
/// decoding it gives the key back.
pub proof fn lemma_encoding_stable(key: Seq<u8>)
    requires
        key.len() == 32,
    ensures
        z85_valid(z85_text(key)),
        z85_bytes(z85_text(key)) == key,
        z85_text(z85_bytes(z85_text(key))) == z85_text(key),
{
    lemma_round_trip(key);
}

/// Relies on zmq::z85_encode: it fails on data whose length is not a multiple
/// of four, and otherwise returns the Z85 text of the data (libzmq's
/// zmq_z85_encode, whose alphabet is ASCII).
#[verifier::external_body]
fn z85_encode_raw(data: &[u8]) -> (r: Option<Vec<u8>>)
    ensures
        r is Some <==> data@.len() % 4 == 0,
        r matches Some(t) ==> t@ == z85_text(data@),
{
    zmq::z85_encode(data).ok().map(|s| s.into_bytes())
}

/// Encodes a 32-byte raw key as its 40-character Z85 text.
pub fn encode_key(key: &[u8]) -> (r: Vec<u8>)
    requires
        key@.len() == 32,
    ensures
        r@ == z85_text(key@),
{
    match z85_encode_raw(key) {
        Some(t) => t,
        None => Vec::new(),
    }
}


/// Relies on zmq::z85_decode: it fails on text whose length is not a
/// multiple of five, and on valid Z85 text returns the bytes it stands for
/// (libzmq's zmq_z85_decode).
#[verifier::external_body]
fn z85_decode_raw(text: &str) -> (r: Option<Vec<u8>>)
    ensures
        text.spec_bytes().len() % 5 != 0 ==> (r is None),
        z85_valid(text.spec_bytes()) ==> (r is Some),
        r matches Some(b) ==> (z85_valid(text.spec_bytes()) ==> b@ == z85_bytes(text.spec_bytes())),
{
    zmq::z85_decode(text).ok()
}

/// The base-85 digit of the character `c`, 85 where it is not in the
/// alphabet.
pub fn digit_of(c: u8) -> (r: u8)
    ensures
        r as int == z85_digit(c),
{
    reveal(z85_digit);
    if 48 <= c && c <= 57 {
        c - 48
    } else if 97 <= c && c <= 122 {
        c - 97 + 10
    } else if 65 <= c && c <= 90 {
        c - 65 + 36
    } else {
        match c {
            46 => 62,
            45 => 63,
            58 => 64,
            43 => 65,
            61 => 66,
            94 => 67,
            33 => 68,
            47 => 69,
            42 => 70,
            63 => 71,
            38 => 72,
            60 => 73,
            62 => 74,
            40 => 75,
            41 => 76,
            91 => 77,
            93 => 78,
            123 => 79,
            125 => 80,
            64 => 81,
            37 => 82,
            36 => 83,
            35 => 84,
            _ => 85,
        }
    }
}

proof fn lemma_valid_split(t: Seq<u8>, i: int)
    requires
        0 <= i,
        i % 5 == 0,
        i <= t.len(),
        z85_valid(t.subrange(0, i)),
    ensures
        z85_valid(t) <==> z85_valid(t.subrange(i, t.len() as int)),
    decreases i,
{
    if i > 0 {
        let head = t.subrange(0, i);
        let rest = t.subrange(5, t.len() as int);
        assert(head.subrange(5, i) =~= rest.subrange(0, i - 5));
        assert(rest.subrange(i - 5, rest.len() as int) =~= t.subrange(i, t.len() as int));
        assert forall|j: int| 0 <= j < 5 implies head[j] == t[j] by {}
        assert(text_value(head) == text_value(t));
        assert(group_valid(head) == group_valid(t)) by {
            if group_valid(t) {
                assert forall|j: int| 0 <= j < 5 implies z85_digit(#[trigger] head[j]) < 85 by {
                    assert(head[j] == t[j]);
                }
            }
            if group_valid(head) {
                assert forall|j: int| 0 <= j < 5 implies z85_digit(#[trigger] t[j]) < 85 by {
                    assert(head[j] == t[j]);
                }
            }
        }
        assert(i >= 5);
        assert(z85_valid(head) == (group_valid(head) && z85_valid(head.subrange(5, i))));
        lemma_valid_split(rest, i - 5);
        assert(z85_valid(t) == (group_valid(t) && z85_valid(rest)));
    } else {
        assert(t.subrange(0, t.len() as int) =~= t);
    }
}

/// Horner value of the first `k` digits of `g`.
pub open spec fn partial_value(g: Seq<u8>, k: int) -> int
    decreases k,
{
    if k <= 0 {
        0
    } else {
        partial_value(g, k - 1) * 85 + z85_digit(g[k - 1])
    }
}

pub open spec fn pow85(k: int) -> int
    decreases k,
{
    if k <= 0 {
        1
    } else {
        85 * pow85(k - 1)
    }
}

proof fn lemma_pow85_step(k: int, value: int, d: int)
    requires
        0 <= k < 5,
        0 <= value < pow85(k),
        0 <= d < 85,
    ensures
        value * 85 + d < pow85(k + 1),
        pow85(k + 1) <= 4437053125,
{
    reveal_with_fuel(pow85, 6);
    assert(value * 85 + d < pow85(k) * 85) by (nonlinear_arith)
        requires
            value < pow85(k),
            d < 85,
    ;
}

proof fn lemma_partial_full(h: Seq<u8>)
    requires
        h.len() >= 5,
    ensures
        partial_value(h, 5) == text_value(h),
{
    reveal_with_fuel(partial_value, 6);
}

proof fn lemma_valid_len(t: Seq<u8>)
    requires
        t.len() % 5 != 0,
    ensures
        !z85_valid(t),
    decreases t.len(),
{
    if t.len() >= 5 {
        lemma_valid_len(t.subrange(5, t.len() as int));
    }
}

/// Whether `t` is Z85 text.
pub fn is_z85_text(t: &[u8]) -> (r: bool)
    ensures
        r == z85_valid(t@),
{
    if t.len() % 5 != 0 {
        proof {
            lemma_valid_len(t@);
        }
        return false;
    }
    let n = t.len();
    let mut i: usize = 0;
    while i < n
        invariant
            n == t@.len(),
            i <= t@.len(),
            i % 5 == 0,
            t@.len() % 5 == 0,
            z85_valid(t@.subrange(0, i as int)),
        decreases t@.len() - i,
    {
        let mut value: u64 = 0;
        let mut k: usize = 0;
        assert(i + 5 <= t@.len());
        while k < 5
            invariant
                k <= 5,
                n == t@.len(),
                i % 5 == 0,
                i + 5 <= t@.len(),
                z85_valid(t@.subrange(0, i as int)),
                forall|j: int| 0 <= j < k ==> z85_digit(#[trigger] t@[i + j]) < 85,
                value == partial_value(t@.subrange(i as int, i + 5), k as int),
                value < pow85(k as int),
            decreases 5 - k,
        {
            let d = digit_of(t[i + k]);
            if d >= 85 {
                proof {
                    let g = t@.subrange(i as int, t@.len() as int);
                    assert(g[k as int] == t@[i + k]);
                    lemma_valid_split(t@, i as int);
                }
                return false;
            }
            proof {
                lemma_pow85_step(k as int, value as int, d as int);
            }
            value = value * 85 + d as u64;
            k += 1;
        }
        proof {
            let g = t@.subrange(i as int, t@.len() as int);
            let h = t@.subrange(i as int, i + 5);
            lemma_partial_full(h);
            assert forall|j: int| 0 <= j < 5 implies h[j] == g[j] by {}
            assert(text_value(h) == text_value(g));
            lemma_valid_split(t@, i as int);
        }
        if value >= 0x1_0000_0000 {
            return false;
        }
        proof {
            let h = t@.subrange(i as int, i + 5);
            let next = t@.subrange(0, i + 5);
            assert(next.subrange(0, i as int) =~= t@.subrange(0, i as int));
            lemma_valid_split(next, i as int);
            assert(next.subrange(i as int, next.len() as int) =~= h);
            assert(h.subrange(5, 5) =~= Seq::<u8>::empty());
            assert forall|j: int| 0 <= j < 5 implies z85_digit(#[trigger] h[j]) < 85 by {
                assert(h[j] == t@[i + j]);
            }
            assert(group_valid(h));
            assert(z85_valid(h.subrange(5, 5)));
            assert(z85_valid(h));
        }
        i += 5;
    }
    assert(t@.subrange(0, i as int) =~= t@);
    true
}

/// Decodes Z85 text; `None` where the text is not Z85.
pub fn decode_key(text: &str) -> (r: Option<Vec<u8>>)
    ensures
        r is Some <==> z85_valid(text.spec_bytes()),
        r matches Some(b) ==> b@ == z85_bytes(text.spec_bytes()),
{
    if !is_z85_text(text.as_bytes()) {
        return None;
    }
    z85_decode_raw(text)
}

} // verus!
