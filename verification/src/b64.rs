//! The standard Base64 encodings, with and without padding, stated over
//! bytes and characters.
use vstd::prelude::*;

verus! {

/// The character of the standard Base64 alphabet for the six-bit value
/// `v`: `A`–`Z`, `a`–`z`, `0`–`9`, `+` and `/`.
pub open spec fn b64_char(v: int) -> char {
    if v < 26 {
        (65 + v) as char
    } else if v < 52 {
        (71 + v) as char
    } else if v < 62 {
        (v - 4) as char
    } else if v == 62 {
        '+'
    } else {
        '/'
    }
}

/// The four characters of a group of three bytes.
pub open spec fn b64_group(b0: int, b1: int, b2: int) -> Seq<char> {
    seq![
        b64_char(b0 / 4),
        b64_char((b0 % 4) * 16 + b1 / 16),
        b64_char((b1 % 16) * 4 + b2 / 64),
        b64_char(b2 % 64),
    ]
}

/// The standard Base64 encoding of `b` without padding: each group of
/// three bytes gives four characters of six bits each; a last group of two
/// bytes gives three characters and one of a single byte two, the unused
/// low bits being zero.
pub open spec fn base64_no_pad(b: Seq<u8>) -> Seq<char>
    decreases b.len(),
{
    if b.len() == 0 {
        Seq::empty()
    } else if b.len() == 1 {
        seq![b64_char((b[0] as int) / 4), b64_char(((b[0] as int) % 4) * 16)]
    } else if b.len() == 2 {
        seq![
            b64_char((b[0] as int) / 4),
            b64_char(((b[0] as int) % 4) * 16 + (b[1] as int) / 16),
            b64_char(((b[1] as int) % 16) * 4),
        ]
    } else {
        b64_group(b[0] as int, b[1] as int, b[2] as int) + base64_no_pad(b.skip(3))
    }
}

/// The standard Base64 encoding of `b` with padding: as without, and a
/// last group of two bytes is followed by one `=`, one of a single byte by
/// two.
pub open spec fn base64_padded(b: Seq<u8>) -> Seq<char>
    decreases b.len(),
{
    if b.len() == 0 {
        Seq::empty()
    } else if b.len() == 1 {
        base64_no_pad(b) + seq!['=', '=']
    } else if b.len() == 2 {
        base64_no_pad(b) + seq!['=']
    } else {
        b64_group(b[0] as int, b[1] as int, b[2] as int) + base64_padded(b.skip(3))
    }
}

proof fn lemma_b64_char(v: int, w: int)
    requires
        0 <= v < 64,
        0 <= w < 64,
    ensures
        b64_char(v) != '=',
        b64_char(v) == b64_char(w) ==> v == w,
{
}

proof fn lemma_group_injective(a0: int, a1: int, a2: int, b0: int, b1: int, b2: int)
    requires
        0 <= a0 < 256,
        0 <= a1 < 256,
        0 <= a2 < 256,
        0 <= b0 < 256,
        0 <= b1 < 256,
        0 <= b2 < 256,
        b64_group(a0, a1, a2) == b64_group(b0, b1, b2),
    ensures
        a0 == b0,
        a1 == b1,
        a2 == b2,
{
    let ga = b64_group(a0, a1, a2);
    let gb = b64_group(b0, b1, b2);
    assert(ga[0] == gb[0] && ga[1] == gb[1] && ga[2] == gb[2] && ga[3] == gb[3]);
    lemma_b64_char(a0 / 4, b0 / 4);
    lemma_b64_char((a0 % 4) * 16 + a1 / 16, (b0 % 4) * 16 + b1 / 16);
    lemma_b64_char((a1 % 16) * 4 + a2 / 64, (b1 % 16) * 4 + b2 / 64);
    lemma_b64_char(a2 % 64, b2 % 64);
}

/// Different bytes have different padded encodings: a padded encoding
/// gives back the one byte sequence it encodes.
pub proof fn lemma_base64_padded_injective(a: Seq<u8>, b: Seq<u8>)
    requires
        base64_padded(a) == base64_padded(b),
    ensures
        a == b,
    decreases a.len(),
{
    let pa = base64_padded(a);
    let pb = base64_padded(b);
    if a.len() >= 3 {
        lemma_b64_char(a[2] as int % 64, 0);
        assert(pa[3] != '=');
    }
    if b.len() >= 3 {
        lemma_b64_char(b[2] as int % 64, 0);
        assert(pb[3] != '=');
    }
    if a.len() == 0 || b.len() == 0 {
        assert(a.len() == 0 && b.len() == 0) by {
            if a.len() > 0 {
                assert(pa.len() > 0);
            }
            if b.len() > 0 {
                assert(pb.len() > 0);
            }
        }
        assert(a =~= b);
    } else if a.len() < 3 || b.len() < 3 {
        assert(a.len() < 3 && b.len() < 3) by {
            if a.len() >= 3 {
                assert(pb[3] == '=');
            }
            if b.len() >= 3 {
                assert(pa[3] == '=');
            }
        }
        if a.len() == 2 {
            lemma_b64_char(((a[1] as int) % 16) * 4, 0);
            assert(pa[2] != '=');
        }
        if b.len() == 2 {
            lemma_b64_char(((b[1] as int) % 16) * 4, 0);
            assert(pb[2] != '=');
        }
        assert(a.len() == b.len());
        assert(pa[0] == pb[0] && pa[1] == pb[1]);
        lemma_b64_char((a[0] as int) / 4, (b[0] as int) / 4);
        if a.len() == 1 {
            lemma_b64_char(((a[0] as int) % 4) * 16, ((b[0] as int) % 4) * 16);
        } else {
            assert(pa[2] == pb[2]);
            lemma_b64_char(
                ((a[0] as int) % 4) * 16 + (a[1] as int) / 16,
                ((b[0] as int) % 4) * 16 + (b[1] as int) / 16,
            );
            lemma_b64_char(((a[1] as int) % 16) * 4, ((b[1] as int) % 16) * 4);
        }
        assert(a =~= b);
    } else {
        let ga = b64_group(a[0] as int, a[1] as int, a[2] as int);
        let gb = b64_group(b[0] as int, b[1] as int, b[2] as int);
        assert(pa.take(4) =~= ga);
        assert(pb.take(4) =~= gb);
        lemma_group_injective(a[0] as int, a[1] as int, a[2] as int, b[0] as int, b[1] as int, b[2] as int);
        assert(pa.skip(4) =~= base64_padded(a.skip(3)));
        assert(pb.skip(4) =~= base64_padded(b.skip(3)));
        lemma_base64_padded_injective(a.skip(3), b.skip(3));
        assert(a =~= a.take(3) + a.skip(3));
        assert(b =~= b.take(3) + b.skip(3));
        assert(a.take(3) =~= b.take(3));
    }
}

} // verus!
