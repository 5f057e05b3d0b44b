//! Small string helpers shared across the crate: character pushes, string
//! equality, decimal rendering of integers, and hex rendering of bytes.

use vstd::prelude::*;

verus! {

/// Relies on `String::push`: appends exactly the one character to the string.
#[verifier::external_body]
pub fn push_char(s: &mut String, c: char)
    ensures
        final(s)@ == old(s)@.push(c),
{
    s.push(c);
}

/// Character-for-character equality of two string slices.
pub fn str_eq(a: &str, b: &str) -> (r: bool)
    ensures
        r == (a@ == b@),
{
    let aa: String = a.to_owned();
    let bb: String = b.to_owned();
    aa == bb
}

/// The decimal digit character for a value below ten.
pub open spec fn digit_char(d: int) -> char {
    if d == 0 {
        '0'
    } else if d == 1 {
        '1'
    } else if d == 2 {
        '2'
    } else if d == 3 {
        '3'
    } else if d == 4 {
        '4'
    } else if d == 5 {
        '5'
    } else if d == 6 {
        '6'
    } else if d == 7 {
        '7'
    } else if d == 8 {
        '8'
    } else {
        '9'
    }
}

/// The decimal rendering of a natural number, most significant digit first.
pub open spec fn dec_digits(n: nat) -> Seq<char>
    decreases n,
{
    if n < 10 {
        seq![digit_char(n as int)]
    } else {
        dec_digits(n / 10).push(digit_char((n % 10) as int))
    }
}

fn digit_to_char(d: u64) -> (c: char)
    requires
        d < 10,
    ensures
        c == digit_char(d as int),
{
    match d {
        0 => '0',
        1 => '1',
        2 => '2',
        3 => '3',
        4 => '4',
        5 => '5',
        6 => '6',
        7 => '7',
        8 => '8',
        _ => '9',
    }
}

/// Appends the decimal rendering of `n` to `out`.
pub fn append_u64(out: &mut String, n: u64)
    ensures
        final(out)@ == old(out)@ + dec_digits(n as nat),
    decreases n,
{
    if n < 10 {
        let c = digit_to_char(n);
        push_char(out, c);
    } else {
        append_u64(out, n / 10);
        let c = digit_to_char(n % 10);
        push_char(out, c);
        assert(final(out)@ =~= old(out)@ + dec_digits(n as nat));
    }
}

/// The decimal rendering of `n` as a fresh string.
pub fn u64_string(n: u64) -> (r: String)
    ensures
        r@ == dec_digits(n as nat),
{
    let mut out = String::new();
    append_u64(&mut out, n);
    assert(out@ =~= dec_digits(n as nat));
    out
}

/// The lower-case hex character for a value below sixteen.
pub open spec fn hex_char(d: int) -> char {
    if d < 10 {
        digit_char(d)
    } else if d == 10 {
        'a'
    } else if d == 11 {
        'b'
    } else if d == 12 {
        'c'
    } else if d == 13 {
        'd'
    } else if d == 14 {
        'e'
    } else {
        'f'
    }
}

/// The two-character lower-case hex rendering of one byte.
pub open spec fn hex_byte(b: u8) -> Seq<char> {
    seq![hex_char(b as int / 16), hex_char(b as int % 16)]
}

/// The hex rendering of a byte sequence, first byte first.
pub open spec fn hex_bytes(bs: Seq<u8>) -> Seq<char>
    decreases bs.len(),
{
    if bs.len() == 0 {
        Seq::empty()
    } else {
        hex_byte(bs[0]) + hex_bytes(bs.drop_first())
    }
}

fn hex_to_char(d: u8) -> (c: char)
    requires
        d < 16,
    ensures
        c == hex_char(d as int),
{
    if d < 10 {
        digit_to_char(d as u64)
    } else {
        match d {
            10 => 'a',
            11 => 'b',
            12 => 'c',
            13 => 'd',
            14 => 'e',
            _ => 'f',
        }
    }
}

/// The lower-case hex rendering of a byte slice.
pub fn bytes_to_hex(bs: &[u8]) -> (r: String)
    ensures
        r@ == hex_bytes(bs@),
{
    let mut out = String::new();
    let mut i: usize = 0;
    while i < bs.len()
        invariant
            i <= bs@.len(),
            out@ == hex_bytes(bs@.take(i as int)),
        decreases bs@.len() - i,
    {
        let b = bs[i];
        let hi = hex_to_char(b / 16);
        let lo = hex_to_char(b % 16);
        push_char(&mut out, hi);
        push_char(&mut out, lo);
        proof {
            lemma_hex_take_step(bs@, i as int);
            assert(out@ =~= hex_bytes(bs@.take(i as int + 1)));
        }
        i = i + 1;
    }
    proof {
        assert(bs@.take(bs@.len() as int) =~= bs@);
    }
    out
}

proof fn lemma_hex_take_step(bs: Seq<u8>, i: int)
    requires
        0 <= i < bs.len(),
    ensures
        hex_bytes(bs.take(i + 1)) =~= hex_bytes(bs.take(i)) + hex_byte(bs[i]),
    decreases i,
{
    let a = bs.take(i + 1);
    let b = bs.take(i);
    if i == 0 {
        assert(a.drop_first() =~= Seq::empty());
        assert(hex_bytes(a) =~= hex_byte(bs[0]) + hex_bytes(Seq::empty()));
        assert(hex_bytes(b) =~= Seq::empty());
    } else {
        assert(a.drop_first() =~= bs.drop_first().take(i));
        assert(b.drop_first() =~= bs.drop_first().take(i - 1));
        lemma_hex_take_step(bs.drop_first(), i - 1);
        assert(bs.drop_first()[i - 1] == bs[i]);
        assert(a[0] == bs[0] && b[0] == bs[0]);
    }
}

/// The needle occurs in the haystack starting at position `i`.
pub open spec fn contains_at(hay: Seq<u8>, needle: Seq<u8>, i: int) -> bool {
    0 <= i && i + needle.len() <= hay.len() && hay.subrange(i, i + needle.len()) == needle
}

/// The needle occurs somewhere in the haystack.
pub open spec fn contains_bytes(hay: Seq<u8>, needle: Seq<u8>) -> bool {
    exists|i: int| contains_at(hay, needle, i)
}

/// Whether `needle` occurs as a contiguous run of bytes in `hay`.
pub fn contains_sub(hay: &[u8], needle: &[u8]) -> (r: bool)
    ensures
        r == contains_bytes(hay@, needle@),
{
    let nlen = needle.len();
    let hlen = hay.len();
    if nlen > hlen {
        return false;
    }
    let mut i: usize = 0;
    while i <= hlen - nlen
        invariant
            nlen == needle@.len(),
            hlen == hay@.len(),
            nlen <= hlen,
            i <= hlen - nlen + 1,
            forall|t: int| 0 <= t < i ==> !contains_at(hay@, needle@, t),
        decreases hlen - i,
    {
        let mut j: usize = 0;
        let mut eq = true;
        proof {
            assert(hay@.subrange(i as int, i as int) =~= needle@.take(0));
        }
        while j < nlen
            invariant
                i + nlen <= hlen,
                nlen == needle@.len(),
                hlen == hay@.len(),
                j <= nlen,
                eq <==> hay@.subrange(i as int, i + j) == needle@.take(j as int),
            decreases nlen - j,
        {
            proof {
                assert(hay@.subrange(i as int, i + j + 1) =~= hay@.subrange(i as int, i + j).push(
                    hay@[i + j],
                ));
                assert(needle@.take(j as int + 1) =~= needle@.take(j as int).push(needle@[j as int]));
            }
            if hay[i + j] != needle[j] {
                eq = false;
            }
            proof {
                if eq {
                    assert(hay@.subrange(i as int, i + j + 1) == needle@.take(j as int + 1));
                } else {
                    if hay@.subrange(i as int, i + j + 1) == needle@.take(j as int + 1) {
                        assert(hay@.subrange(i as int, i + j + 1).drop_last() =~= hay@.subrange(
                            i as int,
                            i + j,
                        ));
                        assert(needle@.take(j as int + 1).drop_last() =~= needle@.take(j as int));
                        assert(hay@.subrange(i as int, i + j) == needle@.take(j as int));
                        assert(hay@.subrange(i as int, i + j + 1).last() == needle@.take(
                            j as int + 1,
                        ).last());
                        assert(hay@[i + j] == needle@[j as int]);
                        assert(false);
                    }
                }
            }
            j = j + 1;
        }
        if eq {
            proof {
                assert(needle@.take(nlen as int) =~= needle@);
                assert(contains_at(hay@, needle@, i as int));
            }
            return true;
        }
        proof {
            assert(needle@.take(nlen as int) =~= needle@);
            assert(!contains_at(hay@, needle@, i as int));
        }
        i = i + 1;
    }
    proof {
        assert forall|t: int| !contains_at(hay@, needle@, t) by {
            if 0 <= t < i {
            } else {
                assert(t < 0 || t + needle@.len() > hay@.len());
            }
        }
    }
    false
}

/// The byte with an upper-case ASCII letter folded to lower case.
pub open spec fn lower_byte(b: u8) -> u8 {
    if 0x41 <= b <= 0x5a {
        (b + 0x20) as u8
    } else {
        b
    }
}

/// The bytes with every upper-case ASCII letter folded to lower case.
pub open spec fn lower_bytes(s: Seq<u8>) -> Seq<u8> {
    Seq::new(s.len(), |i: int| lower_byte(s[i]))
}

/// Whether `needle` (already lower case) occurs in `hay` compared without
/// regard to ASCII letter case.
pub fn contains_ci(hay: &[u8], needle: &[u8]) -> (r: bool)
    ensures
        r == contains_bytes(lower_bytes(hay@), needle@),
{
    let mut low: Vec<u8> = Vec::new();
    let mut i: usize = 0;
    let n = hay.len();
    while i < n
        invariant
            i <= n,
            n == hay@.len(),
            low@ == lower_bytes(hay@).take(i as int),
        decreases n - i,
    {
        let b = hay[i];
        let lb: u8 = if 0x41 <= b && b <= 0x5a {
            b + 0x20
        } else {
            b
        };
        low.push(lb);
        proof {
            assert(low@ =~= lower_bytes(hay@).take(i as int + 1));
        }
        i = i + 1;
    }
    proof {
        assert(lower_bytes(hay@).take(n as int) =~= lower_bytes(hay@));
    }
    contains_sub(low.as_slice(), needle)
}

/// Byte-for-byte equality of two byte slices.
pub fn bytes_eq(a: &[u8], b: &[u8]) -> (r: bool)
    ensures
        r == (a@ == b@),
{
    if a.len() != b.len() {
        return false;
    }
    let mut i: usize = 0;
    while i < a.len()
        invariant
            a@.len() == b@.len(),
            i <= a@.len(),
            forall|j: int| 0 <= j < i ==> a@[j] == b@[j],
        decreases a@.len() - i,
    {
        if a[i] != b[i] {
            return false;
        }
        i = i + 1;
    }
    proof {
        assert(a@ =~= b@);
    }
    true
}

} // verus!
