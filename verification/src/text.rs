//! Character-level helpers shared by the lexer and the error messages:
//! the UTF-8 byte offsets of characters in a source text, slicing a source
//! text by byte offsets, and building decimal and quoted text.

use vstd::prelude::*;
use vstd::utf8::*;
use vstd::string::StringSliceAdditionalSpecFns;
use vstd::string::StringExecFns;

verus! {

broadcast use vstd::string::group_string_axioms;

/// Number of bytes in the UTF-8 encoding of `cs`.
pub open spec fn utf8_len(cs: Seq<char>) -> nat {
    encode_utf8(cs).len()
}

/// Number of bytes in the UTF-8 encoding of the single character `c`.
pub open spec fn char_width(c: char) -> nat {
    encode_scalar(c as u32).len()
}

/// The characters encoded by the bytes `start..end` of the UTF-8 encoding of `cs`.
pub open spec fn bytes_text(cs: Seq<char>, start: int, end: int) -> Seq<char> {
    decode_utf8(encode_utf8(cs).subrange(start, end))
}

/// Encoding distributes over concatenation.
pub proof fn lemma_encode_concat(a: Seq<char>, b: Seq<char>)
    ensures
        encode_utf8(a + b) == encode_utf8(a) + encode_utf8(b),
    decreases a.len(),
{
    if a.len() == 0 {
        assert(a + b =~= b);
        assert(encode_utf8(a) =~= Seq::<u8>::empty());
        assert(encode_utf8(a) + encode_utf8(b) =~= encode_utf8(b));
    } else {
        assert((a + b).drop_first() =~= a.drop_first() + b);
        assert((a + b)[0] == a[0]);
        lemma_encode_concat(a.drop_first(), b);
        assert(encode_utf8(a + b) =~= encode_utf8(a) + encode_utf8(b));
    }
}

/// A single character encodes to its scalar encoding.
pub proof fn lemma_encode_single(c: char)
    ensures
        encode_utf8(seq![c]) == encode_scalar(c as u32),
{
    let one = seq![c];
    assert(one.drop_first() =~= Seq::<char>::empty());
    assert(encode_utf8(one.drop_first()) =~= Seq::<u8>::empty());
    assert(one[0] == c);
    assert(encode_utf8(one) =~= encode_scalar(c as u32) + encode_utf8(one.drop_first()));
    assert(encode_utf8(one) =~= encode_scalar(c as u32));
}

/// Every character encodes to between one and four bytes.
pub proof fn lemma_char_width_bounds(c: char)
    ensures
        1 <= char_width(c) <= 4,
{
}

/// The byte length of a prefix grows by the width of the next character.
pub proof fn lemma_utf8_len_step(cs: Seq<char>, i: int)
    requires
        0 <= i < cs.len(),
    ensures
        utf8_len(cs.take(i + 1)) == utf8_len(cs.take(i)) + char_width(cs[i]),
{
    let one = seq![cs[i]];
    assert(cs.take(i + 1) =~= cs.take(i) + one);
    lemma_encode_concat(cs.take(i), one);
    lemma_encode_single(cs[i]);
}

/// The byte length of a prefix never exceeds the byte length of the whole text.
pub proof fn lemma_utf8_len_prefix(cs: Seq<char>, i: int)
    requires
        0 <= i <= cs.len(),
    ensures
        utf8_len(cs.take(i)) <= utf8_len(cs),
        i < cs.len() ==> utf8_len(cs.take(i)) + char_width(cs[i]) <= utf8_len(cs),
{
    assert(cs =~= cs.take(i) + cs.skip(i));
    lemma_encode_concat(cs.take(i), cs.skip(i));
    if i < cs.len() {
        let rest = cs.skip(i);
        assert(rest =~= seq![cs[i]] + rest.drop_first());
        lemma_encode_concat(seq![cs[i]], rest.drop_first());
        lemma_encode_single(cs[i]);
    }
}

/// The end of an encoded prefix is a character boundary of the whole encoding.
pub proof fn lemma_prefix_boundary(a: Seq<char>, b: Seq<char>)
    ensures
        is_char_boundary(encode_utf8(a + b), utf8_len(a) as int),
    decreases a.len(),
{
    broadcast use encode_utf8_valid_utf8;

    if a.len() == 0 {
        assert(utf8_len(a) == 0) by {
            assert(encode_utf8(a) =~= Seq::<u8>::empty());
        }
    } else {
        let ab = a + b;
        let bytes = encode_utf8(ab);
        assert(ab.drop_first() =~= a.drop_first() + b);
        assert(ab[0] == a[0]);
        encode_utf8_first_scalar(ab);
        lemma_encode_concat(a.drop_first(), b);
        assert(pop_first_scalar(bytes) =~= encode_utf8(a.drop_first() + b));
        lemma_prefix_boundary(a.drop_first(), b);
        lemma_char_width_bounds(a[0]);
        assert(utf8_len(a) == char_width(a[0]) + utf8_len(a.drop_first()));
        assert(utf8_len(a) <= bytes.len()) by {
            lemma_encode_concat(a, b);
        }
    }
}

/// The byte offset of the `i`-th character is a character boundary.
pub proof fn lemma_take_boundary(cs: Seq<char>, i: int)
    requires
        0 <= i <= cs.len(),
    ensures
        is_char_boundary(encode_utf8(cs), utf8_len(cs.take(i)) as int),
{
    assert(cs =~= cs.take(i) + cs.skip(i));
    lemma_prefix_boundary(cs.take(i), cs.skip(i));
}

/// The bytes between the offsets of characters `i` and `j` decode to those characters.
pub proof fn lemma_bytes_text(cs: Seq<char>, i: int, j: int)
    requires
        0 <= i <= j <= cs.len(),
    ensures
        bytes_text(cs, utf8_len(cs.take(i)) as int, utf8_len(cs.take(j)) as int)
            == cs.subrange(i, j),
{
    broadcast use encode_utf8_decode_utf8;

    let a = cs.take(i);
    let m = cs.subrange(i, j);
    let z = cs.skip(j);
    assert(cs =~= a + m + z);
    assert(cs.take(j) =~= a + m);
    lemma_encode_concat(a + m, z);
    lemma_encode_concat(a, m);
    let ea = encode_utf8(a);
    let em = encode_utf8(m);
    assert(encode_utf8(cs).subrange(ea.len() as int, (ea.len() + em.len()) as int) =~= em);
}

/// The characters of a text are the decoding of its bytes.
pub proof fn lemma_str_chars(s: &str)
    ensures
        decode_utf8(s.spec_bytes()) == s@,
{
    broadcast use encode_utf8_decode_utf8;

}

/// The characters of a text, in order.
pub fn chars_of(s: &str) -> (v: Vec<char>)
    ensures
        v@ == s@,
{
    let mut v: Vec<char> = Vec::new();
    for c in it: s.chars()
        invariant
            v@ == it.seq().take(it.index() as int),
    {
        v.push(c);
    }
    v
}

/// The number of bytes of `s`.
pub fn byte_len(s: &str) -> (n: usize)
    ensures
        n == s.spec_bytes().len(),
        n == utf8_len(s@),
{
    s.as_bytes().len()
}

/// Number of bytes in the UTF-8 encoding of `c`.
pub fn utf8_width(c: char) -> (w: usize)
    ensures
        w == char_width(c),
        1 <= w <= 4,
{
    proof {
        char_is_scalar(c);
    }
    let u = c as u32;
    if u < 0x80 {
        1
    } else if u < 0x800 {
        2
    } else if u < 0x10000 {
        3
    } else {
        4
    }
}

/// The part of `s` between two byte offsets (`&s[start..end]`).
///
/// Trusted: std's `str` indexing by a byte range returns exactly those bytes;
/// it panics unless both ends lie on character boundaries, which `requires`
/// rules out.
#[verifier::external_body]
pub fn str_slice<'a>(s: &'a str, start: usize, end: usize) -> (r: &'a str)
    requires
        start <= end <= s.spec_bytes().len(),
        is_char_boundary(s.spec_bytes(), start as int),
        is_char_boundary(s.spec_bytes(), end as int),
    ensures
        r.spec_bytes() == s.spec_bytes().subrange(start as int, end as int),
{
    &s[start..end]
}

/// The text of a single character (`c.to_string()`).
///
/// Trusted: std's `Display` for `char` writes exactly that character.
#[verifier::external_body]
pub fn char_text(c: char) -> (r: String)
    ensures
        r@ == seq![c],
{
    c.to_string()
}

/// Whether two texts hold the same characters.
pub fn str_eq(a: &str, b: &str) -> (r: bool)
    ensures
        r == (a@ == b@),
{
    let x = a.to_owned();
    let y = b.to_owned();
    x == y
}

/// The decimal digit character for `d`.
pub open spec fn digit_char(d: nat) -> char {
    if d == 0 { '0' }
    else if d == 1 { '1' }
    else if d == 2 { '2' }
    else if d == 3 { '3' }
    else if d == 4 { '4' }
    else if d == 5 { '5' }
    else if d == 6 { '6' }
    else if d == 7 { '7' }
    else if d == 8 { '8' }
    else { '9' }
}

/// The decimal notation of `n`, without leading zeros.
pub open spec fn decimal(n: nat) -> Seq<char>
    decreases n,
{
    if n < 10 {
        seq![digit_char(n)]
    } else {
        decimal(n / 10).push(digit_char(n % 10))
    }
}

fn digit_text(d: usize) -> (r: &'static str)
    requires
        d < 10,
    ensures
        r@ == seq![digit_char(d as nat)],
{
    proof {
        reveal_strlit("0");
        reveal_strlit("1");
        reveal_strlit("2");
        reveal_strlit("3");
        reveal_strlit("4");
        reveal_strlit("5");
        reveal_strlit("6");
        reveal_strlit("7");
        reveal_strlit("8");
        reveal_strlit("9");
    }
    if d == 0 { "0" }
    else if d == 1 { "1" }
    else if d == 2 { "2" }
    else if d == 3 { "3" }
    else if d == 4 { "4" }
    else if d == 5 { "5" }
    else if d == 6 { "6" }
    else if d == 7 { "7" }
    else if d == 8 { "8" }
    else { "9" }
}

/// The decimal notation of `n` (as `n.to_string()` writes it).
pub fn decimal_text(n: usize) -> (r: String)
    ensures
        r@ == decimal(n as nat),
    decreases n,
{
    if n < 10 {
        let mut r = String::new();
        r.append(digit_text(n));
        r
    } else {
        let mut r = decimal_text(n / 10);
        r.append(digit_text(n % 10));
        r
    }
}

} // verus!
