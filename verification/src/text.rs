//! Character-level string helpers: strings are sequences of characters
//! (Unicode scalar values), stored as UTF-8. Byte offsets into a string,
//! such as those a pattern match reports, are turned into character
//! indices here, so that they compose with character slicing.
use vstd::prelude::*;
use vstd::string::*;
use vstd::utf8::*;

verus! {

broadcast use vstd::utf8::group_utf8_lib;

/// The number of characters whose UTF-8 encoding fills the first `byte`
/// bytes of `s` (meaningful when `byte` falls on a character boundary).
pub open spec fn char_offset(s: Seq<char>, byte: int) -> int {
    decode_utf8(encode_utf8(s).subrange(0, byte)).len() as int
}

/// `byte` is an offset into the UTF-8 encoding of `s` at which a
/// character starts, or the end of the encoding.
pub open spec fn is_boundary(s: Seq<char>, byte: int) -> bool {
    0 <= byte <= encode_utf8(s).len() && is_char_boundary(encode_utf8(s), byte)
}

/// Encoding distributes over concatenation.
pub proof fn lemma_encode_concat(a: Seq<char>, b: Seq<char>)
    ensures
        encode_utf8(a + b) == encode_utf8(a) + encode_utf8(b),
    decreases a.len(),
{
    if a.len() == 0 {
        assert(a + b =~= b);
    } else {
        assert((a + b).drop_first() =~= a.drop_first() + b);
        lemma_encode_concat(a.drop_first(), b);
        assert(encode_utf8(a + b) =~= encode_utf8(a) + encode_utf8(b));
    }
}

/// The prefix of a string up to a character boundary is the decoding of
/// the bytes before that boundary.
pub proof fn lemma_prefix_at_boundary(s: Seq<char>, byte: int)
    requires
        is_boundary(s, byte),
    ensures
        0 <= char_offset(s, byte) <= s.len(),
        s.subrange(0, char_offset(s, byte)) == decode_utf8(encode_utf8(s).subrange(0, byte)),
        encode_utf8(s.subrange(0, char_offset(s, byte))) == encode_utf8(s).subrange(0, byte),
{
    let bytes = encode_utf8(s);
    let n = bytes.len() as int;
    valid_utf8_split(bytes, byte);
    decode_utf8_split(bytes, byte);
    let p = decode_utf8(bytes.subrange(0, byte));
    let q = decode_utf8(bytes.subrange(byte, n));
    assert(s == p + q);
    assert(s.subrange(0, p.len() as int) =~= p);
}

/// The characters between two boundaries encode exactly the bytes between
/// them.
pub proof fn lemma_slice_between_boundaries(s: Seq<char>, a: int, b: int)
    requires
        is_boundary(s, a),
        is_boundary(s, b),
        a <= b,
    ensures
        char_offset(s, a) <= char_offset(s, b),
        encode_utf8(s.subrange(char_offset(s, a), char_offset(s, b))) == encode_utf8(s).subrange(a, b),
{
    let bytes = encode_utf8(s);
    lemma_prefix_at_boundary(s, a);
    lemma_prefix_at_boundary(s, b);
    let ca = char_offset(s, a);
    let cb = char_offset(s, b);
    let pb = s.subrange(0, cb);
    if cb < ca {
        // the shorter prefix would encode the longer byte prefix
        let pa = s.subrange(0, ca);
        assert(pa =~= pb + pa.subrange(cb, ca));
        lemma_encode_concat(pb, pa.subrange(cb, ca));
        assert(encode_utf8(pa).len() >= encode_utf8(pb).len());
        assert(pa.subrange(cb, ca).len() > 0);
        assert(encode_utf8(pa.subrange(cb, ca)).len() > 0) by {
            let t = pa.subrange(cb, ca);
            reveal_with_fuel(encode_utf8, 2);
            assert(encode_scalar(t[0] as u32).len() > 0);
        }
        assert(false);
    }
    let mid = s.subrange(ca, cb);
    let pa = s.subrange(0, ca);
    assert(pb =~= pa + mid);
    lemma_encode_concat(pa, mid);
    let ea = encode_utf8(pa);
    let em = encode_utf8(mid);
    assert(bytes.subrange(0, b) =~= bytes.subrange(0, a) + bytes.subrange(a, b));
    assert(em =~= (ea + em).subrange(ea.len() as int, (ea + em).len() as int));
    assert(em =~= bytes.subrange(a, b));
}

/// Character equality of two strings, decided on their bytes.
pub fn str_eq(a: &str, b: &str) -> (res: bool)
    ensures
        res == (a@ == b@),
{
    let x = a.as_bytes();
    let y = b.as_bytes();
    proof {
        encode_utf8_decode_utf8(a@);
        encode_utf8_decode_utf8(b@);
    }
    if x.len() != y.len() {
        return false;
    }
    let mut i: usize = 0;
    while i < x.len()
        invariant
            x@ == a.spec_bytes(),
            y@ == b.spec_bytes(),
            x@.len() == y@.len(),
            0 <= i <= x@.len(),
            forall|j: int| 0 <= j < i ==> x@[j] == y@[j],
        decreases x@.len() - i,
    {
        if x[i] != y[i] {
            return false;
        }
        i = i + 1;
    }
    assert(x@ =~= y@);
    true
}

/// The character index at which the UTF-8 byte offset `byte` of `s` falls.
pub fn char_index(s: &str, byte: usize) -> (res: i64)
    requires
        is_boundary(s@, byte as int),
        s.spec_bytes().len() <= i64::MAX,
    ensures
        res == char_offset(s@, byte as int),
        0 <= res <= s@.len(),
        encode_utf8(s@.subrange(0, res as int)) == s.spec_bytes().subrange(0, byte as int),
{
    let n = char_count_before(s, byte);
    n as i64
}

fn char_count_before(s: &str, byte: usize) -> (res: usize)
    requires
        is_boundary(s@, byte as int),
    ensures
        res == char_offset(s@, byte as int),
        res <= s@.len(),
        s@.len() <= s.spec_bytes().len(),
        encode_utf8(s@.subrange(0, res as int)) == s.spec_bytes().subrange(0, byte as int),
{
    proof {
        lemma_prefix_at_boundary(s@, byte as int);
    }
    let (prefix, _rest) = s.split_at(byte);
    let n = prefix.unicode_len();
    proof {
        encode_utf8_decode_utf8(prefix@);
        assert(prefix@ == decode_utf8(s.spec_bytes().subrange(0, byte as int)));
        assert(encode_utf8(s@).len() >= s@.len()) by {
            lemma_encoding_at_least_chars(s@);
        }
    }
    n
}

/// An encoding has at least as many bytes as characters.
pub proof fn lemma_encoding_at_least_chars(s: Seq<char>)
    ensures
        encode_utf8(s).len() >= s.len(),
    decreases s.len(),
{
    if s.len() > 0 {
        lemma_encoding_at_least_chars(s.drop_first());
        assert(encode_scalar(s[0] as u32).len() >= 1);
    }
}

/// The text of `s` between two UTF-8 byte offsets that fall on character
/// boundaries.
pub fn slice_between(s: &str, start: usize, end: usize) -> (res: String)
    requires
        is_boundary(s@, start as int),
        is_boundary(s@, end as int),
        start <= end,
        s.spec_bytes().len() <= i64::MAX,
    ensures
        res@ == s@.subrange(char_offset(s@, start as int), char_offset(s@, end as int)),
        encode_utf8(res@) == s.spec_bytes().subrange(start as int, end as int),
{
    let a = char_count_before(s, start);
    let b = char_count_before(s, end);
    proof {
        lemma_slice_between_boundaries(s@, start as int, end as int);
    }
    let piece = s.substring_char(a, b);
    piece.to_owned()
}

/// `s` with every trailing line feed and carriage return removed.
pub open spec fn trim_line_end(s: Seq<char>) -> Seq<char>
    decreases s.len(),
{
    if s.len() > 0 && (s.last() == '\n' || s.last() == '\r') {
        trim_line_end(s.drop_last())
    } else {
        s
    }
}

proof fn lemma_trim_is_prefix(s: Seq<char>, k: int)
    requires
        0 <= k <= s.len(),
        forall|j: int| k <= j < s.len() ==> (s[j] == '\n' || s[j] == '\r'),
    ensures
        trim_line_end(s) == trim_line_end(s.subrange(0, k)),
    decreases s.len() - k,
{
    if k < s.len() {
        assert(s.drop_last() =~= s.subrange(0, s.len() - 1));
        assert(s.subrange(0, s.len() - 1).subrange(0, k) =~= s.subrange(0, k));
        lemma_trim_is_prefix(s.drop_last(), k);
    } else {
        assert(s.subrange(0, k) =~= s);
    }
}

/// Removes the line terminator (any run of `\n` and `\r`) from the end of
/// a line.
pub fn trim_newlines(s: &str) -> (res: String)
    ensures
        res@ == trim_line_end(s@),
        is_line_without_terminator(s@, res@),
{
    let mut k = s.unicode_len();
    let mut done = false;
    while k > 0 && !done
        invariant
            0 <= k <= s@.len(),
            forall|j: int| k <= j < s@.len() ==> (s@[j] == '\n' || s@[j] == '\r'),
            done ==> k > 0 && s@[k - 1] != '\n' && s@[k - 1] != '\r',
        decreases k + (if done { 0int } else { 1int }),
    {
        let c = s.get_char(k - 1);
        if c != '\n' && c != '\r' {
            done = true;
        } else {
            k = k - 1;
        }
    }
    proof {
        lemma_trim_is_prefix(s@, k as int);
        let p = s@.subrange(0, k as int);
        if k > 0 {
            assert(p.last() == s@[k - 1]);
        }
        assert(trim_line_end(p) == p);
    }
    proof {
        lemma_trim_line_end_removes_terminator(s@);
    }
    let piece = s.substring_char(0, k);
    piece.to_owned()
}

/// A line character: line feed or carriage return.
pub open spec fn is_line_terminator(c: char) -> bool {
    c == '\n' || c == '\r'
}

/// `p` is `l` without its line terminator: a prefix of `l` after which
/// `l` holds only line feeds and carriage returns, and which does not
/// itself end in one (every other character, spaces and tabs too, stays).
pub open spec fn is_line_without_terminator(l: Seq<char>, p: Seq<char>) -> bool {
    &&& p.len() <= l.len()
    &&& p == l.subrange(0, p.len() as int)
    &&& forall|j: int| p.len() <= j < l.len() ==> is_line_terminator(#[trigger] l[j])
    &&& (p.len() == 0 || !is_line_terminator(p.last()))
}

/// Removing the line terminator keeps exactly the longest prefix that does
/// not end in `\n` or `\r`, and such a prefix is unique.
pub proof fn lemma_trim_line_end_removes_terminator(l: Seq<char>)
    ensures
        is_line_without_terminator(l, trim_line_end(l)),
        forall|p: Seq<char>| is_line_without_terminator(l, p) ==> p == trim_line_end(l),
    decreases l.len(),
{
    if l.len() > 0 && is_line_terminator(l.last()) {
        let d = l.drop_last();
        lemma_trim_line_end_removes_terminator(d);
        let t = trim_line_end(d);
        assert(t == trim_line_end(l));
        assert(t == l.subrange(0, t.len() as int)) by {
            assert(d.subrange(0, t.len() as int) =~= l.subrange(0, t.len() as int));
        }
        assert forall|j: int| t.len() <= j < l.len() implies is_line_terminator(#[trigger] l[j]) by {
            if j < d.len() {
                assert(d[j] == l[j]);
            }
        }
        assert(is_line_without_terminator(l, t));
        assert forall|p: Seq<char>| is_line_without_terminator(l, p) implies p == trim_line_end(l) by {
            assert(p.len() < l.len()) by {
                if p.len() == l.len() {
                    assert(p =~= l);
                }
            }
            assert(d.subrange(0, p.len() as int) =~= l.subrange(0, p.len() as int));
            assert forall|j: int| p.len() <= j < d.len() implies is_line_terminator(#[trigger] d[j]) by {
                assert(d[j] == l[j]);
            }
            assert(is_line_without_terminator(d, p));
        }
    } else {
        assert(l.subrange(0, l.len() as int) =~= l);
        assert forall|p: Seq<char>| is_line_without_terminator(l, p) implies p == trim_line_end(l) by {
            if p.len() < l.len() {
                assert(is_line_terminator(l[l.len() - 1]));
            }
            assert(p =~= l);
        }
    }
}

/// The decimal digits of `n`, most significant first, without leading
/// zeros (`0` is a single digit).
pub open spec fn decimal(n: nat) -> Seq<char>
    decreases n,
{
    if n < 10 {
        seq![digit_char(n)]
    } else {
        decimal(n / 10) + seq![digit_char(n % 10)]
    }
}

pub open spec fn digit_char(d: nat) -> char {
    if d == 0 { '0' }
    else if d == 1 { '1' }
    else if d == 2 { '2' }
    else if d == 3 { '3' }
    else if d == 4 { '4' }
    else if d == 5 { '5' }
    else if d == 6 { '6' }
    else if d == 7 { '7' }
    else if d == 8 { '8' }
    else { '9' }
}

fn digit_str(d: u32) -> (res: &'static str)
    requires
        d < 10,
    ensures
        res@ == seq![digit_char(d as nat)],
{
    proof {
        reveal_strlit("0");
        reveal_strlit("1");
        reveal_strlit("2");
        reveal_strlit("3");
        reveal_strlit("4");
        reveal_strlit("5");
        reveal_strlit("6");
        reveal_strlit("7");
        reveal_strlit("8");
        reveal_strlit("9");
    }
    if d == 0 { "0" }
    else if d == 1 { "1" }
    else if d == 2 { "2" }
    else if d == 3 { "3" }
    else if d == 4 { "4" }
    else if d == 5 { "5" }
    else if d == 6 { "6" }
    else if d == 7 { "7" }
    else if d == 8 { "8" }
    else { "9" }
}

/// Appends the decimal digits of `n` to `out`.
pub fn push_decimal(out: &mut String, n: u32)
    ensures
        final(out)@ == old(out)@ + decimal(n as nat),
    decreases n,
{
    if n >= 10 {
        push_decimal(out, n / 10);
    }
    out.append(digit_str(n % 10));
    proof {
        assert(old(out)@ + decimal(n as nat) =~= if n >= 10 {
            old(out)@ + decimal((n / 10) as nat) + seq![digit_char((n % 10) as nat)]
        } else {
            old(out)@ + seq![digit_char((n % 10) as nat)]
        });
    }
}

} // verus!
