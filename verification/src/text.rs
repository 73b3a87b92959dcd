//! Byte-level text helpers: ASCII case folding, case-insensitive equality
//! and substring search, and decimal / hexadecimal rendering and parsing.
//!
//! Process names and configuration keys are matched case-insensitively
//! throughout the governor; all of that matching funnels through this
//! module. The fold is ASCII: `A`..`Z` map to `a`..`z` and every other
//! byte — including multi-byte characters — compares verbatim, so names
//! that differ only in non-ASCII letter case do not match.

use vstd::prelude::*;
use vstd::string::StringSliceAdditionalSpecFns;
use vstd::string::StrSliceExecFns;

verus! {

/// The UTF-8 bytes of an owned string, as `str::as_bytes` returns them.
pub open spec fn bytes_of(s: String) -> Seq<u8> {
    vstd::utf8::encode_utf8(s@)
}

/// ASCII lower-casing of one byte; bytes outside `A`..`Z` are unchanged.
pub open spec fn lower_byte(b: u8) -> u8 {
    if 65 <= b && b <= 90 {
        (b + 32) as u8
    } else {
        b
    }
}

/// ASCII lower-casing of a byte string.
pub open spec fn lower_of(s: Seq<u8>) -> Seq<u8> {
    s.map_values(|b: u8| lower_byte(b))
}

/// `needle` occurs in `hay` starting at offset `i`.
pub open spec fn match_at(hay: Seq<u8>, needle: Seq<u8>, i: int) -> bool {
    0 <= i && i + needle.len() <= hay.len() && hay.subrange(i, i + needle.len()) == needle
}

/// `needle` occurs somewhere in `hay`.
pub open spec fn contains_bytes(hay: Seq<u8>, needle: Seq<u8>) -> bool {
    exists|i: int| match_at(hay, needle, i)
}

/// Lower-case one byte, as `lower_byte` describes.
pub fn lower_byte_x(b: u8) -> (r: u8)
    ensures
        r == lower_byte(b),
{
    if 65 <= b && b <= 90 {
        b + 32
    } else {
        b
    }
}

/// The two strings are equal up to ASCII case; non-ASCII characters must
/// match exactly.
pub fn eq_ignore_case(a: &str, b: &str) -> (r: bool)
    ensures
        r == (lower_of(a.spec_bytes()) == lower_of(b.spec_bytes())),
{
    let ab = a.as_bytes();
    let bb = b.as_bytes();
    if ab.len() != bb.len() {
        return false;
    }
    let n = ab.len();
    let mut i: usize = 0;
    while i < n
        invariant
            n == ab@.len() == bb@.len(),
            0 <= i <= n,
            forall|j: int| 0 <= j < i ==> lower_byte(ab@[j]) == lower_byte(bb@[j]),
            ab@ == a.spec_bytes(),
            bb@ == b.spec_bytes(),
        decreases n - i,
    {
        if lower_byte_x(ab[i]) != lower_byte_x(bb[i]) {
            proof {
                assert(lower_of(a.spec_bytes())[i as int] != lower_of(b.spec_bytes())[i as int]);
            }
            return false;
        }
        i = i + 1;
    }
    proof {
        assert(lower_of(a.spec_bytes()) =~= lower_of(b.spec_bytes()));
    }
    true
}

/// `needle` occurs in `hay`, ignoring ASCII case on both sides; non-ASCII
/// characters must match exactly.
pub fn contains_ignore_case(hay: &str, needle: &str) -> (r: bool)
    ensures
        r == contains_bytes(lower_of(hay.spec_bytes()), lower_of(needle.spec_bytes())),
{
    let hb = hay.as_bytes();
    let nb = needle.as_bytes();
    let ghost lh = lower_of(hay.spec_bytes());
    let ghost ln = lower_of(needle.spec_bytes());
    if nb.len() > hb.len() {
        proof {
            assert(forall|i: int| !match_at(lh, ln, i));
        }
        return false;
    }
    let last = hb.len() - nb.len();
    let mut i: usize = 0;
    while i <= last
        invariant
            hb@ == hay.spec_bytes(),
            nb@ == needle.spec_bytes(),
            lh == lower_of(hb@),
            ln == lower_of(nb@),
            nb@.len() <= hb@.len(),
            hb@.len() <= usize::MAX,
            last == hb@.len() - nb@.len(),
            0 <= i <= last + 1,
            forall|k: int| 0 <= k < i ==> !match_at(lh, ln, k),
        decreases last + 1 - i,
    {
        let mut j: usize = 0;
        while j < nb.len()
            invariant
                hb@ == hay.spec_bytes(),
                nb@ == needle.spec_bytes(),
                lh == lower_of(hb@),
                ln == lower_of(nb@),
                0 <= i <= last,
                hb@.len() <= usize::MAX,
                last == hb@.len() - nb@.len(),
                0 <= j <= nb@.len(),
                forall|k: int| 0 <= k < j ==> lower_byte(hb@[i + k]) == lower_byte(nb@[k]),
            ensures
                0 <= j <= nb@.len(),
                forall|k: int| 0 <= k < j ==> lower_byte(hb@[i + k]) == lower_byte(nb@[k]),
                j < nb@.len() ==> lower_byte(hb@[i + j]) != lower_byte(nb@[j as int]),
            decreases nb@.len() - j,
        {
            if lower_byte_x(hb[i + j]) != lower_byte_x(nb[j]) {
                break;
            }
            j = j + 1;
        }
        if j == nb.len() {
            proof {
                assert(lh.subrange(i as int, i + ln.len()) =~= ln);
                assert(match_at(lh, ln, i as int));
            }
            return true;
        }
        proof {
            assert(lh[i + j] != ln[j as int]);
            assert(lh.subrange(i as int, i + ln.len())[j as int] == lh[i + j]);
            assert(!match_at(lh, ln, i as int));
        }
        i = i + 1;
    }
    proof {
        assert(forall|k: int| match_at(lh, ln, k) ==> 0 <= k <= last);
    }
    false
}

/// `p` is a prefix of `s`.
pub open spec fn has_prefix(s: Seq<u8>, p: Seq<u8>) -> bool {
    p.len() <= s.len() && s.subrange(0, p.len() as int) == p
}

/// The string starts with the given prefix (byte-for-byte).
pub fn starts_with(s: &str, p: &str) -> (r: bool)
    ensures
        r == has_prefix(s.spec_bytes(), p.spec_bytes()),
{
    let sb = s.as_bytes();
    let pb = p.as_bytes();
    if pb.len() > sb.len() {
        return false;
    }
    let mut i: usize = 0;
    while i < pb.len()
        invariant
            sb@ == s.spec_bytes(),
            pb@ == p.spec_bytes(),
            pb@.len() <= sb@.len(),
            0 <= i <= pb@.len(),
            forall|j: int| 0 <= j < i ==> sb@[j] == pb@[j],
        decreases pb@.len() - i,
    {
        if sb[i] != pb[i] {
            proof {
                assert(s.spec_bytes().subrange(0, p.spec_bytes().len() as int)[i as int]
                    != p.spec_bytes()[i as int]);
            }
            return false;
        }
        i = i + 1;
    }
    proof {
        assert(s.spec_bytes().subrange(0, p.spec_bytes().len() as int) =~= p.spec_bytes());
    }
    true
}

/// The decimal digit characters of `n`, most significant first.
pub open spec fn dec_seq(n: nat) -> Seq<char>
    decreases n,
{
    if n < 10 {
        seq![digit_char(n as int)]
    } else {
        dec_seq((n / 10) as nat).push(digit_char((n % 10) as int))
    }
}

/// The character for a decimal digit value.
pub open spec fn digit_char(d: int) -> char {
    (48 + d) as char
}

/// The character for a hexadecimal digit value, lower case.
pub open spec fn hex_char(d: int) -> char {
    if d < 10 {
        (48 + d) as char
    } else {
        (87 + d) as char
    }
}

/// The character for a hexadecimal digit value, upper case.
pub open spec fn hex_char_upper(d: int) -> char {
    if d < 10 {
        (48 + d) as char
    } else {
        (55 + d) as char
    }
}

/// The hexadecimal digit characters of `n`, most significant first.
pub open spec fn hex_seq(n: nat) -> Seq<char>
    decreases n,
{
    if n < 16 {
        seq![hex_char(n as int)]
    } else {
        hex_seq((n / 16) as nat).push(hex_char((n % 16) as int))
    }
}

/// The hexadecimal digit characters of `n`, upper case.
pub open spec fn hex_seq_upper(n: nat) -> Seq<char>
    decreases n,
{
    if n < 16 {
        seq![hex_char_upper(n as int)]
    } else {
        hex_seq_upper((n / 16) as nat).push(hex_char_upper((n % 16) as int))
    }
}

fn digit_str(d: u64) -> (r: &'static str)
    requires
        d < 16,
    ensures
        r@ == seq![hex_char(d as int)],
        d < 10 ==> r@ == seq![digit_char(d as int)],
{
    proof {
        reveal_strlit("0");
        reveal_strlit("1");
        reveal_strlit("2");
        reveal_strlit("3");
        reveal_strlit("4");
        reveal_strlit("5");
        reveal_strlit("6");
        reveal_strlit("7");
        reveal_strlit("8");
        reveal_strlit("9");
        reveal_strlit("a");
        reveal_strlit("b");
        reveal_strlit("c");
        reveal_strlit("d");
        reveal_strlit("e");
        reveal_strlit("f");
    }
    match d {
        0 => "0",
        1 => "1",
        2 => "2",
        3 => "3",
        4 => "4",
        5 => "5",
        6 => "6",
        7 => "7",
        8 => "8",
        9 => "9",
        10 => "a",
        11 => "b",
        12 => "c",
        13 => "d",
        14 => "e",
        _ => "f",
    }
}

fn digit_str_upper(d: u64) -> (r: &'static str)
    requires
        d < 16,
    ensures
        r@ == seq![hex_char_upper(d as int)],
{
    proof {
        reveal_strlit("0");
        reveal_strlit("1");
        reveal_strlit("2");
        reveal_strlit("3");
        reveal_strlit("4");
        reveal_strlit("5");
        reveal_strlit("6");
        reveal_strlit("7");
        reveal_strlit("8");
        reveal_strlit("9");
        reveal_strlit("A");
        reveal_strlit("B");
        reveal_strlit("C");
        reveal_strlit("D");
        reveal_strlit("E");
        reveal_strlit("F");
    }
    match d {
        0 => "0",
        1 => "1",
        2 => "2",
        3 => "3",
        4 => "4",
        5 => "5",
        6 => "6",
        7 => "7",
        8 => "8",
        9 => "9",
        10 => "A",
        11 => "B",
        12 => "C",
        13 => "D",
        14 => "E",
        _ => "F",
    }
}

/// Render `n` in decimal.
pub fn u64_to_dec(n: u64) -> (r: String)
    ensures
        r@ == dec_seq(n as nat),
    decreases n,
{
    if n < 10 {
        String::from_str(digit_str(n))
    } else {
        let mut s = u64_to_dec(n / 10);
        s.append(digit_str(n % 10));
        proof {
            assert(dec_seq((n / 10) as nat).push(digit_char((n % 10) as int)) =~= dec_seq(
                (n / 10) as nat,
            ) + seq![digit_char((n % 10) as int)]);
        }
        s
    }
}

/// Render `n` in hexadecimal, lower case, without a prefix.
pub fn u64_to_hex(n: u64) -> (r: String)
    ensures
        r@ == hex_seq(n as nat),
    decreases n,
{
    if n < 16 {
        String::from_str(digit_str(n))
    } else {
        let mut s = u64_to_hex(n / 16);
        s.append(digit_str(n % 16));
        proof {
            assert(hex_seq((n / 16) as nat).push(hex_char((n % 16) as int)) =~= hex_seq(
                (n / 16) as nat,
            ) + seq![hex_char((n % 16) as int)]);
        }
        s
    }
}

/// Render `n` in hexadecimal, upper case, without a prefix.
pub fn u64_to_hex_upper(n: u64) -> (r: String)
    ensures
        r@ == hex_seq_upper(n as nat),
    decreases n,
{
    if n < 16 {
        String::from_str(digit_str_upper(n))
    } else {
        let mut s = u64_to_hex_upper(n / 16);
        s.append(digit_str_upper(n % 16));
        proof {
            assert(hex_seq_upper((n / 16) as nat).push(hex_char_upper((n % 16) as int))
                =~= hex_seq_upper((n / 16) as nat) + seq![hex_char_upper((n % 16) as int)]);
        }
        s
    }
}

/// The byte is an ASCII hexadecimal digit.
pub open spec fn is_hex_byte(b: u8) -> bool {
    (48 <= b && b <= 57) || (97 <= b && b <= 102) || (65 <= b && b <= 70)
}

/// The numeric value of an ASCII hexadecimal digit byte.
pub open spec fn hex_byte_val(b: u8) -> int {
    if 48 <= b && b <= 57 {
        b - 48
    } else if 97 <= b && b <= 102 {
        b - 87
    } else {
        b - 55
    }
}

/// The (unbounded) value of a string of hexadecimal digit bytes.
pub open spec fn hex_int(s: Seq<u8>) -> int
    decreases s.len(),
{
    if s.len() == 0 {
        0
    } else {
        hex_int(s.drop_last()) * 16 + hex_byte_val(s.last())
    }
}

/// Every byte of the string is a hexadecimal digit.
pub open spec fn all_hex(s: Seq<u8>) -> bool {
    forall|i: int| 0 <= i < s.len() ==> is_hex_byte(#[trigger] s[i])
}

/// Hexadecimal digit strings denote non-negative values that grow with
/// every appended digit.
proof fn lemma_hex_int_grows(s: Seq<u8>, i: int)
    requires
        all_hex(s),
        0 <= i <= s.len(),
    ensures
        0 <= hex_int(s.take(i)) <= hex_int(s),
    decreases s.len() - i,
{
    if i == s.len() {
        assert(s.take(i) =~= s);
        lemma_hex_int_nonneg(s);
    } else {
        lemma_hex_int_grows(s, i + 1);
        let t = s.take(i + 1);
        assert(t.drop_last() =~= s.take(i));
        lemma_hex_int_nonneg(s.take(i));
        assert(hex_int(s.take(i)) <= hex_int(t));
    }
}

proof fn lemma_hex_int_nonneg(s: Seq<u8>)
    requires
        all_hex(s),
    ensures
        hex_int(s) >= 0,
    decreases s.len(),
{
    if s.len() > 0 {
        assert(all_hex(s.drop_last()));
        lemma_hex_int_nonneg(s.drop_last());
    }
}

/// What parsing a string of hexadecimal digits yields: the value when the
/// string is non-empty, all digits, and the value fits in 64 bits.
pub open spec fn parse_hex_spec(s: Seq<u8>) -> Option<u64> {
    if s.len() > 0 && all_hex(s) && hex_int(s) <= u64::MAX {
        Some(hex_int(s) as u64)
    } else {
        None
    }
}

/// Strip one leading `0x`, if present.
pub open spec fn strip_0x(s: Seq<u8>) -> Seq<u8> {
    if s.len() >= 2 && s[0] == 48 && s[1] == 120 {
        s.skip(2)
    } else {
        s
    }
}

/// Parse a hexadecimal mask string with an optional `0x` prefix, as the
/// effector command surface accepts it.
pub fn parse_hex_u64(s: &str) -> (r: Option<u64>)
    ensures
        r == parse_hex_spec(strip_0x(s.spec_bytes())),
{
    let sb = s.as_bytes();
    let start: usize = if sb.len() >= 2 && sb[0] == 48 && sb[1] == 120 {
        2
    } else {
        0
    };
    let ghost t = strip_0x(s.spec_bytes());
    proof {
        assert(t =~= sb@.skip(start as int));
    }
    if sb.len() == start {
        return None;
    }
    let mut acc: u64 = 0;
    let mut i: usize = start;
    while i < sb.len()
        invariant
            sb@ == s.spec_bytes(),
            t == sb@.skip(start as int),
            t == strip_0x(s.spec_bytes()),
            start <= i <= sb@.len(),
            all_hex(t.take(i - start)),
            acc == hex_int(t.take(i - start)),
        decreases sb@.len() - i,
    {
        let b = sb[i];
        let v: u64 = if 48 <= b && b <= 57 {
            (b - 48) as u64
        } else if 97 <= b && b <= 102 {
            (b - 87) as u64
        } else if 65 <= b && b <= 70 {
            (b - 55) as u64
        } else {
            proof {
                assert(t[i - start] == sb@.skip(start as int)[i - start]);
                assert(!is_hex_byte(t[i - start]));
                assert(!all_hex(t));
            }
            return None;
        };
        proof {
            assert(t[i - start] == sb@.skip(start as int)[i - start]);
            assert(hex_byte_val(t[i - start]) == v);
            assert(t.take(i - start + 1).drop_last() =~= t.take(i - start));
            assert(t.take(i - start + 1).last() == t[i - start]);
            assert(forall|k: int|
                0 <= k < i - start + 1 ==> is_hex_byte(#[trigger] t.take(i - start + 1)[k]));
            assert(hex_int(t.take(i - start + 1)) == acc * 16 + v);
        }
        if acc > 0xFFF_FFFF_FFFF_FFFFu64 {
            proof {
                assert(acc * 16 + v > u64::MAX);
                lemma_hex_overflow(t, i - start + 1);
            }
            return None;
        }
        acc = acc * 16 + v;
        i = i + 1;
    }
    proof {
        assert(t.take(t.len() as int) =~= t);
        lemma_hex_int_nonneg(t);
    }
    Some(acc)
}

/// Once a prefix of the digits already exceeds `u64::MAX`, the whole
/// string does.
proof fn lemma_hex_overflow(s: Seq<u8>, i: int)
    requires
        0 <= i <= s.len(),
        all_hex(s.take(i)),
        hex_int(s.take(i)) > u64::MAX,
    ensures
        !(all_hex(s) && hex_int(s) <= u64::MAX),
{
    if all_hex(s) {
        lemma_hex_int_grows(s, i);
    }
}

/// The string with every occurrence of `nd` replaced by `rep`, scanning
/// left to right without overlap, as `str::replace` does.
pub open spec fn replaced(s: Seq<char>, nd: Seq<char>, rep: Seq<char>) -> Seq<char>
    decreases s.len(),
{
    if s.len() == 0 || nd.len() == 0 {
        s
    } else if s.len() >= nd.len() && s.subrange(0, nd.len() as int) == nd {
        rep + replaced(s.skip(nd.len() as int), nd, rep)
    } else {
        seq![s[0]] + replaced(s.skip(1), nd, rep)
    }
}

/// Replace every occurrence of a needle, scanning left to right.
pub fn replace_all(s: &str, nd: &str, rep: &str) -> (r: String)
    ensures
        r@ == replaced(s@, nd@, rep@),
{
    let n = s.unicode_len();
    let m = nd.unicode_len();
    let mut out = String::new();
    if m == 0 {
        proof {
            assert(replaced(s@, nd@, rep@) == s@);
        }
        return s.to_owned();
    }
    let mut i: usize = 0;
    proof {
        assert(s@.skip(0int) =~= s@);
        assert(out@ + replaced(s@, nd@, rep@) =~= replaced(s@, nd@, rep@));
    }
    while i < n
        invariant
            n == s@.len(),
            m == nd@.len(),
            m > 0,
            0 <= i <= n,
            replaced(s@, nd@, rep@) == out@ + replaced(s@.skip(i as int), nd@, rep@),
        decreases n - i,
    {
        let ghost rest = s@.skip(i as int);
        // Does the needle start here?
        let room = m <= n - i;
        let mut k: usize = 0;
        if room {
            while k < m
                invariant
                    n == s@.len(),
                    m == nd@.len(),
                    0 <= i <= n,
                    i + m <= n,
                    0 <= k <= m,
                    forall|j: int| 0 <= j < k ==> s@[i + j] == nd@[j],
                ensures
                    0 <= k <= m,
                    i + m <= n,
                    forall|j: int| 0 <= j < k ==> s@[i + j] == nd@[j],
                    k < m ==> s@[i + k] != nd@[k as int],
                decreases m - k,
            {
                if s.get_char(i + k) != nd.get_char(k) {
                    break;
                }
                k = k + 1;
            }
        }
        let matched = room && k == m;
        proof {
            if matched {
                assert(rest.subrange(0, m as int) =~= nd@);
            } else {
                if rest.len() >= m && rest.subrange(0, m as int) == nd@ {
                    assert(rest.len() == n - i);
                    assert(room);
                    assert(k < m);
                    assert(rest.subrange(0, m as int)[k as int] == s@[i + k]);
                    assert(false);
                }
            }
        }
        if matched {
            proof {
                assert(rest.subrange(0, m as int) =~= nd@);
                assert(rest.skip(m as int) =~= s@.skip(i + m));
                assert(replaced(rest, nd@, rep@) == rep@ + replaced(s@.skip(i + m), nd@, rep@));
            }
            let ghost before = out@;
            out.append(rep);
            proof {
                assert((before + rep@) + replaced(s@.skip(i + m), nd@, rep@) =~= before + (rep@
                    + replaced(s@.skip(i + m), nd@, rep@)));
            }
            i = i + m;
        } else {
            proof {
                assert(rest.len() == n - i);
                assert(rest[0] == s@[i as int]);
                assert(rest.skip(1) =~= s@.skip(i + 1));
                assert(replaced(rest, nd@, rep@) == seq![rest[0]] + replaced(
                    s@.skip(i + 1),
                    nd@,
                    rep@,
                ));
            }
            let ghost before = out@;
            let one = s.substring_char(i, i + 1);
            out.append(one);
            proof {
                assert(one@ =~= seq![s@[i as int]]);
                assert((before + seq![s@[i as int]]) + replaced(s@.skip(i + 1), nd@, rep@)
                    =~= before + (seq![s@[i as int]] + replaced(s@.skip(i + 1), nd@, rep@)));
            }
            i = i + 1;
        }
    }
    proof {
        assert(s@.skip(n as int) =~= Seq::<char>::empty());
        assert(replaced(Seq::<char>::empty(), nd@, rep@) == Seq::<char>::empty());
        assert(out@ + Seq::<char>::empty() =~= out@);
    }
    out
}

/// ASCII whitespace, as command lines use it.
pub open spec fn is_ws_char(c: char) -> bool {
    c == ' ' || c == '\t' || c == '\r' || c == '\n'
}

/// The first index at or after `i` holding a non-whitespace character.
pub open spec fn skip_ws(s: Seq<char>, i: int) -> int
    decreases s.len() - i,
{
    if i < 0 || i >= s.len() || !is_ws_char(s[i]) {
        i
    } else {
        skip_ws(s, i + 1)
    }
}

/// The end of the non-whitespace content before `j`.
pub open spec fn end_ws(s: Seq<char>, j: int) -> int
    decreases j,
{
    if j <= 0 || j > s.len() || !is_ws_char(s[j - 1]) {
        j
    } else {
        end_ws(s, j - 1)
    }
}

/// The string with ASCII whitespace trimmed from both ends.
pub open spec fn trimmed_ws(s: Seq<char>) -> Seq<char> {
    let a = skip_ws(s, 0);
    let b = end_ws(s, s.len() as int);
    if a < b {
        s.subrange(a, b)
    } else {
        Seq::empty()
    }
}


/// Trimming only moves the end leftwards.
pub(crate) proof fn lemma_end_ws_le(s: Seq<char>, j: int)
    ensures
        end_ws(s, j) <= j,
    decreases j,
{
    if !(j <= 0 || j > s.len() || !is_ws_char(s[j - 1])) {
        lemma_end_ws_le(s, j - 1);
    }
}


/// The first occurrence of `c` at or after `i`.
pub open spec fn find_from(s: Seq<char>, c: char, i: int) -> Option<int>
    decreases s.len() - i,
{
    if i < 0 || i >= s.len() {
        None
    } else if s[i] == c {
        Some(i)
    } else {
        find_from(s, c, i + 1)
    }
}


pub(crate) fn is_ws_x(c: char) -> (r: bool)
    ensures
        r == is_ws_char(c),
{
    c == ' ' || c == '\t' || c == '\r' || c == '\n'
}

/// Trim ASCII whitespace from both ends.
pub fn trim_ws(s: &str) -> (r: &str)
    ensures
        r@ == trimmed_ws(s@),
{
    let n = s.unicode_len();
    let mut a: usize = 0;
    while a < n && is_ws_x(s.get_char(a))
        invariant
            n == s@.len(),
            0 <= a <= n,
            skip_ws(s@, 0) == skip_ws(s@, a as int),
        decreases n - a,
    {
        a = a + 1;
    }
    proof {
        assert(skip_ws(s@, a as int) == a as int);
    }
    let mut b: usize = n;
    while b > a && is_ws_x(s.get_char(b - 1))
        invariant
            n == s@.len(),
            skip_ws(s@, 0) == a as int,
            a <= b <= n,
            end_ws(s@, n as int) == end_ws(s@, b as int),
        decreases b,
    {
        b = b - 1;
    }
    if a < b {
        proof {
            assert(end_ws(s@, b as int) == b as int);
        }
        s.substring_char(a, b)
    } else {
        proof {
            lemma_end_ws_le(s@, b as int);
            assert(skip_ws(s@, 0) >= end_ws(s@, s@.len() as int));
            assert(trimmed_ws(s@) =~= Seq::<char>::empty());
        }
        let r = s.substring_char(0, 0);
        proof {
            assert(r@ =~= Seq::<char>::empty());
        }
        r
    }
}


/// Find a character from an offset.
pub fn find_char_from(s: &str, c: char, from: usize) -> (r: Option<usize>)
    requires
        from <= s@.len(),
    ensures
        match r {
            Some(i) => from <= i < s@.len() && find_from(s@, c, from as int) == Some(i as int),
            None => find_from(s@, c, from as int) is None,
        },
{
    let n = s.unicode_len();
    let mut i: usize = from;
    while i < n
        invariant
            n == s@.len(),
            from <= i <= n,
            find_from(s@, c, from as int) == find_from(s@, c, i as int),
        decreases n - i,
    {
        if s.get_char(i) == c {
            return Some(i);
        }
        i = i + 1;
    }
    None
}


} // verus!
