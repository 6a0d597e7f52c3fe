//! Scanning of ASCII text: decimal numbers and separator search.

use vstd::prelude::*;
use vstd::string::*;
use vstd::utf8::*;

verus! {

/// Whether `c` is an ASCII decimal digit.
pub open spec fn is_digit(c: char) -> bool {
    '0' <= c && c <= '9'
}

/// The number a decimal digit stands for.
pub open spec fn digit_value(c: char) -> nat {
    (c as nat - '0' as nat) as nat
}

/// Whether `s` is a non-empty run of decimal digits.
pub open spec fn is_decimal(s: Seq<char>) -> bool {
    s.len() > 0 && forall|i: int| 0 <= i < s.len() ==> is_digit(#[trigger] s[i])
}

/// The number that the digits of `s` write in base ten, most significant first.
pub open spec fn digits_value(s: Seq<char>) -> nat
    decreases s.len(),
{
    if s.len() == 0 {
        0
    } else {
        digits_value(s.drop_last()) * 10 + digit_value(s.last())
    }
}

/// The 64-bit number that `s` writes in decimal, if it writes one.
pub open spec fn decimal_value(s: Seq<char>) -> Option<u64> {
    if is_decimal(s) && digits_value(s) <= u64::MAX {
        Some(digits_value(s) as u64)
    } else {
        None
    }
}

/// A longer run of digits never writes a smaller number than its prefix.
pub proof fn lemma_digits_value_monotonic(s: Seq<char>, k: int)
    requires
        0 <= k <= s.len(),
    ensures
        digits_value(s.take(k)) <= digits_value(s),
    decreases s.len() - k,
{
    if k == s.len() {
        assert(s.take(k) =~= s);
    } else {
        lemma_digits_value_monotonic(s, k + 1);
        assert(s.take(k + 1).drop_last() =~= s.take(k));
    }
}

/// The number of characters of an ASCII text.
pub fn ascii_len(text: &str) -> (n: usize)
    requires
        text.is_ascii(),
    ensures
        n == text@.len(),
{
    proof {
        is_ascii_chars_encode_utf8(text@);
    }
    text.as_bytes().len()
}

/// Whether two texts hold the same characters.
pub fn same_text(a: &str, b: &str) -> (r: bool)
    ensures
        r == (a@ == b@),
{
    let x: &[u8] = a.as_bytes();
    let y: &[u8] = b.as_bytes();
    proof {
        encode_utf8_decode_utf8(a@);
        encode_utf8_decode_utf8(b@);
    }
    if x.len() != y.len() {
        return false;
    }
    let n: usize = x.len();
    let mut i: usize = 0;
    while i < n
        invariant
            n == x@.len(),
            n == y@.len(),
            i <= n,
            x@ == encode_utf8(a@),
            y@ == encode_utf8(b@),
            forall|j: int| 0 <= j < i ==> x@[j] == y@[j],
        decreases n - i,
    {
        if x[i] != y[i] {
            return false;
        }
        i += 1;
    }
    assert(x@ =~= y@);
    true
}

/// Reads `text` as an unsigned decimal number that fits 64 bits.
pub fn parse_decimal(text: &str) -> (r: Option<u64>)
    ensures
        r == decimal_value(text@),
{
    if !text.is_ascii() {
        assert(is_decimal(text@) ==> is_ascii_chars(text@));
        return None;
    }
    let n = ascii_len(text);
    if n == 0 {
        return None;
    }
    let mut acc: u64 = 0;
    let mut i: usize = 0;
    while i < n
        invariant
            text.is_ascii(),
            n == text@.len(),
            i <= n,
            acc == digits_value(text@.take(i as int)),
            forall|j: int| 0 <= j < i ==> is_digit(#[trigger] text@[j]),
        decreases n - i,
    {
        let b = text.get_ascii(i);
        if b < 48 || b > 57 {
            assert(!is_digit(text@[i as int]));
            return None;
        }
        let d: u64 = (b - 48) as u64;
        assert(text@.take(i + 1).drop_last() =~= text@.take(i as int));
        assert(digit_value(text@[i as int]) == d);
        if acc > (u64::MAX - d) / 10 {
            proof {
                lemma_digits_value_monotonic(text@, i + 1);
            }
            return None;
        }
        acc = acc * 10 + d;
        i += 1;
    }
    assert(text@.take(n as int) =~= text@);
    Some(acc)
}

/// Whether `s` writes `n` in decimal without leading zeros.
pub open spec fn writes(s: Seq<char>, n: u64) -> bool {
    decimal_value(s) == Some(n) && (s.len() == 1 || digit_value(s[0]) != 0)
}

/// The text of one decimal digit.
pub fn digit_text(d: u8) -> (r: &'static str)
    requires
        d < 10,
    ensures
        r@.len() == 1,
        is_digit(r@[0]),
        digit_value(r@[0]) == d,
{
    proof {
        reveal_strlit("0");
        reveal_strlit("1");
        reveal_strlit("2");
        reveal_strlit("3");
        reveal_strlit("4");
        reveal_strlit("5");
        reveal_strlit("6");
        reveal_strlit("7");
        reveal_strlit("8");
        reveal_strlit("9");
    }
    match d {
        0 => "0",
        1 => "1",
        2 => "2",
        3 => "3",
        4 => "4",
        5 => "5",
        6 => "6",
        7 => "7",
        8 => "8",
        _ => "9",
    }
}

/// Writes `n` in decimal, without leading zeros.
pub fn format_decimal(n: u64) -> (s: String)
    ensures
        writes(s@, n),
    decreases n,
{
    let mut s: String = if n < 10 {
        String::new()
    } else {
        format_decimal(n / 10)
    };
    let ghost front = s@;
    let digit: &str = digit_text((n % 10) as u8);
    s.append(digit);
    proof {
        assert(s@ =~= front.push(digit@[0]));
        assert(s@.drop_last() =~= front);
        if n >= 10 {
            assert(s@[0] == front[0]);
            if front.len() == 1 {
                assert(digits_value(front.drop_last()) == 0);
                assert(front.last() == front[0]);
            }
        }
    }
    s
}

/// Index of the first `sep` in `s`, or the length of `s` where it holds none.
pub open spec fn first_at(s: Seq<char>, sep: char) -> nat
    decreases s.len(),
{
    if s.len() == 0 || s[0] == sep {
        0
    } else {
        1 + first_at(s.skip(1), sep)
    }
}

/// `first_at` is the one position before which no `sep` stands and at which
/// `s` ends or holds `sep`.
pub proof fn lemma_first_at(s: Seq<char>, sep: char, k: int)
    requires
        0 <= k <= s.len(),
        forall|j: int| 0 <= j < k ==> s[j] != sep,
        k < s.len() ==> s[k] == sep,
    ensures
        first_at(s, sep) == k,
    decreases s.len(),
{
    if k > 0 {
        let rest = s.skip(1);
        assert forall|j: int| 0 <= j < k - 1 implies rest[j] != sep by {
            assert(rest[j] == s[j + 1]);
        }
        lemma_first_at(rest, sep, k - 1);
    }
}

/// Finds the first byte `b` of an ASCII text at or after `from` and before `to`.
pub fn find_byte(text: &str, from: usize, to: usize, b: u8) -> (k: usize)
    requires
        text.is_ascii(),
        from <= to <= text@.len(),
        b < 128,
    ensures
        from <= k <= to,
        k - from == first_at(text@.subrange(from as int, to as int), b as char),
{
    let mut i: usize = from;
    while i < to && text.get_ascii(i) != b
        invariant
            text.is_ascii(),
            from <= i <= to <= text@.len(),
            b < 128,
            forall|j: int| from <= j < i ==> text@[j] != b as char,
        decreases to - i,
    {
        i += 1;
    }
    proof {
        let piece = text@.subrange(from as int, to as int);
        assert forall|j: int| 0 <= j < i - from implies piece[j] != b as char by {
            assert(piece[j] == text@[from + j]);
        }
        lemma_first_at(piece, b as char, i - from);
    }
    i
}

/// The pieces of `text` between the occurrences of `sep`. A text without
/// `sep` is one piece, and so is the empty text.
pub open spec fn pieces_of(text: Seq<char>, sep: char) -> Seq<Seq<char>>
    decreases text.len(),
{
    let k = first_at(text, sep) as int;
    if k < text.len() {
        seq![text.take(k)] + pieces_of(text.skip(k + 1), sep)
    } else {
        seq![text]
    }
}

/// The characters of each text of `texts`, in order.
pub open spec fn text_views(texts: Seq<String>) -> Seq<Seq<char>> {
    Seq::new(texts.len(), |i: int| texts[i]@)
}

/// Cuts an ASCII text at every byte `sep`.
pub fn split_ascii(text: &str, sep: u8) -> (pieces: Vec<String>)
    requires
        text.is_ascii(),
        sep < 128,
    ensures
        text_views(pieces@) == pieces_of(text@, sep as char),
{
    let n: usize = ascii_len(text);
    let mut pieces: Vec<String> = Vec::new();
    let mut start: usize = 0;
    assert(text@.skip(0) =~= text@);
    assert(text_views(pieces@) =~= Seq::empty());
    loop
        invariant
            text.is_ascii(),
            n == text@.len(),
            start <= n,
            sep < 128,
            pieces_of(text@, sep as char) == text_views(pieces@) + pieces_of(
                text@.skip(start as int),
                sep as char,
            ),
        decreases n - start,
    {
        let end: usize = find_byte(text, start, n, sep);
        let piece: &str = text.substring_ascii(start, end);
        let ghost rest = text@.skip(start as int);
        let ghost before = text_views(pieces@);
        pieces.push(piece.to_owned());
        proof {
            assert(rest =~= text@.subrange(start as int, n as int));
            assert(rest.take(end - start) =~= piece@);
            assert(text_views(pieces@) =~= before.push(piece@));
            if end < n {
                assert(rest.skip(end - start + 1) =~= text@.skip(end + 1));
                let tail = pieces_of(text@.skip(end + 1), sep as char);
                assert(before + (seq![piece@] + tail) =~= before.push(piece@) + tail);
            } else {
                assert(rest.take(end - start) =~= rest);
                assert(before + seq![piece@] =~= before.push(piece@));
            }
        }
        if end == n {
            return pieces;
        }
        start = end + 1;
    }
}

} // verus!
