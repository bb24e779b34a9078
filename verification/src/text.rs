//! Numbers and bytes as text: decimal and hexadecimal digits, padding.

use vstd::prelude::*;
use vstd::string::*;

verus! {

/// The character of a decimal digit.
pub open spec fn digit_char(d: int) -> char {
    (('0' as u8) + d) as char
}

/// The decimal digits of `n`, without leading zeros.
pub open spec fn decimal(n: nat) -> Seq<char>
    decreases n,
{
    if n < 10 {
        seq![digit_char(n as int)]
    } else {
        decimal(n / 10).push(digit_char((n % 10) as int))
    }
}

/// The last three decimal digits of `n`, with leading zeros.
pub open spec fn decimal3(n: nat) -> Seq<char> {
    seq![
        digit_char(((n / 100) % 10) as int),
        digit_char(((n / 10) % 10) as int),
        digit_char((n % 10) as int),
    ]
}

/// The character of a hexadecimal digit, in lower case.
pub open spec fn hex_char(d: int) -> char {
    if d < 10 {
        (('0' as u8) + d) as char
    } else {
        (('a' as u8) + (d - 10)) as char
    }
}

/// Two lower-case hexadecimal digits for each byte.
pub open spec fn hex(bytes: Seq<u8>) -> Seq<char>
    decreases bytes.len(),
{
    if bytes.len() == 0 {
        Seq::empty()
    } else {
        hex(bytes.drop_last()).push(hex_char(bytes.last() as int / 16)).push(
            hex_char(bytes.last() as int % 16),
        )
    }
}

/// `s` in the middle of a field of `width` characters; of an odd number
/// of spaces the larger half stands behind.  A text that is too long is
/// left as it is.
pub open spec fn centered(s: Seq<char>, width: nat) -> Seq<char> {
    if s.len() >= width {
        s
    } else {
        let pad = (width - s.len()) as nat;
        Seq::new(pad / 2, |i: int| ' ') + s + Seq::new((pad - pad / 2) as nat, |i: int| ' ')
    }
}

/// Whether `c` is white space.
pub open spec fn is_space(c: char) -> bool {
    ||| c == ' '
    ||| ('\t' <= c && c <= '\r')
    ||| c == '\u{85}'
    ||| c == '\u{a0}'
    ||| c == '\u{1680}'
    ||| ('\u{2000}' <= c && c <= '\u{200a}')
    ||| c == '\u{2028}'
    ||| c == '\u{2029}'
    ||| c == '\u{202f}'
    ||| c == '\u{205f}'
    ||| c == '\u{3000}'
}

/// `s` without the white space at its start.
pub open spec fn trim_start_spec(s: Seq<char>) -> Seq<char>
    decreases s.len(),
{
    if s.len() > 0 && is_space(s[0]) {
        trim_start_spec(s.drop_first())
    } else {
        s
    }
}

/// `s` without the white space at its end.
pub open spec fn trim_end_spec(s: Seq<char>) -> Seq<char>
    decreases s.len(),
{
    if s.len() > 0 && is_space(s.last()) {
        trim_end_spec(s.drop_last())
    } else {
        s
    }
}

/// `s` without the white space at its start and at its end.
pub open spec fn trim_spec(s: Seq<char>) -> Seq<char> {
    trim_end_spec(trim_start_spec(s))
}

/// The pieces of `s` between the separators: one more than there are
/// separators.
pub open spec fn split_spec(s: Seq<char>, sep: char) -> Seq<Seq<char>>
    decreases s.len(),
{
    if s.len() == 0 {
        seq![Seq::empty()]
    } else {
        let before = split_spec(s.drop_last(), sep);
        if s.last() == sep {
            before.push(Seq::empty())
        } else {
            before.drop_last().push(before.last().push(s.last()))
        }
    }
}

/// The pieces of `s` between the separators, each without the white space
/// around it.
pub open spec fn split_trimmed_spec(s: Seq<char>, sep: char) -> Seq<Seq<char>> {
    split_spec(s, sep).map_values(|piece: Seq<char>| trim_spec(piece))
}

/// A text always has a piece.
pub proof fn lemma_split_nonempty(s: Seq<char>, sep: char)
    ensures
        split_spec(s, sep).len() > 0,
    decreases s.len(),
{
    if s.len() > 0 {
        lemma_split_nonempty(s.drop_last(), sep);
    }
}

/// Where the first `k` characters are white space and the next one is
/// not, the text without the white space at its start begins there.
pub proof fn lemma_trim_start(s: Seq<char>, k: int)
    requires
        0 <= k <= s.len(),
        forall|i: int| 0 <= i < k ==> is_space(#[trigger] s[i]),
        k < s.len() ==> !is_space(s[k]),
    ensures
        trim_start_spec(s) == s.subrange(k, s.len() as int),
    decreases k,
{
    if k == 0 {
        assert(s.subrange(0, s.len() as int) =~= s);
    } else {
        let rest = s.drop_first();
        assert forall|i: int| 0 <= i < k - 1 implies is_space(#[trigger] rest[i]) by {
            assert(rest[i] == s[i + 1]);
        }
        if k < s.len() {
            assert(rest[k - 1] == s[k]);
        }
        lemma_trim_start(rest, k - 1);
        assert(rest.subrange(k - 1, rest.len() as int) =~= s.subrange(k, s.len() as int));
    }
}

/// Where the characters from position `k` on are white space and the one
/// before is not, the text without the white space at its end ends there.
pub proof fn lemma_trim_end(s: Seq<char>, k: int)
    requires
        0 <= k <= s.len(),
        forall|i: int| k <= i < s.len() ==> is_space(#[trigger] s[i]),
        k > 0 ==> !is_space(s[k - 1]),
    ensures
        trim_end_spec(s) == s.subrange(0, k),
    decreases s.len() - k,
{
    if k == s.len() {
        assert(s.subrange(0, k) =~= s);
    } else {
        let rest = s.drop_last();
        assert(is_space(s[s.len() - 1]));
        assert forall|i: int| k <= i < rest.len() implies is_space(#[trigger] rest[i]) by {
            assert(rest[i] == s[i]);
        }
        if k > 0 {
            assert(rest[k - 1] == s[k - 1]);
        }
        lemma_trim_end(rest, k);
        assert(rest.subrange(0, k) =~= s.subrange(0, k));
    }
}

/// Tests whether `c` is white space.
pub fn is_whitespace(c: char) -> (r: bool)
    ensures
        r == is_space(c),
{
    c == ' ' || ('\t' <= c && c <= '\r') || c == '\u{85}' || c == '\u{a0}' || c == '\u{1680}' || (
    '\u{2000}' <= c && c <= '\u{200a}') || c == '\u{2028}' || c == '\u{2029}' || c == '\u{202f}'
        || c == '\u{205f}' || c == '\u{3000}'
}

/// The characters without the white space at their start and end, as a
/// text.
pub fn trim_chars(chars: &Vec<char>) -> (r: String)
    ensures
        r@ == trim_spec(chars@),
{
    let n = chars.len();
    let mut start: usize = 0;
    while start < n && is_whitespace(chars[start])
        invariant
            start <= n,
            n == chars.len(),
            forall|i: int| 0 <= i < start ==> is_space(#[trigger] chars@[i]),
        decreases n - start,
    {
        start = start + 1;
    }
    let ghost front = chars@.subrange(start as int, n as int);
    proof {
        lemma_trim_start(chars@, start as int);
    }
    let mut end: usize = n;
    while end > start && is_whitespace(chars[end - 1])
        invariant
            start <= end <= n,
            n == chars.len(),
            forall|i: int| end <= i < n ==> is_space(#[trigger] chars@[i]),
        decreases end,
    {
        end = end - 1;
    }
    proof {
        assert forall|i: int| end - start <= i < front.len() implies is_space(
            #[trigger] front[i],
        ) by {
            assert(front[i] == chars@[start + i]);
        }
        if end > start {
            assert(front[end - start - 1] == chars@[end - 1]);
        }
        lemma_trim_end(front, end - start);
        assert(front.subrange(0, end - start) =~= chars@.subrange(start as int, end as int));
    }
    let mut r = String::new();
    let mut i: usize = start;
    while i < end
        invariant
            start <= i <= end <= n,
            n == chars.len(),
            r@ == chars@.subrange(start as int, i as int),
        decreases end - i,
    {
        r.push(chars[i]);
        assert(chars@.subrange(start as int, i + 1) =~= chars@.subrange(
            start as int,
            i as int,
        ).push(chars@[i as int]));
        i = i + 1;
    }
    r
}

/// The pieces of `s` between the separators, each without the white space
/// around it.
pub fn split_trimmed(s: &str, sep: char) -> (r: Vec<String>)
    ensures
        r@.map_values(|p: String| p@) == split_trimmed_spec(s@, sep),
{
    let mut done: Vec<String> = Vec::new();
    let mut piece: Vec<char> = Vec::new();
    let ghost text = s@;
    assert(done@.map_values(|p: String| p@) =~= split_spec(
        text.take(0),
        sep,
    ).drop_last().map_values(|piece: Seq<char>| trim_spec(piece)));
    for c in it: s.chars()
        invariant
            it.seq() == text,
            text == s@,
            split_spec(text.take(it.index() as int), sep).len() > 0,
            piece@ == split_spec(text.take(it.index() as int), sep).last(),
            done@.map_values(|p: String| p@) == split_spec(
                text.take(it.index() as int),
                sep,
            ).drop_last().map_values(|piece: Seq<char>| trim_spec(piece)),
    {
        let ghost i = it.index() as int;
        let ghost before = split_spec(text.take(i), sep);
        let ghost shown = done@.map_values(|p: String| p@);
        proof {
            assert(text.take(i + 1).drop_last() =~= text.take(i));
            assert(text.take(i + 1).last() == c);
            lemma_split_nonempty(text.take(i + 1), sep);
        }
        if c == sep {
            let trimmed = trim_chars(&piece);
            done.push(trimmed);
            piece = Vec::new();
            assert(before.push(Seq::empty()).drop_last() =~= before);
            assert(before.map_values(|piece: Seq<char>| trim_spec(piece))
                =~= before.drop_last().map_values(|piece: Seq<char>| trim_spec(piece)).push(
                trim_spec(before.last()),
            ));
        } else {
            piece.push(c);
            assert(before.drop_last().push(before.last().push(c)).drop_last()
                =~= before.drop_last());
        }
    }
    assert(text.take(text.len() as int) =~= text);
    let ghost all = split_spec(text, sep);
    let ghost shown = done@.map_values(|p: String| p@);
    let trimmed = trim_chars(&piece);
    done.push(trimmed);
    proof {
        assert(all =~= all.drop_last().push(all.last()));
        assert(done@.map_values(|p: String| p@) =~= shown.push(trim_spec(all.last())));
        assert(all.map_values(|piece: Seq<char>| trim_spec(piece)) =~= all.drop_last().map_values(
            |piece: Seq<char>| trim_spec(piece),
        ).push(trim_spec(all.last())));
    }
    done
}

/// The character of the decimal digit `d`.
pub fn digit(d: u8) -> (r: char)
    requires
        d < 10,
    ensures
        r == digit_char(d as int),
{
    (48u8 + d) as char
}

/// The character of the hexadecimal digit `d`.
pub fn hex_digit(d: u8) -> (r: char)
    requires
        d < 16,
    ensures
        r == hex_char(d as int),
{
    if d < 10 {
        (48u8 + d) as char
    } else {
        (97u8 + (d - 10)) as char
    }
}

/// Appends the decimal digits of `n` to `out`.
pub fn push_decimal(out: &mut String, n: u64)
    ensures
        final(out)@ == old(out)@ + decimal(n as nat),
{
    let ghost start = out@;
    let mut digits: Vec<char> = Vec::new();
    digits.push(digit((n % 10) as u8));
    let mut m = n / 10;
    while m > 0
        invariant
            digits.len() > 0,
            decimal(n as nat) == if m > 0 {
                decimal(m as nat) + digits@.reverse()
            } else {
                digits@.reverse()
            },
        decreases m,
    {
        let ghost before = digits@;
        let d = digit((m % 10) as u8);
        digits.push(d);
        assert(decimal(m as nat) + before.reverse() =~= if m / 10 > 0 {
            decimal((m / 10) as nat) + digits@.reverse()
        } else {
            digits@.reverse()
        });
        m = m / 10;
    }
    let mut k = digits.len();
    while k > 0
        invariant
            k <= digits.len(),
            out@ == start + digits@.reverse().take(digits.len() - k),
        decreases k,
    {
        out.push(digits[k - 1]);
        assert(digits@.reverse().take(digits.len() - k + 1) =~= digits@.reverse().take(
            digits.len() - k,
        ).push(digits@[k - 1]));
        k = k - 1;
    }
}

/// Appends the last three decimal digits of `n` to `out`.
pub fn push_decimal3(out: &mut String, n: u64)
    ensures
        final(out)@ == old(out)@ + decimal3(n as nat),
{
    out.push(digit(((n / 100) % 10) as u8));
    out.push(digit(((n / 10) % 10) as u8));
    out.push(digit((n % 10) as u8));
}

/// The decimal digits of `n`.
pub fn decimal_string(n: u64) -> (r: String)
    ensures
        r@ == decimal(n as nat),
{
    let mut r = String::new();
    push_decimal(&mut r, n);
    r
}

/// The bytes in lower-case hexadecimal digits.
pub fn hex_string(bytes: &Vec<u8>) -> (r: String)
    ensures
        r@ == hex(bytes@),
{
    let mut r = String::new();
    let mut i: usize = 0;
    while i < bytes.len()
        invariant
            i <= bytes.len(),
            r@ == hex(bytes@.take(i as int)),
        decreases bytes.len() - i,
    {
        let b = bytes[i];
        assert(bytes@.take(i + 1).drop_last() =~= bytes@.take(i as int));
        r.push(hex_digit(b / 16));
        r.push(hex_digit(b % 16));
        i = i + 1;
    }
    assert(bytes@.take(bytes.len() as int) =~= bytes@);
    r
}

/// Appends `count` spaces to `out`.
pub fn push_spaces(out: &mut String, count: usize)
    ensures
        final(out)@ == old(out)@ + Seq::new(count as nat, |i: int| ' '),
{
    let ghost start = out@;
    let mut i: usize = 0;
    while i < count
        invariant
            i <= count,
            out@ == start + Seq::new(i as nat, |i: int| ' '),
        decreases count - i,
    {
        out.push(' ');
        i = i + 1;
    }
}

/// `s` in the middle of a field of `width` characters.
pub fn center(s: &str, width: usize) -> (r: String)
    ensures
        r@ == centered(s@, width as nat),
{
    let n = s.unicode_len();
    if n >= width {
        String::from_str(s)
    } else {
        let pad = width - n;
        let mut r = String::new();
        push_spaces(&mut r, pad / 2);
        r.append(s);
        push_spaces(&mut r, pad - pad / 2);
        r
    }
}

} // verus!
