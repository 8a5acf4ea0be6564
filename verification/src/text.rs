//! Lexical conventions of the assembly language, on sequences of characters.
//!
//! A source line is modelled as a `Seq<char>`. The functions here say what a
//! comment is, which characters are blank, where a separator stands and what a
//! decimal literal is worth. The executable functions work on a window
//! `lo..hi` of a vector of characters, so that positions stay those of the
//! line they come from.

use vstd::prelude::*;

verus! {

broadcast use vstd::string::group_string_axioms;

/// The blank characters: space, tab, carriage return and line feed.
pub open spec fn is_blank(c: char) -> bool {
    c == ' ' || c == '\t' || c == '\r' || c == '\n'
}

/// `s` without its leading blanks.
pub open spec fn trim_start(s: Seq<char>) -> Seq<char>
    decreases s.len(),
{
    if s.len() > 0 && is_blank(s[0]) {
        trim_start(s.drop_first())
    } else {
        s
    }
}

/// `s` without its trailing blanks.
pub open spec fn trim_end(s: Seq<char>) -> Seq<char>
    decreases s.len(),
{
    if s.len() > 0 && is_blank(s.last()) {
        trim_end(s.drop_last())
    } else {
        s
    }
}

/// `s` without its leading and trailing blanks.
pub open spec fn trim(s: Seq<char>) -> Seq<char> {
    trim_end(trim_start(s))
}

/// Index of the first occurrence of `c` in `s`, or `s.len()` if there is none.
pub open spec fn position(s: Seq<char>, c: char) -> int
    decreases s.len(),
{
    if s.len() == 0 || s[0] == c {
        0
    } else {
        1 + position(s.drop_first(), c)
    }
}

/// Index at which the first `//` of `s` begins, or `s.len()` if there is none.
pub open spec fn comment_start(s: Seq<char>) -> int
    decreases s.len(),
{
    if s.len() < 2 {
        s.len() as int
    } else if s[0] == '/' && s[1] == '/' {
        0
    } else {
        1 + comment_start(s.drop_first())
    }
}

/// Whether a `//` begins at index `i` of `s`.
pub open spec fn comment_at(s: Seq<char>, i: int) -> bool {
    0 <= i < s.len() - 1 && s[i] == '/' && s[i + 1] == '/'
}

/// `s` up to its first `//`: the line without its comment.
pub open spec fn strip_comment(s: Seq<char>) -> Seq<char> {
    s.take(comment_start(s))
}

/// Whether `s` is free of blanks.
pub open spec fn no_blank(s: Seq<char>) -> bool {
    forall|i: int| 0 <= i < s.len() ==> !is_blank(#[trigger] s[i])
}

/// Whether `c` is one of the ten decimal digits.
pub open spec fn is_digit(c: char) -> bool {
    '0' <= c && c <= '9'
}

/// Whether `s` is a decimal literal: one digit or more, and digits only.
pub open spec fn is_decimal(s: Seq<char>) -> bool {
    s.len() > 0 && forall|i: int| 0 <= i < s.len() ==> is_digit(#[trigger] s[i])
}

/// The number that the digit `c` stands for.
pub open spec fn digit_value(c: char) -> nat {
    (c as nat - '0' as nat) as nat
}

/// The number that the digits of `s` denote in base ten.
pub open spec fn decimal_value(s: Seq<char>) -> nat
    decreases s.len(),
{
    if s.len() == 0 {
        0
    } else {
        decimal_value(s.drop_last()) * 10 + digit_value(s.last())
    }
}

/// The character for one binary digit.
pub open spec fn bit_char(bit: nat) -> char {
    if bit == 0 {
        '0'
    } else {
        '1'
    }
}

/// The lowest `width` binary digits of `value`, most significant first.
pub open spec fn binary(value: nat, width: nat) -> Seq<char>
    decreases width,
{
    if width == 0 {
        Seq::empty()
    } else {
        binary(value / 2, (width - 1) as nat).push(bit_char(value % 2))
    }
}

/// The number that the binary digits of `s` denote, most significant first.
/// A character other than `1` counts as `0`.
pub open spec fn binary_value(s: Seq<char>) -> nat
    decreases s.len(),
{
    if s.len() == 0 {
        0
    } else {
        2 * binary_value(s.drop_last()) + if s.last() == '1' {
            1nat
        } else {
            0nat
        }
    }
}

/// The characters of `s`, in a vector.
pub fn chars_of(s: &str) -> (chars: Vec<char>)
    ensures
        chars@ == s@,
{
    let mut chars: Vec<char> = Vec::new();
    for c in it: s.chars()
        invariant
            it.seq() == s@,
            chars@ == s@.take(it.index()),
    {
        chars.push(c);
    }
    chars
}

/// Executable form of [`is_blank`].
pub fn blank(c: char) -> (b: bool)
    ensures
        b == is_blank(c),
{
    c == ' ' || c == '\t' || c == '\r' || c == '\n'
}

/// Where the window `lo..hi` begins once its leading blanks are dropped.
pub(crate) fn skip_blanks(chars: &Vec<char>, lo: usize, hi: usize) -> (start: usize)
    requires
        lo <= hi <= chars.len(),
    ensures
        lo <= start <= hi,
        chars@.subrange(start as int, hi as int) == trim_start(chars@.subrange(lo as int, hi as int)),
{
    let mut start: usize = lo;
    while start < hi && blank(chars[start])
        invariant
            lo <= start <= hi <= chars.len(),
            trim_start(chars@.subrange(start as int, hi as int)) == trim_start(
                chars@.subrange(lo as int, hi as int),
            ),
        decreases hi - start,
    {
        assert(chars@.subrange(start as int, hi as int).drop_first() =~= chars@.subrange(
            start + 1,
            hi as int,
        ));
        start += 1;
    }
    start
}

/// Where the window `lo..hi` ends once its trailing blanks are dropped.
pub(crate) fn drop_blanks(chars: &Vec<char>, lo: usize, hi: usize) -> (end: usize)
    requires
        lo <= hi <= chars.len(),
    ensures
        lo <= end <= hi,
        chars@.subrange(lo as int, end as int) == trim_end(chars@.subrange(lo as int, hi as int)),
{
    let mut end: usize = hi;
    while lo < end && blank(chars[end - 1])
        invariant
            lo <= end <= hi <= chars.len(),
            trim_end(chars@.subrange(lo as int, end as int)) == trim_end(
                chars@.subrange(lo as int, hi as int),
            ),
        decreases end - lo,
    {
        assert(chars@.subrange(lo as int, end as int).drop_last() =~= chars@.subrange(
            lo as int,
            end - 1,
        ));
        end -= 1;
    }
    end
}

/// Where `c` first stands in the window `lo..hi`, or `hi` if it does not.
pub(crate) fn find_char(chars: &Vec<char>, lo: usize, hi: usize, c: char) -> (at: usize)
    requires
        lo <= hi <= chars.len(),
    ensures
        lo <= at <= hi,
        at - lo == position(chars@.subrange(lo as int, hi as int), c),
{
    let mut at: usize = lo;
    while at < hi && chars[at] != c
        invariant
            lo <= at <= hi <= chars.len(),
            position(chars@.subrange(lo as int, hi as int), c) == (at - lo) + position(
                chars@.subrange(at as int, hi as int),
                c,
            ),
        decreases hi - at,
    {
        assert(chars@.subrange(at as int, hi as int).drop_first() =~= chars@.subrange(
            at + 1,
            hi as int,
        ));
        at += 1;
    }
    at
}

/// Where the comment of a line begins, or the line's length if it has none.
pub(crate) fn find_comment(chars: &Vec<char>) -> (at: usize)
    ensures
        at <= chars.len(),
        at == comment_start(chars@),
{
    let n: usize = chars.len();
    let mut at: usize = 0;
    assert(chars@.skip(0) =~= chars@);
    while n - at >= 2 && !(chars[at] == '/' && chars[at + 1] == '/')
        invariant
            at <= n == chars.len(),
            comment_start(chars@) == at + comment_start(chars@.skip(at as int)),
        decreases n - at,
    {
        assert(chars@.skip(at as int).drop_first() =~= chars@.skip(at + 1));
        at += 1;
    }
    if n - at >= 2 {
        at
    } else {
        n
    }
}

/// Whether the window `lo..hi` is free of blanks.
pub(crate) fn blank_free(chars: &Vec<char>, lo: usize, hi: usize) -> (b: bool)
    requires
        lo <= hi <= chars.len(),
    ensures
        b == no_blank(chars@.subrange(lo as int, hi as int)),
{
    let ghost window = chars@.subrange(lo as int, hi as int);
    let mut i: usize = lo;
    while i < hi
        invariant
            lo <= i <= hi <= chars.len(),
            window == chars@.subrange(lo as int, hi as int),
            forall|j: int| 0 <= j < i - lo ==> !is_blank(#[trigger] window[j]),
        decreases hi - i,
    {
        if blank(chars[i]) {
            assert(is_blank(window[i - lo]));
            return false;
        }
        i += 1;
    }
    true
}

/// Whether the window `lo..hi` is a decimal literal.
pub(crate) fn decimal(chars: &Vec<char>, lo: usize, hi: usize) -> (b: bool)
    requires
        lo <= hi <= chars.len(),
    ensures
        b == is_decimal(chars@.subrange(lo as int, hi as int)),
{
    let ghost window = chars@.subrange(lo as int, hi as int);
    if lo == hi {
        return false;
    }
    let mut i: usize = lo;
    while i < hi
        invariant
            lo <= i <= hi <= chars.len(),
            window == chars@.subrange(lo as int, hi as int),
            forall|j: int| 0 <= j < i - lo ==> is_digit(#[trigger] window[j]),
        decreases hi - i,
    {
        let c: char = chars[i];
        if !('0' <= c && c <= '9') {
            assert(!is_digit(window[i - lo]));
            return false;
        }
        i += 1;
    }
    true
}

/// A longer literal is worth at least as much as any of its prefixes.
proof fn lemma_decimal_value_grows(s: Seq<char>, n: int)
    requires
        0 <= n <= s.len(),
    ensures
        decimal_value(s.take(n)) <= decimal_value(s),
    decreases s.len(),
{
    if n == s.len() {
        assert(s.take(n) =~= s);
    } else {
        lemma_decimal_value_grows(s.drop_last(), n);
        assert(s.drop_last().take(n) =~= s.take(n));
    }
}

/// The value of the decimal literal in the window `lo..hi`, if it is at most
/// `limit`.
pub(crate) fn decimal_up_to(chars: &Vec<char>, lo: usize, hi: usize, limit: u16) -> (value: Option<u16>)
    requires
        lo <= hi <= chars.len(),
        is_decimal(chars@.subrange(lo as int, hi as int)),
    ensures
        value == if decimal_value(chars@.subrange(lo as int, hi as int)) <= limit {
            Some(decimal_value(chars@.subrange(lo as int, hi as int)) as u16)
        } else {
            None
        },
{
    let ghost window = chars@.subrange(lo as int, hi as int);
    let mut total: u32 = 0;
    let mut i: usize = lo;
    while i < hi
        invariant
            lo <= i <= hi <= chars.len(),
            window == chars@.subrange(lo as int, hi as int),
            is_decimal(window),
            total == decimal_value(window.take(i - lo)),
            total <= limit,
        decreases hi - i,
    {
        let c: char = chars[i];
        assert(c == window[i - lo]);
        let digit: u32 = c as u32 - '0' as u32;
        assert(window.take(i - lo + 1).drop_last() =~= window.take(i - lo));
        total = total * 10 + digit;
        if total > limit as u32 {
            proof {
                lemma_decimal_value_grows(window, i - lo + 1);
            }
            return None;
        }
        i += 1;
    }
    assert(window.take(hi - lo) =~= window);
    Some(total as u16)
}

/// Appends the lowest `width` binary digits of `value` to `text`.
pub fn append_binary(text: &mut String, value: u16, width: u8)
    ensures
        final(text)@ == old(text)@ + binary(value as nat, width as nat),
    decreases width,
{
    if width > 0 {
        append_binary(text, value / 2, width - 1);
        proof {
            reveal_strlit("0");
            reveal_strlit("1");
        }
        if value % 2 == 0 {
            text.append("0");
        } else {
            text.append("1");
        }
    }
}

/// `position` is where `c` first stands: `c` stands there and nowhere before,
/// and the position is the length if and only if `c` stands nowhere.
pub proof fn lemma_position(s: Seq<char>, c: char)
    ensures
        0 <= position(s, c) <= s.len(),
        position(s, c) < s.len() ==> s[position(s, c)] == c,
        forall|i: int| 0 <= i < position(s, c) ==> s[i] != c,
        position(s, c) == s.len() <==> !s.contains(c),
    decreases s.len(),
{
    if s.len() > 0 && s[0] != c {
        let rest = s.drop_first();
        lemma_position(rest, c);
        assert forall|i: int| 0 <= i < position(s, c) implies s[i] != c by {
            if i > 0 {
                assert(s[i] == rest[i - 1]);
            }
        }
        if rest.contains(c) {
            let i: int = choose|i: int| 0 <= i < rest.len() && rest[i] == c;
            assert(s[i + 1] == c);
        }
        if s.contains(c) {
            let i: int = choose|i: int| 0 <= i < s.len() && s[i] == c;
            assert(rest[i - 1] == c);
        }
    }
}

/// A text that neither begins nor ends with a blank and holds no `//` is
/// all instruction: dropping comment and outer blanks leaves it as it is.
pub proof fn lemma_plain_text(s: Seq<char>)
    requires
        s.len() > 0 ==> !is_blank(s[0]) && !is_blank(s.last()),
        forall|i: int| !#[trigger] comment_at(s, i),
    ensures
        comment_start(s) == s.len(),
        trim(strip_comment(s)) == s,
{
    lemma_no_comment(s);
}

/// Without a `//` the comment begins at the end.
proof fn lemma_no_comment(s: Seq<char>)
    requires
        forall|i: int| !#[trigger] comment_at(s, i),
    ensures
        comment_start(s) == s.len(),
    decreases s.len(),
{
    if s.len() >= 2 {
        let rest = s.drop_first();
        assert(!comment_at(s, 0));
        assert forall|i: int| !#[trigger] comment_at(rest, i) by {
            assert(!comment_at(s, i + 1));
        }
        lemma_no_comment(rest);
    }
}

/// A binary numeral of `width` digits has `width` characters, each `0` or `1`.
pub proof fn lemma_binary_shape(value: nat, width: nat)
    ensures
        binary(value, width).len() == width,
        forall|i: int|
            0 <= i < width ==> #[trigger] binary(value, width)[i] == '0' || binary(
                value,
                width,
            )[i] == '1',
    decreases width,
{
    if width > 0 {
        lemma_binary_shape(value / 2, (width - 1) as nat);
    }
}

/// The numeral of a number below `2^width` denotes the number.
pub proof fn lemma_binary_value(value: nat, width: nat)
    requires
        value < vstd::arithmetic::power2::pow2(width),
    ensures
        binary_value(binary(value, width)) == value,
    decreases width,
{
    if width == 0 {
        vstd::arithmetic::power2::lemma2_to64();
    } else {
        vstd::arithmetic::power2::lemma_pow2_unfold(width);
        lemma_binary_value(value / 2, (width - 1) as nat);
        let shorter = binary(value / 2, (width - 1) as nat);
        assert(binary(value, width).drop_last() =~= shorter);
    }
}

/// A number below `2^(width - 1)` has `0` as the first of its `width` binary
/// digits.
pub proof fn lemma_binary_leading_zero(value: nat, width: nat)
    requires
        width > 0,
        value < vstd::arithmetic::power2::pow2((width - 1) as nat),
    ensures
        binary(value, width).len() == width,
        binary(value, width)[0] == '0',
    decreases width,
{
    lemma_binary_shape(value, width);
    if width == 1 {
        vstd::arithmetic::power2::lemma2_to64();
    } else {
        vstd::arithmetic::power2::lemma_pow2_unfold((width - 1) as nat);
        lemma_binary_leading_zero(value / 2, (width - 1) as nat);
    }
}

} // verus!
