//! Text helpers shared by the parsers: comparison, case folding, trimming,
//! splitting of `/`-separated lists and reading of printed numbers.

use vstd::prelude::*;
use vstd::string::{StrSliceExecFns, StringSliceAdditionalSpecFns};
use vstd::utf8::{encode_scalar, encode_utf8, encode_utf8_decode_utf8};

verus! {

/// The uppercase form that the standard library computes for `text`.
pub uninterp spec fn uppercase_of(text: Seq<char>) -> Seq<char>;

/// Calls `str::to_uppercase`. The result is a function of the text alone
/// (the mapping is the Unicode one and does not look at a locale); what
/// it is for a given text is not stated here, only named as
/// [`uppercase_of`].
#[verifier::external_body]
pub(crate) fn to_uppercase(text: &str) -> (upper: String)
    ensures
        upper@ == uppercase_of(text@),
{
    text.to_uppercase()
}

/// Whether two strings hold the same characters.
pub fn str_eq(left: &str, right: &str) -> (same: bool)
    ensures
        same == (left@ == right@),
{
    let a = left.as_bytes();
    let b = right.as_bytes();
    proof {
        encode_utf8_decode_utf8(left@);
        encode_utf8_decode_utf8(right@);
    }
    if a.len() != b.len() {
        return false;
    }
    let mut i: usize = 0;
    while i < a.len()
        invariant
            i <= a.len(),
            a.len() == b.len(),
            a@ == encode_utf8(left@),
            b@ == encode_utf8(right@),
            forall|k: int| 0 <= k < i ==> a@[k] == b@[k],
        decreases a.len() - i,
    {
        if a[i] != b[i] {
            return false;
        }
        i += 1;
    }
    assert(a@ =~= b@);
    true
}

/// A text takes four bytes for each of its characters at most.
pub proof fn lemma_bytes_of_text(text: Seq<char>)
    ensures
        encode_utf8(text).len() <= 4 * text.len(),
    decreases text.len(),
{
    if text.len() > 0 {
        assert(encode_scalar(text[0] as u32).len() <= 4);
        lemma_bytes_of_text(text.drop_first());
    }
}

/// The characters of `text`, in order.
pub fn chars_of(text: &str) -> (chars: Vec<char>)
    ensures
        chars@ == text@,
{
    let mut chars: Vec<char> = Vec::new();
    for c in it: text.chars()
        invariant
            chars@ == it.seq().take(it.index() as int),
            it.seq() == text@,
    {
        chars.push(c);
    }
    chars
}

/// The blanks that surround a value in markup: space, tab, line feed,
/// form feed and carriage return.
pub open spec fn is_blank(c: char) -> bool {
    c == ' ' || c == '\t' || c == '\n' || c == '\x0C' || c == '\r'
}

/// `text` without its leading blanks.
pub open spec fn trim_start(text: Seq<char>) -> Seq<char>
    decreases text.len(),
{
    if text.len() > 0 && is_blank(text.first()) {
        trim_start(text.drop_first())
    } else {
        text
    }
}

/// `text` without its trailing blanks.
pub open spec fn trim_end(text: Seq<char>) -> Seq<char>
    decreases text.len(),
{
    if text.len() > 0 && is_blank(text.last()) {
        trim_end(text.drop_last())
    } else {
        text
    }
}

/// `text` without the blanks at either end.
pub open spec fn trimmed(text: Seq<char>) -> Seq<char> {
    trim_end(trim_start(text))
}

fn blank(c: char) -> (b: bool)
    ensures
        b == is_blank(c),
{
    c == ' ' || c == '\t' || c == '\n' || c == '\x0C' || c == '\r'
}

/// Strips the blanks at both ends of `text`.
pub fn trim(text: &str) -> (inner: &str)
    ensures
        inner@ == trimmed(text@),
{
    let chars = chars_of(text);
    let n: usize = chars.len();
    let mut start: usize = 0;
    assert(chars@.skip(0) =~= chars@);
    while start < n && blank(chars[start])
        invariant
            start <= n,
            n == chars@.len(),
            trim_start(chars@) == trim_start(chars@.skip(start as int)),
        decreases n - start,
    {
        assert(chars@.skip(start as int).drop_first() =~= chars@.skip(start as int + 1));
        start += 1;
    }
    assert(trim_start(chars@) == chars@.skip(start as int));
    let mut end: usize = n;
    assert(chars@.skip(start as int) =~= chars@.subrange(start as int, end as int));
    while end > start && blank(chars[end - 1])
        invariant
            start <= end <= n,
            n == chars@.len(),
            trimmed(chars@) == trim_end(chars@.subrange(start as int, end as int)),
        decreases end - start,
    {
        assert(chars@.subrange(start as int, end as int).drop_last() =~= chars@.subrange(
            start as int,
            end as int - 1,
        ));
        end -= 1;
    }
    text.substring_char(start, end)
}

/// `text` cut at each `separator`: the pieces between the separators, in
/// order. A text without a separator is its own single piece, and so is the
/// empty text.
pub open spec fn pieces(text: Seq<char>, separator: char) -> Seq<Seq<char>>
    decreases text.len(),
{
    if text.len() == 0 {
        seq![Seq::<char>::empty()]
    } else {
        let before = pieces(text.drop_last(), separator);
        if text.last() == separator {
            before.push(Seq::<char>::empty())
        } else {
            before.drop_last().push(before.last().push(text.last()))
        }
    }
}

/// The entries of a list written with `/` between them, each without the
/// blanks around it.
pub open spec fn list_items(text: Seq<char>) -> Seq<Seq<char>> {
    pieces(text, '/').map_values(|piece: Seq<char>| trimmed(piece))
}

/// Reads a list written with `/` between its entries.
pub fn split_list(text: &str) -> (items: Vec<String>)
    ensures
        items.deep_view() == list_items(text@),
{
    let chars = chars_of(text);
    let n: usize = chars.len();
    let mut items: Vec<String> = Vec::new();
    let mut start: usize = 0;
    let mut i: usize = 0;
    assert(chars@.take(0) =~= Seq::<char>::empty());
    assert(chars@.subrange(0, 0) =~= Seq::<char>::empty());
    assert(pieces(chars@.take(0), '/').drop_last() =~= Seq::<Seq<char>>::empty());
    while i < n
        invariant
            start <= i <= n,
            n == chars@.len(),
            chars@ == text@,
            pieces(chars@.take(i as int), '/').len() > 0,
            pieces(chars@.take(i as int), '/').last() == chars@.subrange(start as int, i as int),
            items.deep_view() == pieces(chars@.take(i as int), '/').drop_last().map_values(
                |piece: Seq<char>| trimmed(piece),
            ),
        decreases n - i,
    {
        let ghost before = pieces(chars@.take(i as int), '/');
        let ghost after = pieces(chars@.take(i as int + 1), '/');
        proof {
            assert(chars@.take(i as int + 1).drop_last() =~= chars@.take(i as int));
            assert(chars@.take(i as int + 1).last() == chars@[i as int]);
        }
        if chars[i] == '/' {
            let item = trim(text.substring_char(start, i)).to_owned();
            let ghost old_items = items.deep_view();
            items.push(item);
            proof {
                assert(after == before.push(Seq::<char>::empty()));
                assert(after.drop_last() =~= before);
                assert(before =~= before.drop_last().push(before.last()));
                assert(items.deep_view() =~= old_items.push(trimmed(before.last())));
                assert(after.drop_last().map_values(|piece: Seq<char>| trimmed(piece))
                    =~= before.drop_last().map_values(|piece: Seq<char>| trimmed(piece)).push(
                    trimmed(before.last()),
                ));
                assert(chars@.subrange(i as int + 1, i as int + 1) =~= Seq::<char>::empty());
            }
            start = i + 1;
        } else {
            proof {
                assert(after == before.drop_last().push(before.last().push(chars@[i as int])));
                assert(after.drop_last() =~= before.drop_last());
                assert(chars@.subrange(start as int, i as int + 1) =~= chars@.subrange(
                    start as int,
                    i as int,
                ).push(chars@[i as int]));
            }
        }
        i += 1;
    }
    let item = trim(text.substring_char(start, n)).to_owned();
    let ghost old_items = items.deep_view();
    items.push(item);
    proof {
        let all = pieces(chars@, '/');
        assert(chars@.take(n as int) =~= chars@);
        assert(all =~= all.drop_last().push(all.last()));
        assert(items.deep_view() =~= old_items.push(trimmed(all.last())));
        assert(all.map_values(|piece: Seq<char>| trimmed(piece)) =~= all.drop_last().map_values(
            |piece: Seq<char>| trimmed(piece),
        ).push(trimmed(all.last())));
    }
    items
}

/// Whether `c` is one of the ten digits.
pub open spec fn is_digit(c: char) -> bool {
    '0' <= c <= '9'
}

/// The number that the digits `digits` write in base ten.
pub open spec fn decimal(digits: Seq<char>) -> int
    decreases digits.len(),
{
    if digits.len() == 0 {
        0
    } else {
        10 * decimal(digits.drop_last()) + (digits.last() as int - '0' as int)
    }
}

/// Whether `text` is made of digits, and of one at least.
pub open spec fn is_number(text: Seq<char>) -> bool {
    text.len() > 0 && forall|i: int| 0 <= i < text.len() ==> is_digit(#[trigger] text[i])
}

/// The number that `text` writes, where it is made of digits alone and the
/// number fits in an `i32`.
pub open spec fn number_of(text: Seq<char>) -> Option<i32> {
    if is_number(text) && decimal(text) <= i32::MAX {
        Some(decimal(text) as i32)
    } else {
        None
    }
}

/// A number written in digits is not negative and no smaller than the
/// number that fewer of its leading digits write.
pub proof fn lemma_decimal_grows(digits: Seq<char>, count: int)
    requires
        forall|i: int| 0 <= i < digits.len() ==> is_digit(#[trigger] digits[i]),
        0 <= count <= digits.len(),
    ensures
        0 <= decimal(digits.take(count)) <= decimal(digits),
    decreases digits.len() - count,
{
    if count == digits.len() {
        assert(digits.take(count) =~= digits);
        lemma_decimal_not_negative(digits);
    } else {
        lemma_decimal_grows(digits, count + 1);
        let longer = digits.take(count + 1);
        assert(longer.drop_last() =~= digits.take(count));
        assert(is_digit(digits[count]));
        lemma_decimal_not_negative(digits.take(count));
    }
}

proof fn lemma_decimal_not_negative(digits: Seq<char>)
    requires
        forall|i: int| 0 <= i < digits.len() ==> is_digit(#[trigger] digits[i]),
    ensures
        0 <= decimal(digits),
    decreases digits.len(),
{
    if digits.len() > 0 {
        assert(is_digit(digits[digits.len() - 1]));
        lemma_decimal_not_negative(digits.drop_last());
    }
}

/// Reads a number written in digits. Anything else, and a number too large
/// for an `i32`, gives `None`.
pub fn parse_number(text: &str) -> (number: Option<i32>)
    ensures
        number == number_of(text@),
{
    let chars = chars_of(text);
    let n: usize = chars.len();
    if n == 0 {
        return None;
    }
    let mut value: i32 = 0;
    let mut i: usize = 0;
    assert(chars@.take(0) =~= Seq::<char>::empty());
    while i < n
        invariant
            i <= n,
            n == chars@.len(),
            chars@ == text@,
            forall|k: int| 0 <= k < i ==> is_digit(#[trigger] chars@[k]),
            value == decimal(chars@.take(i as int)),
            0 <= value,
        decreases n - i,
    {
        let c: char = chars[i];
        if c < '0' || c > '9' {
            assert(!is_digit(chars@[i as int]));
            return None;
        }
        let digit: i32 = (c as u32 - '0' as u32) as i32;
        proof {
            assert(chars@.take(i as int + 1).drop_last() =~= chars@.take(i as int));
            assert(chars@.take(i as int + 1).last() == c);
        }
        if value > (i32::MAX - digit) / 10 {
            proof {
                if is_number(chars@) {
                    lemma_decimal_grows(chars@, i as int + 1);
                }
            }
            return None;
        }
        value = value * 10 + digit;
        i += 1;
    }
    assert(chars@.take(n as int) =~= chars@);
    Some(value)
}

/// Whether `text` has `count` characters or more.
pub fn has_chars(text: &str, count: usize) -> (has: bool)
    ensures
        has == (text@.len() >= count),
{
    text.unicode_len() >= count
}

/// `text` without its first `count` characters.
pub fn skip_chars(text: &str, count: usize) -> (rest: &str)
    requires
        count <= text@.len(),
    ensures
        rest@ == text@.skip(count as int),
{
    let n: usize = text.unicode_len();
    text.substring_char(count, n)
}

/// The texts of `entries` that are there, joined in order.
pub open spec fn joined(entries: Seq<Option<Seq<char>>>) -> Seq<char>
    decreases entries.len(),
{
    if entries.len() == 0 {
        Seq::<char>::empty()
    } else {
        joined(entries.drop_last()) + match entries.last() {
            Some(text) => text,
            None => Seq::<char>::empty(),
        }
    }
}

/// Joins, in order, the texts of `entries` that are there.
pub fn join_texts(entries: &Vec<Option<String>>) -> (text: String)
    ensures
        text@ == joined(entries.deep_view()),
{
    let mut text = String::new();
    let mut i: usize = 0;
    assert(entries.deep_view().take(0) =~= Seq::<Option<Seq<char>>>::empty());
    while i < entries.len()
        invariant
            i <= entries.len(),
            text@ == joined(entries.deep_view().take(i as int)),
        decreases entries.len() - i,
    {
        proof {
            let views = entries.deep_view();
            assert(views.take(i as int + 1).drop_last() =~= views.take(i as int));
            assert(views.take(i as int + 1).last() == entries@[i as int].deep_view());
        }
        match &entries[i] {
            Some(entry) => {
                text.append(entry.as_str());
            },
            None => {
                assert(text@ + Seq::<char>::empty() =~= text@);
            },
        }
        i += 1;
    }
    assert(entries.deep_view().take(entries.len() as int) =~= entries.deep_view());
    text
}

} // verus!
