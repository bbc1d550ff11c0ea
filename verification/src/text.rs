//! Text over sequences of characters: what trimming, splitting, searching and
//! reading numbers mean, and functions that do it.

use vstd::prelude::*;
use vstd::string::*;

verus! {

// ---- white space -----------------------------------------------------------------

/// Unicode's `White_Space` property.
pub open spec fn is_white(c: char) -> bool {
    ||| '\u{9}' <= c <= '\u{d}'
    ||| c == ' '
    ||| c == '\u{85}'
    ||| c == '\u{a0}'
    ||| c == '\u{1680}'
    ||| '\u{2000}' <= c <= '\u{200a}'
    ||| c == '\u{2028}'
    ||| c == '\u{2029}'
    ||| c == '\u{202f}'
    ||| c == '\u{205f}'
    ||| c == '\u{3000}'
}

/// `text` without the white space at either end.
pub open spec fn trimmed(text: Seq<char>) -> Seq<char>
    decreases text.len(),
{
    if text.len() == 0 {
        text
    } else if is_white(text.first()) {
        trimmed(text.drop_first())
    } else if is_white(text.last()) {
        trimmed(text.drop_last())
    } else {
        text
    }
}

/// Whether `c` has Unicode's `White_Space` property.
pub fn white(c: char) -> (yes: bool)
    ensures
        yes == is_white(c),
{
    ('\u{9}' <= c && c <= '\u{d}') || c == ' ' || c == '\u{85}' || c == '\u{a0}' || c == '\u{1680}'
        || ('\u{2000}' <= c && c <= '\u{200a}') || c == '\u{2028}' || c == '\u{2029}' || c
        == '\u{202f}' || c == '\u{205f}' || c == '\u{3000}'
}

/// The characters of `text`.
pub fn chars_of(text: &str) -> (chars: Vec<char>)
    ensures
        chars@ == text@,
{
    let mut chars: Vec<char> = Vec::new();
    for c in it: text.chars()
        invariant
            it.seq() == text@,
            chars@ == text@.take(it.index() as int),
    {
        chars.push(c);
    }
    chars
}

/// `text` without the white space at either end.
pub fn trim(text: &str) -> (inner: &str)
    ensures
        inner@ == trimmed(text@),
{
    let chars = chars_of(text);
    let mut from: usize = 0;
    let mut to: usize = chars.len();
    assert(text@.subrange(0, to as int) =~= text@);
    while from < to && white(chars[from])
        invariant
            from <= to == chars.len(),
            chars@ == text@,
            trimmed(text@) == trimmed(text@.subrange(from as int, to as int)),
        decreases to - from,
    {
        assert(text@.subrange(from as int, to as int).drop_first() =~= text@.subrange(
            from + 1,
            to as int,
        ));
        from = from + 1;
    }
    while from < to && white(chars[to - 1])
        invariant
            from <= to <= chars.len(),
            from < to ==> !is_white(chars@[from as int]),
            chars@ == text@,
            trimmed(text@) == trimmed(text@.subrange(from as int, to as int)),
        decreases to - from,
    {
        assert(text@.subrange(from as int, to as int).drop_last() =~= text@.subrange(
            from as int,
            to - 1,
        ));
        to = to - 1;
    }
    text.substring_char(from, to)
}

// ---- searching and splitting -----------------------------------------------------

/// `part` stands in `text` at position `at`.
pub open spec fn stands_at(text: Seq<char>, part: Seq<char>, at: int) -> bool {
    0 <= at && at + part.len() <= text.len() && text.subrange(at, at + part.len()) == part
}

/// The first position from `from` on at which `part` stands in `text`.
pub open spec fn found_from(text: Seq<char>, part: Seq<char>, from: int) -> Option<int>
    decreases text.len() - from + 1,
{
    if from < 0 || from + part.len() > text.len() {
        None
    } else if stands_at(text, part, from) {
        Some(from)
    } else {
        found_from(text, part, from + 1)
    }
}

/// `text` holds `part` somewhere.
pub open spec fn holds_text(text: Seq<char>, part: Seq<char>) -> bool {
    found_from(text, part, 0) is Some
}

/// What stands before and after the first `part` in `text`.
pub open spec fn cut_at(text: Seq<char>, part: Seq<char>) -> Option<(Seq<char>, Seq<char>)> {
    match found_from(text, part, 0) {
        Some(at) => Some((text.take(at), text.skip(at + part.len()))),
        None => None,
    }
}

/// What follows `head` in a text that begins with it.
pub open spec fn after_head(text: Seq<char>, head: Seq<char>) -> Option<Seq<char>> {
    if stands_at(text, head, 0) {
        Some(text.skip(head.len() as int))
    } else {
        None
    }
}

/// The pieces of `text` between the separators `mark`.
pub open spec fn pieces(text: Seq<char>, mark: char) -> Seq<Seq<char>>
    decreases text.len(),
{
    if text.len() == 0 {
        seq![text]
    } else {
        let before = pieces(text.drop_last(), mark);
        if text.last() == mark {
            before.push(Seq::empty())
        } else {
            before.drop_last().push(before.last().push(text.last()))
        }
    }
}

/// `text` ends with `tail`.
pub open spec fn ends_in(text: Seq<char>, tail: Seq<char>) -> bool {
    stands_at(text, tail, text.len() - tail.len())
}

/// `text` without the tails `tail` it ends with, however many.
pub open spec fn without_tails(text: Seq<char>, tail: Seq<char>) -> Seq<char>
    decreases text.len(),
{
    if tail.len() > 0 && ends_in(text, tail) {
        without_tails(text.take(text.len() - tail.len()), tail)
    } else {
        text
    }
}

/// The parts one after another, with `glue` between each two.
pub open spec fn joined(parts: Seq<Seq<char>>, glue: Seq<char>) -> Seq<char>
    decreases parts.len(),
{
    if parts.len() == 0 {
        Seq::empty()
    } else if parts.len() == 1 {
        parts[0]
    } else {
        joined(parts.drop_last(), glue) + glue + parts.last()
    }
}

/// Whether the two texts are the same.
pub fn same_text(left: &str, right: &str) -> (same: bool)
    ensures
        same == (left@ == right@),
{
    left.to_owned() == right.to_owned()
}

/// Whether the optional text is there and is `right`.
pub fn is_text(left: &Option<String>, right: &str) -> (same: bool)
    ensures
        same == (left.deep_view() == Some(right@)),
{
    match left {
        Some(text) => same_text(text.as_str(), right),
        None => false,
    }
}

/// Whether `part` stands in `text` at position `at`.
fn stands(text: &Vec<char>, part: &Vec<char>, at: usize) -> (yes: bool)
    ensures
        yes == stands_at(text@, part@, at as int),
{
    if at > text.len() || part.len() > text.len() - at {
        return false;
    }
    let mut i: usize = 0;
    while i < part.len()
        invariant
            at + part.len() <= text.len(),
            i <= part.len(),
            forall|k: int| 0 <= k < i ==> text@[at + k] == part@[k],
        decreases part.len() - i,
    {
        if text[at + i] != part[i] {
            assert(text@.subrange(at as int, at + part@.len())[i as int] != part@[i as int]);
            return false;
        }
        i = i + 1;
    }
    assert(text@.subrange(at as int, at + part@.len()) =~= part@);
    true
}

/// The first position at which `part` stands in `text`.
fn find(text: &Vec<char>, part: &Vec<char>) -> (at: Option<usize>)
    ensures
        match at {
            Some(at) => found_from(text@, part@, 0) == Some(at as int) && stands_at(
                text@,
                part@,
                at as int,
            ),
            None => found_from(text@, part@, 0) is None,
        },
{
    if part.len() > text.len() {
        return None;
    }
    let mut at: usize = 0;
    while at <= text.len() - part.len()
        invariant
            part.len() <= text.len(),
            at <= text.len() - part.len() + 1,
            found_from(text@, part@, 0) == found_from(text@, part@, at as int),
        decreases text.len() - part.len() + 1 - at,
    {
        if stands(text, part, at) {
            return Some(at);
        }
        if at == text.len() - part.len() {
            assert(found_from(text@, part@, at + 1) is None);
            return None;
        }
        at = at + 1;
    }
    None
}

/// Whether `text` holds `part` somewhere.
pub fn holds(text: &str, part: &str) -> (yes: bool)
    ensures
        yes == holds_text(text@, part@),
{
    find(&chars_of(text), &chars_of(part)).is_some()
}

/// What stands before and after the first `part` in `text`.
pub fn cut<'a>(text: &'a str, part: &str) -> (halves: Option<(&'a str, &'a str)>)
    ensures
        match halves {
            Some((before, after)) => cut_at(text@, part@) == Some((before@, after@)),
            None => cut_at(text@, part@) is None,
        },
{
    let chars = chars_of(text);
    let inner = chars_of(part);
    let end: usize = chars.len();
    match find(&chars, &inner) {
        Some(at) => {
            let before = text.substring_char(0, at);
            let after = text.substring_char(at + inner.len(), end);
            assert(before@ =~= text@.take(at as int));
            assert(after@ =~= text@.skip(at + part@.len()));
            Some((before, after))
        },
        None => None,
    }
}

/// Whether `text` ends with `tail`.
pub fn has_tail(text: &str, tail: &str) -> (yes: bool)
    ensures
        yes == ends_in(text@, tail@),
{
    let chars = chars_of(text);
    let end = chars_of(tail);
    end.len() <= chars.len() && stands(&chars, &end, chars.len() - end.len())
}

/// What follows `head` in a text that begins with it.
pub fn cut_head<'a>(text: &'a str, head: &str) -> (rest: Option<&'a str>)
    ensures
        match rest {
            Some(rest) => after_head(text@, head@) == Some(rest@),
            None => after_head(text@, head@) is None,
        },
{
    let chars = chars_of(text);
    let front = chars_of(head);
    if stands(&chars, &front, 0) {
        let rest = text.substring_char(front.len(), chars.len());
        assert(rest@ =~= text@.skip(head@.len() as int));
        Some(rest)
    } else {
        None
    }
}

/// Whether `text` is one of the texts.
pub fn is_among(texts: &Vec<String>, text: &str) -> (found: bool)
    ensures
        found == texts.deep_view().contains(text@),
{
    let mut i: usize = 0;
    while i < texts.len()
        invariant
            i <= texts.len(),
            forall|k: int| 0 <= k < i ==> texts.deep_view()[k] != text@,
        decreases texts.len() - i,
    {
        assert(texts.deep_view()[i as int] == texts@[i as int]@);
        if same_text(texts[i].as_str(), text) {
            return true;
        }
        i = i + 1;
    }
    false
}

/// The pieces of `text` between the separators `mark`.
pub fn split(text: &str, mark: char) -> (parts: Vec<&str>)
    ensures
        parts.deep_view() == pieces(text@, mark),
{
    let chars = chars_of(text);
    let end: usize = chars.len();
    let mut parts: Vec<&str> = Vec::new();
    let mut start: usize = 0;
    let mut at: usize = 0;
    assert(text@.take(0) =~= Seq::<char>::empty());
    assert(parts.deep_view().push(text@.subrange(0, 0)) =~= pieces(text@.take(0), mark));
    while at < end
        invariant
            start <= at <= end == chars.len(),
            chars@ == text@,
            parts.deep_view().push(text@.subrange(start as int, at as int)) == pieces(
                text@.take(at as int),
                mark,
            ),
        decreases end - at,
    {
        let ghost done = parts.deep_view();
        let ghost open = text@.subrange(start as int, at as int);
        let ghost next = text@.take(at + 1);
        assert(next.drop_last() =~= text@.take(at as int));
        assert(next.last() == text@[at as int]);
        if chars[at] == mark {
            let piece = text.substring_char(start, at);
            parts.push(piece);
            assert(parts.deep_view() =~= done.push(open));
            start = at + 1;
            assert(text@.subrange(start as int, at + 1) =~= Seq::<char>::empty());
        } else {
            assert(done.push(open).drop_last() =~= done);
            assert(open.push(text@[at as int]) =~= text@.subrange(start as int, at + 1));
        }
        at = at + 1;
    }
    let ghost done = parts.deep_view();
    let piece = text.substring_char(start, end);
    parts.push(piece);
    assert(parts.deep_view() =~= done.push(piece@));
    assert(text@.take(end as int) =~= text@);
    parts
}

/// `text` without the tails `tail` it ends with, however many.
pub fn trim_tails<'a>(text: &'a str, tail: &str) -> (head: &'a str)
    ensures
        head@ == without_tails(text@, tail@),
{
    let chars = chars_of(text);
    let end = chars_of(tail);
    let step: usize = end.len();
    let mut to: usize = chars.len();
    if step == 0 {
        return text;
    }
    let mut rest = text;
    assert(text@.take(to as int) =~= text@);
    while has_tail(rest, tail)
        invariant
            step == tail@.len() > 0,
            to <= text@.len(),
            rest@ == text@.take(to as int),
            without_tails(text@, tail@) == without_tails(rest@, tail@),
        decreases to,
    {
        let ghost before = rest@;
        to = to - step;
        rest = text.substring_char(0, to);
        assert(rest@ =~= before.take(before.len() - tail@.len()));
    }
    rest
}

/// The parts one after another, with `glue` between each two.
pub fn join(parts: &Vec<String>, glue: &str) -> (whole: String)
    ensures
        whole@ == joined(parts.deep_view(), glue@),
{
    let mut whole = String::new();
    let ghost all = parts.deep_view();
    let mut i: usize = 0;
    assert(joined(all.take(0), glue@) =~= Seq::empty());
    while i < parts.len()
        invariant
            i <= parts.len(),
            all == parts.deep_view(),
            whole@ == joined(all.take(i as int), glue@),
        decreases parts.len() - i,
    {
        assert(all.take(i + 1).drop_last() =~= all.take(i as int));
        assert(all.take(i + 1).last() == parts@[i as int]@);
        if i > 0 {
            whole.append(glue);
        }
        whole.append(parts[i].as_str());
        proof {
            if i == 0 {
                assert(whole@ =~= parts@[0]@);
            }
        }
        i = i + 1;
    }
    assert(all.take(i as int) =~= all);
    whole
}

// ---- numbers ---------------------------------------------------------------------

/// A decimal digit.
pub open spec fn is_digit(c: char) -> bool {
    '0' <= c <= '9'
}

/// The number that a row of decimal digits denotes.
pub open spec fn digits_value(digits: Seq<char>) -> nat
    decreases digits.len(),
{
    if digits.len() == 0 {
        0
    } else {
        10 * digits_value(digits.drop_last()) + (digits.last() as nat - '0' as nat) as nat
    }
}

/// The unsigned 64-bit integer that `text` writes: an optional `+`, then decimal
/// digits and nothing else, with a value that fits.
pub open spec fn natural_in(text: Seq<char>) -> Option<u64> {
    if text.len() > 0 && text[0] == '+' {
        digits_number(text.drop_first())
    } else {
        digits_number(text)
    }
}

/// The unsigned 64-bit integer that a row of decimal digits denotes, if it is one and
/// the number fits.
pub open spec fn digits_number(digits: Seq<char>) -> Option<u64> {
    if digits.len() > 0 && (forall|i: int| 0 <= i < digits.len() ==> is_digit(digits[i]))
        && digits_value(digits) <= u64::MAX {
        Some(digits_value(digits) as u64)
    } else {
        None
    }
}

/// The decimal digits of `n`, without leading zeros.
pub open spec fn decimal(n: nat) -> Seq<char>
    decreases n,
{
    if n < 10 {
        seq![('0' as nat + n) as char]
    } else {
        decimal(n / 10).push(('0' as nat + n % 10) as char)
    }
}

proof fn lemma_digits_value_grows(digits: Seq<char>, to: int)
    requires
        0 <= to <= digits.len(),
        forall|i: int| 0 <= i < digits.len() ==> is_digit(digits[i]),
    ensures
        digits_value(digits.take(to)) <= digits_value(digits),
    decreases digits.len() - to,
{
    if to < digits.len() {
        lemma_digits_value_grows(digits, to + 1);
        assert(digits.take(to + 1).drop_last() =~= digits.take(to));
    } else {
        assert(digits.take(to) =~= digits);
    }
}

proof fn decimal_reads_back(n: nat)
    ensures
        decimal(n).len() > 0,
        forall|i: int| 0 <= i < decimal(n).len() ==> is_digit(decimal(n)[i]),
        digits_value(decimal(n)) == n,
    decreases n,
{
    if n < 10 {
        assert(decimal(n).drop_last() =~= Seq::<char>::empty());
        assert(digits_value(decimal(n).drop_last()) == 0);
    } else {
        decimal_reads_back(n / 10);
        assert(decimal(n).drop_last() =~= decimal(n / 10));
    }
}

/// A number that is written in decimal digits is read back as that number.
pub proof fn a_written_number_reads_back(n: u64)
    ensures
        natural_in(decimal(n as nat)) == Some(n),
{
    decimal_reads_back(n as nat);
    assert(is_digit(decimal(n as nat)[0]));
}

/// The unsigned 64-bit integer that `text` writes, if it writes one.
pub fn read_natural(text: &str) -> (number: Option<u64>)
    ensures
        number == natural_in(text@),
{
    let chars = chars_of(text);
    let from: usize = if chars.len() > 0 && chars[0] == '+' {
        1
    } else {
        0
    };
    let ghost digits = text@.skip(from as int);
    proof {
        if from == 1 {
            assert(text@.drop_first() =~= digits);
        } else {
            assert(text@ =~= digits);
        }
    }
    if from == chars.len() {
        return None;
    }
    // Every character has to be a digit before the value counts.
    let mut at: usize = from;
    while at < chars.len()
        invariant
            from <= at <= chars.len(),
            chars@ == text@,
            digits == text@.skip(from as int),
            natural_in(text@) == digits_number(digits),
            forall|i: int| 0 <= i < at - from ==> is_digit(digits[i]),
        decreases chars.len() - at,
    {
        if !('0' <= chars[at] && chars[at] <= '9') {
            assert(!is_digit(digits[at - from]));
            return None;
        }
        at = at + 1;
    }
    let mut value: u64 = 0;
    at = from;
    assert(digits.take(0).len() == 0);
    while at < chars.len()
        invariant
            from <= at <= chars.len(),
            chars@ == text@,
            digits == text@.skip(from as int),
            natural_in(text@) == digits_number(digits),
            forall|i: int| 0 <= i < digits.len() ==> is_digit(digits[i]),
            value == digits_value(digits.take(at - from)),
        decreases chars.len() - at,
    {
        assert(digits[at - from] == text@[at as int]);
        let digit: u64 = (chars[at] as u32 - '0' as u32) as u64;
        assert(digits.take(at - from + 1).drop_last() =~= digits.take(at - from));
        assert(digits_value(digits.take(at - from + 1)) == 10 * value + digit);
        proof {
            lemma_digits_value_grows(digits, at - from + 1);
        }
        if value > (u64::MAX - digit) / 10 {
            return None;
        }
        value = value * 10 + digit;
        at = at + 1;
    }
    assert(digits.take(at - from) =~= digits);
    Some(value)
}

/// The digit `d` as text.
fn digit_text(d: u64) -> (text: &'static str)
    requires
        d < 10,
    ensures
        text@ == seq![('0' as nat + d as nat) as char],
{
    proof {
        reveal_strlit("0");
        reveal_strlit("1");
        reveal_strlit("2");
        reveal_strlit("3");
        reveal_strlit("4");
        reveal_strlit("5");
        reveal_strlit("6");
        reveal_strlit("7");
        reveal_strlit("8");
        reveal_strlit("9");
    }
    if d == 0 {
        "0"
    } else if d == 1 {
        "1"
    } else if d == 2 {
        "2"
    } else if d == 3 {
        "3"
    } else if d == 4 {
        "4"
    } else if d == 5 {
        "5"
    } else if d == 6 {
        "6"
    } else if d == 7 {
        "7"
    } else if d == 8 {
        "8"
    } else {
        "9"
    }
}

/// `n` in decimal digits.
pub fn write_natural(n: u64) -> (text: String)
    ensures
        text@ == decimal(n as nat),
    decreases n,
{
    if n < 10 {
        digit_text(n).to_owned()
    } else {
        let mut text = write_natural(n / 10);
        text.append(digit_text(n % 10));
        assert(text@ =~= decimal(n as nat));
        text
    }
}

// ---- bytes -----------------------------------------------------------------------

/// The text that `bytes` write in UTF-8, with replacement characters for what is not.
pub uninterp spec fn lossy_text(bytes: Seq<u8>) -> Seq<char>;

/// `String::from_utf8_lossy`, owned: valid UTF-8 is decoded, and of other bytes the
/// text depends on the bytes alone.
#[verifier::external_body]
pub(crate) fn decode_lossy(bytes: &[u8]) -> (text: String)
    ensures
        text@ == lossy_text(bytes@),
        vstd::utf8::valid_utf8(bytes@) ==> text@ == vstd::utf8::decode_utf8(bytes@),
{
    String::from_utf8_lossy(bytes).into_owned()
}

// ---- what the functions on texts promise -----------------------------------------

/// Trimming takes off the white space around what begins and ends with something else, and
/// nothing more.
pub proof fn trimming_takes_off_outer_white(
    before: Seq<char>,
    inner: Seq<char>,
    after: Seq<char>,
)
    requires
        forall|i: int| 0 <= i < before.len() ==> is_white(#[trigger] before[i]),
        forall|i: int| 0 <= i < after.len() ==> is_white(#[trigger] after[i]),
        inner.len() > 0 ==> !is_white(inner.first()) && !is_white(inner.last()),
    ensures
        trimmed(before + inner + after) == inner,
    decreases before.len() + after.len(),
{
    let whole = before + inner + after;
    if before.len() > 0 {
        assert(whole.first() == before[0]);
        assert(whole.drop_first() =~= before.drop_first() + inner + after);
        trimming_takes_off_outer_white(before.drop_first(), inner, after);
    } else if inner.len() == 0 {
        assert(whole =~= after);
        if after.len() > 0 {
            assert(whole.drop_first() =~= before + inner + after.drop_first());
            trimming_takes_off_outer_white(before, inner, after.drop_first());
        } else {
            assert(whole =~= inner);
        }
    } else {
        assert(whole.first() == inner.first());
        if after.len() > 0 {
            assert(whole.last() == after.last());
            assert(after.last() == after[after.len() - 1]);
            assert(whole.drop_last() =~= before + inner + after.drop_last());
            trimming_takes_off_outer_white(before, inner, after.drop_last());
        } else {
            assert(whole =~= inner);
        }
    }
}

/// Spaces, tabs and line ends are white space; letters, digits and ASCII punctuation are not.
pub proof fn visible_characters_are_not_white(c: char)
    ensures
        c == ' ' || c == '\t' || c == '\n' || c == '\r' ==> is_white(c),
        '!' <= c <= '~' ==> !is_white(c),
{
}

/// The first place of a part is where it stands, and it stands nowhere before; without one
/// it stands nowhere.
proof fn found_is_the_first(text: Seq<char>, part: Seq<char>, from: int)
    requires
        0 <= from,
    ensures
        match found_from(text, part, from) {
            Some(at) => from <= at && at + part.len() <= text.len() && text.subrange(
                at,
                at + part.len(),
            ) == part && forall|i: int|
                from <= i < at ==> #[trigger] text.subrange(i, i + part.len()) != part,
            None => forall|i: int|
                from <= i && i + part.len() <= text.len() ==> #[trigger] text.subrange(
                    i,
                    i + part.len(),
                ) != part,
        },
    decreases text.len() - from + 1,
{
    if from + part.len() <= text.len() && !stands_at(text, part, from) {
        found_is_the_first(text, part, from + 1);
    }
}

/// A text holds a part if and only if it is written with the part somewhere in it.
pub proof fn a_text_holds_what_is_written_in_it(text: Seq<char>, part: Seq<char>)
    ensures
        holds_text(text, part) <==> exists|before: Seq<char>, after: Seq<char>|
            text == #[trigger] (before + part + after),
{
    found_is_the_first(text, part, 0);
    match found_from(text, part, 0) {
        Some(at) => {
            let before = text.take(at);
            let after = text.skip(at + part.len());
            assert(text =~= before + part + after);
        },
        None => {
            if exists|before: Seq<char>, after: Seq<char>|
                text == #[trigger] (before + part + after) {
                let (before, after) = choose|before: Seq<char>, after: Seq<char>|
                    text == #[trigger] (before + part + after);
                let at = before.len() as int;
                assert(text.subrange(at, at + part.len()) =~= part);
            }
        },
    }
}

/// A text is cut at the first place of a part: the halves with the part between them are the
/// text, and the part stands nowhere earlier; what does not hold the part is not cut.
pub proof fn a_text_is_cut_at_the_first_place(text: Seq<char>, part: Seq<char>)
    ensures
        match cut_at(text, part) {
            Some((before, after)) => text == before + part + after && forall|i: int|
                0 <= i < before.len() ==> #[trigger] text.subrange(i, i + part.len()) != part,
            None => forall|i: int|
                0 <= i && i + part.len() <= text.len() ==> #[trigger] text.subrange(
                    i,
                    i + part.len(),
                ) != part,
        },
{
    found_is_the_first(text, part, 0);
    if let Some((before, after)) = cut_at(text, part) {
        assert(text =~= before + part + after);
    }
}

/// The parts one after another: nothing of none, the part of one, and of more what the
/// others come to, the glue and the last.
pub proof fn joining_goes_part_by_part(parts: Seq<Seq<char>>, last: Seq<char>, glue: Seq<char>)
    ensures
        joined(Seq::empty(), glue) == Seq::<char>::empty(),
        joined(seq![last], glue) == last,
        parts.len() > 0 ==> joined(parts.push(last), glue) == joined(parts, glue) + glue + last,
{
    assert(parts.push(last).drop_last() =~= parts);
}

/// Splitting loses nothing: the pieces joined by the mark are the text again, and no piece
/// holds the mark.
pub proof fn pieces_join_to_the_text(text: Seq<char>, mark: char)
    ensures
        pieces(text, mark).len() > 0,
        joined(pieces(text, mark), seq![mark]) == text,
        forall|i: int| 0 <= i < pieces(text, mark).len() ==> !(#[trigger] pieces(text, mark)[i])
            .contains(mark),
    decreases text.len(),
{
    let all = pieces(text, mark);
    if text.len() == 0 {
        assert(all =~= seq![text]);
    } else {
        let before = pieces(text.drop_last(), mark);
        pieces_join_to_the_text(text.drop_last(), mark);
        if text.last() == mark {
            assert(all.drop_last() =~= before);
            assert(joined(all, seq![mark]) =~= text);
        } else {
            let open = before.last();
            assert(all.drop_last() =~= before.drop_last());
            assert(!before[before.len() - 1].contains(mark));
            assert forall|i: int| 0 <= i < all.len() implies !(#[trigger] all[i]).contains(
                mark,
            ) by {
                if i < before.len() - 1 {
                    assert(all[i] == before[i]);
                } else {
                    let piece = open.push(text.last());
                    assert(all[i] == piece);
                    if piece.contains(mark) {
                        let k = choose|k: int| 0 <= k < piece.len() && piece[k] == mark;
                        assert(open[k] == mark);
                    }
                }
            }
            if before.len() == 1 {
                assert(all[0] == open.push(text.last()));
            } else {
                assert(all.last() == open.push(text.last()));
                assert(text.drop_last() == joined(before.drop_last(), seq![mark]) + seq![mark]
                    + open);
            }
            assert(text =~= text.drop_last().push(text.last()));
            assert(joined(all, seq![mark]) =~= text);
        }
    }
}

/// One more tail is taken off too, and a text without the tail stays as it is.
pub proof fn every_tail_is_taken_off(text: Seq<char>, tail: Seq<char>)
    requires
        tail.len() > 0,
    ensures
        without_tails(text + tail, tail) == without_tails(text, tail),
        (forall|head: Seq<char>| text != #[trigger] (head + tail)) ==> without_tails(text, tail)
            == text,
{
    let longer = text + tail;
    assert(longer.subrange(text.len() as int, longer.len() as int) =~= tail);
    assert(longer.take(longer.len() - tail.len()) =~= text);
    if ends_in(text, tail) {
        let head = text.take(text.len() - tail.len());
        assert(text =~= head + tail);
    }
}

/// A number is written in digits, one at least.
pub proof fn written_in_digits(n: nat)
    ensures
        decimal(n).len() > 0,
        forall|i: int| 0 <= i < decimal(n).len() ==> '0' <= #[trigger] decimal(n)[i] <= '9',
{
    decimal_reads_back(n);
    assert(forall|i: int| 0 <= i < decimal(n).len() ==> is_digit(decimal(n)[i]));
}

/// What reads as a number is digits, with a plus before them at most.
pub proof fn a_number_is_all_digits(text: Seq<char>)
    ensures
        natural_in(text) is Some ==> exists|digits: Seq<char>| {
            &&& #[trigger] digits.len() > 0
            &&& text == digits || text == seq!['+'] + digits
            &&& forall|i: int| 0 <= i < digits.len() ==> '0' <= #[trigger] digits[i] <= '9'
        },
{
    if natural_in(text) is Some {
        if text[0] == '+' {
            let digits = text.drop_first();
            assert(text =~= seq!['+'] + digits);
            assert(forall|i: int| 0 <= i < digits.len() ==> is_digit(digits[i]));
            assert(digits.len() > 0);
        } else {
            assert(forall|i: int| 0 <= i < text.len() ==> is_digit(text[i]));
            assert(text.len() > 0);
        }
    }
}

/// Numbers are read digit by digit, from the left: each digit counts ten times less than the
/// one before it, leading zeros count nothing, and neither does a plus; what does not fit is
/// no number.
pub proof fn numbers_are_read_digit_by_digit(digits: Seq<char>, digit: char)
    requires
        '0' <= digit <= '9',
        forall|i: int| 0 <= i < digits.len() ==> '0' <= #[trigger] digits[i] <= '9',
    ensures
        natural_in(seq![digit]) == Some((digit as u64 - '0' as u64) as u64),
        digits.len() > 0 ==> natural_in(seq!['+'] + digits) == natural_in(digits),
        digits.len() > 0 ==> natural_in(digits.push(digit)) == (match natural_in(digits) {
            Some(n) => if 10 * n + (digit as u64 - '0' as u64) <= u64::MAX {
                Some((10 * n + (digit as u64 - '0' as u64)) as u64)
            } else {
                None
            },
            None => None,
        }),
{
    let one = seq![digit];
    assert(one.drop_last() =~= Seq::<char>::empty());
    assert(digits_value(one.drop_last()) == 0);
    assert(forall|i: int| 0 <= i < one.len() ==> is_digit(one[i]));
    if digits.len() > 0 {
        assert((seq!['+'] + digits).drop_first() =~= digits);
        let more = digits.push(digit);
        assert(more.drop_last() =~= digits);
        assert(digits[0] != '+');
        assert(more[0] == digits[0]);
        assert forall|i: int| 0 <= i < more.len() implies is_digit(more[i]) by {
            if i < digits.len() {
                assert(more[i] == digits[i]);
            }
        }
        assert(forall|i: int| 0 <= i < digits.len() ==> is_digit(digits[i]));
    }
}

} // verus!
