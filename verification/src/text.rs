//! Text helpers: the few operations on strings that the rest of the library needs, with
//! contracts over sequences of characters.

use vstd::prelude::*;
use vstd::string::*;
use vstd::utf8::is_ascii_chars;

verus! {

/// The text that `str::to_lowercase` returns where not all characters are ASCII.
pub uninterp spec fn unicode_lowercase(text: Seq<char>) -> Seq<char>;

/// The text that `str`'s `Debug` writes: the string in quotes, with escapes.
pub uninterp spec fn quoted(text: Seq<char>) -> Seq<char>;

/// The message with which `str::parse` refuses a text as a `u64`.
pub uninterp spec fn u64_refusal(text: Seq<char>) -> Seq<char>;

/// The message with which `str::parse` refuses a text as a `u16`.
pub uninterp spec fn u16_refusal(text: Seq<char>) -> Seq<char>;

/// The number that a sequence of digits stands for.
pub open spec fn digits_value(text: Seq<char>) -> nat
    decreases text.len(),
{
    if text.len() == 0 {
        0
    } else {
        10 * digits_value(text.drop_last()) + (text.last() as nat - 48) as nat
    }
}

/// The number that a text reads as: digits, behind a plus sign or not.
pub open spec fn read_number(text: Seq<char>) -> Option<nat> {
    let body = if text.len() > 1 && text[0] == '+' {
        text.skip(1)
    } else {
        text
    };
    if body.len() > 0 && forall|i: int| 0 <= i < body.len() ==> '0' <= #[trigger] body[i] <= '9' {
        Some(digits_value(body))
    } else {
        None
    }
}

/// What a text is read as, as a `u64`: the number, or the message of the error.
pub open spec fn parsed_u64(text: Seq<char>) -> Result<u64, Seq<char>> {
    match read_number(text) {
        Some(n) => if n <= u64::MAX {
            Ok(n as u64)
        } else {
            Err(u64_refusal(text))
        },
        None => Err(u64_refusal(text)),
    }
}

/// What a text is read as, as a `u16`: the number, or the message of the error.
pub open spec fn parsed_u16(text: Seq<char>) -> Result<u16, Seq<char>> {
    match read_number(text) {
        Some(n) => if n <= u16::MAX {
            Ok(n as u16)
        } else {
            Err(u16_refusal(text))
        },
        None => Err(u16_refusal(text)),
    }
}

/// A number, or the message of an error.
pub open spec fn told_u64(n: Result<u64, String>) -> Result<u64, Seq<char>> {
    match n {
        Ok(k) => Ok(k),
        Err(e) => Err(e@),
    }
}

/// A number, or the message of an error.
pub open spec fn told_u16(n: Result<u16, String>) -> Result<u16, Seq<char>> {
    match n {
        Ok(k) => Ok(k),
        Err(e) => Err(e@),
    }
}

/// The lower-case form of an ASCII character.
pub open spec fn ascii_lower(c: char) -> char {
    if 'A' <= c <= 'Z' {
        (c as u32 + 32) as char
    } else {
        c
    }
}

/// A text with its ASCII letters replaced by their small forms.
pub open spec fn in_small_letters(text: Seq<char>) -> Seq<char> {
    text.map_values(|c: char| ascii_lower(c))
}

/// A text in small letters: ASCII letters are replaced by their small forms, and other texts by
/// what the standard library makes of them.
pub open spec fn lowercase(text: Seq<char>) -> Seq<char> {
    if is_ascii_chars(text) {
        text.map_values(|c: char| ascii_lower(c))
    } else {
        unicode_lowercase(text)
    }
}

/// A text without the white space at its ends.
pub open spec fn trimmed(text: Seq<char>) -> Seq<char> {
    without_trailing_space(without_leading_space(text))
}

/// Whether a character is white space: one that has Unicode's property `White_Space`.
pub open spec fn is_space(c: char) -> bool {
    ||| '\t' <= c <= '\r'
    ||| c == ' '
    ||| c == '\u{85}'
    ||| c == '\u{a0}'
    ||| c == '\u{1680}'
    ||| '\u{2000}' <= c <= '\u{200a}'
    ||| '\u{2028}' <= c <= '\u{2029}'
    ||| c == '\u{202f}'
    ||| c == '\u{205f}'
    ||| c == '\u{3000}'
}

/// A text without the white space that it begins with.
pub open spec fn without_leading_space(text: Seq<char>) -> Seq<char>
    decreases text.len(),
{
    if text.len() > 0 && is_space(text[0]) {
        without_leading_space(text.skip(1))
    } else {
        text
    }
}

/// A text without the white space that it ends with.
pub open spec fn without_trailing_space(text: Seq<char>) -> Seq<char>
    decreases text.len(),
{
    if text.len() > 0 && is_space(text.last()) {
        without_trailing_space(text.drop_last())
    } else {
        text
    }
}

/// Whether `part` stands in `text` from position `at` on.
pub open spec fn occurs_at(text: Seq<char>, part: Seq<char>, at: int) -> bool {
    &&& 0 <= at
    &&& at + part.len() <= text.len()
    &&& text.subrange(at, at + part.len()) == part
}

/// Whether `part` stands somewhere in `text`.
pub open spec fn has_part(text: Seq<char>, part: Seq<char>) -> bool {
    exists|at: int| occurs_at(text, part, at)
}

/// Whether `text` begins with `prefix`.
pub open spec fn has_prefix(text: Seq<char>, prefix: Seq<char>) -> bool {
    occurs_at(text, prefix, 0)
}

/// The decimal digits of a number.
pub open spec fn digits(n: nat) -> Seq<char>
    decreases n,
{
    if n < 10 {
        seq![(48 + n) as char]
    } else {
        digits(n / 10).push((48 + n % 10) as char)
    }
}

/// The views of a list of strings.
pub open spec fn texts(list: Seq<String>) -> Seq<Seq<char>> {
    list.map_values(|s: String| s@)
}

/// The view of a string that may be absent.
pub open spec fn opt_text(text: Option<String>) -> Option<Seq<char>> {
    match text {
        Some(s) => Some(s@),
        None => None,
    }
}

/// The view of a text that may be absent.
pub open spec fn opt_str(text: Option<&str>) -> Option<Seq<char>> {
    match text {
        Some(s) => Some(s@),
        None => None,
    }
}

/// Calls `str`'s `==`: whether two strings hold the same characters.
#[verifier::external_body]
pub(crate) fn same(a: &str, b: &str) -> (same: bool)
    ensures
        same == (a@ == b@),
{
    a == b
}

/// The small form of an ASCII letter.
fn small_letter(c: char) -> (small: char)
    ensures
        small == ascii_lower(c),
{
    if 'A' <= c && c <= 'Z' {
        (c as u8 + 32) as char
    } else {
        c
    }
}

/// Whether two strings hold the same characters once the ASCII letters of both are replaced by
/// their small forms.
pub(crate) fn same_ignoring_case(a: &str, b: &str) -> (same: bool)
    ensures
        same == (in_small_letters(a@) == in_small_letters(b@)),
{
    let n: usize = a.unicode_len();
    if n != b.unicode_len() {
        assert(in_small_letters(a@).len() != in_small_letters(b@).len());
        return false;
    }
    let mut i: usize = 0;
    while i < n
        invariant
            i <= n,
            n == a@.len(),
            n == b@.len(),
            forall|j: int| 0 <= j < i ==> ascii_lower(#[trigger] a@[j]) == ascii_lower(b@[j]),
        decreases n - i,
    {
        if small_letter(a.get_char(i)) != small_letter(b.get_char(i)) {
            assert(in_small_letters(a@)[i as int] != in_small_letters(b@)[i as int]);
            return false;
        }
        i = i + 1;
    }
    assert(in_small_letters(a@) =~= in_small_letters(b@));
    true
}

/// Calls `str::to_lowercase`. On a text of ASCII characters it replaces each letter by its
/// small form; on any other text the result is only named.
#[verifier::external_body]
pub(crate) fn to_lowercase(text: &str) -> (lower: String)
    ensures
        is_ascii_chars(text@) ==> lower@ == text@.map_values(|c: char| ascii_lower(c)),
        !is_ascii_chars(text@) ==> lower@ == unicode_lowercase(text@),
{
    text.to_lowercase()
}

/// Calls `str::contains`: whether the second string is a part of the first.
#[verifier::external_body]
pub(crate) fn contains(text: &str, part: &str) -> (found: bool)
    ensures
        found == has_part(text@, part@),
{
    text.contains(part)
}

/// Calls `str::trim`, which takes the characters with Unicode's property `White_Space` from both
/// ends.
#[verifier::external_body]
pub(crate) fn trim(text: &str) -> (rest: &str)
    ensures
        rest@ == trimmed(text@),
{
    text.trim()
}

/// A digit as text.
fn digit_text(d: u64) -> (text: &'static str)
    requires
        d < 10,
    ensures
        text@ == seq![(48 + d) as char],
{
    let text = if d == 0 {
        "0"
    } else if d == 1 {
        "1"
    } else if d == 2 {
        "2"
    } else if d == 3 {
        "3"
    } else if d == 4 {
        "4"
    } else if d == 5 {
        "5"
    } else if d == 6 {
        "6"
    } else if d == 7 {
        "7"
    } else if d == 8 {
        "8"
    } else {
        "9"
    };
    proof {
        reveal_strlit("0");
        reveal_strlit("1");
        reveal_strlit("2");
        reveal_strlit("3");
        reveal_strlit("4");
        reveal_strlit("5");
        reveal_strlit("6");
        reveal_strlit("7");
        reveal_strlit("8");
        reveal_strlit("9");
        assert(text@ =~= seq![(48 + d) as char]);
    }
    text
}

/// A number as text: its digits, without leading zeros.
pub(crate) fn number_text(n: u64) -> (text: String)
    ensures
        text@ == digits(n as nat),
    decreases n,
{
    if n < 10 {
        digit_text(n).to_owned()
    } else {
        let mut text = number_text(n / 10);
        text.append(digit_text(n % 10));
        assert(text@ =~= digits(n as nat));
        text
    }
}

/// Calls `str::parse` for a `u64`. Digits, behind a plus sign or not, are read as their number
/// where a `u64` holds it; anything else is refused, with a message that is only named.
#[verifier::external_body]
pub(crate) fn parse_u64(text: &str) -> (n: Result<u64, String>)
    ensures
        told_u64(n) == parsed_u64(text@),
        n matches Err(message) ==> message@ == u64_refusal(text@),
{
    text.parse::<u64>().map_err(|e| e.to_string())
}

/// Calls `str::parse` for a `u16`. Digits, behind a plus sign or not, are read as their number
/// where a `u16` holds it; anything else is refused, with a message that is only named.
#[verifier::external_body]
pub(crate) fn parse_u16(text: &str) -> (n: Result<u16, String>)
    ensures
        told_u16(n) == parsed_u16(text@),
        n matches Err(message) ==> message@ == u16_refusal(text@),
{
    text.parse::<u16>().map_err(|e| e.to_string())
}

/// Calls `str`'s `Debug`; the text is only named.
#[verifier::external_body]
pub(crate) fn quote(text: &str) -> (written: String)
    ensures
        written@ == quoted(text@),
{
    format!("{:?}", text)
}

/// What follows a prefix.
pub fn strip_prefix<'a>(text: &'a str, prefix: &str) -> (rest: Option<&'a str>)
    ensures
        match rest {
            Some(r) => has_prefix(text@, prefix@) && text@ == prefix@ + r@,
            None => !has_prefix(text@, prefix@),
        },
{
    let len: usize = text.unicode_len();
    let prefix_len: usize = prefix.unicode_len();
    if len < prefix_len {
        return None;
    }
    let head = text.substring_char(0, prefix_len);
    if same(head, prefix) {
        let rest = text.substring_char(prefix_len, len);
        assert(text@ =~= prefix@ + rest@);
        Some(rest)
    } else {
        None
    }
}

/// Whether a text begins with a prefix.
pub fn starts_with(text: &str, prefix: &str) -> (found: bool)
    ensures
        found == has_prefix(text@, prefix@),
{
    strip_prefix(text, prefix).is_some()
}

/// The first position from `from` on at which `part` stands in `text`.
pub open spec fn first_occurrence(text: Seq<char>, part: Seq<char>, from: int) -> Option<int>
    decreases text.len() + 1 - from,
{
    if from < 0 || from + part.len() > text.len() {
        None
    } else if occurs_at(text, part, from) {
        Some(from)
    } else {
        first_occurrence(text, part, from + 1)
    }
}

/// Finds the first position from `from` on at which `part` stands in `text`.
pub fn find(text: &str, part: &str, from: usize) -> (at: Option<usize>)
    ensures
        match at {
            Some(i) => first_occurrence(text@, part@, from as int) == Some(i as int)
                && from <= i && i + part@.len() <= text@.len(),
            None => first_occurrence(text@, part@, from as int) is None,
        },
{
    let len: usize = text.unicode_len();
    let part_len: usize = part.unicode_len();
    if part_len > len {
        return None;
    }
    let last: usize = len - part_len;
    let mut i: usize = from;
    while i <= last
        invariant
            len == text@.len(),
            part_len == part@.len(),
            last == len - part_len,
            from <= i,
            first_occurrence(text@, part@, from as int) == first_occurrence(
                text@,
                part@,
                i as int,
            ),
        decreases len + 1 - i,
    {
        if same(text.substring_char(i, i + part_len), part) {
            return Some(i);
        }
        if i == last {
            assert(first_occurrence(text@, part@, i + 1) is None);
            return None;
        }
        i = i + 1;
    }
    None
}

/// What stands between the first and the second occurrence of a separator, or after the
/// first where there is no second.
pub open spec fn second_piece(text: Seq<char>, separator: Seq<char>) -> Option<Seq<char>> {
    match first_occurrence(text, separator, 0) {
        None => None,
        Some(at) => {
            let rest = text.skip(at + separator.len());
            Some(first_piece(rest, separator))
        },
    }
}

/// What stands before the first occurrence of a separator, or the whole text.
pub open spec fn first_piece(text: Seq<char>, separator: Seq<char>) -> Seq<char> {
    match first_occurrence(text, separator, 0) {
        None => text,
        Some(at) => text.take(at),
    }
}

/// Takes what stands before the first occurrence of a separator.
pub fn before<'a>(text: &'a str, separator: &str) -> (piece: &'a str)
    ensures
        piece@ == first_piece(text@, separator@),
{
    match find(text, separator, 0) {
        None => text,
        Some(at) => text.substring_char(0, at),
    }
}

/// Takes what stands between the first and the second occurrence of a separator.
pub fn between<'a>(text: &'a str, separator: &str) -> (piece: Option<&'a str>)
    ensures
        match piece {
            Some(p) => second_piece(text@, separator@) == Some(p@),
            None => second_piece(text@, separator@) is None,
        },
{
    match find(text, separator, 0) {
        None => None,
        Some(at) => {
            let len: usize = text.unicode_len();
            let start: usize = at + separator.unicode_len();
            let rest = text.substring_char(start, len);
            assert(rest@ =~= text@.skip(start as int));
            Some(before(rest, separator))
        },
    }
}

/// The pieces of a text between the commas.
pub open spec fn comma_pieces(text: Seq<char>) -> Seq<Seq<char>>
    decreases text.len(),
{
    match first_occurrence(text, seq![','], 0) {
        None => seq![text],
        Some(at) => if 0 <= at < text.len() {
            seq![text.take(at)] + comma_pieces(text.skip(at + 1))
        } else {
            seq![text]
        },
    }
}

/// Joins two texts.
pub fn join2(a: &str, b: &str) -> (text: String)
    ensures
        text@ == a@ + b@,
{
    let mut s = a.to_owned();
    s.append(b);
    s
}

/// Joins three texts.
pub fn join3(a: &str, b: &str, c: &str) -> (text: String)
    ensures
        text@ == a@ + b@ + c@,
{
    let mut s = a.to_owned();
    s.append(b);
    s.append(c);
    s
}

/// Joins four texts.
pub fn join4(a: &str, b: &str, c: &str, d: &str) -> (text: String)
    ensures
        text@ == a@ + b@ + c@ + d@,
{
    let mut s = join3(a, b, c);
    s.append(d);
    s
}

/// Whether a list holds a text.
pub fn list_contains(list: &Vec<String>, text: &str) -> (found: bool)
    ensures
        found == texts(list@).contains(text@),
{
    let mut i: usize = 0;
    while i < list.len()
        invariant
            i <= list.len(),
            forall|j: int| 0 <= j < i ==> list@[j]@ != text@,
        decreases list.len() - i,
    {
        if same(list[i].as_str(), text) {
            assert(texts(list@)[i as int] == text@);
            return true;
        }
        i = i + 1;
    }
    assert forall|j: int| 0 <= j < texts(list@).len() implies texts(list@)[j] != text@ by {}
    false
}

/// Copies a list of texts.
pub fn copy_list(list: &Vec<String>) -> (copy: Vec<String>)
    ensures
        copy@ == list@,
{
    let mut copy: Vec<String> = Vec::new();
    let mut i: usize = 0;
    while i < list.len()
        invariant
            i <= list.len(),
            copy@ == list@.take(i as int),
        decreases list.len() - i,
    {
        copy.push(list[i].clone());
        assert(copy@ =~= list@.take(i + 1));
        i = i + 1;
    }
    assert(list@.take(i as int) =~= list@);
    copy
}

// ---------------------------------------------------------------------------------------
// Laws
// ---------------------------------------------------------------------------------------

/// The digits of a number are read back as that number, with or without a plus sign.
pub proof fn law_digits_are_read_back(n: nat)
    ensures
        read_number(digits(n)) == Some(n),
        read_number(seq!['+'] + digits(n)) == Some(n),
{
    lemma_digits_value(n);
    let d = digits(n);
    let signed = seq!['+'] + d;
    assert(signed.skip(1) =~= d);
    assert(d[0] != '+');
}

proof fn lemma_digits_value(n: nat)
    ensures
        digits_value(digits(n)) == n,
        digits(n).len() > 0,
        forall|i: int| 0 <= i < digits(n).len() ==> '0' <= #[trigger] digits(n)[i] <= '9',
    decreases n,
{
    reveal_with_fuel(digits_value, 2);
    if n >= 10 {
        lemma_digits_value(n / 10);
        let head = digits(n / 10);
        assert(digits(n).drop_last() =~= head);
    } else {
        assert(digits(n).drop_last() =~= Seq::<char>::empty());
    }
}

/// A part is found where it stands first, and nowhere only where it does not stand at all.
pub proof fn law_first_occurrence_is_first(text: Seq<char>, part: Seq<char>, from: int, at: int)
    requires
        0 <= from,
    ensures
        first_occurrence(text, part, from) matches Some(i) ==> i >= from && occurs_at(text, part, i),
        first_occurrence(text, part, from) is None && at >= from ==> !occurs_at(text, part, at),
        first_occurrence(text, part, from) matches Some(i) ==> from <= at < i ==> !occurs_at(
            text,
            part,
            at,
        ),
    decreases text.len() + 1 - from,
{
    if from + part.len() <= text.len() && !occurs_at(text, part, from) {
        law_first_occurrence_is_first(text, part, from + 1, at);
    }
}

/// What stands before a separator, the separator, and what stands between it and the next make up
/// the text as far as they go; a text without the separator is one piece.
pub proof fn law_pieces_make_up_the_text(text: Seq<char>, separator: Seq<char>)
    requires
        separator.len() > 0,
    ensures
        !has_part(text, separator) ==> first_piece(text, separator) == text && second_piece(
            text,
            separator,
        ) is None,
        !has_part(first_piece(text, separator), separator),
        has_part(text, separator) ==> (second_piece(text, separator) matches Some(second)
            && !has_part(second, separator) && has_prefix(
            text,
            first_piece(text, separator) + separator + second,
        )),
{
    lemma_first_piece(text, separator);
    law_first_occurrence_is_first(text, separator, 0, 0);
    match first_occurrence(text, separator, 0) {
        None => {
            assert forall|at: int| !occurs_at(text, separator, at) by {
                if at >= 0 {
                    law_first_occurrence_is_first(text, separator, 0, at);
                }
            }
        },
        Some(i) => {
            assert(has_part(text, separator));
            let rest = text.skip(i + separator.len());
            lemma_first_piece(rest, separator);
            let second = first_piece(rest, separator);
            let head = first_piece(text, separator) + separator + second;
            assert(text.subrange(i, i + separator.len()) == separator);
            assert(second =~= rest.take(second.len() as int));
            assert(text.subrange(0, head.len() as int) =~= head) by {
                assert forall|k: int| 0 <= k < head.len() implies text[k] == head[k] by {
                    if i <= k < i + separator.len() {
                        assert(text.subrange(i, i + separator.len())[k - i] == separator[k - i]);
                    }
                    if i + separator.len() <= k {
                        assert(rest[k - i - separator.len()] == text[k]);
                        assert(second[k - i - separator.len()] == rest[k - i - separator.len()]);
                    }
                }
            }
        },
    }
}

proof fn lemma_first_piece(text: Seq<char>, separator: Seq<char>)
    requires
        separator.len() > 0,
    ensures
        first_piece(text, separator).len() <= text.len(),
        first_piece(text, separator) == text.take(first_piece(text, separator).len() as int),
        !has_part(first_piece(text, separator), separator),
{
    let piece = first_piece(text, separator);
    law_first_occurrence_is_first(text, separator, 0, 0);
    assert(piece =~= text.take(piece.len() as int));
    assert forall|at: int| !occurs_at(piece, separator, at) by {
        if occurs_at(piece, separator, at) {
            assert(text.subrange(at, at + separator.len()) =~= piece.subrange(
                at,
                at + separator.len(),
            ));
            assert(occurs_at(text, separator, at));
            law_first_occurrence_is_first(text, separator, 0, at);
        }
    }
}

/// A text that is trimmed has white space at neither end, is a part of the text, and lacks nothing
/// but white space; a text that neither begins nor ends with white space stays.
pub proof fn law_trimming_takes_only_space(text: Seq<char>)
    ensures
        ({
            let rest = trimmed(text);
            &&& rest.len() > 0 ==> !is_space(rest[0]) && !is_space(rest[rest.len() - 1])
            &&& has_part(text, rest)
            &&& text.len() > 0 && !is_space(text[0]) && !is_space(text[text.len() - 1]) ==> rest
                == text
            &&& (forall|i: int| 0 <= i < text.len() ==> is_space(#[trigger] text[i])) <==> rest.len()
                == 0
        }),
{
    lemma_leading(text);
    let middle = without_leading_space(text);
    lemma_trailing(middle);
    let rest = trimmed(text);
    let at = text.len() - middle.len();
    assert(text.subrange(at, at + rest.len()) =~= rest);
    assert(occurs_at(text, rest, at));
    if forall|i: int| 0 <= i < text.len() ==> is_space(#[trigger] text[i]) {
        if rest.len() > 0 {
            assert(is_space(text[at]));
            assert(rest[0] == text[at]);
        }
    }
    if rest.len() == 0 {
        assert forall|i: int| 0 <= i < text.len() implies is_space(#[trigger] text[i]) by {
            if i >= at {
                assert(middle[i - at] == text[i]);
            }
        }
    }
    if text.len() > 0 && !is_space(text[0]) && !is_space(text[text.len() - 1]) {
        assert(middle == text);
    }
}

proof fn lemma_leading(text: Seq<char>)
    ensures
        ({
            let rest = without_leading_space(text);
            &&& rest.len() <= text.len()
            &&& rest == text.skip(text.len() - rest.len())
            &&& rest.len() > 0 ==> !is_space(rest[0])
            &&& forall|i: int| 0 <= i < text.len() - rest.len() ==> is_space(#[trigger] text[i])
        }),
    decreases text.len(),
{
    if text.len() > 0 && is_space(text[0]) {
        let next = text.skip(1);
        lemma_leading(next);
        let rest = without_leading_space(text);
        assert(rest =~= text.skip(text.len() - rest.len()));
        assert forall|i: int| 0 <= i < text.len() - rest.len() implies is_space(#[trigger] text[i]) by {
            if i > 0 {
                assert(next[i - 1] == text[i]);
            }
        }
    } else {
        assert(text.skip(0) =~= text);
    }
}

proof fn lemma_trailing(text: Seq<char>)
    ensures
        ({
            let rest = without_trailing_space(text);
            &&& rest.len() <= text.len()
            &&& rest == text.take(rest.len() as int)
            &&& rest.len() > 0 ==> !is_space(rest[rest.len() - 1])
            &&& forall|i: int| rest.len() <= i < text.len() ==> is_space(#[trigger] text[i])
        }),
    decreases text.len(),
{
    if text.len() > 0 && is_space(text.last()) {
        let next = text.drop_last();
        lemma_trailing(next);
        let rest = without_trailing_space(text);
        assert(rest =~= text.take(rest.len() as int));
        assert forall|i: int| rest.len() <= i < text.len() implies is_space(#[trigger] text[i]) by {
            if i < next.len() {
                assert(next[i] == text[i]);
            }
        }
    } else {
        assert(text.take(text.len() as int) =~= text);
    }
}

/// The pieces of a text, with a comma between one and the next.
pub open spec fn with_commas(pieces: Seq<Seq<char>>) -> Seq<char>
    decreases pieces.len(),
{
    if pieces.len() == 0 {
        Seq::empty()
    } else if pieces.len() == 1 {
        pieces[0]
    } else {
        pieces[0] + seq![','] + with_commas(pieces.skip(1))
    }
}

/// Pieces between commas hold none, and make up the text again.
pub proof fn law_comma_pieces_make_up_the_text(text: Seq<char>, i: int)
    ensures
        comma_pieces(text).len() > 0,
        with_commas(comma_pieces(text)) == text,
        0 <= i < comma_pieces(text).len() ==> !comma_pieces(text)[i].contains(','),
    decreases text.len(),
{
    law_first_occurrence_is_first(text, seq![','], 0, 0);
    match first_occurrence(text, seq![','], 0) {
        None => {
            assert forall|k: int| 0 <= k < text.len() implies text[k] != ',' by {
                lemma_comma_at(text, k);
                law_first_occurrence_is_first(text, seq![','], 0, k);
            }
            assert(comma_pieces(text) =~= seq![text]);
        },
        Some(at) => {
            lemma_comma_at(text, at);
            let rest = text.skip(at + 1);
            law_comma_pieces_make_up_the_text(rest, i - 1);
            let pieces = comma_pieces(text);
            assert(pieces.skip(1) =~= comma_pieces(rest));
            assert(pieces[0] == text.take(at));
            assert(with_commas(pieces) =~= text);
            assert forall|k: int| 0 <= k < at implies text[k] != ',' by {
                lemma_comma_at(text, k);
                law_first_occurrence_is_first(text, seq![','], 0, k);
            }
            if i > 0 && i < pieces.len() {
                assert(pieces[i] == comma_pieces(rest)[i - 1]);
            }
        },
    }
}

proof fn lemma_comma_at(text: Seq<char>, at: int)
    ensures
        occurs_at(text, seq![','], at) <==> 0 <= at < text.len() && text[at] == ',',
{
    if 0 <= at < text.len() {
        if text[at] == ',' {
            assert(text.subrange(at, at + 1) =~= seq![',']);
        }
        if text.subrange(at, at + 1) == seq![','] {
            assert(text.subrange(at, at + 1)[0] == text[at]);
        }
    }
}

/// A capital is written as the small letter of the same place, and everything else stays.
pub proof fn law_small_letters(text: Seq<char>, i: int)
    requires
        0 <= i < text.len(),
    ensures
        in_small_letters(text).len() == text.len(),
        'A' <= text[i] <= 'Z' ==> in_small_letters(text)[i] as int == text[i] as int + 32,
        !('A' <= text[i] <= 'Z') ==> in_small_letters(text)[i] == text[i],
        in_small_letters(in_small_letters(text)) == in_small_letters(text),
{
}

} // verus!
