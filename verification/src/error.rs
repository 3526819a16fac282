//! Gateway errors, the API error body made of them, and the redaction of credentials.

use vstd::prelude::*;
use vstd::string::*;
use crate::json::{Json, JsonNumberView, JsonView, items_view, members_view, says, with_member};
use crate::text::{
    ascii_lower, contains, has_part, is_space, join2, join3, join4, lowercase, occurs_at, opt_text,
    same, to_lowercase,
};
use crate::time::Timestamp;

verus! {

/// Matches a credential name, `=` or `:`, and the value behind it.
pub const CREDENTIAL_VALUE_PATTERN: &'static str =
    "(?i)(api_?key|secret|token|password|authorization)\\s*[=:]\\s*\\S+";

/// Matches a text that is a credential name and nothing else.
pub const CREDENTIAL_KEY_PATTERN: &'static str = "(?i)^(api_?key|secret|token|password|authorization)$";

/// What a matched credential is replaced by: its name, and a marker in place of the value.
pub const CREDENTIAL_REPLACEMENT: &'static str = "$1=***REDACTED***";

/// The marker in place of a credential.
pub const REDACTED: &'static str = "***REDACTED***";

// ---------------------------------------------------------------------------------------
// Outside calls
// ---------------------------------------------------------------------------------------

/// The small ASCII letter that a character stands for where capital and small letters count as
/// the same: besides the capitals, the long `s` and the Kelvin sign stand for one.
pub open spec fn folded(c: char) -> char {
    if c == '\u{17f}' {
        's'
    } else if c == '\u{212a}' {
        'k'
    } else {
        ascii_lower(c)
    }
}

/// Whether a text is one of the names under which credentials stand, in capital or small
/// letters.
pub open spec fn is_credential_name(text: Seq<char>) -> bool {
    let small = text.map_values(|c: char| folded(c));
    ||| small == "apikey"@
    ||| small == "api_key"@
    ||| small == "secret"@
    ||| small == "token"@
    ||| small == "password"@
    ||| small == "authorization"@
}

/// Whether a text is the name of a credential, `=` or `:`, and a value without white space.
pub open spec fn tells_credential(text: Seq<char>, name: Seq<char>, value: Seq<char>) -> bool {
    &&& is_credential_name(name)
    &&& text == name + "="@ + value || text == name + ":"@ + value
    &&& value.len() > 0
    &&& forall|i: int| 0 <= i < value.len() ==> !is_space(#[trigger] value[i])
}

/// Whether the name of a credential stands in a text from `i` to `j` and is followed, behind
/// white space or at once, by a `=` or a `:` at `k` and a value that begins at `l`.
pub open spec fn credential_at(text: Seq<char>, i: int, j: int, k: int, l: int) -> bool {
    &&& 0 <= i < j <= k < l < text.len()
    &&& is_credential_name(text.subrange(i, j))
    &&& forall|n: int| j <= n < k ==> is_space(#[trigger] text[n])
    &&& (text[k] == '=' || text[k] == ':')
    &&& forall|n: int| k < n < l ==> is_space(#[trigger] text[n])
    &&& !is_space(text[l])
}

/// Whether no name of a credential is followed by a value.
pub open spec fn holds_no_credential(text: Seq<char>) -> bool {
    forall|i: int, j: int, k: int, l: int| !#[trigger] credential_at(text, i, j, k, l)
}

/// What stands behind the name of a credential whose value was replaced.
pub open spec fn marker() -> Seq<char> {
    "="@ + REDACTED@
}

/// Whether the marker stands in a text from `at` on, and white space or the end behind it.
pub open spec fn marked_at(text: Seq<char>, at: int) -> bool {
    &&& occurs_at(text, marker(), at)
    &&& at + marker().len() == text.len() || is_space(text[at + marker().len()])
}

/// Whether every name of a credential that is followed by a value is followed by the marker and
/// no other value.
pub open spec fn hides_credentials(text: Seq<char>) -> bool {
    forall|i: int, j: int, k: int, l: int| #[trigger]
        credential_at(text, i, j, k, l) ==> marked_at(text, j)
}

/// Where the characters from `at` on that are no white space end.
pub open spec fn run_end(text: Seq<char>, at: int) -> int
    decreases text.len() - at,
{
    if 0 <= at < text.len() && !is_space(text[at]) {
        run_end(text, at + 1)
    } else {
        at
    }
}

/// Whether the name of a credential begins at `i` and is followed by a value.
pub open spec fn begins_credential(text: Seq<char>, i: int) -> bool {
    exists|j: int, k: int, l: int| credential_at(text, i, j, k, l)
}

/// A text from `i` on, with its credentials replaced: the name of a
/// credential is kept, the marker stands in place of what follows it up to white space, and all
/// else is left as it is.
pub open spec fn redacted_from(text: Seq<char>, i: int) -> Seq<char>
    decreases text.len() - i,
{
    if i < 0 || i >= text.len() {
        Seq::empty()
    } else if begins_credential(text, i) {
        let (j, k, l) = choose|j: int, k: int, l: int| credential_at(text, i, j, k, l);
        proof {
            lemma_run_end(text, l);
        }
        text.subrange(i, j) + marker() + redacted_from(text, run_end(text, l))
    } else {
        seq![text[i]] + redacted_from(text, i + 1)
    }
}

/// A run ends at white space or at the end of the text, and holds no white space.
pub proof fn lemma_run_end(text: Seq<char>, at: int)
    requires
        0 <= at <= text.len(),
    ensures
        at <= run_end(text, at) <= text.len(),
        run_end(text, at) < text.len() ==> is_space(text[run_end(text, at)]),
        forall|n: int| at <= n < run_end(text, at) ==> !is_space(#[trigger] text[n]),
    decreases text.len() - at,
{
    if at < text.len() && !is_space(text[at]) {
        lemma_run_end(text, at + 1);
    }
}

/// The RFC 3339 text of a UTC time, or nothing where the time is out of the calendar's range.
pub uninterp spec fn rfc3339_text(secs: i64, nanos: u32) -> Option<Seq<char>>;

/// Calls `regex::Regex::new` and `Regex::replace_all` for the credential pattern. The crate reads
/// the pattern: it uses nothing but the flag `i`, a group, `\s`, `\S`, a class and repetition, all
/// of which its syntax documents. It replaces the matches one after the other, from the left. A
/// match begins where the name of a credential is followed by a value, and ends at white space or
/// with the text, and the replacement keeps the name. `\s` is Unicode white space, and the flag
/// `i` follows Unicode's simple case folding, by which two characters beyond ASCII stand for
/// letters of the names.
#[verifier::external_body]
fn outside_replace_all(pattern: &str, text: &str, replacement: &str) -> (replaced: Option<String>)
    requires
        pattern@ == CREDENTIAL_VALUE_PATTERN@,
        replacement@ == CREDENTIAL_REPLACEMENT@,
    ensures
        opt_text(replaced) == Some(redacted_from(text@, 0)),
{
    regex::Regex::new(pattern).ok().map(|re| re.replace_all(text, replacement).into_owned())
}

/// Calls `regex::Regex::new` and `Regex::is_match` for the pattern of credential names. The crate
/// reads the pattern, which uses nothing but the flag `i`, anchors and a group. Exactly those
/// names match it, in capital or small letters, by the same case folding.
#[verifier::external_body]
fn outside_is_match(pattern: &str, text: &str) -> (matched: Option<bool>)
    requires
        pattern@ == CREDENTIAL_KEY_PATTERN@,
    ensures
        matched == Some(is_credential_name(text@)),
{
    regex::Regex::new(pattern).ok().map(|re| re.is_match(text))
}

/// Calls `chrono::DateTime::from_timestamp` and `DateTime::to_rfc3339_opts`, with as many
/// places of seconds as needed and a `Z`; the text is only named.
#[verifier::external_body]
pub(crate) fn rfc3339(secs: i64, nanos: u32) -> (text: Option<String>)
    ensures
        opt_text(text) == rfc3339_text(secs, nanos),
{
    chrono::DateTime::from_timestamp(secs, nanos)
        .map(|t| t.to_rfc3339_opts(chrono::SecondsFormat::AutoSi, true))
}

// ---------------------------------------------------------------------------------------
// Redaction
// ---------------------------------------------------------------------------------------

/// A text with the values of its credentials replaced.
pub open spec fn redacted(text: Seq<char>) -> Seq<char> {
    redacted_from(text, 0)
}

/// A JSON value with the credentials in its strings replaced: in every string, and wholly
/// where the string stands under the name of a credential.
pub open spec fn scrubbed(value: JsonView) -> JsonView
    decreases value,
{
    match value {
        JsonView::Text(s) => JsonView::Text(redacted(s)),
        JsonView::Array(items) => JsonView::Array(scrubbed_items(items)),
        JsonView::Object(members) => JsonView::Object(scrubbed_members(members)),
        other => other,
    }
}

/// A list of JSON values, scrubbed.
pub open spec fn scrubbed_items(items: Seq<JsonView>) -> Seq<JsonView>
    decreases items,
{
    if items.len() == 0 {
        Seq::empty()
    } else {
        scrubbed_items(items.drop_last()).push(scrubbed(items.last()))
    }
}

/// The members of an object, scrubbed.
pub open spec fn scrubbed_members(members: Seq<(Seq<char>, JsonView)>) -> Seq<
    (Seq<char>, JsonView),
>
    decreases members,
{
    if members.len() == 0 {
        Seq::empty()
    } else {
        let (key, value) = members.last();
        let clean = if is_credential_name(key) && value is Text {
            JsonView::Text(REDACTED@)
        } else {
            scrubbed(value)
        };
        scrubbed_members(members.drop_last()).push((key, clean))
    }
}

/// Whether no string in a JSON value tells a credential.
pub open spec fn json_hides_credentials(value: JsonView) -> bool
    decreases value,
{
    match value {
        JsonView::Text(s) => hides_credentials(s),
        JsonView::Array(items) => items_hide_credentials(items),
        JsonView::Object(members) => members_hide_credentials(members),
        _ => true,
    }
}

/// Whether no string in a list of JSON values tells a credential.
pub open spec fn items_hide_credentials(items: Seq<JsonView>) -> bool
    decreases items,
{
    items.len() == 0 || (items_hide_credentials(items.drop_last()) && json_hides_credentials(
        items.last(),
    ))
}

/// Whether no string in the values of an object tells a credential.
pub open spec fn members_hide_credentials(members: Seq<(Seq<char>, JsonView)>) -> bool
    decreases members,
{
    members.len() == 0 || (members_hide_credentials(members.drop_last()) && json_hides_credentials(
        members.last().1,
    ))
}

/// Replaces the values of credentials in a text.
///
/// In the result no name of a credential stands with another value than the marker. Where the text is the name of a credential and its value, the name is left, and a
/// marker in place of the value.
pub fn scrub_credentials(input: &str) -> (output: String)
    ensures
        output@ == redacted(input@),
        forall|name: Seq<char>, value: Seq<char>| #[trigger]
            tells_credential(input@, name, value) ==> output@ == name + "="@ + REDACTED@,
        holds_no_credential(input@) ==> output@ == input@,
        hides_credentials(output@),
        redacted(output@) == output@,
{
    let output = match outside_replace_all(
        CREDENTIAL_VALUE_PATTERN,
        input,
        CREDENTIAL_REPLACEMENT,
    ) {
        Some(text) => text,
        None => String::new(),
    };
    proof {
        law_redaction_settles(input@);
        assert forall|name: Seq<char>, value: Seq<char>| #[trigger]
            tells_credential(input@, name, value) implies output@ == name + "="@ + REDACTED@ by {
            lemma_told_is_redacted(input@, name, value);
        }
    }
    output
}

/// The names of credentials are made of letters and underscores.
pub open spec fn is_name_char(c: char) -> bool {
    'a' <= folded(c) <= 'z' || c == '_'
}

proof fn lemma_name_chars(name: Seq<char>)
    requires
        is_credential_name(name),
    ensures
        name.len() > 0,
        forall|i: int| 0 <= i < name.len() ==> is_name_char(#[trigger] name[i]),
{
    reveal_strlit("apikey");
    reveal_strlit("api_key");
    reveal_strlit("secret");
    reveal_strlit("token");
    reveal_strlit("password");
    reveal_strlit("authorization");
    let small = name.map_values(|c: char| folded(c));
    assert(small.len() == name.len());
    assert forall|i: int| 0 <= i < name.len() implies is_name_char(#[trigger] name[i]) by {
        assert(small[i] == folded(name[i]));
        assert('a' <= small[i] <= 'z' || small[i] == '_');
    }
}

/// No name ends with another name.
proof fn lemma_no_name_in_name(name: Seq<char>, m: int)
    requires
        is_credential_name(name),
        0 < m < name.len(),
    ensures
        !is_credential_name(name.skip(m)),
{
    reveal_strlit("apikey");
    reveal_strlit("api_key");
    reveal_strlit("secret");
    reveal_strlit("token");
    reveal_strlit("password");
    reveal_strlit("authorization");
    let rest = name.skip(m);
    if is_credential_name(rest) {
        let a = name.map_values(|c: char| folded(c));
        let b = rest.map_values(|c: char| folded(c));
        assert(b =~= a.skip(m));
        assert(b[0] == a[m]);
        assert(b[b.len() - 1] == a[a.len() - 1]);
    }
}

proof fn lemma_marker()
    ensures
        marker().len() == 15,
        marker()[0] == '=',
        marker()[1] == '*',
        forall|i: int| 0 <= i < marker().len() ==> !is_space(#[trigger] marker()[i]),
        forall|i: int|
            #![trigger marker()[i]]
            0 <= i < marker().len() && is_name_char(marker()[i]) ==> 4 <= i < 12,
        forall|i: int|
            #![trigger marker()[i]]
            1 <= i < marker().len() ==> marker()[i] != '=' && marker()[i] != ':',
        marker()[12] == '*',
{
    reveal_strlit("=");
    reveal_strlit("***REDACTED***");
}

/// A name is followed by its value in one way only.
proof fn lemma_credential_is_unique(
    text: Seq<char>,
    i: int,
    j: int,
    k: int,
    l: int,
    j2: int,
    k2: int,
    l2: int,
)
    requires
        credential_at(text, i, j, k, l),
        credential_at(text, i, j2, k2, l2),
    ensures
        j == j2,
        k == k2,
        l == l2,
{
    lemma_name_chars(text.subrange(i, j));
    lemma_name_chars(text.subrange(i, j2));
    if j < j2 {
        assert(text.subrange(i, j2)[j - i] == text[j]);
    }
    if j2 < j {
        assert(text.subrange(i, j)[j2 - i] == text[j2]);
    }
}

/// A credential in the second of two texts is one in both together.
proof fn lemma_credential_behind(a: Seq<char>, b: Seq<char>, i: int, j: int, k: int, l: int)
    requires
        credential_at(a + b, i, j, k, l),
        i >= a.len(),
    ensures
        credential_at(b, i - a.len(), j - a.len(), k - a.len(), l - a.len()),
{
    let d = a.len();
    assert((a + b).subrange(i, j) =~= b.subrange(i - d, j - d));
    assert forall|n: int| j - d <= n < k - d implies is_space(#[trigger] b[n]) by {
        assert((a + b)[n + d] == b[n]);
    }
    assert forall|n: int| k - d < n < l - d implies is_space(#[trigger] b[n]) by {
        assert((a + b)[n + d] == b[n]);
    }
}

/// A mark in the second of two texts is one in both together.
proof fn lemma_mark_behind(a: Seq<char>, b: Seq<char>, at: int)
    requires
        marked_at(b, at),
    ensures
        marked_at(a + b, at + a.len()),
{
    let d = a.len();
    let n = marker().len();
    assert((a + b).subrange(at + d, at + d + n) =~= b.subrange(at, at + n));
    if at + n < b.len() {
        assert((a + b)[at + d + n] == b[at + n]);
    }
}

/// A name with the marker behind it, before a text that begins with white space, hides its
/// value.
proof fn lemma_marked_name_hides(name: Seq<char>, tail: Seq<char>)
    requires
        is_credential_name(name),
        hides_credentials(tail),
        tail.len() == 0 || is_space(tail[0]),
    ensures
        hides_credentials(name + marker() + tail),
{
    lemma_name_chars(name);
    lemma_marker();
    let head = name + marker();
    let out = head + tail;
    let n = name.len() as int;
    assert forall|i: int, j: int, k: int, l: int| #[trigger]
        credential_at(out, i, j, k, l) implies marked_at(out, j) by {
        if i >= head.len() {
            lemma_credential_behind(head, tail, i, j, k, l);
            lemma_mark_behind(head, tail, j - head.len());
        } else {
            let found = out.subrange(i, j);
            lemma_name_chars(found);
            assert(found[0] == out[i]);
            if i < n {
                assert(out[n] == marker()[0]);
                if j < n {
                    assert(out[j] == name[j]);
                    assert(is_name_char(name[j]));
                }
                if j > n {
                    assert(found[n - i] == out[n]);
                }
                assert(j == n);
                if i > 0 {
                    assert(found =~= name.skip(i));
                    lemma_no_name_in_name(name, i);
                }
                assert(out.subrange(n, n + marker().len()) =~= marker());
                if tail.len() > 0 {
                    assert(out[n + marker().len()] == tail[0]);
                }
            } else {
                assert(out[i] == marker()[i - n]);
                assert(out[n + 12] == marker()[12]);
                if j > n + 12 {
                    assert(found[n + 12 - i] == out[n + 12]);
                }
                assert(out[j] == marker()[j - n]);
                assert(false);
            }
        }
    }
}

/// As far as no credential was replaced, a text is redacted to itself; where one was, what is
/// before it is kept.
proof fn lemma_kept_up_to(text: Seq<char>, p: int, n: int) -> (m: int)
    requires
        0 <= p <= text.len(),
        0 <= n < redacted_from(text, p).len(),
    ensures
        m < 0 ==> p + n < text.len() && redacted_from(text, p).take(n + 1) == text.subrange(
            p,
            p + n + 1,
        ),
        m >= 0 ==> m <= n && p + m < text.len() && begins_credential(text, p + m)
            && redacted_from(text, p).take(m) == text.subrange(p, p + m) && redacted_from(
            text,
            p,
        ).skip(m) == redacted_from(text, p + m),
    decreases n,
{
    let out = redacted_from(text, p);
    if begins_credential(text, p) {
        assert(out.take(0) =~= text.subrange(p, p));
        assert(out.skip(0) =~= out);
        0
    } else {
        let rest = redacted_from(text, p + 1);
        assert(out == seq![text[p]] + rest);
        if n == 0 {
            assert(out.take(1) =~= text.subrange(p, p + 1));
            -1
        } else {
            let m = lemma_kept_up_to(text, p + 1, n - 1);
            if m < 0 {
                assert(out.take(n + 1) =~= seq![text[p]] + rest.take(n));
                assert(text.subrange(p, p + n + 1) =~= seq![text[p]] + text.subrange(
                    p + 1,
                    p + n + 1,
                ));
                -1
            } else {
                assert(out.take(m + 1) =~= seq![text[p]] + rest.take(m));
                assert(text.subrange(p, p + m + 1) =~= seq![text[p]] + text.subrange(
                    p + 1,
                    p + m + 1,
                ));
                assert(out.skip(m + 1) =~= rest.skip(m));
                m + 1
            }
        }
    }
}

/// Texts that agree up to where a credential's value begins hold the same credential.
proof fn lemma_same_credential(
    out: Seq<char>,
    text: Seq<char>,
    p: int,
    j: int,
    k: int,
    l: int,
)
    requires
        0 <= p,
        credential_at(out, 0, j, k, l),
        p + l < text.len(),
        forall|x: int| 0 <= x <= l ==> #[trigger] out[x] == text[p + x],
    ensures
        begins_credential(text, p),
{
    assert(out.subrange(0, j) =~= text.subrange(p, p + j));
    assert forall|n: int| p + j <= n < p + k implies is_space(#[trigger] text[n]) by {
        assert(out[n - p] == text[p + (n - p)]);
    }
    assert forall|n: int| p + k < n < p + l implies is_space(#[trigger] text[n]) by {
        assert(out[n - p] == text[p + (n - p)]);
    }
    assert(out[k] == text[p + k]);
    assert(out[l] == text[p + l]);
    assert(credential_at(text, p, p + j, p + k, p + l));
}

/// Where no credential begins in a text, none begins in what it is redacted to.
proof fn lemma_none_begins(text: Seq<char>, p: int, j: int, k: int, l: int)
    requires
        0 <= p < text.len(),
        !begins_credential(text, p),
    ensures
        !credential_at(redacted_from(text, p), 0, j, k, l),
{
    let out = redacted_from(text, p);
    if credential_at(out, 0, j, k, l) {
        lemma_found_was_there(text, p, j, k, l);
    }
}

/// What begins a redacted text as a credential began the text, or ends with a credential's name
/// that begins later in it, which no name does.
proof fn lemma_found_was_there(text: Seq<char>, p: int, j: int, k: int, l: int)
    requires
        0 <= p < text.len(),
        credential_at(redacted_from(text, p), 0, j, k, l),
    ensures
        begins_credential(text, p),
{
    let out = redacted_from(text, p);
    let m = lemma_kept_up_to(text, p, l);
    if m < 0 {
        assert forall|x: int| 0 <= x <= l implies #[trigger] out[x] == text[p + x] by {
            assert(out.take(l + 1)[x] == out[x]);
            assert(text.subrange(p, p + l + 1)[x] == text[p + x]);
        }
        lemma_same_credential(out, text, p, j, k, l);
    } else if m > 0 {
        let q = p + m;
        let (j1, k1, l1) = choose|j1: int, k1: int, l1: int| credential_at(text, q, j1, k1, l1);
        let name = text.subrange(q, j1);
        let n = name.len() as int;
        lemma_name_chars(name);
        lemma_marker();
        lemma_run_end(text, l1);
        let rest = redacted_from(text, q);
        let tail = redacted_from(text, run_end(text, l1));
        assert(rest == name + marker() + tail);
        assert forall|x: int| 0 <= x < m + n implies #[trigger] out[x] == text[p + x] by {
            if x < m {
                assert(out.take(m)[x] == out[x]);
                assert(text.subrange(p, p + m)[x] == text[p + x]);
            } else {
                assert(out.skip(m)[x - m] == out[x]);
                assert(rest[x - m] == name[x - m]);
            }
        }
        if l < m + n {
            lemma_same_credential(out, text, p, j, k, l);
        } else {
            let found = out.subrange(0, j);
            lemma_name_chars(found);
            assert(out[m] == text[p + m]);
            assert(out[m] == name[0]);
            assert(out.skip(m)[n] == out[m + n]);
            assert(out[m + n] == marker()[0]);
            if m + n < j {
                assert(found[m + n] == out[m + n]);
            }
            if m >= j {
                assert(is_name_char(out[m]));
                assert(m < l);
                assert(false);
            }
            if m + n > j {
                assert(out[j] == text[p + j]);
                assert(out[j] == name[j - m]);
            }
            assert(j == m + n);
            assert(found.skip(m) =~= name) by {
                assert forall|x: int| 0 <= x < n implies found.skip(m)[x] == name[x] by {
                    assert(out[m + x] == text[p + (m + x)]);
                }
            }
            lemma_no_name_in_name(found, m);
        }
    }
}

/// What a text is redacted to hides its credentials.
proof fn lemma_redaction_hides(text: Seq<char>, p: int)
    requires
        0 <= p <= text.len(),
    ensures
        hides_credentials(redacted_from(text, p)),
    decreases text.len() - p,
{
    let out = redacted_from(text, p);
    if p < text.len() {
        if begins_credential(text, p) {
            let (j, k, l) = choose|j: int, k: int, l: int| credential_at(text, p, j, k, l);
            lemma_run_end(text, l);
            let end = run_end(text, l);
            lemma_redaction_hides(text, end);
            lemma_space_is_kept(text, end);
            lemma_marked_name_hides(text.subrange(p, j), redacted_from(text, end));
        } else {
            let rest = redacted_from(text, p + 1);
            let head = seq![text[p]];
            lemma_redaction_hides(text, p + 1);
            assert(out == head + rest);
            assert forall|i: int, j: int, k: int, l: int| #[trigger]
                credential_at(out, i, j, k, l) implies marked_at(out, j) by {
                if i == 0 {
                    lemma_none_begins(text, p, j, k, l);
                } else {
                    lemma_credential_behind(head, rest, i, j, k, l);
                    lemma_mark_behind(head, rest, j - 1);
                }
            }
        }
    }
}

/// White space is kept: no credential begins with it.
proof fn lemma_space_is_kept(text: Seq<char>, p: int)
    requires
        0 <= p <= text.len(),
        p < text.len() ==> is_space(text[p]),
    ensures
        redacted_from(text, p).len() == 0 || is_space(redacted_from(text, p)[0]),
{
    if p < text.len() && begins_credential(text, p) {
        let (j, k, l) = choose|j: int, k: int, l: int| credential_at(text, p, j, k, l);
        lemma_name_chars(text.subrange(p, j));
        assert(text.subrange(p, j)[0] == text[p]);
    }
}

/// A text that hides its credentials is redacted to itself.
proof fn lemma_hidden_stays(text: Seq<char>, p: int)
    requires
        0 <= p <= text.len(),
        hides_credentials(text),
    ensures
        redacted_from(text, p) == text.skip(p),
    decreases text.len() - p,
{
    if p == text.len() {
        assert(redacted_from(text, p) =~= text.skip(p));
    } else if begins_credential(text, p) {
        let (j, k, l) = choose|j: int, k: int, l: int| credential_at(text, p, j, k, l);
        lemma_marker();
        lemma_run_end(text, l);
        let end = run_end(text, l);
        let n = marker().len() as int;
        assert(marked_at(text, j));
        assert forall|x: int| 0 <= x < n implies text[j + x] == #[trigger] marker()[x] by {
            assert(text.subrange(j, j + n)[x] == text[j + x]);
        }
        assert(text[j + 0] == marker()[0]);
        assert(text[j + 1] == marker()[1]);
        assert(k == j);
        assert(l == j + 1);
        if end < j + n {
            assert(text[j + (end - j)] == marker()[end - j]);
        }
        assert(end == j + n);
        lemma_hidden_stays(text, end);
        assert(text.skip(p) =~= text.subrange(p, j) + text.subrange(j, j + n) + text.skip(end));
    } else {
        lemma_hidden_stays(text, p + 1);
        assert(text.skip(p) =~= seq![text[p]] + text.skip(p + 1));
    }
}

/// A text that is the name of a credential and its value is redacted to the name and the
/// marker.
proof fn lemma_told_is_redacted(text: Seq<char>, name: Seq<char>, value: Seq<char>)
    requires
        tells_credential(text, name, value),
    ensures
        redacted_from(text, 0) == name + "="@ + REDACTED@,
{
    reveal_strlit("=");
    reveal_strlit(":");
    assert("="@ =~= seq!['=']);
    assert(":"@ =~= seq![':']);
    if text == name + "="@ + value {
        lemma_parts_are_redacted(name, '=', value);
    } else {
        lemma_parts_are_redacted(name, ':', value);
    }
    assert(name + marker() =~= name + "="@ + REDACTED@);
}

proof fn lemma_parts_are_redacted(name: Seq<char>, sign: char, value: Seq<char>)
    requires
        is_credential_name(name),
        sign == '=' || sign == ':',
        value.len() > 0,
        forall|i: int| 0 <= i < value.len() ==> !is_space(#[trigger] value[i]),
    ensures
        redacted_from(name + seq![sign] + value, 0) == name + marker(),
{
    let text = name + seq![sign] + value;
    let n = name.len() as int;
    lemma_name_chars(name);
    assert(text.subrange(0, n) =~= name);
    assert(text[n] == sign);
    assert forall|x: int| n < x < text.len() implies !is_space(#[trigger] text[x]) by {
        assert(text[x] == value[x - n - 1]);
    }
    assert(credential_at(text, 0, n, n, n + 1));
    let (j, k, l) = choose|j: int, k: int, l: int| credential_at(text, 0, j, k, l);
    lemma_credential_is_unique(text, 0, n, n, n + 1, j, k, l);
    lemma_run_end(text, l);
    let end = run_end(text, l);
    if end < text.len() {
        assert(!is_space(text[end]));
    }
    assert(redacted_from(text, end) =~= Seq::<char>::empty());
    assert(begins_credential(text, 0));
    assert(redacted_from(text, 0) =~= name + marker());
}

/// The marker that stands for a string is no credential.
proof fn lemma_marker_stays()
    ensures
        redacted(REDACTED@) == REDACTED@,
{
    reveal_strlit("***REDACTED***");
    assert(holds_no_credential(REDACTED@));
    lemma_hidden_stays(REDACTED@, 0);
    assert(REDACTED@.skip(0) =~= REDACTED@);
}

/// Whether a key is the name of a credential.
pub fn is_credential_key(key: &str) -> (named: bool)
    ensures
        named == is_credential_name(key@),
{
    match outside_is_match(CREDENTIAL_KEY_PATTERN, key) {
        Some(matched) => matched,
        None => false,
    }
}

/// A copy of a JSON value with its credentials replaced.
fn scrub_json(value: &Json) -> (clean: Json)
    ensures
        clean@ == scrubbed(value@),
        json_hides_credentials(clean@),
    decreases value,
{
    match value {
        Json::Text(s) => Json::Text(scrub_credentials(s.as_str())),
        Json::Array(items) => {
            let mut out: Vec<Json> = Vec::new();
            let mut i: usize = 0;
            while i < items.len()
                invariant
                    i <= items.len(),
                    value == Json::Array(*items),
                    items_view(out@) == scrubbed_items(items_view(items@.take(i as int))),
                    items_hide_credentials(items_view(out@)),
                decreases items.len() - i,
            {
                let ghost before = out@;
                assert(decreases_to!(*value => value->Array_0));
                assert(decreases_to!(value->Array_0 => items@));
                assert(decreases_to!(items@ => items@[i as int]));
                out.push(scrub_json(&items[i]));
                proof {
                    assert(out@.drop_last() =~= before);
                    assert(items_view(out@).drop_last() =~= items_view(before));
                    let longer = items@.take(i + 1);
                    assert(longer.drop_last() =~= items@.take(i as int));
                    assert(items_view(longer).drop_last() =~= items_view(items@.take(i as int)));
                }
                i = i + 1;
            }
            assert(items@.take(i as int) =~= items@);
            Json::Array(out)
        },
        Json::Object(members) => {
            let mut out: Vec<(String, Json)> = Vec::new();
            let mut i: usize = 0;
            while i < members.len()
                invariant
                    i <= members.len(),
                    value == Json::Object(*members),
                    members_view(out@) == scrubbed_members(members_view(members@.take(i as int))),
                    members_hide_credentials(members_view(out@)),
                decreases members.len() - i,
            {
                let ghost before = out@;
                assert(decreases_to!(*value => value->Object_0));
                assert(decreases_to!(value->Object_0 => members@));
                assert(decreases_to!(members@ => members@[i as int]));
                assert(decreases_to!(members@[i as int] => members@[i as int].1));
                let is_text = match &members[i].1 {
                    Json::Text(_) => true,
                    _ => false,
                };
                let clean = if is_credential_key(members[i].0.as_str()) && is_text {
                    proof {
                        lemma_marker_stays();
                    }
                    Json::Text(scrub_credentials(REDACTED))
                } else {
                    scrub_json(&members[i].1)
                };
                assert(json_hides_credentials(clean@));
                out.push((members[i].0.clone(), clean));
                proof {
                    assert(out@.drop_last() =~= before);
                    assert(members_view(out@).drop_last() =~= members_view(before));
                    assert(members_view(out@).last().1 == clean@);
                    let longer = members@.take(i + 1);
                    assert(longer.drop_last() =~= members@.take(i as int));
                    assert(members_view(longer).drop_last() =~= members_view(
                        members@.take(i as int),
                    ));
                }
                i = i + 1;
            }
            assert(members@.take(i as int) =~= members@);
            Json::Object(out)
        },
        other => other.copy(),
    }
}

/// Replaces the credentials in the strings of a JSON value.
pub fn scrub_json_values(value: &mut Json)
    ensures
        final(value)@ == scrubbed(old(value)@),
        json_hides_credentials(final(value)@),
{
    let clean = scrub_json(value);
    *value = clean;
}

// ---------------------------------------------------------------------------------------
// Error codes
// ---------------------------------------------------------------------------------------

/// Machine-readable error codes for API error responses.
#[derive(Debug, Clone, Copy, PartialEq, Eq, Structural)]
pub enum ErrorCode {
    InvalidRequest,
    InvalidValue,
    ValidationError,
    Unauthorized,
    OrderNotFound,
    PositionNotFound,
    SymbolNotFound,
    OcoGroupNotFound,
    OrderNotModifiable,
    ResetCooldown,
    OrderRejected,
    RateLimited,
    InternalError,
    UnsupportedOperation,
    ProviderError,
    ShuttingDown,
    ProviderUnavailable,
}

impl ErrorCode {
    /// The code as it is written in a response.
    pub open spec fn spec_text(self) -> Seq<char> {
        match self {
            ErrorCode::InvalidRequest => "INVALID_REQUEST"@,
            ErrorCode::InvalidValue => "INVALID_VALUE"@,
            ErrorCode::ValidationError => "VALIDATION_ERROR"@,
            ErrorCode::Unauthorized => "UNAUTHORIZED"@,
            ErrorCode::OrderNotFound => "ORDER_NOT_FOUND"@,
            ErrorCode::PositionNotFound => "POSITION_NOT_FOUND"@,
            ErrorCode::SymbolNotFound => "SYMBOL_NOT_FOUND"@,
            ErrorCode::OcoGroupNotFound => "OCO_GROUP_NOT_FOUND"@,
            ErrorCode::OrderNotModifiable => "ORDER_NOT_MODIFIABLE"@,
            ErrorCode::ResetCooldown => "RESET_COOLDOWN"@,
            ErrorCode::OrderRejected => "ORDER_REJECTED"@,
            ErrorCode::RateLimited => "RATE_LIMITED"@,
            ErrorCode::InternalError => "INTERNAL_ERROR"@,
            ErrorCode::UnsupportedOperation => "UNSUPPORTED_OPERATION"@,
            ErrorCode::ProviderError => "PROVIDER_ERROR"@,
            ErrorCode::ShuttingDown => "SHUTTING_DOWN"@,
            ErrorCode::ProviderUnavailable => "PROVIDER_UNAVAILABLE"@,
        }
    }

    /// Returns the error code as a static string slice.
    pub fn as_str(&self) -> (text: &'static str)
        ensures
            text@ == self.spec_text(),
    {
        match self {
            ErrorCode::InvalidRequest => "INVALID_REQUEST",
            ErrorCode::InvalidValue => "INVALID_VALUE",
            ErrorCode::ValidationError => "VALIDATION_ERROR",
            ErrorCode::Unauthorized => "UNAUTHORIZED",
            ErrorCode::OrderNotFound => "ORDER_NOT_FOUND",
            ErrorCode::PositionNotFound => "POSITION_NOT_FOUND",
            ErrorCode::SymbolNotFound => "SYMBOL_NOT_FOUND",
            ErrorCode::OcoGroupNotFound => "OCO_GROUP_NOT_FOUND",
            ErrorCode::OrderNotModifiable => "ORDER_NOT_MODIFIABLE",
            ErrorCode::ResetCooldown => "RESET_COOLDOWN",
            ErrorCode::OrderRejected => "ORDER_REJECTED",
            ErrorCode::RateLimited => "RATE_LIMITED",
            ErrorCode::InternalError => "INTERNAL_ERROR",
            ErrorCode::UnsupportedOperation => "UNSUPPORTED_OPERATION",
            ErrorCode::ProviderError => "PROVIDER_ERROR",
            ErrorCode::ShuttingDown => "SHUTTING_DOWN",
            ErrorCode::ProviderUnavailable => "PROVIDER_UNAVAILABLE",
        }
    }

    /// Reads an error code as it is written in a response.
    pub fn of_text(text: &str) -> (code: Option<ErrorCode>)
        ensures
            match code {
                Some(c) => text@ == c.spec_text(),
                None => forall|c: ErrorCode| text@ != #[trigger] c.spec_text(),
            },
    {
        if same(text, "INVALID_REQUEST") {
            Some(ErrorCode::InvalidRequest)
        } else if same(text, "INVALID_VALUE") {
            Some(ErrorCode::InvalidValue)
        } else if same(text, "VALIDATION_ERROR") {
            Some(ErrorCode::ValidationError)
        } else if same(text, "UNAUTHORIZED") {
            Some(ErrorCode::Unauthorized)
        } else if same(text, "ORDER_NOT_FOUND") {
            Some(ErrorCode::OrderNotFound)
        } else if same(text, "POSITION_NOT_FOUND") {
            Some(ErrorCode::PositionNotFound)
        } else if same(text, "SYMBOL_NOT_FOUND") {
            Some(ErrorCode::SymbolNotFound)
        } else if same(text, "OCO_GROUP_NOT_FOUND") {
            Some(ErrorCode::OcoGroupNotFound)
        } else if same(text, "ORDER_NOT_MODIFIABLE") {
            Some(ErrorCode::OrderNotModifiable)
        } else if same(text, "RESET_COOLDOWN") {
            Some(ErrorCode::ResetCooldown)
        } else if same(text, "ORDER_REJECTED") {
            Some(ErrorCode::OrderRejected)
        } else if same(text, "RATE_LIMITED") {
            Some(ErrorCode::RateLimited)
        } else if same(text, "INTERNAL_ERROR") {
            Some(ErrorCode::InternalError)
        } else if same(text, "UNSUPPORTED_OPERATION") {
            Some(ErrorCode::UnsupportedOperation)
        } else if same(text, "PROVIDER_ERROR") {
            Some(ErrorCode::ProviderError)
        } else if same(text, "SHUTTING_DOWN") {
            Some(ErrorCode::ShuttingDown)
        } else if same(text, "PROVIDER_UNAVAILABLE") {
            Some(ErrorCode::ProviderUnavailable)
        } else {
            None
        }
    }

    /// The error code as text.
    pub fn to_text(&self) -> (text: String)
        ensures
            text@ == self.spec_text(),
    {
        self.as_str().to_owned()
    }
}

// ---------------------------------------------------------------------------------------
// Gateway errors
// ---------------------------------------------------------------------------------------

/// The rules of a request's fields that were broken, as reported to the client.
#[derive(Debug)]
pub struct ValidationFailure {
    /// The report as text.
    pub text: String,
    /// The report as JSON: per field, the rules that it broke.
    pub details: Json,
}

/// Gateway error types.
#[derive(Debug)]
#[allow(inconsistent_fields)]
pub enum GatewayError {
    /// Invalid request format or parameters
    InvalidRequest {
        /// Error description
        message: String,
        /// Field that caused the error (if applicable)
        field: Option<String>,
    },
    /// Invalid value for a specific field
    InvalidValue {
        /// Field name with invalid value
        field: String,
        /// Description of what's wrong
        message: String,
        /// The invalid value that was provided
        provided: Option<String>,
    },
    /// One or more fields of a request break their rules
    ValidationError(ValidationFailure),
    /// Authentication failed or credentials invalid
    Unauthorized {
        /// Reason for authentication failure
        reason: String,
        /// Error code for programmatic handling
        code: String,
    },
    /// Order not found
    OrderNotFound {
        /// Order ID that was not found
        id: String,
    },
    /// Position not found
    PositionNotFound {
        /// Position ID that was not found
        id: String,
    },
    /// Symbol not found or not supported
    SymbolNotFound {
        /// Symbol that was not found
        symbol: String,
    },
    /// OCO group not found
    OcoGroupNotFound {
        /// OCO group ID that was not found
        id: String,
    },
    /// Order cannot be modified (already filled, cancelled, etc.)
    OrderNotModifiable {
        /// Order ID that cannot be modified
        order_id: String,
        /// Reason the order cannot be modified
        reason: String,
    },
    /// Circuit breaker reset rejected due to cooldown period.
    ResetCooldown {
        /// Cooldown reason message.
        message: String,
    },
    /// Order rejected by the exchange/broker
    OrderRejected {
        /// Rejection reason
        reason: String,
        /// Provider-specific rejection code
        reject_code: Option<String>,
        /// Additional rejection details
        details: Option<Json>,
    },
    /// Rate limit exceeded
    RateLimited {
        /// Seconds to wait before retrying
        retry_after_seconds: Option<u64>,
        /// Timestamp when rate limit resets
        reset_at: Option<Timestamp>,
    },
    /// Internal server error
    Internal {
        /// Error description
        message: String,
        /// Underlying error (if any), as text
        source: Option<String>,
    },
    /// Error from upstream provider
    ProviderError {
        /// Error description
        message: String,
        /// Provider name (e.g., "alpaca", "binance")
        provider: Option<String>,
        /// Underlying error (if any), as text
        source: Option<String>,
    },
    /// Gateway is shutting down; new orders are rejected
    ShuttingDown,
    /// Provider is unavailable
    ProviderUnavailable {
        /// Reason provider is unavailable
        message: String,
    },
    /// Operation not supported by this provider
    UnsupportedOperation {
        /// The operation that was attempted
        operation: String,
        /// The provider that doesn't support it
        provider: String,
    },
}

/// What a gateway error holds.
#[allow(inconsistent_fields)]
pub enum GatewayErrorView {
    InvalidRequest { message: Seq<char>, field: Option<Seq<char>> },
    InvalidValue { field: Seq<char>, message: Seq<char>, provided: Option<Seq<char>> },
    ValidationError { text: Seq<char>, details: JsonView },
    Unauthorized { reason: Seq<char>, code: Seq<char> },
    OrderNotFound { id: Seq<char> },
    PositionNotFound { id: Seq<char> },
    SymbolNotFound { symbol: Seq<char> },
    OcoGroupNotFound { id: Seq<char> },
    OrderNotModifiable { order_id: Seq<char>, reason: Seq<char> },
    ResetCooldown { message: Seq<char> },
    OrderRejected { reason: Seq<char>, reject_code: Option<Seq<char>>, details: Option<JsonView> },
    RateLimited { retry_after_seconds: Option<u64>, reset_at: Option<Timestamp> },
    Internal { message: Seq<char>, source: Option<Seq<char>> },
    ProviderError {
        message: Seq<char>,
        provider: Option<Seq<char>>,
        source: Option<Seq<char>>,
    },
    ShuttingDown,
    ProviderUnavailable { message: Seq<char> },
    UnsupportedOperation { operation: Seq<char>, provider: Seq<char> },
}

/// The view of a JSON value that may be absent.
pub open spec fn opt_json(value: Option<Json>) -> Option<JsonView> {
    match value {
        Some(v) => Some(v@),
        None => None,
    }
}

impl View for GatewayError {
    type V = GatewayErrorView;

    open spec fn view(&self) -> GatewayErrorView {
        match *self {
            GatewayError::InvalidRequest { message, field } => GatewayErrorView::InvalidRequest {
                message: message@,
                field: opt_text(field),
            },
            GatewayError::InvalidValue { field, message, provided } => {
                GatewayErrorView::InvalidValue {
                    field: field@,
                    message: message@,
                    provided: opt_text(provided),
                }
            },
            GatewayError::ValidationError(f) => GatewayErrorView::ValidationError {
                text: f.text@,
                details: f.details@,
            },
            GatewayError::Unauthorized { reason, code } => GatewayErrorView::Unauthorized {
                reason: reason@,
                code: code@,
            },
            GatewayError::OrderNotFound { id } => GatewayErrorView::OrderNotFound { id: id@ },
            GatewayError::PositionNotFound { id } => GatewayErrorView::PositionNotFound {
                id: id@,
            },
            GatewayError::SymbolNotFound { symbol } => GatewayErrorView::SymbolNotFound {
                symbol: symbol@,
            },
            GatewayError::OcoGroupNotFound { id } => GatewayErrorView::OcoGroupNotFound {
                id: id@,
            },
            GatewayError::OrderNotModifiable { order_id, reason } => {
                GatewayErrorView::OrderNotModifiable { order_id: order_id@, reason: reason@ }
            },
            GatewayError::ResetCooldown { message } => GatewayErrorView::ResetCooldown {
                message: message@,
            },
            GatewayError::OrderRejected { reason, reject_code, details } => {
                GatewayErrorView::OrderRejected {
                    reason: reason@,
                    reject_code: opt_text(reject_code),
                    details: opt_json(details),
                }
            },
            GatewayError::RateLimited { retry_after_seconds, reset_at } => {
                GatewayErrorView::RateLimited { retry_after_seconds, reset_at }
            },
            GatewayError::Internal { message, source } => GatewayErrorView::Internal {
                message: message@,
                source: opt_text(source),
            },
            GatewayError::ProviderError { message, provider, source } => {
                GatewayErrorView::ProviderError {
                    message: message@,
                    provider: opt_text(provider),
                    source: opt_text(source),
                }
            },
            GatewayError::ShuttingDown => GatewayErrorView::ShuttingDown,
            GatewayError::ProviderUnavailable { message } => {
                GatewayErrorView::ProviderUnavailable { message: message@ }
            },
            GatewayError::UnsupportedOperation { operation, provider } => {
                GatewayErrorView::UnsupportedOperation {
                    operation: operation@,
                    provider: provider@,
                }
            },
        }
    }
}

impl GatewayErrorView {
    /// The error as text.
    pub open spec fn text(self) -> Seq<char> {
        match self {
            GatewayErrorView::InvalidRequest { message, .. } => "Invalid request: "@ + message,
            GatewayErrorView::InvalidValue { field, message, .. } => "Invalid value for "@ + field
                + ": "@ + message,
            GatewayErrorView::ValidationError { text, .. } => "Validation failed: "@ + text,
            GatewayErrorView::Unauthorized { reason, .. } => "Unauthorized: "@ + reason,
            GatewayErrorView::OrderNotFound { id } => "Order not found: "@ + id,
            GatewayErrorView::PositionNotFound { id } => "Position not found: "@ + id,
            GatewayErrorView::SymbolNotFound { symbol } => "Symbol not found: "@ + symbol,
            GatewayErrorView::OcoGroupNotFound { id } => "OCO group not found: "@ + id,
            GatewayErrorView::OrderNotModifiable { reason, .. } => "Order cannot be modified: "@
                + reason,
            GatewayErrorView::ResetCooldown { message } => message,
            GatewayErrorView::OrderRejected { reason, .. } => "Order rejected: "@ + reason,
            GatewayErrorView::RateLimited { .. } => "Rate limit exceeded"@,
            GatewayErrorView::Internal { message, .. } => "Internal error: "@ + message,
            GatewayErrorView::ProviderError { message, .. } => "Provider error: "@ + message,
            GatewayErrorView::ShuttingDown => "Gateway is shutting down"@,
            GatewayErrorView::ProviderUnavailable { message } => "Provider unavailable: "@
                + message,
            GatewayErrorView::UnsupportedOperation { operation, provider } => operation
                + " not supported on "@ + provider,
        }
    }

    /// The machine-readable code of the error.
    pub open spec fn code(self) -> ErrorCode {
        match self {
            GatewayErrorView::InvalidRequest { .. } => ErrorCode::InvalidRequest,
            GatewayErrorView::InvalidValue { .. } => ErrorCode::InvalidValue,
            GatewayErrorView::ValidationError { .. } => ErrorCode::ValidationError,
            GatewayErrorView::Unauthorized { .. } => ErrorCode::Unauthorized,
            GatewayErrorView::OrderNotFound { .. } => ErrorCode::OrderNotFound,
            GatewayErrorView::PositionNotFound { .. } => ErrorCode::PositionNotFound,
            GatewayErrorView::SymbolNotFound { .. } => ErrorCode::SymbolNotFound,
            GatewayErrorView::OcoGroupNotFound { .. } => ErrorCode::OcoGroupNotFound,
            GatewayErrorView::OrderNotModifiable { .. } => ErrorCode::OrderNotModifiable,
            GatewayErrorView::ResetCooldown { .. } => ErrorCode::ResetCooldown,
            GatewayErrorView::OrderRejected { .. } => ErrorCode::OrderRejected,
            GatewayErrorView::RateLimited { .. } => ErrorCode::RateLimited,
            GatewayErrorView::Internal { .. } => ErrorCode::InternalError,
            GatewayErrorView::UnsupportedOperation { .. } => ErrorCode::UnsupportedOperation,
            GatewayErrorView::ProviderError { .. } => ErrorCode::ProviderError,
            GatewayErrorView::ShuttingDown => ErrorCode::ShuttingDown,
            GatewayErrorView::ProviderUnavailable { .. } => ErrorCode::ProviderUnavailable,
        }
    }

    /// What the error tells beyond its text, before redaction.
    pub open spec fn details(self) -> Option<JsonView> {
        match self {
            GatewayErrorView::InvalidRequest { field, .. } => match field {
                Some(f) => Some(JsonView::Object(seq![("field"@, JsonView::Text(f))])),
                None => None,
            },
            GatewayErrorView::InvalidValue { field, provided, .. } => Some(
                JsonView::Object(
                    seq![("field"@, JsonView::Text(field)), ("provided"@, text_or_null(provided))],
                ),
            ),
            GatewayErrorView::ValidationError { details, .. } => Some(details),
            GatewayErrorView::OrderNotFound { id } => Some(resource_view("order"@, id)),
            GatewayErrorView::PositionNotFound { id } => Some(resource_view("position"@, id)),
            GatewayErrorView::SymbolNotFound { symbol } => Some(
                JsonView::Object(seq![("symbol"@, JsonView::Text(symbol))]),
            ),
            GatewayErrorView::OcoGroupNotFound { id } => Some(resource_view("oco_group"@, id)),
            GatewayErrorView::OrderNotModifiable { order_id, .. } => Some(
                JsonView::Object(seq![("order_id"@, JsonView::Text(order_id))]),
            ),
            GatewayErrorView::OrderRejected { reject_code, details, .. } => {
                let base = match details {
                    Some(d) => d,
                    None => JsonView::Object(Seq::empty()),
                };
                match (reject_code, base) {
                    (Some(code), JsonView::Object(members)) => Some(
                        JsonView::Object(
                            with_member(members, "reject_code"@, JsonView::Text(code)),
                        ),
                    ),
                    _ => Some(base),
                }
            },
            GatewayErrorView::RateLimited { retry_after_seconds, reset_at } => Some(
                JsonView::Object(
                    seq![
                        (
                            "retry_after_seconds"@,
                            match retry_after_seconds {
                                Some(n) => JsonView::Number(JsonNumberView::Unsigned(n)),
                                None => JsonView::Null,
                            },
                        ),
                        ("reset_at"@, time_view(reset_at)),
                    ],
                ),
            ),
            GatewayErrorView::ProviderError { provider, .. } => match provider {
                Some(p) => Some(JsonView::Object(seq![("provider"@, JsonView::Text(p))])),
                None => None,
            },
            GatewayErrorView::Unauthorized { code, .. } => Some(
                JsonView::Object(seq![("code"@, JsonView::Text(code))]),
            ),
            GatewayErrorView::UnsupportedOperation { operation, provider } => Some(
                JsonView::Object(
                    seq![
                        ("operation"@, JsonView::Text(operation)),
                        ("provider"@, JsonView::Text(provider)),
                    ],
                ),
            ),
            GatewayErrorView::ResetCooldown { .. }
            | GatewayErrorView::ShuttingDown
            | GatewayErrorView::Internal { .. }
            | GatewayErrorView::ProviderUnavailable { .. } => None,
        }
    }

    /// Whether the provider refused the order as a trade with oneself.
    pub open spec fn is_wash_trade(self) -> bool {
        match self {
            GatewayErrorView::OrderRejected { reason, .. } => has_part(
                lowercase(reason),
                "self-trade"@,
            ) || has_part(lowercase(reason), "wash"@),
            _ => false,
        }
    }

    /// Whether the operation may succeed if tried again.
    pub open spec fn is_retryable(self) -> bool {
        ||| self is RateLimited
        ||| self is ProviderUnavailable
        ||| self is ProviderError
        ||| self.is_wash_trade()
    }
}

/// A string, or `null`.
pub open spec fn text_or_null(text: Option<Seq<char>>) -> JsonView {
    match text {
        Some(t) => JsonView::Text(t),
        None => JsonView::Null,
    }
}

/// A time as an RFC 3339 string, or `null`.
pub open spec fn time_view(time: Option<Timestamp>) -> JsonView {
    match time {
        Some(t) => text_or_null(rfc3339_text(t.secs, t.nanos)),
        None => JsonView::Null,
    }
}

/// The kind and the identifier of a resource that was not found.
pub open spec fn resource_view(kind: Seq<char>, id: Seq<char>) -> JsonView {
    JsonView::Object(seq![("resource"@, JsonView::Text(kind)), ("id"@, JsonView::Text(id))])
}

/// The HTTP status that an error code is answered with.
pub open spec fn status_of(code: ErrorCode) -> u16 {
    match code {
        ErrorCode::InvalidRequest | ErrorCode::InvalidValue | ErrorCode::ValidationError => 400,
        ErrorCode::Unauthorized => 401,
        ErrorCode::OrderNotFound
        | ErrorCode::PositionNotFound
        | ErrorCode::SymbolNotFound
        | ErrorCode::OcoGroupNotFound => 404,
        ErrorCode::OrderNotModifiable | ErrorCode::ResetCooldown => 409,
        ErrorCode::OrderRejected => 422,
        ErrorCode::RateLimited => 429,
        ErrorCode::InternalError => 500,
        ErrorCode::UnsupportedOperation => 501,
        ErrorCode::ProviderError => 502,
        ErrorCode::ShuttingDown | ErrorCode::ProviderUnavailable => 503,
    }
}

/// API error response body.
#[derive(Debug)]
pub struct ApiError {
    /// Machine-readable error code (e.g., `ORDER_NOT_FOUND`, `RATE_LIMITED`)
    pub code: ErrorCode,
    /// Human-readable error message
    pub message: String,
    /// Additional error context (varies by error type)
    pub details: Option<Json>,
}

impl ApiError {
    /// The response body: the code, the message, and the details where there are any.
    pub fn to_json(&self) -> (body: Json)
        ensures
            body@ == JsonView::Object(
                seq![
                    ("code"@, JsonView::Text(self.code.spec_text())),
                    ("message"@, JsonView::Text(self.message@)),
                ] + (match self.details {
                    Some(d) => seq![("details"@, d@)],
                    None => Seq::empty(),
                }),
            ),
    {
        let body = Json::object().with("code", Json::text(self.code.as_str())).with(
            "message",
            Json::text(self.message.as_str()),
        );
        match &self.details {
            Some(d) => {
                let full = body.with("details", d.copy());
                assert(full@->Object_0 =~= seq![
                    ("code"@, JsonView::Text(self.code.spec_text())),
                    ("message"@, JsonView::Text(self.message@)),
                ] + seq![("details"@, d@)]);
                full
            },
            None => {
                assert(body@->Object_0 =~= seq![
                    ("code"@, JsonView::Text(self.code.spec_text())),
                    ("message"@, JsonView::Text(self.message@)),
                ] + Seq::<(Seq<char>, JsonView)>::empty());
                body
            },
        }
    }
}

impl GatewayError {
    /// Create an internal error.
    pub fn internal(message: &str) -> (e: GatewayError)
        ensures
            e@ == (GatewayErrorView::Internal { message: message@, source: None }),
    {
        GatewayError::Internal { message: message.to_owned(), source: None }
    }

    /// Create an internal error wrapping another error.
    pub fn internal_with_source(message: &str, source: &str) -> (e: GatewayError)
        ensures
            e@ == (GatewayErrorView::Internal { message: message@, source: Some(source@) }),
    {
        GatewayError::Internal { message: message.to_owned(), source: Some(source.to_owned()) }
    }

    /// Create a provider error with source.
    pub fn provider_error(message: &str, provider: &str, source: &str) -> (e: GatewayError)
        ensures
            e@ == (GatewayErrorView::ProviderError {
                message: message@,
                provider: Some(provider@),
                source: Some(source@),
            }),
    {
        GatewayError::ProviderError {
            message: message.to_owned(),
            provider: Some(provider.to_owned()),
            source: Some(source.to_owned()),
        }
    }

    /// Create an unauthorized error.
    pub fn unauthorized(reason: &str, code: &str) -> (e: GatewayError)
        ensures
            e@ == (GatewayErrorView::Unauthorized { reason: reason@, code: code@ }),
    {
        GatewayError::Unauthorized { reason: reason.to_owned(), code: code.to_owned() }
    }

    /// Create an unsupported operation error.
    pub fn unsupported(operation: &str, provider: &str) -> (e: GatewayError)
        ensures
            e@ == (GatewayErrorView::UnsupportedOperation {
                operation: operation@,
                provider: provider@,
            }),
    {
        GatewayError::UnsupportedOperation {
            operation: operation.to_owned(),
            provider: provider.to_owned(),
        }
    }

    /// The error as text.
    pub fn to_text(&self) -> (text: String)
        ensures
            text@ == self@.text(),
    {
        match self {
            GatewayError::InvalidRequest { message, .. } => join2("Invalid request: ", message),
            GatewayError::InvalidValue { field, message, .. } => join4(
                "Invalid value for ",
                field,
                ": ",
                message,
            ),
            GatewayError::ValidationError(failure) => join2(
                "Validation failed: ",
                failure.text.as_str(),
            ),
            GatewayError::Unauthorized { reason, .. } => join2("Unauthorized: ", reason),
            GatewayError::OrderNotFound { id } => join2("Order not found: ", id),
            GatewayError::PositionNotFound { id } => join2("Position not found: ", id),
            GatewayError::SymbolNotFound { symbol } => join2("Symbol not found: ", symbol),
            GatewayError::OcoGroupNotFound { id } => join2("OCO group not found: ", id),
            GatewayError::OrderNotModifiable { reason, .. } => join2(
                "Order cannot be modified: ",
                reason,
            ),
            GatewayError::ResetCooldown { message } => message.clone(),
            GatewayError::OrderRejected { reason, .. } => join2("Order rejected: ", reason),
            GatewayError::RateLimited { .. } => "Rate limit exceeded".to_owned(),
            GatewayError::Internal { message, .. } => join2("Internal error: ", message),
            GatewayError::ProviderError { message, .. } => join2("Provider error: ", message),
            GatewayError::ShuttingDown => "Gateway is shutting down".to_owned(),
            GatewayError::ProviderUnavailable { message } => join2(
                "Provider unavailable: ",
                message,
            ),
            GatewayError::UnsupportedOperation { operation, provider } => join3(
                operation,
                " not supported on ",
                provider,
            ),
        }
    }

    /// HTTP status code for this error.
    pub fn status_code(&self) -> (status: u16)
        ensures
            status == status_of(self@.code()),
    {
        match self {
            GatewayError::InvalidRequest { .. }
            | GatewayError::InvalidValue { .. }
            | GatewayError::ValidationError(_) => 400,
            GatewayError::Unauthorized { .. } => 401,
            GatewayError::OrderNotFound { .. }
            | GatewayError::PositionNotFound { .. }
            | GatewayError::SymbolNotFound { .. }
            | GatewayError::OcoGroupNotFound { .. } => 404,
            GatewayError::OrderNotModifiable { .. } | GatewayError::ResetCooldown { .. } => 409,
            GatewayError::OrderRejected { .. } => 422,
            GatewayError::RateLimited { .. } => 429,
            GatewayError::Internal { .. } => 500,
            GatewayError::UnsupportedOperation { .. } => 501,
            GatewayError::ProviderError { .. } => 502,
            GatewayError::ShuttingDown | GatewayError::ProviderUnavailable { .. } => 503,
        }
    }

    /// Machine-readable error code.
    pub fn error_code(&self) -> (code: ErrorCode)
        ensures
            code == self@.code(),
    {
        match self {
            GatewayError::InvalidRequest { .. } => ErrorCode::InvalidRequest,
            GatewayError::InvalidValue { .. } => ErrorCode::InvalidValue,
            GatewayError::ValidationError(_) => ErrorCode::ValidationError,
            GatewayError::Unauthorized { .. } => ErrorCode::Unauthorized,
            GatewayError::OrderNotFound { .. } => ErrorCode::OrderNotFound,
            GatewayError::PositionNotFound { .. } => ErrorCode::PositionNotFound,
            GatewayError::SymbolNotFound { .. } => ErrorCode::SymbolNotFound,
            GatewayError::OcoGroupNotFound { .. } => ErrorCode::OcoGroupNotFound,
            GatewayError::OrderNotModifiable { .. } => ErrorCode::OrderNotModifiable,
            GatewayError::ResetCooldown { .. } => ErrorCode::ResetCooldown,
            GatewayError::OrderRejected { .. } => ErrorCode::OrderRejected,
            GatewayError::RateLimited { .. } => ErrorCode::RateLimited,
            GatewayError::Internal { .. } => ErrorCode::InternalError,
            GatewayError::UnsupportedOperation { .. } => ErrorCode::UnsupportedOperation,
            GatewayError::ProviderError { .. } => ErrorCode::ProviderError,
            GatewayError::ShuttingDown => ErrorCode::ShuttingDown,
            GatewayError::ProviderUnavailable { .. } => ErrorCode::ProviderUnavailable,
        }
    }

    /// What the error tells beyond its text, before redaction.
    fn raw_details(&self) -> (details: Option<Json>)
        ensures
            opt_json(details) == self@.details(),
    {
        match self {
            GatewayError::InvalidRequest { field, .. } => match field {
                Some(f) => {
                    let d = Json::object().with("field", Json::text(f.as_str()));
                    assert(d@->Object_0 =~= seq![("field"@, JsonView::Text(f@))]);
                    Some(d)
                },
                None => None,
            },
            GatewayError::InvalidValue { field, provided, .. } => {
                let d = Json::object().with("field", Json::text(field.as_str())).with(
                    "provided",
                    Json::opt_text(provided),
                );
                assert(d@->Object_0 =~= seq![
                    ("field"@, JsonView::Text(field@)),
                    ("provided"@, text_or_null(opt_text(*provided))),
                ]);
                Some(d)
            },
            GatewayError::ValidationError(failure) => Some(failure.details.copy()),
            GatewayError::OrderNotFound { id } => Some(resource_json("order", id.as_str())),
            GatewayError::PositionNotFound { id } => Some(
                resource_json("position", id.as_str()),
            ),
            GatewayError::SymbolNotFound { symbol } => {
                let d = Json::object().with("symbol", Json::text(symbol.as_str()));
                assert(d@->Object_0 =~= seq![("symbol"@, JsonView::Text(symbol@))]);
                Some(d)
            },
            GatewayError::OcoGroupNotFound { id } => Some(
                resource_json("oco_group", id.as_str()),
            ),
            GatewayError::OrderNotModifiable { order_id, .. } => {
                let d = Json::object().with("order_id", Json::text(order_id.as_str()));
                assert(d@->Object_0 =~= seq![("order_id"@, JsonView::Text(order_id@))]);
                Some(d)
            },
            GatewayError::OrderRejected { reject_code, details, .. } => {
                let base = match details {
                    Some(d) => d.copy(),
                    None => Json::object(),
                };
                match reject_code {
                    Some(code) => Some(base.set_member("reject_code", Json::text(code.as_str()))),
                    None => Some(base),
                }
            },
            GatewayError::RateLimited { retry_after_seconds, reset_at } => {
                let reset = match reset_at {
                    Some(t) => Json::opt_text(&rfc3339(t.secs, t.nanos)),
                    None => Json::Null,
                };
                let d = Json::object().with(
                    "retry_after_seconds",
                    Json::opt_number(*retry_after_seconds),
                ).with("reset_at", reset);
                proof {
                    let want = self@.details()->0;
                    assert(d@->Object_0 =~= want->Object_0);
                }
                Some(d)
            },
            GatewayError::ProviderError { provider, .. } => match provider {
                Some(p) => {
                    let d = Json::object().with("provider", Json::text(p.as_str()));
                    assert(d@->Object_0 =~= seq![("provider"@, JsonView::Text(p@))]);
                    Some(d)
                },
                None => None,
            },
            GatewayError::Unauthorized { code, .. } => {
                let d = Json::object().with("code", Json::text(code.as_str()));
                assert(d@->Object_0 =~= seq![("code"@, JsonView::Text(code@))]);
                Some(d)
            },
            GatewayError::UnsupportedOperation { operation, provider } => {
                let d = Json::object().with("operation", Json::text(operation.as_str())).with(
                    "provider",
                    Json::text(provider.as_str()),
                );
                assert(d@->Object_0 =~= seq![
                    ("operation"@, JsonView::Text(operation@)),
                    ("provider"@, JsonView::Text(provider@)),
                ]);
                Some(d)
            },
            GatewayError::ResetCooldown { .. }
            | GatewayError::ShuttingDown
            | GatewayError::Internal { .. }
            | GatewayError::ProviderUnavailable { .. } => None,
        }
    }

    /// Convert to API error response body, with credentials redacted.
    pub fn to_api_error(&self) -> (body: ApiError)
        ensures
            body.code == self@.code(),
            body.message@ == redacted(self@.text()),
            opt_json(body.details) == (match self@.details() {
                Some(d) => Some(scrubbed(d)),
                None => None,
            }),
            hides_credentials(body.message@),
            opt_json(body.details) matches Some(d) ==> json_hides_credentials(d),
    {
        let details = match self.raw_details() {
            Some(d) => Some(scrub_json(&d)),
            None => None,
        };
        ApiError {
            code: self.error_code(),
            message: scrub_credentials(self.to_text().as_str()),
            details,
        }
    }

    /// Check if this is a wash trade / self-trade prevention error.
    pub fn is_wash_trade_error(&self) -> (wash: bool)
        ensures
            wash == self@.is_wash_trade(),
    {
        match self {
            GatewayError::OrderRejected { reason, .. } => {
                let reason_lower = to_lowercase(reason.as_str());
                contains(reason_lower.as_str(), "self-trade") || contains(
                    reason_lower.as_str(),
                    "wash",
                )
            },
            _ => false,
        }
    }

    /// Check if this error is potentially retryable.
    pub fn is_retryable(&self) -> (retryable: bool)
        ensures
            retryable == self@.is_retryable(),
    {
        match self {
            GatewayError::RateLimited { .. }
            | GatewayError::ProviderUnavailable { .. }
            | GatewayError::ProviderError { .. } => true,
            _ => self.is_wash_trade_error(),
        }
    }
}

/// The kind and the identifier of a resource that was not found.
fn resource_json(kind: &str, id: &str) -> (value: Json)
    ensures
        value@ == resource_view(kind@, id@),
{
    let d = Json::object().with("resource", Json::text(kind)).with("id", Json::text(id));
    assert(d@->Object_0 =~= seq![
        ("resource"@, JsonView::Text(kind@)),
        ("id"@, JsonView::Text(id@)),
    ]);
    d
}

/// Convenient result type alias for gateway operations.
pub type GatewayResult<T> = Result<T, GatewayError>;

// ---------------------------------------------------------------------------------------
// Laws
// ---------------------------------------------------------------------------------------

/// Whether every string in a JSON value is the result of a redaction.
pub open spec fn all_texts_redacted(value: JsonView) -> bool
    decreases value,
{
    match value {
        JsonView::Text(s) => exists|t: Seq<char>| s == #[trigger] redacted(t),
        JsonView::Array(items) => all_items_redacted(items),
        JsonView::Object(members) => all_members_redacted(members),
        _ => true,
    }
}

/// Whether every string in a list of JSON values is the result of a redaction.
pub open spec fn all_items_redacted(items: Seq<JsonView>) -> bool
    decreases items,
{
    items.len() == 0 || (all_items_redacted(items.drop_last()) && all_texts_redacted(items.last()))
}

/// Whether every string in the values of an object is the result of a redaction.
pub open spec fn all_members_redacted(members: Seq<(Seq<char>, JsonView)>) -> bool
    decreases members,
{
    members.len() == 0 || (all_members_redacted(members.drop_last()) && all_texts_redacted(
        members.last().1,
    ))
}

/// No string of a scrubbed JSON value, however deep, has escaped redaction.
pub proof fn law_scrubbing_reaches_every_string(value: JsonView)
    ensures
        all_texts_redacted(scrubbed(value)),
    decreases value,
{
    match value {
        JsonView::Text(s) => {
            assert(scrubbed(value)->Text_0 == redacted(s));
        },
        JsonView::Array(items) => {
            lemma_items_redacted(items);
        },
        JsonView::Object(members) => {
            lemma_members_redacted(members);
        },
        _ => {},
    }
}

proof fn lemma_items_redacted(items: Seq<JsonView>)
    ensures
        all_items_redacted(scrubbed_items(items)),
    decreases items,
{
    if items.len() > 0 {
        lemma_items_redacted(items.drop_last());
        law_scrubbing_reaches_every_string(items.last());
        let out = scrubbed_items(items);
        assert(out.drop_last() =~= scrubbed_items(items.drop_last()));
    }
}

proof fn lemma_members_redacted(members: Seq<(Seq<char>, JsonView)>)
    ensures
        all_members_redacted(scrubbed_members(members)),
    decreases members,
{
    if members.len() > 0 {
        lemma_members_redacted(members.drop_last());
        let (key, value) = members.last();
        law_scrubbing_reaches_every_string(value);
        let out = scrubbed_members(members);
        assert(out.drop_last() =~= scrubbed_members(members.drop_last()));
        lemma_marker_stays();
        assert(all_texts_redacted(out.last().1));
    }
}

/// Redacting a text twice is redacting it once; a text in which no credential is told stays as it
/// is, and in a text that was redacted every credential is followed by the marker alone.
pub proof fn law_redaction_settles(text: Seq<char>)
    ensures
        redacted(redacted(text)) == redacted(text),
        holds_no_credential(text) ==> redacted(text) == text,
        hides_credentials(redacted(text)),
{
    let out = redacted(text);
    lemma_redaction_hides(text, 0);
    lemma_hidden_stays(out, 0);
    assert(out.skip(0) =~= out);
    if holds_no_credential(text) {
        lemma_hidden_stays(text, 0);
        assert(text.skip(0) =~= text);
    }
}

/// What an error is answered with and whether its operation may be tried again agree: an
/// error with a server-side status 429, 502 or 503 is retryable, except that the gateway
/// does not come back from shutting down.
pub proof fn law_retryable_statuses(e: GatewayErrorView)
    ensures
        (status_of(e.code()) == 429 || status_of(e.code()) == 502 || status_of(e.code()) == 503)
            && !(e is ShuttingDown) ==> e.is_retryable(),
        e.is_retryable() ==> status_of(e.code()) == 429 || status_of(e.code()) == 502
            || status_of(e.code()) == 503 || status_of(e.code()) == 422,
{
}

/// No two error codes are written the same, so that a code is read back as itself.
pub proof fn law_error_codes_differ(a: ErrorCode, b: ErrorCode)
    ensures
        a.spec_text() == b.spec_text() ==> a == b,
{
    reveal_strlit("INVALID_REQUEST");
    reveal_strlit("INVALID_VALUE");
    reveal_strlit("VALIDATION_ERROR");
    reveal_strlit("UNAUTHORIZED");
    reveal_strlit("ORDER_NOT_FOUND");
    reveal_strlit("POSITION_NOT_FOUND");
    reveal_strlit("SYMBOL_NOT_FOUND");
    reveal_strlit("OCO_GROUP_NOT_FOUND");
    reveal_strlit("ORDER_NOT_MODIFIABLE");
    reveal_strlit("RESET_COOLDOWN");
    reveal_strlit("ORDER_REJECTED");
    reveal_strlit("RATE_LIMITED");
    reveal_strlit("INTERNAL_ERROR");
    reveal_strlit("UNSUPPORTED_OPERATION");
    reveal_strlit("PROVIDER_ERROR");
    reveal_strlit("SHUTTING_DOWN");
    reveal_strlit("PROVIDER_UNAVAILABLE");
    let x = a.spec_text();
    let y = b.spec_text();
    assert(x.len() == y.len() && x[0] == y[0] ==> a == b);
}

/// Each error is answered with the HTTP status that tells the client what went wrong: a bad
/// request, missing rights, something that is not there, a conflict, a rejection, a rate limit, or
/// a fault of the gateway or its provider.
pub proof fn law_errors_and_their_statuses(e: GatewayErrorView)
    ensures
        ({
            let status = status_of(e.code());
            &&& status == 400 <==> e is InvalidRequest || e is InvalidValue || e is ValidationError
            &&& status == 401 <==> e is Unauthorized
            &&& status == 404 <==> e is OrderNotFound || e is PositionNotFound || e is SymbolNotFound
                || e is OcoGroupNotFound
            &&& status == 409 <==> e is OrderNotModifiable || e is ResetCooldown
            &&& status == 422 <==> e is OrderRejected
            &&& status == 429 <==> e is RateLimited
            &&& status == 500 <==> e is Internal
            &&& status == 501 <==> e is UnsupportedOperation
            &&& status == 502 <==> e is ProviderError
            &&& status == 503 <==> e is ShuttingDown || e is ProviderUnavailable
        }),
{
}

/// The code of an error names its variant.
pub proof fn law_errors_and_their_codes(e: GatewayErrorView)
    ensures
        e is InvalidRequest ==> e.code().spec_text() == "INVALID_REQUEST"@,
        e is InvalidValue ==> e.code().spec_text() == "INVALID_VALUE"@,
        e is ValidationError ==> e.code().spec_text() == "VALIDATION_ERROR"@,
        e is Unauthorized ==> e.code().spec_text() == "UNAUTHORIZED"@,
        e is OrderNotFound ==> e.code().spec_text() == "ORDER_NOT_FOUND"@,
        e is PositionNotFound ==> e.code().spec_text() == "POSITION_NOT_FOUND"@,
        e is SymbolNotFound ==> e.code().spec_text() == "SYMBOL_NOT_FOUND"@,
        e is OcoGroupNotFound ==> e.code().spec_text() == "OCO_GROUP_NOT_FOUND"@,
        e is OrderNotModifiable ==> e.code().spec_text() == "ORDER_NOT_MODIFIABLE"@,
        e is ResetCooldown ==> e.code().spec_text() == "RESET_COOLDOWN"@,
        e is OrderRejected ==> e.code().spec_text() == "ORDER_REJECTED"@,
        e is RateLimited ==> e.code().spec_text() == "RATE_LIMITED"@,
        e is Internal ==> e.code().spec_text() == "INTERNAL_ERROR"@,
        e is UnsupportedOperation ==> e.code().spec_text() == "UNSUPPORTED_OPERATION"@,
        e is ProviderError ==> e.code().spec_text() == "PROVIDER_ERROR"@,
        e is ShuttingDown ==> e.code().spec_text() == "SHUTTING_DOWN"@,
        e is ProviderUnavailable ==> e.code().spec_text() == "PROVIDER_UNAVAILABLE"@,
{
}

/// Whether a text ends with another.
pub open spec fn ends_with(text: Seq<char>, end: Seq<char>) -> bool {
    text.len() >= end.len() && text.skip(text.len() - end.len()) == end
}

/// The text of an error ends with what the error tells: its message, its reason, or what was not
/// found.
pub proof fn law_error_text_tells_it(e: GatewayErrorView)
    ensures
        match e {
            GatewayErrorView::InvalidRequest { message, .. } => ends_with(e.text(), message),
            GatewayErrorView::InvalidValue { message, field, .. } => ends_with(e.text(), message)
                && has_part(e.text(), field),
            GatewayErrorView::ValidationError { text, .. } => ends_with(e.text(), text),
            GatewayErrorView::Unauthorized { reason, .. } => ends_with(e.text(), reason),
            GatewayErrorView::OrderNotFound { id } => ends_with(e.text(), id),
            GatewayErrorView::PositionNotFound { id } => ends_with(e.text(), id),
            GatewayErrorView::SymbolNotFound { symbol } => ends_with(e.text(), symbol),
            GatewayErrorView::OcoGroupNotFound { id } => ends_with(e.text(), id),
            GatewayErrorView::OrderNotModifiable { reason, .. } => ends_with(e.text(), reason),
            GatewayErrorView::ResetCooldown { message } => e.text() == message,
            GatewayErrorView::OrderRejected { reason, .. } => ends_with(e.text(), reason),
            GatewayErrorView::Internal { message, .. } => ends_with(e.text(), message),
            GatewayErrorView::ProviderError { message, .. } => ends_with(e.text(), message),
            GatewayErrorView::ProviderUnavailable { message } => ends_with(e.text(), message),
            GatewayErrorView::UnsupportedOperation { operation, provider } => ends_with(
                e.text(),
                provider,
            ) && e.text().take(operation.len() as int) == operation,
            GatewayErrorView::RateLimited { .. } => e.text() == "Rate limit exceeded"@,
            GatewayErrorView::ShuttingDown => e.text() == "Gateway is shutting down"@,
        },
{
    match e {
        GatewayErrorView::InvalidRequest { message, .. } => {
            lemma_ends_with("Invalid request: "@, message);
        },
        GatewayErrorView::InvalidValue { message, field, .. } => {
            lemma_ends_with("Invalid value for "@ + field + ": "@, message);
            let head = "Invalid value for "@;
            assert(e.text().subrange(head.len() as int, (head.len() + field.len()) as int) =~= field);
            assert(occurs_at(e.text(), field, head.len() as int));
        },
        GatewayErrorView::ValidationError { text, .. } => {
            lemma_ends_with("Validation failed: "@, text);
        },
        GatewayErrorView::Unauthorized { reason, .. } => {
            lemma_ends_with("Unauthorized: "@, reason);
        },
        GatewayErrorView::OrderNotFound { id } => {
            lemma_ends_with("Order not found: "@, id);
        },
        GatewayErrorView::PositionNotFound { id } => {
            lemma_ends_with("Position not found: "@, id);
        },
        GatewayErrorView::SymbolNotFound { symbol } => {
            lemma_ends_with("Symbol not found: "@, symbol);
        },
        GatewayErrorView::OcoGroupNotFound { id } => {
            lemma_ends_with("OCO group not found: "@, id);
        },
        GatewayErrorView::OrderNotModifiable { reason, .. } => {
            lemma_ends_with("Order cannot be modified: "@, reason);
        },
        GatewayErrorView::OrderRejected { reason, .. } => {
            lemma_ends_with("Order rejected: "@, reason);
        },
        GatewayErrorView::Internal { message, .. } => {
            lemma_ends_with("Internal error: "@, message);
        },
        GatewayErrorView::ProviderError { message, .. } => {
            lemma_ends_with("Provider error: "@, message);
        },
        GatewayErrorView::ProviderUnavailable { message } => {
            lemma_ends_with("Provider unavailable: "@, message);
        },
        GatewayErrorView::UnsupportedOperation { operation, provider } => {
            lemma_ends_with(operation + " not supported on "@, provider);
            assert(e.text().take(operation.len() as int) =~= operation);
        },
        _ => {},
    }
}

proof fn lemma_ends_with(head: Seq<char>, end: Seq<char>)
    ensures
        ends_with(head + end, end),
{
    assert((head + end).skip(head.len() as int) =~= end);
}

/// The details of an error name what it is about: the field, the resource, the order, the
/// provider, or how long to wait; an error that tells of no such thing has none.
pub proof fn law_error_details_name_it(e: GatewayErrorView)
    ensures
        match e {
            GatewayErrorView::InvalidRequest { field, .. } => match field {
                Some(f) => e.details() matches Some(d) && says(d, "field"@, JsonView::Text(f)),
                None => e.details() is None,
            },
            GatewayErrorView::InvalidValue { field, provided, .. } => e.details() matches Some(d)
                && says(d, "field"@, JsonView::Text(field)) && (provided matches Some(p) ==> says(
                d,
                "provided"@,
                JsonView::Text(p),
            )),
            GatewayErrorView::ValidationError { details, .. } => e.details() == Some(details),
            GatewayErrorView::OrderNotFound { id } => e.details() matches Some(d) && says(
                d,
                "id"@,
                JsonView::Text(id),
            ) && says(d, "resource"@, JsonView::Text("order"@)),
            GatewayErrorView::PositionNotFound { id } => e.details() matches Some(d) && says(
                d,
                "id"@,
                JsonView::Text(id),
            ) && says(d, "resource"@, JsonView::Text("position"@)),
            GatewayErrorView::OcoGroupNotFound { id } => e.details() matches Some(d) && says(
                d,
                "id"@,
                JsonView::Text(id),
            ) && says(d, "resource"@, JsonView::Text("oco_group"@)),
            GatewayErrorView::SymbolNotFound { symbol } => e.details() matches Some(d) && says(
                d,
                "symbol"@,
                JsonView::Text(symbol),
            ),
            GatewayErrorView::OrderNotModifiable { order_id, .. } => e.details() matches Some(d)
                && says(d, "order_id"@, JsonView::Text(order_id)),
            GatewayErrorView::Unauthorized { code, .. } => e.details() matches Some(d) && says(
                d,
                "code"@,
                JsonView::Text(code),
            ),
            GatewayErrorView::UnsupportedOperation { operation, provider } => e.details() matches Some(
                d,
            ) && says(d, "operation"@, JsonView::Text(operation)) && says(
                d,
                "provider"@,
                JsonView::Text(provider),
            ),
            GatewayErrorView::RateLimited { retry_after_seconds, .. } => e.details() matches Some(d)
                && (retry_after_seconds matches Some(n) ==> says(
                d,
                "retry_after_seconds"@,
                JsonView::Number(JsonNumberView::Unsigned(n)),
            )) && (retry_after_seconds is None ==> says(d, "retry_after_seconds"@, JsonView::Null)),
            GatewayErrorView::ProviderError { provider, .. } => match provider {
                Some(p) => e.details() matches Some(d) && says(d, "provider"@, JsonView::Text(p)),
                None => e.details() is None,
            },
            GatewayErrorView::OrderRejected { reject_code, details, .. } => match (
                reject_code,
                details,
            ) {
                (Some(code), None) => e.details() matches Some(d) && says(
                    d,
                    "reject_code"@,
                    JsonView::Text(code),
                ),
                (None, Some(own)) => e.details() == Some(own),
                (None, None) => e.details() == Some(JsonView::Object(Seq::empty())),
                (Some(_), Some(_)) => e.details() is Some,
            },
            GatewayErrorView::ResetCooldown { .. }
            | GatewayErrorView::ShuttingDown
            | GatewayErrorView::Internal { .. }
            | GatewayErrorView::ProviderUnavailable { .. } => e.details() is None,
        },
{
    if let Some(JsonView::Object(members)) = e.details() {
        if members.len() > 0 {
            assert(members.contains(members[0]));
        }
        if members.len() > 1 {
            assert(members.contains(members[1]));
        }
    }
}

/// A rejected order is a trade with oneself exactly where its reason says so; only a rate limit, a
/// provider that fails or is unavailable, and such a rejection may be tried again.
pub proof fn law_what_may_be_tried_again(e: GatewayErrorView)
    ensures
        e.is_wash_trade() <==> (e matches GatewayErrorView::OrderRejected { reason, .. } && (has_part(
            lowercase(reason),
            "self-trade"@,
        ) || has_part(lowercase(reason), "wash"@))),
        e.is_retryable() <==> e is RateLimited || e is ProviderUnavailable || e is ProviderError
            || e.is_wash_trade(),
        e is InvalidRequest || e is InvalidValue || e is ValidationError || e is Unauthorized
            || e is OrderNotFound || e is PositionNotFound || e is SymbolNotFound
            || e is OcoGroupNotFound || e is OrderNotModifiable || e is ResetCooldown || e is Internal
            || e is ShuttingDown || e is UnsupportedOperation ==> !e.is_retryable(),
{
}

/// Scrubbing keeps the shape of a value: truth values and numbers stay, a list keeps its length and
/// an object its keys, and every part is scrubbed in its place. A string under the name of a
/// credential is replaced whole.
pub proof fn law_scrubbing_keeps_the_shape(value: JsonView, i: int)
    ensures
        match value {
            JsonView::Null | JsonView::Bool(_) | JsonView::Number(_) => scrubbed(value) == value,
            JsonView::Text(s) => scrubbed(value) == JsonView::Text(redacted(s)),
            JsonView::Array(items) => scrubbed(value) matches JsonView::Array(clean) && clean.len()
                == items.len() && (0 <= i < items.len() ==> clean[i] == scrubbed(items[i])),
            JsonView::Object(members) => scrubbed(value) matches JsonView::Object(clean)
                && clean.len() == members.len() && (0 <= i < members.len() ==> clean[i].0
                == members[i].0 && clean[i].1 == (if is_credential_name(members[i].0)
                && members[i].1 is Text {
                JsonView::Text("***REDACTED***"@)
            } else {
                scrubbed(members[i].1)
            })),
        },
{
    match value {
        JsonView::Array(items) => {
            lemma_scrubbed_items(items, i);
        },
        JsonView::Object(members) => {
            lemma_scrubbed_members(members, i);
        },
        _ => {},
    }
}

proof fn lemma_scrubbed_items(items: Seq<JsonView>, i: int)
    ensures
        scrubbed_items(items).len() == items.len(),
        0 <= i < items.len() ==> scrubbed_items(items)[i] == scrubbed(items[i]),
    decreases items.len(),
{
    if items.len() > 0 {
        lemma_scrubbed_items(items.drop_last(), i);
    }
}

proof fn lemma_scrubbed_members(members: Seq<(Seq<char>, JsonView)>, i: int)
    ensures
        scrubbed_members(members).len() == members.len(),
        0 <= i < members.len() ==> scrubbed_members(members)[i] == (
            members[i].0,
            if is_credential_name(members[i].0) && members[i].1 is Text {
                JsonView::Text(REDACTED@)
            } else {
                scrubbed(members[i].1)
            },
        ),
    decreases members.len(),
{
    if members.len() > 0 {
        lemma_scrubbed_members(members.drop_last(), i);
    }
}

/// A text is the name of a credential exactly where it is one of six words, in capital or small
/// letters.
pub proof fn law_which_names_are_credentials(text: Seq<char>)
    ensures
        is_credential_name(text) <==> {
            let small = text.map_values(|c: char| folded(c));
            small == "apikey"@ || small == "api_key"@ || small == "secret"@ || small == "token"@
                || small == "password"@ || small == "authorization"@
        },
        forall|c: char| 'A' <= c <= 'Z' ==> (#[trigger] folded(c)) as int == c as int + 32,
        forall|c: char| 'a' <= c <= 'z' || c == '_' ==> #[trigger] folded(c) == c,
{
}

} // verus!
