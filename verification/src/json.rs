//! JSON values.
//!
//! [`Json`] is the tree that error details and provider responses are made of. An object is
//! a list of members; looking a key up finds its first member, and inserting keeps keys
//! unique where they were.

use vstd::prelude::*;
use vstd::string::*;
use crate::text::{same, texts};

verus! {

/// A JSON number. The numbers that the library reads are whole; any other number is carried
/// along as its text.
#[derive(Debug)]
pub enum JsonNumber {
    /// A whole number from zero up.
    Unsigned(u64),
    /// A whole number below zero.
    Negative(i64),
    /// Any other number, as written.
    Other(String),
}

/// A JSON value.
#[derive(Debug)]
pub enum Json {
    /// `null`.
    Null,
    /// A truth value.
    Bool(bool),
    /// A number.
    Number(JsonNumber),
    /// A string.
    Text(String),
    /// A list of values.
    Array(Vec<Json>),
    /// The members of an object.
    Object(Vec<(String, Json)>),
}

/// What a JSON number stands for.
pub enum JsonNumberView {
    Unsigned(u64),
    Negative(i64),
    Other(Seq<char>),
}

/// What a JSON value stands for.
#[verifier::ext_equal]
pub enum JsonView {
    Null,
    Bool(bool),
    Number(JsonNumberView),
    Text(Seq<char>),
    Array(Seq<JsonView>),
    Object(Seq<(Seq<char>, JsonView)>),
}

impl View for JsonNumber {
    type V = JsonNumberView;

    open spec fn view(&self) -> JsonNumberView {
        match *self {
            JsonNumber::Unsigned(n) => JsonNumberView::Unsigned(n),
            JsonNumber::Negative(n) => JsonNumberView::Negative(n),
            JsonNumber::Other(s) => JsonNumberView::Other(s@),
        }
    }
}

/// The tree behind a JSON value.
pub open spec fn json_view(value: Json) -> JsonView
    decreases value,
{
    match value {
        Json::Null => JsonView::Null,
        Json::Bool(b) => JsonView::Bool(b),
        Json::Number(n) => JsonView::Number(n@),
        Json::Text(s) => JsonView::Text(s@),
        Json::Array(items) => JsonView::Array(items_view(items@)),
        Json::Object(members) => JsonView::Object(members_view(members@)),
    }
}

/// The trees behind a list of JSON values.
pub open spec fn items_view(items: Seq<Json>) -> Seq<JsonView>
    decreases items,
{
    if items.len() == 0 {
        Seq::empty()
    } else {
        items_view(items.drop_last()).push(json_view(items.last()))
    }
}

/// The members behind a list of members.
pub open spec fn members_view(members: Seq<(String, Json)>) -> Seq<(Seq<char>, JsonView)>
    decreases members,
{
    if members.len() == 0 {
        Seq::empty()
    } else {
        members_view(members.drop_last()).push(
            (members.last().0@, json_view(members.last().1)),
        )
    }
}

impl View for Json {
    type V = JsonView;

    open spec fn view(&self) -> JsonView {
        json_view(*self)
    }
}

/// The value of the first member with a key.
pub open spec fn member(members: Seq<(Seq<char>, JsonView)>, key: Seq<char>) -> Option<JsonView>
    decreases members.len(),
{
    if members.len() == 0 {
        None
    } else if members[0].0 == key {
        Some(members[0].1)
    } else {
        member(members.drop_first(), key)
    }
}

impl JsonView {
    /// The value under a key of an object.
    pub open spec fn get(self, key: Seq<char>) -> Option<JsonView> {
        match self {
            JsonView::Object(members) => member(members, key),
            _ => None,
        }
    }

    /// The string that a value is.
    pub open spec fn as_text(self) -> Option<Seq<char>> {
        match self {
            JsonView::Text(s) => Some(s),
            _ => None,
        }
    }

    /// The whole number from zero up that a value is.
    pub open spec fn as_u64(self) -> Option<u64> {
        match self {
            JsonView::Number(JsonNumberView::Unsigned(n)) => Some(n),
            _ => None,
        }
    }
}

/// Whether a value is an object with a member.
pub open spec fn says(value: JsonView, key: Seq<char>, told: JsonView) -> bool {
    value matches JsonView::Object(members) && members.contains((key, told))
}

/// Members with the value under a key set: in place where the key is there, else at the end.
pub open spec fn with_member(
    members: Seq<(Seq<char>, JsonView)>,
    key: Seq<char>,
    value: JsonView,
) -> Seq<(Seq<char>, JsonView)>
    decreases members.len(),
{
    if members.len() == 0 {
        seq![(key, value)]
    } else if members[0].0 == key {
        seq![(key, value)] + members.drop_first()
    } else {
        seq![members[0]] + with_member(members.drop_first(), key, value)
    }
}

/// The view of a list has an entry for each element.
pub proof fn lemma_items_view(items: Seq<Json>)
    ensures
        items_view(items).len() == items.len(),
        forall|i: int| 0 <= i < items.len() ==> #[trigger] items_view(items)[i] == json_view(items[i]),
    decreases items.len(),
{
    if items.len() > 0 {
        lemma_items_view(items.drop_last());
    }
}

/// The view of an object has an entry for each member.
pub proof fn lemma_members_view(members: Seq<(String, Json)>)
    ensures
        members_view(members).len() == members.len(),
        forall|i: int|
            0 <= i < members.len() ==> #[trigger] members_view(members)[i] == (
                members[i].0@,
                json_view(members[i].1),
            ),
    decreases members.len(),
{
    if members.len() > 0 {
        lemma_members_view(members.drop_last());
    }
}

/// Where no earlier member has the key, looking it up finds the first that has it.
proof fn lemma_member_at(members: Seq<(Seq<char>, JsonView)>, key: Seq<char>, at: int)
    requires
        0 <= at <= members.len(),
        forall|j: int| 0 <= j < at ==> members[j].0 != key,
    ensures
        at < members.len() && members[at].0 == key ==> member(members, key) == Some(members[at].1),
        at == members.len() ==> member(members, key) is None,
    decreases members.len(),
{
    if members.len() > 0 && at > 0 {
        lemma_member_at(members.drop_first(), key, at - 1);
    }
}

/// Where no earlier member has the key, setting it changes the first that has it.
proof fn lemma_with_member_at(
    members: Seq<(Seq<char>, JsonView)>,
    key: Seq<char>,
    value: JsonView,
    at: int,
)
    requires
        0 <= at <= members.len(),
        forall|j: int| 0 <= j < at ==> members[j].0 != key,
    ensures
        at < members.len() && members[at].0 == key ==> with_member(members, key, value)
            == members.update(at, (key, value)),
        at == members.len() ==> with_member(members, key, value) == members.push((key, value)),
    decreases members.len(),
{
    if members.len() == 0 {
        assert(members.push((key, value)) =~= seq![(key, value)]);
    } else if at > 0 {
        lemma_with_member_at(members.drop_first(), key, value, at - 1);
        if at < members.len() && members[at].0 == key {
            assert(seq![members[0]] + members.drop_first().update(at - 1, (key, value))
                =~= members.update(at, (key, value)));
        }
        if at == members.len() {
            assert(seq![members[0]] + members.drop_first().push((key, value)) =~= members.push(
                (key, value),
            ));
        }
    } else {
        assert(seq![(key, value)] + members.drop_first() =~= members.update(0, (key, value)));
    }
}

/// A list of strings as a JSON list.
pub open spec fn text_items(list: Seq<Seq<char>>) -> Seq<JsonView> {
    list.map_values(|s: Seq<char>| JsonView::Text(s))
}

impl Json {
    /// A list of string values.
    pub fn texts(list: &Vec<String>) -> (value: Json)
        ensures
            value@ == JsonView::Array(text_items(texts(list@))),
    {
        let mut items: Vec<Json> = Vec::new();
        let mut i: usize = 0;
        while i < list.len()
            invariant
                i <= list.len(),
                items_view(items@) == text_items(texts(list@.take(i as int))),
            decreases list.len() - i,
        {
            let ghost before = items@;
            items.push(Json::text(list[i].as_str()));
            proof {
                assert(items@.drop_last() =~= before);
                assert(text_items(texts(list@.take(i + 1))) =~= text_items(
                    texts(list@.take(i as int)),
                ).push(JsonView::Text(list@[i as int]@)));
            }
            i = i + 1;
        }
        assert(list@.take(i as int) =~= list@);
        Json::Array(items)
    }

    /// A string value.
    pub fn text(s: &str) -> (value: Json)
        ensures
            value@ == JsonView::Text(s@),
    {
        Json::Text(s.to_owned())
    }

    /// A string value, or `null` where there is no string.
    pub fn opt_text(s: &Option<String>) -> (value: Json)
        ensures
            value@ == (match *s {
                Some(t) => JsonView::Text(t@),
                None => JsonView::Null,
            }),
    {
        match s {
            Some(t) => Json::text(t.as_str()),
            None => Json::Null,
        }
    }

    /// A number value, or `null` where there is no number.
    pub fn opt_number(n: Option<u64>) -> (value: Json)
        ensures
            value@ == (match n {
                Some(k) => JsonView::Number(JsonNumberView::Unsigned(k)),
                None => JsonView::Null,
            }),
    {
        match n {
            Some(k) => Json::Number(JsonNumber::Unsigned(k)),
            None => Json::Null,
        }
    }

    /// An object without members.
    pub fn object() -> (value: Json)
        ensures
            value@ == JsonView::Object(Seq::empty()),
    {
        Json::Object(Vec::new())
    }

    /// An object with one more member, behind the others.
    pub fn with(self, key: &str, value: Json) -> (object: Json)
        requires
            self is Object,
        ensures
            object is Object,
            self@ matches JsonView::Object(members) && object@ == JsonView::Object(
                members.push((key@, value@)),
            ),
    {
        match self {
            Json::Object(members) => {
                let mut members = members;
                let ghost before = members@;
                members.push((key.to_owned(), value));
                assert(members@.drop_last() =~= before);
                Json::Object(members)
            },
            other => other,
        }
    }

    /// The value under a key of an object.
    pub fn get(&self, key: &str) -> (value: Option<&Json>)
        ensures
            match value {
                Some(v) => self@.get(key@) == Some(v@),
                None => self@.get(key@) is None,
            },
    {
        match self {
            Json::Object(members) => {
                proof {
                    lemma_members_view(members@);
                }
                let mut i: usize = 0;
                while i < members.len()
                    invariant
                        i <= members.len(),
                        self == Json::Object(*members),
                        members_view(members@).len() == members@.len(),
                        forall|j: int|
                            0 <= j < members@.len() ==> #[trigger] members_view(members@)[j] == (
                                members@[j].0@,
                                json_view(members@[j].1),
                            ),
                        forall|j: int| 0 <= j < i ==> members_view(members@)[j].0 != key@,
                    decreases members.len() - i,
                {
                    if same(members[i].0.as_str(), key) {
                        proof {
                            lemma_member_at(members_view(members@), key@, i as int);
                        }
                        return Some(&members[i].1);
                    }
                    assert(members_view(members@)[i as int].0 == members@[i as int].0@);
                    i = i + 1;
                }
                proof {
                    lemma_member_at(members_view(members@), key@, i as int);
                }
                None
            },
            _ => None,
        }
    }

    /// The string that a value is.
    pub fn as_text(&self) -> (s: Option<&str>)
        ensures
            match s {
                Some(t) => self@.as_text() == Some(t@),
                None => self@.as_text() is None,
            },
    {
        match self {
            Json::Text(s) => Some(s.as_str()),
            _ => None,
        }
    }

    /// The whole number from zero up that a value is.
    pub fn as_u64(&self) -> (n: Option<u64>)
        ensures
            n == self@.as_u64(),
    {
        match self {
            Json::Number(JsonNumber::Unsigned(n)) => Some(*n),
            _ => None,
        }
    }

    /// Copies a value.
    pub fn copy(&self) -> (value: Json)
        ensures
            value@ == self@,
        decreases self,
    {
        match self {
            Json::Null => Json::Null,
            Json::Bool(b) => Json::Bool(*b),
            Json::Number(JsonNumber::Unsigned(n)) => Json::Number(JsonNumber::Unsigned(*n)),
            Json::Number(JsonNumber::Negative(n)) => Json::Number(JsonNumber::Negative(*n)),
            Json::Number(JsonNumber::Other(s)) => Json::Number(JsonNumber::Other(s.clone())),
            Json::Text(s) => Json::Text(s.clone()),
            Json::Array(items) => {
                let mut out: Vec<Json> = Vec::new();
                let mut i: usize = 0;
                while i < items.len()
                    invariant
                        i <= items.len(),
                        self == Json::Array(*items),
                        items_view(out@) == items_view(items@.take(i as int)),
                    decreases items.len() - i,
                {
                    let ghost before = out@;
                    assert(decreases_to!(*self => self->Array_0));
                    assert(decreases_to!(self->Array_0 => items@));
                    assert(decreases_to!(items@ => items@[i as int]));
                    out.push(items[i].copy());
                    assert(out@.drop_last() =~= before);
                    assert(items@.take(i + 1).drop_last() =~= items@.take(i as int));
                    i = i + 1;
                }
                assert(items@.take(i as int) =~= items@);
                Json::Array(out)
            },
            Json::Object(members) => {
                let mut out: Vec<(String, Json)> = Vec::new();
                let mut i: usize = 0;
                while i < members.len()
                    invariant
                        i <= members.len(),
                        self == Json::Object(*members),
                        members_view(out@) == members_view(members@.take(i as int)),
                    decreases members.len() - i,
                {
                    let ghost before = out@;
                    assert(decreases_to!(*self => self->Object_0));
                    assert(decreases_to!(self->Object_0 => members@));
                    assert(decreases_to!(members@ => members@[i as int]));
                    assert(decreases_to!(members@[i as int] => members@[i as int].1));
                    out.push((members[i].0.clone(), members[i].1.copy()));
                    assert(out@.drop_last() =~= before);
                    assert(members@.take(i + 1).drop_last() =~= members@.take(i as int));
                    i = i + 1;
                }
                assert(members@.take(i as int) =~= members@);
                Json::Object(out)
            },
        }
    }

    /// Sets the value under a key of an object; any other value is left as it is.
    pub fn set_member(self, key: &str, value: Json) -> (result: Json)
        ensures
            result@ == (match self@ {
                JsonView::Object(members) => JsonView::Object(
                    with_member(members, key@, value@),
                ),
                other => other,
            }),
    {
        match self {
            Json::Object(members) => {
                let mut members = members;
                let ghost before = members@;
                proof {
                    lemma_members_view(before);
                }
                let mut i: usize = 0;
                while i < members.len() && !same(members[i].0.as_str(), key)
                    invariant
                        i <= members.len(),
                        members@ == before,
                        members_view(before).len() == before.len(),
                        forall|j: int|
                            0 <= j < before.len() ==> #[trigger] members_view(before)[j] == (
                                before[j].0@,
                                json_view(before[j].1),
                            ),
                        forall|j: int| 0 <= j < i ==> members_view(before)[j].0 != key@,
                    decreases members.len() - i,
                {
                    assert(members_view(before)[i as int].0 == before[i as int].0@);
                    i = i + 1;
                }
                proof {
                    lemma_with_member_at(members_view(before), key@, value@, i as int);
                }
                if i < members.len() {
                    assert(members_view(before)[i as int].0 == before[i as int].0@);
                    let entry = (key.to_owned(), value);
                    members.set(i, entry);
                    proof {
                        lemma_members_view(members@);
                        assert(members_view(members@) =~= members_view(before).update(
                            i as int,
                            (key@, value@),
                        ));
                    }
                } else {
                    members.push((key.to_owned(), value));
                    assert(members@.drop_last() =~= before);
                }
                Json::Object(members)
            },
            other => other,
        }
    }
}

/// A value that is set under a key is the one found there, and what is found under any other key
/// stays; the first member with a key is the one found.
pub proof fn law_member_is_read_back(
    members: Seq<(Seq<char>, JsonView)>,
    key: Seq<char>,
    value: JsonView,
    other: Seq<char>,
)
    ensures
        member(with_member(members, key, value), key) == Some(value),
        other != key ==> member(with_member(members, key, value), other) == member(members, other),
        member(members, key) is None <==> forall|i: int|
            0 <= i < members.len() ==> (#[trigger] members[i]).0 != key,
        member(members, key) matches Some(found) ==> members.contains((key, found)),
    decreases members.len(),
{
    reveal_with_fuel(member, 2);
    if members.len() > 0 {
        let rest = members.drop_first();
        law_member_is_read_back(rest, key, value, other);
        if members[0].0 == key {
            assert((seq![(key, value)] + rest).drop_first() =~= rest);
        } else {
            let after = seq![members[0]] + with_member(rest, key, value);
            assert(after.drop_first() =~= with_member(rest, key, value));
            assert(after[0] == members[0]);
        }
        if member(members, key) is None {
            assert forall|i: int| 0 <= i < members.len() implies (#[trigger] members[i]).0 != key by {
                if i > 0 {
                    assert(rest[i - 1] == members[i]);
                }
            }
        }
        if forall|i: int| 0 <= i < members.len() ==> (#[trigger] members[i]).0 != key {
            assert(members[0].0 != key);
            assert forall|i: int| 0 <= i < rest.len() implies (#[trigger] rest[i]).0 != key by {
                assert(members[i + 1].0 != key);
            }
        }
        if let Some(found) = member(members, key) {
            if members[0].0 == key {
                assert(members[0] == (key, found));
            } else {
                let k = choose|k: int| 0 <= k < rest.len() && rest[k] == (key, found);
                assert(members[k + 1] == (key, found));
            }
        }
    }
}

} // verus!
