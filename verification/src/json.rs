//! Structured values as they stand in a screen description.

use crate::scalar::Scalar;
use crate::number::number_value;
use crate::text::{decimal_text, natural_digits, natural_text, natural_value, parse_natural, same_text};
use vstd::prelude::*;

verus! {

/// A structured value. A number is held as its text; an object as its members in order.
#[derive(Debug, PartialEq, Eq)]
pub enum Json {
    Null,
    Bool(bool),
    Number(String),
    Text(String),
    Array(Vec<Json>),
    Object(Vec<(String, Json)>),
}

/// The model of a structured value.
#[verifier::ext_equal]
pub enum JsonView {
    Null,
    Bool(bool),
    Number(Seq<char>),
    Text(Seq<char>),
    Array(Seq<JsonView>),
    Object(Seq<(Seq<char>, JsonView)>),
}

impl Json {
    /// The model of the value.
    pub open spec fn model(&self) -> JsonView
        decreases self,
    {
        match self {
            Json::Null => JsonView::Null,
            Json::Bool(b) => JsonView::Bool(*b),
            Json::Number(t) => JsonView::Number(t@),
            Json::Text(t) => JsonView::Text(t@),
            Json::Array(items) => JsonView::Array(
                Seq::new(
                    items@.len(),
                    |i: int|
                        if 0 <= i < items@.len() {
                            items@[i].model()
                        } else {
                            JsonView::Null
                        },
                ),
            ),
            Json::Object(members) => JsonView::Object(
                Seq::new(
                    members@.len(),
                    |i: int|
                        if 0 <= i < members@.len() {
                            (members@[i].0@, members@[i].1.model())
                        } else {
                            (Seq::empty(), JsonView::Null)
                        },
                ),
            ),
        }
    }
}

impl View for Json {
    type V = JsonView;

    open spec fn view(&self) -> JsonView {
        self.model()
    }
}

/// The models of the members of an object.
pub open spec fn members_view(members: Seq<(String, Json)>) -> Seq<(Seq<char>, JsonView)> {
    Seq::new(members.len(), |i: int| (members[i].0@, members[i].1@))
}

/// The models of the items of an array.
pub open spec fn items_view(items: Seq<Json>) -> Seq<JsonView> {
    Seq::new(items.len(), |i: int| items[i]@)
}

/// Where the first member named `key` stands among the members from `from` on.
pub open spec fn position(members: Seq<(Seq<char>, JsonView)>, key: Seq<char>, from: int) -> Option<int>
    decreases members.len() - from,
{
    if from < 0 || from >= members.len() {
        None
    } else if members[from].0 == key {
        Some(from)
    } else {
        position(members, key, from + 1)
    }
}

/// The first member named `key` of an object; nothing of any other value.
pub open spec fn member(value: JsonView, key: Seq<char>) -> Option<JsonView> {
    match value {
        JsonView::Object(members) => match position(members, key, 0) {
            Some(i) => Some(members[i].1),
            None => None,
        },
        _ => None,
    }
}

/// The members of an object with `key` set to `value`: in place of the first member of that
/// name, or after the last member where there is none.
pub open spec fn with_member(members: Seq<(Seq<char>, JsonView)>, key: Seq<char>, value: JsonView) -> Seq<
    (Seq<char>, JsonView),
> {
    match position(members, key, 0) {
        Some(i) => members.update(i, (key, value)),
        None => members.push((key, value)),
    }
}

/// The text of a value that is a text.
pub open spec fn text_in(value: Option<JsonView>) -> Option<Seq<char>> {
    match value {
        Some(JsonView::Text(t)) => Some(t),
        _ => None,
    }
}

/// The number of a value that is a number which a scalar can hold, written with or without
/// an exponent.
pub open spec fn scalar_in(value: Option<JsonView>) -> Option<Scalar> {
    match value {
        Some(JsonView::Number(t)) => match number_value(t) {
            Some(v) => Some(Scalar::of(v)),
            None => None,
        },
        _ => None,
    }
}

/// The whole number of a value that is a number written without sign, point or exponent and
/// not above `limit`.
pub open spec fn natural_in(value: Option<JsonView>, limit: nat) -> Option<nat> {
    match value {
        Some(JsonView::Number(t)) => natural_value(t, limit),
        _ => None,
    }
}

/// The items of a value that is an array.
pub open spec fn items_in(value: Option<JsonView>) -> Option<Seq<JsonView>> {
    match value {
        Some(JsonView::Array(items)) => Some(items),
        _ => None,
    }
}

/// A value as `serde_json` holds it.
#[verifier::external_type_specification]
#[verifier::external_body]
pub struct ExValue(serde_json::Value);

/// What a `serde_json::Value` holds: the same value, part for part, with each number as the
/// text that `serde_json` prints for it and each object as its members in the order in
/// which `serde_json` walks them.
pub uninterp spec fn held_by(value: serde_json::Value) -> JsonView;

/// What `serde_json` reads from a text: the value it stands for, or nothing where the text
/// is no JSON document.
pub uninterp spec fn document_of(text: Seq<char>) -> Option<JsonView>;

/// Takes a `serde_json::Value` apart, variant by variant, into the value it holds.
#[verifier::external_body]
fn lift(value: &serde_json::Value) -> (r: Json)
    ensures
        r@ == held_by(*value),
{
    match value {
        serde_json::Value::Null => Json::Null,
        serde_json::Value::Bool(b) => Json::Bool(*b),
        serde_json::Value::Number(n) => Json::Number(n.to_string()),
        serde_json::Value::String(s) => Json::Text(s.clone()),
        serde_json::Value::Array(items) => Json::Array(items.iter().map(lift).collect()),
        serde_json::Value::Object(members) => Json::Object(
            members.iter().map(|(k, v)| (k.clone(), lift(v))).collect(),
        ),
    }
}

/// Reads a JSON document with `serde_json::from_str`. Whether it reads one, and which,
/// depends on the text alone.
#[verifier::external_body]
fn read_document(text: &str) -> (r: Option<serde_json::Value>)
    ensures
        match r {
            Some(value) => document_of(text@) == Some(held_by(value)),
            None => document_of(text@) is None,
        },
{
    match serde_json::from_str::<serde_json::Value>(text) {
        Ok(value) => Some(value),
        Err(_) => None,
    }
}

impl Clone for Json {
    fn clone(&self) -> (r: Json)
        ensures
            r@ == self@,
        decreases self,
    {
        match self {
            Json::Null => Json::Null,
            Json::Bool(b) => Json::Bool(*b),
            Json::Number(t) => Json::Number(t.clone()),
            Json::Text(t) => Json::Text(t.clone()),
            Json::Array(items) => {
                let mut out: Vec<Json> = Vec::new();
                let mut i: usize = 0;
                while i < items.len()
                    invariant
                        i <= items.len(),
                        out.len() == i,
                        *self matches Json::Array(w) && w == items,
                        forall|k: int| 0 <= k < i ==> out@[k]@ == items@[k]@,
                    decreases items.len() - i,
                {
                    let item = items[i].clone();
                    out.push(item);
                    i = i + 1;
                }
                let r = Json::Array(out);
                assert(r@->Array_0 =~= self@->Array_0);
                r
            },
            Json::Object(members) => {
                let mut out: Vec<(String, Json)> = Vec::new();
                let mut i: usize = 0;
                while i < members.len()
                    invariant
                        i <= members.len(),
                        out.len() == i,
                        *self matches Json::Object(w) && w == members,
                        forall|k: int|
                            0 <= k < i ==> out@[k].0@ == members@[k].0@ && out@[k].1@ == members@[k].1@,
                    decreases members.len() - i,
                {
                    let value = members[i].1.clone();
                    out.push((members[i].0.clone(), value));
                    i = i + 1;
                }
                let r = Json::Object(out);
                assert(r@->Object_0 =~= self@->Object_0);
                r
            },
        }
    }
}

impl Json {
    /// Reads a JSON document.
    pub fn parse(text: &str) -> (r: Option<Json>)
        ensures
            match r {
                Some(value) => document_of(text@) == Some(value@),
                None => document_of(text@) is None,
            },
    {
        match read_document(text) {
            Some(value) => Some(lift(&value)),
            None => None,
        }
    }

    /// The text value with the given characters.
    pub fn text(t: &str) -> (r: Json)
        ensures
            r@ == JsonView::Text(t@),
    {
        Json::Text(t.to_owned())
    }

    /// The number value of a scalar.
    pub fn number(v: Scalar) -> (r: Json)
        ensures
            r@ == JsonView::Number(decimal_text(v@)),
    {
        Json::Number(v.to_text())
    }

    /// The number value of a whole number.
    pub fn natural(n: u64) -> (r: Json)
        ensures
            r@ == JsonView::Number(natural_digits(n as nat)),
    {
        Json::Number(natural_text(n))
    }

    /// The object with the given members.
    pub fn object(members: Vec<(String, Json)>) -> (r: Json)
        ensures
            r@ == JsonView::Object(members_view(members@)),
    {
        let r = Json::Object(members);
        assert(r@->Object_0 =~= members_view(members@));
        r
    }

    /// The array with the given items.
    pub fn array(items: Vec<Json>) -> (r: Json)
        ensures
            r@ == JsonView::Array(items_view(items@)),
    {
        let r = Json::Array(items);
        assert(r@->Array_0 =~= items_view(items@));
        r
    }

    /// The first member named `key`, where the value is an object that has one.
    pub fn get(&self, key: &str) -> (r: Option<&Json>)
        ensures
            match r {
                Some(value) => member(self@, key@) == Some(value@) && decreases_to!(self => value),
                None => member(self@, key@) is None,
            },
    {
        match self {
            Json::Object(members) => {
                let mut i: usize = 0;
                while i < members.len()
                    invariant
                        i <= members.len(),
                        *self matches Json::Object(w) && w == members,
                        position(self@->Object_0, key@, 0) == position(self@->Object_0, key@, i as int),
                    decreases members.len() - i,
                {
                    if same_text(members[i].0.as_str(), key) {
                        return Some(&members[i].1);
                    }
                    i = i + 1;
                }
                None
            },
            _ => None,
        }
    }

    /// The text, where the value is one.
    pub fn as_str(&self) -> (r: Option<&str>)
        ensures
            match r {
                Some(t) => text_in(Some(self@)) == Some(t@),
                None => text_in(Some(self@)) is None,
            },
    {
        match self {
            Json::Text(t) => Some(t.as_str()),
            _ => None,
        }
    }

    /// The number, where the value is one that a scalar can hold.
    pub fn as_scalar(&self) -> (r: Option<Scalar>)
        ensures
            r == scalar_in(Some(self@)),
    {
        match self {
            Json::Number(t) => Scalar::read(t.as_str()),
            _ => None,
        }
    }

    /// The whole number, where the value is one that is not above `limit`.
    pub fn as_natural(&self, limit: u64) -> (r: Option<u64>)
        ensures
            match r {
                Some(n) => natural_in(Some(self@), limit as nat) == Some(n as nat),
                None => natural_in(Some(self@), limit as nat) is None,
            },
    {
        match self {
            Json::Number(t) => parse_natural(t.as_str(), limit),
            _ => None,
        }
    }

    /// The items, where the value is an array.
    pub fn as_array(&self) -> (r: Option<&Vec<Json>>)
        ensures
            match r {
                Some(items) => items_in(Some(self@)) == Some(items_view(items@)) && decreases_to!(self => items),
                None => items_in(Some(self@)) is None,
            },
    {
        match self {
            Json::Array(items) => {
                assert(self@->Array_0 =~= items_view(items@));
                Some(items)
            },
            _ => None,
        }
    }

    /// The members, where the value is an object.
    pub fn as_object(&self) -> (r: Option<&Vec<(String, Json)>>)
        ensures
            match r {
                Some(members) => self@ == JsonView::Object(members_view(members@)),
                None => !(self@ is Object),
            },
    {
        match self {
            Json::Object(members) => {
                assert(self@->Object_0 =~= members_view(members@));
                Some(members)
            },
            _ => None,
        }
    }
}

impl Json {
    /// The number in the member named `key`.
    pub fn field_scalar(&self, key: &str) -> (r: Option<Scalar>)
        ensures
            r == scalar_in(member(self@, key@)),
    {
        match self.get(key) {
            Some(value) => value.as_scalar(),
            None => None,
        }
    }

    /// The text in the member named `key`.
    pub fn field_text(&self, key: &str) -> (r: Option<&str>)
        ensures
            match r {
                Some(t) => text_in(member(self@, key@)) == Some(t@),
                None => text_in(member(self@, key@)) is None,
            },
    {
        match self.get(key) {
            Some(value) => value.as_str(),
            None => None,
        }
    }

    /// The whole number in the member named `key`.
    pub fn field_natural(&self, key: &str, limit: u64) -> (r: Option<u64>)
        ensures
            match r {
                Some(n) => natural_in(member(self@, key@), limit as nat) == Some(n as nat),
                None => natural_in(member(self@, key@), limit as nat) is None,
            },
    {
        match self.get(key) {
            Some(value) => value.as_natural(limit),
            None => None,
        }
    }

    /// The one member of an object that has just one: its name and its value.
    pub fn only_member(&self) -> (r: Option<(&str, &Json)>)
        ensures
            match r {
                Some((name, value)) => only_member_of(self@) == Some((name@, value@)),
                None => only_member_of(self@) is None,
            },
    {
        match self {
            Json::Object(members) => {
                if members.len() == 1 {
                    Some((members[0].0.as_str(), &members[0].1))
                } else {
                    None
                }
            },
            _ => None,
        }
    }
}

/// The name and the value of the one member of an object that has just one.
pub open spec fn only_member_of(value: JsonView) -> Option<(Seq<char>, JsonView)> {
    match value {
        JsonView::Object(members) => if members.len() == 1 {
            Some(members[0])
        } else {
            None
        },
        _ => None,
    }
}

/// A list with the one member `name`: `value`.
pub fn one_member(name: &str, value: Json) -> (r: Vec<(String, Json)>)
    ensures
        members_view(r@) == seq![(name@, value@)],
{
    let mut members: Vec<(String, Json)> = Vec::new();
    members.push((name.to_owned(), value));
    assert(members_view(members@) =~= seq![(name@, value@)]);
    members
}

/// Appends the member `name`: `value` to a list of members.
pub fn push_member(members: &mut Vec<(String, Json)>, name: &str, value: Json)
    ensures
        members_view(final(members)@) == members_view(old(members)@).push((name@, value@)),
{
    members.push((name.to_owned(), value));
    assert(members_view(members@) =~= members_view(old(members)@).push((name@, value@)));
}

/// Sets the member named `key` of a list of members: in place of the first member of that
/// name, or after the last member where there is none.
pub fn set_member(members: &mut Vec<(String, Json)>, key: &str, value: Json)
    ensures
        members_view(final(members)@) == with_member(members_view(old(members)@), key@, value@),
{
    let ghost before = members_view(members@);
    let mut i: usize = 0;
    while i < members.len()
        invariant
            i <= members.len(),
            members@ == old(members)@,
            before == members_view(members@),
            position(before, key@, 0) == position(before, key@, i as int),
        decreases members.len() - i,
    {
        if same_text(members[i].0.as_str(), key) {
            let name = key.to_owned();
            members.set(i, (name, value));
            assert(members_view(members@) =~= before.update(i as int, (key@, value@)));
            return ;
        }
        i = i + 1;
    }
    let name = key.to_owned();
    members.push((name, value));
    assert(members_view(members@) =~= before.push((key@, value@)));
}

/// A member that is found stands at a place of the object, under the name sought.
pub proof fn lemma_position(members: Seq<(Seq<char>, JsonView)>, key: Seq<char>, from: int)
    requires
        0 <= from,
    ensures
        position(members, key, from) matches Some(p) ==> from <= p < members.len() && members[p].0 == key,
    decreases members.len() - from,
{
    if from < members.len() && members[from].0 != key {
        lemma_position(members, key, from + 1);
    }
}

/// The member sought is found at the first place that has its name.
pub proof fn lemma_position_at(members: Seq<(Seq<char>, JsonView)>, key: Seq<char>, from: int, i: int)
    requires
        0 <= from <= i < members.len(),
        members[i].0 == key,
        forall|j: int| from <= j < i ==> (#[trigger] members[j]).0 != key,
    ensures
        position(members, key, from) == Some(i),
    decreases i - from,
{
    if from < i {
        assert(members[from].0 != key);
        lemma_position_at(members, key, from + 1, i);
    }
}

/// In an object, the first member of a name is the member of that name.
pub proof fn lemma_member_at(members: Seq<(Seq<char>, JsonView)>, key: Seq<char>, i: int)
    requires
        0 <= i < members.len(),
        members[i].0 == key,
        forall|j: int| 0 <= j < i ==> (#[trigger] members[j]).0 != key,
    ensures
        member(JsonView::Object(members), key) == Some(members[i].1),
{
    lemma_position_at(members, key, 0, i);
}

/// A number written as a value is read back as the same number.
pub proof fn law_number_reads_back(v: Scalar)
    ensures
        scalar_in(Some(JsonView::Number(decimal_text(v@)))) == Some(v),
{
    crate::number::law_plain_text_reads_back(v@);
}

/// A whole number written as a value is read back as the same number, where it is not above
/// the limit.
pub proof fn law_natural_reads_back(n: nat, limit: nat)
    requires
        n <= limit,
    ensures
        natural_in(Some(JsonView::Number(natural_digits(n))), limit) == Some(n),
{
    crate::text::law_natural_text_reads_back(n, limit);
}

} // verus!
