//! JSON values as the planner reads them.
//!
//! A pushdown request arrives as a JSON document. [`Json`] holds one, [`JsonV`] is its
//! mathematical value, and every contract of the crate speaks of the latter.

use crate::text::same_text;
use vstd::prelude::*;

verus! {

/// A JSON value. A number is kept as the integer it is, or else as its decimal text.
#[derive(Debug, PartialEq)]
pub enum Json {
    Null,
    Bool(bool),
    Unsigned(u64),
    Negative(i64),
    Decimal(String),
    Str(String),
    Array(Vec<Json>),
    /// The members in the order in which they are written; a key is looked up at its first
    /// occurrence.
    Object(Vec<(String, Json)>),
}

/// The value of a [`Json`].
#[verifier::ext_equal]
pub enum JsonV {
    Null,
    Bool(bool),
    Unsigned(u64),
    Negative(i64),
    Decimal(Seq<char>),
    Str(Seq<char>),
    Array(Seq<JsonV>),
    Object(Seq<(Seq<char>, JsonV)>),
}

/// The members of a JSON object.
pub type Members = Vec<(String, Json)>;

/// The members of the value of a JSON object.
pub type MembersV = Seq<(Seq<char>, JsonV)>;

/// The value that `json` holds.
pub open spec fn json_view(json: Json) -> JsonV
    decreases json,
{
    match json {
        Json::Null => JsonV::Null,
        Json::Bool(b) => JsonV::Bool(b),
        Json::Unsigned(n) => JsonV::Unsigned(n),
        Json::Negative(n) => JsonV::Negative(n),
        Json::Decimal(text) => JsonV::Decimal(text@),
        Json::Str(text) => JsonV::Str(text@),
        Json::Array(items) => JsonV::Array(
            Seq::new(
                items@.len(),
                |i: int|
                    if 0 <= i < items@.len() {
                        json_view(items@[i])
                    } else {
                        JsonV::Null
                    },
            ),
        ),
        Json::Object(members) => JsonV::Object(
            Seq::new(
                members@.len(),
                |i: int|
                    if 0 <= i < members@.len() {
                        (members@[i].0@, json_view(members@[i].1))
                    } else {
                        (Seq::empty(), JsonV::Null)
                    },
            ),
        ),
    }
}

impl View for Json {
    type V = JsonV;

    open spec fn view(&self) -> JsonV {
        json_view(*self)
    }
}

impl DeepView for Json {
    type V = JsonV;

    open spec fn deep_view(&self) -> JsonV {
        json_view(*self)
    }
}

/// The value of an array is the sequence of the values of its items.
pub broadcast proof fn lemma_array_view(items: Vec<Json>)
    ensures
        #[trigger] json_view(Json::Array(items)) == JsonV::Array(items.deep_view()),
{
    let values = json_view(Json::Array(items))->Array_0;
    assert forall|i: int| 0 <= i < items@.len() implies #[trigger] values[i]
        == items.deep_view()[i] by {
        assert(values[i] == json_view(items@[i]));
    }
    assert(values =~= items.deep_view());
}

/// The value of an object is the sequence of its keys and their values.
pub broadcast proof fn lemma_object_view(members: Members)
    ensures
        #[trigger] json_view(Json::Object(members)) == JsonV::Object(members.deep_view()),
{
    let values = json_view(Json::Object(members))->Object_0;
    assert forall|i: int| 0 <= i < members@.len() implies #[trigger] values[i]
        == members.deep_view()[i] by {
        assert(values[i].1 == json_view(members@[i].1));
    }
    assert(values =~= members.deep_view());
}

pub broadcast group group_json_views {
    lemma_array_view,
    lemma_object_view,
}

/// The value at the first occurrence of `key`.
pub open spec fn lookup(members: MembersV, key: Seq<char>) -> Option<JsonV>
    decreases members.len(),
{
    if members.len() == 0 {
        None
    } else if members[0].0 == key {
        Some(members[0].1)
    } else {
        lookup(members.skip(1), key)
    }
}

impl JsonV {
    /// The member `key` of an object.
    pub open spec fn field(self, key: Seq<char>) -> Option<JsonV> {
        match self {
            JsonV::Object(members) => lookup(members, key),
            _ => None,
        }
    }

    /// The characters of a string.
    pub open spec fn text(self) -> Option<Seq<char>> {
        match self {
            JsonV::Str(text) => Some(text),
            _ => None,
        }
    }

    /// The items of an array.
    pub open spec fn items(self) -> Option<Seq<JsonV>> {
        match self {
            JsonV::Array(items) => Some(items),
            _ => None,
        }
    }

    /// The member `key`, when it is a string.
    pub open spec fn text_field(self, key: Seq<char>) -> Option<Seq<char>> {
        match self.field(key) {
            Some(value) => value.text(),
            None => None,
        }
    }

    /// The member `key`, when it is an array.
    pub open spec fn items_field(self, key: Seq<char>) -> Option<Seq<JsonV>> {
        match self.field(key) {
            Some(value) => value.items(),
            None => None,
        }
    }

    /// The member `key`, when it is an array of at least one item.
    pub open spec fn nonempty_items_field(self, key: Seq<char>) -> Option<Seq<JsonV>> {
        match self.items_field(key) {
            Some(items) if items.len() > 0 => Some(items),
            _ => None,
        }
    }

    /// The member `key`, when it is there and not null.
    pub open spec fn present_field(self, key: Seq<char>) -> Option<JsonV> {
        match self.field(key) {
            Some(value) if value !is Null => Some(value),
            _ => None,
        }
    }

    /// The member `key`, when it is an unsigned integer.
    pub open spec fn unsigned_field(self, key: Seq<char>) -> Option<u64> {
        match self.field(key) {
            Some(JsonV::Unsigned(n)) => Some(n),
            _ => None,
        }
    }

    /// The member `key`, when it is a boolean.
    pub open spec fn bool_field(self, key: Seq<char>) -> Option<bool> {
        match self.field(key) {
            Some(JsonV::Bool(b)) => Some(b),
            _ => None,
        }
    }

    /// Whether the member `type` is the string `kind`.
    pub open spec fn is_kind(self, kind: Seq<char>) -> bool {
        self.text_field("type"@) == Some(kind)
    }
}

/// A member of an object is smaller than the object.
pub proof fn lemma_field_decreases(node: JsonV, key: Seq<char>)
    requires
        node.field(key) is Some,
    ensures
        decreases_to!(node => node.field(key)->0),
{
    assert(node->Object_0.skip(0) =~= node->Object_0);
    lemma_lookup_decreases(node, node->Object_0, key, 0);
}

proof fn lemma_lookup_decreases(node: JsonV, members: MembersV, key: Seq<char>, from: int)
    requires
        node is Object,
        0 <= from <= node->Object_0.len(),
        members == node->Object_0.skip(from),
        lookup(members, key) is Some,
    ensures
        decreases_to!(node => lookup(members, key)->0),
    decreases members.len(),
{
    let all = node->Object_0;
    if members[0].0 == key {
        assert(members[0] == all[from]);
        assert(decreases_to!(node => node->Object_0[from].1));
    } else {
        assert(members.skip(1) =~= all.skip(from + 1));
        lemma_lookup_decreases(node, members.skip(1), key, from + 1);
    }
}

/// The items of an array below an object are smaller than the object.
pub proof fn lemma_items_field_decreases(node: JsonV, key: Seq<char>)
    requires
        node.items_field(key) is Some,
    ensures
        decreases_to!(node => node.items_field(key)->0),
{
    lemma_field_decreases(node, key);
    let value = node.field(key)->0;
    assert(decreases_to!(value => value->Array_0));
}

/// The string at the first occurrence of `key`.
pub open spec fn member_text(members: MembersV, key: Seq<char>) -> Option<Seq<char>> {
    match lookup(members, key) {
        Some(value) => value.text(),
        None => None,
    }
}

/// Finds the first occurrence of a key.
pub fn find_member<'a>(members: &'a Members, key: &str) -> (value: Option<&'a Json>)
    ensures
        value.deep_view() == lookup(members.deep_view(), key@),
{
    let ghost views = members.deep_view();
    let mut i: usize = 0;
    assert(views.skip(0) =~= views);
    while i < members.len()
        invariant
            0 <= i <= members.len(),
            views == members.deep_view(),
            lookup(views, key@) == lookup(views.skip(i as int), key@),
        decreases members.len() - i,
    {
        assert(views.skip(i as int)[0] == views[i as int]);
        assert(views.skip(i as int).skip(1) =~= views.skip(i + 1));
        if same_text(members[i].0.as_str(), key) {
            return Some(&members[i].1);
        }
        i += 1;
    }
    None
}

/// Finds the string at the first occurrence of a key.
pub fn find_member_text<'a>(members: &'a Members, key: &str) -> (text: Option<&'a str>)
    ensures
        text.deep_view() == member_text(members.deep_view(), key@),
{
    match find_member(members, key) {
        Some(value) => value.as_str(),
        None => None,
    }
}

impl Json {
    /// The member `key` of an object.
    pub fn get<'a>(&'a self, key: &str) -> (value: Option<&'a Json>)
        ensures
            value.deep_view() == self@.field(key@),
    {
        broadcast use group_json_views;

        match self {
            Json::Object(members) => find_member(members, key),
            _ => None,
        }
    }

    /// The characters of a string.
    pub fn as_str<'a>(&'a self) -> (text: Option<&'a str>)
        ensures
            text.deep_view() == self@.text(),
    {
        match self {
            Json::Str(text) => Some(text.as_str()),
            _ => None,
        }
    }

    /// The items of an array.
    pub fn as_array<'a>(&'a self) -> (items: Option<&'a Vec<Json>>)
        ensures
            items.deep_view() == self@.items(),
    {
        broadcast use group_json_views;

        match self {
            Json::Array(items) => Some(items),
            _ => None,
        }
    }

    /// Whether this is null.
    pub fn is_null(&self) -> (yes: bool)
        ensures
            yes == (self@ is Null),
    {
        match self {
            Json::Null => true,
            _ => false,
        }
    }

    /// The member `key`, when it is a string.
    pub fn get_str<'a>(&'a self, key: &str) -> (text: Option<&'a str>)
        ensures
            text.deep_view() == self@.text_field(key@),
    {
        match self.get(key) {
            Some(value) => value.as_str(),
            None => None,
        }
    }

    /// The member `key`, when it is an array.
    pub fn get_array<'a>(&'a self, key: &str) -> (items: Option<&'a Vec<Json>>)
        ensures
            items.deep_view() == self@.items_field(key@),
    {
        match self.get(key) {
            Some(value) => value.as_array(),
            None => None,
        }
    }

    /// The member `key`, when it is an array of at least one item.
    pub fn get_nonempty_array<'a>(&'a self, key: &str) -> (items: Option<&'a Vec<Json>>)
        ensures
            items.deep_view() == self@.nonempty_items_field(key@),
    {
        match self.get_array(key) {
            Some(items) => if items.len() > 0 {
                Some(items)
            } else {
                None
            },
            None => None,
        }
    }

    /// The member `key`, when it is there and not null.
    pub fn get_present<'a>(&'a self, key: &str) -> (value: Option<&'a Json>)
        ensures
            value.deep_view() == self@.present_field(key@),
    {
        match self.get(key) {
            Some(value) => if value.is_null() {
                None
            } else {
                Some(value)
            },
            None => None,
        }
    }

    /// The member `key`, when it is an unsigned integer.
    pub fn get_u64(&self, key: &str) -> (number: Option<u64>)
        ensures
            number == self@.unsigned_field(key@),
    {
        match self.get(key) {
            Some(Json::Unsigned(n)) => Some(*n),
            _ => None,
        }
    }

    /// The member `key`, when it is a boolean.
    pub fn get_bool(&self, key: &str) -> (flag: Option<bool>)
        ensures
            flag == self@.bool_field(key@),
    {
        match self.get(key) {
            Some(Json::Bool(b)) => Some(*b),
            _ => None,
        }
    }

    /// Whether the member `type` is the string `kind`.
    pub fn is_kind(&self, kind: &str) -> (yes: bool)
        ensures
            yes == self@.is_kind(kind@),
    {
        match self.get_str("type") {
            Some(text) => same_text(text, kind),
            None => false,
        }
    }
}

impl Clone for Json {
    fn clone(&self) -> (copy: Json)
        ensures
            copy@ == self@,
        decreases *self,
    {
        broadcast use group_json_views;

        match self {
            Json::Null => Json::Null,
            Json::Bool(b) => Json::Bool(*b),
            Json::Unsigned(n) => Json::Unsigned(*n),
            Json::Negative(n) => Json::Negative(*n),
            Json::Decimal(text) => Json::Decimal(text.clone()),
            Json::Str(text) => Json::Str(text.clone()),
            Json::Array(items) => {
                let mut copies: Vec<Json> = Vec::new();
                let mut i: usize = 0;
                while i < items.len()
                    invariant
                        0 <= i <= items.len(),
                        *self == Json::Array(*items),
                        copies.deep_view() =~= items.deep_view().take(i as int),
                    decreases items.len() - i,
                {
                    assert(decreases_to!(*self => self->Array_0@[i as int]));
                    let ghost before = copies.deep_view();
                    let copy = items[i].clone();
                    copies.push(copy);
                    assert(copies.deep_view() =~= before.push(copy@));
                    i += 1;
                }
                assert(copies.deep_view() =~= items.deep_view());
                Json::Array(copies)
            },
            Json::Object(members) => {
                let mut copies: Members = Vec::new();
                let mut i: usize = 0;
                while i < members.len()
                    invariant
                        0 <= i <= members.len(),
                        *self == Json::Object(*members),
                        copies.deep_view() =~= members.deep_view().take(i as int),
                    decreases members.len() - i,
                {
                    assert(decreases_to!(*self => self->Object_0@[i as int].1));
                    let ghost before = copies.deep_view();
                    let copy = members[i].1.clone();
                    let key = members[i].0.clone();
                    copies.push((key, copy));
                    assert(copies.deep_view() =~= before.push((key@, copy@)));
                    i += 1;
                }
                assert(copies.deep_view() =~= members.deep_view());
                Json::Object(copies)
            },
        }
    }
}

} // verus!
