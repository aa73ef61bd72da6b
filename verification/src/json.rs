//! JSON values.

use vstd::prelude::*;
use crate::text;

verus! {

/// A JSON value.
#[derive(Debug, PartialEq, Eq)]
pub enum Json {
    Null,
    Bool(bool),
    /// A number, by its numeral.
    Number(String),
    Text(String),
    Array(Vec<Json>),
    /// The members of an object, each a name and a value.
    Object(Vec<(String, Json)>),
}

/// What a JSON value is: a tree of plain values.
pub enum JsonTree {
    Null,
    Bool(bool),
    Number(Seq<char>),
    Text(Seq<char>),
    Array(Seq<JsonTree>),
    Object(Seq<MemberTree>),
}

/// A member of an object.
pub struct MemberTree {
    pub name: Seq<char>,
    pub value: JsonTree,
}

impl View for Json {
    type V = JsonTree;

    open spec fn view(&self) -> JsonTree
        decreases self,
    {
        match self {
            Json::Null => JsonTree::Null,
            Json::Bool(b) => JsonTree::Bool(*b),
            Json::Number(s) => JsonTree::Number(s@),
            Json::Text(s) => JsonTree::Text(s@),
            Json::Array(items) => JsonTree::Array(
                Seq::new(
                    items@.len(),
                    |i: int|
                        if 0 <= i < items@.len() {
                            items@[i].view()
                        } else {
                            JsonTree::Null
                        },
                ),
            ),
            Json::Object(members) => JsonTree::Object(
                Seq::new(
                    members@.len(),
                    |i: int|
                        if 0 <= i < members@.len() {
                            MemberTree { name: members@[i].0@, value: members@[i].1.view() }
                        } else {
                            MemberTree { name: seq![], value: JsonTree::Null }
                        },
                ),
            ),
        }
    }
}

/// The value of the first member of this name.
pub open spec fn member(members: Seq<MemberTree>, name: Seq<char>) -> Option<JsonTree>
    decreases members.len(),
{
    if members.len() == 0 {
        None
    } else if members[0].name == name {
        Some(members[0].value)
    } else {
        member(members.drop_first(), name)
    }
}

/// This is an object with so many members.
pub open spec fn members_count(tree: JsonTree, n: nat) -> bool {
    tree is Object && tree->Object_0.len() == n
}

impl JsonTree {
    /// The object without members.
    pub open spec fn object() -> JsonTree {
        JsonTree::Object(seq![])
    }

    /// This object with one more member, after those it has.
    pub open spec fn with(self, name: Seq<char>, value: JsonTree) -> JsonTree {
        match self {
            JsonTree::Object(members) => JsonTree::Object(
                members.push(MemberTree { name, value }),
            ),
            other => other,
        }
    }

    /// The value of the member of this name, where this is an object that has one.
    pub open spec fn get(self, name: Seq<char>) -> Option<JsonTree> {
        match self {
            JsonTree::Object(members) => member(members, name),
            _ => None,
        }
    }

    /// The text, where this is one.
    pub open spec fn as_str(self) -> Option<Seq<char>> {
        match self {
            JsonTree::Text(s) => Some(s),
            _ => None,
        }
    }

    /// The text of the member of this name, where this is an object in which that member
    /// is a text.
    pub open spec fn text_member(self, name: Seq<char>) -> Option<Seq<char>> {
        match self.get(name) {
            Some(v) => v.as_str(),
            None => None,
        }
    }
}

/// What a list of JSON values is.
pub open spec fn trees(items: Seq<Json>) -> Seq<JsonTree> {
    items.map_values(|item: Json| item@)
}

/// A JSON value that may be absent.
pub open spec fn opt_tree(o: Option<Json>) -> Option<JsonTree> {
    match o {
        Some(v) => Some(v@),
        None => None,
    }
}

impl Json {
    /// The text value `s`.
    pub fn text(s: &str) -> (r: Json)
        ensures
            r@ == JsonTree::Text(s@),
    {
        Json::Text(s.to_owned())
    }

    /// The number with the numeral `s`.
    pub fn number(s: &str) -> (r: Json)
        ensures
            r@ == JsonTree::Number(s@),
    {
        Json::Number(s.to_owned())
    }

    /// The object without members.
    pub fn object() -> (r: Json)
        ensures
            r@ == JsonTree::object(),
    {
        let r = Json::Object(Vec::new());
        assert(r@->Object_0 == Seq::<MemberTree>::empty());
        r
    }

    /// This object with one more member; any other value as it is.
    pub fn with(self, name: &str, value: Json) -> (r: Json)
        ensures
            r@ == self@.with(name@, value@),
    {
        let ghost before = self@->Object_0;
        let ghost added = MemberTree { name: name@, value: value@ };
        match self {
            Json::Object(mut members) => {
                members.push((name.to_owned(), value));
                let r = Json::Object(members);
                assert(r@->Object_0 == before.push(added));
                r
            },
            other => other,
        }
    }

    /// The array of these items.
    pub fn array(items: Vec<Json>) -> (r: Json)
        ensures
            r@ == JsonTree::Array(trees(items@)),
    {
        let r = Json::Array(items);
        assert(r@->Array_0 == trees(items@));
        r
    }

    /// The value of the member of this name.
    pub fn get(&self, name: &str) -> (r: Option<&Json>)
        ensures
            match r {
                Some(v) => self@.get(name@) == Some(v@),
                None => self@.get(name@) is None,
            },
    {
        match self {
            Json::Object(members) => {
                let ghost all = self@->Object_0;
                let mut i: usize = 0;
                assert(all.skip(0) == all);
                while i < members.len()
                    invariant
                        i <= members@.len(),
                        self@ == JsonTree::Object(all),
                        *self == Json::Object(*members),
                        all.len() == members@.len(),
                        member(all, name@) == member(all.skip(i as int), name@),
                    decreases members@.len() - i,
                {
                    assert(all[i as int] == MemberTree {
                        name: members@[i as int].0@,
                        value: members@[i as int].1@,
                    });
                    assert(all.skip(i as int)[0] == all[i as int]);
                    if text::same_text(members[i].0.as_str(), name) {
                        return Some(&members[i].1);
                    }
                    assert(all.skip(i as int).drop_first() == all.skip(i + 1));
                    i += 1;
                }
                None
            },
            _ => None,
        }
    }

    /// The text, where this is one.
    pub fn as_str(&self) -> (r: Option<&str>)
        ensures
            text::opt_str(r) == self@.as_str(),
    {
        match self {
            Json::Text(s) => Some(s.as_str()),
            _ => None,
        }
    }

    /// The truth value, where this is one.
    pub fn as_bool(&self) -> (r: Option<bool>)
        ensures
            r == (match self@ {
                JsonTree::Bool(b) => Some(b),
                _ => None,
            }),
    {
        match self {
            Json::Bool(b) => Some(*b),
            _ => None,
        }
    }

    /// The text of the member of this name.
    pub fn text_member(&self, name: &str) -> (r: Option<&str>)
        ensures
            text::opt_str(r) == self@.text_member(name@),
    {
        match self.get(name) {
            Some(v) => v.as_str(),
            None => None,
        }
    }
}

/// `serde_json::Value`.
#[verifier::external_type_specification]
#[verifier::external_body]
pub struct ExValue(serde_json::Value);

/// What a `serde_json::Value` holds.
pub uninterp spec fn value_tree(value: serde_json::Value) -> JsonTree;

/// What `serde_json::from_str::<serde_json::Value>` reads from a text: nothing where it
/// reports an error.
pub uninterp spec fn json_read(text: Seq<char>) -> Option<JsonTree>;

/// `serde_json::from_str::<serde_json::Value>`: reads a JSON value from `text`, and drops
/// the error where the text is not one. What it reads is a function of the text.
#[verifier::external_body]
fn value_from_text(text: &str) -> (r: Option<serde_json::Value>)
    ensures
        match r {
            Some(value) => json_read(text@) == Some(value_tree(value)),
            None => json_read(text@) is None,
        },
{
    serde_json::from_str::<serde_json::Value>(text).ok()
}

/// The variants of `serde_json::Value`, one for one: a number by the numeral that its
/// `Display` writes, the members of an object in the order of its map.
#[verifier::external_body]
fn json_from_value(value: serde_json::Value) -> (r: Json)
    ensures
        r@ == value_tree(value),
{
    match value {
        serde_json::Value::Null => Json::Null,
        serde_json::Value::Bool(b) => Json::Bool(b),
        serde_json::Value::Number(n) => Json::Number(n.to_string()),
        serde_json::Value::String(s) => Json::Text(s),
        serde_json::Value::Array(items) => {
            Json::Array(items.into_iter().map(json_from_value).collect())
        },
        serde_json::Value::Object(members) => {
            Json::Object(members.into_iter().map(|(k, v)| (k, json_from_value(v))).collect())
        },
    }
}

/// Reads a JSON value from `text`.
pub fn parse_json(text: &str) -> (r: Option<Json>)
    ensures
        opt_tree(r) == json_read(text@),
{
    match value_from_text(text) {
        Some(value) => Some(json_from_value(value)),
        None => None,
    }
}

/// A member that is added to an object is found under its name, unless an earlier one has
/// that name; and every other member is found as before.
pub proof fn added_members_are_found(
    tree: JsonTree,
    name: Seq<char>,
    value: JsonTree,
    other: Seq<char>,
)
    requires
        tree is Object,
    ensures
        tree.get(name) is None ==> tree.with(name, value).get(name) == Some(value),
        tree.get(name) is Some ==> tree.with(name, value).get(name) == tree.get(name),
        other != name ==> tree.with(name, value).get(other) == tree.get(other),
    decreases tree->Object_0.len(),
{
    let members = tree->Object_0;
    let longer = members.push(MemberTree { name, value });
    if members.len() == 0 {
        reveal_with_fuel(member, 2);
        assert(longer.drop_first() =~= Seq::<MemberTree>::empty());
    } else {
        added_members_are_found(JsonTree::Object(members.drop_first()), name, value, other);
        assert(longer.drop_first() =~= members.drop_first().push(MemberTree { name, value }));
        assert(longer[0] == members[0]);
    }
}

pub(crate) broadcast proof fn lemma_added_member(tree: JsonTree, name: Seq<char>, value: JsonTree)
    requires
        tree is Object,
        tree.get(name) is None,
    ensures
        #[trigger] tree.with(name, value).get(name) == Some(value),
{
    added_members_are_found(tree, name, value, name);
}

pub(crate) broadcast proof fn lemma_other_member(
    tree: JsonTree,
    name: Seq<char>,
    value: JsonTree,
    other: Seq<char>,
)
    requires
        tree is Object,
        other != name,
    ensures
        #[trigger] tree.with(name, value).get(other) == tree.get(other),
{
    added_members_are_found(tree, name, value, other);
}

/// The object without members has none, and is an object; an object stays one with a member
/// added; a text is the text it holds, and no other value is a text; the text of a member is
/// that of the value that is found.
pub proof fn values_are_what_they_hold(
    tree: JsonTree,
    name: Seq<char>,
    value: JsonTree,
    t: Seq<char>,
)
    ensures
        JsonTree::object() is Object,
        JsonTree::object().get(name) is None,
        tree is Object ==> tree.with(name, value) is Object,
        tree !is Object ==> tree.get(name) is None && tree.with(name, value) == tree,
        JsonTree::Text(t).as_str() == Some(t),
        tree !is Text ==> tree.as_str() is None,
        tree.get(name) == Some(JsonTree::Text(t)) <==> tree.text_member(name) == Some(t),
        tree.get(name) is None ==> tree.text_member(name) is None,
{
}

/// A JSON value says what it holds: a list each of its items in its place, and an object each
/// of its members, by its name, in its place.
pub proof fn values_say_what_they_hold(
    b: bool,
    s: String,
    items: Vec<Json>,
    members: Vec<(String, Json)>,
    i: int,
)
    ensures
        Json::Null@ == JsonTree::Null,
        Json::Bool(b)@ == JsonTree::Bool(b),
        Json::Number(s)@ == JsonTree::Number(s@),
        Json::Text(s)@ == JsonTree::Text(s@),
        Json::Array(items)@ is Array,
        Json::Array(items)@->Array_0.len() == items@.len(),
        0 <= i < items@.len() ==> Json::Array(items)@->Array_0[i] == items@[i]@,
        Json::Object(members)@ is Object,
        Json::Object(members)@->Object_0.len() == members@.len(),
        0 <= i < members@.len() ==> {
            &&& Json::Object(members)@->Object_0[i].name == members@[i].0@
            &&& Json::Object(members)@->Object_0[i].value == members@[i].1@
        },
        opt_tree(None) is None,
        opt_tree(Some(Json::Array(items))) == Some(Json::Array(items)@),
        opt_tree(Some(Json::Text(s))) == Some(JsonTree::Text(s@)),
        trees(items@).len() == items@.len(),
        0 <= i < items@.len() ==> trees(items@)[i] == items@[i]@,
{
}

} // verus!
