//! JSON documents as values of the library.

use vstd::prelude::*;

use crate::order::texts;
use crate::text::same_text;

verus! {

/// A JSON number. A number with a fraction or an exponent is held by the bit
/// pattern of its double.
#[derive(Clone, Copy, Debug, PartialEq, Eq, Structural)]
pub enum JsonNumber {
    PosInt(u64),
    NegInt(i64),
    Float(u64),
}

/// A JSON document.
#[derive(Debug)]
pub enum Json {
    Null,
    Bool(bool),
    Number(JsonNumber),
    Text(String),
    Array(Vec<Json>),
    Object(Vec<(String, Json)>),
}

/// What a JSON document says.
#[verifier::ext_equal]
pub enum JsonView {
    Null,
    Bool(bool),
    Number(JsonNumber),
    Text(Seq<char>),
    Array(Seq<JsonView>),
    Object(Map<Seq<char>, JsonView>),
}

impl JsonView {
    /// The member of an object under a key.
    pub open spec fn get(self, key: Seq<char>) -> Option<JsonView> {
        match self {
            JsonView::Object(members) => if members.contains_key(key) {
                Some(members[key])
            } else {
                None
            },
            _ => None,
        }
    }

    /// The characters of a text.
    pub open spec fn text(self) -> Option<Seq<char>> {
        match self {
            JsonView::Text(s) => Some(s),
            _ => None,
        }
    }

    /// The truth value.
    pub open spec fn flag(self) -> Option<bool> {
        match self {
            JsonView::Bool(b) => Some(b),
            _ => None,
        }
    }

    /// The number, where it is an integer of 64 unsigned bits.
    pub open spec fn unsigned(self) -> Option<u64> {
        match self {
            JsonView::Number(JsonNumber::PosInt(n)) => Some(n),
            _ => None,
        }
    }

    /// The number, where it is an integer of 64 signed bits.
    pub open spec fn signed(self) -> Option<i64> {
        match self {
            JsonView::Number(JsonNumber::PosInt(n)) => if n <= i64::MAX {
                Some(n as i64)
            } else {
                None
            },
            JsonView::Number(JsonNumber::NegInt(n)) => Some(n),
            _ => None,
        }
    }

    /// The number.
    pub open spec fn number(self) -> Option<JsonNumber> {
        match self {
            JsonView::Number(n) => Some(n),
            _ => None,
        }
    }

    /// The items of an array.
    pub open spec fn items(self) -> Option<Seq<JsonView>> {
        match self {
            JsonView::Array(items) => Some(items),
            _ => None,
        }
    }

    /// The members of an object.
    pub open spec fn members(self) -> Option<Map<Seq<char>, JsonView>> {
        match self {
            JsonView::Object(members) => Some(members),
            _ => None,
        }
    }

    /// The text of a member.
    pub open spec fn text_at(self, key: Seq<char>) -> Option<Seq<char>> {
        match self.get(key) {
            Some(member) => member.text(),
            None => None,
        }
    }

    /// The unsigned number of a member.
    pub open spec fn unsigned_at(self, key: Seq<char>) -> Option<u64> {
        match self.get(key) {
            Some(member) => member.unsigned(),
            None => None,
        }
    }

    /// The items of a member.
    pub open spec fn items_at(self, key: Seq<char>) -> Option<Seq<JsonView>> {
        match self.get(key) {
            Some(member) => member.items(),
            None => None,
        }
    }

    /// The members of a member.
    pub open spec fn members_at(self, key: Seq<char>) -> Option<Map<Seq<char>, JsonView>> {
        match self.get(key) {
            Some(member) => member.members(),
            None => None,
        }
    }
}

/// Whether an object has a member under a key.
pub open spec fn has_member(members: Seq<(String, Json)>, key: Seq<char>) -> bool {
    exists|i: int| 0 <= i < members.len() && (#[trigger] members[i]).0@ == key
}

/// The place of the first member under a key.
pub open spec fn member_place(members: Seq<(String, Json)>, key: Seq<char>) -> int {
    choose|i: int|
        0 <= i < members.len() && (#[trigger] members[i]).0@ == key && forall|j: int|
            0 <= j < i ==> (#[trigger] members[j]).0@ != key
}

/// What a JSON document says.
pub open spec fn meaning(json: Json) -> JsonView
    decreases json,
{
    match json {
        Json::Null => JsonView::Null,
        Json::Bool(b) => JsonView::Bool(b),
        Json::Number(n) => JsonView::Number(n),
        Json::Text(s) => JsonView::Text(s@),
        Json::Array(items) => JsonView::Array(
            Seq::new(
                items@.len(),
                |i: int|
                    if 0 <= i < items@.len() {
                        meaning(items@[i])
                    } else {
                        JsonView::Null
                    },
            ),
        ),
        Json::Object(members) => JsonView::Object(
            Map::new(
                |key: Seq<char>| has_member(members@, key),
                |key: Seq<char>|
                    {
                        let i = member_place(members@, key);
                        if 0 <= i < members@.len() {
                            meaning(members@[i].1)
                        } else {
                            JsonView::Null
                        }
                    },
            ),
        ),
    }
}

impl View for Json {
    type V = JsonView;

    open spec fn view(&self) -> JsonView {
        meaning(*self)
    }
}

/// What several documents say, one after the other.
pub open spec fn views(items: Seq<Json>) -> Seq<JsonView> {
    items.map_values(|item: Json| item@)
}

proof fn member_place_is_first(members: Seq<(String, Json)>, key: Seq<char>, i: int)
    requires
        0 <= i < members.len(),
        members[i].0@ == key,
        forall|j: int| 0 <= j < i ==> (#[trigger] members[j]).0@ != key,
    ensures
        has_member(members, key),
        member_place(members, key) == i,
{
    let p = member_place(members, key);
    assert(0 <= p < members.len() && members[p].0@ == key);
}

impl Json {
    /// The member of an object under a key.
    pub fn get(&self, key: &str) -> (r: Option<&Json>)
        ensures
            match r {
                Some(member) => self@.get(key@) == Some(member@),
                None => self@.get(key@) is None,
            },
    {
        match self {
            Json::Object(members) => {
                let mut i: usize = 0;
                while i < members.len()
                    invariant
                        i <= members.len(),
                        *self == Json::Object(*members),
                        forall|j: int| 0 <= j < i ==> (#[trigger] members@[j]).0@ != key@,
                    decreases members.len() - i,
                {
                    if same_text(members[i].0.as_str(), key) {
                        proof {
                            member_place_is_first(members@, key@, i as int);
                        }
                        return Some(&members[i].1);
                    }
                    i = i + 1;
                }
                None
            },
            _ => None,
        }
    }

    /// The characters of a text.
    pub fn as_text(&self) -> (r: Option<&String>)
        ensures
            match r {
                Some(text) => self@.text() == Some(text@),
                None => self@.text() is None,
            },
    {
        match self {
            Json::Text(text) => Some(text),
            _ => None,
        }
    }

    /// The truth value.
    pub fn as_bool(&self) -> (r: Option<bool>)
        ensures
            r == self@.flag(),
    {
        match self {
            Json::Bool(b) => Some(*b),
            _ => None,
        }
    }

    /// The number.
    pub fn as_number(&self) -> (r: Option<JsonNumber>)
        ensures
            r == self@.number(),
    {
        match self {
            Json::Number(n) => Some(*n),
            _ => None,
        }
    }

    /// The number, where it is an integer of 64 unsigned bits.
    pub fn as_u64(&self) -> (r: Option<u64>)
        ensures
            r == self@.unsigned(),
    {
        match self {
            Json::Number(JsonNumber::PosInt(n)) => Some(*n),
            _ => None,
        }
    }

    /// The number, where it is an integer of 64 signed bits.
    pub fn as_i64(&self) -> (r: Option<i64>)
        ensures
            r == self@.signed(),
    {
        match self {
            Json::Number(JsonNumber::PosInt(n)) => if *n <= 0x7FFF_FFFF_FFFF_FFFF {
                Some(*n as i64)
            } else {
                None
            },
            Json::Number(JsonNumber::NegInt(n)) => Some(*n),
            _ => None,
        }
    }

    /// The items of an array.
    pub fn as_array(&self) -> (r: Option<&Vec<Json>>)
        ensures
            match r {
                Some(items) => self@.items() == Some(views(items@)),
                None => self@.items() is None,
            },
    {
        match self {
            Json::Array(items) => {
                proof {
                    assert(self@->Array_0 =~= views(items@));
                }
                Some(items)
            },
            _ => None,
        }
    }

    /// The text of a member.
    pub fn text_at(&self, key: &str) -> (r: Option<&String>)
        ensures
            match r {
                Some(text) => self@.text_at(key@) == Some(text@),
                None => self@.text_at(key@) is None,
            },
    {
        match self.get(key) {
            Some(member) => member.as_text(),
            None => None,
        }
    }

    /// The unsigned number of a member.
    pub fn u64_at(&self, key: &str) -> (r: Option<u64>)
        ensures
            r == self@.unsigned_at(key@),
    {
        match self.get(key) {
            Some(member) => member.as_u64(),
            None => None,
        }
    }

    /// The items of a member.
    pub fn array_at(&self, key: &str) -> (r: Option<&Vec<Json>>)
        ensures
            match r {
                Some(items) => self@.items_at(key@) == Some(views(items@)),
                None => self@.items_at(key@) is None,
            },
    {
        match self.get(key) {
            Some(member) => member.as_array(),
            None => None,
        }
    }

    /// The keys of an object.
    pub fn keys(&self) -> (r: Option<Vec<String>>)
        ensures
            match r {
                Some(keys) => self@.members() is Some && forall|key: Seq<char>| #[trigger]
                    self@.members()->0.contains_key(key) <==> texts(keys@).contains(key),
                None => self@.members() is None,
            },
    {
        match self {
            Json::Object(members) => {
                let mut out: Vec<String> = Vec::new();
                let mut i: usize = 0;
                while i < members.len()
                    invariant
                        i <= members.len(),
                        out.len() == i,
                        forall|k: int| 0 <= k < i ==> #[trigger] out@[k]@ == members@[k].0@,
                    decreases members.len() - i,
                {
                    out.push(members[i].0.clone());
                    i = i + 1;
                }
                proof {
                    let keys = texts(out@);
                    assert forall|key: Seq<char>| #[trigger]
                        self@.members()->0.contains_key(key) <==> keys.contains(key) by {
                        if has_member(members@, key) {
                            let k = choose|k: int|
                                0 <= k < members.len() && (#[trigger] members@[k]).0@ == key;
                            assert(keys[k] == key);
                        }
                        if keys.contains(key) {
                            let k = choose|k: int| 0 <= k < keys.len() && keys[k] == key;
                            assert(out@[k]@ == members@[k].0@);
                        }
                    }
                }
                Some(out)
            },
            _ => None,
        }
    }

    /// A document that says the same.
    pub fn duplicate(&self) -> (r: Json)
        ensures
            r@ == self@,
        decreases self,
    {
        match self {
            Json::Null => Json::Null,
            Json::Bool(b) => Json::Bool(*b),
            Json::Number(n) => Json::Number(*n),
            Json::Text(text) => Json::Text(text.clone()),
            Json::Array(items) => {
                let mut out: Vec<Json> = Vec::new();
                let mut i: usize = 0;
                while i < items.len()
                    invariant
                        i <= items.len(),
                        *self == Json::Array(*items),
                        out.len() == i,
                        forall|k: int| 0 <= k < i ==> (#[trigger] out@[k])@ == items@[k]@,
                    decreases items.len() - i,
                {
                    proof {
                        assert(decreases_to!(*self => self->Array_0));
                        assert(decreases_to!(*items => items@[i as int]));
                        assert(decreases_to!(*self => items@[i as int]));
                    }
                    out.push(items[i].duplicate());
                    i = i + 1;
                }
                let r = Json::Array(out);
                proof {
                    assert(r@->Array_0 =~= self@->Array_0);
                }
                r
            },
            Json::Object(members) => {
                let mut out: Vec<(String, Json)> = Vec::new();
                let mut i: usize = 0;
                while i < members.len()
                    invariant
                        i <= members.len(),
                        *self == Json::Object(*members),
                        out.len() == i,
                        forall|k: int|
                            0 <= k < i ==> (#[trigger] out@[k]).0@ == members@[k].0@ && out@[k].1@
                                == members@[k].1@,
                    decreases members.len() - i,
                {
                    proof {
                        assert(decreases_to!(*self => self->Object_0));
                        assert(decreases_to!(*members => members@[i as int]));
                        assert(decreases_to!(members@[i as int] => members@[i as int].1));
                        assert(decreases_to!(*self => members@[i as int].1));
                    }
                    out.push((members[i].0.clone(), members[i].1.duplicate()));
                    i = i + 1;
                }
                let r = Json::Object(out);
                proof {
                    same_members(out, *members);
                }
                r
            },
        }
    }
}

proof fn same_members(a: Vec<(String, Json)>, b: Vec<(String, Json)>)
    requires
        a.len() == b.len(),
        forall|k: int|
            0 <= k < a.len() ==> (#[trigger] a@[k]).0@ == b@[k].0@ && a@[k].1@ == b@[k].1@,
    ensures
        meaning(Json::Object(a)) == meaning(Json::Object(b)),
{
    let left = meaning(Json::Object(a))->Object_0;
    let right = meaning(Json::Object(b))->Object_0;
    assert forall|key: Seq<char>| left.contains_key(key) == right.contains_key(key) by {
        if has_member(a@, key) {
            let k = choose|k: int| 0 <= k < a.len() && (#[trigger] a@[k]).0@ == key;
            assert(b@[k].0@ == key);
        }
        if has_member(b@, key) {
            let k = choose|k: int| 0 <= k < b.len() && (#[trigger] b@[k]).0@ == key;
            assert(a@[k].0@ == key);
        }
    }
    assert forall|key: Seq<char>| left.contains_key(key) implies left[key] == right[key] by {
        let k = first_member(a@, key);
        assert(forall|j: int| 0 <= j < k ==> (#[trigger] b@[j]).0@ == a@[j].0@);
        assert(a@[k].0@ == b@[k].0@);
        member_place_is_first(b@, key, k);
    }
    assert(left =~= right);
}

/// The first member under a key that an object has.
pub(crate) proof fn first_member(members: Seq<(String, Json)>, key: Seq<char>) -> (r: int)
    requires
        has_member(members, key),
    ensures
        0 <= r < members.len(),
        members[r].0@ == key,
        forall|j: int| 0 <= j < r ==> (#[trigger] members[j]).0@ != key,
        member_place(members, key) == r,
    decreases members.len(),
{
    if has_member(members.drop_last(), key) {
        let r = first_member(members.drop_last(), key);
        assert forall|j: int| 0 <= j < r implies (#[trigger] members[j]).0@ != key by {
            assert(members.drop_last()[j].0@ != key);
        }
        member_place_is_first(members, key, r);
        r
    } else {
        let r = members.len() - 1;
        let k = choose|k: int| 0 <= k < members.len() && (#[trigger] members[k]).0@ == key;
        assert forall|j: int| 0 <= j < r implies (#[trigger] members[j]).0@ != key by {
            assert(members.drop_last()[j] == members[j]);
        }
        member_place_is_first(members, key, r);
        r
    }
}

} // verus!
