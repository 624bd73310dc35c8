//! JSON documents: an owned tree, its mathematical value, and typed access.
//!
//! Objects keep their members as pairs. Their mathematical value is a map, in
//! which a later pair replaces an earlier one with the same name.

use vstd::prelude::*;

verus! {

/// A JSON document.
#[derive(Debug, PartialEq, Eq)]
pub enum Json {
    Null,
    Bool(bool),
    /// A number without fraction or exponent, between `i64::MIN` and `u64::MAX`.
    Integer(i128),
    /// Any other number, as its literal text.
    Real(String),
    Text(String),
    Array(Vec<Json>),
    Object(Vec<(String, Json)>),
}

/// The mathematical value of a JSON document.
pub enum JsonView {
    Null,
    Bool(bool),
    Integer(int),
    Real(Seq<char>),
    Text(Seq<char>),
    Array(Seq<JsonView>),
    Object(Map<Seq<char>, JsonView>),
}

/// The value of one document.
pub open spec fn value_of(json: Json) -> JsonView
    decreases json,
{
    match json {
        Json::Null => JsonView::Null,
        Json::Bool(flag) => JsonView::Bool(flag),
        Json::Integer(number) => JsonView::Integer(number as int),
        Json::Real(text) => JsonView::Real(text@),
        Json::Text(text) => JsonView::Text(text@),
        Json::Array(items) => JsonView::Array(values_of(items@)),
        Json::Object(members) => JsonView::Object(members_of(members@)),
    }
}

/// The values of a list of documents.
pub open spec fn values_of(items: Seq<Json>) -> Seq<JsonView>
    decreases items,
{
    if items.len() == 0 {
        Seq::empty()
    } else {
        values_of(items.drop_last()).push(value_of(items.last()))
    }
}

/// The map that a list of members stands for.
pub open spec fn members_of(members: Seq<(String, Json)>) -> Map<Seq<char>, JsonView>
    decreases members,
{
    if members.len() == 0 {
        Map::empty()
    } else {
        members_of(members.drop_last()).insert(members.last().0@, value_of(members.last().1))
    }
}

/// Each document's value stands at the document's place.
pub proof fn values_at(items: Seq<Json>)
    ensures
        values_of(items).len() == items.len(),
        forall|i: int| 0 <= i < items.len() ==> #[trigger] values_of(items)[i] == value_of(items[i]),
    decreases items,
{
    if items.len() > 0 {
        values_at(items.drop_last());
    }
}

impl View for Json {
    type V = JsonView;

    open spec fn view(&self) -> JsonView {
        value_of(*self)
    }
}

impl DeepView for Json {
    type V = JsonView;

    open spec fn deep_view(&self) -> JsonView {
        value_of(*self)
    }
}

impl JsonView {
    /// The member called `key`, where this is an object that has one.
    pub open spec fn get(self, key: Seq<char>) -> Option<JsonView> {
        match self {
            JsonView::Object(members) => if members.contains_key(key) {
                Some(members[key])
            } else {
                None
            },
            _ => None,
        }
    }

    /// The text, where this is a text.
    pub open spec fn as_text(self) -> Option<Seq<char>> {
        match self {
            JsonView::Text(text) => Some(text),
            _ => None,
        }
    }

    /// The flag, where this is a flag.
    pub open spec fn as_bool(self) -> Option<bool> {
        match self {
            JsonView::Bool(flag) => Some(flag),
            _ => None,
        }
    }

    /// The number, where this is a whole number that fits in `u64`.
    pub open spec fn as_u64(self) -> Option<u64> {
        match self {
            JsonView::Integer(number) => if 0 <= number <= u64::MAX {
                Some(number as u64)
            } else {
                None
            },
            _ => None,
        }
    }

    /// The number, where this is a whole number that fits in `i64`.
    pub open spec fn as_i64(self) -> Option<i64> {
        match self {
            JsonView::Integer(number) => if i64::MIN <= number <= i64::MAX {
                Some(number as i64)
            } else {
                None
            },
            _ => None,
        }
    }

    /// The items, where this is an array.
    pub open spec fn as_array(self) -> Option<Seq<JsonView>> {
        match self {
            JsonView::Array(items) => Some(items),
            _ => None,
        }
    }

    /// The member called `key`, where it is a text.
    pub open spec fn text_at(self, key: Seq<char>) -> Option<Seq<char>> {
        match self.get(key) {
            Some(member) => member.as_text(),
            None => None,
        }
    }

    /// The member called `key`, where it is a flag.
    pub open spec fn bool_at(self, key: Seq<char>) -> Option<bool> {
        match self.get(key) {
            Some(member) => member.as_bool(),
            None => None,
        }
    }

    /// The member called `key`, where it is a whole number that fits in `u64`.
    pub open spec fn u64_at(self, key: Seq<char>) -> Option<u64> {
        match self.get(key) {
            Some(member) => member.as_u64(),
            None => None,
        }
    }

    /// The member called `key`, where it is a whole number that fits in `i64`.
    pub open spec fn i64_at(self, key: Seq<char>) -> Option<i64> {
        match self.get(key) {
            Some(member) => member.as_i64(),
            None => None,
        }
    }

    /// The member called `key`, where it is an array.
    pub open spec fn array_at(self, key: Seq<char>) -> Option<Seq<JsonView>> {
        match self.get(key) {
            Some(member) => member.as_array(),
            None => None,
        }
    }

    /// The members of an object, none of anything else.
    pub open spec fn members(self) -> Map<Seq<char>, JsonView> {
        match self {
            JsonView::Object(members) => members,
            _ => Map::empty(),
        }
    }

    /// This object with `key` set to `value`; anything else becomes an object
    /// with that one member.
    pub open spec fn with(self, key: Seq<char>, value: JsonView) -> JsonView {
        JsonView::Object(self.members().insert(key, value))
    }

    /// This value, where it is an object without the member `key` if it had one.
    pub open spec fn without(self, key: Seq<char>) -> JsonView {
        match self {
            JsonView::Object(members) => JsonView::Object(members.remove(key)),
            other => other,
        }
    }
}

/// A list of texts.
pub open spec fn text_list(texts: Seq<Seq<char>>) -> JsonView {
    JsonView::Array(Seq::new(texts.len(), |i: int| JsonView::Text(texts[i])))
}

/// The texts among some values, in order.
pub open spec fn texts_among(items: Seq<JsonView>) -> Seq<Seq<char>>
    decreases items.len(),
{
    if items.len() == 0 {
        Seq::empty()
    } else {
        match items.last().as_text() {
            Some(text) => texts_among(items.drop_last()).push(text),
            None => texts_among(items.drop_last()),
        }
    }
}

/// The members that are not called `key`.
pub open spec fn unnamed(members: Seq<(String, Json)>, key: Seq<char>) -> Seq<(String, Json)>
    decreases members.len(),
{
    if members.len() == 0 {
        Seq::empty()
    } else if members.last().0@ == key {
        unnamed(members.drop_last(), key)
    } else {
        unnamed(members.drop_last(), key).push(members.last())
    }
}

/// Leaving out the members called `key` removes `key` from the map.
proof fn unnamed_removes(members: Seq<(String, Json)>, key: Seq<char>)
    ensures
        members_of(unnamed(members, key)) == members_of(members).remove(key),
    decreases members.len(),
{
    if members.len() == 0 {
        assert(members_of(unnamed(members, key)) =~= members_of(members).remove(key));
    } else {
        unnamed_removes(members.drop_last(), key);
        let rest = unnamed(members.drop_last(), key);
        if members.last().0@ == key {
            assert(members_of(members).remove(key) =~= members_of(members.drop_last()).remove(key));
        } else {
            assert(rest.push(members.last()).drop_last() =~= rest);
            assert(members_of(unnamed(members, key)) =~= members_of(members).remove(key));
        }
    }
}

impl Clone for Json {
    fn clone(&self) -> (copy: Json)
        ensures
            copy@ == self@,
        decreases self,
    {
        match self {
            Json::Null => Json::Null,
            Json::Bool(flag) => Json::Bool(*flag),
            Json::Integer(number) => Json::Integer(*number),
            Json::Real(text) => Json::Real(text.clone()),
            Json::Text(text) => Json::Text(text.clone()),
            Json::Array(items) => {
                let mut copies: Vec<Json> = Vec::new();
                let mut i: usize = 0;
                while i < items.len()
                    invariant
                        i <= items.len(),
                        *self is Array,
                        self->Array_0 == *items,
                        values_of(copies@) == values_of(items@.take(i as int)),
                    decreases items.len() - i,
                {
                    let item = &items[i];
                    assert(decreases_to!(self => items@[i as int]));
                    let copy = item.clone();
                    let ghost before = copies@;
                    copies.push(copy);
                    assert(copies@.drop_last() =~= before);
                    assert(items@.take(i + 1).drop_last() =~= items@.take(i as int));
                    i = i + 1;
                }
                assert(items@.take(items.len() as int) =~= items@);
                Json::Array(copies)
            },
            Json::Object(members) => {
                let mut copies: Vec<(String, Json)> = Vec::new();
                let mut i: usize = 0;
                while i < members.len()
                    invariant
                        i <= members.len(),
                        *self is Object,
                        self->Object_0 == *members,
                        members_of(copies@) == members_of(members@.take(i as int)),
                    decreases members.len() - i,
                {
                    let member = &members[i];
                    assert(decreases_to!(self => members@[i as int].1));
                    let copy = member.1.clone();
                    let ghost before = copies@;
                    copies.push((member.0.clone(), copy));
                    assert(copies@.drop_last() =~= before);
                    assert(members@.take(i + 1).drop_last() =~= members@.take(i as int));
                    i = i + 1;
                }
                assert(members@.take(members.len() as int) =~= members@);
                Json::Object(copies)
            },
        }
    }
}

impl Json {
    /// An object without members.
    pub fn object() -> (json: Json)
        ensures
            json@ == JsonView::Object(Map::empty()),
    {
        Json::Object(Vec::new())
    }

    /// A text.
    pub fn text(text: &str) -> (json: Json)
        ensures
            json@ == JsonView::Text(text@),
    {
        Json::Text(text.to_owned())
    }

    /// A text, or `null`.
    pub fn optional_text(text: Option<&str>) -> (json: Json)
        ensures
            json@ == match text {
                Some(text) => JsonView::Text(text@),
                None => JsonView::Null,
            },
    {
        match text {
            Some(text) => Json::Text(text.to_owned()),
            None => Json::Null,
        }
    }

    /// A list.
    pub fn array(items: Vec<Json>) -> (json: Json)
        ensures
            json@ == JsonView::Array(values_of(items@)),
    {
        Json::Array(items)
    }

    /// A list with one item.
    pub fn single(item: Json) -> (json: Json)
        ensures
            json@ == JsonView::Array(seq![item@]),
    {
        let mut items: Vec<Json> = Vec::new();
        items.push(item);
        proof {
            values_at(items@);
            assert(values_of(items@) =~= seq![item@]);
        }
        Json::Array(items)
    }

    /// A list of texts.
    pub fn texts(texts: &Vec<String>) -> (json: Json)
        ensures
            json@ == text_list(texts.deep_view()),
    {
        let mut items: Vec<Json> = Vec::new();
        let mut i: usize = 0;
        while i < texts.len()
            invariant
                i <= texts.len(),
                items.len() == i,
                forall|j: int|
                    0 <= j < i ==> value_of(#[trigger] items@[j]) == JsonView::Text(texts@[j]@),
            decreases texts.len() - i,
        {
            items.push(Json::Text(texts[i].clone()));
            i = i + 1;
        }
        proof {
            values_at(items@);
            assert(values_of(items@) =~= text_list(texts.deep_view())->Array_0);
        }
        Json::Array(items)
    }

    /// A whole number.
    pub fn unsigned(number: u64) -> (json: Json)
        ensures
            json@ == JsonView::Integer(number as int),
    {
        Json::Integer(number as i128)
    }

    /// The member called `key`, where this is an object that has one.
    pub fn get<'a>(&'a self, key: &str) -> (member: Option<&'a Json>)
        ensures
            match member {
                Some(json) => self@.get(key@) == Some(json@),
                None => self@.get(key@) is None,
            },
    {
        match self {
            Json::Object(members) => {
                let mut i: usize = members.len();
                assert(members@.take(i as int) =~= members@);
                while i > 0
                    invariant
                        i <= members.len(),
                        *self is Object,
                        self->Object_0 == *members,
                        self@.get(key@) == JsonView::Object(
                            members_of(members@.take(i as int)),
                        ).get(key@),
                    decreases i,
                {
                    let member = &members[i - 1];
                    assert(members@.take(i as int).drop_last() =~= members@.take(i - 1));
                    if *member.0.as_str() == *key {
                        return Some(&member.1);
                    }
                    i = i - 1;
                }
                None
            },
            _ => None,
        }
    }

    /// The text, where this is a text.
    pub fn as_text<'a>(&'a self) -> (text: Option<&'a str>)
        ensures
            match text {
                Some(text) => self@.as_text() == Some(text@),
                None => self@.as_text() is None,
            },
    {
        match self {
            Json::Text(text) => Some(text.as_str()),
            _ => None,
        }
    }

    /// The flag, where this is a flag.
    pub fn as_bool(&self) -> (flag: Option<bool>)
        ensures
            flag == self@.as_bool(),
    {
        match self {
            Json::Bool(flag) => Some(*flag),
            _ => None,
        }
    }

    /// The number, where this is a whole number that fits in `u64`.
    pub fn as_u64(&self) -> (number: Option<u64>)
        ensures
            number == self@.as_u64(),
    {
        match self {
            Json::Integer(number) => {
                if 0 <= *number && *number <= u64::MAX as i128 {
                    Some(*number as u64)
                } else {
                    None
                }
            },
            _ => None,
        }
    }

    /// The number, where this is a whole number that fits in `i64`.
    pub fn as_i64(&self) -> (number: Option<i64>)
        ensures
            number == self@.as_i64(),
    {
        match self {
            Json::Integer(number) => {
                if i64::MIN as i128 <= *number && *number <= i64::MAX as i128 {
                    Some(*number as i64)
                } else {
                    None
                }
            },
            _ => None,
        }
    }

    /// The items, where this is an array.
    pub fn as_array<'a>(&'a self) -> (items: Option<&'a Vec<Json>>)
        ensures
            match items {
                Some(items) => self@.as_array() == Some(values_of(items@)),
                None => self@.as_array() is None,
            },
    {
        match self {
            Json::Array(items) => Some(items),
            _ => None,
        }
    }

    /// Whether this is an object.
    pub fn is_object(&self) -> (yes: bool)
        ensures
            yes == (self@ is Object),
    {
        matches!(self, Json::Object(_))
    }

    /// Whether this is `null`.
    pub fn is_null(&self) -> (yes: bool)
        ensures
            yes == (self@ is Null),
    {
        matches!(self, Json::Null)
    }

    /// The member called `key`, where it is a text.
    pub fn text_at<'a>(&'a self, key: &str) -> (text: Option<&'a str>)
        ensures
            match text {
                Some(text) => self@.text_at(key@) == Some(text@),
                None => self@.text_at(key@) is None,
            },
    {
        match self.get(key) {
            Some(member) => member.as_text(),
            None => None,
        }
    }

    /// The member called `key`, where it is a flag.
    pub fn bool_at(&self, key: &str) -> (flag: Option<bool>)
        ensures
            flag == self@.bool_at(key@),
    {
        match self.get(key) {
            Some(member) => member.as_bool(),
            None => None,
        }
    }

    /// The member called `key`, where it is a whole number that fits in `u64`.
    pub fn u64_at(&self, key: &str) -> (number: Option<u64>)
        ensures
            number == self@.u64_at(key@),
    {
        match self.get(key) {
            Some(member) => member.as_u64(),
            None => None,
        }
    }

    /// The member called `key`, where it is a whole number that fits in `i64`.
    pub fn i64_at(&self, key: &str) -> (number: Option<i64>)
        ensures
            number == self@.i64_at(key@),
    {
        match self.get(key) {
            Some(member) => member.as_i64(),
            None => None,
        }
    }

    /// The member called `key`, where it is an array.
    pub fn array_at<'a>(&'a self, key: &str) -> (items: Option<&'a Vec<Json>>)
        ensures
            match items {
                Some(items) => self@.array_at(key@) == Some(values_of(items@)),
                None => self@.array_at(key@) is None,
            },
    {
        match self.get(key) {
            Some(member) => member.as_array(),
            None => None,
        }
    }

    /// This object without the member `key`; anything else as it is.
    pub fn without(self, key: &str) -> (result: Json)
        ensures
            result@ == self@.without(key@),
    {
        match self {
            Json::Object(members) => {
                let mut kept: Vec<(String, Json)> = Vec::new();
                let mut i: usize = 0;
                while i < members.len()
                    invariant
                        i <= members.len(),
                        members_of(kept@) == members_of(unnamed(members@.take(i as int), key@)),
                    decreases members.len() - i,
                {
                    let member = &members[i];
                    let ghost before = members@.take(i as int);
                    let ghost upto = members@.take(i + 1);
                    assert(upto.drop_last() =~= before);
                    if *member.0.as_str() != *key {
                        let ghost held = kept@;
                        kept.push((member.0.clone(), member.1.clone()));
                        assert(kept@.drop_last() =~= held);
                        assert(unnamed(before, key@).push(upto.last()).drop_last() =~= unnamed(
                            before,
                            key@,
                        ));
                    }
                    i = i + 1;
                }
                assert(members@.take(members.len() as int) =~= members@);
                proof {
                    unnamed_removes(members@, key@);
                }
                Json::Object(kept)
            },
            other => other,
        }
    }

    /// This object with `key` set to `value`; anything else becomes an object
    /// with that one member.
    pub fn with(self, key: &str, value: Json) -> (result: Json)
        ensures
            result@ == self@.with(key@, value@),
    {
        let ghost start = self@;
        match self.without(key) {
            Json::Object(members) => {
                let mut members = members;
                let ghost before = members@;
                members.push((key.to_owned(), value));
                assert(members@.drop_last() =~= before);
                assert(start.members().remove(key@).insert(key@, value@) =~= start.members().insert(
                    key@,
                    value@,
                ));
                Json::Object(members)
            },
            _ => {
                let mut members: Vec<(String, Json)> = Vec::new();
                members.push((key.to_owned(), value));
                assert(members_of(members@.drop_last()) =~= Map::empty());
                assert(members_of(members@) =~= Map::empty().insert(key@, value@));
                Json::Object(members)
            },
        }
    }
}

/// The keys of the map are the names of the members.
pub proof fn members_named(members: Seq<(String, Json)>, key: Seq<char>)
    ensures
        members_of(members).contains_key(key) <==> exists|i: int|
            0 <= i < members.len() && (#[trigger] members[i]).0@ == key,
    decreases members.len(),
{
    if members.len() > 0 {
        let rest = members.drop_last();
        members_named(rest, key);
        if members_of(rest).contains_key(key) {
            let i = choose|i: int| 0 <= i < rest.len() && (#[trigger] rest[i]).0@ == key;
            assert(members[i].0@ == key);
        }
        if members.last().0@ == key {
            assert(members[members.len() - 1].0@ == key);
        }
        if exists|i: int| 0 <= i < members.len() && (#[trigger] members[i]).0@ == key {
            let i = choose|i: int| 0 <= i < members.len() && (#[trigger] members[i]).0@ == key;
            if i < rest.len() {
                assert(rest[i].0@ == key);
            }
        }
    }
}

/// The place of the last member called `key`, which is the one that counts.
pub fn last_member(members: &Vec<(String, Json)>, key: &str) -> (place: Option<usize>)
    ensures
        match place {
            Some(i) => i < members.len() && members_of(members@).contains_key(key@) && members_of(
                members@,
            )[key@] == value_of(members@[i as int].1),
            None => !members_of(members@).contains_key(key@),
        },
{
    let mut i: usize = members.len();
    assert(members@.take(i as int) =~= members@);
    while i > 0
        invariant
            i <= members.len(),
            members_of(members@).contains_key(key@) == members_of(
                members@.take(i as int),
            ).contains_key(key@),
            members_of(members@).contains_key(key@) ==> members_of(members@)[key@] == members_of(
                members@.take(i as int),
            )[key@],
        decreases i,
    {
        assert(members@.take(i as int).drop_last() =~= members@.take(i - 1));
        if *members[i - 1].0.as_str() == *key {
            return Some(i - 1);
        }
        i = i - 1;
    }
    None
}

impl Json {
    /// Whether two documents have the same value: the order of members does not count.
    pub fn same(&self, other: &Json) -> (yes: bool)
        ensures
            yes == (self@ == other@),
        decreases self,
    {
        match (self, other) {
            (Json::Null, Json::Null) => true,
            (Json::Bool(a), Json::Bool(b)) => *a == *b,
            (Json::Integer(a), Json::Integer(b)) => *a == *b,
            (Json::Real(a), Json::Real(b)) => *a.as_str() == *b.as_str(),
            (Json::Text(a), Json::Text(b)) => *a.as_str() == *b.as_str(),
            (Json::Array(a), Json::Array(b)) => {
                proof {
                    values_at(a@);
                    values_at(b@);
                }
                if a.len() != b.len() {
                    return false;
                }
                let mut i: usize = 0;
                while i < a.len()
                    invariant
                        i <= a.len() == b.len(),
                        *self is Array,
                        self->Array_0 == *a,
                        *other is Array,
                        other->Array_0 == *b,
                        values_of(a@).len() == a.len(),
                        values_of(b@).len() == b.len(),
                        forall|j: int|
                            0 <= j < a.len() ==> #[trigger] values_of(a@)[j] == value_of(a@[j]),
                        forall|j: int|
                            0 <= j < b.len() ==> #[trigger] values_of(b@)[j] == value_of(b@[j]),
                        forall|j: int|
                            0 <= j < i ==> #[trigger] values_of(a@)[j] == values_of(b@)[j],
                    decreases a.len() - i,
                {
                    assert(decreases_to!(self => a@[i as int]));
                    if !a[i].same(&b[i]) {
                        assert(values_of(a@)[i as int] != values_of(b@)[i as int]);
                        return false;
                    }
                    i = i + 1;
                }
                assert(values_of(a@) =~= values_of(b@));
                true
            },
            (Json::Object(a), Json::Object(b)) => {
                let ghost left = members_of(a@);
                let ghost right = members_of(b@);
                let mut i: usize = 0;
                while i < a.len()
                    invariant
                        i <= a.len(),
                        *self is Object,
                        self->Object_0 == *a,
                        *other is Object,
                        other->Object_0 == *b,
                        left == members_of(a@),
                        right == members_of(b@),
                        forall|j: int|
                            0 <= j < i ==> right.contains_key((#[trigger] a@[j]).0@)
                                && left[a@[j].0@] == right[a@[j].0@],
                    decreases a.len() - i,
                {
                    proof {
                        members_named(a@, a@[i as int].0@);
                    }
                    let key = a[i].0.as_str();
                    let mine = match last_member(a, key) {
                        Some(place) => place,
                        None => return false,
                    };
                    let theirs = match last_member(b, key) {
                        Some(place) => place,
                        None => {
                            assert(left.contains_key(key@) && !right.contains_key(key@));
                            return false;
                        },
                    };
                    assert(decreases_to!(self => a@[mine as int].1));
                    if !a[mine].1.same(&b[theirs].1) {
                        assert(left[key@] != right[key@]);
                        return false;
                    }
                    i = i + 1;
                }
                let mut k: usize = 0;
                while k < b.len()
                    invariant
                        k <= b.len(),
                        *self is Object,
                        self->Object_0 == *a,
                        *other is Object,
                        other->Object_0 == *b,
                        left == members_of(a@),
                        right == members_of(b@),
                        forall|j: int|
                            0 <= j < a.len() ==> right.contains_key((#[trigger] a@[j]).0@)
                                && left[a@[j].0@] == right[a@[j].0@],
                        forall|j: int| 0 <= j < k ==> left.contains_key((#[trigger] b@[j]).0@),
                    decreases b.len() - k,
                {
                    let key = b[k].0.as_str();
                    if last_member(a, key).is_none() {
                        proof {
                            members_named(b@, key@);
                            assert(b@[k as int].0@ == key@);
                        }
                        assert(right.contains_key(key@) && !left.contains_key(key@));
                        return false;
                    }
                    k = k + 1;
                }
                proof {
                    assert forall|key: Seq<char>| #[trigger]
                        left.contains_key(key) implies right.contains_key(key) && left[key]
                        == right[key] by {
                        members_named(a@, key);
                    }
                    assert forall|key: Seq<char>| #[trigger]
                        right.contains_key(key) implies left.contains_key(key) by {
                        members_named(b@, key);
                    }
                    assert(left =~= right);
                }
                true
            },
            _ => false,
        }
    }
}

/// The texts among some documents, in order.
pub fn texts_in(items: &Vec<Json>) -> (texts: Vec<String>)
    ensures
        texts.deep_view() == texts_among(values_of(items@)),
{
    let ghost views = values_of(items@);
    proof {
        values_at(items@);
    }
    let mut texts: Vec<String> = Vec::new();
    let mut i: usize = 0;
    assert(texts.deep_view() =~= Seq::<Seq<char>>::empty());
    while i < items.len()
        invariant
            i <= items.len(),
            views.len() == items.len(),
            forall|j: int| 0 <= j < items.len() ==> views[j] == value_of(items@[j]),
            texts.deep_view() == texts_among(views.take(i as int)),
        decreases items.len() - i,
    {
        assert(views.take(i + 1).drop_last() =~= views.take(i as int));
        if let Some(text) = items[i].as_text() {
            let ghost before = texts.deep_view();
            texts.push(text.to_owned());
            assert(texts.deep_view() =~= before.push(text@));
        }
        i = i + 1;
    }
    assert(views.take(views.len() as int) =~= views);
    texts
}

/// A member that was set reads as what it was set to, one that was taken out does not
/// read, and every other one reads as before.
pub proof fn members_read_back(value: JsonView, key: Seq<char>, member: JsonView, other: Seq<char>)
    ensures
        value.with(key, member).get(key) == Some(member),
        value is Object && other != key ==> value.with(key, member).get(other) == value.get(other),
        !(value is Object) && other != key ==> value.with(key, member).get(other) is None,
        value.without(key).get(key) is None,
        other != key ==> value.without(key).get(other) == value.get(other),
{
}

/// A member reads as a text, a flag or a list only where it is one, and as a number only
/// where that fits.
pub proof fn members_read_as_what_they_are(
    value: JsonView,
    key: Seq<char>,
    words: Seq<char>,
    flag: bool,
    items: Seq<JsonView>,
    number: int,
)
    ensures
        value.text_at(key) == Some(words) <==> value.get(key) == Some(JsonView::Text(words)),
        value.bool_at(key) == Some(flag) <==> value.get(key) == Some(JsonView::Bool(flag)),
        value.array_at(key) == Some(items) <==> value.get(key) == Some(JsonView::Array(items)),
        value.get(key) == Some(JsonView::Integer(number)) && 0 <= number <= u64::MAX
            ==> value.u64_at(key) == Some(number as u64),
        value.get(key) == Some(JsonView::Integer(number)) && i64::MIN <= number <= i64::MAX
            ==> value.i64_at(key) == Some(number as i64),
        value.get(key) == Some(JsonView::Integer(number)) && number < 0 ==> value.u64_at(key)
            is None,
        !(value is Object) ==> value.get(key) is None,
{
}

/// The texts among some values are those that are texts, each at its turn.
pub proof fn texts_are_picked_in_order(items: Seq<JsonView>)
    ensures
        texts_among(items) == items.filter_map(
            |item: JsonView|
                match item {
                    JsonView::Text(text) => Some(text),
                    _ => None,
                },
        ),
    decreases items.len(),
{
    if items.len() > 0 {
        texts_are_picked_in_order(items.drop_last());
    }
}

} // verus!
