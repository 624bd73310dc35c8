//! JSON documents as compact text.

use crate::json;
use crate::json::{Json, JsonView};
use crate::order;
use crate::text;
use vstd::prelude::*;

verus! {

/// A digit of base sixteen, in small letters.
pub open spec fn hex_digit(n: int) -> char {
    if n < 10 {
        ('0' as int + n) as char
    } else {
        ('a' as int + n - 10) as char
    }
}

/// A character as it stands within a JSON text.
pub open spec fn escaped(c: char) -> Seq<char> {
    if c == '"' {
        "\\\""@
    } else if c == '\\' {
        "\\\\"@
    } else if c as int == 8 {
        "\\b"@
    } else if c as int == 9 {
        "\\t"@
    } else if c as int == 10 {
        "\\n"@
    } else if c as int == 12 {
        "\\f"@
    } else if c as int == 13 {
        "\\r"@
    } else if (c as int) < 32 {
        "\\u00"@ + seq![hex_digit(c as int / 16), hex_digit(c as int % 16)]
    } else {
        seq![c]
    }
}

/// The characters of a text as they stand within a JSON text.
pub open spec fn all_escaped(text: Seq<char>) -> Seq<char>
    decreases text.len(),
{
    if text.len() == 0 {
        Seq::empty()
    } else {
        all_escaped(text.drop_last()) + escaped(text.last())
    }
}

/// A text as JSON writes it: in quotes, with a backslash before a quote or a
/// backslash, and control characters escaped.
pub open spec fn quoted(text: Seq<char>) -> Seq<char> {
    "\""@ + all_escaped(text) + "\""@
}

/// `serde_json::Value`'s `Display`, on a text: the text in quotes, with the escapes
/// that JSON asks for and no others.
#[verifier::external_body]
fn quote(text: &str) -> (written: String)
    ensures
        written@ == quoted(text@),
{
    serde_json::Value::from(text).to_string()
}

/// The names of an object's members, in ascending order.
pub open spec fn names_of(members: Map<Seq<char>, JsonView>) -> Seq<Seq<char>> {
    choose|names: Seq<Seq<char>>| is_names(members, names)
}

/// These are the names of the members, in ascending order.
pub open spec fn is_names(members: Map<Seq<char>, JsonView>, names: Seq<Seq<char>>) -> bool {
    &&& order::ascending(names)
    &&& forall|name: Seq<char>| #[trigger] names.contains(name) <==> members.contains_key(name)
}

/// A document as compact text. An object's members stand in ascending order of their
/// names.
pub open spec fn written(value: JsonView) -> Seq<char>
    decreases value, 0nat,
{
    match value {
        JsonView::Null => "null"@,
        JsonView::Bool(flag) => if flag {
            "true"@
        } else {
            "false"@
        },
        JsonView::Integer(number) => text::signed_digits(number),
        JsonView::Real(number) => number,
        JsonView::Text(words) => quoted(words),
        JsonView::Array(items) => "["@ + text::joined(all_written(items), ","@) + "]"@,
        JsonView::Object(members) => "{"@ + text::joined(
            members_written(members, names_of(members)),
            ","@,
        ) + "}"@,
    }
}

/// Documents as compact texts.
pub open spec fn all_written(items: Seq<JsonView>) -> Seq<Seq<char>>
    decreases items, items.len(),
{
    if items.len() == 0 {
        Seq::empty()
    } else {
        all_written(items.drop_last()).push(written(items.last()))
    }
}

/// Members as compact texts.
pub open spec fn members_written(
    members: Map<Seq<char>, JsonView>,
    names: Seq<Seq<char>>,
) -> Seq<Seq<char>>
    decreases members, names.len(),
{
    if names.len() == 0 || !members.dom().finite() || !members.contains_key(names.last()) {
        Seq::empty()
    } else {
        members_written(members, names.drop_last()).push(
            quoted(names.last()) + ":"@ + written(members[names.last()]),
        )
    }
}

proof fn members_are_finite(members: Seq<(String, Json)>)
    ensures
        json::members_of(members).dom().finite(),
    decreases members.len(),
{
    if members.len() > 0 {
        members_are_finite(members.drop_last());
    }
}

/// The names of a list of members, in ascending order.
fn names(members: &Vec<(String, Json)>) -> (sorted: Vec<String>)
    ensures
        sorted.deep_view() == names_of(json::members_of(members@)),
        is_names(json::members_of(members@), sorted.deep_view()),
{
    let mut all: Vec<String> = Vec::new();
    let mut i: usize = 0;
    while i < members.len()
        invariant
            i <= members.len(),
            all.len() == i,
            forall|j: int| 0 <= j < i ==> (#[trigger] all@[j])@ == members@[j].0@,
        decreases members.len() - i,
    {
        all.push(members[i].0.clone());
        i = i + 1;
    }
    let sorted = order::sorted_distinct(&all);
    proof {
        let map = json::members_of(members@);
        let list = sorted.deep_view();
        assert forall|name: Seq<char>| #[trigger]
            list.contains(name) <==> map.contains_key(name) by {
            json::members_named(members@, name);
            assert(list.contains(name) <==> all.deep_view().contains(name));
            if all.deep_view().contains(name) {
                let k = all.deep_view().index_of(name);
                assert(all@[k]@ == name);
                assert(members@[k].0@ == name);
            }
            if map.contains_key(name) {
                let k = choose|k: int|
                    0 <= k < members@.len() && (#[trigger] members@[k]).0@ == name;
                assert(all@[k]@ == name);
                assert(all.deep_view()[k] == name);
            }
        }
        assert(is_names(map, list));
        let chosen = names_of(map);
        assert(is_names(map, chosen));
        assert forall|x: Seq<char>| list.contains(x) <==> chosen.contains(x) by {
            assert(list.contains(x) <==> map.contains_key(x));
            assert(chosen.contains(x) <==> map.contains_key(x));
        }
        order::ascending_lists_are_unique(list, chosen);
    }
    sorted
}

/// A document as compact text.
pub fn compact(value: &Json) -> (result: String)
    ensures
        result@ == written(value@),
    decreases value,
{
    match value {
        Json::Null => "null".to_owned(),
        Json::Bool(flag) => {
            if *flag {
                "true".to_owned()
            } else {
                "false".to_owned()
            }
        },
        Json::Integer(number) => text::integer(*number),
        Json::Real(number) => number.clone(),
        Json::Text(words) => quote(words.as_str()),
        Json::Array(items) => {
            let mut parts: Vec<String> = Vec::new();
            let mut i: usize = 0;
            assert(items@.take(0) =~= Seq::<Json>::empty());
            while i < items.len()
                invariant
                    i <= items.len(),
                    *value is Array,
                    value->Array_0 == *items,
                    parts.deep_view() =~= all_written(json::values_of(items@.take(i as int))),
                decreases items.len() - i,
            {
                assert(decreases_to!(value => items@[i as int]));
                assert(items@.take(i + 1).drop_last() =~= items@.take(i as int));
                let ghost before = json::values_of(items@.take(i as int));
                assert(json::values_of(items@.take(i + 1)).drop_last() =~= before);
                let ghost held = parts.deep_view();
                parts.push(compact(&items[i]));
                assert(parts.deep_view() =~= held.push(written(items@[i as int]@)));
                i = i + 1;
            }
            assert(items@.take(items.len() as int) =~= items@);
            let mut result = "[".to_owned();
            result.append(text::join(&parts, ",").as_str());
            result.append("]");
            result
        },
        Json::Object(members) => {
            let ghost map = json::members_of(members@);
            proof {
                members_are_finite(members@);
            }
            let keys = names(members);
            let ghost list = keys.deep_view();
            let mut parts: Vec<String> = Vec::new();
            let mut i: usize = 0;
            while i < keys.len()
                invariant
                    i <= keys.len(),
                    *value is Object,
                    value->Object_0 == *members,
                    map == json::members_of(members@),
                    map.dom().finite(),
                    list == keys.deep_view(),
                    is_names(map, list),
                    parts.deep_view() =~= members_written(map, list.take(i as int)),
                decreases keys.len() - i,
            {
                let key = keys[i].as_str();
                assert(list[i as int] == key@);
                assert(list.contains(key@));
                assert(list.take(i + 1).drop_last() =~= list.take(i as int));
                let ghost held = parts.deep_view();
                if let Some(place) = json::last_member(members, key) {
                    assert(decreases_to!(value => members@[place as int].1));
                    let mut part = quote(key);
                    part.append(":");
                    part.append(compact(&members[place].1).as_str());
                    parts.push(part);
                    assert(parts.deep_view() =~= held.push(part@));
                }
                i = i + 1;
            }
            assert(list.take(keys.len() as int) =~= list);
            let mut result = "{".to_owned();
            result.append(text::join(&parts, ",").as_str());
            result.append("}");
            result
        },
    }
}

/// A text is escaped character by character, in order.
pub proof fn texts_are_escaped_in_order(first: Seq<char>, second: Seq<char>, c: char)
    ensures
        all_escaped(first + second) == all_escaped(first) + all_escaped(second),
        all_escaped(seq![c]) == escaped(c),
    decreases second.len(),
{
    let one = seq![c];
    assert(one.drop_last() =~= Seq::empty());
    assert(all_escaped(one.drop_last()) =~= Seq::empty());
    assert(Seq::<char>::empty() + escaped(c) =~= escaped(c));
    if second.len() > 0 {
        texts_are_escaped_in_order(first, second.drop_last(), c);
        assert((first + second).drop_last() =~= first + second.drop_last());
        assert(all_escaped(first + second) =~= all_escaped(first) + all_escaped(second));
    } else {
        assert(first + second =~= first);
        assert(all_escaped(first) =~= all_escaped(first) + all_escaped(second));
    }
}

/// Quotes, backslashes and control characters are escaped, and nothing else.
pub proof fn only_marks_and_controls_are_escaped(c: char)
    ensures
        c as u32 >= 32 && c != '"' && c != '\\' ==> escaped(c) == seq![c],
        c == '"' ==> escaped(c) == seq!['\\', '"'],
        c == '\\' ==> escaped(c) == seq!['\\', '\\'],
        c == '\n' ==> escaped(c) == seq!['\\', 'n'],
        c == '\t' ==> escaped(c) == seq!['\\', 't'],
        c == '\r' ==> escaped(c) == seq!['\\', 'r'],
        c as u32 == 1 ==> escaped(c) == seq!['\\', 'u', '0', '0', '0', '1'],
        c as u32 == 31 ==> escaped(c) == seq!['\\', 'u', '0', '0', '1', 'f'],
{
    reveal_strlit("\\\"");
    reveal_strlit("\\\\");
    reveal_strlit("\\n");
    reveal_strlit("\\t");
    reveal_strlit("\\r");
    reveal_strlit("\\u00");
    if c == '"' {
        assert(escaped(c) =~= seq!['\\', '"']);
    }
    if c == '\\' {
        assert(escaped(c) =~= seq!['\\', '\\']);
    }
    if c == '\n' {
        assert(escaped(c) =~= seq!['\\', 'n']);
    }
    if c == '\t' {
        assert(escaped(c) =~= seq!['\\', 't']);
    }
    if c == '\r' {
        assert(escaped(c) =~= seq!['\\', 'r']);
    }
    if c as u32 == 1 {
        assert(escaped(c) =~= seq!['\\', 'u', '0', '0', '0', '1']);
    }
    if c as u32 == 31 {
        assert(escaped(c) =~= seq!['\\', 'u', '0', '0', '1', 'f']);
    }
}

/// A text without marks and control characters is written between quotes as it is.
pub proof fn plain_texts_are_written_as_they_are(words: Seq<char>)
    requires
        forall|i: int|
            0 <= i < words.len() ==> (#[trigger] words[i]) as u32 >= 32 && words[i] != '"' && words[i]
                != '\\',
    ensures
        all_escaped(words) == words,
        written(JsonView::Text(words)) == seq!['"'] + words + seq!['"'],
    decreases words.len(),
{
    reveal_strlit("\"");
    assert("\""@ =~= seq!['"']);
    if words.len() > 0 {
        plain_texts_are_written_as_they_are(words.drop_last());
        let last = words[words.len() - 1];
        assert(last as u32 >= 32 && last != '"' && last != '\\');
        only_marks_and_controls_are_escaped(last);
        assert(all_escaped(words) =~= words);
    }
}

/// The items of a list are written in order, between brackets and with commas between
/// them, and flags and numbers as what they are.
pub proof fn values_are_written_in_order(items: Seq<JsonView>, i: int, number: int)
    ensures
        all_written(items).len() == items.len(),
        0 <= i < items.len() ==> all_written(items)[i] == written(items[i]),
        written(JsonView::Array(items)) == "["@ + text::joined(all_written(items), ","@) + "]"@,
        written(JsonView::Bool(true)) == "true"@,
        written(JsonView::Bool(false)) == "false"@,
        written(JsonView::Null) == "null"@,
        written(JsonView::Integer(number)) == text::signed_digits(number),
    decreases items.len(),
{
    if items.len() > 0 {
        values_are_written_in_order(items.drop_last(), i, number);
    }
}

} // verus!
