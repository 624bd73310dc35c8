//! Tool-call arguments: their shape, and the typed values they carry.
//!
//! Each reader has a specification that gives, for every document, either the
//! value it reads or the exact message with which it refuses.

use crate::ids;
use crate::ids::{Readings, ReadingsView};
use crate::json;
use crate::json::{Json, JsonView};
use crate::text;
use crate::text::Failure;
use vstd::prelude::*;

verus! {

/// A check that passed, or the message with which it refused.
pub open spec fn checked(outcome: Result<(), Failure>) -> Result<(), Seq<char>> {
    match outcome {
        Ok(_) => Ok(()),
        Err(failure) => Err(failure@),
    }
}

/// What reading each item in turn gives: all the values, or the first refusal.
pub open spec fn collected<T>(
    items: Seq<JsonView>,
    read: spec_fn(JsonView) -> Result<T, Seq<char>>,
) -> Result<Seq<T>, Seq<char>>
    decreases items.len(),
{
    if items.len() == 0 {
        Ok(Seq::empty())
    } else {
        match collected(items.drop_last(), read) {
            Err(message) => Err(message),
            Ok(values) => match read(items.last()) {
                Err(message) => Err(message),
                Ok(value) => Ok(values.push(value)),
            },
        }
    }
}

/// A refusal of some first items is the refusal of all.
pub proof fn collected_refuses<T>(
    items: Seq<JsonView>,
    read: spec_fn(JsonView) -> Result<T, Seq<char>>,
    n: int,
)
    requires
        0 <= n <= items.len(),
        collected(items.take(n), read) is Err,
    ensures
        collected(items, read) == collected(items.take(n), read),
    decreases items.len(),
{
    if n < items.len() {
        assert(items.drop_last().take(n) =~= items.take(n));
        collected_refuses(items.drop_last(), read, n);
    } else {
        assert(items.take(n) =~= items);
    }
}

/// The object holds every required member, and none that is neither required
/// nor optional.
pub open spec fn shape(
    value: JsonView,
    required: Seq<Seq<char>>,
    optional: Seq<Seq<char>>,
) -> Result<(), Seq<char>> {
    match value {
        JsonView::Object(members) => if (forall|i: int|
            0 <= i < required.len() ==> members.contains_key(#[trigger] required[i])) && (forall|
            key: Seq<char>,
        | #[trigger]
            members.contains_key(key) ==> required.contains(key) || optional.contains(key)) {
            Ok(())
        } else {
            Err(
                "expected exactly: "@ + text::joined(required, ", "@) + if optional.len() == 0 {
                    Seq::empty()
                } else {
                    " (optional: "@ + text::joined(optional, ", "@) + ")"@
                },
            )
        },
        _ => Err("arguments must be a JSON object"@),
    }
}

/// A name is in the map exactly when some member carries it.
proof fn member_names(members: Seq<(String, Json)>, key: Seq<char>)
    ensures
        json::members_of(members).contains_key(key) <==> exists|i: int|
            0 <= i < members.len() && (#[trigger] members[i]).0@ == key,
    decreases members.len(),
{
    if members.len() > 0 {
        member_names(members.drop_last(), key);
        if exists|i: int| 0 <= i < members.len() && (#[trigger] members[i]).0@ == key {
            let i = choose|i: int| 0 <= i < members.len() && (#[trigger] members[i]).0@ == key;
            if i < members.len() - 1 {
                assert(members.drop_last()[i].0@ == key);
            }
        }
        if json::members_of(members).contains_key(key) {
            if members.last().0@ == key {
                assert(members[members.len() - 1].0@ == key);
            } else {
                let i = choose|i: int|
                    0 <= i < members.drop_last().len() && (#[trigger] members.drop_last()[i]).0@
                        == key;
                assert(members[i].0@ == key);
            }
        }
    }
}

fn shape_refusal(required: &[&str], optional: &[&str]) -> (failure: Failure)
    ensures
        failure@ == "expected exactly: "@ + text::joined(text::views(required@), ", "@) + if text::views(
            optional@,
        ).len() == 0 {
            Seq::empty()
        } else {
            " (optional: "@ + text::joined(text::views(optional@), ", "@) + ")"@
        },
{
    let mut message = "expected exactly: ".to_owned();
    message.append(text::join_strs(required, ", ").as_str());
    if optional.len() > 0 {
        let mut tail = " (optional: ".to_owned();
        tail.append(text::join_strs(optional, ", ").as_str());
        tail.append(")");
        message.append(tail.as_str());
    } else {
        assert(message@ + Seq::empty() =~= message@);
    }
    Failure::new(message)
}

/// Checks that `value` is an object with every required member and no member
/// beyond the required and optional ones.
pub fn validate_arguments(value: &Json, required: &[&str], optional: &[&str]) -> (outcome: Result<
    (),
    Failure,
>)
    ensures
        checked(outcome) == shape(value@, text::views(required@), text::views(optional@)),
{
    match value {
        Json::Object(members) => {
            let ghost map = json::members_of(members@);
            let mut i: usize = 0;
            while i < required.len()
                invariant
                    i <= required.len(),
                    map == value@->Object_0,
                    value@ is Object,
                    forall|j: int|
                        0 <= j < i ==> map.contains_key(#[trigger] text::views(required@)[j]),
                decreases required.len() - i,
            {
                assert(text::views(required@)[i as int] == required@[i as int]@);
                if value.get(required[i]).is_none() {
                    return Err(shape_refusal(required, optional));
                }
                i = i + 1;
            }
            let mut k: usize = 0;
            while k < members.len()
                invariant
                    k <= members.len(),
                    map == json::members_of(members@),
                    value@ == JsonView::Object(map),
                    forall|j: int|
                        0 <= j < k ==> text::views(required@).contains(
                            (#[trigger] members@[j]).0@,
                        ) || text::views(optional@).contains(members@[j].0@),
                decreases members.len() - k,
            {
                let name = members[k].0.as_str();
                if !text::listed(required, name) && !text::listed(optional, name) {
                    proof {
                        member_names(members@, name@);
                        assert(map.contains_key(name@));
                    }
                    return Err(shape_refusal(required, optional));
                }
                k = k + 1;
            }
            proof {
                assert forall|key: Seq<char>| #[trigger] map.contains_key(key) implies text::views(
                    required@,
                ).contains(key) || text::views(optional@).contains(key) by {
                    member_names(members@, key);
                }
            }
            Ok(())
        },
        _ => Err(Failure::fixed("arguments must be a JSON object")),
    }
}

/// The member `key`, where it is a text.
pub open spec fn string_of(value: JsonView, key: Seq<char>) -> Result<Seq<char>, Seq<char>> {
    match value.text_at(key) {
        Some(text) => Ok(text),
        None => Err(key + " must be a string"@),
    }
}

fn refusal(key: &str, rest: &str) -> (failure: Failure)
    ensures
        failure@ == key@ + rest@,
{
    let mut message = key.to_owned();
    message.append(rest);
    Failure::new(message)
}

/// The member `key`, where it is a text.
pub fn string_value(value: &Json, key: &str) -> (result: Result<String, Failure>)
    ensures
        text::seen(result) == string_of(value@, key@),
{
    match value.text_at(key) {
        Some(text) => Ok(text.to_owned()),
        None => Err(refusal(key, " must be a string")),
    }
}

/// The refusal of a text that is blank or too long.
pub open spec fn between(key: Seq<char>, maximum: nat) -> Seq<char> {
    key + " must contain between 1 and "@ + text::digits(maximum) + " characters"@
}

fn between_refusal(key: &str, maximum: usize) -> (failure: Failure)
    ensures
        failure@ == between(key@, maximum as nat),
{
    let mut message = key.to_owned();
    message.append(" must contain between 1 and ");
    message.append(text::decimal(maximum as u128).as_str());
    message.append(" characters");
    Failure::new(message)
}

/// The member `key` without surrounding white space, where between one and
/// `maximum` characters remain.
pub open spec fn nonempty(value: JsonView, key: Seq<char>, maximum: nat) -> Result<
    Seq<char>,
    Seq<char>,
> {
    match string_of(value, key) {
        Err(message) => Err(message),
        Ok(text) => {
            let inner = text::trimmed(text);
            if 0 < inner.len() <= maximum {
                Ok(inner)
            } else {
                Err(between(key, maximum))
            }
        },
    }
}

/// The member `key` without surrounding white space, where between one and
/// `maximum` characters remain.
pub fn nonempty_string(value: &Json, key: &str, maximum: usize) -> (result: Result<String, Failure>)
    ensures
        text::seen(result) == nonempty(value@, key@, maximum as nat),
{
    match string_value(value, key) {
        Err(failure) => Err(failure),
        Ok(text) => {
            let inner = text::trim(text.as_str());
            if !inner.is_empty() && inner.unicode_len() <= maximum {
                Ok(inner.to_owned())
            } else {
                Err(between_refusal(key, maximum))
            }
        },
    }
}

/// The member `key` as it is, where it is not blank and has at most `maximum`
/// characters.
pub open spec fn bounded_nonempty(value: JsonView, key: Seq<char>, maximum: nat) -> Result<
    Seq<char>,
    Seq<char>,
> {
    match string_of(value, key) {
        Err(message) => Err(message),
        Ok(text) => if !text::blank(text) && text.len() <= maximum {
            Ok(text)
        } else {
            Err(between(key, maximum))
        },
    }
}

/// The member `key` as it is, where it is not blank and has at most `maximum`
/// characters.
pub fn bounded_nonempty_string(value: &Json, key: &str, maximum: usize) -> (result: Result<
    String,
    Failure,
>)
    ensures
        text::seen(result) == bounded_nonempty(value@, key@, maximum as nat),
{
    match string_value(value, key) {
        Err(failure) => Err(failure),
        Ok(text) => {
            if !text::is_blank(text.as_str()) && text.as_str().unicode_len() <= maximum {
                Ok(text)
            } else {
                Err(between_refusal(key, maximum))
            }
        },
    }
}

/// The member `key`, where it is a whole number above zero.
pub open spec fn positive(value: JsonView, key: Seq<char>) -> Result<u64, Seq<char>> {
    match value.u64_at(key) {
        Some(number) => if number > 0 {
            Ok(number)
        } else {
            Err(key + " must be a positive integer"@)
        },
        None => Err(key + " must be a positive integer"@),
    }
}

/// The member `key`, where it is a whole number above zero.
pub fn positive_integer(value: &Json, key: &str) -> (result: Result<u64, Failure>)
    ensures
        text::seen(result) == positive(value@, key@),
{
    match value.u64_at(key) {
        Some(number) => {
            if number > 0 {
                Ok(number)
            } else {
                Err(refusal(key, " must be a positive integer"))
            }
        },
        None => Err(refusal(key, " must be a positive integer")),
    }
}

/// The member `key`, where it names a context box.
pub fn box_id(value: &Json, key: &str) -> (result: Result<u64, Failure>)
    ensures
        text::seen(result) == positive(value@, key@),
{
    positive_integer(value, key)
}

/// One entry of a list of box identities.
pub open spec fn box_entry(key: Seq<char>) -> spec_fn(JsonView) -> Result<u64, Seq<char>> {
    |item: JsonView|
        match item.as_u64() {
            Some(number) => if number > 0 {
                Ok(number)
            } else {
                Err(key + " must contain only positive integers"@)
            },
            None => Err(key + " must contain only positive integers"@),
        }
}

/// The member `key`, where it is a list of distinct positive numbers, not empty.
pub open spec fn box_ids(value: JsonView, key: Seq<char>) -> Result<Seq<u64>, Seq<char>> {
    match value.array_at(key) {
        None => Err(key + " must be an array"@),
        Some(items) => match collected(items, box_entry(key)) {
            Err(message) => Err(message),
            Ok(ids) => if ids.len() == 0 {
                Err(key + " must contain at least one box ID"@)
            } else if !ids.no_duplicates() {
                Err(key + " must not contain duplicate box IDs"@)
            } else {
                Ok(ids)
            },
        },
    }
}

fn distinct_numbers(numbers: &Vec<u64>) -> (yes: bool)
    ensures
        yes == numbers@.no_duplicates(),
{
    let mut i: usize = 0;
    while i < numbers.len()
        invariant
            i <= numbers.len(),
            forall|a: int, b: int| 0 <= a < b < i ==> numbers@[a] != numbers@[b],
        decreases numbers.len() - i,
    {
        let mut j: usize = 0;
        while j < i
            invariant
                j <= i < numbers.len(),
                forall|a: int| 0 <= a < j ==> numbers@[a] != numbers@[i as int],
            decreases i - j,
        {
            if numbers[j] == numbers[i] {
                return false;
            }
            j = j + 1;
        }
        i = i + 1;
    }
    true
}

/// Reads every item in turn with `read_item`, up to the first refusal.
pub(crate) fn collect<T: DeepView, F: Fn(&Json) -> Result<T, Failure>>(
    items: &Vec<Json>,
    Ghost(read): Ghost<spec_fn(JsonView) -> Result<T::V, Seq<char>>>,
    read_item: F,
) -> (result: Result<Vec<T>, Failure>)
    requires
        forall|item: &Json| #[trigger] call_requires(read_item, (item,)),
        forall|item: &Json, outcome: Result<T, Failure>| #[trigger]
            call_ensures(read_item, (item,), outcome) ==> text::seen(outcome) == read(item@),
    ensures
        text::seen(result) == collected(json::values_of(items@), read),
{
    let ghost views = json::values_of(items@);
    proof {
        json::values_at(items@);
    }
    let mut values: Vec<T> = Vec::new();
    let mut i: usize = 0;
    assert(values.deep_view() =~= Seq::<T::V>::empty());
    while i < items.len()
        invariant
            i <= items.len(),
            views == json::values_of(items@),
            views.len() == items.len(),
            forall|j: int| 0 <= j < items.len() ==> views[j] == json::value_of(items@[j]),
            forall|item: &Json| #[trigger] call_requires(read_item, (item,)),
            forall|item: &Json, outcome: Result<T, Failure>| #[trigger]
                call_ensures(read_item, (item,), outcome) ==> text::seen(outcome) == read(item@),
            collected(views.take(i as int), read) == Ok::<Seq<T::V>, Seq<char>>(values.deep_view()),
        decreases items.len() - i,
    {
        assert(views.take(i + 1).drop_last() =~= views.take(i as int));
        match read_item(&items[i]) {
            Err(failure) => {
                proof {
                    collected_refuses(views, read, i + 1);
                }
                return Err(failure);
            },
            Ok(value) => {
                let ghost before = values.deep_view();
                let ghost last = value.deep_view();
                values.push(value);
                assert(values.deep_view() =~= before.push(last));
            },
        }
        i = i + 1;
    }
    assert(views.take(views.len() as int) =~= views);
    Ok(values)
}

/// The member `key`, where it is a list of distinct positive numbers, not empty.
pub fn box_id_array(value: &Json, key: &str) -> (result: Result<Vec<u64>, Failure>)
    ensures
        text::seen(result) == box_ids(value@, key@),
{
    let items = match value.array_at(key) {
        None => return Err(refusal(key, " must be an array")),
        Some(items) => items,
    };
    let entry = |item: &Json| -> (outcome: Result<u64, Failure>)
        ensures
            text::seen(outcome) == box_entry(key@)(item@),
    {
        match item.as_u64() {
            Some(number) => {
                if number > 0 {
                    Ok(number)
                } else {
                    Err(refusal(key, " must contain only positive integers"))
                }
            },
            None => Err(refusal(key, " must contain only positive integers")),
        }
    };
    match collect(items, Ghost(box_entry(key@)), entry) {
        Err(failure) => Err(failure),
        Ok(ids) => {
            assert(ids.deep_view() =~= ids@);
            if ids.len() == 0 {
                Err(refusal(key, " must contain at least one box ID"))
            } else if !distinct_numbers(&ids) {
                Err(refusal(key, " must not contain duplicate box IDs"))
            } else {
                Ok(ids)
            }
        },
    }
}

/// One entry of a list of canonical node locators.
pub open spec fn node_entry(key: Seq<char>, readings: ReadingsView) -> spec_fn(JsonView) -> Result<
    Seq<char>,
    Seq<char>,
> {
    |item: JsonView|
        match item.as_text() {
            Some(id) => readings.canonical(id),
            None => Err(key + " entries must be canonical node IDs"@),
        }
}

/// The member `key`, where it is a list of distinct canonical node locators.
pub open spec fn node_ids(value: JsonView, key: Seq<char>, readings: ReadingsView) -> Result<
    Seq<Seq<char>>,
    Seq<char>,
> {
    match value.array_at(key) {
        None => Err(key + " must be an array"@),
        Some(items) => match collected(items, node_entry(key, readings)) {
            Err(message) => Err(message),
            Ok(ids) => if ids.no_duplicates() {
                Ok(ids)
            } else {
                Err(key + " must not contain duplicate identifiers"@)
            },
        },
    }
}

/// The member `key`, where it is a list of distinct canonical node locators.
pub fn canonical_node_ids(value: &Json, key: &str, readings: &Readings) -> (result: Result<
    Vec<String>,
    Failure,
>)
    ensures
        text::seen(result) == node_ids(value@, key@, readings@),
{
    let items = match value.array_at(key) {
        None => return Err(refusal(key, " must be an array")),
        Some(items) => items,
    };
    let entry = |item: &Json| -> (outcome: Result<String, Failure>)
        ensures
            text::seen(outcome) == node_entry(key@, readings@)(item@),
    {
        match item.as_text() {
            Some(id) => ids::canonical_id(id, readings),
            None => Err(refusal(key, " entries must be canonical node IDs")),
        }
    };
    match collect(items, Ghost(node_entry(key@, readings@)), entry) {
        Err(failure) => Err(failure),
        Ok(ids) => {
            if text::all_distinct(&ids) {
                Ok(ids)
            } else {
                Err(refusal(key, " must not contain duplicate identifiers"))
            }
        },
    }
}

/// The member `key`, where it is a list of at most `maximum` distinct canonical
/// node locators.
pub open spec fn bounded_node_ids(
    value: JsonView,
    key: Seq<char>,
    maximum: nat,
    readings: ReadingsView,
) -> Result<
    Seq<Seq<char>>,
    Seq<char>,
> {
    match node_ids(value, key, readings) {
        Err(message) => Err(message),
        Ok(ids) => if ids.len() <= maximum {
            Ok(ids)
        } else {
            Err(
                key + " must contain at most "@ + text::digits(maximum) + " identifiers"@,
            )
        },
    }
}

/// The member `key`, where it is a list of at most `maximum` distinct canonical
/// node locators.
pub fn canonical_node_id_array(
    value: &Json,
    key: &str,
    maximum: usize,
    readings: &Readings,
) -> (result: Result<Vec<String>, Failure>)
    ensures
        text::seen(result) == bounded_node_ids(value@, key@, maximum as nat, readings@),
{
    match canonical_node_ids(value, key, readings) {
        Err(failure) => Err(failure),
        Ok(ids) => {
            if ids.len() <= maximum {
                Ok(ids)
            } else {
                let mut message = key.to_owned();
                message.append(" must contain at most ");
                message.append(text::decimal(maximum as u128).as_str());
                message.append(" identifiers");
                Err(Failure::new(message))
            }
        },
    }
}

/// The member `key`, where it is a list of distinct canonical node locators, not
/// empty.
pub open spec fn some_node_ids(value: JsonView, key: Seq<char>, readings: ReadingsView) -> Result<
    Seq<Seq<char>>,
    Seq<char>,
> {
    match node_ids(value, key, readings) {
        Err(message) => Err(message),
        Ok(ids) => if ids.len() > 0 {
            Ok(ids)
        } else {
            Err(key + " must contain at least one identifier"@)
        },
    }
}

/// The member `key`, where it is a list of distinct canonical node locators, not
/// empty.
pub fn canonical_node_id_list(value: &Json, key: &str, readings: &Readings) -> (result: Result<
    Vec<String>,
    Failure,
>)
    ensures
        text::seen(result) == some_node_ids(value@, key@, readings@),
{
    match canonical_node_ids(value, key, readings) {
        Err(failure) => Err(failure),
        Ok(ids) => {
            if ids.len() > 0 {
                Ok(ids)
            } else {
                Err(refusal(key, " must contain at least one identifier"))
            }
        },
    }
}

/// The member `key`, where it may stand for a node.
pub open spec fn resource_of(value: JsonView, key: Seq<char>, readings: ReadingsView) -> Result<
    Seq<char>,
    Seq<char>,
> {
    match value.text_at(key) {
        Some(id) => readings.resource(id),
        None => Err(key + " must be a node identifier"@),
    }
}

/// The member `key`, where it may stand for a node.
pub fn resource_id(value: &Json, key: &str, readings: &Readings) -> (result: Result<
    String,
    Failure,
>)
    ensures
        text::seen(result) == resource_of(value@, key@, readings@),
{
    match value.text_at(key) {
        Some(id) => ids::parse_resource_id(id, readings),
        None => Err(refusal(key, " must be a node identifier")),
    }
}

/// One entry of a list of node identifiers.
pub open spec fn resource_entry(readings: ReadingsView) -> spec_fn(JsonView) -> Result<
    Seq<char>,
    Seq<char>,
> {
    |item: JsonView|
        match item.as_text() {
            Some(id) => readings.resource(id),
            None => Err("node identifier must be a string"@),
        }
}

/// The member `key`, where it is a list of at least `minimum` distinct node
/// identifiers.
pub open spec fn resources_of(
    value: JsonView,
    key: Seq<char>,
    minimum: nat,
    readings: ReadingsView,
) -> Result<
    Seq<Seq<char>>,
    Seq<char>,
> {
    match value.array_at(key) {
        None => Err(key + " must be an array"@),
        Some(items) => match collected(items, resource_entry(readings)) {
            Err(message) => Err(message),
            Ok(ids) => if ids.len() >= minimum && ids.no_duplicates() {
                Ok(ids)
            } else {
                Err(key + " has invalid length or duplicate identifiers"@)
            },
        },
    }
}

/// The member `key`, where it is a list of at least `minimum` distinct node
/// identifiers.
pub fn resource_id_array(
    value: &Json,
    key: &str,
    minimum: usize,
    readings: &Readings,
) -> (result: Result<Vec<String>, Failure>)
    ensures
        text::seen(result) == resources_of(value@, key@, minimum as nat, readings@),
{
    let items = match value.array_at(key) {
        None => return Err(refusal(key, " must be an array")),
        Some(items) => items,
    };
    let entry = |item: &Json| -> (outcome: Result<String, Failure>)
        ensures
            text::seen(outcome) == resource_entry(readings@)(item@),
    {
        match item.as_text() {
            Some(id) => ids::parse_resource_id(id, readings),
            None => Err(Failure::fixed("node identifier must be a string")),
        }
    };
    match collect(items, Ghost(resource_entry(readings@)), entry) {
        Err(failure) => Err(failure),
        Ok(ids) => {
            if ids.len() >= minimum && text::all_distinct(&ids) {
                Ok(ids)
            } else {
                Err(refusal(key, " has invalid length or duplicate identifiers"))
            }
        },
    }
}

/// The least number of characters in a node's short name.
pub const MIN_NODE_SHORT_NAME_CHARACTERS: usize = 4;

/// The greatest number of characters in a node's short name.
pub const MAX_NODE_SHORT_NAME_CHARACTERS: usize = 50;

/// The greatest number of characters in a node's short description.
pub const MAX_NODE_SHORT_DESCRIPTION_CHARACTERS: usize = 200;

/// The greatest number of characters in a node's long description.
pub const MAX_NODE_LONG_DESCRIPTION_CHARACTERS: usize = 5_000;

/// The refusal of a text with more than `maximum` characters.
pub open spec fn too_long(key: Seq<char>, maximum: nat, received: nat) -> Seq<char> {
    key + " must be at most "@ + text::digits(maximum) + " characters; received "@ + text::digits(
        received,
    ) + ". Shorten it and retry."@
}

fn too_long_refusal(key: &str, maximum: usize, received: usize) -> (failure: Failure)
    ensures
        failure@ == too_long(key@, maximum as nat, received as nat),
{
    let mut message = key.to_owned();
    message.append(" must be at most ");
    message.append(text::decimal(maximum as u128).as_str());
    message.append(" characters; received ");
    message.append(text::decimal(received as u128).as_str());
    message.append(". Shorten it and retry.");
    Failure::new(message)
}

/// The three texts of a node, where each is within its bounds.
pub open spec fn node_texts(
    value: JsonView,
    short_name_key: Seq<char>,
    short_description_key: Seq<char>,
    long_description_key: Seq<char>,
) -> Result<(Seq<char>, Seq<char>, Seq<char>), Seq<char>> {
    match string_of(value, short_name_key) {
        Err(message) => Err(message),
        Ok(name) => match string_of(value, short_description_key) {
            Err(message) => Err(message),
            Ok(short) => match string_of(value, long_description_key) {
                Err(message) => Err(message),
                Ok(long) => if !(MIN_NODE_SHORT_NAME_CHARACTERS <= name.len()
                    <= MAX_NODE_SHORT_NAME_CHARACTERS) {
                    Err(
                        short_name_key + " must contain between "@ + text::digits(
                            MIN_NODE_SHORT_NAME_CHARACTERS as nat,
                        ) + " and "@ + text::digits(MAX_NODE_SHORT_NAME_CHARACTERS as nat)
                            + " characters; received "@ + text::digits(name.len())
                            + ". Correct it and retry."@,
                    )
                } else if short.len() > MAX_NODE_SHORT_DESCRIPTION_CHARACTERS {
                    Err(
                        too_long(
                            short_description_key,
                            MAX_NODE_SHORT_DESCRIPTION_CHARACTERS as nat,
                            short.len(),
                        ),
                    )
                } else if long.len() > MAX_NODE_LONG_DESCRIPTION_CHARACTERS {
                    Err(
                        too_long(
                            long_description_key,
                            MAX_NODE_LONG_DESCRIPTION_CHARACTERS as nat,
                            long.len(),
                        ),
                    )
                } else {
                    Ok((name, short, long))
                },
            },
        },
    }
}

/// The three texts of a node, where each is within its bounds, counted in
/// Unicode characters.
pub fn node_text_arguments(
    value: &Json,
    short_name_key: &str,
    short_description_key: &str,
    long_description_key: &str,
) -> (result: Result<(String, String, String), Failure>)
    ensures
        text::seen(result) == node_texts(
            value@,
            short_name_key@,
            short_description_key@,
            long_description_key@,
        ),
{
    let name = match string_value(value, short_name_key) {
        Ok(name) => name,
        Err(failure) => return Err(failure),
    };
    let short = match string_value(value, short_description_key) {
        Ok(short) => short,
        Err(failure) => return Err(failure),
    };
    let long = match string_value(value, long_description_key) {
        Ok(long) => long,
        Err(failure) => return Err(failure),
    };
    let name_length: usize = name.as_str().unicode_len();
    let short_length: usize = short.as_str().unicode_len();
    let long_length: usize = long.as_str().unicode_len();
    if name_length < MIN_NODE_SHORT_NAME_CHARACTERS || name_length
        > MAX_NODE_SHORT_NAME_CHARACTERS {
        let mut message = short_name_key.to_owned();
        message.append(" must contain between ");
        message.append(text::decimal(MIN_NODE_SHORT_NAME_CHARACTERS as u128).as_str());
        message.append(" and ");
        message.append(text::decimal(MAX_NODE_SHORT_NAME_CHARACTERS as u128).as_str());
        message.append(" characters; received ");
        message.append(text::decimal(name_length as u128).as_str());
        message.append(". Correct it and retry.");
        return Err(Failure::new(message));
    }
    if short_length > MAX_NODE_SHORT_DESCRIPTION_CHARACTERS {
        return Err(
            too_long_refusal(
                short_description_key,
                MAX_NODE_SHORT_DESCRIPTION_CHARACTERS,
                short_length,
            ),
        );
    }
    if long_length > MAX_NODE_LONG_DESCRIPTION_CHARACTERS {
        return Err(
            too_long_refusal(
                long_description_key,
                MAX_NODE_LONG_DESCRIPTION_CHARACTERS,
                long_length,
            ),
        );
    }
    Ok((name, short, long))
}

/// One entry of a list of object identities.
pub open spec fn object_entry(key: Seq<char>) -> spec_fn(JsonView) -> Result<Seq<char>, Seq<char>> {
    |item: JsonView|
        match item.as_text() {
            Some(id) => if !text::blank(id) && id.len() <= 64 {
                Ok(id)
            } else {
                Err(key + " entries must contain between 1 and 64 characters"@)
            },
            None => Err(key + " entries must be strings"@),
        }
}

/// The member `key`: a list of at most `maximum` distinct object identities, the
/// empty list where there is no such member.
pub open spec fn object_ids(value: JsonView, key: Seq<char>, maximum: nat) -> Result<
    Seq<Seq<char>>,
    Seq<char>,
> {
    match value.get(key) {
        None => Ok(Seq::empty()),
        Some(member) => match member.as_array() {
            None => Err(key + " must be an array"@),
            Some(items) => if items.len() > maximum {
                Err(
                    key + " must contain at most "@ + text::digits(maximum) + " object IDs"@,
                )
            } else {
                match collected(items, object_entry(key)) {
                    Err(message) => Err(message),
                    Ok(ids) => if ids.no_duplicates() {
                        Ok(ids)
                    } else {
                        Err(key + " must not contain duplicate object IDs"@)
                    },
                }
            },
        },
    }
}

/// The member `key`: a list of at most `maximum` distinct object identities, the
/// empty list where there is no such member.
pub fn optional_object_id_array(value: &Json, key: &str, maximum: usize) -> (result: Result<
    Vec<String>,
    Failure,
>)
    ensures
        text::seen(result) == object_ids(value@, key@, maximum as nat),
{
    let member = match value.get(key) {
        None => {
            let none: Vec<String> = Vec::new();
            assert(none.deep_view() =~= Seq::<Seq<char>>::empty());
            return Ok(none);
        },
        Some(member) => member,
    };
    let items = match member.as_array() {
        None => return Err(refusal(key, " must be an array")),
        Some(items) => items,
    };
    proof {
        json::values_at(items@);
    }
    if items.len() > maximum {
        let mut message = key.to_owned();
        message.append(" must contain at most ");
        message.append(text::decimal(maximum as u128).as_str());
        message.append(" object IDs");
        return Err(Failure::new(message));
    }
    let entry = |item: &Json| -> (outcome: Result<String, Failure>)
        ensures
            text::seen(outcome) == object_entry(key@)(item@),
    {
        match item.as_text() {
            Some(id) => {
                if !text::is_blank(id) && id.unicode_len() <= 64 {
                    Ok(id.to_owned())
                } else {
                    Err(refusal(key, " entries must contain between 1 and 64 characters"))
                }
            },
            None => Err(refusal(key, " entries must be strings")),
        }
    };
    match collect(items, Ghost(object_entry(key@)), entry) {
        Err(failure) => Err(failure),
        Ok(ids) => {
            if text::all_distinct(&ids) {
                Ok(ids)
            } else {
                Err(refusal(key, " must not contain duplicate object IDs"))
            }
        },
    }
}

/// One entry of the object list of a binary call.
pub open spec fn binary_object_entry() -> spec_fn(JsonView) -> Result<Seq<char>, Seq<char>> {
    |item: JsonView|
        match item.as_text() {
            Some(id) => Ok(id),
            None => Err("Rust-binary objectIds must contain only strings"@),
        }
}

/// The objects that a binary call names, in order.
pub open spec fn binary_object_ids(arguments: JsonView) -> Result<Seq<Seq<char>>, Seq<char>> {
    match arguments.get("objectIds"@) {
        None => Ok(Seq::empty()),
        Some(member) => match member.as_array() {
            None => Err("Rust-binary objectIds must be an array"@),
            Some(items) => collected(items, binary_object_entry()),
        },
    }
}

/// The objects that a binary call names, in order.
pub fn rust_binary_object_ids(arguments: &Json) -> (result: Result<Vec<String>, Failure>)
    ensures
        text::seen(result) == binary_object_ids(arguments@),
{
    let member = match arguments.get("objectIds") {
        None => {
            let none: Vec<String> = Vec::new();
            assert(none.deep_view() =~= Seq::<Seq<char>>::empty());
            return Ok(none);
        },
        Some(member) => member,
    };
    let items = match member.as_array() {
        None => return Err(Failure::fixed("Rust-binary objectIds must be an array")),
        Some(items) => items,
    };
    let entry = |item: &Json| -> (outcome: Result<String, Failure>)
        ensures
            text::seen(outcome) == binary_object_entry()(item@),
    {
        match item.as_text() {
            Some(id) => Ok(id.to_owned()),
            None => Err(Failure::fixed("Rust-binary objectIds must contain only strings")),
        }
    };
    collect(items, Ghost(binary_object_entry()), entry)
}

/// The object that a web-library attachment names.
pub open spec fn library_object_id(arguments: JsonView) -> Result<Seq<char>, Seq<char>> {
    match arguments.text_at("objectId"@) {
        Some(id) => if text::blank(id) {
            Err("Web-library attachment objectId must be a nonempty string"@)
        } else {
            Ok(id)
        },
        None => Err("Web-library attachment objectId must be a nonempty string"@),
    }
}

/// The object that a web-library attachment names.
pub fn web_library_object_id(arguments: &Json) -> (result: Result<String, Failure>)
    ensures
        text::seen(result) == library_object_id(arguments@),
{
    match arguments.text_at("objectId") {
        Some(id) => {
            if text::is_blank(id) {
                Err(Failure::fixed("Web-library attachment objectId must be a nonempty string"))
            } else {
                Ok(id.to_owned())
            }
        },
        None => Err(Failure::fixed("Web-library attachment objectId must be a nonempty string")),
    }
}

/// One call of a tool.
#[derive(Debug)]
pub struct ToolCall {
    pub name: String,
    pub arguments: Json,
}

impl DeepView for ToolCall {
    type V = (Seq<char>, JsonView);

    open spec fn deep_view(&self) -> (Seq<char>, JsonView) {
        (self.name@, self.arguments@)
    }
}

/// The tool call that the provider function `tool` carries.
pub open spec fn ktool_call(tool: Seq<char>, arguments: JsonView) -> Result<
    (Seq<char>, JsonView),
    Seq<char>,
> {
    if tool != "call_ktool"@ {
        Err("unknown provider tool"@)
    } else {
        match shape(arguments, seq!["name"@, "arguments"@], Seq::empty()) {
            Err(message) => Err(message),
            Ok(_) => match nonempty(arguments, "name"@, 100) {
                Err(message) => Err(message),
                Ok(name) => match arguments.get("arguments"@) {
                    Some(inner) => if inner is Object {
                        Ok((name, inner))
                    } else {
                        Err("call_ktool.arguments must be an object"@)
                    },
                    None => Err("call_ktool.arguments must be an object"@),
                },
            },
        }
    }
}

/// The tool call that the provider function `tool` carries.
pub fn native_ktool_call(tool: &str, arguments: &Json) -> (result: Result<ToolCall, Failure>)
    ensures
        text::seen(result) == ktool_call(tool@, arguments@),
{
    if *tool != *"call_ktool" {
        return Err(Failure::fixed("unknown provider tool"));
    }
    proof {
        assert(text::views((&["name", "arguments"])@) =~= seq!["name"@, "arguments"@]);
        assert(text::views((&[])@) =~= Seq::empty());
    }
    if let Err(failure) = validate_arguments(arguments, &["name", "arguments"], &[]) {
        return Err(failure);
    }
    let name = match nonempty_string(arguments, "name", 100) {
        Err(failure) => return Err(failure),
        Ok(name) => name,
    };
    match arguments.get("arguments") {
        Some(inner) => {
            if inner.is_object() {
                Ok(ToolCall { name, arguments: inner.clone() })
            } else {
                Err(Failure::fixed("call_ktool.arguments must be an object"))
            }
        },
        None => Err(Failure::fixed("call_ktool.arguments must be an object")),
    }
}

/// A list is read item by item: it reads where each item does, to as many values, each
/// at the place of its item.
pub proof fn lists_are_read_item_by_item<T>(
    items: Seq<JsonView>,
    read: spec_fn(JsonView) -> Result<T, Seq<char>>,
)
    ensures
        collected(items, read) is Ok <==> forall|i: int|
            0 <= i < items.len() ==> read(#[trigger] items[i]) is Ok,
        collected(items, read) is Ok ==> collected(items, read)->Ok_0.len() == items.len() && forall|
            i: int,
        |
            0 <= i < items.len() ==> read(items[i]) == Ok::<T, Seq<char>>(
                #[trigger] collected(items, read)->Ok_0[i],
            ),
    decreases items.len(),
{
    if items.len() > 0 {
        let rest = items.drop_last();
        lists_are_read_item_by_item(rest, read);
        if collected(rest, read) is Ok {
            assert forall|i: int| 0 <= i < rest.len() implies read(#[trigger] items[i]) is Ok by {
                assert(rest[i] == items[i]);
            }
        } else {
            let k = choose|i: int| 0 <= i < rest.len() && !(read(#[trigger] rest[i]) is Ok);
            assert(items[k] == rest[k]);
        }
        assert(items[items.len() - 1] == items.last());
        if collected(items, read) is Ok {
            let all = collected(items, read)->Ok_0;
            assert forall|i: int| 0 <= i < items.len() implies read(items[i]) == Ok::<
                T,
                Seq<char>,
            >(#[trigger] all[i]) by {
                if i < rest.len() {
                    assert(rest[i] == items[i]);
                    assert(collected(rest, read)->Ok_0[i] == all[i]);
                }
            }
        }
    }
}

/// A node identifier that is taken is the text that was given.
pub proof fn identifiers_are_taken_as_given(value: JsonView, key: Seq<char>, readings: ReadingsView)
    ensures
        resource_of(value, key, readings) is Ok ==> value.text_at(key) == Some(
            resource_of(value, key, readings)->Ok_0,
        ),
        value.text_at(key) == Some("self"@) ==> resource_of(value, key, readings) is Ok,
        value.text_at(key) == Some("unowned"@) ==> resource_of(value, key, readings) is Ok,
        value.text_at(key) is Some && readings.nodes.contains_key(value.text_at(key)->0)
            && !text::begins(value.text_at(key)->0, "pending:"@) ==> resource_of(
            value,
            key,
            readings,
        ) is Ok,
        value.text_at(key) is None ==> resource_of(value, key, readings) is Err,
{
    reveal_strlit("self");
    reveal_strlit("unowned");
    reveal_strlit("pending:");
    assert("self"@.len() == 4 && "unowned"@.len() == 7 && "pending:"@.len() == 8);
}

/// A list of node identifiers that is taken holds the texts that were given, at their
/// places: at least as many as asked for, and none twice.
pub proof fn identifier_lists_are_taken_as_given(
    value: JsonView,
    key: Seq<char>,
    minimum: nat,
    readings: ReadingsView,
)
    requires
        resources_of(value, key, minimum, readings) is Ok,
    ensures
        ({
            let ids = resources_of(value, key, minimum, readings)->Ok_0;
            &&& value.array_at(key) is Some
            &&& value.array_at(key)->0.len() == ids.len() >= minimum
            &&& ids.no_duplicates()
            &&& forall|i: int|
                0 <= i < ids.len() ==> value.array_at(key)->0[i].as_text() == Some(
                    #[trigger] ids[i],
                )
        }),
{
    let items = value.array_at(key)->0;
    let read = resource_entry(readings);
    lists_are_read_item_by_item(items, read);
    let ids = resources_of(value, key, minimum, readings)->Ok_0;
    assert forall|i: int| 0 <= i < ids.len() implies items[i].as_text() == Some(
        #[trigger] ids[i],
    ) by {
        assert(read(items[i]) == Ok::<Seq<char>, Seq<char>>(collected(items, read)->Ok_0[i]));
    }
}

/// The texts of a node are taken as they were given.
pub proof fn node_texts_are_taken_as_given(
    value: JsonView,
    short_name_key: Seq<char>,
    short_description_key: Seq<char>,
    long_description_key: Seq<char>,
)
    ensures
        match node_texts(value, short_name_key, short_description_key, long_description_key) {
            Ok((name, short, long)) => {
                &&& value.text_at(short_name_key) == Some(name)
                &&& value.text_at(short_description_key) == Some(short)
                &&& value.text_at(long_description_key) == Some(long)
            },
            Err(_) => true,
        },
{
}

/// The texts of a node are taken where its name has from four to fifty characters, and
/// its descriptions no more than two hundred and five thousand.
pub proof fn node_texts_are_bounded(
    value: JsonView,
    name: Seq<char>,
    short: Seq<char>,
    long: Seq<char>,
    short_name_key: Seq<char>,
    short_description_key: Seq<char>,
    long_description_key: Seq<char>,
)
    requires
        value.text_at(short_name_key) == Some(name),
        value.text_at(short_description_key) == Some(short),
        value.text_at(long_description_key) == Some(long),
    ensures
        node_texts(value, short_name_key, short_description_key, long_description_key) is Ok <==> 4
            <= name.len() <= 50 && short.len() <= 200 && long.len() <= 5000,
{
}

/// A text that must not be empty is taken without the white space around it, where
/// something of it is left, and no more than allowed; one that is kept whole, as it is.
pub proof fn texts_are_taken_within_bounds(
    value: JsonView,
    key: Seq<char>,
    maximum: nat,
    lead: Seq<char>,
    inner: Seq<char>,
    tail: Seq<char>,
)
    requires
        forall|i: int| 0 <= i < lead.len() ==> text::is_space(#[trigger] lead[i]),
        forall|i: int| 0 <= i < tail.len() ==> text::is_space(#[trigger] tail[i]),
        inner.len() > 0 ==> !text::is_space(inner[0]) && !text::is_space(inner.last()),
        value.text_at(key) == Some(lead + inner + tail),
    ensures
        0 < inner.len() <= maximum ==> nonempty(value, key, maximum) == Ok::<Seq<char>, Seq<char>>(
            inner,
        ),
        !(0 < inner.len() <= maximum) ==> nonempty(value, key, maximum) is Err,
        0 < inner.len() && (lead + inner + tail).len() <= maximum ==> bounded_nonempty(
            value,
            key,
            maximum,
        ) == Ok::<Seq<char>, Seq<char>>(lead + inner + tail),
        inner.len() == 0 || (lead + inner + tail).len() > maximum ==> bounded_nonempty(
            value,
            key,
            maximum,
        ) is Err,
{
    text::trimming_takes_outer_space(lead, inner, tail);
}

/// A number that is taken is the one that was given, and is above zero.
pub proof fn positive_numbers_are_taken(value: JsonView, key: Seq<char>, number: int)
    ensures
        value.get(key) == Some(JsonView::Integer(number)) && 0 < number <= u64::MAX ==> positive(
            value,
            key,
        ) == Ok::<u64, Seq<char>>(number as u64),
        value.get(key) == Some(JsonView::Integer(number)) && number <= 0 ==> positive(value, key)
            is Err,
        value.get(key) is None ==> positive(value, key) is Err,
{
}

/// The boxes that are taken are those that were given, at their places, without
/// repetition.
pub proof fn boxes_are_taken_as_given(value: JsonView, key: Seq<char>)
    requires
        box_ids(value, key) is Ok,
    ensures
        ({
            let ids = box_ids(value, key)->Ok_0;
            &&& value.array_at(key) is Some
            &&& value.array_at(key)->0.len() == ids.len() > 0
            &&& ids.no_duplicates()
            &&& forall|i: int|
                0 <= i < ids.len() ==> value.array_at(key)->0[i] == JsonView::Integer(
                    #[trigger] ids[i] as int,
                ) && ids[i] > 0
        }),
{
    let items = value.array_at(key)->0;
    let read = box_entry(key);
    lists_are_read_item_by_item(items, read);
    let ids = box_ids(value, key)->Ok_0;
    assert forall|i: int| 0 <= i < ids.len() implies items[i] == JsonView::Integer(
        #[trigger] ids[i] as int,
    ) && ids[i] > 0 by {
        assert(read(items[i]) == Ok::<u64, Seq<char>>(collected(items, read)->Ok_0[i]));
    }
}

/// The nodes that are taken are those that were given, at their places, without
/// repetition, and each is one that reads as a node's identity.
pub proof fn nodes_are_taken_as_given(value: JsonView, key: Seq<char>, readings: ReadingsView)
    requires
        node_ids(value, key, readings) is Ok,
    ensures
        ({
            let ids = node_ids(value, key, readings)->Ok_0;
            &&& value.array_at(key) is Some
            &&& value.array_at(key)->0.len() == ids.len()
            &&& ids.no_duplicates()
            &&& forall|i: int|
                0 <= i < ids.len() ==> value.array_at(key)->0[i] == JsonView::Text(
                    #[trigger] ids[i],
                ) && readings.nodes.contains_key(ids[i])
        }),
        forall|maximum: nat|
            node_ids(value, key, readings)->Ok_0.len() <= maximum <==> #[trigger] bounded_node_ids(
                value,
                key,
                maximum,
                readings,
            ) == node_ids(value, key, readings),
        some_node_ids(value, key, readings) is Ok <==> node_ids(value, key, readings)->Ok_0.len()
            > 0,
{
    let items = value.array_at(key)->0;
    let read = node_entry(key, readings);
    lists_are_read_item_by_item(items, read);
    let ids = node_ids(value, key, readings)->Ok_0;
    assert forall|i: int| 0 <= i < ids.len() implies items[i] == JsonView::Text(#[trigger] ids[i])
        && readings.nodes.contains_key(ids[i]) by {
        assert(read(items[i]) == Ok::<Seq<char>, Seq<char>>(collected(items, read)->Ok_0[i]));
    }
}

/// Arguments have the right shape where they are an object with every required member and
/// no member that is neither required nor optional.
pub proof fn arguments_have_exactly_their_members(
    value: JsonView,
    required: Seq<Seq<char>>,
    optional: Seq<Seq<char>>,
    key: Seq<char>,
)
    ensures
        shape(value, required, optional) is Ok ==> {
            &&& value is Object
            &&& required.contains(key) ==> value.get(key) is Some
            &&& value.get(key) is Some ==> required.contains(key) || optional.contains(key)
        },
        shape(value, required, optional) is Err && value is Object ==> exists|name: Seq<char>|
            #![trigger value.get(name)]
            required.contains(name) && value.get(name) is None || value.get(name) is Some
                && !required.contains(name) && !optional.contains(name),
{
    if shape(value, required, optional) is Ok {
        if required.contains(key) {
            let i = required.index_of(key);
            assert(value->Object_0.contains_key(required[i]));
        }
    } else if value is Object {
        let members = value->Object_0;
        if exists|i: int| 0 <= i < required.len() && !members.contains_key(#[trigger] required[i]) {
            let i = choose|i: int|
                0 <= i < required.len() && !members.contains_key(#[trigger] required[i]);
            assert(value.get(required[i]) is None);
            assert(required.contains(required[i]));
        } else {
            let name = choose|name: Seq<char>| #[trigger]
                members.contains_key(name) && !required.contains(name) && !optional.contains(name);
            assert(value.get(name) is Some);
        }
    }
}

/// The objects that are taken are those that were given, at their places and as they
/// stand there; none where none were given. None is blank or over 64 characters long.
pub proof fn objects_are_taken_as_given(value: JsonView, key: Seq<char>, maximum: nat, i: int)
    requires
        object_ids(value, key, maximum) is Ok,
    ensures
        ({
            let ids = object_ids(value, key, maximum)->Ok_0;
            &&& value.get(key) is None ==> ids.len() == 0
            &&& ids.no_duplicates()
            &&& value.get(key) is Some ==> {
                &&& value.array_at(key) is Some
                &&& value.array_at(key)->0.len() == ids.len() <= maximum
                &&& 0 <= i < ids.len() ==> object_entry(key)(value.array_at(key)->0[i]) == Ok::<
                    Seq<char>,
                    Seq<char>,
                >(ids[i])
                &&& 0 <= i < ids.len() ==> value.array_at(key)->0[i].as_text() == Some(ids[i])
                &&& 0 <= i < ids.len() ==> !text::blank(ids[i]) && ids[i].len() <= 64
            }
        }),
{
    if value.get(key) is Some {
        let items = value.array_at(key)->0;
        lists_are_read_item_by_item(items, object_entry(key));
        let ids = object_ids(value, key, maximum)->Ok_0;
        if 0 <= i < ids.len() {
            assert(object_entry(key)(items[i]) == Ok::<Seq<char>, Seq<char>>(
                collected(items, object_entry(key))->Ok_0[i],
            ));
        }
    }
}

/// The object of a library attachment is the one that was named, unless that is blank.
pub proof fn library_objects_are_named(arguments: JsonView)
    ensures
        library_object_id(arguments) is Ok <==> arguments.text_at("objectId"@) is Some
            && !text::blank(arguments.text_at("objectId"@)->0),
        library_object_id(arguments) is Ok ==> arguments.text_at("objectId"@) == Some(
            library_object_id(arguments)->Ok_0,
        ),
{
}

/// A provider's call is taken where it is of the one tool that it has, its name is neither
/// blank nor over a hundred characters long and its arguments are an object: the tool's
/// name comes without the white space around it, and the arguments come as they are.
pub proof fn provider_calls_name_their_tool(
    tool: Seq<char>,
    lead: Seq<char>,
    name: Seq<char>,
    tail: Seq<char>,
    inner: JsonView,
)
    requires
        forall|i: int| 0 <= i < lead.len() ==> text::is_space(#[trigger] lead[i]),
        forall|i: int| 0 <= i < tail.len() ==> text::is_space(#[trigger] tail[i]),
        name.len() > 0 ==> !text::is_space(name[0]) && !text::is_space(name.last()),
    ensures
        ({
            let given = JsonView::Object(Map::empty()).with(
                "name"@,
                JsonView::Text(lead + name + tail),
            ).with("arguments"@, inner);
            let taken = ktool_call(tool, given);
            &&& tool == "call_ktool"@ && 0 < name.len() <= 100 && inner is Object ==> taken == Ok::<
                (Seq<char>, JsonView),
                Seq<char>,
            >((name, inner))
            &&& tool != "call_ktool"@ || !(0 < name.len() <= 100) || !(inner is Object) ==> taken
                is Err
        }),
{
    reveal_strlit("name");
    reveal_strlit("arguments");
    assert("name"@.len() == 4 && "arguments"@.len() == 9);
    let given = JsonView::Object(Map::empty()).with("name"@, JsonView::Text(lead + name + tail)).with(
        "arguments"@,
        inner,
    );
    let required = seq!["name"@, "arguments"@];
    assert(given.text_at("name"@) == Some(lead + name + tail));
    texts_are_taken_within_bounds(given, "name"@, 100, lead, name, tail);
    assert(required[0] == "name"@ && required[1] == "arguments"@);
    assert(required.contains("name"@) && required.contains("arguments"@));
    assert(shape(given, required, Seq::empty()) is Ok);
}

/// The objects that a binary is handed are those that its call lists, one by one and in
/// order, and none where it lists none.
pub proof fn binaries_take_the_objects_listed(arguments: JsonView)
    ensures
        arguments.get("objectIds"@) is None ==> binary_object_ids(arguments) == Ok::<
            Seq<Seq<char>>,
            Seq<char>,
        >(Seq::empty()),
        binary_object_ids(arguments) is Ok && arguments.get("objectIds"@) is Some ==> {
            let items = arguments.array_at("objectIds"@);
            let taken = binary_object_ids(arguments)->Ok_0;
            &&& items is Some && items->0.len() == taken.len()
            &&& forall|i: int|
                0 <= i < taken.len() ==> items->0[i].as_text() == Some(#[trigger] taken[i])
        },
        binary_object_ids(arguments) is Err && arguments.array_at("objectIds"@) is Some ==> exists|
            i: int,
        |
            0 <= i < arguments.array_at("objectIds"@)->0.len() && !((
            #[trigger] arguments.array_at("objectIds"@)->0[i]) is Text),
{
    if arguments.array_at("objectIds"@) is Some {
        let items = arguments.array_at("objectIds"@)->0;
        let read = binary_object_entry();
        lists_are_read_item_by_item(items, read);
        if binary_object_ids(arguments) is Ok {
            let taken = binary_object_ids(arguments)->Ok_0;
            assert forall|i: int| 0 <= i < taken.len() implies items[i].as_text() == Some(
                #[trigger] taken[i],
            ) by {
                assert(read(items[i]) == Ok::<Seq<char>, Seq<char>>(collected(items, read)->Ok_0[i]));
            }
        }
    }
}

/// A list of distinct boxes is taken, unless it is empty.
pub proof fn distinct_boxes_are_taken(value: JsonView, key: Seq<char>, ids: Seq<u64>)
    requires
        value.array_at(key) == Some(ids.map_values(|id: u64| JsonView::Integer(id as int))),
        forall|i: int| 0 <= i < ids.len() ==> #[trigger] ids[i] > 0,
    ensures
        ids.len() > 0 && ids.no_duplicates() ==> box_ids(value, key) == Ok::<Seq<u64>, Seq<char>>(
            ids,
        ),
        ids.len() == 0 || !ids.no_duplicates() ==> box_ids(value, key) is Err,
{
    let items = value.array_at(key)->0;
    let read = box_entry(key);
    lists_are_read_item_by_item(items, read);
    assert forall|i: int| 0 <= i < items.len() implies read(#[trigger] items[i]) == Ok::<
        u64,
        Seq<char>,
    >(ids[i]) by {
        assert(items[i] == JsonView::Integer(ids[i] as int));
    }
    assert forall|i: int| 0 <= i < ids.len() implies collected(items, read)->Ok_0[i] == ids[i] by {
        assert(read(items[i]) == Ok::<u64, Seq<char>>(collected(items, read)->Ok_0[i]));
    }
    assert(collected(items, read)->Ok_0 =~= ids);
}

/// A list of distinct nodes is taken where each of them reads as a node.
pub proof fn distinct_nodes_are_taken(
    value: JsonView,
    key: Seq<char>,
    ids: Seq<Seq<char>>,
    maximum: nat,
    readings: ReadingsView,
)
    requires
        value.array_at(key) == Some(ids.map_values(|id: Seq<char>| JsonView::Text(id))),
        forall|i: int| 0 <= i < ids.len() ==> readings.node(#[trigger] ids[i]) is Some,
    ensures
        ids.no_duplicates() ==> node_ids(value, key, readings) == Ok::<Seq<Seq<char>>, Seq<char>>(
            ids,
        ),
        !ids.no_duplicates() ==> node_ids(value, key, readings) is Err,
        ids.no_duplicates() && ids.len() > 0 ==> some_node_ids(value, key, readings) == Ok::<
            Seq<Seq<char>>,
            Seq<char>,
        >(ids),
        ids.len() == 0 ==> some_node_ids(value, key, readings) is Err,
        ids.no_duplicates() && ids.len() <= maximum ==> bounded_node_ids(
            value,
            key,
            maximum,
            readings,
        ) == Ok::<Seq<Seq<char>>, Seq<char>>(ids),
        ids.len() > maximum ==> bounded_node_ids(value, key, maximum, readings) is Err,
{
    let items = value.array_at(key)->0;
    let read = node_entry(key, readings);
    lists_are_read_item_by_item(items, read);
    assert forall|i: int| 0 <= i < items.len() implies read(#[trigger] items[i]) == Ok::<
        Seq<char>,
        Seq<char>,
    >(ids[i]) by {
        assert(items[i] == JsonView::Text(ids[i]));
    }
    assert forall|i: int| 0 <= i < ids.len() implies collected(items, read)->Ok_0[i] == ids[i] by {
        assert(read(items[i]) == Ok::<Seq<char>, Seq<char>>(collected(items, read)->Ok_0[i]));
    }
    assert(collected(items, read)->Ok_0 =~= ids);
}

/// A list of distinct identifiers is taken where it is long enough and each of them may
/// stand for a node.
pub proof fn distinct_identifiers_are_taken(
    value: JsonView,
    key: Seq<char>,
    ids: Seq<Seq<char>>,
    minimum: nat,
    readings: ReadingsView,
)
    requires
        value.array_at(key) == Some(ids.map_values(|id: Seq<char>| JsonView::Text(id))),
        forall|i: int|
            0 <= i < ids.len() ==> readings.resource(#[trigger] ids[i]) == Ok::<
                Seq<char>,
                Seq<char>,
            >(ids[i]),
    ensures
        ids.no_duplicates() && ids.len() >= minimum ==> resources_of(value, key, minimum, readings)
            == Ok::<Seq<Seq<char>>, Seq<char>>(ids),
        !ids.no_duplicates() || ids.len() < minimum ==> resources_of(value, key, minimum, readings)
            is Err,
{
    let items = value.array_at(key)->0;
    let read = resource_entry(readings);
    lists_are_read_item_by_item(items, read);
    assert forall|i: int| 0 <= i < items.len() implies read(#[trigger] items[i]) == Ok::<
        Seq<char>,
        Seq<char>,
    >(ids[i]) by {
        assert(items[i] == JsonView::Text(ids[i]));
        assert(readings.resource(ids[i]) == Ok::<Seq<char>, Seq<char>>(ids[i]));
    }
    assert forall|i: int| 0 <= i < ids.len() implies collected(items, read)->Ok_0[i] == ids[i] by {
        assert(read(items[i]) == Ok::<Seq<char>, Seq<char>>(collected(items, read)->Ok_0[i]));
    }
    assert(collected(items, read)->Ok_0 =~= ids);
}

/// A list of distinct objects is taken where none is blank or too long, up to as many as
/// may be given.
pub proof fn distinct_objects_are_taken(
    value: JsonView,
    key: Seq<char>,
    ids: Seq<Seq<char>>,
    maximum: nat,
)
    requires
        value.array_at(key) == Some(ids.map_values(|id: Seq<char>| JsonView::Text(id))),
        forall|i: int|
            0 <= i < ids.len() ==> !text::blank(#[trigger] ids[i]) && ids[i].len() <= 64,
    ensures
        ids.no_duplicates() && ids.len() <= maximum ==> object_ids(value, key, maximum) == Ok::<
            Seq<Seq<char>>,
            Seq<char>,
        >(ids),
        !ids.no_duplicates() || ids.len() > maximum ==> object_ids(value, key, maximum) is Err,
{
    let items = value.array_at(key)->0;
    let read = object_entry(key);
    lists_are_read_item_by_item(items, read);
    assert forall|i: int| 0 <= i < items.len() implies read(#[trigger] items[i]) == Ok::<
        Seq<char>,
        Seq<char>,
    >(ids[i]) by {
        assert(items[i] == JsonView::Text(ids[i]));
        assert(!text::blank(ids[i]));
    }
    assert forall|i: int| 0 <= i < ids.len() implies collected(items, read)->Ok_0[i] == ids[i] by {
        assert(read(items[i]) == Ok::<Seq<char>, Seq<char>>(collected(items, read)->Ok_0[i]));
    }
    assert(collected(items, read)->Ok_0 =~= ids);
}

} // verus!
