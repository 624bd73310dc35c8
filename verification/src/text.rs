//! Character-level string operations and their mathematical meaning.
//!
//! Every function here works on the sequence of Unicode scalar values of a
//! string; the specifications are plain functions on `Seq<char>`.

use vstd::prelude::*;

verus! {

/// `String::push` appends one character.
pub assume_specification[ std::string::String::push ](s: &mut String, c: char)
    ensures
        final(s)@ == old(s)@.push(c),
;

/// `str` equality compares the two character sequences.
pub assume_specification[ <str as PartialEq>::eq ](s: &str, other: &str) -> (same: bool)
    ensures
        same == (s@ == other@),
;

/// A message describing why a request was refused.
#[derive(Debug)]
pub struct Failure {
    pub message: String,
}

impl View for Failure {
    type V = Seq<char>;

    open spec fn view(&self) -> Seq<char> {
        self.message@
    }
}

impl Failure {
    /// A refusal that carries `message`.
    pub fn new(message: String) -> (failure: Failure)
        ensures
            failure@ == message@,
    {
        Failure { message }
    }

    /// A refusal that carries a fixed text.
    pub fn fixed(message: &str) -> (failure: Failure)
        ensures
            failure@ == message@,
    {
        Failure { message: message.to_owned() }
    }
}

/// The mathematical value of an outcome: the value's deep view, or the message.
pub open spec fn seen<T: DeepView>(outcome: Result<T, Failure>) -> Result<T::V, Seq<char>> {
    match outcome {
        Ok(value) => Ok(value.deep_view()),
        Err(failure) => Err(failure@),
    }
}

/// The character sequences of a list of strings.
pub open spec fn views(texts: Seq<&str>) -> Seq<Seq<char>> {
    Seq::new(texts.len(), |i: int| texts[i]@)
}

/// The characters of `text`, in order.
pub fn chars_of(text: &str) -> (chars: Vec<char>)
    ensures
        chars@ == text@,
{
    let mut chars: Vec<char> = Vec::new();
    for character in walk: text.chars()
        invariant
            chars@ == walk.seq().take(walk.index() as int),
            walk.seq() == text@,
    {
        chars.push(character);
    }
    assert(text@.take(text@.len() as int) =~= text@);
    chars
}

/// Unicode `White_Space`.
#[verifier::opaque]
pub open spec fn is_space(c: char) -> bool {
    ||| 0x9 <= c as u32 <= 0xd
    ||| c as u32 == 0x20
    ||| c as u32 == 0x85
    ||| c as u32 == 0xa0
    ||| c as u32 == 0x1680
    ||| 0x2000 <= c as u32 <= 0x200a
    ||| c as u32 == 0x2028
    ||| c as u32 == 0x2029
    ||| c as u32 == 0x202f
    ||| c as u32 == 0x205f
    ||| c as u32 == 0x3000
}

/// Whether `c` is Unicode white space.
pub fn space(c: char) -> (yes: bool)
    ensures
        yes == is_space(c),
{
    reveal(is_space);
    let code: u32 = c as u32;
    (0x9 <= code && code <= 0xd) || code == 0x20 || code == 0x85 || code == 0xa0 || code == 0x1680
        || (0x2000 <= code && code <= 0x200a) || code == 0x2028 || code == 0x2029 || code == 0x202f
        || code == 0x205f || code == 0x3000
}

/// `text` without its leading and trailing white space.
pub open spec fn trimmed(text: Seq<char>) -> Seq<char>
    decreases text.len(),
{
    if text.len() == 0 {
        text
    } else if is_space(text[0]) {
        trimmed(text.drop_first())
    } else if is_space(text.last()) {
        trimmed(text.drop_last())
    } else {
        text
    }
}

/// Whether `text` is empty or all white space.
pub open spec fn blank(text: Seq<char>) -> bool {
    trimmed(text).len() == 0
}

/// The part of `text` between its outermost non-space characters.
pub fn trim<'a>(text: &'a str) -> (inner: &'a str)
    ensures
        inner@ == trimmed(text@),
{
    let chars = chars_of(text);
    let length: usize = chars.len();
    let mut start: usize = 0;
    proof {
        assert(text@.subrange(0, length as int) =~= text@);
    }
    while start < length && space(chars[start])
        invariant
            start <= length == chars.len(),
            chars@ == text@,
            trimmed(text@) == trimmed(text@.subrange(start as int, length as int)),
        decreases length - start,
    {
        proof {
            let here = text@.subrange(start as int, length as int);
            assert(here.drop_first() =~= text@.subrange(start + 1, length as int));
        }
        start = start + 1;
    }
    let mut end: usize = length;
    while end > start && space(chars[end - 1])
        invariant
            start <= end <= length == chars.len(),
            chars@ == text@,
            start < length ==> !is_space(text@[start as int]),
            trimmed(text@) == trimmed(text@.subrange(start as int, end as int)),
        decreases end,
    {
        proof {
            let here = text@.subrange(start as int, end as int);
            assert(here.drop_last() =~= text@.subrange(start as int, end - 1));
        }
        end = end - 1;
    }
    text.substring_char(start, end)
}

/// Whether `text` holds nothing but white space.
pub fn is_blank(text: &str) -> (yes: bool)
    ensures
        yes == blank(text@),
{
    trim(text).is_empty()
}

/// The text `{:?}` gives for a string: quotes around it, and escapes inside.
pub uninterp spec fn debug_quoted(text: Seq<char>) -> Seq<char>;

/// `format!("{:?}")` on a `str` (its `Debug` rendering).
#[verifier::external_body]
pub(crate) fn quoted(text: &str) -> (rendered: String)
    ensures
        rendered@ == debug_quoted(text@),
{
    format!("{:?}", text)
}

/// `part` stands in `text` from position `i` on.
pub open spec fn occurs_at(text: Seq<char>, part: Seq<char>, i: int) -> bool {
    0 <= i && i + part.len() <= text.len() && text.subrange(i, i + part.len()) == part
}

/// `text` begins with `part`.
pub open spec fn begins(text: Seq<char>, part: Seq<char>) -> bool {
    occurs_at(text, part, 0)
}

/// `text` ends with `part`.
pub open spec fn ends(text: Seq<char>, part: Seq<char>) -> bool {
    occurs_at(text, part, text.len() - part.len())
}

/// The first position at or after `i` where `part` stands in `text`.
pub open spec fn find_from(text: Seq<char>, part: Seq<char>, i: int) -> Option<int>
    decreases text.len() - i + 1,
{
    if i + part.len() > text.len() {
        None
    } else if occurs_at(text, part, i) {
        Some(i)
    } else {
        find_from(text, part, i + 1)
    }
}

/// The first position where `part` stands in `text`.
pub open spec fn found(text: Seq<char>, part: Seq<char>) -> Option<int> {
    find_from(text, part, 0)
}

/// The last position at or before `i` where `part` stands in `text`.
pub open spec fn find_back(text: Seq<char>, part: Seq<char>, i: int) -> Option<int>
    decreases i + 1,
{
    if i < 0 {
        None
    } else if occurs_at(text, part, i) {
        Some(i)
    } else {
        find_back(text, part, i - 1)
    }
}

/// The last position where `part` stands in `text`.
pub open spec fn found_last(text: Seq<char>, part: Seq<char>) -> Option<int> {
    find_back(text, part, text.len() - part.len())
}

/// A search that succeeds gives a place where `part` stands, with none before it;
/// one that fails means that `part` stands nowhere from `i` on.
pub proof fn find_from_is_first(text: Seq<char>, part: Seq<char>, i: int)
    requires
        0 <= i,
    ensures
        match find_from(text, part, i) {
            Some(at) => {
                &&& i <= at
                &&& occurs_at(text, part, at)
                &&& forall|j: int| i <= j < at ==> !occurs_at(text, part, j)
            },
            None => forall|j: int| i <= j ==> !occurs_at(text, part, j),
        },
    decreases text.len() - i + 1,
{
    if i + part.len() <= text.len() && !occurs_at(text, part, i) {
        find_from_is_first(text, part, i + 1);
    }
}

/// The last position found is one where `part` stands.
pub proof fn find_back_occurs(text: Seq<char>, part: Seq<char>, i: int)
    ensures
        match find_back(text, part, i) {
            Some(at) => 0 <= at <= i && occurs_at(text, part, at),
            None => true,
        },
    decreases i + 1,
{
    if i >= 0 && !occurs_at(text, part, i) {
        find_back_occurs(text, part, i - 1);
    }
}

/// Whether `part` stands in `text` at position `at`.
pub fn stands_at(text: &Vec<char>, part: &Vec<char>, at: usize) -> (yes: bool)
    ensures
        yes == occurs_at(text@, part@, at as int),
{
    if at > text.len() || part.len() > text.len() - at {
        return false;
    }
    let mut i: usize = 0;
    while i < part.len()
        invariant
            i <= part.len(),
            at + part.len() <= text.len(),
            forall|j: int| 0 <= j < i ==> text@[at + j] == part@[j],
        decreases part.len() - i,
    {
        if text[at + i] != part[i] {
            assert(text@.subrange(at as int, at + part.len())[i as int] != part@[i as int]);
            return false;
        }
        i = i + 1;
    }
    assert(text@.subrange(at as int, at + part.len()) =~= part@);
    true
}

/// Whether `text` begins with `part`.
pub fn starts_with(text: &str, part: &str) -> (yes: bool)
    ensures
        yes == begins(text@, part@),
{
    stands_at(&chars_of(text), &chars_of(part), 0)
}

/// Whether `text` ends with `part`.
pub fn ends_with(text: &str, part: &str) -> (yes: bool)
    ensures
        yes == ends(text@, part@),
{
    let whole = chars_of(text);
    let piece = chars_of(part);
    if piece.len() > whole.len() {
        return false;
    }
    stands_at(&whole, &piece, whole.len() - piece.len())
}

/// The first position of `part` in `text`, in characters.
pub fn find(text: &str, part: &str) -> (place: Option<usize>)
    ensures
        place is Some == found(text@, part@) is Some,
        place is Some ==> place->0 as int == found(text@, part@)->0 && place->0 + part@.len()
            <= text@.len(),
{
    let whole = chars_of(text);
    let piece = chars_of(part);
    if piece.len() > whole.len() {
        return None;
    }
    let last: usize = whole.len() - piece.len();
    let mut i: usize = 0;
    while i <= last
        invariant
            whole@ == text@,
            piece@ == part@,
            last + piece.len() == whole.len(),
            i <= last + 1,
            found(text@, part@) == find_from(text@, part@, i as int),
        decreases last + 1 - i,
    {
        if stands_at(&whole, &piece, i) {
            return Some(i);
        }
        if i == last {
            assert(find_from(text@, part@, i + 1) is None);
            return None;
        }
        i = i + 1;
    }
    None
}

/// The last position of `part` in `text`, in characters.
pub fn rfind(text: &str, part: &str) -> (place: Option<usize>)
    ensures
        place is Some == found_last(text@, part@) is Some,
        place is Some ==> place->0 as int == found_last(text@, part@)->0 && place->0 + part@.len()
            <= text@.len(),
{
    let whole = chars_of(text);
    let piece = chars_of(part);
    if piece.len() > whole.len() {
        return None;
    }
    let mut i: usize = whole.len() - piece.len();
    loop
        invariant
            whole@ == text@,
            piece@ == part@,
            i + piece.len() <= whole.len(),
            found_last(text@, part@) == find_back(text@, part@, i as int),
        decreases i,
    {
        if stands_at(&whole, &piece, i) {
            return Some(i);
        }
        if i == 0 {
            assert(find_back(text@, part@, -1) is None);
            return None;
        }
        i = i - 1;
    }
}

/// Whether `part` stands anywhere in `text`.
pub fn contains(text: &str, part: &str) -> (yes: bool)
    ensures
        yes == (found(text@, part@) is Some),
{
    find(text, part).is_some()
}

/// `c` with an ASCII capital turned into its small letter.
pub open spec fn lower_char(c: char) -> char {
    if 'A' as u32 <= c as u32 <= 'Z' as u32 {
        (c as u32 + 32) as char
    } else {
        c
    }
}

/// `text` with every ASCII capital turned into its small letter.
pub open spec fn lowered(text: Seq<char>) -> Seq<char> {
    Seq::new(text.len(), |i: int| lower_char(text[i]))
}

/// `text` with every ASCII capital turned into its small letter.
pub fn lower(text: &str) -> (result: String)
    ensures
        result@ == lowered(text@),
{
    let mut result = String::new();
    for c in walk: text.chars()
        invariant
            walk.seq() == text@,
            result@ == lowered(text@).take(walk.index() as int),
    {
        let ghost at = walk.index() as int;
        let code: u32 = c as u32;
        if 65 <= code && code <= 90 {
            result.push(((code as u8) + 32) as char);
        } else {
            result.push(c);
        }
        assert(lowered(text@).take(at + 1) =~= lowered(text@).take(at).push(lowered(text@)[at]));
    }
    assert(lowered(text@).take(text@.len() as int) =~= lowered(text@));
    result
}

/// `text` with every `from` turned into `to`.
pub open spec fn replaced(text: Seq<char>, from: char, to: char) -> Seq<char> {
    Seq::new(text.len(), |i: int| if text[i] == from { to } else { text[i] })
}

/// `text` with every `from` turned into `to`.
pub fn replace(text: &str, from: char, to: char) -> (result: String)
    ensures
        result@ == replaced(text@, from, to),
{
    let mut result = String::new();
    let ghost all = replaced(text@, from, to);
    for c in walk: text.chars()
        invariant
            walk.seq() == text@,
            all == replaced(text@, from, to),
            result@ == all.take(walk.index() as int),
    {
        let ghost at = walk.index() as int;
        if c == from {
            result.push(to);
        } else {
            result.push(c);
        }
        assert(all.take(at + 1) =~= all.take(at).push(all[at]));
    }
    assert(all.take(text@.len() as int) =~= all);
    result
}

/// A text from a place on, with every occurrence of a part replaced, from left to right.
pub open spec fn substituted_from(
    text: Seq<char>,
    part: Seq<char>,
    other: Seq<char>,
    i: int,
) -> Seq<char>
    decreases text.len() - i,
{
    if i >= text.len() {
        Seq::empty()
    } else if part.len() > 0 && occurs_at(text, part, i) {
        other + substituted_from(text, part, other, i + part.len())
    } else {
        seq![text[i]] + substituted_from(text, part, other, i + 1)
    }
}

/// A text with every occurrence of a part replaced.
pub fn substitute(text: &str, part: &str, other: &str) -> (result: String)
    requires
        part@.len() > 0,
    ensures
        result@ == substituted_from(text@, part@, other@, 0),
{
    let whole = chars_of(text);
    let piece = chars_of(part);
    let mut result = String::new();
    let mut i: usize = 0;
    assert(result@ + substituted_from(text@, part@, other@, 0) =~= substituted_from(
        text@,
        part@,
        other@,
        0,
    ));
    while i < whole.len()
        invariant
            whole@ == text@,
            piece@ == part@,
            part@.len() > 0,
            i <= whole.len(),
            result@ + substituted_from(text@, part@, other@, i as int) == substituted_from(
                text@,
                part@,
                other@,
                0,
            ),
        decreases whole.len() - i,
    {
        let ghost before = result@;
        if stands_at(&whole, &piece, i) {
            result.append(other);
            assert(before + (other@ + substituted_from(text@, part@, other@, i + part@.len()))
                =~= result@ + substituted_from(text@, part@, other@, i + part@.len()));
            i = i + piece.len();
        } else {
            result.push(whole[i]);
            assert(before + (seq![text@[i as int]] + substituted_from(text@, part@, other@, i + 1))
                =~= result@ + substituted_from(text@, part@, other@, i + 1));
            i = i + 1;
        }
    }
    assert(result@ + Seq::<char>::empty() =~= result@);
    result
}

/// The parts with `separator` between neighbours.
pub open spec fn joined(parts: Seq<Seq<char>>, separator: Seq<char>) -> Seq<char>
    decreases parts.len(),
{
    if parts.len() == 0 {
        Seq::empty()
    } else if parts.len() == 1 {
        parts[0]
    } else {
        joined(parts.drop_last(), separator) + separator + parts.last()
    }
}

/// The parts with `separator` between neighbours.
pub fn join(parts: &Vec<String>, separator: &str) -> (result: String)
    ensures
        result@ == joined(parts.deep_view(), separator@),
{
    let mut result = String::new();
    let ghost views = parts.deep_view();
    let mut i: usize = 0;
    while i < parts.len()
        invariant
            i <= parts.len(),
            views == parts.deep_view(),
            result@ == joined(views.take(i as int), separator@),
        decreases parts.len() - i,
    {
        let ghost before = views.take(i as int);
        let ghost upto = views.take(i + 1);
        assert(upto.drop_last() =~= before);
        assert(upto.last() == parts@[i as int]@);
        if i > 0 {
            result.append(separator);
        }
        result.append(parts[i].as_str());
        if i == 0 {
            assert(result@ =~= upto[0]);
        }
        i = i + 1;
    }
    assert(views.take(views.len() as int) =~= views);
    result
}

/// The strings with `separator` between neighbours.
pub fn join_strs(parts: &[&str], separator: &str) -> (result: String)
    ensures
        result@ == joined(views(parts@), separator@),
{
    let mut result = String::new();
    let ghost all = views(parts@);
    let mut i: usize = 0;
    while i < parts.len()
        invariant
            i <= parts.len(),
            all == views(parts@),
            result@ == joined(all.take(i as int), separator@),
        decreases parts.len() - i,
    {
        let ghost upto = all.take(i + 1);
        assert(upto.drop_last() =~= all.take(i as int));
        if i > 0 {
            result.append(separator);
        }
        result.append(parts[i]);
        if i == 0 {
            assert(result@ =~= upto[0]);
        }
        i = i + 1;
    }
    assert(all.take(all.len() as int) =~= all);
    result
}

/// Whether `text` is one of `texts`.
pub fn listed(texts: &[&str], text: &str) -> (yes: bool)
    ensures
        yes == views(texts@).contains(text@),
{
    let mut i: usize = 0;
    while i < texts.len()
        invariant
            i <= texts.len(),
            forall|j: int| 0 <= j < i ==> views(texts@)[j] != text@,
        decreases texts.len() - i,
    {
        if *texts[i] == *text {
            assert(views(texts@)[i as int] == text@);
            return true;
        }
        i = i + 1;
    }
    false
}

/// Whether `text` is one of `texts`.
pub fn among(texts: &Vec<String>, text: &str) -> (yes: bool)
    ensures
        yes == texts.deep_view().contains(text@),
{
    let mut i: usize = 0;
    while i < texts.len()
        invariant
            i <= texts.len(),
            forall|j: int| 0 <= j < i ==> texts.deep_view()[j] != text@,
        decreases texts.len() - i,
    {
        if *texts[i].as_str() == *text {
            assert(texts.deep_view()[i as int] == text@);
            return true;
        }
        i = i + 1;
    }
    false
}

/// A copy of a list of strings.
pub fn copied(texts: &Vec<String>) -> (copy: Vec<String>)
    ensures
        copy.deep_view() == texts.deep_view(),
{
    let mut copy: Vec<String> = Vec::new();
    let mut i: usize = 0;
    while i < texts.len()
        invariant
            i <= texts.len(),
            copy.len() == i,
            forall|j: int| 0 <= j < i ==> copy@[j]@ == texts@[j]@,
        decreases texts.len() - i,
    {
        copy.push(texts[i].clone());
        i = i + 1;
    }
    assert(copy.deep_view() =~= texts.deep_view());
    copy
}

/// The items of `list` that are not in `gone`, in order.
pub open spec fn excluding(list: Seq<Seq<char>>, gone: Seq<Seq<char>>) -> Seq<Seq<char>>
    decreases list.len(),
{
    if list.len() == 0 {
        list
    } else if gone.contains(list.last()) {
        excluding(list.drop_last(), gone)
    } else {
        excluding(list.drop_last(), gone).push(list.last())
    }
}

/// What is left of `list` is what was in it and is not in `gone`, each item at most
/// as often as before.
pub proof fn excluding_keeps(list: Seq<Seq<char>>, gone: Seq<Seq<char>>)
    ensures
        forall|x: Seq<char>| #[trigger]
            excluding(list, gone).contains(x) <==> list.contains(x) && !gone.contains(x),
        excluding(list, gone).len() <= list.len(),
        list.no_duplicates() ==> excluding(list, gone).no_duplicates(),
    decreases list.len(),
{
    if list.len() > 0 {
        let rest = list.drop_last();
        let last = list.last();
        excluding_keeps(rest, gone);
        let all = excluding(list, gone);
        let some = excluding(rest, gone);
        assert(list =~= rest.push(last));
        assert forall|x: Seq<char>| #[trigger] all.contains(x) <==> list.contains(x)
            && !gone.contains(x) by {
            assert(list.contains(x) <==> rest.contains(x) || x == last) by {
                if list.contains(x) {
                    let i = list.index_of(x);
                    if i < rest.len() {
                        assert(rest[i] == x);
                    }
                }
                if rest.contains(x) {
                    let i = rest.index_of(x);
                    assert(list[i] == x);
                }
                assert(list[list.len() - 1] == last);
            }
            if !gone.contains(last) {
                assert(all == some.push(last));
                assert(all.contains(x) <==> some.contains(x) || x == last) by {
                    if all.contains(x) {
                        let i = all.index_of(x);
                        if i < some.len() {
                            assert(some[i] == x);
                        }
                    }
                    if some.contains(x) {
                        let i = some.index_of(x);
                        assert(all[i] == x);
                    }
                    assert(all[all.len() - 1] == last);
                }
            }
        }
        if list.no_duplicates() {
            assert(rest.no_duplicates());
            if !gone.contains(last) {
                assert(!rest.contains(last)) by {
                    if rest.contains(last) {
                        let i = rest.index_of(last);
                        assert(list[i] == list[list.len() - 1]);
                    }
                }
                assert forall|i: int, j: int|
                    0 <= i < all.len() && 0 <= j < all.len() && i != j implies all[i] != all[j] by {
                    if i == all.len() - 1 {
                        assert(some.contains(some[j]));
                    } else if j == all.len() - 1 {
                        assert(some.contains(some[i]));
                    }
                }
            }
        }
    }
}

/// The items of `list` that are not in `gone`, in order.
pub fn exclude(list: &Vec<String>, gone: &Vec<String>) -> (kept: Vec<String>)
    ensures
        kept.deep_view() == excluding(list.deep_view(), gone.deep_view()),
{
    let mut kept: Vec<String> = Vec::new();
    let ghost all = list.deep_view();
    let mut i: usize = 0;
    assert(kept.deep_view() =~= Seq::<Seq<char>>::empty());
    while i < list.len()
        invariant
            i <= list.len(),
            all == list.deep_view(),
            kept.deep_view() == excluding(all.take(i as int), gone.deep_view()),
        decreases list.len() - i,
    {
        assert(all.take(i + 1).drop_last() =~= all.take(i as int));
        if !among(gone, list[i].as_str()) {
            let ghost before = kept.deep_view();
            kept.push(list[i].clone());
            assert(kept.deep_view() =~= before.push(all[i as int]));
        }
        i = i + 1;
    }
    assert(all.take(all.len() as int) =~= all);
    kept
}

/// The items of `list` other than `gone`, in order.
pub fn exclude_one(list: &Vec<String>, gone: &str) -> (kept: Vec<String>)
    ensures
        kept.deep_view() == excluding(list.deep_view(), seq![gone@]),
{
    let mut single: Vec<String> = Vec::new();
    single.push(gone.to_owned());
    assert(single.deep_view() =~= seq![gone@]);
    exclude(list, &single)
}

/// Whether no two of `texts` are the same.
pub fn all_distinct(texts: &Vec<String>) -> (yes: bool)
    ensures
        yes == texts.deep_view().no_duplicates(),
{
    let mut i: usize = 0;
    while i < texts.len()
        invariant
            i <= texts.len(),
            forall|a: int, b: int|
                0 <= a < b < i ==> #[trigger] texts.deep_view()[a] != #[trigger] texts.deep_view()[b],
        decreases texts.len() - i,
    {
        let mut j: usize = 0;
        while j < i
            invariant
                j <= i < texts.len(),
                forall|a: int| 0 <= a < j ==> texts.deep_view()[a] != texts.deep_view()[i as int],
            decreases i - j,
        {
            if *texts[j].as_str() == *texts[i].as_str() {
                assert(texts.deep_view()[j as int] == texts.deep_view()[i as int]);
                return false;
            }
            j = j + 1;
        }
        i = i + 1;
    }
    true
}

/// The value of a run of decimal digits.
pub open spec fn digits_value(text: Seq<char>) -> nat
    decreases text.len(),
{
    if text.len() == 0 {
        0
    } else {
        digits_value(text.drop_last()) * 10 + (text.last() as u32 - 48) as nat
    }
}

/// Whether every character is a decimal digit.
pub open spec fn all_digits(text: Seq<char>) -> bool {
    forall|i: int| 0 <= i < text.len() ==> '0' as u32 <= #[trigger] text[i] as u32 <= '9' as u32
}

/// `text` without a leading plus sign.
pub open spec fn unsigned_body(text: Seq<char>) -> Seq<char> {
    if text.len() > 0 && text[0] == '+' {
        text.drop_first()
    } else {
        text
    }
}

/// The number that `u64::from_str` reads: digits, after at most one plus sign.
pub open spec fn unsigned_value(text: Seq<char>) -> Option<u64> {
    let body = unsigned_body(text);
    if body.len() > 0 && all_digits(body) && digits_value(body) <= u64::MAX {
        Some(digits_value(body) as u64)
    } else {
        None
    }
}

/// More digits never make a smaller number.
proof fn digits_value_grows(text: Seq<char>, n: int)
    requires
        0 <= n <= text.len(),
        all_digits(text),
    ensures
        digits_value(text.take(n)) <= digits_value(text),
    decreases text.len(),
{
    if n < text.len() {
        assert(all_digits(text.drop_last()));
        digits_value_grows(text.drop_last(), n);
        assert(text.drop_last().take(n) =~= text.take(n));
    } else {
        assert(text.take(n) =~= text);
    }
}

/// The unsigned number that `text` writes.
pub fn parse_unsigned(text: &str) -> (number: Option<u64>)
    ensures
        number == unsigned_value(text@),
{
    let chars = chars_of(text);
    let start: usize = if chars.len() > 0 && chars[0] == '+' { 1 } else { 0 };
    let ghost body = unsigned_body(text@);
    assert(body =~= chars@.subrange(start as int, chars.len() as int));
    if start == chars.len() {
        return None;
    }
    let mut i: usize = start;
    while i < chars.len()
        invariant
            start <= i <= chars.len(),
            body == unsigned_body(text@),
            body == chars@.subrange(start as int, chars.len() as int),
            forall|j: int| 0 <= j < i - start ==> '0' as u32 <= #[trigger] body[j] as u32 <= '9' as u32,
        decreases chars.len() - i,
    {
        assert(body[i - start] == chars@[i as int]);
        if (chars[i] as u32) < 48 || (chars[i] as u32) > 57 {
            return None;
        }
        i = i + 1;
    }
    let mut value: u64 = 0;
    let mut k: usize = start;
    assert(body.take(0) =~= Seq::empty());
    while k < chars.len()
        invariant
            start <= k <= chars.len(),
            body == unsigned_body(text@),
            body == chars@.subrange(start as int, chars.len() as int),
            all_digits(body),
            value == digits_value(body.take(k - start)),
        decreases chars.len() - k,
    {
        assert(body[k - start] == chars@[k as int]);
        let d: u64 = (chars[k] as u32 - 48) as u64;
        proof {
            let upto = body.take(k + 1 - start);
            assert(upto.drop_last() =~= body.take(k - start));
            assert(upto.last() == chars@[k as int]);
            digits_value_grows(body, k + 1 - start);
        }
        if value as u128 * 10 + d as u128 > u64::MAX as u128 {
            assert(digits_value(body) > u64::MAX);
            return None;
        }
        value = value * 10 + d;
        k = k + 1;
    }
    assert(body.take(body.len() as int) =~= body);
    Some(value)
}

/// The number that `i64::from_str` reads: digits, after at most one sign.
pub open spec fn signed_value(text: Seq<char>) -> Option<i64> {
    if text.len() > 0 && text[0] == '-' {
        let body = text.drop_first();
        if body.len() > 0 && all_digits(body) && digits_value(body) <= 0x8000_0000_0000_0000 {
            Some((-digits_value(body)) as i64)
        } else {
            None
        }
    } else {
        match unsigned_value(text) {
            Some(number) => if number <= i64::MAX {
                Some(number as i64)
            } else {
                None
            },
            None => None,
        }
    }
}

/// The signed number that `text` writes.
pub fn parse_signed(text: &str) -> (number: Option<i64>)
    ensures
        number == signed_value(text@),
{
    let length: usize = text.unicode_len();
    if length == 0 || text.get_char(0) != '-' {
        return match parse_unsigned(text) {
            Some(number) => {
                if number <= i64::MAX as u64 {
                    Some(number as i64)
                } else {
                    None
                }
            },
            None => None,
        };
    }
    let body = text.substring_char(1, length);
    assert(body@ =~= text@.drop_first());
    if length == 1 {
        return None;
    }
    if body.get_char(0) == '+' {
        assert(body@[0] == '+');
        return None;
    }
    match parse_unsigned(body) {
        Some(number) => {
            if number <= 0x7fff_ffff_ffff_ffff {
                Some(-(number as i64))
            } else if number == 0x8000_0000_0000_0000 {
                Some(i64::MIN)
            } else {
                None
            }
        },
        None => None,
    }
}

/// The character of a decimal digit.
pub open spec fn digit(d: int) -> char {
    (48 + d) as char
}

/// `n` in decimal.
pub open spec fn digits(n: nat) -> Seq<char>
    decreases n,
{
    if n < 10 {
        seq![digit(n as int)]
    } else {
        digits(n / 10).push(digit((n % 10) as int))
    }
}

/// `n` in decimal, with a minus sign where it is negative.
pub open spec fn signed_digits(n: int) -> Seq<char> {
    if n < 0 {
        seq!['-'] + digits((-n) as nat)
    } else {
        digits(n as nat)
    }
}

/// `n` in decimal, with leading zeros up to `width` digits.
pub open spec fn padded(n: nat, width: nat) -> Seq<char> {
    if digits(n).len() >= width {
        digits(n)
    } else {
        Seq::new((width - digits(n).len()) as nat, |i: int| '0') + digits(n)
    }
}

/// `n` in decimal.
pub fn decimal(n: u128) -> (result: String)
    ensures
        result@ == digits(n as nat),
    decreases n,
{
    if n < 10 {
        let mut result = String::new();
        result.push((48 + n as u8) as char);
        assert(result@ =~= digits(n as nat));
        result
    } else {
        let mut result = decimal(n / 10);
        result.push((48 + (n % 10) as u8) as char);
        result
    }
}

/// `n` in decimal, with a minus sign where it is negative.
pub fn integer(n: i128) -> (result: String)
    ensures
        result@ == signed_digits(n as int),
{
    if n < 0 {
        let mut result = String::new();
        result.push('-');
        let magnitude: u128 = (-(n + 1)) as u128 + 1;
        result.append(decimal(magnitude).as_str());
        assert(result@ =~= signed_digits(n as int));
        result
    } else {
        decimal(n as u128)
    }
}

/// `n` in decimal, with a minus sign where it is negative.
pub fn signed_decimal(n: i64) -> (result: String)
    ensures
        result@ == signed_digits(n as int),
{
    integer(n as i128)
}

/// `n` in decimal, with leading zeros up to `width` digits.
pub fn padded_decimal(n: u128, width: usize) -> (result: String)
    ensures
        result@ == padded(n as nat, width as nat),
{
    let body = decimal(n);
    let length: usize = body.as_str().unicode_len();
    if length >= width {
        return body;
    }
    let mut result = String::new();
    let mut i: usize = 0;
    while i < width - length
        invariant
            length < width,
            i <= width - length,
            result@ == Seq::new(i as nat, |j: int| '0'),
        decreases width - length - i,
    {
        result.push('0');
        assert(result@ =~= Seq::new((i + 1) as nat, |j: int| '0'));
        i = i + 1;
    }
    result.append(body.as_str());
    result
}

/// The number of UTF-16 code units of `text`.
pub open spec fn utf16_units(text: Seq<char>) -> nat
    decreases text.len(),
{
    if text.len() == 0 {
        0
    } else {
        utf16_units(text.drop_last()) + if text.last() as u32 >= 0x1_0000 { 2nat } else { 1nat }
    }
}

/// Whether `text` takes at most `limit` UTF-16 code units.
pub fn utf16_fits(text: &str, limit: usize) -> (yes: bool)
    ensures
        yes == (utf16_units(text@) <= limit),
{
    let chars = chars_of(text);
    let mut units: usize = 0;
    let mut i: usize = 0;
    while i < chars.len()
        invariant
            i <= chars.len(),
            units <= limit,
            units == utf16_units(chars@.take(i as int)),
            chars@ == text@,
        decreases chars.len() - i,
    {
        assert(chars@.take(i + 1).drop_last() =~= chars@.take(i as int));
        let more: usize = if (chars[i] as u32) >= 0x1_0000 { 2 } else { 1 };
        if more > limit - units {
            proof {
                utf16_units_grow(chars@, i + 1);
            }
            return false;
        }
        units = units + more;
        i = i + 1;
    }
    assert(chars@.take(chars.len() as int) =~= chars@);
    true
}

/// A prefix takes no more UTF-16 code units than the whole.
pub proof fn utf16_units_grow(text: Seq<char>, n: int)
    requires
        0 <= n <= text.len(),
    ensures
        utf16_units(text.take(n)) <= utf16_units(text),
    decreases text.len(),
{
    if n < text.len() {
        utf16_units_grow(text.drop_last(), n);
        assert(text.drop_last().take(n) =~= text.take(n));
    } else {
        assert(text.take(n) =~= text);
    }
}

/// The number of bytes of `text` in UTF-8.
pub open spec fn utf8_length(text: Seq<char>) -> nat {
    vstd::utf8::encode_utf8(text).len()
}

/// The number of bytes of `text` in UTF-8.
pub fn byte_length(text: &str) -> (length: usize)
    ensures
        length == utf8_length(text@),
{
    text.as_bytes().len()
}

/// The items of `list` that are not in `gone` are `list` filtered: each stays as often
/// as it was there, in order.
pub proof fn excluding_filters(list: Seq<Seq<char>>, gone: Seq<Seq<char>>)
    ensures
        excluding(list, gone) == list.filter(|x: Seq<char>| !gone.contains(x)),
    decreases list.len(),
{
    reveal(Seq::filter);
    if list.len() > 0 {
        excluding_filters(list.drop_last(), gone);
    }
}

/// Nothing joins to nothing, one part to itself, and two lists to the first, the
/// separator and the second.
pub proof fn joins_keep_their_parts(
    first: Seq<Seq<char>>,
    second: Seq<Seq<char>>,
    separator: Seq<char>,
)
    ensures
        first.len() == 0 ==> joined(first, separator) == Seq::<char>::empty(),
        first.len() == 1 ==> joined(first, separator) == first[0],
        first.len() > 0 && second.len() > 0 ==> joined(first + second, separator) == joined(
            first,
            separator,
        ) + separator + joined(second, separator),
    decreases second.len(),
{
    if first.len() > 0 && second.len() > 0 {
        let all = first + second;
        assert(all.drop_last() =~= first + second.drop_last());
        assert(all.last() == second.last());
        if second.len() == 1 {
            assert(first + second.drop_last() =~= first);
        } else {
            joins_keep_their_parts(first, second.drop_last(), separator);
            assert(joined(all, separator) =~= joined(first, separator) + separator + joined(
                second,
                separator,
            ));
        }
    }
}

/// Of ASCII, the blank and the characters from the tabulator to the carriage return are
/// white space, and nothing else is.
pub proof fn ascii_white_space(c: char)
    requires
        (c as u32) < 0x80,
    ensures
        is_space(c) <==> c == ' ' || '\t' as u32 <= c as u32 <= '\r' as u32,
{
    reveal(is_space);
}

/// Trimming takes away white space before and after a text, and nothing else.
pub proof fn trimming_takes_outer_space(lead: Seq<char>, inner: Seq<char>, tail: Seq<char>)
    requires
        forall|i: int| 0 <= i < lead.len() ==> is_space(#[trigger] lead[i]),
        forall|i: int| 0 <= i < tail.len() ==> is_space(#[trigger] tail[i]),
        inner.len() > 0 ==> !is_space(inner[0]) && !is_space(inner.last()),
    ensures
        trimmed(lead + inner + tail) == inner,
    decreases lead.len() + tail.len(),
{
    let text = lead + inner + tail;
    if lead.len() > 0 {
        assert(text[0] == lead[0]);
        assert(text.drop_first() =~= lead.drop_first() + inner + tail);
        trimming_takes_outer_space(lead.drop_first(), inner, tail);
    } else if tail.len() > 0 {
        assert(text.last() == tail.last());
        if inner.len() > 0 {
            assert(text[0] == inner[0]);
            assert(text.drop_last() =~= lead + inner + tail.drop_last());
            trimming_takes_outer_space(lead, inner, tail.drop_last());
        } else {
            assert(text[0] == tail[0]);
            assert(text.drop_first() =~= lead + inner + tail.drop_first());
            trimming_takes_outer_space(lead, inner, tail.drop_first());
        }
    } else {
        assert(text =~= inner);
    }
}

/// A part stands at a place where each of its characters does.
pub proof fn parts_stand_by_their_characters(text: Seq<char>, part: Seq<char>, at: int)
    ensures
        occurs_at(text, part, at) <==> 0 <= at && at + part.len() <= text.len() && forall|i: int|
            0 <= i < part.len() ==> #[trigger] part[i] == text[at + i],
{
    if occurs_at(text, part, at) {
        assert forall|i: int| 0 <= i < part.len() implies #[trigger] part[i] == text[at + i] by {
            assert(text.subrange(at, at + part.len())[i] == part[i]);
        }
    }
    if 0 <= at && at + part.len() <= text.len() && forall|i: int|
        0 <= i < part.len() ==> #[trigger] part[i] == text[at + i] {
        assert(text.subrange(at, at + part.len()) =~= part);
    }
}

/// Before the first place found the part stands nowhere, and after the last one
/// neither; nothing is found only where it stands nowhere.
pub proof fn searches_find_the_outermost(text: Seq<char>, part: Seq<char>, at: int)
    ensures
        found(text, part) is None ==> !occurs_at(text, part, at),
        found_last(text, part) is None ==> !occurs_at(text, part, at),
        found(text, part) == Some(at) ==> occurs_at(text, part, at),
        found_last(text, part) == Some(at) ==> occurs_at(text, part, at),
        occurs_at(text, part, at) ==> found(text, part) is Some && found(text, part)->0 <= at
            <= found_last(text, part)->0,
{
    find_from_is_first(text, part, 0);
    find_back_is_last(text, part, text.len() - part.len());
    find_back_occurs(text, part, text.len() - part.len());
}

/// After the last place found the part stands nowhere.
proof fn find_back_is_last(text: Seq<char>, part: Seq<char>, i: int)
    ensures
        match find_back(text, part, i) {
            Some(at) => forall|j: int| at < j <= i ==> !occurs_at(text, part, j),
            None => forall|j: int| j <= i ==> !occurs_at(text, part, j),
        },
    decreases i + 1,
{
    if i >= 0 && !occurs_at(text, part, i) {
        find_back_is_last(text, part, i - 1);
    }
}

/// A text in small letters holds no ASCII capital, and differs only where there was
/// one.
pub proof fn lowered_texts_hold_no_capitals(text: Seq<char>, i: int)
    requires
        0 <= i < text.len(),
    ensures
        lowered(text).len() == text.len(),
        'A' as u32 <= text[i] as u32 <= 'Z' as u32 ==> lowered(text)[i] as u32 - 'a' as u32
            == text[i] as u32 - 'A' as u32,
        !('A' as u32 <= text[i] as u32 <= 'Z' as u32) ==> lowered(text)[i] == text[i],
{
}

/// A text without a part stays as it is when the part is replaced.
pub proof fn substitution_needs_an_occurrence(text: Seq<char>, part: Seq<char>, other: Seq<char>)
    requires
        forall|i: int| 0 <= i < text.len() ==> !#[trigger] occurs_at(text, part, i),
    ensures
        substituted_from(text, part, other, 0) == text,
{
    unchanged_from(text, part, other, 0, text.len() as int);
    assert(text.subrange(0, text.len() as int) =~= text);
    assert(text + Seq::<char>::empty() =~= text);
}

/// A stretch in which a part does not start stays as it is.
proof fn unchanged_from(text: Seq<char>, part: Seq<char>, other: Seq<char>, i: int, end: int)
    requires
        0 <= i <= end <= text.len(),
        forall|j: int| i <= j < end ==> !#[trigger] occurs_at(text, part, j),
    ensures
        substituted_from(text, part, other, i) == text.subrange(i, end) + substituted_from(
            text,
            part,
            other,
            end,
        ),
    decreases end - i,
{
    if i < end {
        unchanged_from(text, part, other, i + 1, end);
        assert(seq![text[i]] + (text.subrange(i + 1, end) + substituted_from(
            text,
            part,
            other,
            end,
        )) =~= text.subrange(i, end) + substituted_from(text, part, other, end));
    } else {
        assert(text.subrange(i, end) + substituted_from(text, part, other, end)
            =~= substituted_from(text, part, other, end));
    }
}

/// What follows a place is treated alike wherever it stands.
proof fn substituted_later(
    text: Seq<char>,
    part: Seq<char>,
    other: Seq<char>,
    start: int,
    i: int,
)
    requires
        0 <= start <= text.len(),
        0 <= i,
    ensures
        substituted_from(text, part, other, start + i) == substituted_from(
            text.skip(start),
            part,
            other,
            i,
        ),
    decreases text.len() - start - i,
{
    let rest = text.skip(start);
    if start + i < text.len() {
        assert(rest[i] == text[start + i]);
        assert(occurs_at(text, part, start + i) == occurs_at(rest, part, i)) by {
            if i + part.len() <= rest.len() {
                assert(rest.subrange(i, i + part.len()) =~= text.subrange(
                    start + i,
                    start + i + part.len(),
                ));
            }
        }
        if part.len() > 0 && occurs_at(text, part, start + i) {
            substituted_later(text, part, other, start, i + part.len() as int);
        } else {
            substituted_later(text, part, other, start, i + 1);
        }
    }
}

/// The first occurrence of a part is replaced, what stands before it stays, and what
/// stands after it is treated the same way.
pub proof fn substitution_replaces_the_first(
    before: Seq<char>,
    part: Seq<char>,
    after: Seq<char>,
    other: Seq<char>,
)
    requires
        part.len() > 0,
        forall|i: int|
            0 <= i < before.len() ==> !#[trigger] occurs_at(before + part + after, part, i),
    ensures
        substituted_from(before + part + after, part, other, 0) == before + other
            + substituted_from(after, part, other, 0),
{
    let text = before + part + after;
    let at = before.len() as int;
    unchanged_from(text, part, other, 0, at);
    assert(text.subrange(0, at) =~= before);
    assert(text.subrange(at, at + part.len()) =~= part);
    assert(text.skip(at + part.len()) =~= after);
    substituted_later(text, part, other, at + part.len(), 0);
    assert(before + (other + substituted_from(after, part, other, 0)) =~= before + other
        + substituted_from(after, part, other, 0));
}

/// A number reads back from its digits.
pub proof fn numbers_read_back(n: nat)
    ensures
        digits(n).len() > 0,
        all_digits(digits(n)),
        digits_value(digits(n)) == n,
        n > 0 ==> digits(n)[0] != '0',
        n <= u64::MAX ==> unsigned_value(digits(n)) == Some(n as u64),
    decreases n,
{
    if n >= 10 {
        let rest = digits(n / 10);
        numbers_read_back(n / 10);
        let all = digits(n);
        assert(all.drop_last() =~= rest);
        assert forall|i: int| 0 <= i < all.len() implies '0' as u32 <= #[trigger] all[i] as u32
            <= '9' as u32 by {
            if i < rest.len() {
                assert(all[i] == rest[i]);
            }
        }
    } else {
        assert(digits(n).drop_last() =~= Seq::empty());
        assert(digits_value(Seq::empty()) == 0);
    }
    assert(digits(n)[0] as u32 >= '0' as u32);
}

/// A signed number reads back from its digits.
pub proof fn signed_numbers_read_back(n: i64)
    ensures
        signed_value(signed_digits(n as int)) == Some(n),
{
    if n < 0 {
        numbers_read_back((-n) as nat);
        assert(signed_digits(n as int).drop_first() =~= digits((-n) as nat));
    } else {
        numbers_read_back(n as nat);
        assert(digits(n as nat)[0] as u32 >= '0' as u32);
    }
}

/// A padded number is its digits after as many zeros as are missing.
pub proof fn padded_numbers_are_as_wide(n: nat, width: nat)
    ensures
        padded(n, width).len() >= width,
        padded(n, width).len() == width || padded(n, width) == digits(n),
        ends(padded(n, width), digits(n)),
        forall|i: int|
            0 <= i < padded(n, width).len() - digits(n).len() ==> #[trigger] padded(n, width)[i]
                == '0',
{
    let all = padded(n, width);
    assert(all.subrange(all.len() - digits(n).len(), all.len() as int) =~= digits(n));
}

/// The UTF-16 units of two texts add up, and a character takes one or two.
pub proof fn utf16_units_add_up(first: Seq<char>, second: Seq<char>, c: char)
    ensures
        utf16_units(first + second) == utf16_units(first) + utf16_units(second),
        utf16_units(seq![c]) == if c as u32 >= 0x10000 {
            2nat
        } else {
            1nat
        },
    decreases second.len(),
{
    assert(seq![c].drop_last() =~= Seq::empty());
    assert(utf16_units(Seq::empty()) == 0);
    if second.len() > 0 {
        utf16_units_add_up(first, second.drop_last(), c);
        assert((first + second).drop_last() =~= first + second.drop_last());
    } else {
        assert(first + second =~= first);
    }
}

} // verus!
