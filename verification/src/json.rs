//! JSON text of strings.

use vstd::prelude::*;
use crate::text;

verus! {

/// `serde_json::Error`, carried as it is.
#[verifier::external_type_specification]
#[verifier::external_body]
pub struct ExJsonError(serde_json::Error);

/// How one character stands inside a JSON string.
pub open spec fn escaped(c: char) -> Seq<char> {
    if c == '"' {
        seq!['\\', '"']
    } else if c == '\\' {
        seq!['\\', '\\']
    } else if c as u32 == 0x08 {
        seq!['\\', 'b']
    } else if c as u32 == 0x09 {
        seq!['\\', 't']
    } else if c as u32 == 0x0a {
        seq!['\\', 'n']
    } else if c as u32 == 0x0c {
        seq!['\\', 'f']
    } else if c as u32 == 0x0d {
        seq!['\\', 'r']
    } else if (c as u32) < 0x20 {
        seq![
            '\\',
            'u',
            '0',
            '0',
            crate::digest::hex_digit(c as int / 16),
            crate::digest::hex_digit(c as int % 16),
        ]
    } else {
        seq![c]
    }
}

pub open spec fn escaped_text(text: Seq<char>) -> Seq<char>
    decreases text.len(),
{
    if text.len() == 0 {
        Seq::empty()
    } else {
        escaped_text(text.drop_last()) + escaped(text.last())
    }
}

/// The JSON string that holds a text.
pub open spec fn quoted(text: Seq<char>) -> Seq<char> {
    seq!['"'] + escaped_text(text) + seq!['"']
}

/// Whether a JSON text is a string.
pub open spec fn is_string(value: Seq<char>) -> bool {
    exists|text: Seq<char>| value == #[trigger] quoted(text)
}

/// Calls `serde_json::to_string` on a text. It writes the text between double
/// quotes, with a backslash escape for the double quote, the backslash and every
/// character below U+0020, and writes every other character as it is. Writing a
/// text to memory does not fail, and what is written is read as JSON that is no object.
#[verifier::external_body]
pub(crate) fn quote(text: &str) -> (r: Result<String, serde_json::Error>)
    ensures
        r is Ok,
        r->Ok_0@ == quoted(text@),
        members_of(r->Ok_0@) is Some && members_of(r->Ok_0@)->0 is None,
{
    serde_json::to_string(text)
}

/// What `serde_json::from_str` reads as a JSON object in a text: the members by name, each
/// with its value as compact JSON. There is nothing where the text is no JSON, and no
/// members where it is JSON but no object.
pub uninterp spec fn members_of(text: Seq<char>) -> Option<Option<Seq<(Seq<char>, Seq<char>)>>>;

pub open spec fn pairs_view(pairs: Seq<(String, String)>) -> Seq<(Seq<char>, Seq<char>)> {
    pairs.map_values(|pair: (String, String)| (pair.0@, pair.1@))
}

/// Calls `serde_json::from_str` for a `serde_json::Value` and hands out the members of
/// the object, each value written by `Value`'s own formatting. The contract names the
/// outcome, which depends on the text alone, and states that the text of each value is
/// JSON again.
#[verifier::external_body]
pub(crate) fn members(text: &str) -> (r: Result<Option<Vec<(String, String)>>, serde_json::Error>)
    ensures
        r is Ok <==> members_of(text@) is Some,
        r is Ok ==> (r->Ok_0 is Some <==> members_of(text@)->0 is Some),
        r is Ok && r->Ok_0 is Some ==> pairs_view(r->Ok_0->0@) == members_of(text@)->0->0,
        r is Ok && r->Ok_0 is Some ==> forall|i: int|
            0 <= i < r->Ok_0->0@.len() ==> members_of((#[trigger] pairs_view(r->Ok_0->0@)[i]).1) is Some,
{
    let value: serde_json::Value = serde_json::from_str(text)?;
    Ok(value.as_object().map(|map| map.iter().map(|(k, v)| (k.clone(), v.to_string())).collect()))
}

/// Whether one of the members has this name.
pub open spec fn has_member(members: Seq<(Seq<char>, Seq<char>)>, key: Seq<char>) -> bool {
    exists|i: int| 0 <= i < members.len() && (#[trigger] members[i]).0 == key
}

/// The value of the first member with a name, as JSON text.
pub open spec fn member_value(members: Seq<(Seq<char>, Seq<char>)>, key: Seq<char>, from: int) -> Option<
    Seq<char>,
>
    decreases members.len() - from,
{
    if from < 0 || from >= members.len() {
        None
    } else if members[from].0 == key {
        Some(members[from].1)
    } else {
        member_value(members, key, from + 1)
    }
}

pub(crate) fn find_member(members: &Vec<(String, String)>, key: &str) -> (r: Option<String>)
    ensures
        r is Some <==> member_value(pairs_view(members@), key@, 0) is Some,
        r is Some ==> r->0@ == member_value(pairs_view(members@), key@, 0)->0,
        r is Some ==> exists|i: int|
            0 <= i < members@.len() && (#[trigger] pairs_view(members@)[i]).1 == r->0@,
{
    let mut i: usize = 0;
    while i < members.len()
        invariant
            i <= members@.len(),
            member_value(pairs_view(members@), key@, 0) == member_value(
                pairs_view(members@),
                key@,
                i as int,
            ),
        decreases members@.len() - i,
    {
        assert(pairs_view(members@)[i as int] == (members@[i as int].0@, members@[i as int].1@));
        if text::same(members[i].0.as_str(), key) {
            return Some(members[i].1.clone());
        }
        i = i + 1;
    }
    None
}

/// What `serde_json::from_str` reads as a JSON array in a text: its items, each with the
/// text that it says where it is a string. There is nothing where the text is no JSON, and no
/// items where it is JSON but no array.
pub uninterp spec fn strings_of(text: Seq<char>) -> Option<Option<Seq<Option<Seq<char>>>>>;

pub open spec fn items_view(items: Seq<Option<String>>) -> Seq<Option<Seq<char>>> {
    items.map_values(
        |item: Option<String>|
            match item {
                Some(text) => Some(text@),
                None => None,
            },
    )
}

/// Calls `serde_json::from_str` for a `serde_json::Value` and hands out the items of the
/// array, each as `serde_json::Value::as_str` gives it. The contract names the outcome,
/// which depends on the text alone, and states that the texts that can be read are those
/// of which the members can be.
#[verifier::external_body]
pub(crate) fn strings(text: &str) -> (r: Result<Option<Vec<Option<String>>>, serde_json::Error>)
    ensures
        r is Ok <==> strings_of(text@) is Some,
        r is Ok <==> members_of(text@) is Some,
        r is Ok ==> (r->Ok_0 is Some <==> strings_of(text@)->0 is Some),
        r is Ok && r->Ok_0 is Some ==> items_view(r->Ok_0->0@) == strings_of(text@)->0->0,
{
    let value: serde_json::Value = serde_json::from_str(text)?;
    Ok(value.as_array().map(|items| items.iter().map(|i| i.as_str().map(str::to_owned)).collect()))
}

/// What `serde_json` writes for the object in `text` once the member `key` is set to the
/// JSON in `value`; nothing where one of the two texts cannot be read so.
pub uninterp spec fn with_member(text: Seq<char>, key: Seq<char>, value: Seq<char>) -> Option<
    Seq<char>,
>;

/// Whether every other member that is a string is still there.
pub open spec fn keeps_strings(
    before: Seq<(Seq<char>, Seq<char>)>,
    after: Seq<(Seq<char>, Seq<char>)>,
    key: Seq<char>,
) -> bool {
    forall|member: (Seq<char>, Seq<char>)| #[trigger]
        before.contains(member) && is_string(member.1) && member.0 != key ==> after.contains(
            member,
        )
}

/// Calls `serde_json::from_str` for an object and for a value, inserts the value with
/// `serde_json::Map::insert` and writes the object with `serde_json::to_string`. The
/// contract names the outcome, which depends on the three texts alone. It states that an
/// object and a value that can be read can be written again, and, of a value that is a JSON
/// string, that the new text is read as an object with the same member names and this one.
/// Of other values that is not stated: the crate reads at most 127 levels, and a value that
/// lies inside the object can be one level too deep. Where the new text is read as an
/// object, the other members that are strings are in it as they were; of numbers that is not
/// stated, as the crate may read a written fraction as a neighbouring one.
#[verifier::external_body]
pub(crate) fn set_member(text: &str, key: &str, value: &str) -> (r: Result<
    String,
    serde_json::Error,
>)
    ensures
        r is Ok <==> with_member(text@, key@, value@) is Some,
        r is Ok ==> r->Ok_0@ == with_member(text@, key@, value@)->0,
        members_of(text@) is Some && members_of(text@)->0 is Some && members_of(value@) is Some
            ==> r is Ok,
        r is Ok && is_string(value@) ==> members_of(r->Ok_0@) is Some && members_of(r->Ok_0@)->0
            is Some && members_of(r->Ok_0@)->0->0.contains((key@, value@)),
        r is Ok && is_string(value@) ==> forall|name: Seq<char>| #[trigger]
            has_member(members_of(r->Ok_0@)->0->0, name) <==> name == key@ || has_member(
                members_of(text@)->0->0,
                name,
            ),
        r is Ok && members_of(r->Ok_0@) is Some && members_of(r->Ok_0@)->0 is Some
            ==> keeps_strings(
            members_of(text@)->0->0,
            members_of(r->Ok_0@)->0->0,
            key@,
        ),
{
    let mut object: serde_json::Map<String, serde_json::Value> = serde_json::from_str(text)?;
    object.insert(key.to_owned(), serde_json::from_str(value)?);
    serde_json::to_string(&object)
}

/// What follows the same beginning is the same.
pub proof fn same_rest(head: Seq<char>, a: Seq<char>, b: Seq<char>)
    requires
        head + a == head + b,
    ensures
        a == b,
{
    assert((head + a).skip(head.len() as int) =~= a);
    assert((head + b).skip(head.len() as int) =~= b);
}

proof fn escaped_front(text: Seq<char>)
    requires
        text.len() > 0,
    ensures
        escaped_text(text) == escaped(text[0]) + escaped_text(text.skip(1)),
    decreases text.len(),
{
    let shorter = text.drop_last();
    let rest = text.skip(1);
    if text.len() == 1 {
        assert(shorter =~= Seq::<char>::empty());
        assert(rest =~= Seq::<char>::empty());
        assert(escaped_text(shorter) =~= Seq::<char>::empty());
        assert(escaped_text(text) =~= escaped(text[0]) + escaped_text(rest));
    } else {
        escaped_front(shorter);
        assert(rest.drop_last() =~= shorter.skip(1));
        assert(rest.last() == text.last());
        assert(escaped_text(rest) == escaped_text(shorter.skip(1)) + escaped(text.last()));
        assert(escaped_text(text) =~= escaped(text[0]) + escaped_text(rest));
    }
}

proof fn escapes_apart(c: char, d: char, a: Seq<char>, b: Seq<char>)
    requires
        escaped(c) + a == escaped(d) + b,
    ensures
        c == d,
        a == b,
{
    let left = escaped(c) + a;
    let right = escaped(d) + b;
    assert(escaped(c).len() >= 1 && escaped(d).len() >= 1);
    assert(left[0] == escaped(c)[0]);
    assert(right[0] == escaped(d)[0]);
    if escaped(c).len() >= 2 && escaped(d).len() >= 2 {
        assert(left[1] == escaped(c)[1]);
        assert(right[1] == escaped(d)[1]);
    }
    if escaped(c).len() == 6 && escaped(d).len() == 6 {
        assert(left[4] == escaped(c)[4]);
        assert(right[4] == escaped(d)[4]);
        assert(left[5] == escaped(c)[5]);
        assert(right[5] == escaped(d)[5]);
    }
    assert(c == d);
    same_rest(escaped(c), a, b);
}

proof fn closing_quote_found(a: Seq<char>, b: Seq<char>, x: Seq<char>, y: Seq<char>)
    requires
        escaped_text(a) + (seq!['"'] + x) == escaped_text(b) + (seq!['"'] + y),
    ensures
        a == b,
        x == y,
    decreases a.len(),
{
    let p = seq!['"'] + x;
    let q = seq!['"'] + y;
    if a.len() > 0 {
        escaped_front(a);
        assert(escaped_text(a) + p =~= escaped(a[0]) + (escaped_text(a.skip(1)) + p));
    }
    if b.len() > 0 {
        escaped_front(b);
        assert(escaped_text(b) + q =~= escaped(b[0]) + (escaped_text(b.skip(1)) + q));
    }
    if a.len() == 0 && b.len() == 0 {
        assert(escaped_text(a) + p =~= p);
        assert(escaped_text(b) + q =~= q);
        same_rest(seq!['"'], x, y);
        assert(a =~= b);
    } else if a.len() == 0 {
        assert((escaped_text(a) + p)[0] == '"');
        assert((escaped_text(b) + q)[0] == escaped(b[0])[0]);
    } else if b.len() == 0 {
        assert((escaped_text(b) + q)[0] == '"');
        assert((escaped_text(a) + p)[0] == escaped(a[0])[0]);
    } else {
        escapes_apart(a[0], b[0], escaped_text(a.skip(1)) + p, escaped_text(b.skip(1)) + q);
        closing_quote_found(a.skip(1), b.skip(1), x, y);
        assert(a =~= seq![a[0]] + a.skip(1));
        assert(b =~= seq![b[0]] + b.skip(1));
    }
}

/// A JSON string says where it ends and what it holds: no text makes a JSON string that
/// begins with the JSON string of another.
pub proof fn strings_are_self_delimiting(a: Seq<char>, b: Seq<char>, x: Seq<char>, y: Seq<char>)
    requires
        quoted(a) + x == quoted(b) + y,
    ensures
        a == b,
        x == y,
{
    let p = escaped_text(a) + (seq!['"'] + x);
    let q = escaped_text(b) + (seq!['"'] + y);
    assert(quoted(a) + x =~= seq!['"'] + p);
    assert(quoted(b) + y =~= seq!['"'] + q);
    same_rest(seq!['"'], p, q);
    closing_quote_found(a, b, x, y);
}

} // verus!
