//! JSON values: what they hold, what is found in them, when they are equal, and how a text
//! is written as one.

use vstd::prelude::*;
use vstd::std_specs::cmp::PartialEqSpec;

use crate::json::{Json, JsonModel};

verus! {

/// A value holds what it is made of.
pub proof fn a_value_holds_what_it_is_made_of(json: Json)
    ensures
        match json {
            Json::Null => json@ == JsonModel::Null,
            Json::Bool(b) => json@ == JsonModel::Bool(b),
            Json::Number(n) => json@ == JsonModel::Number(n@),
            Json::Text(s) => json@ == JsonModel::Text(s@),
            Json::Array(items) => {
                &&& json@ matches JsonModel::Array(held)
                &&& held.len() == items@.len()
                &&& forall|i: int| 0 <= i < held.len() ==> #[trigger] held[i] == items@[i]@
            },
            Json::Object(entries) => {
                &&& json@ matches JsonModel::Object(held)
                &&& held.len() == entries@.len()
                &&& forall|i: int|
                    0 <= i < held.len() ==> (#[trigger] held[i]).0 == entries@[i].0@ && held[i].1
                        == entries@[i].1@
            },
        },
{
}

/// What an object has under a name is what its first entry of that name has, and nothing
/// where it has no such entry. Nothing else has anything under a name.
pub proof fn a_name_finds_its_first_entry(json: JsonModel, name: Seq<char>)
    ensures
        match json {
            JsonModel::Object(entries) => match json.get(name) {
                Some(value) => exists|i: int|
                    {
                        &&& 0 <= i < entries.len()
                        &&& #[trigger] entries[i] == (name, value)
                        &&& forall|j: int| 0 <= j < i ==> (#[trigger] entries[j]).0 != name
                    },
                None => forall|i: int| 0 <= i < entries.len() ==> (#[trigger] entries[i]).0 != name,
            },
            _ => json.get(name) is None,
        },
    decreases json,
{
    if let JsonModel::Object(entries) = json {
        first_entry(entries, name);
    }
}

proof fn first_entry(entries: Seq<(Seq<char>, JsonModel)>, name: Seq<char>)
    ensures
        match crate::json::field(entries, name) {
            Some(value) => exists|i: int|
                {
                    &&& 0 <= i < entries.len()
                    &&& #[trigger] entries[i] == (name, value)
                    &&& forall|j: int| 0 <= j < i ==> (#[trigger] entries[j]).0 != name
                },
            None => forall|i: int| 0 <= i < entries.len() ==> (#[trigger] entries[i]).0 != name,
        },
    decreases entries.len(),
{
    if entries.len() > 0 {
        let rest = entries.drop_first();
        first_entry(rest, name);
        if entries[0].0 == name {
            assert(entries[0] == (name, entries[0].1));
        } else {
            match crate::json::field(rest, name) {
                Some(value) => {
                    let k = choose|k: int|
                        {
                            &&& 0 <= k < rest.len()
                            &&& #[trigger] rest[k] == (name, value)
                            &&& forall|j: int| 0 <= j < k ==> (#[trigger] rest[j]).0 != name
                        };
                    assert(entries[k + 1] == (name, value));
                    assert forall|j: int| 0 <= j < k + 1 implies (#[trigger] entries[j]).0
                        != name by {
                        assert(j > 0 ==> entries[j] == rest[j - 1]);
                    }
                },
                None => {
                    assert forall|j: int| 0 <= j < entries.len() implies (#[trigger] entries[j]).0
                        != name by {
                        assert(j > 0 ==> entries[j] == rest[j - 1]);
                    }
                },
            }
        }
    }
}

/// Only a text has characters, and they are its own; only an array has items, and they are
/// its own.
pub proof fn texts_have_characters_and_arrays_have_items(json: JsonModel)
    ensures
        match json {
            JsonModel::Text(s) => json.text() == Some(s) && json.items() is None,
            JsonModel::Array(items) => json.items() == Some(items) && json.text() is None,
            _ => json.text() is None && json.items() is None,
        },
{
}

/// Looking a name up gives the value of the first entry of that name.
pub proof fn looking_up_gives_the_first_entry(json: &Json, name: &str, found: Option<&Json>)
    requires
        call_ensures(Json::get, (json, name), found),
    ensures
        match *json {
            Json::Object(entries) => match found {
                Some(value) => exists|i: int|
                    {
                        &&& 0 <= i < entries@.len()
                        &&& (#[trigger] entries@[i]).0@ == name@
                        &&& entries@[i].1@ == value@
                        &&& forall|j: int| 0 <= j < i ==> (#[trigger] entries@[j]).0@ != name@
                    },
                None => forall|i: int|
                    0 <= i < entries@.len() ==> (#[trigger] entries@[i]).0@ != name@,
            },
            _ => found is None,
        },
{
    a_name_finds_its_first_entry(json@, name@);
    a_value_holds_what_it_is_made_of(*json);
    if let Json::Object(entries) = *json {
        let held = json@->Object_0;
        if let Some(value) = found {
            let i = choose|i: int|
                {
                    &&& 0 <= i < held.len()
                    &&& #[trigger] held[i] == (name@, value@)
                    &&& forall|j: int| 0 <= j < i ==> (#[trigger] held[j]).0 != name@
                };
            assert(entries@[i].0@ == held[i].0);
            assert forall|j: int| 0 <= j < i implies (#[trigger] entries@[j]).0@ != name@ by {
                assert(held[j].0 == entries@[j].0@);
            }
        } else {
            assert forall|j: int| 0 <= j < entries@.len() implies (#[trigger] entries@[j]).0@
                != name@ by {
                assert(held[j].0 == entries@[j].0@);
            }
        }
    }
}

/// Reading a value as a text gives the characters of a text, and nothing of anything else.
pub proof fn reading_a_text_gives_its_characters(json: &Json, read: Option<&str>)
    requires
        call_ensures(Json::as_str, (json,), read),
    ensures
        match (*json, read) {
            (Json::Text(s), Some(text)) => text@ == s@,
            (Json::Text(_), None) => false,
            (_, Some(_)) => false,
            (_, None) => true,
        },
{
    a_value_holds_what_it_is_made_of(*json);
}

/// Reading a value as an array gives the items of an array, and nothing of anything else.
pub proof fn reading_an_array_gives_its_items(json: &Json, read: Option<&Vec<Json>>)
    requires
        call_ensures(Json::as_array, (json,), read),
    ensures
        match (*json, read) {
            (Json::Array(items), Some(given)) => {
                &&& given@.len() == items@.len()
                &&& forall|i: int| 0 <= i < items@.len() ==> (#[trigger] given@[i])@ == items@[i]@
            },
            (Json::Array(_), None) => false,
            (_, Some(_)) => false,
            (_, None) => true,
        },
{
    a_value_holds_what_it_is_made_of(*json);
    if let (Json::Array(items), Some(given)) = (*json, read) {
        let held = json@->Array_0;
        assert(held == given@.map_values(|item: Json| item@));
        assert forall|i: int| 0 <= i < items@.len() implies (#[trigger] given@[i])@
            == items@[i]@ by {
            assert(held[i] == given@[i]@);
        }
    }
}

/// Whether no entry before this one has its name.
pub open spec fn is_first(entries: Seq<(String, Json)>, i: int) -> bool {
    &&& 0 <= i < entries.len()
    &&& forall|j: int| 0 <= j < i ==> (#[trigger] entries[j]).0@ != entries[i].0@
}

/// A value equals itself, what equals it is equalled by it, and what equals one of two equal
/// values equals the other.
pub proof fn equality_is_an_equivalence(a: Json, b: Json, c: Json)
    ensures
        a.eq_spec(&a),
        a.eq_spec(&b) ==> b.eq_spec(&a),
        a.eq_spec(&b) && b.eq_spec(&c) ==> a.eq_spec(&c),
{
}

/// A value equals itself.
pub proof fn a_value_equals_itself(a: Json)
    ensures
        a.eq_spec(&a),
{
}

/// Values are equal exactly where they are of one kind and have equal parts: arrays item by
/// item, objects name by name. Of numbers, a zero and a negative zero are equal too.
pub proof fn equal_values_have_equal_parts(a: Json, b: Json)
    ensures
        Json::obeys_eq_spec(),
        a.eq_spec(&b) <==> match (a, b) {
            (Json::Null, Json::Null) => true,
            (Json::Bool(x), Json::Bool(y)) => x == y,
            (Json::Number(x), Json::Number(y)) => x@ == y@ || (x@ == "0.0"@ && y@ == "-0.0"@) || (
            x@ == "-0.0"@ && y@ == "0.0"@),
            (Json::Text(x), Json::Text(y)) => x@ == y@,
            (Json::Array(x), Json::Array(y)) => {
                &&& x@.len() == y@.len()
                &&& forall|i: int| 0 <= i < x@.len() ==> (#[trigger] x@[i]).eq_spec(&y@[i])
            },
            (Json::Object(x), Json::Object(y)) => {
                &&& forall|i: int| #[trigger]
                        is_first(x@, i) ==> exists|j: int|
                            {
                                &&& #[trigger] is_first(y@, j)
                                &&& y@[j].0@ == x@[i].0@
                                &&& x@[i].1.eq_spec(&y@[j].1)
                            }
                &&& forall|i: int| #[trigger]
                        is_first(y@, i) ==> exists|j: int|
                            {
                                &&& #[trigger] is_first(x@, j)
                                &&& x@[j].0@ == y@[i].0@
                                &&& y@[i].1.eq_spec(&x@[j].1)
                            }
            },
            _ => false,
        },
{
    match (a, b) {
        (Json::Array(x), Json::Array(y)) => {
            let left = a@.meaning()->Array_0;
            let right = b@.meaning()->Array_0;
            assert(left.len() == x@.len() && right.len() == y@.len());
            if a.eq_spec(&b) {
                assert forall|i: int| 0 <= i < x@.len() implies (#[trigger] x@[i]).eq_spec(
                    &y@[i],
                ) by {
                    assert(left[i] == x@[i]@.meaning() && right[i] == y@[i]@.meaning());
                }
            }
            if x@.len() == y@.len() && forall|i: int|
                0 <= i < x@.len() ==> (#[trigger] x@[i]).eq_spec(&y@[i]) {
                assert forall|i: int| 0 <= i < left.len() implies left[i] == right[i] by {
                    assert(x@[i].eq_spec(&y@[i]));
                }
                assert(left =~= right);
            }
        },
        (Json::Object(x), Json::Object(y)) => {
            let left = crate::json::fields_meaning(crate::json::entries_model(x@));
            let right = crate::json::fields_meaning(crate::json::entries_model(y@));
            assert(a@->Object_0 =~= crate::json::entries_model(x@));
            assert(b@->Object_0 =~= crate::json::entries_model(y@));
            names_of_fields(x@);
            names_of_fields(y@);
            if left == right {
                fields_that_agree(x@, y@);
                fields_that_agree(y@, x@);
            }
            if (forall|i: int| #[trigger]
                    is_first(x@, i) ==> exists|j: int|
                        {
                            &&& #[trigger] is_first(y@, j)
                            &&& y@[j].0@ == x@[i].0@
                            &&& x@[i].1.eq_spec(&y@[j].1)
                        }) && (forall|i: int| #[trigger]
                    is_first(y@, i) ==> exists|j: int|
                        {
                            &&& #[trigger] is_first(x@, j)
                            &&& x@[j].0@ == y@[i].0@
                            &&& y@[i].1.eq_spec(&x@[j].1)
                        }) {
                fields_of_agreeing(x@, y@);
                fields_of_agreeing(y@, x@);
                assert(left =~= right);
            }
        },
        _ => {},
    }
}

/// The fields of an object are those of its first entries.
proof fn names_of_fields(entries: Seq<(String, Json)>)
    ensures
        forall|name: Seq<char>| #[trigger]
            crate::json::fields_meaning(crate::json::entries_model(entries)).contains_key(
                name,
            ) ==> exists|i: int| #[trigger] is_first(entries, i) && entries[i].0@ == name,
        forall|i: int| #[trigger]
            is_first(entries, i) ==> {
                let fields = crate::json::fields_meaning(crate::json::entries_model(entries));
                &&& fields.contains_key(entries[i].0@)
                &&& fields[entries[i].0@] == entries[i].1@.meaning()
            },
    decreases entries.len(),
{
    let fields = crate::json::fields_meaning(crate::json::entries_model(entries));
    if entries.len() > 0 {
        let rest = entries.drop_first();
        let fewer = crate::json::fields_meaning(crate::json::entries_model(rest));
        names_of_fields(rest);
        let models = crate::json::entries_model(entries);
        assert(models.subrange(1, models.len() as int) =~= crate::json::entries_model(rest));
        assert(fields == fewer.insert(entries[0].0@, entries[0].1@.meaning()));
        assert forall|name: Seq<char>| #[trigger] fields.contains_key(name) implies exists|i: int|
            #[trigger] is_first(entries, i) && entries[i].0@ == name by {
            if name == entries[0].0@ {
                assert(is_first(entries, 0));
            } else {
                assert(fewer.contains_key(name));
                let k = choose|k: int| #[trigger] is_first(rest, k) && rest[k].0@ == name;
                assert forall|j: int| 0 <= j < k + 1 implies (#[trigger] entries[j]).0@
                    != entries[k + 1].0@ by {
                    assert(j > 0 ==> entries[j] == rest[j - 1]);
                    assert(entries[k + 1] == rest[k]);
                }
                assert(is_first(entries, k + 1));
            }
        }
        assert forall|i: int| #[trigger] is_first(entries, i) implies {
            &&& fields.contains_key(entries[i].0@)
            &&& fields[entries[i].0@] == entries[i].1@.meaning()
        } by {
            if i > 0 {
                assert(entries[0].0@ != entries[i].0@);
                assert forall|j: int| 0 <= j < i - 1 implies (#[trigger] rest[j]).0@ != rest[i
                    - 1].0@ by {
                    assert(rest[j] == entries[j + 1] && rest[i - 1] == entries[i]);
                }
                assert(is_first(rest, i - 1));
                assert(rest[i - 1] == entries[i]);
            }
        }
    }
}

proof fn fields_that_agree(entries: Seq<(String, Json)>, others: Seq<(String, Json)>)
    requires
        crate::json::fields_meaning(crate::json::entries_model(entries))
            == crate::json::fields_meaning(crate::json::entries_model(others)),
    ensures
        forall|i: int| #[trigger]
            is_first(entries, i) ==> exists|j: int|
                {
                    &&& #[trigger] is_first(others, j)
                    &&& others[j].0@ == entries[i].0@
                    &&& entries[i].1.eq_spec(&others[j].1)
                },
{
    names_of_fields(entries);
    names_of_fields(others);
    let right = crate::json::fields_meaning(crate::json::entries_model(others));
    assert forall|i: int| #[trigger] is_first(entries, i) implies exists|j: int|
        {
            &&& #[trigger] is_first(others, j)
            &&& others[j].0@ == entries[i].0@
            &&& entries[i].1.eq_spec(&others[j].1)
        } by {
        assert(right.contains_key(entries[i].0@));
        let j = choose|j: int| #[trigger] is_first(others, j) && others[j].0@ == entries[i].0@;
        assert(right[others[j].0@] == others[j].1@.meaning());
    }
}

proof fn fields_of_agreeing(entries: Seq<(String, Json)>, others: Seq<(String, Json)>)
    requires
        forall|i: int| #[trigger]
            is_first(entries, i) ==> exists|j: int|
                {
                    &&& #[trigger] is_first(others, j)
                    &&& others[j].0@ == entries[i].0@
                    &&& entries[i].1.eq_spec(&others[j].1)
                },
    ensures
        forall|name: Seq<char>| #[trigger]
            crate::json::fields_meaning(crate::json::entries_model(entries)).contains_key(
                name,
            ) ==> {
                let left = crate::json::fields_meaning(crate::json::entries_model(entries));
                let right = crate::json::fields_meaning(crate::json::entries_model(others));
                right.contains_key(name) && left[name] == right[name]
            },
{
    names_of_fields(entries);
    names_of_fields(others);
    let left = crate::json::fields_meaning(crate::json::entries_model(entries));
    let right = crate::json::fields_meaning(crate::json::entries_model(others));
    assert forall|name: Seq<char>| #[trigger] left.contains_key(name) implies right.contains_key(
        name,
    ) && left[name] == right[name] by {
        let i = choose|i: int| #[trigger] is_first(entries, i) && entries[i].0@ == name;
        let j = choose|j: int|
            {
                &&& #[trigger] is_first(others, j)
                &&& others[j].0@ == entries[i].0@
                &&& entries[i].1.eq_spec(&others[j].1)
            };
        assert(right[others[j].0@] == others[j].1@.meaning());
    }
}

/// The number that a hexadecimal digit stands for.
pub open spec fn hex_value(c: char) -> Option<int> {
    if '0' as int <= c as int <= '9' as int {
        Some(c as int - '0' as int)
    } else if 'a' as int <= c as int <= 'f' as int {
        Some(c as int - 'a' as int + 10)
    } else if 'A' as int <= c as int <= 'F' as int {
        Some(c as int - 'A' as int + 10)
    } else {
        None
    }
}

/// The character that an escape sequence of two characters stands for, by its second.
pub open spec fn short_escape(c: char) -> Option<char> {
    if c == '"' || c == '\\' || c == '/' {
        Some(c)
    } else if c == 'b' {
        Some('\u{8}')
    } else if c == 'f' {
        Some('\u{c}')
    } else if c == 'n' {
        Some('\n')
    } else if c == 'r' {
        Some('\r')
    } else if c == 't' {
        Some('\t')
    } else {
        None
    }
}

/// The text that the inside of a JSON string stands for, where it is one (without
/// surrogates).
pub open spec fn string_value(inside: Seq<char>) -> Option<Seq<char>>
    decreases inside.len(),
{
    if inside.len() == 0 {
        Some(Seq::empty())
    } else if inside[0] == '"' || (inside[0] as int) < 0x20 {
        None
    } else if inside[0] != '\\' {
        match string_value(inside.skip(1)) {
            Some(rest) => Some(seq![inside[0]] + rest),
            None => None,
        }
    } else if inside.len() >= 2 && short_escape(inside[1]) is Some {
        match string_value(inside.skip(2)) {
            Some(rest) => Some(seq![short_escape(inside[1])->0] + rest),
            None => None,
        }
    } else if inside.len() >= 6 && inside[1] == 'u' && hex_value(inside[2]) == Some(0int)
        && hex_value(inside[3]) == Some(0int) && hex_value(inside[4]) is Some && hex_value(
        inside[5],
    ) is Some {
        match string_value(inside.skip(6)) {
            Some(rest) => Some(
                seq![(hex_value(inside[4])->0 * 16 + hex_value(inside[5])->0) as char] + rest,
            ),
            None => None,
        }
    } else {
        None
    }
}

/// A text written as a JSON string stands between quotes, and reads back as the text.
pub proof fn a_quoted_text_reads_back(text: Seq<char>)
    ensures
        crate::json::quoted(text).len() >= 2,
        crate::json::quoted(text)[0] == '"',
        crate::json::quoted(text).last() == '"',
        string_value(
            crate::json::quoted(text).subrange(1, crate::json::quoted(text).len() - 1),
        ) == Some(text),
{
    let inside = crate::json::escaped_text(text);
    let quoted = crate::json::quoted(text);
    assert(quoted.subrange(1, quoted.len() - 1) =~= inside);
    escaped_reads_back(text);
}

proof fn hex_digit_reads_back(d: int)
    requires
        0 <= d < 16,
    ensures
        hex_value(crate::json::hex_digit(d)) == Some(d),
        crate::json::hex_digit(0) == '0',
{
    assert(crate::text::digit(d) as int == if d < 10 {
        '0' as int + d
    } else {
        '9' as int
    });
}

proof fn low_characters_read_back(c: char)
    requires
        (c as int) < 0x20,
    ensures
        hex_value(crate::json::hex_digit(c as int / 16)) == Some(c as int / 16),
        hex_value(crate::json::hex_digit(c as int % 16)) == Some(c as int % 16),
        (c as int / 16 * 16 + c as int % 16) as char == c,
        hex_value('0') == Some(0int),
{
    assert(c as int >= 0);
    hex_digit_reads_back(c as int / 16);
    hex_digit_reads_back(c as int % 16);
}

proof fn escaped_reads_back(text: Seq<char>)
    ensures
        string_value(crate::json::escaped_text(text)) == Some(text),
    decreases text.len(),
{
    if text.len() == 0 {
        assert(text =~= Seq::empty());
        assert(crate::json::escaped_text(text) =~= Seq::empty());
    } else {
        let rest = text.drop_first();
        let c = text[0];
        let first = crate::json::escaped(c);
        let behind = crate::json::escaped_text(rest);
        let inside = crate::json::escaped_text(text);
        escaped_reads_back(rest);
        escaped_front(text);
        assert(inside == first + behind);
        assert(inside.skip(first.len() as int) =~= behind);
        assert(inside[0] == first[0]);
        assert(first.len() > 1 ==> inside[1] == first[1]);
        if first.len() == 6 {
            assert(inside[2] == first[2] && inside[3] == first[3]);
            assert(inside[4] == first[4] && inside[5] == first[5]);
            assert((c as int) < 0x20);
            low_characters_read_back(c);
        }
        assert(seq![c] + rest =~= text);
    }
}

proof fn escaped_front(text: Seq<char>)
    requires
        text.len() > 0,
    ensures
        crate::json::escaped_text(text) == crate::json::escaped(text[0])
            + crate::json::escaped_text(text.drop_first()),
    decreases text.len(),
{
    let first = text.drop_first();
    let whole = crate::json::escaped_text(text);
    if text.len() == 1 {
        assert(text.drop_last() =~= Seq::empty());
        assert(first =~= Seq::empty());
        assert(crate::json::escaped_text(first) =~= Seq::empty());
        assert(whole =~= crate::json::escaped(text[0]) + crate::json::escaped_text(first));
    } else {
        escaped_front(text.drop_last());
        assert(text.drop_last().drop_first() =~= first.drop_last());
        assert(first.last() == text.last());
        assert(whole =~= crate::json::escaped(text[0]) + crate::json::escaped_text(first));
    }
}

} // verus!
