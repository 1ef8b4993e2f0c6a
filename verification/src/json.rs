//! JSON values: the tree that the library reads answers from, how it is had
//! from JSON text, and how a text is written as a JSON string.

use vstd::prelude::*;

verus! {

/// A JSON value as mathematics: texts are sequences of characters, arrays and
/// objects are sequences.
#[verifier::ext_equal]
pub enum JsonModel {
    Null,
    Bool(bool),
    /// A number, by the text that it is written as.
    Number(Seq<char>),
    Text(Seq<char>),
    Array(Seq<JsonModel>),
    Object(Seq<(Seq<char>, JsonModel)>),
}

/// What a JSON value means: an object is a map, so the order of its entries does not
/// count, and a negative zero is a zero.
#[verifier::ext_equal]
pub enum JsonMeaning {
    Null,
    Bool(bool),
    Number(Seq<char>),
    Text(Seq<char>),
    Array(Seq<JsonMeaning>),
    Object(Map<Seq<char>, JsonMeaning>),
}

/// A number by its text, a negative zero as a zero.
pub open spec fn number_meaning(n: Seq<char>) -> Seq<char> {
    if n == "-0.0"@ {
        "0.0"@
    } else {
        n
    }
}

/// The fields of an object by name. Of entries with one name the first counts.
pub open spec fn fields_meaning(entries: Seq<(Seq<char>, JsonModel)>) -> Map<Seq<char>, JsonMeaning>
    decreases entries,
{
    if entries.len() == 0 {
        Map::empty()
    } else {
        fields_meaning(entries.subrange(1, entries.len() as int)).insert(
            entries[0].0,
            entries[0].1.meaning(),
        )
    }
}

/// The value of the first entry that is named `name`.
pub open spec fn field(entries: Seq<(Seq<char>, JsonModel)>, name: Seq<char>) -> Option<JsonModel>
    decreases entries.len(),
{
    if entries.len() == 0 {
        None
    } else if entries[0].0 == name {
        Some(entries[0].1)
    } else {
        field(entries.drop_first(), name)
    }
}

impl JsonModel {
    /// The field `name` of an object; nothing for any other value.
    pub open spec fn get(self, name: Seq<char>) -> Option<JsonModel> {
        match self {
            JsonModel::Object(entries) => field(entries, name),
            _ => None,
        }
    }

    /// The characters of a text; nothing for any other value.
    pub open spec fn text(self) -> Option<Seq<char>> {
        match self {
            JsonModel::Text(s) => Some(s),
            _ => None,
        }
    }

    /// What the value means: two values with one meaning are equal.
    pub open spec fn meaning(self) -> JsonMeaning
        decreases self,
    {
        match self {
            JsonModel::Null => JsonMeaning::Null,
            JsonModel::Bool(b) => JsonMeaning::Bool(b),
            JsonModel::Number(n) => JsonMeaning::Number(number_meaning(n)),
            JsonModel::Text(s) => JsonMeaning::Text(s),
            JsonModel::Array(items) => JsonMeaning::Array(
                Seq::new(
                    items.len(),
                    |i: int|
                        if 0 <= i < items.len() {
                            items[i].meaning()
                        } else {
                            JsonMeaning::Null
                        },
                ),
            ),
            JsonModel::Object(entries) => JsonMeaning::Object(fields_meaning(entries)),
        }
    }

    /// The items of an array; nothing for any other value.
    pub open spec fn items(self) -> Option<Seq<JsonModel>> {
        match self {
            JsonModel::Array(items) => Some(items),
            _ => None,
        }
    }
}

/// A JSON value.
#[derive(Debug)]
pub enum Json {
    Null,
    Bool(bool),
    /// A number, by the text that it is written as.
    Number(String),
    Text(String),
    Array(Vec<Json>),
    Object(Vec<(String, Json)>),
}

impl Json {
    /// What the value holds.
    pub open spec fn model(self) -> JsonModel
        decreases self,
    {
        match self {
            Json::Null => JsonModel::Null,
            Json::Bool(b) => JsonModel::Bool(b),
            Json::Number(n) => JsonModel::Number(n@),
            Json::Text(s) => JsonModel::Text(s@),
            Json::Array(items) => JsonModel::Array(
                Seq::new(
                    items@.len(),
                    |i: int|
                        if 0 <= i < items@.len() {
                            items@[i].model()
                        } else {
                            JsonModel::Null
                        },
                ),
            ),
            Json::Object(entries) => JsonModel::Object(
                Seq::new(
                    entries@.len(),
                    |i: int|
                        if 0 <= i < entries@.len() {
                            (entries@[i].0@, entries@[i].1.model())
                        } else {
                            (Seq::empty(), JsonModel::Null)
                        },
                ),
            ),
        }
    }
}

impl View for Json {
    type V = JsonModel;

    open spec fn view(&self) -> JsonModel {
        self.model()
    }
}

/// `serde_json::Value`, carried as it is. `json_of` says what it holds.
#[verifier::external_type_specification]
#[verifier::external_body]
pub struct ExValue(serde_json::Value);

/// What a `serde_json::Value` holds, down to its leaves.
pub uninterp spec fn json_of(value: serde_json::Value) -> JsonModel;

/// What the values hold.
spec fn values_view(values: Seq<serde_json::Value>) -> Seq<JsonModel> {
    values.map_values(|value: serde_json::Value| json_of(value))
}

/// What the entries of an object hold.
spec fn entries_view(entries: Seq<(String, serde_json::Value)>) -> Seq<(Seq<char>, JsonModel)> {
    entries.map_values(|entry: (String, serde_json::Value)| (entry.0@, json_of(entry.1)))
}

/// The outermost layer of a `serde_json::Value`.
enum Layer {
    Null,
    Bool(bool),
    Number(String),
    Text(String),
    Array(Vec<serde_json::Value>),
    Object(Vec<(String, serde_json::Value)>),
}

impl Layer {
    /// What the layer and everything below it holds.
    spec fn model(self) -> JsonModel {
        match self {
            Layer::Null => JsonModel::Null,
            Layer::Bool(b) => JsonModel::Bool(b),
            Layer::Number(n) => JsonModel::Number(n@),
            Layer::Text(s) => JsonModel::Text(s@),
            Layer::Array(items) => JsonModel::Array(values_view(items@)),
            Layer::Object(entries) => JsonModel::Object(entries_view(entries@)),
        }
    }
}

/// A layer holds what it shows: of each kind that very kind, with what it was given, and
/// below it what the values below hold, in order.
proof fn a_layer_holds_what_it_shows(layer: Layer)
    ensures
        match layer {
            Layer::Null => layer.model() == JsonModel::Null,
            Layer::Bool(b) => layer.model() == JsonModel::Bool(b),
            Layer::Number(n) => layer.model() == JsonModel::Number(n@),
            Layer::Text(s) => layer.model() == JsonModel::Text(s@),
            Layer::Array(values) => {
                &&& layer.model() matches JsonModel::Array(held)
                &&& held.len() == values@.len()
                &&& forall|i: int| 0 <= i < held.len() ==> #[trigger] held[i] == json_of(values@[i])
            },
            Layer::Object(entries) => {
                &&& layer.model() matches JsonModel::Object(held)
                &&& held.len() == entries@.len()
                &&& forall|i: int|
                    0 <= i < held.len() ==> #[trigger] held[i] == (
                        entries@[i].0@,
                        json_of(entries@[i].1),
                    )
            },
        },
{
}

/// Takes one layer off a `serde_json::Value`: each variant becomes the variant of
/// `Layer` of the same kind, with what it held. The entries of an object come in
/// the order in which `serde_json::Map::into_iter` gives them; a number is given as
/// `serde_json::Number` is displayed.
#[verifier::external_body]
fn open_value(value: serde_json::Value) -> (layer: Layer)
    ensures
        layer.model() == json_of(value),
{
    match value {
        serde_json::Value::Null => Layer::Null,
        serde_json::Value::Bool(b) => Layer::Bool(b),
        serde_json::Value::Number(n) => Layer::Number(n.to_string()),
        serde_json::Value::String(s) => Layer::Text(s),
        serde_json::Value::Array(items) => Layer::Array(items),
        serde_json::Value::Object(entries) => Layer::Object(entries.into_iter().collect()),
    }
}

/// What the entries of an object hold.
pub open spec fn entries_model(entries: Seq<(String, Json)>) -> Seq<(Seq<char>, JsonModel)> {
    entries.map_values(|entry: (String, Json)| (entry.0@, entry.1@))
}

/// Where the first entry that is named `name` stands.
fn find(entries: &Vec<(String, Json)>, name: &str) -> (r: Option<usize>)
    ensures
        match r {
            Some(i) => i < entries.len() && field(entries_model(entries@), name@) == Some(
                entries@[i as int].1@,
            ),
            None => field(entries_model(entries@), name@) is None,
        },
{
    let wanted = name.to_owned();
    let ghost all = entries_model(entries@);
    assert(all.skip(0) =~= all);
    let mut i: usize = 0;
    while i < entries.len()
        invariant
            i <= entries.len(),
            all == entries_model(entries@),
            wanted@ == name@,
            field(all, name@) == field(all.skip(i as int), name@),
        decreases entries.len() - i,
    {
        assert(all.skip(i as int)[0] == all[i as int]);
        if entries[i].0 == wanted {
            return Some(i);
        }
        assert(all.skip(i as int).drop_first() =~= all.skip(i + 1));
        i += 1;
    }
    None
}

/// A name is among the fields exactly where an entry has it, and means what the first
/// such entry means.
proof fn fields_by_name(entries: Seq<(Seq<char>, JsonModel)>, name: Seq<char>)
    ensures
        fields_meaning(entries).contains_key(name) <==> field(entries, name) is Some,
        field(entries, name) matches Some(value) ==> fields_meaning(entries)[name]
            == value.meaning(),
    decreases entries.len(),
{
    if entries.len() > 0 {
        assert(entries.drop_first() =~= entries.subrange(1, entries.len() as int));
        fields_by_name(entries.drop_first(), name);
    }
}

proof fn named_entries_are_fields(entries: Seq<(Seq<char>, JsonModel)>, i: int)
    requires
        0 <= i < entries.len(),
    ensures
        field(entries, entries[i].0) is Some,
    decreases entries.len(),
{
    if entries[0].0 != entries[i].0 {
        assert(entries.drop_first()[i - 1] == entries[i]);
        named_entries_are_fields(entries.drop_first(), i - 1);
    }
}

proof fn fields_are_named_entries(entries: Seq<(Seq<char>, JsonModel)>, name: Seq<char>) -> (i: int)
    requires
        fields_meaning(entries).contains_key(name),
    ensures
        0 <= i < entries.len(),
        entries[i].0 == name,
    decreases entries.len(),
{
    if entries[0].0 == name {
        0
    } else {
        let rest = entries.subrange(1, entries.len() as int);
        let i = fields_are_named_entries(rest, name);
        assert(entries[i + 1] == rest[i]);
        i + 1
    }
}

impl Json {
    /// The value that a `serde_json::Value` holds.
    pub fn from_value(value: serde_json::Value) -> (json: Json)
        ensures
            json@ == json_of(value),
        decreases json_of(value),
    {
        let ghost whole = json_of(value);
        match open_value(value) {
            Layer::Null => Json::Null,
            Layer::Bool(b) => Json::Bool(b),
            Layer::Number(n) => Json::Number(n),
            Layer::Text(s) => Json::Text(s),
            Layer::Array(items) => {
                let ghost all = items@;
                let mut out: Vec<Json> = Vec::new();
                for item in it: items
                    invariant
                        it.seq() == all,
                        whole == json_of(value),
                        whole == JsonModel::Array(values_view(all)),
                        out@.len() == it.index(),
                        forall|i: int|
                            0 <= i < out@.len() ==> (#[trigger] out@[i])@ == json_of(all[i]),
                {
                    assert(whole->Array_0[it.index() as int] == json_of(item));
                    assert(decreases_to!(whole => whole->Array_0[it.index() as int]));
                    out.push(Json::from_value(item));
                }
                let json = Json::Array(out);
                assert(json@->Array_0 =~= whole->Array_0);
                json
            },
            Layer::Object(entries) => {
                let ghost all = entries@;
                let mut out: Vec<(String, Json)> = Vec::new();
                for entry in it: entries
                    invariant
                        it.seq() == all,
                        whole == json_of(value),
                        whole == JsonModel::Object(entries_view(all)),
                        out@.len() == it.index(),
                        forall|i: int|
                            0 <= i < out@.len() ==> (#[trigger] out@[i]).0@ == all[i].0@
                                && out@[i].1@ == json_of(all[i].1),
                {
                    assert(whole->Object_0[it.index() as int].1 == json_of(entry.1));
                    assert(decreases_to!(whole => whole->Object_0[it.index() as int].1));
                    let (name, value) = entry;
                    out.push((name, Json::from_value(value)));
                }
                let json = Json::Object(out);
                assert(json@->Object_0 =~= whole->Object_0);
                json
            },
        }
    }

    /// The field `name` of an object; nothing for any other value.
    pub fn get(&self, name: &str) -> (r: Option<&Json>)
        ensures
            match r {
                Some(json) => self@.get(name@) == Some(json@),
                None => self@.get(name@) is None,
            },
    {
        match self {
            Json::Object(entries) => {
                assert(self@->Object_0 =~= entries_model(entries@));
                match find(entries, name) {
                    Some(i) => Some(&entries[i].1),
                    None => None,
                }
            },
            _ => None,
        }
    }

    /// The characters of a text; nothing for any other value.
    pub fn as_str(&self) -> (r: Option<&str>)
        ensures
            match r {
                Some(s) => self@.text() == Some(s@),
                None => self@.text() is None,
            },
    {
        match self {
            Json::Text(s) => Some(s.as_str()),
            _ => None,
        }
    }

    /// The items of an array; nothing for any other value.
    pub fn as_array(&self) -> (r: Option<&Vec<Json>>)
        ensures
            match r {
                Some(items) => self@.items() == Some(items@.map_values(|item: Json| item@)),
                None => self@.items() is None,
            },
    {
        match self {
            Json::Array(items) => {
                assert(self@->Array_0 =~= items@.map_values(|item: Json| item@));
                Some(items)
            },
            _ => None,
        }
    }

    /// Whether the two values are equal: objects whatever the order of their entries, and
    /// a negative zero to a zero.
    fn same(&self, other: &Json) -> (r: bool)
        ensures
            r == (self@.meaning() == other@.meaning()),
        decreases self,
    {
        match (self, other) {
            (Json::Null, Json::Null) => true,
            (Json::Bool(a), Json::Bool(b)) => *a == *b,
            (Json::Number(a), Json::Number(b)) => same_number(a, b),
            (Json::Text(a), Json::Text(b)) => *a == *b,
            (Json::Array(a), Json::Array(b)) => {
                if a.len() != b.len() {
                    assert(self@.meaning()->Array_0.len() != other@.meaning()->Array_0.len());
                    return false;
                }
                let mut i: usize = 0;
                while i < a.len()
                    invariant
                        a.len() == b.len(),
                        i <= a.len(),
                        *self == Json::Array(*a),
                        *other == Json::Array(*b),
                        forall|j: int|
                            0 <= j < i ==> (#[trigger] a[j])@.meaning() == b[j]@.meaning(),
                    decreases a.len() - i,
                {
                    if !a[i].same(&b[i]) {
                        assert(self@.meaning()->Array_0[i as int]
                            != other@.meaning()->Array_0[i as int]);
                        return false;
                    }
                    i += 1;
                }
                assert(self@.meaning()->Array_0 =~= other@.meaning()->Array_0);
                true
            },
            (Json::Object(a), Json::Object(b)) => {
                let ghost left = entries_model(a@);
                let ghost right = entries_model(b@);
                proof {
                    assert(self@->Object_0 =~= left);
                    assert(other@->Object_0 =~= right);
                }
                let mut i: usize = 0;
                while i < a.len()
                    invariant
                        i <= a.len(),
                        *self == Json::Object(*a),
                        *other == Json::Object(*b),
                        self@ == JsonModel::Object(left),
                        other@ == JsonModel::Object(right),
                        left == entries_model(a@),
                        right == entries_model(b@),
                        forall|j: int|
                            0 <= j < i ==> fields_meaning(right).contains_key(
                                (#[trigger] left[j]).0,
                            ) && fields_meaning(left)[left[j].0] == fields_meaning(
                                right,
                            )[left[j].0],
                    decreases a.len() - i,
                {
                    let name = a[i].0.as_str();
                    proof {
                        assert(left[i as int].0 == name@);
                        named_entries_are_fields(left, i as int);
                        fields_by_name(left, name@);
                        fields_by_name(right, name@);
                    }
                    match (find(a, name), find(b, name)) {
                        (Some(k), Some(m)) => {
                            if !a[k].1.same(&b[m].1) {
                                assert(fields_meaning(left)[name@] != fields_meaning(right)[name@]);
                                return false;
                            }
                        },
                        _ => {
                            assert(fields_meaning(left).contains_key(name@));
                            assert(!fields_meaning(right).contains_key(name@));
                            return false;
                        },
                    }
                    i += 1;
                }
                let mut j: usize = 0;
                while j < b.len()
                    invariant
                        j <= b.len(),
                        self@ == JsonModel::Object(left),
                        other@ == JsonModel::Object(right),
                        left == entries_model(a@),
                        right == entries_model(b@),
                        forall|k: int|
                            0 <= k < j ==> fields_meaning(left).contains_key(
                                (#[trigger] right[k]).0,
                            ),
                    decreases b.len() - j,
                {
                    let name = b[j].0.as_str();
                    proof {
                        assert(right[j as int].0 == name@);
                        named_entries_are_fields(right, j as int);
                        fields_by_name(left, name@);
                        fields_by_name(right, name@);
                    }
                    if find(a, name).is_none() {
                        assert(fields_meaning(right).contains_key(name@));
                        assert(!fields_meaning(left).contains_key(name@));
                        return false;
                    }
                    j += 1;
                }
                proof {
                    assert forall|name: Seq<char>| #[trigger]
                        fields_meaning(left).contains_key(name) implies fields_meaning(
                        right,
                    ).contains_key(name) && fields_meaning(left)[name] == fields_meaning(
                        right,
                    )[name] by {
                        let k = fields_are_named_entries(left, name);
                        assert(left[k].0 == name);
                    }
                    assert forall|name: Seq<char>| #[trigger]
                        fields_meaning(right).contains_key(name) implies fields_meaning(
                        left,
                    ).contains_key(name) by {
                        let k = fields_are_named_entries(right, name);
                        assert(right[k].0 == name);
                    }
                    assert(fields_meaning(left) =~= fields_meaning(right));
                }
                true
            },
            _ => false,
        }
    }
}

/// Whether the two numbers are equal. A negative zero equals a zero.
fn same_number(a: &String, b: &String) -> (r: bool)
    ensures
        r == (number_meaning(a@) == number_meaning(b@)),
{
    let zero = "0.0".to_owned();
    let negative_zero = "-0.0".to_owned();
    *a == *b || (*a == zero && *b == negative_zero) || (*a == negative_zero && *b == zero)
}

/// What `serde_json::from_str` makes of a text: the value that it holds or, where
/// it is not JSON, the text that the error is displayed as.
pub uninterp spec fn parsed(text: Seq<char>) -> Result<JsonModel, Seq<char>>;

/// `serde_json::from_str` into a `serde_json::Value`. What comes back is fixed by the
/// text alone: `parsed` names it. The error is given as it is displayed.
#[verifier::external_body]
fn value_from_str(text: &str) -> (r: Result<serde_json::Value, String>)
    ensures
        match r {
            Ok(value) => parsed(text@) == Ok::<JsonModel, Seq<char>>(json_of(value)),
            Err(message) => parsed(text@) == Err::<JsonModel, Seq<char>>(message@),
        },
{
    match serde_json::from_str::<serde_json::Value>(text) {
        Ok(value) => Ok(value),
        Err(error) => Err(error.to_string()),
    }
}

impl Json {
    /// The value that a JSON text holds, or why the text is not JSON.
    pub fn parse(text: &str) -> (r: Result<Json, String>)
        ensures
            match r {
                Ok(json) => parsed(text@) == Ok::<JsonModel, Seq<char>>(json@),
                Err(message) => parsed(text@) == Err::<JsonModel, Seq<char>>(message@),
            },
    {
        match value_from_str(text) {
            Ok(value) => Ok(Json::from_value(value)),
            Err(message) => Err(message),
        }
    }
}

/// The hexadecimal digit that stands for `d`.
pub open spec fn hex_digit(d: int) -> char {
    if d == 10 {
        'a'
    } else if d == 11 {
        'b'
    } else if d == 12 {
        'c'
    } else if d == 13 {
        'd'
    } else if d == 14 {
        'e'
    } else if d == 15 {
        'f'
    } else {
        crate::text::digit(d)
    }
}

/// How a character is written inside a JSON string.
pub open spec fn escaped(c: char) -> Seq<char> {
    if c == '"' {
        seq!['\\', '"']
    } else if c == '\\' {
        seq!['\\', '\\']
    } else if c == '\u{8}' {
        seq!['\\', 'b']
    } else if c == '\t' {
        seq!['\\', 't']
    } else if c == '\n' {
        seq!['\\', 'n']
    } else if c == '\u{c}' {
        seq!['\\', 'f']
    } else if c == '\r' {
        seq!['\\', 'r']
    } else if (c as int) < 0x20 {
        seq!['\\', 'u', '0', '0', hex_digit(c as int / 16), hex_digit(c as int % 16)]
    } else {
        seq![c]
    }
}

/// The characters of `text`, each as it is written inside a JSON string.
pub open spec fn escaped_text(text: Seq<char>) -> Seq<char>
    decreases text.len(),
{
    if text.len() == 0 {
        Seq::empty()
    } else {
        escaped_text(text.drop_last()) + escaped(text.last())
    }
}

/// `text` as a JSON string.
pub open spec fn quoted(text: Seq<char>) -> Seq<char> {
    seq!['"'] + escaped_text(text) + seq!['"']
}

/// `serde_json::to_string` of a text: the text as a JSON string. Quotes, backslashes
/// and the characters below the space are escaped, all others stand for themselves.
/// Writing a text into memory does not fail.
#[verifier::external_body]
pub(crate) fn quote(text: &str) -> (r: String)
    ensures
        r@ == quoted(text@),
{
    serde_json::to_string(text).unwrap()
}

impl PartialEq for Json {
    fn eq(&self, other: &Json) -> (r: bool) {
        self.same(other)
    }
}

impl vstd::std_specs::cmp::PartialEqSpecImpl for Json {
    open spec fn obeys_eq_spec() -> bool {
        true
    }

    open spec fn eq_spec(&self, other: &Json) -> bool {
        self@.meaning() == other@.meaning()
    }
}

impl Eq for Json {

}

proof fn escaped_from_the_front(text: Seq<char>)
    requires
        text.len() > 0,
    ensures
        escaped_text(text) == escaped(text[0]) + escaped_text(text.drop_first()),
    decreases text.len(),
{
    let first = text.drop_first();
    if text.len() == 1 {
        assert(text.drop_last() =~= Seq::empty());
        assert(first =~= Seq::empty());
        assert(escaped_text(text.drop_last()) =~= Seq::empty());
        assert(escaped_text(text) =~= escaped(text[0]) + escaped_text(first));
    } else {
        escaped_from_the_front(text.drop_last());
        assert(text.drop_last().drop_first() =~= first.drop_last());
        assert(escaped_text(text) =~= escaped(text[0]) + escaped_text(first));
    }
}

proof fn escaped_characters_differ(a: char, b: char, behind_a: Seq<char>, behind_b: Seq<char>)
    requires
        escaped(a) + behind_a == escaped(b) + behind_b,
    ensures
        a == b,
        behind_a == behind_b,
{
    let whole_a = escaped(a) + behind_a;
    let whole_b = escaped(b) + behind_b;
    assert(whole_a[0] == escaped(a)[0] && whole_b[0] == escaped(b)[0]);
    if escaped(a)[0] == '\\' {
        assert(escaped(a).len() >= 2 && escaped(b).len() >= 2);
        assert(whole_a[1] == escaped(a)[1] && whole_b[1] == escaped(b)[1]);
        if escaped(a)[1] == 'u' {
            assert(whole_a[4] == escaped(a)[4] && whole_b[4] == escaped(b)[4]);
            assert(whole_a[5] == escaped(a)[5] && whole_b[5] == escaped(b)[5]);
            assert(a as int / 16 == b as int / 16);
            assert(a as int % 16 == b as int % 16);
        }
    }
    assert(a == b);
    assert(behind_a =~= whole_a.skip(escaped(a).len() as int));
    assert(behind_b =~= whole_b.skip(escaped(b).len() as int));
}

proof fn escaped_texts_differ(a: Seq<char>, b: Seq<char>)
    requires
        escaped_text(a) == escaped_text(b),
    ensures
        a == b,
    decreases a.len(),
{
    if a.len() > 0 {
        escaped_from_the_front(a);
    }
    if b.len() > 0 {
        escaped_from_the_front(b);
    }
    if a.len() > 0 && b.len() > 0 {
        escaped_characters_differ(
            a[0],
            b[0],
            escaped_text(a.drop_first()),
            escaped_text(b.drop_first()),
        );
        escaped_texts_differ(a.drop_first(), b.drop_first());
        assert(a =~= seq![a[0]] + a.drop_first());
        assert(b =~= seq![b[0]] + b.drop_first());
    } else {
        assert(a.len() > 0 ==> escaped(a[0]).len() > 0 && escaped_text(a).len() > 0);
        assert(b.len() > 0 ==> escaped(b[0]).len() > 0 && escaped_text(b).len() > 0);
        assert(a.len() == 0 ==> escaped_text(a).len() == 0);
        assert(b.len() == 0 ==> escaped_text(b).len() == 0);
        assert(a =~= b);
    }
}

/// No two texts are the same JSON string: nothing is lost in quoting.
pub proof fn quoting_tells_texts_apart(a: Seq<char>, b: Seq<char>)
    requires
        quoted(a) == quoted(b),
    ensures
        a == b,
{
    let inner_a = escaped_text(a);
    let inner_b = escaped_text(b);
    assert(inner_a =~= quoted(a).subrange(1, quoted(a).len() - 1));
    assert(inner_b =~= quoted(b).subrange(1, quoted(b).len() - 1));
    escaped_texts_differ(a, b);
}

/// The order of the entries of an object does not count: where each name is there once,
/// any arrangement of the entries means the same.
pub proof fn the_order_of_entries_does_not_count(
    entries: Seq<(Seq<char>, JsonModel)>,
    others: Seq<(Seq<char>, JsonModel)>,
)
    requires
        forall|i: int, j: int|
            #![trigger entries[i], entries[j]]
            0 <= i < j < entries.len() ==> entries[i].0 != entries[j].0,
        forall|i: int, j: int|
            #![trigger others[i], others[j]]
            0 <= i < j < others.len() ==> others[i].0 != others[j].0,
        forall|entry: (Seq<char>, JsonModel)|
            #![trigger entries.contains(entry)]
            #![trigger others.contains(entry)]
            entries.contains(entry) <==> others.contains(entry),
    ensures
        JsonModel::Object(entries).meaning() == JsonModel::Object(others).meaning(),
{
    let left = fields_meaning(entries);
    let right = fields_meaning(others);
    assert forall|name: Seq<char>| #[trigger] left.contains_key(name) implies right.contains_key(
        name,
    ) && left[name] == right[name] by {
        let i = fields_are_named_entries(entries, name);
        assert(entries.contains(entries[i]) && others.contains(entries[i]));
        let k = choose|k: int| 0 <= k < others.len() && others[k] == entries[i];
        a_single_name_means_its_entry(entries, i);
        a_single_name_means_its_entry(others, k);
    }
    assert forall|name: Seq<char>| #[trigger] right.contains_key(name) implies left.contains_key(
        name,
    ) by {
        let k = fields_are_named_entries(others, name);
        assert(others.contains(others[k]) && entries.contains(others[k]));
        let i = choose|i: int| 0 <= i < entries.len() && entries[i] == others[k];
        a_single_name_means_its_entry(entries, i);
    }
    assert(left =~= right);
}

proof fn a_single_name_means_its_entry(entries: Seq<(Seq<char>, JsonModel)>, i: int)
    requires
        0 <= i < entries.len(),
        forall|j: int, k: int|
            #![trigger entries[j], entries[k]]
            0 <= j < k < entries.len() ==> entries[j].0 != entries[k].0,
    ensures
        fields_meaning(entries).contains_key(entries[i].0),
        fields_meaning(entries)[entries[i].0] == entries[i].1.meaning(),
    decreases entries.len(),
{
    if i > 0 {
        let rest = entries.subrange(1, entries.len() as int);
        assert(entries[0].0 != entries[i].0);
        assert(rest[i - 1] == entries[i]);
        assert forall|j: int, k: int|
            #![trigger rest[j], rest[k]]
            0 <= j < k < rest.len() implies rest[j].0 != rest[k].0 by {
            assert(rest[j] == entries[j + 1] && rest[k] == entries[k + 1]);
        }
        a_single_name_means_its_entry(rest, i - 1);
    }
}

} // verus!
