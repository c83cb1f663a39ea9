//! JSON values: what the bridge reads from its peers and what it sends to them.
//!
//! Text is read and written by `serde_json`. In between, a value is a [`Json`], whose
//! mathematical model is a [`JsonView`].

use vstd::prelude::*;

verus! {

/// `serde_json::Number`, carried as it is.
#[verifier::external_type_specification]
#[verifier::external_body]
pub struct ExNumber(serde_json::Number);

/// `serde_json::Value`, the form in which `serde_json` hands a value over.
#[verifier::external_type_specification]
#[verifier::external_body]
pub struct ExValue(serde_json::Value);

/// `serde_json::Error`, the reason why a text is not JSON.
#[verifier::external_type_specification]
#[verifier::external_body]
pub struct ExJsonError(serde_json::Error);

/// The value of a JSON number: an integer, or the notation of any other number.
pub enum NumberView {
    Integer(int),
    Real(Seq<char>),
}

/// A JSON value. The order of an object's fields has no meaning.
#[verifier::ext_equal]
pub enum JsonView {
    Null,
    Bool(bool),
    Number(NumberView),
    Text(Seq<char>),
    Array(Seq<JsonView>),
    Object(Map<Seq<char>, JsonView>),
}

/// The value that a `serde_json::Number` holds.
pub uninterp spec fn number_value(n: serde_json::Number) -> NumberView;

/// The value that a `serde_json::Value` holds.
pub uninterp spec fn value_contents(v: serde_json::Value) -> JsonView;

/// The value that `serde_json::from_str` reads from a text, if the text is JSON.
pub uninterp spec fn json_read(text: Seq<char>) -> Option<JsonView>;

/// The compact notation that `serde_json` writes for a value.
pub uninterp spec fn json_text(v: JsonView) -> Seq<char>;

/// A JSON value.
#[derive(Debug)]
pub enum Json {
    Null,
    Bool(bool),
    Number(serde_json::Number),
    Text(String),
    Array(Vec<Json>),
    Object(Fields),
}

/// The fields of a JSON object. Where a name occurs twice, the later entry counts.
#[derive(Debug)]
pub struct Fields {
    pub entries: Vec<(String, Json)>,
}

/// The model of a value.
pub open spec fn json_view(j: Json) -> JsonView
    decreases j,
{
    match j {
        Json::Null => JsonView::Null,
        Json::Bool(b) => JsonView::Bool(b),
        Json::Number(n) => JsonView::Number(number_value(n)),
        Json::Text(s) => JsonView::Text(s@),
        Json::Array(items) => JsonView::Array(items_view(items@)),
        Json::Object(fields) => JsonView::Object(entries_view(fields.entries@)),
    }
}

/// The models of the values in a list.
pub open spec fn items_view(items: Seq<Json>) -> Seq<JsonView>
    decreases items,
{
    Seq::new(
        items.len(),
        |i: int|
            if 0 <= i < items.len() {
                json_view(items[i])
            } else {
                JsonView::Null
            },
    )
}

/// The fields that a list of entries makes up.
pub open spec fn entries_view(entries: Seq<(String, Json)>) -> Map<Seq<char>, JsonView>
    decreases entries,
{
    if entries.len() == 0 {
        Map::empty()
    } else {
        entries_view(entries.drop_last()).insert(entries.last().0@, json_view(entries.last().1))
    }
}

impl View for Json {
    type V = JsonView;

    open spec fn view(&self) -> JsonView {
        json_view(*self)
    }
}

impl View for Fields {
    type V = Map<Seq<char>, JsonView>;

    open spec fn view(&self) -> Map<Seq<char>, JsonView> {
        entries_view(self.entries@)
    }
}

/// The model of an optional value.
pub open spec fn optional_json(j: Option<Json>) -> Option<JsonView> {
    match j {
        Some(v) => Some(v@),
        None => None,
    }
}

/// The model of an optional reference to a value.
pub open spec fn optional_view(j: Option<&Json>) -> Option<JsonView> {
    match j {
        Some(v) => Some(v@),
        None => None,
    }
}

impl JsonView {
    /// The field `key`, if the value is an object that has it.
    pub open spec fn get(self, key: Seq<char>) -> Option<JsonView> {
        match self {
            JsonView::Object(fields) => if fields.contains_key(key) {
                Some(fields[key])
            } else {
                None
            },
            _ => None,
        }
    }

    /// The item at position `i`, if the value is an array that long.
    pub open spec fn item(self, i: int) -> Option<JsonView> {
        match self {
            JsonView::Array(items) => if 0 <= i < items.len() {
                Some(items[i])
            } else {
                None
            },
            _ => None,
        }
    }

    /// The characters, if the value is a string.
    pub open spec fn text(self) -> Option<Seq<char>> {
        match self {
            JsonView::Text(s) => Some(s),
            _ => None,
        }
    }

    /// The items, if the value is an array.
    pub open spec fn items(self) -> Option<Seq<JsonView>> {
        match self {
            JsonView::Array(items) => Some(items),
            _ => None,
        }
    }

    /// The integer, if the value is a number that is one.
    pub open spec fn integer(self) -> Option<int> {
        match self {
            JsonView::Number(NumberView::Integer(i)) => Some(i),
            _ => None,
        }
    }

    /// The characters of the field `key`, if it is a string.
    pub open spec fn text_at(self, key: Seq<char>) -> Option<Seq<char>> {
        match self.get(key) {
            Some(v) => v.text(),
            None => None,
        }
    }
}

/// The field `key` of an optional value.
pub open spec fn field_of(v: Option<JsonView>, key: Seq<char>) -> Option<JsonView> {
    match v {
        Some(v) => v.get(key),
        None => None,
    }
}

/// The item at position `i` of an optional value.
pub open spec fn item_of(v: Option<JsonView>, i: int) -> Option<JsonView> {
    match v {
        Some(v) => v.item(i),
        None => None,
    }
}

/// The characters of an optional value that is a string.
pub open spec fn text_of(v: Option<JsonView>) -> Option<Seq<char>> {
    match v {
        Some(v) => v.text(),
        None => None,
    }
}

/// The items of an optional value that is an array.
pub open spec fn items_of(v: Option<JsonView>) -> Option<Seq<JsonView>> {
    match v {
        Some(v) => v.items(),
        None => None,
    }
}

/// `serde_json::Number::clone`: the copy is the same number.
pub assume_specification[ <serde_json::Number as Clone>::clone ](
    n: &serde_json::Number,
) -> (r: serde_json::Number)
    ensures
        r == *n,
;

/// `serde_json::Number::from::<i64>`: the number is the integer.
#[verifier::external_body]
fn number_from_signed(i: i64) -> (r: serde_json::Number)
    ensures
        number_value(r) == NumberView::Integer(i as int),
{
    serde_json::Number::from(i)
}

/// `serde_json::Number::from::<u64>`: the number is the integer.
#[verifier::external_body]
fn number_from_unsigned(i: u64) -> (r: serde_json::Number)
    ensures
        number_value(r) == NumberView::Integer(i as int),
{
    serde_json::Number::from(i)
}

/// `serde_json::Number::as_u64`: the integer, where the number is one and a `u64` can hold it.
#[verifier::external_body]
fn number_as_unsigned(n: &serde_json::Number) -> (r: Option<u64>)
    ensures
        match number_value(*n) {
            NumberView::Integer(i) => r == (if 0 <= i <= u64::MAX {
                Some(i as u64)
            } else {
                None
            }),
            NumberView::Real(_) => r is None,
        },
{
    n.as_u64()
}

/// A value of `serde_json` taken apart: its variant, and what the variant holds.
pub enum Shape {
    Null,
    Bool(bool),
    Number(serde_json::Number),
    Text(String),
    Array(Vec<serde_json::Value>),
    Object(Vec<(String, serde_json::Value)>),
}

/// The values that a list holds.
pub open spec fn values_contents(values: Seq<serde_json::Value>) -> Seq<JsonView> {
    values.map_values(|v: serde_json::Value| value_contents(v))
}

/// The fields that a list of entries makes up. Where a name occurs twice, the later entry counts.
pub open spec fn named_contents(entries: Seq<(String, serde_json::Value)>) -> Map<
    Seq<char>,
    JsonView,
>
    decreases entries.len(),
{
    if entries.len() == 0 {
        Map::empty()
    } else {
        named_contents(entries.drop_last()).insert(
            entries.last().0@,
            value_contents(entries.last().1),
        )
    }
}

/// The value that a shape stands for.
pub open spec fn shape_contents(shape: Shape) -> JsonView {
    match shape {
        Shape::Null => JsonView::Null,
        Shape::Bool(b) => JsonView::Bool(b),
        Shape::Number(n) => JsonView::Number(number_value(n)),
        Shape::Text(s) => JsonView::Text(s@),
        Shape::Array(items) => JsonView::Array(values_contents(items@)),
        Shape::Object(entries) => JsonView::Object(named_contents(entries@)),
    }
}

/// Whether no two entries have the same name.
pub open spec fn distinct_names(entries: Seq<(String, serde_json::Value)>) -> bool {
    forall|i: int, j: int|
        0 <= i < j < entries.len() ==> (#[trigger] entries[i]).0@ != (#[trigger] entries[j]).0@
}

/// Takes a `serde_json::Value` apart by its variant. A `serde_json::Map` hands out its entries,
/// no two of which have the same name.
#[verifier::external_body]
fn open_value(v: serde_json::Value) -> (r: Shape)
    ensures
        shape_contents(r) == value_contents(v),
        r matches Shape::Object(entries) ==> distinct_names(entries@),
{
    match v {
        serde_json::Value::Null => Shape::Null,
        serde_json::Value::Bool(b) => Shape::Bool(b),
        serde_json::Value::Number(n) => Shape::Number(n),
        serde_json::Value::String(s) => Shape::Text(s),
        serde_json::Value::Array(items) => Shape::Array(items),
        serde_json::Value::Object(map) => Shape::Object(map.into_iter().collect()),
    }
}

/// Puts a `serde_json::Value` together by its variant. A `serde_json::Map` collects the entries,
/// each of which has a name of its own.
#[verifier::external_body]
fn build_value(shape: Shape) -> (r: serde_json::Value)
    requires
        shape matches Shape::Object(entries) ==> distinct_names(entries@),
    ensures
        value_contents(r) == shape_contents(shape),
{
    match shape {
        Shape::Null => serde_json::Value::Null,
        Shape::Bool(b) => serde_json::Value::Bool(b),
        Shape::Number(n) => serde_json::Value::Number(n),
        Shape::Text(s) => serde_json::Value::String(s),
        Shape::Array(items) => serde_json::Value::Array(items),
        Shape::Object(entries) => serde_json::Value::Object(entries.into_iter().collect()),
    }
}

/// `serde_json::from_str::<serde_json::Value>`: whether the text is JSON, and which value it
/// denotes, depends on the text alone.
#[verifier::external_body]
fn read_value(text: &str) -> (r: Result<serde_json::Value, serde_json::Error>)
    ensures
        match r {
            Ok(v) => json_read(text@) == Some(value_contents(v)),
            Err(_) => json_read(text@) is None,
        },
{
    serde_json::from_str(text)
}

/// `<serde_json::Value as Display>::to_string`: the compact notation depends on the value alone,
/// since a map keeps its entries sorted by name. It holds no line break: the writer puts no
/// white space between tokens and escapes every control character inside a string.
#[verifier::external_body]
fn value_text(v: &serde_json::Value) -> (r: String)
    ensures
        r@ == json_text(value_contents(*v)),
        !r@.contains('\n'),
{
    v.to_string()
}

/// A list in reverse order.
fn reversed<T>(list: Vec<T>) -> (r: Vec<T>)
    ensures
        r@.len() == list@.len(),
        forall|k: int| 0 <= k < r@.len() ==> #[trigger] r@[k] == list@[list@.len() - 1 - k],
{
    let mut rest: Vec<T> = list;
    let mut out: Vec<T> = Vec::new();
    while rest.len() > 0
        invariant
            rest@ == list@.take(rest@.len() as int),
            rest@.len() + out@.len() == list@.len(),
            forall|k: int| 0 <= k < out@.len() ==> #[trigger] out@[k] == list@[list@.len() - 1 - k],
        decreases rest@.len(),
    {
        match rest.pop() {
            Some(item) => {
                out.push(item);
            },
            None => {},
        }
    }
    out
}

/// What an entry with a name of its own stands for.
proof fn lemma_named(entries: Seq<(String, serde_json::Value)>, i: int)
    requires
        distinct_names(entries),
        0 <= i < entries.len(),
    ensures
        named_contents(entries).dom().finite(),
        named_contents(entries).contains_key(entries[i].0@),
        named_contents(entries)[entries[i].0@] == value_contents(entries[i].1),
    decreases entries.len(),
{
    let rest = entries.drop_last();
    if i < rest.len() {
        assert(rest[i] == entries[i]);
        assert(entries[i].0@ != entries.last().0@);
        lemma_named(rest, i);
    } else {
        lemma_named_finite(rest);
    }
}

/// A list of entries makes up finitely many fields.
proof fn lemma_named_finite(entries: Seq<(String, serde_json::Value)>)
    ensures
        named_contents(entries).dom().finite(),
    decreases entries.len(),
{
    if entries.len() > 0 {
        lemma_named_finite(entries.drop_last());
    }
}

/// The value that a `serde_json::Value` holds.
pub fn from_value(v: serde_json::Value) -> (r: Json)
    ensures
        r@ == value_contents(v),
    decreases value_contents(v),
{
    let ghost contents = value_contents(v);
    match open_value(v) {
        Shape::Null => Json::Null,
        Shape::Bool(b) => Json::Bool(b),
        Shape::Number(n) => Json::Number(n),
        Shape::Text(s) => Json::Text(s),
        Shape::Array(items) => {
            let total: usize = items.len();
            let mut rest: Vec<serde_json::Value> = reversed(items);
            let mut copy: Vec<Json> = Vec::new();
            while copy.len() < total
                invariant
                    contents == value_contents(v),
                    contents == JsonView::Array(values_contents(items@)),
                    total == items@.len(),
                    copy@.len() <= total,
                    rest@.len() == total - copy@.len(),
                    forall|k: int|
                        0 <= k < rest@.len() ==> #[trigger] rest@[k] == items@[total - 1 - k],
                    forall|k: int|
                        0 <= k < copy@.len() ==> (#[trigger] copy@[k])@ == value_contents(items@[k]),
                decreases total - copy@.len(),
            {
                let ghost i = copy@.len() as int;
                match rest.pop() {
                    Some(item) => {
                        proof {
                            let list = contents->Array_0;
                            assert(item == items@[i]);
                            assert(list[i] == value_contents(item));
                            assert(decreases_to!(contents => list));
                            assert(decreases_to!(list => list[i]));
                        }
                        copy.push(from_value(item));
                    },
                    None => {},
                }
            }
            assert(items_view(copy@) == values_contents(items@));
            Json::Array(copy)
        },
        Shape::Object(entries) => {
            let total: usize = entries.len();
            let mut rest: Vec<(String, serde_json::Value)> = reversed(entries);
            let mut copy: Vec<(String, Json)> = Vec::new();
            while copy.len() < total
                invariant
                    contents == value_contents(v),
                    contents == JsonView::Object(named_contents(entries@)),
                    distinct_names(entries@),
                    total == entries@.len(),
                    copy@.len() <= total,
                    rest@.len() == total - copy@.len(),
                    forall|k: int|
                        0 <= k < rest@.len() ==> #[trigger] rest@[k] == entries@[total - 1 - k],
                    entries_view(copy@) == named_contents(entries@.take(copy@.len() as int)),
                decreases total - copy@.len(),
            {
                let ghost i = copy@.len() as int;
                let ghost before = copy@;
                match rest.pop() {
                    Some(entry) => {
                        let (name, value): (String, serde_json::Value) = entry;
                        proof {
                            let fields = contents->Object_0;
                            assert((name, value) == entries@[i]);
                            lemma_named(entries@, i);
                            assert(fields[name@] == value_contents(value));
                            assert(decreases_to!(contents => fields));
                            assert(decreases_to!(fields => fields[name@]));
                        }
                        copy.push((name, from_value(value)));
                        proof {
                            assert(copy@.drop_last() == before);
                            assert(entries@.take(i + 1).drop_last() == entries@.take(i));
                        }
                    },
                    None => {},
                }
            }
            assert(entries@.take(total as int) == entries@);
            Json::Object(Fields { entries: copy })
        },
    }
}

/// Where an entry has a name of its own, replacing its value replaces what the name stands for.
proof fn lemma_replaced(
    entries: Seq<(String, serde_json::Value)>,
    p: int,
    entry: (String, serde_json::Value),
)
    requires
        distinct_names(entries),
        0 <= p < entries.len(),
        entry.0@ == entries[p].0@,
    ensures
        distinct_names(entries.update(p, entry)),
        named_contents(entries.update(p, entry)) == named_contents(entries).insert(
            entry.0@,
            value_contents(entry.1),
        ),
    decreases entries.len(),
{
    let after = entries.update(p, entry);
    assert forall|i: int, j: int| 0 <= i < j < after.len() implies (#[trigger] after[i]).0@ != (
    #[trigger] after[j]).0@ by {
        assert(entries[i].0@ != entries[j].0@);
    }
    let last = entries.len() - 1;
    if p == last {
        assert(after.drop_last() == entries.drop_last());
    } else {
        assert(entries[p].0@ != entries[last].0@);
        lemma_replaced(entries.drop_last(), p, entry);
        assert(after.drop_last() == entries.drop_last().update(p, entry));
    }
    assert(named_contents(after) == named_contents(entries).insert(
        entry.0@,
        value_contents(entry.1),
    ));
}

/// Sets the entry with a name to a value, whether there is one yet or not.
fn set_entry(entries: &mut Vec<(String, serde_json::Value)>, name: String, value: serde_json::Value)
    requires
        distinct_names(old(entries)@),
    ensures
        distinct_names(final(entries)@),
        named_contents(final(entries)@) == named_contents(old(entries)@).insert(
            name@,
            value_contents(value),
        ),
{
    let mut i: usize = 0;
    while i < entries.len()
        invariant
            entries@ == old(entries)@,
            distinct_names(entries@),
            i <= entries@.len(),
            forall|k: int| 0 <= k < i ==> (#[trigger] entries@[k]).0@ != name@,
        decreases entries@.len() - i,
    {
        if entries[i].0 == name {
            proof {
                lemma_replaced(entries@, i as int, (name, value));
            }
            entries.set(i, (name, value));
            return;
        }
        i += 1;
    }
    entries.push((name, value));
    assert(entries@.drop_last() == old(entries)@);
}

/// The `serde_json::Value` that holds a value.
pub fn to_value(j: &Json) -> (r: serde_json::Value)
    ensures
        value_contents(r) == j@,
    decreases j,
{
    let shape: Shape = match j {
        Json::Null => Shape::Null,
        Json::Bool(b) => Shape::Bool(*b),
        Json::Number(n) => Shape::Number(n.clone()),
        Json::Text(s) => Shape::Text(s.clone()),
        Json::Array(items) => {
            let mut values: Vec<serde_json::Value> = Vec::new();
            let mut i: usize = 0;
            while i < items.len()
                invariant
                    *j == Json::Array(*items),
                    i <= items@.len(),
                    values@.len() == i,
                    forall|k: int|
                        0 <= k < i ==> value_contents(#[trigger] values@[k]) == items@[k]@,
                decreases items@.len() - i,
            {
                assert(decreases_to!(*j => j->Array_0));
                assert(decreases_to!(*items => items@));
                assert(decreases_to!(items@ => items@[i as int]));
                values.push(to_value(&items[i]));
                i += 1;
            }
            assert(values_contents(values@) == items_view(items@));
            Shape::Array(values)
        },
        Json::Object(fields) => {
            let mut entries: Vec<(String, serde_json::Value)> = Vec::new();
            let mut i: usize = 0;
            while i < fields.entries.len()
                invariant
                    *j == Json::Object(*fields),
                    i <= fields.entries@.len(),
                    distinct_names(entries@),
                    named_contents(entries@) == entries_view(fields.entries@.take(i as int)),
                decreases fields.entries@.len() - i,
            {
                let entry: &(String, Json) = &fields.entries[i];
                assert(decreases_to!(*j => j->Object_0));
                assert(decreases_to!(*fields => fields.entries));
                assert(decreases_to!(fields.entries => fields.entries@));
                assert(decreases_to!(fields.entries@ => fields.entries@[i as int]));
                assert(decreases_to!(*entry => entry.1));
                set_entry(&mut entries, entry.0.clone(), to_value(&entry.1));
                assert(fields.entries@.take(i + 1).drop_last() == fields.entries@.take(i as int));
                i += 1;
            }
            assert(fields.entries@.take(i as int) == fields.entries@);
            Shape::Object(entries)
        },
    };
    build_value(shape)
}

/// Reads a JSON text.
pub fn parse(text: &str) -> (r: Option<Json>)
    ensures
        optional_json(r) == json_read(text@),
{
    match read_value(text) {
        Ok(v) => Some(from_value(v)),
        Err(_) => None,
    }
}

impl Fields {
    /// No fields.
    pub fn new() -> (r: Fields)
        ensures
            r@ == Map::<Seq<char>, JsonView>::empty(),
    {
        Fields { entries: Vec::new() }
    }

    /// The fields with `key` set to `value`.
    pub fn with(self, key: &str, value: Json) -> (r: Fields)
        ensures
            r@ == self@.insert(key@, value@),
    {
        let mut entries: Vec<(String, Json)> = self.entries;
        let ghost before = entries@;
        entries.push((key.to_owned(), value));
        assert(entries@.drop_last() == before);
        Fields { entries }
    }

    /// The value of the field `key`.
    pub fn get(&self, key: &str) -> (r: Option<&Json>)
        ensures
            optional_view(r) == JsonView::Object(self@).get(key@),
    {
        let name: String = key.to_owned();
        let mut i: usize = self.entries.len();
        assert(self.entries@.take(i as int) == self.entries@);
        while i > 0
            invariant
                i <= self.entries@.len(),
                name@ == key@,
                JsonView::Object(self@).get(key@) == JsonView::Object(
                    entries_view(self.entries@.take(i as int)),
                ).get(key@),
            decreases i,
        {
            assert(self.entries@.take(i as int).drop_last() == self.entries@.take(i - 1));
            assert(self.entries@.take(i as int).last() == self.entries@[i - 1]);
            i -= 1;
            if self.entries[i].0 == name {
                return Some(&self.entries[i].1);
            }
        }
        assert(self.entries@.take(0).len() == 0);
        None
    }
}

impl Clone for Json {
    fn clone(&self) -> (r: Json)
        ensures
            r@ == self@,
        decreases self,
    {
        match self {
            Json::Null => Json::Null,
            Json::Bool(b) => Json::Bool(*b),
            Json::Number(n) => Json::Number(n.clone()),
            Json::Text(s) => Json::Text(s.clone()),
            Json::Array(items) => {
                let mut copy: Vec<Json> = Vec::new();
                let mut i: usize = 0;
                while i < items.len()
                    invariant
                        *self == Json::Array(*items),
                        i <= items@.len(),
                        items_view(copy@) == items_view(items@.take(i as int)),
                    decreases items@.len() - i,
                {
                    let ghost before = copy@;
                    assert(decreases_to!(*self => self->Array_0));
                    assert(decreases_to!(*items => items@));
                    assert(decreases_to!(items@ => items@[i as int]));
                    copy.push(items[i].clone());
                    proof {
                        assert(items_view(before).len() == items_view(items@.take(i as int)).len());
                        assert forall|k: int| 0 <= k < copy@.len() implies items_view(copy@)[k]
                            == items_view(items@.take(i + 1))[k] by {
                            if k < i {
                                assert(items_view(before)[k] == items_view(items@.take(i as int))[k]);
                            }
                        }
                        assert(items_view(copy@) == items_view(items@.take(i + 1)));
                    }
                    i += 1;
                }
                assert(items@.take(i as int) == items@);
                Json::Array(copy)
            },
            Json::Object(fields) => {
                let mut copy: Vec<(String, Json)> = Vec::new();
                let mut i: usize = 0;
                while i < fields.entries.len()
                    invariant
                        *self == Json::Object(*fields),
                        i <= fields.entries@.len(),
                        entries_view(copy@) == entries_view(fields.entries@.take(i as int)),
                    decreases fields.entries@.len() - i,
                {
                    let ghost before = copy@;
                    let entry: &(String, Json) = &fields.entries[i];
                    assert(decreases_to!(*self => self->Object_0));
                    assert(decreases_to!(*fields => fields.entries));
                    assert(decreases_to!(fields.entries => fields.entries@));
                    assert(decreases_to!(fields.entries@ => fields.entries@[i as int]));
                    assert(decreases_to!(*entry => entry.1));
                    copy.push((entry.0.clone(), entry.1.clone()));
                    proof {
                        assert(copy@.drop_last() == before);
                        assert(fields.entries@.take(i + 1).drop_last() == fields.entries@.take(
                            i as int,
                        ));
                    }
                    i += 1;
                }
                assert(fields.entries@.take(i as int) == fields.entries@);
                Json::Object(Fields { entries: copy })
            },
        }
    }
}

/// A copy of a list of values.
pub fn copy_list(items: &Vec<Json>) -> (r: Vec<Json>)
    ensures
        items_view(r@) == items_view(items@),
{
    let mut copy: Vec<Json> = Vec::new();
    let mut i: usize = 0;
    while i < items.len()
        invariant
            i <= items@.len(),
            copy@.len() == i,
            forall|k: int| 0 <= k < i ==> (#[trigger] copy@[k])@ == items@[k]@,
        decreases items@.len() - i,
    {
        copy.push(items[i].clone());
        i += 1;
    }
    assert(items_view(copy@) == items_view(items@));
    copy
}

impl Json {
    /// The string `s`.
    pub fn text(s: &str) -> (r: Json)
        ensures
            r@ == JsonView::Text(s@),
    {
        Json::Text(s.to_owned())
    }

    /// The integer `i`.
    pub fn signed(i: i64) -> (r: Json)
        ensures
            r@ == JsonView::Number(NumberView::Integer(i as int)),
    {
        Json::Number(number_from_signed(i))
    }

    /// The integer `i`.
    pub fn unsigned(i: u64) -> (r: Json)
        ensures
            r@ == JsonView::Number(NumberView::Integer(i as int)),
    {
        Json::Number(number_from_unsigned(i))
    }

    /// The field `key`, if the value is an object that has it.
    pub fn get(&self, key: &str) -> (r: Option<&Json>)
        ensures
            optional_view(r) == self@.get(key@),
    {
        match self {
            Json::Object(fields) => fields.get(key),
            _ => None,
        }
    }

    /// The item at position `i`, if the value is an array that long.
    pub fn item(&self, i: usize) -> (r: Option<&Json>)
        ensures
            optional_view(r) == self@.item(i as int),
    {
        match self {
            Json::Array(items) => if i < items.len() {
                Some(&items[i])
            } else {
                None
            },
            _ => None,
        }
    }

    /// The characters, if the value is a string.
    pub fn as_str(&self) -> (r: Option<&str>)
        ensures
            match r {
                Some(s) => self@.text() == Some(s@),
                None => self@.text() is None,
            },
    {
        match self {
            Json::Text(s) => Some(s.as_str()),
            _ => None,
        }
    }

    /// The items, if the value is an array.
    pub fn as_array(&self) -> (r: Option<&Vec<Json>>)
        ensures
            match r {
                Some(items) => self@.items() == Some(items_view(items@)),
                None => self@.items() is None,
            },
    {
        match self {
            Json::Array(items) => Some(items),
            _ => None,
        }
    }

    /// The integer, if the value is a number that is one and a `u64` can hold it.
    pub fn as_u64(&self) -> (r: Option<u64>)
        ensures
            match r {
                Some(i) => self@.integer() == Some(i as int),
                None => self@.integer() is None || !(0 <= self@.integer()->0 <= u64::MAX),
            },
    {
        match self {
            Json::Number(n) => number_as_unsigned(n),
            _ => None,
        }
    }

    /// The characters of the field `key`, if it is a string.
    pub fn text_at(&self, key: &str) -> (r: Option<String>)
        ensures
            crate::text::optional_text(r) == self@.text_at(key@),
    {
        match self.get(key) {
            Some(v) => match v.as_str() {
                Some(s) => Some(s.to_owned()),
                None => None,
            },
            None => None,
        }
    }

    /// The value's compact notation, on one line.
    pub fn render(&self) -> (r: String)
        ensures
            r@ == json_text(self@),
            !r@.contains('\n'),
    {
        value_text(&to_value(self))
    }
}

/// A field is found just where the value is an object that has it, an item just where it is an array
/// that long, and so on: nothing else is taken for one.
pub proof fn values_are_read_as_they_are(v: JsonView, key: Seq<char>, i: int)
    ensures
        v.get(key) == (if v is Object && v->Object_0.contains_key(key) {
            Some(v->Object_0[key])
        } else {
            None
        }),
        v.item(i) == (if v is Array && 0 <= i < v->Array_0.len() {
            Some(v->Array_0[i])
        } else {
            None
        }),
        v.text() == (if v is Text {
            Some(v->Text_0)
        } else {
            None
        }),
        v.items() == (if v is Array {
            Some(v->Array_0)
        } else {
            None
        }),
        v.text_at(key) == text_of(v.get(key)),
        field_of(Some(v), key) == v.get(key),
        item_of(Some(v), i) == v.item(i),
        text_of(Some(v)) == v.text(),
        items_of(Some(v)) == v.items(),
        field_of(None, key) is None,
        item_of(None, i) is None,
        text_of(None) is None,
        items_of(None) is None,
        forall|n: int| (v.integer() == Some(n)) == (v == JsonView::Number(NumberView::Integer(n))),
{
}

/// A value stands for what it holds: strings for their characters, lists for their items in order.
pub proof fn values_stand_for_what_they_hold(
    b: bool,
    n: serde_json::Number,
    s: String,
    items: Vec<Json>,
    fields: Fields,
)
    ensures
        Json::Null@ == JsonView::Null,
        Json::Bool(b)@ == JsonView::Bool(b),
        Json::Number(n)@ == JsonView::Number(number_value(n)),
        Json::Text(s)@ == JsonView::Text(s@),
        Json::Array(items)@ == JsonView::Array(items@.map_values(|j: Json| j@)),
        Json::Object(fields)@ == JsonView::Object(fields@),
        items_view(items@) == items@.map_values(|j: Json| j@),
{
    assert(items_view(items@) == items@.map_values(|j: Json| j@));
}

/// A field has the value of the last entry with its name, and there is none without an entry.
pub proof fn the_last_entry_counts(entries: Seq<(String, Json)>, key: Seq<char>)
    ensures
        entries_view(entries).contains_key(key) <==> exists|i: int|
            0 <= i < entries.len() && (#[trigger] entries[i]).0@ == key,
        forall|i: int|
            0 <= i < entries.len() && (#[trigger] entries[i]).0@ == key && (forall|j: int|
                i < j < entries.len() ==> (#[trigger] entries[j]).0@ != key) ==> entries_view(
                entries,
            )[key] == entries[i].1@,
    decreases entries.len(),
{
    if entries.len() > 0 {
        let rest = entries.drop_last();
        let n = entries.len() - 1;
        the_last_entry_counts(rest, key);
        assert forall|i: int|
            0 <= i < entries.len() && (#[trigger] entries[i]).0@ == key && (forall|j: int|
                i < j < entries.len() ==> (#[trigger] entries[j]).0@ != key) implies entries_view(
            entries,
        )[key] == entries[i].1@ by {
            if i < n {
                assert(entries[n].0@ != key);
                assert(rest[i] == entries[i]);
                assert forall|j: int| i < j < rest.len() implies (#[trigger] rest[j]).0@ != key by {
                    assert(entries[j].0@ != key);
                }
            }
        }
        if entries_view(entries).contains_key(key) {
            if entries[n].0@ != key {
                let i = choose|i: int| 0 <= i < rest.len() && (#[trigger] rest[i]).0@ == key;
                assert(entries[i].0@ == key);
            }
        }
        if exists|i: int| 0 <= i < entries.len() && (#[trigger] entries[i]).0@ == key {
            let i = choose|i: int| 0 <= i < entries.len() && (#[trigger] entries[i]).0@ == key;
            if i < n {
                assert(rest[i].0@ == key);
            }
        }
    }
}

} // verus!
