//! JSON values as the engine sees them.
//!
//! A value is a plain tree. Text becomes a tree through the `serde_json`
//! crate, and the same crate renders a tree for a message; what lies
//! between (finding a member, comparing two values) is done here.

use serde_json::{Number, Value};
use vstd::prelude::*;

verus! {

/// A JSON number, kept as `serde_json` classifies it: a non-negative
/// integer, a negative integer, or anything else by its decimal text.
#[derive(Debug)]
pub enum JsonNumber {
    PosInt(u64),
    NegInt(i64),
    Float(String),
}

/// A JSON value.
#[derive(Debug)]
pub enum Json {
    Null,
    Bool(bool),
    Number(JsonNumber),
    Text(String),
    Array(Vec<Json>),
    Object(Vec<(String, Json)>),
}

/// What a `JsonNumber` holds.
pub enum NumberModel {
    PosInt(u64),
    NegInt(i64),
    Float(Seq<char>),
}

/// What a `Json` holds.
pub enum JsonModel {
    Null,
    Bool(bool),
    Number(NumberModel),
    Text(Seq<char>),
    Array(Seq<JsonModel>),
    Object(Seq<(Seq<char>, JsonModel)>),
}

impl View for JsonNumber {
    type V = NumberModel;

    open spec fn view(&self) -> NumberModel {
        match self {
            JsonNumber::PosInt(n) => NumberModel::PosInt(*n),
            JsonNumber::NegInt(n) => NumberModel::NegInt(*n),
            JsonNumber::Float(t) => NumberModel::Float(t@),
        }
    }
}

impl Json {
    /// The tree that the value holds.
    pub open spec fn model(self) -> JsonModel
        decreases self,
    {
        match self {
            Json::Null => JsonModel::Null,
            Json::Bool(b) => JsonModel::Bool(b),
            Json::Number(n) => JsonModel::Number(n@),
            Json::Text(s) => JsonModel::Text(s@),
            Json::Array(items) => JsonModel::Array(
                Seq::new(
                    items@.len(),
                    |i: int|
                        if 0 <= i < items@.len() {
                            items@[i].model()
                        } else {
                            JsonModel::Null
                        },
                ),
            ),
            Json::Object(fields) => JsonModel::Object(
                Seq::new(
                    fields@.len(),
                    |i: int|
                        if 0 <= i < fields@.len() {
                            (fields@[i].0@, fields@[i].1.model())
                        } else {
                            (Seq::empty(), JsonModel::Null)
                        },
                ),
            ),
        }
    }
}

impl View for Json {
    type V = JsonModel;

    open spec fn view(&self) -> JsonModel {
        self.model()
    }
}

/// Whether the text of a number that is no integer denotes zero.
pub open spec fn is_zero_text(t: Seq<char>) -> bool {
    t == "0.0"@ || t == "-0.0"@
}

/// Whether two numbers are equal: integers of the same sign class by their
/// value, other numbers by their text, the two zeros being equal. A number
/// of one class never equals one of another.
pub open spec fn same_number(a: NumberModel, b: NumberModel) -> bool {
    match (a, b) {
        (NumberModel::PosInt(x), NumberModel::PosInt(y)) => x == y,
        (NumberModel::NegInt(x), NumberModel::NegInt(y)) => x == y,
        (NumberModel::Float(x), NumberModel::Float(y)) => x == y || (is_zero_text(x)
            && is_zero_text(y)),
        _ => false,
    }
}

/// The position of the first member of `fields` named `key`, or the length
/// of `fields` where there is none.
pub open spec fn member_position(fields: Seq<(Seq<char>, JsonModel)>, key: Seq<char>) -> int
    decreases fields.len(),
{
    if fields.len() == 0 {
        0
    } else if fields[0].0 == key {
        0
    } else {
        1 + member_position(fields.drop_first(), key)
    }
}

/// The member named `key` of `value`: present only in an object that has
/// such a member.
pub open spec fn member(value: JsonModel, key: Seq<char>) -> Option<JsonModel> {
    match value {
        JsonModel::Object(fields) => {
            let at = member_position(fields, key);
            if at < fields.len() {
                Some(fields[at].1)
            } else {
                None
            }
        },
        _ => None,
    }
}

/// The element at `index` of `value`: present only in an array that is
/// long enough.
pub open spec fn element(value: JsonModel, index: nat) -> Option<JsonModel> {
    match value {
        JsonModel::Array(items) => if index < items.len() {
            Some(items[index as int])
        } else {
            None
        },
        _ => None,
    }
}

/// Whether two values are equal. Arrays are equal element by element;
/// objects are equal when every member of each has an equal member of the
/// same name in the other.
pub open spec fn same_json(a: JsonModel, b: JsonModel) -> bool
    decreases a,
{
    match (a, b) {
        (JsonModel::Null, JsonModel::Null) => true,
        (JsonModel::Bool(x), JsonModel::Bool(y)) => x == y,
        (JsonModel::Number(x), JsonModel::Number(y)) => same_number(x, y),
        (JsonModel::Text(x), JsonModel::Text(y)) => x == y,
        (JsonModel::Array(x), JsonModel::Array(y)) => x.len() == y.len() && forall|i: int|
            0 <= i < x.len() ==> same_json(#[trigger] x[i], y[i]),
        (JsonModel::Object(x), JsonModel::Object(y)) => (forall|i: int|
            0 <= i < x.len() ==> {
                let at = member_position(y, (#[trigger] x[i]).0);
                at < y.len() && same_json(x[i].1, y[at].1)
            }) && (forall|j: int|
            0 <= j < y.len() ==> {
                let at = member_position(x, (#[trigger] y[j]).0);
                0 <= at < x.len() && same_json(x[at].1, y[j].1)
            }),
        _ => false,
    }
}

/// `member_position` is a position of the fields, or their number.
pub proof fn lemma_member_position_range(fields: Seq<(Seq<char>, JsonModel)>, key: Seq<char>)
    ensures
        0 <= member_position(fields, key) <= fields.len(),
    decreases fields.len(),
{
    if fields.len() > 0 && fields[0].0 != key {
        lemma_member_position_range(fields.drop_first(), key);
    }
}

/// Two numbers are equal whichever comes first.
pub proof fn lemma_same_number_symmetric(a: NumberModel, b: NumberModel)
    ensures
        same_number(a, b) == same_number(b, a),
{
}

/// Two values are equal whichever comes first.
pub proof fn lemma_same_json_symmetric(a: JsonModel, b: JsonModel)
    requires
        same_json(a, b),
    ensures
        same_json(b, a),
    decreases a,
{
    match (a, b) {
        (JsonModel::Number(x), JsonModel::Number(y)) => {
            lemma_same_number_symmetric(x, y);
        },
        (JsonModel::Array(x), JsonModel::Array(y)) => {
            assert forall|i: int| 0 <= i < y.len() implies same_json(#[trigger] y[i], x[i]) by {
                assert(same_json(x[i], y[i]));
                lemma_same_json_symmetric(x[i], y[i]);
            }
        },
        (JsonModel::Object(x), JsonModel::Object(y)) => {
            assert forall|j: int| 0 <= j < y.len() implies {
                let at = member_position(x, (#[trigger] y[j]).0);
                at < x.len() && same_json(y[j].1, x[at].1)
            } by {
                let at = member_position(x, y[j].0);
                assert(0 <= at < x.len() && same_json(x[at].1, y[j].1));
                lemma_same_json_symmetric(x[at].1, y[j].1);
            }
            assert forall|i: int| 0 <= i < x.len() implies {
                let at = member_position(y, (#[trigger] x[i]).0);
                0 <= at < y.len() && same_json(y[at].1, x[i].1)
            } by {
                let at = member_position(y, x[i].0);
                lemma_member_position_range(y, x[i].0);
                assert(at < y.len() && same_json(x[i].1, y[at].1));
                lemma_same_json_symmetric(x[i].1, y[at].1);
            }
        },
        _ => {},
    }
}

/// Whether no object in `value` has two members of the same name.
pub open spec fn distinct_names(value: JsonModel) -> bool
    decreases value,
{
    match value {
        JsonModel::Array(items) => forall|i: int|
            0 <= i < items.len() ==> distinct_names(#[trigger] items[i]),
        JsonModel::Object(fields) => (forall|i: int, j: int|
            0 <= i < fields.len() && 0 <= j < fields.len() && i != j ==> (#[trigger] fields[i]).0
                != (#[trigger] fields[j]).0) && (forall|i: int|
            0 <= i < fields.len() ==> distinct_names((#[trigger] fields[i]).1)),
        _ => true,
    }
}

/// A value in which no object has two members of the same name is equal to
/// itself.
pub proof fn lemma_same_json_reflexive(value: JsonModel)
    requires
        distinct_names(value),
    ensures
        same_json(value, value),
    decreases value,
{
    match value {
        JsonModel::Array(items) => {
            assert forall|i: int| 0 <= i < items.len() implies same_json(
                #[trigger] items[i],
                items[i],
            ) by {
                lemma_same_json_reflexive(items[i]);
            }
        },
        JsonModel::Object(fields) => {
            assert forall|i: int| 0 <= i < fields.len() implies member_position(
                fields,
                (#[trigger] fields[i]).0,
            ) == i && same_json(fields[i].1, fields[i].1) by {
                assert forall|k: int| 0 <= k < i implies (#[trigger] fields[k]).0
                    != fields[i].0 by {}
                lemma_member_position(fields, fields[i].0, i);
                lemma_same_json_reflexive(fields[i].1);
            }
        },
        _ => {},
    }
}

/// The value that `serde_json::from_str` reads from a text, if it reads
/// one: the same text gives the same value.
pub uninterp spec fn parsed_json(text: Seq<char>) -> Option<JsonModel>;

/// The rendering of a value by the `Debug` implementation of
/// `serde_json::Value`: the same value gives the same text.
pub uninterp spec fn json_debug(value: JsonModel) -> Seq<char>;

/// `serde_json::Value`, of which nothing is known here.
#[verifier::external_type_specification]
#[verifier::external_body]
pub struct ExValue(Value);

/// `serde_json::Number`, of which nothing is known here.
#[verifier::external_type_specification]
#[verifier::external_body]
pub struct ExNumber(Number);

/// Copies a `serde_json::Number` into a `JsonNumber`: an integer where
/// `as_u64` or `as_i64` gives one, else the text that `to_string` gives.
/// Nothing is claimed of the result.
#[verifier::external_body]
fn from_number(n: &Number) -> (r: JsonNumber) {
    match (n.as_u64(), n.as_i64()) {
        (Some(u), _) => JsonNumber::PosInt(u),
        (None, Some(i)) => JsonNumber::NegInt(i),
        (None, None) => JsonNumber::Float(n.to_string()),
    }
}

/// Copies a `serde_json::Value` into a `Json`, variant by variant, the
/// members of an object in the order in which the value holds them. Nothing
/// is claimed of the result.
#[verifier::external_body]
fn from_value(v: &Value) -> (r: Json) {
    match v {
        Value::Null => Json::Null,
        Value::Bool(b) => Json::Bool(*b),
        Value::Number(n) => Json::Number(from_number(n)),
        Value::String(s) => Json::Text(s.clone()),
        Value::Array(a) => Json::Array(a.iter().map(from_value).collect()),
        Value::Object(m) => Json::Object(
            m.iter().map(|(k, v)| (k.clone(), from_value(v))).collect(),
        ),
    }
}

/// Copies a `JsonNumber` into a `serde_json::Value`. The text of a number
/// goes through `Number::from_str`, and gives `Null` where that fails.
/// Nothing is claimed of the result.
#[verifier::external_body]
fn to_number(n: &JsonNumber) -> (r: Value) {
    match n {
        JsonNumber::PosInt(u) => Value::from(*u),
        JsonNumber::NegInt(i) => Value::from(*i),
        JsonNumber::Float(t) => t.parse::<Number>().map_or(Value::Null, Value::Number),
    }
}

/// Copies a `Json` into a `serde_json::Value`, variant by variant. Nothing
/// is claimed of the result.
#[verifier::external_body]
fn to_value(v: &Json) -> (r: Value) {
    match v {
        Json::Null => Value::Null,
        Json::Bool(b) => Value::Bool(*b),
        Json::Number(n) => to_number(n),
        Json::Text(s) => Value::String(s.clone()),
        Json::Array(a) => Value::Array(a.iter().map(to_value).collect()),
        Json::Object(m) => Value::Object(
            m.iter().map(|(k, v)| (k.clone(), to_value(v))).collect(),
        ),
    }
}

/// Reads `text` with `serde_json::from_str` and copies what was read.
/// Believed without proof: the result is `parsed_json` of the text, and
/// there is none exactly where `serde_json` reports an error.
#[verifier::external_body]
fn read_json(text: &str) -> (r: Option<Json>)
    ensures
        r matches Some(value) ==> parsed_json(text@) == Some(value@),
        r is None ==> parsed_json(text@) is None,
{
    match serde_json::from_str::<Value>(text) {
        Ok(v) => Some(from_value(&v)),
        Err(_) => None,
    }
}

/// Copies `value` into a `serde_json::Value` and renders that with its
/// `Debug` implementation. Believed without proof: the result is
/// `json_debug` of the value.
#[verifier::external_body]
fn render_debug(value: &Json) -> (r: String)
    ensures
        r@ == json_debug(value@),
{
    format!("{:?}", to_value(value))
}

impl Clone for JsonNumber {
    fn clone(&self) -> (r: JsonNumber)
        ensures
            r@ == self@,
    {
        self.duplicate()
    }
}

impl Clone for Json {
    fn clone(&self) -> (r: Json)
        ensures
            r@ == self@,
    {
        self.duplicate()
    }
}

impl JsonNumber {
    /// The number `n`, classified as `serde_json` classifies an `i64`.
    pub fn from_i64(n: i64) -> (r: JsonNumber)
        ensures
            r@ == if n < 0 {
                NumberModel::NegInt(n)
            } else {
                NumberModel::PosInt(n as u64)
            },
    {
        if n < 0 {
            JsonNumber::NegInt(n)
        } else {
            JsonNumber::PosInt(n as u64)
        }
    }

    /// A copy of the number.
    pub fn duplicate(&self) -> (r: JsonNumber)
        ensures
            r@ == self@,
    {
        match self {
            JsonNumber::PosInt(n) => JsonNumber::PosInt(*n),
            JsonNumber::NegInt(n) => JsonNumber::NegInt(*n),
            JsonNumber::Float(t) => JsonNumber::Float(t.clone()),
        }
    }

    /// Whether two numbers are equal.
    pub fn same(&self, other: &JsonNumber) -> (r: bool)
        ensures
            r == same_number(self@, other@),
    {
        match (self, other) {
            (JsonNumber::PosInt(x), JsonNumber::PosInt(y)) => *x == *y,
            (JsonNumber::NegInt(x), JsonNumber::NegInt(y)) => *x == *y,
            (JsonNumber::Float(x), JsonNumber::Float(y)) => {
                let zero = "0.0".to_string();
                let minus_zero = "-0.0".to_string();
                *x == *y || ((*x == zero || *x == minus_zero) && (*y == zero || *y
                    == minus_zero))
            },
            _ => false,
        }
    }
}

impl Json {
    /// The value that `text` denotes, if it is JSON.
    pub fn parse(text: &str) -> (r: Option<Json>)
        ensures
            r matches Some(value) ==> parsed_json(text@) == Some(value@),
            r is None ==> parsed_json(text@) is None,
    {
        read_json(text)
    }

    /// The value as a message shows it.
    pub fn debug_string(&self) -> (r: String)
        ensures
            r@ == json_debug(self@),
    {
        render_debug(self)
    }

    /// A copy of the value.
    pub fn duplicate(&self) -> (r: Json)
        ensures
            r@ == self@,
        decreases self,
    {
        match self {
            Json::Null => Json::Null,
            Json::Bool(b) => Json::Bool(*b),
            Json::Number(n) => Json::Number(n.duplicate()),
            Json::Text(s) => Json::Text(s.clone()),
            Json::Array(items) => {
                let mut copy: Vec<Json> = Vec::new();
                let mut i: usize = 0;
                while i < items.len()
                    invariant
                        i <= items.len(),
                        self == Json::Array(*items),
                        copy@.len() == i,
                        forall|k: int| 0 <= k < i ==> (#[trigger] copy@[k])@ == items@[k]@,
                    decreases items.len() - i,
                {
                    proof {
                        assert(*items == self->Array_0);
                        assert(decreases_to!(self => self->Array_0));
                        assert(decreases_to!(items => items[i as int]));
                    }
                    copy.push(items[i].duplicate());
                    i += 1;
                }
                let r = Json::Array(copy);
                proof {
                    assert(r@->Array_0 =~= self@->Array_0);
                }
                r
            },
            Json::Object(fields) => {
                let mut copy: Vec<(String, Json)> = Vec::new();
                let mut i: usize = 0;
                while i < fields.len()
                    invariant
                        i <= fields.len(),
                        self == Json::Object(*fields),
                        copy@.len() == i,
                        forall|k: int|
                            0 <= k < i ==> (#[trigger] copy@[k]).0@ == fields@[k].0@
                                && copy@[k].1@ == fields@[k].1@,
                    decreases fields.len() - i,
                {
                    proof {
                        assert(*fields == self->Object_0);
                        assert(decreases_to!(self => self->Object_0));
                        assert(decreases_to!(fields => fields[i as int]));
                        assert(decreases_to!(fields[i as int] => fields[i as int].1));
                    }
                    copy.push((fields[i].0.clone(), fields[i].1.duplicate()));
                    i += 1;
                }
                let r = Json::Object(copy);
                proof {
                    assert(r@->Object_0 =~= self@->Object_0);
                }
                r
            },
        }
    }

    /// The member named `key`, if the value is an object that has one.
    pub fn get_member(&self, key: &str) -> (r: Option<&Json>)
        ensures
            match r {
                Some(found) => member(self@, key@) == Some(found@),
                None => member(self@, key@) is None,
            },
    {
        match self {
            Json::Object(fields) => {
                let owned = key.to_owned();
                let at = find_member(fields, &owned);
                if at < fields.len() {
                    Some(&fields[at].1)
                } else {
                    None
                }
            },
            _ => None,
        }
    }

    /// The element at `index`, if the value is an array that is long enough.
    pub fn get_element(&self, index: usize) -> (r: Option<&Json>)
        ensures
            match r {
                Some(found) => element(self@, index as nat) == Some(found@),
                None => element(self@, index as nat) is None,
            },
    {
        match self {
            Json::Array(items) => {
                if index < items.len() {
                    Some(&items[index])
                } else {
                    None
                }
            },
            _ => None,
        }
    }

    /// Whether two values are equal.
    pub fn same(&self, other: &Json) -> (r: bool)
        ensures
            r == same_json(self@, other@),
        decreases self,
    {
        match (self, other) {
            (Json::Null, Json::Null) => true,
            (Json::Bool(x), Json::Bool(y)) => *x == *y,
            (Json::Number(x), Json::Number(y)) => x.same(y),
            (Json::Text(x), Json::Text(y)) => *x == *y,
            (Json::Array(x), Json::Array(y)) => {
                let ghost xs = self@->Array_0;
                let ghost ys = other@->Array_0;
                if x.len() != y.len() {
                    return false;
                }
                let mut i: usize = 0;
                while i < x.len()
                    invariant
                        i <= x.len(),
                        x.len() == y.len(),
                        self == Json::Array(*x),
                        other == Json::Array(*y),
                        xs == self@->Array_0,
                        ys == other@->Array_0,
                        forall|k: int| 0 <= k < i ==> same_json(#[trigger] xs[k], ys[k]),
                    decreases x.len() - i,
                {
                    proof {
                        assert(decreases_to!(self => x));
                        assert(decreases_to!(x => x[i as int]));
                        assert(xs[i as int] == x@[i as int]@);
                        assert(ys[i as int] == y@[i as int]@);
                    }
                    if !x[i].same(&y[i]) {
                        return false;
                    }
                    i += 1;
                }
                true
            },
            (Json::Object(x), Json::Object(y)) => {
                let ghost xs = self@->Object_0;
                let ghost ys = other@->Object_0;
                let mut i: usize = 0;
                while i < x.len()
                    invariant
                        i <= x.len(),
                        xs == self@->Object_0,
                        ys == other@->Object_0,
                        self == Json::Object(*x),
                        other == Json::Object(*y),
                        forall|k: int|
                            0 <= k < i ==> {
                                let at = member_position(ys, (#[trigger] xs[k]).0);
                                at < ys.len() && same_json(xs[k].1, ys[at].1)
                            },
                    decreases x.len() - i,
                {
                    let at = find_member(y, &x[i].0);
                    proof {
                        assert(decreases_to!(self => x));
                        assert(decreases_to!(x => x[i as int]));
                        assert(decreases_to!(x[i as int] => x[i as int].1));
                        assert(xs[i as int].0 == x@[i as int].0@);
                        assert(xs[i as int].1 == x@[i as int].1@);
                        if at < y.len() {
                            assert(ys[at as int].1 == y@[at as int].1@);
                        }
                    }
                    if at >= y.len() || !x[i].1.same(&y[at].1) {
                        return false;
                    }
                    i += 1;
                }
                let mut j: usize = 0;
                while j < y.len()
                    invariant
                        j <= y.len(),
                        xs == self@->Object_0,
                        ys == other@->Object_0,
                        self == Json::Object(*x),
                        other == Json::Object(*y),
                        forall|k: int|
                            0 <= k < xs.len() ==> {
                                let at = member_position(ys, (#[trigger] xs[k]).0);
                                at < ys.len() && same_json(xs[k].1, ys[at].1)
                            },
                        forall|k: int|
                            0 <= k < j ==> {
                                let at = member_position(xs, (#[trigger] ys[k]).0);
                                0 <= at < xs.len() && same_json(xs[at].1, ys[k].1)
                            },
                    decreases y.len() - j,
                {
                    let at = find_member(x, &y[j].0);
                    proof {
                        assert(ys[j as int].0 == y@[j as int].0@);
                        assert(ys[j as int].1 == y@[j as int].1@);
                        if at < x.len() {
                            assert(decreases_to!(self => x));
                            assert(decreases_to!(x => x[at as int]));
                            assert(decreases_to!(x[at as int] => x[at as int].1));
                            assert(xs[at as int].1 == x@[at as int].1@);
                        }
                    }
                    if at >= x.len() || !x[at].1.same(&y[j].1) {
                        return false;
                    }
                    j += 1;
                }
                true
            },
            _ => false,
        }
    }
}

/// The position of the first member named `key`, or the number of members.
fn find_member(fields: &Vec<(String, Json)>, key: &String) -> (at: usize)
    ensures
        at <= fields.len(),
        at == member_position((Json::Object(*fields))@->Object_0, key@),
{
    let ghost model = (Json::Object(*fields))@->Object_0;
    let mut i: usize = 0;
    while i < fields.len()
        invariant
            i <= fields.len(),
            model == (Json::Object(*fields))@->Object_0,
            forall|k: int| 0 <= k < i ==> (#[trigger] model[k]).0 != key@,
        decreases fields.len() - i,
    {
        proof {
            assert(model[i as int].0 == fields@[i as int].0@);
        }
        if fields[i].0 == *key {
            proof {
                lemma_member_position(model, key@, i as int);
            }
            return i;
        }
        i += 1;
    }
    proof {
        lemma_member_position(model, key@, i as int);
    }
    i
}

/// A position whose member has the name, with no such member before it, is
/// `member_position`.
pub proof fn lemma_member_position(fields: Seq<(Seq<char>, JsonModel)>, key: Seq<char>, at: int)
    requires
        0 <= at <= fields.len(),
        at < fields.len() ==> fields[at].0 == key,
        forall|i: int| 0 <= i < at ==> (#[trigger] fields[i]).0 != key,
    ensures
        member_position(fields, key) == at,
    decreases fields.len(),
{
    if fields.len() > 0 && at > 0 {
        let rest = fields.drop_first();
        assert(fields[0].0 != key);
        assert forall|i: int| 0 <= i < at - 1 implies (#[trigger] rest[i]).0 != key by {
            assert(rest[i] == fields[i + 1]);
        }
        lemma_member_position(rest, key, at - 1);
    }
}

} // verus!
