//! The part of JSON Schema that tool contracts use. It follows no references and reads nothing
//! but the schema and the value.
use vstd::prelude::*;

use crate::json::{
    as_double, child_is_lookup, children_are_tidy, debug_list, double_bits, double_place, double_text, entry_of_child, equal, same_value,
    exact_in_double, fields_hold, last_entry, lookup, only_entry, print_debug_list, print_double, spec_u64, Json, JsonView,
};
use crate::list::{empty, extend, one, put, take_all, take_next};
use crate::text::{concat2, dec, decimal, quoted, quoted_text, same};

verus! {

/// Whether a value is of the named type; nothing where the name is not known.
pub open spec fn type_matches(expected: Seq<char>, value: JsonView) -> Option<bool> {
    if expected == "object"@ {
        Some(value is Object)
    } else if expected == "array"@ {
        Some(value is Array)
    } else if expected == "string"@ {
        Some(value is Str)
    } else if expected == "integer"@ {
        Some(value is Number)
    } else if expected == "number"@ {
        Some(value is Number || value is Float)
    } else if expected == "boolean"@ {
        Some(value is Bool)
    } else if expected == "null"@ {
        Some(value is Null)
    } else {
        None
    }
}

/// The name of a value's type.
pub open spec fn kind_text(value: JsonView) -> Seq<char> {
    match value {
        JsonView::Null => "null"@,
        JsonView::Bool(_) => "boolean"@,
        JsonView::Number(_) => "number"@,
        JsonView::Float(_) => "number"@,
        JsonView::Str(_) => "string"@,
        JsonView::Array(_) => "array"@,
        JsonView::Object(_) => "object"@,
    }
}

/// The double that a value is read as; nothing where it is no number.
pub open spec fn number_bits(value: JsonView) -> Option<u64> {
    match value {
        JsonView::Number(_) | JsonView::Float(_) => double_bits(value),
        _ => None,
    }
}

/// Whether a number is below another one: integers that a double holds exactly by themselves, all
/// others by the doubles that they are read as.
pub open spec fn number_below(a: JsonView, b: JsonView) -> bool {
    if a is Number && b is Number && exact_in_double(a->Number_0) && exact_in_double(b->Number_0) {
        a->Number_0 < b->Number_0
    } else {
        match (number_bits(a), number_bits(b)) {
            (Some(x), Some(y)) => double_place(x) < double_place(y),
            _ => false,
        }
    }
}

pub open spec fn member_str(schema: JsonView, key: Seq<char>) -> Option<Seq<char>> {
    match lookup(schema, key) {
        Some(JsonView::Str(t)) => Some(t),
        _ => None,
    }
}

pub open spec fn member_u64(schema: JsonView, key: Seq<char>) -> Option<u64> {
    match lookup(schema, key) {
        Some(v) => spec_u64(v),
        None => None,
    }
}

/// One remark where the condition holds, else none.
pub open spec fn remark(condition: bool, text: Seq<char>) -> Seq<Seq<char>> {
    if condition {
        seq![text]
    } else {
        seq![]
    }
}

pub open spec fn type_errors(schema: JsonView, value: JsonView) -> Seq<Seq<char>> {
    match member_str(schema, "type"@) {
        Some(expected) => remark(
            type_matches(expected, value) == Some(false),
            "期望类型 "@ + expected + ",实际为 "@ + kind_text(value),
        ),
        None => seq![],
    }
}

/// Whether a value is one of some options.
pub open spec fn among(options: Seq<JsonView>, value: JsonView) -> bool {
    exists|i: int| 0 <= i < options.len() && #[trigger] same_value(options[i], value)
}

pub open spec fn enum_errors(schema: JsonView, value: JsonView) -> Seq<Seq<char>> {
    match lookup(schema, "enum"@) {
        Some(JsonView::Array(options)) => remark(
            !among(options, value),
            "值不在 enum "@ + debug_list(options) + " 中"@,
        ),
        _ => seq![],
    }
}

pub open spec fn range_errors(schema: JsonView, value: JsonView) -> Seq<Seq<char>> {
    (match lookup(schema, "minimum"@) {
        Some(low) => remark(number_below(value, low), "数值不得小于 "@ + double_text(low)),
        None => seq![],
    }) + (match lookup(schema, "maximum"@) {
        Some(high) => remark(number_below(high, value), "数值不得大于 "@ + double_text(high)),
        None => seq![],
    })
}

pub open spec fn length_errors(schema: JsonView, value: JsonView) -> Seq<Seq<char>> {
    match value {
        JsonView::Str(text) => (match member_u64(schema, "minLength"@) {
            Some(min) => remark(text.len() < min, "字符串长度不得小于 "@ + dec(min as nat)),
            None => seq![],
        }) + (match member_u64(schema, "maxLength"@) {
            Some(max) => remark(text.len() > max, "字符串长度不得大于 "@ + dec(max as nat)),
            None => seq![],
        }),
        _ => seq![],
    }
}

/// The remarks on required members that the value lacks.
pub open spec fn required_errors(keys: Seq<JsonView>, value: JsonView) -> Seq<Seq<char>>
    decreases keys.len(),
{
    if keys.len() == 0 {
        seq![]
    } else {
        required_errors(keys.drop_last(), value) + match keys.last() {
            JsonView::Str(key) => remark(
                lookup(value, key) is None,
                "缺少必填字段 "@ + quoted_text(key),
            ),
            _ => seq![],
        }
    }
}

/// The remarks on members that the schema does not name.
pub open spec fn extra_errors(keys: Seq<Seq<char>>, properties: Option<JsonView>) -> Seq<Seq<char>>
    decreases keys.len(),
{
    if keys.len() == 0 {
        seq![]
    } else {
        extra_errors(keys.drop_last(), properties) + remark(
            properties is None || lookup(properties->0, keys.last()) is None,
            "不允许额外字段 "@ + quoted_text(keys.last()),
        )
    }
}

/// The keys of an object in the order in which it lists them.
pub open spec fn listed_keys(value: Json) -> Seq<Seq<char>> {
    match value {
        Json::Object(entries) => Seq::new(entries@.len(), |i: int| entries@[i].0@),
        _ => seq![],
    }
}

pub open spec fn prefixed(key: Seq<char>, errors: Seq<Seq<char>>) -> Seq<Seq<char>> {
    Seq::new(errors.len(), |i: int| key + ": "@ + errors[i])
}

/// The remarks on the members that the first `n` properties describe.
pub open spec fn property_errors(properties: Vec<(String, Json)>, n: nat, value: Json) -> Seq<
    Seq<char>,
>
    decreases properties, n,
{
    if n == 0 || n > properties@.len() {
        seq![]
    } else {
        let (key, child_schema) = properties@[n - 1];
        property_errors(properties, (n - 1) as nat, value) + match value.child(key@) {
            Some(child) => prefixed(key@, schema_errors(child_schema, child)),
            None => seq![],
        }
    }
}

/// The remarks on the first `n` elements of a list, each against the same schema.
pub open spec fn item_errors(schema: Json, values: Vec<Json>, n: nat) -> Seq<Seq<char>>
    decreases schema, n,
{
    if n == 0 || n > values@.len() {
        seq![]
    } else {
        item_errors(schema, values, (n - 1) as nat) + prefixed(
            "["@ + dec((n - 1) as nat) + "]"@,
            schema_errors(schema, values@[n - 1]),
        )
    }
}

/// The remark on a list that has more elements than the schema allows.
pub open spec fn size_errors(schema: JsonView, len: nat) -> Seq<Seq<char>> {
    match member_u64(schema, "maxItems"@) {
        Some(max) => remark(len > max, "数组元素不得多于 "@ + dec(max as nat)),
        None => seq![],
    }
}

/// Everything that a value lacks against a schema; it conforms where this is empty.
pub open spec fn schema_errors(schema: Json, value: Json) -> Seq<Seq<char>>
    decreases schema, 0nat,
{
    let s = schema@;
    let v = value@;
    if !(s is Object) {
        seq!["schema 必须是 object"@]
    } else if member_str(s, "type"@) is Some && type_matches(member_str(s, "type"@)->0, v) is None {
        seq!["不支持的 schema type "@ + quoted_text(member_str(s, "type"@)->0)]
    } else {
        type_errors(s, v) + enum_errors(s, v) + range_errors(s, v) + length_errors(s, v) + (
        if v is Object {
            (match lookup(s, "required"@) {
                Some(JsonView::Array(keys)) => required_errors(keys, v),
                _ => seq![],
            }) + (if lookup(s, "additionalProperties"@) == Some(JsonView::Bool(false)) {
                extra_errors(listed_keys(value), lookup(s, "properties"@))
            } else {
                seq![]
            }) + (match schema.child("properties"@) {
                Some(Json::Object(properties)) => {
                    proof {
                        child_is_lookup(schema, "properties"@);
                    }
                    property_errors(properties, properties@.len(), value)
                },
                _ => seq![],
            })
        } else {
            match value {
                Json::Array(values) => size_errors(s, values@.len()) + (match schema.child(
                    "items"@,
                ) {
                    Some(items) => {
                        proof {
                            child_is_lookup(schema, "items"@);
                        }
                        item_errors(items, values, values@.len())
                    },
                    None => seq![],
                }),
                _ => seq![],
            }
        })
    }
}

pub fn json_type(value: &Json) -> (r: &'static str)
    ensures
        r@ == kind_text(value@),
{
    match value {
        Json::Null => "null",
        Json::Bool(_) => "boolean",
        Json::Int(_) => "number",
        Json::Uint(_) => "number",
        Json::Float(_) => "number",
        Json::Str(_) => "string",
        Json::Array(_) => "array",
        Json::Object(_) => "object",
    }
}

fn matches_type(expected: &str, value: &Json) -> (r: Option<bool>)
    ensures
        r == type_matches(expected@, value@),
{
    if same(expected, "object") {
        Some(matches!(value, Json::Object(_)))
    } else if same(expected, "array") {
        Some(matches!(value, Json::Array(_)))
    } else if same(expected, "string") {
        Some(matches!(value, Json::Str(_)))
    } else if same(expected, "integer") {
        Some(matches!(value, Json::Int(_) | Json::Uint(_)))
    } else if same(expected, "number") {
        Some(matches!(value, Json::Int(_) | Json::Uint(_) | Json::Float(_)))
    } else if same(expected, "boolean") {
        Some(matches!(value, Json::Bool(_)))
    } else if same(expected, "null") {
        Some(matches!(value, Json::Null))
    } else {
        None
    }
}

fn text_member<'a>(schema: &'a Json, key: &str) -> (r: Option<&'a str>)
    ensures
        r.deep_view() == member_str(schema@, key@),
{
    match schema.get(key) {
        Some(v) => v.as_str(),
        None => None,
    }
}

fn u64_member(schema: &Json, key: &str) -> (r: Option<u64>)
    ensures
        r == member_u64(schema@, key@),
{
    match schema.get(key) {
        Some(v) => v.as_u64(),
        None => None,
    }
}

/// Whether the double with the bits `a` is below the one with the bits `b`.
fn double_below(a: u64, b: u64) -> (r: bool)
    ensures
        r == (double_place(a) < double_place(b)),
{
    let half: u64 = 0x8000_0000_0000_0000;
    if a < half && b < half {
        a < b
    } else if a < half {
        false
    } else if b < half {
        a > half || b > 0
    } else {
        a > b
    }
}

fn is_below(a: &Json, b: &Json) -> (r: bool)
    ensures
        r == number_below(a@, b@),
{
    let x = as_double(a);
    let y = as_double(b);
    proof {
        if a@ is Number && b@ is Number && exact_in_double(a@->Number_0) && exact_in_double(
            b@->Number_0,
        ) {
            assert(double_bits(JsonView::Number(a@->Number_0)) == x);
            assert(double_bits(JsonView::Number(b@->Number_0)) == y);
        }
    }
    match (x, y) {
        (Some(x), Some(y)) => double_below(x, y),
        _ => false,
    }
}

fn check_type(schema: &Json, value: &Json) -> (errors: Vec<String>)
    ensures
        errors.deep_view() == type_errors(schema@, value@),
{
    if let Some(expected) = text_member(schema, "type") {
        if let Some(false) = matches_type(expected, value) {
            let mut text = concat2("期望类型 ", expected);
            text.push_str(",实际为 ");
            text.push_str(json_type(value));
            return one(text);
        }
    }
    empty()
}

fn check_enum(schema: &Json, value: &Json) -> (errors: Vec<String>)
    ensures
        errors.deep_view() == enum_errors(schema@, value@),
{
    let options = match schema.get("enum") {
        Some(Json::Array(options)) => options,
        _ => {
            return empty();
        },
    };
    let ghost views = options.deep_view();
    assert(lookup(schema@, "enum"@) == Some(JsonView::Array(views))) by {
        assert(Json::Array(*options)@->Array_0 =~= views);
    }
    let mut i: usize = 0;
    while i < options.len()
        invariant
            i <= options@.len(),
            views == options.deep_view(),
            lookup(schema@, "enum"@) == Some(JsonView::Array(views)),
            forall|k: int| 0 <= k < i ==> !#[trigger] same_value(views[k], value@),
        decreases options@.len() - i,
    {
        if equal(&options[i], value) {
            assert(same_value(views[i as int], value@));
            return empty();
        }
        i = i + 1;
    }
    let mut text = concat2("值不在 enum ", print_debug_list(options).as_str());
    text.push_str(" 中");
    one(text)
}

fn check_range(schema: &Json, value: &Json) -> (errors: Vec<String>)
    ensures
        errors.deep_view() == range_errors(schema@, value@),
{
    let mut errors: Vec<String> = empty();
    if let Some(low) = schema.get("minimum") {
        if is_below(value, low) {
            put(&mut errors, concat2("数值不得小于 ", print_double(low).as_str()));
        }
    }
    if let Some(high) = schema.get("maximum") {
        if is_below(high, value) {
            put(&mut errors, concat2("数值不得大于 ", print_double(high).as_str()));
        }
    }
    proof {
        assert(errors.deep_view() =~= range_errors(schema@, value@));
    }
    errors
}

fn check_length(schema: &Json, value: &Json) -> (errors: Vec<String>)
    ensures
        errors.deep_view() == length_errors(schema@, value@),
{
    let mut errors: Vec<String> = empty();
    if let Some(text) = value.as_str() {
        let len: u64 = text.unicode_len() as u64;
        if let Some(min) = u64_member(schema, "minLength") {
            if len < min {
                put(&mut errors, concat2("字符串长度不得小于 ", decimal(min).as_str()));
            }
        }
        if let Some(max) = u64_member(schema, "maxLength") {
            if len > max {
                put(&mut errors, concat2("字符串长度不得大于 ", decimal(max).as_str()));
            }
        }
    }
    proof {
        assert(errors.deep_view() =~= length_errors(schema@, value@));
    }
    errors
}

fn check_size(schema: &Json, len: usize) -> (errors: Vec<String>)
    ensures
        errors.deep_view() == size_errors(schema@, len as nat),
{
    if let Some(max) = u64_member(schema, "maxItems") {
        if len as u64 > max {
            return one(concat2("数组元素不得多于 ", decimal(max).as_str()));
        }
    }
    empty()
}

fn check_required(keys: &Vec<Json>, value: &Json) -> (errors: Vec<String>)
    ensures
        errors.deep_view() == required_errors(keys.deep_view(), value@),
{
    let mut errors: Vec<String> = empty();
    let ghost all = keys.deep_view();
    let mut i: usize = 0;
    while i < keys.len()
        invariant
            i <= keys@.len(),
            all == keys.deep_view(),
            errors.deep_view() == required_errors(all.take(i as int), value@),
        decreases keys@.len() - i,
    {
        proof {
            take_next(all, i as int);
        }
        if let Some(key) = keys[i].as_str() {
            if value.get(key).is_none() {
                put(&mut errors, concat2("缺少必填字段 ", quoted(key).as_str()));
            }
        }
        assert(errors.deep_view() =~= required_errors(all.take(i + 1), value@));
        i = i + 1;
    }
    proof {
        take_all(all);
    }
    errors
}

fn check_extra(entries: &Vec<(String, Json)>, properties: Option<&Json>) -> (errors: Vec<String>)
    ensures
        errors.deep_view() == extra_errors(
            listed_keys(Json::Object(*entries)),
            properties.deep_view(),
        ),
{
    let mut errors: Vec<String> = empty();
    let ghost all = listed_keys(Json::Object(*entries));
    let mut i: usize = 0;
    while i < entries.len()
        invariant
            i <= entries@.len(),
            all == listed_keys(Json::Object(*entries)),
            errors.deep_view() == extra_errors(all.take(i as int), properties.deep_view()),
        decreases entries@.len() - i,
    {
        proof {
            take_next(all, i as int);
        }
        let key = entries[i].0.as_str();
        let known = match properties {
            Some(p) => p.get(key).is_some(),
            None => false,
        };
        if !known {
            put(&mut errors, concat2("不允许额外字段 ", quoted(key).as_str()));
        }
        assert(errors.deep_view() =~= extra_errors(all.take(i + 1), properties.deep_view()));
        i = i + 1;
    }
    proof {
        take_all(all);
    }
    errors
}

fn with_prefix(key: &str, errors: Vec<String>) -> (out: Vec<String>)
    ensures
        out.deep_view() == prefixed(key@, errors.deep_view()),
{
    let mut out: Vec<String> = empty();
    let ghost all = errors.deep_view();
    let mut i: usize = 0;
    while i < errors.len()
        invariant
            i <= errors@.len(),
            all == errors.deep_view(),
            out.deep_view() == prefixed(key@, all).take(i as int),
        decreases errors@.len() - i,
    {
        proof {
            take_next(prefixed(key@, all), i as int);
        }
        let mut text = concat2(key, ": ");
        text.push_str(errors[i].as_str());
        put(&mut out, text);
        i = i + 1;
    }
    proof {
        take_all(prefixed(key@, all));
    }
    out
}

/// Checks a value against a schema.
pub fn validate_json_schema(schema: &Json, value: &Json) -> (r: Result<(), Vec<String>>)
    ensures
        r is Ok <==> schema_errors(*schema, *value).len() == 0,
        r is Err ==> r->Err_0.deep_view() == schema_errors(*schema, *value),
    decreases schema,
{
    proof {
        child_is_lookup(*schema, "properties"@);
        child_is_lookup(*schema, "required"@);
        child_is_lookup(*schema, "items"@);
    }
    if !matches!(schema, Json::Object(_)) {
        return Err(one("schema 必须是 object".to_owned()));
    }
    if let Some(expected) = text_member(schema, "type") {
        if matches_type(expected, value).is_none() {
            return Err(one(concat2("不支持的 schema type ", quoted(expected).as_str())));
        }
    }
    let mut errors = check_type(schema, value);
    extend(&mut errors, check_enum(schema, value));
    extend(&mut errors, check_range(schema, value));
    extend(&mut errors, check_length(schema, value));
    let ghost plain = errors.deep_view();
    if let Json::Object(entries) = value {
        let mut inner: Vec<String> = empty();
        if let Some(Json::Array(keys)) = schema.get("required") {
            assert(Json::Array(*keys)@->Array_0 =~= keys.deep_view());
            inner = check_required(keys, value);
        }
        if let Some(Json::Bool(false)) = schema.get("additionalProperties") {
            extend(&mut inner, check_extra(entries, schema.get("properties")));
        } else {
            assert(inner.deep_view() + Seq::<Seq<char>>::empty() =~= inner.deep_view());
        }
        let ghost so_far = inner.deep_view();
        if let Some(properties) = schema.get("properties") {
            if let Json::Object(list) = properties {
                let mut i: usize = 0;
                assert(so_far + property_errors(*list, 0, *value) =~= so_far);
                while i < list.len()
                    invariant
                        i <= list@.len(),
                        *properties == Json::Object(*list),
                        decreases_to!(*schema => *properties),
                        inner.deep_view() == so_far + property_errors(*list, i as nat, *value),
                    decreases list@.len() - i,
                {
                    let key = list[i].0.as_str();
                    if let Some(child) = value.get(key) {
                        assert(decreases_to!(*properties => properties->Object_0@[i as int].1));
                        if let Err(more) = validate_json_schema(&list[i].1, child) {
                            extend(&mut inner, with_prefix(key, more));
                        } else {
                            assert(prefixed(key@, schema_errors(list@[i as int].1, *child)) =~= seq![]);
                        }
                    }
                    assert(inner.deep_view() =~= so_far + property_errors(
                        *list,
                        (i + 1) as nat,
                        *value,
                    ));
                    i = i + 1;
                }
            } else {
                assert(inner.deep_view() =~= so_far + Seq::<Seq<char>>::empty());
            }
        } else {
            assert(inner.deep_view() =~= so_far + Seq::<Seq<char>>::empty());
        }
        extend(&mut errors, inner);
    } else if let Json::Array(values) = value {
        let mut inner = check_size(schema, values.len());
        let ghost so_far = inner.deep_view();
        if let Some(items) = schema.get("items") {
            let mut i: usize = 0;
            assert(so_far + item_errors(*items, *values, 0) =~= so_far);
            while i < values.len()
                invariant
                    i <= values@.len(),
                    decreases_to!(*schema => *items),
                    inner.deep_view() == so_far + item_errors(*items, *values, i as nat),
                decreases values@.len() - i,
            {
                if let Err(more) = validate_json_schema(items, &values[i]) {
                    let mut place = concat2("[", decimal(i as u64).as_str());
                    place.push_str("]");
                    extend(&mut inner, with_prefix(place.as_str(), more));
                } else {
                    assert(prefixed(
                        "["@ + dec(i as nat) + "]"@,
                        schema_errors(*items, values@[i as int]),
                    ) =~= seq![]);
                }
                assert(inner.deep_view() =~= so_far + item_errors(
                    *items,
                    *values,
                    (i + 1) as nat,
                ));
                i = i + 1;
            }
        } else {
            assert(inner.deep_view() =~= so_far + Seq::<Seq<char>>::empty());
        }
        extend(&mut errors, inner);
    } else {
        assert(errors.deep_view() =~= plain + Seq::<Seq<char>>::empty());
    }
    assert(errors.deep_view() =~= schema_errors(*schema, *value));
    if errors.len() == 0 {
        Ok(())
    } else {
        Err(errors)
    }
}

// ---- Laws ----

proof fn required_are_there(keys: Seq<JsonView>, value: JsonView)
    ensures
        required_errors(keys, value).len() == 0 <==> forall|i: int|
            0 <= i < keys.len() && (#[trigger] keys[i]) is Str ==> lookup(value, keys[i]->Str_0)
                is Some,
    decreases keys.len(),
{
    if keys.len() > 0 {
        let before = keys.drop_last();
        required_are_there(before, value);
        assert(forall|i: int| 0 <= i < before.len() ==> before[i] == #[trigger] keys[i]);
        if required_errors(keys, value).len() == 0 {
            assert forall|i: int| 0 <= i < keys.len() && (#[trigger] keys[i]) is Str implies lookup(
                value,
                keys[i]->Str_0,
            ) is Some by {
                if i < before.len() {
                    assert(before[i] is Str);
                }
            }
        }
    }
}

proof fn no_key_is_extra(keys: Seq<Seq<char>>, properties: Option<JsonView>)
    ensures
        extra_errors(keys, properties).len() == 0 <==> forall|i: int|
            0 <= i < keys.len() ==> properties is Some && lookup(
                properties->0,
                #[trigger] keys[i],
            ) is Some,
    decreases keys.len(),
{
    if keys.len() > 0 {
        let before = keys.drop_last();
        no_key_is_extra(before, properties);
        assert(forall|i: int| 0 <= i < before.len() ==> before[i] == #[trigger] keys[i]);
        if extra_errors(keys, properties).len() == 0 {
            assert forall|i: int| 0 <= i < keys.len() implies properties is Some && lookup(
                properties->0,
                #[trigger] keys[i],
            ) is Some by {
                if i < before.len() {
                    assert(lookup(properties->0, before[i]) is Some);
                }
            }
        }
    }
}

/// Whether a member conforms to the property that describes it.
spec fn member_conforms(property: (String, Json), value: Json) -> bool {
    value.child(property.0@) is Some ==> schema_errors(
        property.1,
        value.child(property.0@)->0,
    ).len() == 0
}

proof fn members_conform(properties: Vec<(String, Json)>, n: nat, value: Json)
    requires
        n <= properties@.len(),
    ensures
        property_errors(properties, n, value).len() == 0 <==> forall|i: int|
            0 <= i < n ==> member_conforms(#[trigger] properties@[i], value),
    decreases n,
{
    if n > 0 {
        members_conform(properties, (n - 1) as nat, value);
        let last = properties@[n - 1];
        assert(property_errors(properties, n, value).len() == property_errors(
            properties,
            (n - 1) as nat,
            value,
        ).len() + (match value.child(last.0@) {
            Some(child) => schema_errors(last.1, child).len(),
            None => 0,
        }));
        assert(member_conforms(last, value) <==> (match value.child(last.0@) {
            Some(child) => schema_errors(last.1, child).len() == 0,
            None => true,
        }));
    }
}

/// An object conforms exactly when it has what is required, has nothing else where nothing else is
/// allowed, and each of its members conforms to the property of its name.
pub proof fn law_objects_conform_by_their_members(schema: Json, value: Json)
    requires
        schema.tidy(),
        member_str(schema@, "type"@) == Some("object"@),
        lookup(schema@, "enum"@) is None,
        value@ is Object,
    ensures
        schema_errors(schema, value).len() == 0 <==> {
            &&& lookup(schema@, "required"@) matches Some(JsonView::Array(keys)) ==> forall|i: int|
                0 <= i < keys.len() && (#[trigger] keys[i]) is Str ==> lookup(
                    value@,
                    keys[i]->Str_0,
                ) is Some
            &&& lookup(schema@, "additionalProperties"@) == Some(JsonView::Bool(false))
                ==> forall|key: Seq<char>|
                (#[trigger] lookup(value@, key)) is Some ==> lookup(schema@, "properties"@) is Some
                    && lookup(lookup(schema@, "properties"@)->0, key) is Some
            &&& forall|key: Seq<char>|
                schema.child("properties"@) is Some && schema.child("properties"@)->0.child(key)
                    is Some && (#[trigger] value.child(key)) is Some ==> schema_errors(
                    schema.child("properties"@)->0.child(key)->0,
                    value.child(key)->0,
                ).len() == 0
        },
{
    let s = schema@;
    let v = value@;
    let held = value->Object_0;
    let views = Json::entry_views(held);
    if let Some(JsonView::Array(keys)) = lookup(s, "required"@) {
        required_are_there(keys, v);
    }
    let properties = lookup(s, "properties"@);
    no_key_is_extra(listed_keys(value), properties);
    let allowed = forall|key: Seq<char>|
        (#[trigger] lookup(v, key)) is Some ==> properties is Some && lookup(properties->0, key)
            is Some;
    let names = listed_keys(value);
    if allowed {
        assert forall|i: int| 0 <= i < names.len() implies properties is Some && lookup(
            properties->0,
            #[trigger] names[i],
        ) is Some by {
            fields_hold(views, names[i]);
            assert(views[i].0 == names[i]);
            assert(lookup(v, names[i]) is Some);
        }
    }
    if forall|i: int|
        0 <= i < names.len() ==> properties is Some && lookup(properties->0, #[trigger] names[i])
            is Some {
        assert forall|key: Seq<char>| (#[trigger] lookup(v, key)) is Some implies properties is Some
            && lookup(properties->0, key) is Some by {
            fields_hold(views, key);
            let i = choose|i: int| 0 <= i < views.len() && (#[trigger] views[i]).0 == key;
            assert(names[i] == key);
        }
    }
    child_is_lookup(schema, "properties"@);
    if let Some(Json::Object(list)) = schema.child("properties"@) {
        let table = schema.child("properties"@)->0;
        members_conform(list, list@.len(), value);
        children_are_tidy(schema, "properties"@);
        let each = forall|i: int|
            0 <= i < list@.len() ==> member_conforms(#[trigger] list@[i], value);
        let by_name = forall|key: Seq<char>|
            table.child(key) is Some && (#[trigger] value.child(key)) is Some ==> schema_errors(
                table.child(key)->0,
                value.child(key)->0,
            ).len() == 0;
        if each {
            assert forall|key: Seq<char>|
                table.child(key) is Some && (#[trigger] value.child(key)) is Some implies schema_errors(
                table.child(key)->0,
                value.child(key)->0,
            ).len() == 0 by {
                entry_of_child(list@, key);
                let i = choose|i: int|
                    0 <= i < list@.len() && (#[trigger] list@[i]).0@ == key && Some(list@[i].1)
                        == last_entry(list@, key);
                assert(member_conforms(list@[i], value));
            }
        }
        if by_name {
            assert forall|i: int| 0 <= i < list@.len() implies member_conforms(
                #[trigger] list@[i],
                value,
            ) by {
                let key = list@[i].0@;
                only_entry(list@, i);
                if value.child(key) is Some {
                    assert(table.child(key) == Some(list@[i].1));
                }
            }
        }
        assert(each <==> by_name);
    }
    assert(type_errors(s, v) =~= seq![]);
    assert(enum_errors(s, v) =~= seq![]);
    assert(range_errors(s, v) =~= seq![]);
    assert(length_errors(s, v) =~= seq![]);
}

} // verus!
