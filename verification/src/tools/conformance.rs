//! What it means for a value to conform to a schema, keyword by keyword.
use vstd::prelude::*;

use crate::json::{
    debug_list, double_bits, double_place, double_text, exact_in_double, lookup, same_value, Json,
    JsonView,
};
use crate::text::{dec, quoted_text};
use crate::tools::schema::{
    enum_errors, extra_errors, item_errors, kind_text, length_errors, number_below, prefixed,
    range_errors, required_errors, schema_errors, size_errors, type_errors, type_matches,
};

verus! {

proof fn type_names()
    ensures
        "object"@ != "array"@,
        "object"@ != "string"@,
        "object"@ != "integer"@,
        "object"@ != "number"@,
        "object"@ != "boolean"@,
        "object"@ != "null"@,
        "array"@ != "string"@,
        "array"@ != "integer"@,
        "array"@ != "number"@,
        "array"@ != "boolean"@,
        "array"@ != "null"@,
        "string"@ != "integer"@,
        "string"@ != "number"@,
        "string"@ != "boolean"@,
        "string"@ != "null"@,
        "integer"@ != "number"@,
        "integer"@ != "boolean"@,
        "integer"@ != "null"@,
        "number"@ != "boolean"@,
        "number"@ != "null"@,
        "boolean"@ != "null"@,
{
    reveal_strlit("object");
    reveal_strlit("array");
    reveal_strlit("string");
    reveal_strlit("integer");
    reveal_strlit("number");
    reveal_strlit("boolean");
    reveal_strlit("null");
    assert("object"@.len() != "array"@.len());
    assert("object"@[0] != "string"@[0]);
    assert("object"@.len() != "integer"@.len());
    assert("object"@[0] != "number"@[0]);
    assert("object"@.len() != "boolean"@.len());
    assert("object"@.len() != "null"@.len());
    assert("array"@.len() != "string"@.len());
    assert("array"@.len() != "integer"@.len());
    assert("array"@.len() != "number"@.len());
    assert("array"@.len() != "boolean"@.len());
    assert("array"@.len() != "null"@.len());
    assert("string"@.len() != "integer"@.len());
    assert("string"@[0] != "number"@[0]);
    assert("string"@.len() != "boolean"@.len());
    assert("string"@.len() != "null"@.len());
    assert("integer"@.len() != "number"@.len());
    assert("integer"@[0] != "boolean"@[0]);
    assert("integer"@.len() != "null"@.len());
    assert("number"@.len() != "boolean"@.len());
    assert("number"@.len() != "null"@.len());
    assert("boolean"@.len() != "null"@.len());
}

/// Every type has a name, and a value is of the type that it is. Integers are numbers too.
pub proof fn law_types_have_names(value: JsonView, name: Seq<char>)
    ensures
        type_matches("object"@, value) == Some(value is Object),
        type_matches("array"@, value) == Some(value is Array),
        type_matches("string"@, value) == Some(value is Str),
        type_matches("integer"@, value) == Some(value is Number),
        type_matches("number"@, value) == Some(value is Number || value is Float),
        type_matches("boolean"@, value) == Some(value is Bool),
        type_matches("null"@, value) == Some(value is Null),
        value is Null ==> kind_text(value) == "null"@,
        value is Bool ==> kind_text(value) == "boolean"@,
        value is Number || value is Float ==> kind_text(value) == "number"@,
        value is Str ==> kind_text(value) == "string"@,
        value is Array ==> kind_text(value) == "array"@,
        value is Object ==> kind_text(value) == "object"@,
{
    type_names();
}

/// A value of another type than the named one is remarked on, with both types.
pub proof fn law_types_are_checked(schema: JsonView, value: JsonView, expected: Seq<char>)
    ensures
        lookup(schema, "type"@) is None ==> type_errors(schema, value).len() == 0,
        lookup(schema, "type"@) == Some(JsonView::Str(expected)) ==> {
            &&& type_matches(expected, value) == Some(false) ==> type_errors(schema, value) == seq![
                "期望类型 "@ + expected + ",实际为 "@ + kind_text(value),
            ]
            &&& type_matches(expected, value) == Some(true) ==> type_errors(schema, value).len() == 0
        },
{
}

/// A value has to be one of the options where there are some.
pub proof fn law_options_are_checked(schema: JsonView, value: JsonView, options: Seq<JsonView>)
    ensures
        lookup(schema, "enum"@) is None ==> enum_errors(schema, value).len() == 0,
        lookup(schema, "enum"@) == Some(JsonView::Array(options)) ==> {
            &&& (exists|i: int| 0 <= i < options.len() && #[trigger] same_value(options[i], value))
                ==> enum_errors(schema, value).len() == 0
            &&& (forall|i: int| 0 <= i < options.len() ==> !#[trigger] same_value(options[i], value))
                ==> enum_errors(schema, value) == seq![
                "值不在 enum "@ + debug_list(options) + " 中"@,
            ]
        },
{
}

/// A number may be no smaller than the least and no larger than the greatest one; the bounds
/// themselves are allowed.
pub proof fn law_bounds_are_checked(schema: JsonView, n: int, low: int, high: int)
    requires
        -9007199254740992 <= n <= 9007199254740992,
        -9007199254740992 <= low <= 9007199254740992,
        -9007199254740992 <= high <= 9007199254740992,
        lookup(schema, "minimum"@) == Some(JsonView::Number(low)),
        lookup(schema, "maximum"@) == Some(JsonView::Number(high)),
        low <= high,
    ensures
        ({
            let value = JsonView::Number(n);
            &&& low <= n <= high ==> range_errors(schema, value).len() == 0
            &&& n < low ==> range_errors(schema, value) == seq![
                "数值不得小于 "@ + double_text(JsonView::Number(low)),
            ]
            &&& n > high ==> range_errors(schema, value) == seq![
                "数值不得大于 "@ + double_text(JsonView::Number(high)),
            ]
        }),
{
    let value = JsonView::Number(n);
    if low <= n <= high {
        assert(range_errors(schema, value) =~= seq![]);
    } else if n < low {
        assert(range_errors(schema, value) =~= seq![
            "数值不得小于 "@ + double_text(JsonView::Number(low)),
        ]);
    } else {
        assert(range_errors(schema, value) =~= seq![
            "数值不得大于 "@ + double_text(JsonView::Number(high)),
        ]);
    }
}

/// A text may be no shorter than the least and no longer than the greatest length.
pub proof fn law_lengths_are_checked(schema: JsonView, text: Seq<char>, min: u64, max: u64)
    requires
        lookup(schema, "minLength"@) == Some(JsonView::Number(min as int)),
        lookup(schema, "maxLength"@) == Some(JsonView::Number(max as int)),
        min <= max,
    ensures
        ({
            let value = JsonView::Str(text);
            &&& min <= text.len() <= max ==> length_errors(schema, value).len() == 0
            &&& text.len() < min ==> length_errors(schema, value) == seq![
                "字符串长度不得小于 "@ + dec(min as nat),
            ]
            &&& text.len() > max ==> length_errors(schema, value) == seq![
                "字符串长度不得大于 "@ + dec(max as nat),
            ]
        }),
{
    let value = JsonView::Str(text);
    if min <= text.len() <= max {
        assert(length_errors(schema, value) =~= seq![]);
    } else if text.len() < min {
        assert(length_errors(schema, value) =~= seq!["字符串长度不得小于 "@ + dec(min as nat)]);
    } else {
        assert(length_errors(schema, value) =~= seq!["字符串长度不得大于 "@ + dec(max as nat)]);
    }
}

/// Each member that is required and missing is remarked on, in the order in which they are required.
pub proof fn law_required_members_are_checked(keys: Seq<JsonView>, key: Seq<char>, value: JsonView)
    ensures
        required_errors(seq![], value).len() == 0,
        lookup(value, key) is Some ==> required_errors(keys.push(JsonView::Str(key)), value)
            == required_errors(keys, value),
        lookup(value, key) is None ==> required_errors(keys.push(JsonView::Str(key)), value)
            == required_errors(keys, value).push("缺少必填字段 "@ + quoted_text(key)),
{
    assert(keys.push(JsonView::Str(key)).drop_last() =~= keys);
    if lookup(value, key) is Some {
        assert(required_errors(keys.push(JsonView::Str(key)), value) =~= required_errors(keys, value));
    } else {
        assert(required_errors(keys.push(JsonView::Str(key)), value) =~= required_errors(
            keys,
            value,
        ).push("缺少必填字段 "@ + quoted_text(key)));
    }
}

/// Each member that no property describes is remarked on, in the order of the members.
pub proof fn law_extra_members_are_checked(
    keys: Seq<Seq<char>>,
    key: Seq<char>,
    properties: JsonView,
)
    ensures
        extra_errors(seq![], Some(properties)).len() == 0,
        lookup(properties, key) is Some ==> extra_errors(keys.push(key), Some(properties))
            == extra_errors(keys, Some(properties)),
        lookup(properties, key) is None ==> extra_errors(keys.push(key), Some(properties))
            == extra_errors(keys, Some(properties)).push("不允许额外字段 "@ + quoted_text(key)),
        extra_errors(keys.push(key), None) == extra_errors(keys, None).push(
            "不允许额外字段 "@ + quoted_text(key),
        ),
{
    let more = keys.push(key);
    assert(more.drop_last() =~= keys);
    if lookup(properties, key) is Some {
        assert(extra_errors(more, Some(properties)) =~= extra_errors(keys, Some(properties)));
    } else {
        assert(extra_errors(more, Some(properties)) =~= extra_errors(keys, Some(properties)).push(
            "不允许额外字段 "@ + quoted_text(key),
        ));
    }
    assert(extra_errors(more, None) =~= extra_errors(keys, None).push(
        "不允许额外字段 "@ + quoted_text(key),
    ));
}

/// A list may have no more elements than it is allowed.
pub proof fn law_sizes_are_checked(schema: JsonView, len: nat, max: u64)
    ensures
        lookup(schema, "maxItems"@) is None ==> size_errors(schema, len).len() == 0,
        lookup(schema, "maxItems"@) == Some(JsonView::Number(max as int)) ==> {
            &&& len <= max ==> size_errors(schema, len).len() == 0
            &&& len > max ==> size_errors(schema, len) == seq!["数组元素不得多于 "@ + dec(max as nat)]
        },
{
}

/// What is wrong inside of a member or an element is remarked on under its name or its place.
pub proof fn law_remarks_say_where(
    key: Seq<char>,
    errors: Seq<Seq<char>>,
    i: int,
    schema: Json,
    values: Vec<Json>,
    n: nat,
)
    requires
        0 <= i < errors.len(),
        n < values@.len(),
    ensures
        prefixed(key, errors).len() == errors.len(),
        prefixed(key, errors)[i] == key + ": "@ + errors[i],
        item_errors(schema, values, 0).len() == 0,
        item_errors(schema, values, n + 1) == item_errors(schema, values, n) + prefixed(
            "["@ + dec(n) + "]"@,
            schema_errors(schema, values@[n as int]),
        ),
{
}

/// A schema that is no object, or names a type that is not known, fits nothing.
pub proof fn law_schemas_are_checked(schema: Json, value: Json, name: Seq<char>)
    ensures
        !(schema@ is Object) ==> schema_errors(schema, value) == seq!["schema 必须是 object"@],
        schema@ is Object && lookup(schema@, "type"@) == Some(JsonView::Str(name)) && type_matches(
            name,
            value@,
        ) is None ==> schema_errors(schema, value) == seq![
            "不支持的 schema type "@ + quoted_text(name),
        ],
{
}

/// A plain value, neither an object nor a list, conforms where its type, its options, its bounds and
/// its length do.
pub proof fn law_plain_values_are_checked(schema: Json, value: Json)
    requires
        schema@ is Object,
        lookup(schema@, "type"@) is None,
        !(value is Array) && !(value@ is Object),
    ensures
        schema_errors(schema, value) == enum_errors(schema@, value@) + range_errors(schema@, value@)
            + length_errors(schema@, value@),
{
    assert(schema_errors(schema, value) =~= enum_errors(schema@, value@) + range_errors(
        schema@,
        value@,
    ) + length_errors(schema@, value@));
}

/// Nothing is below itself, nothing that is no number is below or above anything, and of two numbers
/// that a double does not hold exactly the one is below where its double is.
pub proof fn law_numbers_are_compared(a: JsonView, b: JsonView)
    ensures
        !number_below(a, a),
        !(number_below(a, b) && number_below(b, a)),
        !(a is Number) && !(a is Float) ==> !number_below(a, b) && !number_below(b, a),
        a is Number && !exact_in_double(a->Number_0) && double_bits(a) == double_bits(b)
            ==> !number_below(a, b) && !number_below(b, a),
        a is Float && double_bits(a) == double_bits(b) ==> !number_below(a, b) && !number_below(b, a),
        a is Float && (b is Float || b is Number) ==> (match (double_bits(a), double_bits(b)) {
            (Some(x), Some(y)) => number_below(a, b) <==> double_place(x) < double_place(y),
            _ => !number_below(a, b),
        }),
{
}

} // verus!
