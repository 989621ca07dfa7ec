//! JSON values as plain data.
//!
//! Parsing and printing are `serde_json`'s; everything that reads or builds a value works on
//! [`Json`] and is stated over [`JsonView`], in which an object is a map.
use vstd::prelude::*;

use crate::list::take_next;
use crate::text::same;

verus! {

/// A JSON value. Integers keep their value; any other number keeps the text it is written with.
/// In an object that lists a key twice the last entry counts.
#[derive(Debug)]
pub enum Json {
    Null,
    Bool(bool),
    Int(i64),
    Uint(u64),
    Float(String),
    Str(String),
    Array(Vec<Json>),
    Object(Vec<(String, Json)>),
}

/// What a [`Json`] value denotes.
#[verifier::ext_equal]
pub enum JsonView {
    Null,
    Bool(bool),
    Number(int),
    Float(Seq<char>),
    Str(Seq<char>),
    Array(Seq<JsonView>),
    Object(Map<Seq<char>, JsonView>),
}

/// The object that a list of entries denotes: a later entry replaces an earlier one.
pub open spec fn fields(entries: Seq<(Seq<char>, JsonView)>) -> Map<Seq<char>, JsonView>
    decreases entries.len(),
{
    if entries.len() == 0 {
        Map::empty()
    } else {
        fields(entries.drop_last()).insert(entries.last().0, entries.last().1)
    }
}

/// No entries yet.
pub open spec fn nil() -> Seq<(Seq<char>, JsonView)> {
    Seq::empty()
}

/// The object with the listed entries.
pub open spec fn obj(entries: Seq<(Seq<char>, JsonView)>) -> JsonView {
    JsonView::Object(fields(entries))
}

impl Json {
    pub open spec fn entry_views(entries: Vec<(String, Json)>) -> Seq<(Seq<char>, JsonView)>
        decreases entries,
    {
        Seq::new(
            entries@.len(),
            |i: int|
                if 0 <= i < entries@.len() {
                    (entries@[i].0@, entries@[i].1.value())
                } else {
                    arbitrary()
                },
        )
    }

    pub open spec fn value(self) -> JsonView
        decreases self,
    {
        match self {
            Json::Null => JsonView::Null,
            Json::Bool(b) => JsonView::Bool(b),
            Json::Int(n) => JsonView::Number(n as int),
            Json::Uint(n) => JsonView::Number(n as int),
            Json::Float(t) => JsonView::Float(t@),
            Json::Str(t) => JsonView::Str(t@),
            Json::Array(items) => JsonView::Array(
                Seq::new(
                    items@.len(),
                    |i: int|
                        if 0 <= i < items@.len() {
                            items@[i].value()
                        } else {
                            arbitrary()
                        },
                ),
            ),
            Json::Object(entries) => JsonView::Object(fields(Json::entry_views(entries))),
        }
    }
}

impl Json {
    /// Whether the value nests at most `depth` levels and holds no number but integers.
    pub open spec fn within(self, depth: nat) -> bool
        decreases self,
    {
        match self {
            Json::Float(_) => false,
            Json::Array(items) => depth > 0 && forall|i: int|
                #![trigger items@[i]]
                0 <= i < items@.len() ==> items@[i].within((depth - 1) as nat),
            Json::Object(entries) => depth > 0 && forall|i: int|
                #![trigger entries@[i]]
                0 <= i < entries@.len() ==> entries@[i].1.within((depth - 1) as nat),
            _ => true,
        }
    }
}

impl Json {
    /// Whether no object in the value lists a key twice.
    pub open spec fn tidy(self) -> bool
        decreases self,
    {
        match self {
            Json::Array(items) => forall|i: int|
                #![trigger items@[i]]
                0 <= i < items@.len() ==> items@[i].tidy(),
            Json::Object(entries) => {
                &&& forall|i: int, j: int|
                    0 <= i < j < entries@.len() ==> (#[trigger] entries@[i]).0@ != (
                    #[trigger] entries@[j]).0@
                &&& forall|i: int|
                    #![trigger entries@[i]]
                    0 <= i < entries@.len() ==> entries@[i].1.tidy()
            },
            _ => true,
        }
    }
}

impl View for Json {
    type V = JsonView;

    open spec fn view(&self) -> JsonView {
        self.value()
    }
}

impl DeepView for Json {
    type V = JsonView;

    open spec fn deep_view(&self) -> JsonView {
        self.value()
    }
}

/// What [`Json::get`] finds under `key`.
pub open spec fn lookup(value: JsonView, key: Seq<char>) -> Option<JsonView> {
    match value {
        JsonView::Object(map) => if map.dom().contains(key) {
            Some(map[key])
        } else {
            None
        },
        _ => None,
    }
}

/// The last of some entries under `key`.
pub open spec fn last_entry(entries: Seq<(String, Json)>, key: Seq<char>) -> Option<Json>
    decreases entries.len(),
{
    if entries.len() == 0 {
        None
    } else if entries.last().0@ == key {
        Some(entries.last().1)
    } else {
        last_entry(entries.drop_last(), key)
    }
}

impl Json {
    /// The member of an object under `key`, as it is held.
    pub open spec fn child(self, key: Seq<char>) -> Option<Json> {
        match self {
            Json::Object(entries) => last_entry(entries@, key),
            _ => None,
        }
    }
}

proof fn last_entry_is_listed(entries: Seq<(String, Json)>, key: Seq<char>)
    ensures
        last_entry(entries, key) is Some ==> exists|k: int|
            0 <= k < entries.len() && (#[trigger] entries[k]).1 == last_entry(entries, key)->0,
    decreases entries.len(),
{
    if entries.len() > 0 {
        if entries.last().0@ == key {
            assert(entries[entries.len() - 1].1 == entries.last().1);
        } else {
            last_entry_is_listed(entries.drop_last(), key);
            if last_entry(entries, key) is Some {
                let k = choose|k: int|
                    0 <= k < entries.len() - 1 && (#[trigger] entries.drop_last()[k]).1
                        == last_entry(entries, key)->0;
                assert(entries[k].1 == last_entry(entries, key)->0);
            }
        }
    }
}

proof fn last_entry_is_lookup(entries: Seq<(String, Json)>, views: Seq<(Seq<char>, JsonView)>, key: Seq<char>)
    requires
        entries.len() == views.len(),
        forall|i: int| 0 <= i < views.len() ==> views[i] == (entries[i].0@, entries[i].1@),
    ensures
        last_entry(entries, key).deep_view() == lookup(obj(views), key),
    decreases entries.len(),
{
    if entries.len() > 0 {
        last_entry_is_lookup(entries.drop_last(), views.drop_last(), key);
    }
}

/// A member is what the object's map holds, and is smaller than the object.
pub proof fn child_is_lookup(json: Json, key: Seq<char>)
    ensures
        json.child(key).deep_view() == lookup(json@, key),
        json.child(key) is Some ==> decreases_to!(json => json.child(key)->0),
{
    if let Json::Object(entries) = json {
        last_entry_is_lookup(entries@, Json::entry_views(entries), key);
        last_entry_is_listed(entries@, key);
        if last_entry(entries@, key) is Some {
            let k = choose|k: int|
                0 <= k < entries@.len() && (#[trigger] entries@[k]).1 == last_entry(
                    entries@,
                    key,
                )->0;
            assert(decreases_to!(json => json->Object_0@[k].1));
        }
    }
}

/// What an object without doubled keys holds has none either.
pub proof fn children_are_tidy(json: Json, key: Seq<char>)
    requires
        json.tidy(),
        json.child(key) is Some,
    ensures
        json.child(key)->0.tidy(),
{
    let entries = json->Object_0;
    entry_of_child(entries@, key);
    let i = choose|i: int|
        0 <= i < entries@.len() && (#[trigger] entries@[i]).0@ == key && Some(entries@[i].1)
            == last_entry(entries@, key);
    assert(entries@[i].1.tidy());
}

/// What an object holds under a key is one of its entries.
pub proof fn entry_of_child(entries: Seq<(String, Json)>, key: Seq<char>)
    requires
        last_entry(entries, key) is Some,
    ensures
        exists|i: int|
            0 <= i < entries.len() && (#[trigger] entries[i]).0@ == key && Some(entries[i].1)
                == last_entry(entries, key),
    decreases entries.len(),
{
    if entries.last().0@ == key {
        assert(entries[entries.len() - 1].0@ == key);
    } else {
        let before = entries.drop_last();
        entry_of_child(before, key);
        let i = choose|i: int|
            0 <= i < before.len() && (#[trigger] before[i]).0@ == key && Some(before[i].1)
                == last_entry(before, key);
        assert(entries[i].0@ == key);
    }
}

/// Where no key is listed twice, each entry is what the object holds under its key.
pub proof fn only_entry(entries: Seq<(String, Json)>, i: int)
    requires
        0 <= i < entries.len(),
        forall|i: int, j: int|
            0 <= i < j < entries.len() ==> (#[trigger] entries[i]).0@ != (#[trigger] entries[j]).0@,
    ensures
        last_entry(entries, entries[i].0@) == Some(entries[i].1),
    decreases entries.len(),
{
    if i < entries.len() - 1 {
        let before = entries.drop_last();
        assert(entries[i].0@ != entries[entries.len() - 1].0@);
        assert forall|a: int, b: int| 0 <= a < b < before.len() implies (#[trigger] before[a]).0@
            != (#[trigger] before[b]).0@ by {
            assert(entries[a].0@ != entries[b].0@);
        }
        only_entry(before, i);
    }
}

/// `serde_json`'s value type; it occurs only between the two conversions below.
#[verifier::external_type_specification]
#[verifier::external_body]
pub struct ExValue(serde_json::Value);

/// Turns a `serde_json::Value` into a [`Json`], variant by variant. Nothing is claimed of the
/// result here: the callers that parse text name what they get.
#[verifier::external_body]
fn from_value(value: serde_json::Value) -> (json: Json) {
    match value {
        serde_json::Value::Null => Json::Null,
        serde_json::Value::Bool(b) => Json::Bool(b),
        serde_json::Value::Number(n) => match (n.as_u64(), n.as_i64()) {
            (Some(u), _) => Json::Uint(u),
            (_, Some(i)) => Json::Int(i),
            _ => Json::Float(n.to_string()),
        },
        serde_json::Value::String(t) => Json::Str(t),
        serde_json::Value::Array(a) => Json::Array(a.into_iter().map(from_value).collect()),
        serde_json::Value::Object(o) => Json::Object(o.into_iter().map(|e| (e.0, from_value(e.1))).collect()),
    }
}

/// Turns a [`Json`] into a `serde_json::Value`, variant by variant. Nothing is claimed of the
/// result here: the callers that print it name what they get.
#[verifier::external_body]
fn to_value(json: &Json) -> (value: serde_json::Value) {
    match json {
        Json::Null => serde_json::Value::Null,
        Json::Bool(b) => serde_json::Value::from(*b),
        Json::Int(n) => serde_json::Value::from(*n),
        Json::Uint(n) => serde_json::Value::from(*n),
        Json::Float(t) => serde_json::from_str(t).unwrap_or_default(),
        Json::Str(t) => serde_json::Value::from(t.as_str()),
        Json::Array(a) => a.iter().map(to_value).collect(),
        Json::Object(o) => o.iter().map(|e| (e.0.clone(), to_value(&e.1))).collect(),
    }
}

/// What `serde_json::from_str` reads in a text: a value, or its message where the text is not JSON.
pub uninterp spec fn parsed_json(text: Seq<char>) -> Result<JsonView, Seq<char>>;

/// The text that `serde_json::Value::to_string` prints for a value.
pub uninterp spec fn printed_json(value: JsonView) -> Seq<char>;

/// `serde_json::from_str::<Value>`: its result is a function of the text alone, and its objects
/// hold each key once.
#[verifier::external_body]
fn parse_text(text: &str) -> (r: Result<Json, String>)
    ensures
        match r {
            Ok(json) => parsed_json(text@) == Ok::<JsonView, Seq<char>>(json@),
            Err(e) => parsed_json(text@) == Err::<JsonView, Seq<char>>(e@),
        },
        r is Ok ==> r->Ok_0.tidy(),
{
    serde_json::from_str(text).map(from_value).map_err(|e| e.to_string())
}

/// Whether a text reads as the value that was printed, where the value is one that does: it holds
/// no fractional number and stays below the 128 levels at which the reader gives up.
pub open spec fn reads_back(text: Seq<char>, json: Json) -> bool {
    json.within(127) ==> parsed_json(text) == Ok::<JsonView, Seq<char>>(json@)
}

/// `serde_json::Value::to_string`: its result is a function of the value alone. What it prints of
/// a value without fractional numbers, `serde_json::from_str` reads back as that value, as long as
/// the value stays below the 128 levels at which the reader gives up.
#[verifier::external_body]
fn print_value(json: &Json) -> (text: String)
    ensures
        text@ == printed_json(json@),
        reads_back(text@, *json),
{
    to_value(json).to_string()
}

/// The text that `serde_json::to_string_pretty` prints for a value.
pub uninterp spec fn pretty_json(value: JsonView) -> Seq<char>;

/// `serde_json::to_string_pretty`: its result is a function of the value alone. It fails for no
/// value that [`to_value`] makes, as all keys are texts. What it prints reads back as what the
/// compact form prints does.
#[verifier::external_body]
pub(crate) fn print_pretty(json: &Json) -> (text: String)
    ensures
        text@ == pretty_json(json@),
        reads_back(text@, *json),
{
    serde_json::to_string_pretty(&to_value(json)).unwrap_or_default()
}

/// What `toml::from_str` reads in a text, as a JSON value, or its message where the text is not
/// TOML.
pub uninterp spec fn parsed_toml(text: Seq<char>) -> Result<JsonView, Seq<char>>;

/// `toml::from_str::<serde_json::Value>`: its result is a function of the text alone, and its
/// tables hold each key once.
#[verifier::external_body]
pub(crate) fn from_toml(text: &str) -> (r: Result<Json, String>)
    ensures
        match r {
            Ok(json) => parsed_toml(text@) == Ok::<JsonView, Seq<char>>(json@),
            Err(e) => parsed_toml(text@) == Err::<JsonView, Seq<char>>(e@),
        },
        r is Ok ==> r->Ok_0.tidy(),
{
    toml::from_str(text).map(from_value).map_err(|e| e.to_string())
}

impl Json {
    /// Reads a JSON text.
    pub fn parse(text: &str) -> (r: Result<Json, String>)
        ensures
            match r {
                Ok(json) => parsed_json(text@) == Ok::<JsonView, Seq<char>>(json@),
                Err(e) => parsed_json(text@) == Err::<JsonView, Seq<char>>(e@),
            },
            r is Ok ==> r->Ok_0.tidy(),
    {
        parse_text(text)
    }

    /// Prints the value in compact form.
    pub fn print(&self) -> (text: String)
        ensures
            text@ == printed_json(self@),
            reads_back(text@, *self),
    {
        print_value(self)
    }

    /// The member of an object under `key`.
    pub fn get(&self, key: &str) -> (r: Option<&Json>)
        ensures
            r.deep_view() == lookup(self@, key@),
            r is Some == self.child(key@) is Some,
            r is Some ==> *r->0 == self.child(key@)->0 && decreases_to!(*self => *r->0),
    {
        proof {
            child_is_lookup(*self, key@);
        }
        match self {
            Json::Object(entries) => {
                let mut i: usize = entries.len();
                assert(entries@.take(entries@.len() as int) =~= entries@);
                while i > 0
                    invariant
                        i <= entries@.len(),
                        self == Json::Object(*entries),
                        last_entry(entries@, key@) == last_entry(entries@.take(i as int), key@),
                        self.child(key@).deep_view() == lookup(self@, key@),
                        self.child(key@) is Some ==> decreases_to!(*self => self.child(key@)->0),
                    decreases i,
                {
                    i = i - 1;
                    proof {
                        take_next(entries@, i as int);
                    }
                    if same(entries[i].0.as_str(), key) {
                        return Some(&entries[i].1);
                    }
                }
                None
            },
            _ => None,
        }
    }

    pub fn as_str(&self) -> (r: Option<&str>)
        ensures
            r.deep_view() == (match self@ {
                JsonView::Str(t) => Some(t),
                _ => None,
            }),
    {
        match self {
            Json::Str(t) => Some(t.as_str()),
            _ => None,
        }
    }

    pub fn as_u64(&self) -> (r: Option<u64>)
        ensures
            r == spec_u64(self@),
    {
        match self {
            Json::Uint(n) => Some(*n),
            Json::Int(n) => if *n >= 0 {
                Some(*n as u64)
            } else {
                None
            },
            _ => None,
        }
    }

    pub fn as_bool(&self) -> (r: Option<bool>)
        ensures
            r == (match self@ {
                JsonView::Bool(b) => Some(b),
                _ => None,
            }),
    {
        match self {
            Json::Bool(b) => Some(*b),
            _ => None,
        }
    }
}

/// The value as an unsigned integer, where it is one.
pub open spec fn spec_u64(value: JsonView) -> Option<u64> {
    match value {
        JsonView::Number(n) => if 0 <= n <= u64::MAX {
            Some(n as u64)
        } else {
            None
        },
        _ => None,
    }
}

impl Clone for Json {
    fn clone(&self) -> (r: Json)
        ensures
            r@ == self@,
            forall|depth: nat| #[trigger] self.within(depth) ==> r.within(depth),
        decreases self,
    {
        match self {
            Json::Null => Json::Null,
            Json::Bool(b) => Json::Bool(*b),
            Json::Int(n) => Json::Int(*n),
            Json::Uint(n) => Json::Uint(*n),
            Json::Float(t) => Json::Float(t.clone()),
            Json::Str(t) => Json::Str(t.clone()),
            Json::Array(items) => {
                let mut out: Vec<Json> = Vec::new();
                let mut i: usize = 0;
                while i < items.len()
                    invariant
                        i <= items@.len(),
                        out@.len() == i,
                        self == Json::Array(*items),
                        forall|k: int| 0 <= k < i ==> out@[k]@ == items@[k]@,
                        forall|k: int, depth: nat|
                            0 <= k < i && #[trigger] items@[k].within(depth) ==> out@[k].within(depth),
                    decreases items@.len() - i,
                {
                    assert(decreases_to!(*self => self->Array_0@[i as int]));
                    out.push(items[i].clone());
                    i = i + 1;
                }
                let r = Json::Array(out);
                assert(r@->Array_0 =~= self@->Array_0);
                assert forall|depth: nat| #[trigger] self.within(depth) implies r.within(depth) by {
                    assert forall|k: int| #![trigger out@[k]] 0 <= k < out@.len() implies out@[k].within(
                        (depth - 1) as nat,
                    ) by {
                        assert(items@[k].within((depth - 1) as nat));
                    }
                }
                r
            },
            Json::Object(entries) => {
                let mut out: Vec<(String, Json)> = Vec::new();
                let mut i: usize = 0;
                while i < entries.len()
                    invariant
                        i <= entries@.len(),
                        out@.len() == i,
                        self == Json::Object(*entries),
                        forall|k: int|
                            0 <= k < i ==> out@[k].0 == entries@[k].0 && out@[k].1@ == entries@[k].1@,
                        forall|k: int, depth: nat|
                            0 <= k < i && #[trigger] entries@[k].1.within(depth) ==> out@[k].1.within(
                                depth,
                            ),
                    decreases entries@.len() - i,
                {
                    assert(decreases_to!(*self => self->Object_0@[i as int].1));
                    out.push((entries[i].0.clone(), entries[i].1.clone()));
                    i = i + 1;
                }
                assert(Json::entry_views(out) =~= Json::entry_views(*entries));
                let r = Json::Object(out);
                assert forall|depth: nat| #[trigger] self.within(depth) implies r.within(depth) by {
                    assert forall|k: int| #![trigger out@[k]] 0 <= k < out@.len() implies out@[k].1.within(
                        (depth - 1) as nat,
                    ) by {
                        assert(entries@[k].1.within((depth - 1) as nat));
                    }
                }
                r
            },
        }
    }
}

/// An object has the keys of its entries.
pub proof fn fields_hold(views: Seq<(Seq<char>, JsonView)>, key: Seq<char>)
    ensures
        fields(views).dom().contains(key) <==> exists|i: int|
            0 <= i < views.len() && (#[trigger] views[i]).0 == key,
    decreases views.len(),
{
    if views.len() > 0 {
        let before = views.drop_last();
        fields_hold(before, key);
        if fields(views).dom().contains(key) {
            if views.last().0 == key {
                assert(views[views.len() - 1].0 == key);
            } else {
                let i = choose|i: int| 0 <= i < before.len() && (#[trigger] before[i]).0 == key;
                assert(views[i].0 == key);
            }
        }
        if exists|i: int| 0 <= i < views.len() && (#[trigger] views[i]).0 == key {
            let i = choose|i: int| 0 <= i < views.len() && (#[trigger] views[i]).0 == key;
            if i < before.len() {
                assert(before[i].0 == key);
            }
        }
    }
}

/// An object with one more entry says under the entry's key what the entry says, and under every
/// other key what it said before.
pub broadcast proof fn entries_are_said(entries: Seq<(Seq<char>, JsonView)>, entry: (Seq<char>, JsonView))
    ensures
        #[trigger] fields(entries.push(entry)) == fields(entries).insert(entry.0, entry.1),
{
    assert(entries.push(entry).drop_last() =~= entries);
}

/// Whether two fractional numbers stand for the same number, as zero and its negative do.
pub open spec fn same_double(a: JsonView, b: JsonView) -> bool {
    a == b || match (double_bits(a), double_bits(b)) {
        (Some(x), Some(y)) => double_place(x) == double_place(y),
        _ => false,
    }
}

/// Whether two values are the same: fractional numbers are compared as numbers, and all else by
/// what it holds.
pub open spec fn same_value(a: JsonView, b: JsonView) -> bool
    decreases a,
{
    match (a, b) {
        (JsonView::Float(_), JsonView::Float(_)) => same_double(a, b),
        (JsonView::Array(x), JsonView::Array(y)) => x.len() == y.len() && forall|i: int|
            0 <= i < x.len() ==> same_value(#[trigger] x[i], y[i]),
        (JsonView::Object(x), JsonView::Object(y)) => x.dom() == y.dom() && forall|k: Seq<char>|
            #[trigger] x.dom().contains(k) ==> same_value(x[k], y[k]),
        _ => a == b,
    }
}

/// Every value is the same as itself.
pub proof fn law_values_are_their_own_equals(a: JsonView)
    ensures
        same_value(a, a),
    decreases a,
{
    match a {
        JsonView::Array(x) => {
            assert forall|i: int| 0 <= i < x.len() implies same_value(#[trigger] x[i], x[i]) by {
                law_values_are_their_own_equals(x[i]);
            }
        },
        JsonView::Object(x) => {
            assert forall|k: Seq<char>| #[trigger] x.dom().contains(k) implies same_value(
                x[k],
                x[k],
            ) by {
                law_values_are_their_own_equals(x[k]);
            }
        },
        _ => {},
    }
}

/// The place of a double on the number line, from its bits: its side of zero and how far off.
fn place_of(bits: u64) -> (r: (bool, u64))
    ensures
        double_place(bits) == (if r.0 {
            -(r.1 as int)
        } else {
            r.1 as int
        }),
        r.0 ==> r.1 > 0,
{
    let half: u64 = 0x8000_0000_0000_0000;
    if bits < half {
        (false, bits)
    } else if bits == half {
        (false, 0)
    } else {
        (true, bits - half)
    }
}

fn equal_doubles(a: &Json, b: &Json) -> (r: bool)
    requires
        a@ is Float,
        b@ is Float,
    ensures
        r == same_double(a@, b@),
{
    match (a, b) {
        (Json::Float(x), Json::Float(y)) => same(x.as_str(), y.as_str()) || match (
            as_double(a),
            as_double(b),
        ) {
            (Some(x), Some(y)) => {
                let (p, q) = (place_of(x), place_of(y));
                p.0 == q.0 && p.1 == q.1
            },
            _ => false,
        },
        _ => false,
    }
}

/// Whether two values are the same.
pub fn equal(a: &Json, b: &Json) -> (r: bool)
    ensures
        r == same_value(a@, b@),
    decreases a,
{
    match (a, b) {
        (Json::Null, Json::Null) => true,
        (Json::Bool(x), Json::Bool(y)) => *x == *y,
        (Json::Int(x), Json::Int(y)) => *x == *y,
        (Json::Uint(x), Json::Uint(y)) => *x == *y,
        (Json::Int(x), Json::Uint(y)) => *x >= 0 && *x as u64 == *y,
        (Json::Uint(x), Json::Int(y)) => *y >= 0 && *x == *y as u64,
        (Json::Float(_), Json::Float(_)) => equal_doubles(a, b),
        (Json::Str(x), Json::Str(y)) => same(x.as_str(), y.as_str()),
        (Json::Array(x), Json::Array(y)) => {
            if x.len() != y.len() {
                assert(a@->Array_0.len() != b@->Array_0.len());
                return false;
            }
            let mut i: usize = 0;
            while i < x.len()
                invariant
                    i <= x@.len(),
                    x@.len() == y@.len(),
                    *a == Json::Array(*x),
                    *b == Json::Array(*y),
                    forall|k: int| 0 <= k < i ==> #[trigger] same_value(x@[k]@, y@[k]@),
                decreases x@.len() - i,
            {
                assert(decreases_to!(*a => a->Array_0@[i as int]));
                if !equal(&x[i], &y[i]) {
                    assert(!same_value(a@->Array_0[i as int], b@->Array_0[i as int]));
                    return false;
                }
                i = i + 1;
            }
            assert forall|k: int| 0 <= k < x@.len() implies same_value(
                #[trigger] a@->Array_0[k],
                b@->Array_0[k],
            ) by {
                assert(same_value(x@[k]@, y@[k]@));
            }
            true
        },
        (Json::Object(x), Json::Object(y)) => equal_objects(a, b, x, y),
        _ => false,
    }
}

fn equal_objects(a: &Json, b: &Json, x: &Vec<(String, Json)>, y: &Vec<(String, Json)>) -> (r: bool)
    requires
        *a == Json::Object(*x),
        *b == Json::Object(*y),
    ensures
        r == same_value(a@, b@),
    decreases a, 0int,
{
    let ghost xs = Json::entry_views(*x);
    let ghost ys = Json::entry_views(*y);
    let ghost ma = a@->Object_0;
    let ghost mb = b@->Object_0;
    let mut i: usize = 0;
    while i < x.len()
        invariant
            i <= x@.len(),
            *a == Json::Object(*x),
            *b == Json::Object(*y),
            xs == Json::entry_views(*x),
            ma == a@->Object_0,
            mb == b@->Object_0,
            forall|k: int|
                0 <= k < i ==> mb.dom().contains(#[trigger] xs[k].0) && same_value(
                    ma[xs[k].0],
                    mb[xs[k].0],
                ),
        decreases x@.len() - i,
    {
        let key = x[i].0.as_str();
        proof {
            assert(xs[i as int].0 == key@);
            fields_hold(xs, key@);
            assert(ma.dom().contains(key@));
        }
        match (a.get(key), b.get(key)) {
            (Some(u), Some(v)) => {
                if !equal(u, v) {
                    assert(!same_value(ma[key@], mb[key@]));
                    return false;
                }
            },
            _ => {
                assert(!mb.dom().contains(key@));
                return false;
            },
        }
        i = i + 1;
    }
    let mut j: usize = 0;
    while j < y.len()
        invariant
            j <= y@.len(),
            *a == Json::Object(*x),
            *b == Json::Object(*y),
            ys == Json::entry_views(*y),
            ma == a@->Object_0,
            mb == b@->Object_0,
            forall|k: int| 0 <= k < j ==> ma.dom().contains(#[trigger] ys[k].0),
        decreases y@.len() - j,
    {
        let key = y[j].0.as_str();
        proof {
            assert(ys[j as int].0 == key@);
            fields_hold(ys, key@);
            assert(mb.dom().contains(key@));
        }
        if a.get(key).is_none() {
            return false;
        }
        j = j + 1;
    }
    proof {
        assert forall|k: Seq<char>| ma.dom().contains(k) <==> mb.dom().contains(k) by {
            fields_hold(xs, k);
            fields_hold(ys, k);
        }
        assert(ma.dom() =~= mb.dom());
        assert forall|k: Seq<char>| #[trigger] ma.dom().contains(k) implies same_value(ma[k], mb[k]) by {
            fields_hold(xs, k);
        }
    }
    true
}

/// The bits of the double that `serde_json::Value::as_f64` gives for a number.
pub uninterp spec fn double_bits(value: JsonView) -> Option<u64>;

/// The place of a finite double, given by its bits, on the number line.
pub open spec fn double_place(bits: u64) -> int {
    if bits < 0x8000_0000_0000_0000 {
        bits as int
    } else {
        0x8000_0000_0000_0000 - bits
    }
}

/// An integer that a double holds exactly, as it does every one below it in size.
pub open spec fn exact_in_double(n: int) -> bool {
    -9007199254740992 <= n <= 9007199254740992
}

/// `serde_json::Value::as_f64`, its result given as the bits of the double. It gives a double for
/// every integer and for nothing that is no number, and of integers that a double holds exactly it
/// keeps the order.
#[verifier::external_body]
pub(crate) fn as_double(json: &Json) -> (r: Option<u64>)
    ensures
        json@ is Number || json@ is Float ==> r == double_bits(json@),
        !(json@ is Number || json@ is Float) ==> r is None,
        json@ is Number ==> r is Some,
        json@ is Number && exact_in_double(json@->Number_0) ==> forall|m: int|
            exact_in_double(m) && m < json@->Number_0 ==> double_place(
                (#[trigger] double_bits(JsonView::Number(m)))->0,
            ) < double_place(r->0),
{
    to_value(json).as_f64().map(|d| d.to_bits())
}

/// The text that a number has once `serde_json::Value::as_f64` has read it as a double.
pub uninterp spec fn double_text(value: JsonView) -> Seq<char>;

/// The `Display` form of what `serde_json::Value::as_f64` gives, a function of the value alone;
/// empty where the value is no number.
#[verifier::external_body]
pub(crate) fn print_double(json: &Json) -> (text: String)
    ensures
        text@ == double_text(json@),
{
    to_value(json).as_f64().map(|d| d.to_string()).unwrap_or_default()
}

/// How the `Debug` form of a list of `serde_json::Value`s reads.
pub uninterp spec fn debug_list(items: Seq<JsonView>) -> Seq<char>;

/// The `Debug` form of `serde_json::Value`, for a list.
#[verifier::external_body]
pub(crate) fn print_debug_list(items: &Vec<Json>) -> (text: String)
    ensures
        text@ == debug_list(items.deep_view()),
{
    format!("{:?}", items.iter().map(to_value).collect::<Vec<serde_json::Value>>())
}

// ---- Building values ----

/// An object under construction.
pub struct Fields {
    entries: Vec<(String, Json)>,
}

impl Fields {
    /// The entries so far.
    pub closed spec fn listed(&self) -> Seq<(Seq<char>, JsonView)> {
        Json::entry_views(self.entries)
    }

    /// Whether all values so far nest at most `depth` levels.
    pub closed spec fn within(&self, depth: nat) -> bool {
        forall|i: int|
            #![trigger self.entries@[i]]
            0 <= i < self.entries@.len() ==> self.entries@[i].1.within(depth)
    }

    pub fn new() -> (f: Fields)
        ensures
            f.listed() == nil(),
            forall|depth: nat| #[trigger] f.within(depth),
    {
        let f = Fields { entries: Vec::new() };
        assert(f.listed() =~= nil());
        f
    }

    pub fn with(self, key: &str, value: Json) -> (f: Fields)
        ensures
            f.listed() == self.listed().push((key@, value@)),
            forall|depth: nat|
                self.within(depth) && value.within(depth) ==> #[trigger] f.within(depth),
    {
        let ghost before = self.listed();
        let mut entries = self.entries;
        entries.push((key.to_owned(), value));
        let f = Fields { entries };
        assert(f.listed() =~= before.push((key@, value@)));
        f
    }

    /// Adds an entry to an object that is built step by step.
    pub fn set(&mut self, key: &str, value: Json)
        ensures
            final(self).listed() == old(self).listed().push((key@, value@)),
            forall|depth: nat|
                old(self).within(depth) && value.within(depth) ==> #[trigger] final(self).within(depth),
    {
        let ghost before = self.listed();
        self.entries.push((key.to_owned(), value));
        assert(self.listed() =~= before.push((key@, value@)));
    }

    pub fn done(self) -> (j: Json)
        ensures
            j@ == obj(self.listed()),
            forall|depth: nat| #[trigger] self.within(depth) ==> j.within(depth + 1),
    {
        Json::Object(self.entries)
    }
}

pub fn text(t: &str) -> (j: Json)
    ensures
        j@ == JsonView::Str(t@),
        forall|depth: nat| #[trigger] j.within(depth),
{
    Json::Str(t.to_owned())
}

pub fn number(n: u64) -> (j: Json)
    ensures
        j@ == JsonView::Number(n as int),
        forall|depth: nat| #[trigger] j.within(depth),
{
    Json::Uint(n)
}

pub fn boolean(b: bool) -> (j: Json)
    ensures
        j@ == JsonView::Bool(b),
        forall|depth: nat| #[trigger] j.within(depth),
{
    Json::Bool(b)
}

pub fn array(items: Vec<Json>) -> (j: Json)
    ensures
        j@ == JsonView::Array(items.deep_view()),
        forall|depth: nat|
            (forall|i: int| #![trigger items@[i]] 0 <= i < items@.len() ==> items@[i].within(depth))
                ==> #[trigger] j.within(depth + 1),
{
    let j = Json::Array(items);
    assert(j@->Array_0 =~= items.deep_view());
    j
}

// ---- Reading what may be absent ----

/// The member of a value that may be absent itself.
pub open spec fn at(value: Option<JsonView>, key: Seq<char>) -> Option<JsonView> {
    match value {
        Some(v) => lookup(v, key),
        None => None,
    }
}

pub fn member<'a>(value: Option<&'a Json>, key: &str) -> (r: Option<&'a Json>)
    ensures
        r.deep_view() == at(value.deep_view(), key@),
{
    match value {
        Some(v) => v.get(key),
        None => None,
    }
}

/// The text of a value, if it is one.
pub open spec fn text_at(value: Option<JsonView>) -> Option<Seq<char>> {
    match value {
        Some(JsonView::Str(t)) => Some(t),
        _ => None,
    }
}

pub fn text_in<'a>(value: Option<&'a Json>) -> (r: Option<&'a str>)
    ensures
        r.deep_view() == text_at(value.deep_view()),
{
    match value {
        Some(v) => v.as_str(),
        None => None,
    }
}

/// The text of a value, or `other` where it is none.
pub open spec fn text_or(value: Option<JsonView>, other: Seq<char>) -> Seq<char> {
    match text_at(value) {
        Some(t) => t,
        None => other,
    }
}

pub fn text_or_else<'a>(value: Option<&'a Json>, other: &'a str) -> (r: &'a str)
    ensures
        r@ == text_or(value.deep_view(), other@),
{
    match text_in(value) {
        Some(t) => t,
        None => other,
    }
}

/// The unsigned integer in a value, if it is one.
pub open spec fn number_at(value: Option<JsonView>) -> Option<u64> {
    match value {
        Some(v) => spec_u64(v),
        None => None,
    }
}

pub fn number_in(value: Option<&Json>) -> (r: Option<u64>)
    ensures
        r == number_at(value.deep_view()),
{
    match value {
        Some(v) => v.as_u64(),
        None => None,
    }
}

pub open spec fn number_or(value: Option<JsonView>, other: u64) -> u64 {
    match number_at(value) {
        Some(n) => n,
        None => other,
    }
}

pub fn number_or_else(value: Option<&Json>, other: u64) -> (r: u64)
    ensures
        r == number_or(value.deep_view(), other),
{
    match number_in(value) {
        Some(n) => n,
        None => other,
    }
}

} // verus!
