//! What a workspace prefers: the reasoning efforts that differ from a model's default.
use vstd::prelude::*;

use crate::hash::{hash_text, text_hash};
use crate::json::{
    child_is_lookup, fields, fields_hold, last_entry, lookup, nil, obj, parsed_json, pretty_json,
    print_pretty, Fields, Json, JsonView,
};
use crate::list::{empty, put, take_all, take_next};
use crate::storage::{below, join_path};
use crate::text::{
    concat2, distinct, drop_named, find_named, law_dropping_a_name, law_setting_a_name,
    law_sorting_keeps_what_is_named, named, named_by_entry, rising, same, set_named, sort_named,
    sorted_named, with_named, without_named,
};
use crate::workspace::PathStyle;

verus! {

/// The preferences of a workspace, in its own file.
#[derive(Debug)]
pub struct WorkspacePreferences {
    path: String,
    efforts: Vec<(String, Vec<(String, String)>)>,
}

pub open spec fn all_distinct(efforts: Seq<(Seq<char>, Seq<(Seq<char>, Seq<char>)>)>) -> bool {
    distinct(efforts) && forall|i: int|
        0 <= i < efforts.len() ==> distinct((#[trigger] efforts[i]).1)
}

impl WorkspacePreferences {
    #[verifier::type_invariant]
    spec fn sound(self) -> bool {
        all_distinct(self.efforts.deep_view())
    }

    /// The preferred efforts, by provider and model.
    pub closed spec fn view(&self) -> Seq<(Seq<char>, Seq<(Seq<char>, Seq<char>)>)> {
        self.efforts.deep_view()
    }

    pub closed spec fn file(&self) -> Seq<char> {
        self.path@
    }
}

/// The file of a workspace's preferences.
pub open spec fn preference_file(style: PathStyle, dir: Seq<char>, key: Seq<char>) -> Seq<char> {
    below(style, dir, text_hash(key) + ".json"@)
}

pub fn preference_path(style: PathStyle, dir: &str, key: &str) -> (s: String)
    ensures
        s@ == preference_file(style, dir@, key@),
{
    join_path(style, dir, concat2(hash_text(key).as_str(), ".json").as_str())
}

/// The effort that is preferred for a model.
pub open spec fn preferred(
    efforts: Seq<(Seq<char>, Seq<(Seq<char>, Seq<char>)>)>,
    provider: Seq<char>,
    model: Seq<char>,
) -> Option<Seq<char>> {
    match named(efforts, provider) {
        Some(models) => named(models, model),
        None => None,
    }
}

/// The preferences with another effort for a model. A model's default is not kept, and neither is a
/// provider without preferences.
pub open spec fn with_effort(
    efforts: Seq<(Seq<char>, Seq<(Seq<char>, Seq<char>)>)>,
    provider: Seq<char>,
    model: Seq<char>,
    effort: Seq<char>,
    default_effort: Seq<char>,
) -> Seq<(Seq<char>, Seq<(Seq<char>, Seq<char>)>)> {
    if effort == default_effort {
        match named(efforts, provider) {
            None => efforts,
            Some(models) => {
                let rest = without_named(models, model);
                if rest.len() == 0 {
                    without_named(efforts, provider)
                } else {
                    with_named(efforts, provider, rest)
                }
            },
        }
    } else {
        let models = match named(efforts, provider) {
            Some(models) => models,
            None => seq![],
        };
        with_named(efforts, provider, with_named(models, model, effort))
    }
}

proof fn stays_distinct(
    efforts: Seq<(Seq<char>, Seq<(Seq<char>, Seq<char>)>)>,
    provider: Seq<char>,
    models: Seq<(Seq<char>, Seq<char>)>,
)
    requires
        all_distinct(efforts),
        distinct(models),
    ensures
        all_distinct(with_named(efforts, provider, models)),
        all_distinct(without_named(efforts, provider)),
{
    law_setting_a_name(efforts, provider, models, provider);
    law_dropping_a_name(efforts, provider, provider);
    let t = with_named(efforts, provider, models);
    assert forall|i: int| 0 <= i < t.len() implies distinct((#[trigger] t[i]).1) by {
        let name = t[i].0;
        named_by_entry(t, name);
        law_setting_a_name(efforts, provider, models, name);
        if name != provider {
            named_by_entry(efforts, name);
            let k = choose|k: int| 0 <= k < efforts.len() && (#[trigger] efforts[k]).0 == name;
            assert(distinct(efforts[k].1));
        }
    }
    let u = without_named(efforts, provider);
    assert forall|i: int| 0 <= i < u.len() implies distinct((#[trigger] u[i]).1) by {
        let name = u[i].0;
        named_by_entry(u, name);
        law_dropping_a_name(efforts, provider, name);
        named_by_entry(efforts, name);
        let k = choose|k: int| 0 <= k < efforts.len() && (#[trigger] efforts[k]).0 == name;
        assert(distinct(efforts[k].1));
    }
}

proof fn models_are_distinct(efforts: Seq<(Seq<char>, Seq<(Seq<char>, Seq<char>)>)>, provider: Seq<char>)
    requires
        all_distinct(efforts),
    ensures
        named(efforts, provider) is Some ==> distinct(named(efforts, provider)->0),
{
    named_by_entry(efforts, provider);
    if named(efforts, provider) is Some {
        let k = choose|k: int| 0 <= k < efforts.len() && (#[trigger] efforts[k]).0 == provider;
        assert(distinct(efforts[k].1));
    }
}

proof fn effort_keeps_distinct(
    efforts: Seq<(Seq<char>, Seq<(Seq<char>, Seq<char>)>)>,
    provider: Seq<char>,
    model: Seq<char>,
    effort: Seq<char>,
    default_effort: Seq<char>,
)
    requires
        all_distinct(efforts),
    ensures
        all_distinct(with_effort(efforts, provider, model, effort, default_effort)),
{
    models_are_distinct(efforts, provider);
    let models = match named(efforts, provider) {
        Some(models) => models,
        None => seq![],
    };
    law_dropping_a_name(models, model, model);
    law_setting_a_name(models, model, effort, model);
    stays_distinct(efforts, provider, without_named(models, model));
    stays_distinct(efforts, provider, with_named(models, model, effort));
}

/// What was set is what is preferred, unless it is the default, which leaves no preference; and
/// nothing else changes.
pub proof fn law_preferences_read_back(
    efforts: Seq<(Seq<char>, Seq<(Seq<char>, Seq<char>)>)>,
    provider: Seq<char>,
    model: Seq<char>,
    effort: Seq<char>,
    default_effort: Seq<char>,
    other_provider: Seq<char>,
    other_model: Seq<char>,
)
    requires
        all_distinct(efforts),
    ensures
        ({
            let after = with_effort(efforts, provider, model, effort, default_effort);
            &&& preferred(after, provider, model) == (if effort == default_effort {
                None
            } else {
                Some(effort)
            })
            &&& (other_provider != provider || other_model != model) ==> preferred(
                after,
                other_provider,
                other_model,
            ) == preferred(efforts, other_provider, other_model)
        }),
{
    models_are_distinct(efforts, provider);
    let models = match named(efforts, provider) {
        Some(models) => models,
        None => seq![],
    };
    let rest = without_named(models, model);
    law_dropping_a_name(models, model, other_model);
    law_setting_a_name(models, model, effort, other_model);
    law_dropping_a_name(efforts, provider, other_provider);
    law_setting_a_name(efforts, provider, rest, other_provider);
    law_setting_a_name(efforts, provider, with_named(models, model, effort), other_provider);
    if rest.len() == 0 {
        assert(named(rest, other_model) is None);
        assert(named(rest, model) is None);
    }
}

fn copy_pairs(pairs: &Vec<(String, String)>) -> (out: Vec<(String, String)>)
    ensures
        out.deep_view() == pairs.deep_view(),
{
    let ghost all = pairs.deep_view();
    let mut out: Vec<(String, String)> = empty();
    let mut i: usize = 0;
    while i < pairs.len()
        invariant
            i <= pairs@.len(),
            all == pairs.deep_view(),
            out.deep_view() == all.take(i as int),
        decreases pairs@.len() - i,
    {
        proof {
            take_next(all, i as int);
        }
        put(&mut out, (pairs[i].0.clone(), pairs[i].1.clone()));
        i = i + 1;
    }
    proof {
        take_all(all);
    }
    out
}

fn copy_efforts(efforts: &Vec<(String, Vec<(String, String)>)>) -> (out: Vec<
    (String, Vec<(String, String)>),
>)
    ensures
        out.deep_view() == efforts.deep_view(),
{
    let ghost all = efforts.deep_view();
    let mut out: Vec<(String, Vec<(String, String)>)> = empty();
    let mut i: usize = 0;
    while i < efforts.len()
        invariant
            i <= efforts@.len(),
            all == efforts.deep_view(),
            out.deep_view() == all.take(i as int),
        decreases efforts@.len() - i,
    {
        proof {
            take_next(all, i as int);
        }
        put(&mut out, (efforts[i].0.clone(), copy_pairs(&efforts[i].1)));
        i = i + 1;
    }
    proof {
        take_all(all);
    }
    out
}

/// Efforts with their models sorted, and then sorted themselves, prefer what they preferred.
proof fn sorted_efforts_say_the_same(
    all: Seq<(Seq<char>, Seq<(Seq<char>, Seq<char>)>)>,
    list: Vec<(String, Vec<(String, String)>)>,
    out: Vec<(String, Vec<(String, String)>)>,
)
    requires
        all_distinct(all),
        list@.len() == all.len(),
        forall|k: int| 0 <= k < all.len() ==> #[trigger] list.deep_view()[k].0 == all[k].0,
        forall|k: int| 0 <= k < all.len() ==> rising((#[trigger] list.deep_view()[k]).1),
        forall|k: int, model: Seq<char>|
            0 <= k < all.len() ==> #[trigger] named(list.deep_view()[k].1, model) == named(
                all[k].1,
                model,
            ),
        out@ == sorted_named(list@),
    ensures
        out@.len() == all.len(),
        rising(out.deep_view()),
        forall|i: int| 0 <= i < out@.len() ==> rising((#[trigger] out.deep_view()[i]).1),
        forall|provider: Seq<char>|
            named(out.deep_view(), provider) is Some <==> #[trigger] named(all, provider) is Some,
        forall|provider: Seq<char>, model: Seq<char>| #[trigger]
            preferred(out.deep_view(), provider, model) == preferred(all, provider, model),
{
    let mid = list.deep_view();
    assert(distinct(mid)) by {
        assert forall|i: int, j: int| 0 <= i < j < mid.len() implies (#[trigger] mid[i]).0 != (
        #[trigger] mid[j]).0 by {
            assert(all[i].0 != all[j].0);
        }
    }
    law_sorting_keeps_what_is_named(list, out, seq![]);
    assert forall|i: int| 0 <= i < out@.len() implies rising((#[trigger] out.deep_view()[i]).1) by {
        let name = out.deep_view()[i].0;
        law_sorting_keeps_what_is_named(list, out, name);
        named_by_entry(out.deep_view(), name);
        named_by_entry(mid, name);
        let k = choose|k: int| 0 <= k < mid.len() && (#[trigger] mid[k]).0 == name;
        assert(rising(mid[k].1));
    }
    assert forall|provider: Seq<char>|
        (named(out.deep_view(), provider) is Some <==> #[trigger] named(all, provider) is Some) && (
        forall|model: Seq<char>| #[trigger]
            preferred(out.deep_view(), provider, model) == preferred(all, provider, model)) by {
        law_sorting_keeps_what_is_named(list, out, provider);
        named_by_entry(mid, provider);
        named_by_entry(all, provider);
        if named(all, provider) is Some {
            let k = choose|k: int| 0 <= k < all.len() && (#[trigger] all[k]).0 == provider;
            assert(mid[k].0 == provider);
        } else if named(mid, provider) is Some {
            let k = choose|k: int| 0 <= k < mid.len() && (#[trigger] mid[k]).0 == provider;
            assert(all[k].0 == provider);
        }
    }
    assert forall|provider: Seq<char>, model: Seq<char>| #[trigger]
        preferred(out.deep_view(), provider, model) == preferred(all, provider, model) by {
        assert(named(all, provider) is Some || named(all, provider) is None);
    }
}

// ---- The file ----

/// The models of a table; nothing where one of its values is no text.
pub open spec fn models_in(entries: Seq<(String, Json)>) -> Option<Seq<(Seq<char>, Seq<char>)>>
    decreases entries.len(),
{
    if entries.len() == 0 {
        Some(seq![])
    } else {
        match models_in(entries.drop_last()) {
            None => None,
            Some(models) => match entries.last().1 {
                Json::Str(effort) => Some(with_named(models, entries.last().0@, effort@)),
                _ => None,
            },
        }
    }
}

/// The providers of a table; nothing where one of its values is no table of texts.
pub open spec fn providers_in(entries: Seq<(String, Json)>) -> Option<
    Seq<(Seq<char>, Seq<(Seq<char>, Seq<char>)>)>,
>
    decreases entries.len(),
{
    if entries.len() == 0 {
        Some(seq![])
    } else {
        match providers_in(entries.drop_last()) {
            None => None,
            Some(providers) => match entries.last().1 {
                Json::Object(models) => match models_in(models@) {
                    Some(models) => Some(with_named(providers, entries.last().0@, models)),
                    None => None,
                },
                _ => None,
            },
        }
    }
}

/// What a table of providers says; nothing where it has another shape.
pub open spec fn table_in(value: Json) -> Option<Seq<(Seq<char>, Seq<(Seq<char>, Seq<char>)>)>> {
    match value {
        Json::Object(entries) => providers_in(entries@),
        _ => None,
    }
}

/// What a file says; nothing where it has another shape. The table of providers stands under its
/// name, or alone in a list. A file without it says nothing wrong.
pub open spec fn efforts_in(json: Json) -> Option<Seq<(Seq<char>, Seq<(Seq<char>, Seq<char>)>)>> {
    match json {
        Json::Object(_) => match json.child("reasoning_efforts"@) {
            None => Some(seq![]),
            Some(value) => table_in(value),
        },
        Json::Array(items) => if items@.len() == 0 {
            Some(seq![])
        } else if items@.len() == 1 {
            table_in(items@[0])
        } else {
            None
        },
        _ => None,
    }
}

proof fn models_in_fails(entries: Seq<(String, Json)>, n: int)
    requires
        0 <= n <= entries.len(),
        models_in(entries.take(n)) is None,
    ensures
        models_in(entries) is None,
    decreases entries.len() - n,
{
    if n < entries.len() {
        take_next(entries, n);
        models_in_fails(entries, n + 1);
    } else {
        take_all(entries);
    }
}

proof fn providers_in_fails(entries: Seq<(String, Json)>, n: int)
    requires
        0 <= n <= entries.len(),
        providers_in(entries.take(n)) is None,
    ensures
        providers_in(entries) is None,
    decreases entries.len() - n,
{
    if n < entries.len() {
        take_next(entries, n);
        providers_in_fails(entries, n + 1);
    } else {
        take_all(entries);
    }
}

fn read_models(entries: &Vec<(String, Json)>) -> (r: Option<Vec<(String, String)>>)
    ensures
        r.deep_view() == models_in(entries@),
        r is Some ==> distinct(r->0.deep_view()),
{
    let mut out: Vec<(String, String)> = empty();
    let mut i: usize = 0;
    while i < entries.len()
        invariant
            i <= entries@.len(),
            distinct(out.deep_view()),
            models_in(entries@.take(i as int)) == Some(out.deep_view()),
        decreases entries@.len() - i,
    {
        proof {
            take_next(entries@, i as int);
        }
        match &entries[i].1 {
            Json::Str(effort) => {
                proof {
                    law_setting_a_name(
                        out.deep_view(),
                        entries@[i as int].0@,
                        effort@,
                        effort@,
                    );
                }
                set_named(&mut out, entries[i].0.clone(), effort.clone());
            },
            _ => {
                proof {
                    models_in_fails(entries@, i + 1);
                }
                return None;
            },
        }
        i = i + 1;
    }
    proof {
        take_all(entries@);
    }
    Some(out)
}

fn read_providers(entries: &Vec<(String, Json)>) -> (r: Option<Vec<(String, Vec<(String, String)>)>>)
    ensures
        r.deep_view() == providers_in(entries@),
        r is Some ==> all_distinct(r->0.deep_view()),
{
    let mut out: Vec<(String, Vec<(String, String)>)> = empty();
    let mut i: usize = 0;
    while i < entries.len()
        invariant
            i <= entries@.len(),
            all_distinct(out.deep_view()),
            providers_in(entries@.take(i as int)) == Some(out.deep_view()),
        decreases entries@.len() - i,
    {
        proof {
            take_next(entries@, i as int);
        }
        let models = match &entries[i].1 {
            Json::Object(models) => read_models(models),
            _ => None,
        };
        match models {
            Some(models) => {
                proof {
                    stays_distinct(out.deep_view(), entries@[i as int].0@, models.deep_view());
                }
                set_named(&mut out, entries[i].0.clone(), models);
            },
            None => {
                proof {
                    providers_in_fails(entries@, i + 1);
                }
                return None;
            },
        }
        i = i + 1;
    }
    proof {
        take_all(entries@);
    }
    Some(out)
}

fn read_table(value: &Json) -> (r: Option<Vec<(String, Vec<(String, String)>)>>)
    ensures
        r.deep_view() == table_in(*value),
        r is Some ==> all_distinct(r->0.deep_view()),
{
    match value {
        Json::Object(entries) => read_providers(entries),
        _ => None,
    }
}

/// The models of a provider as JSON.
pub open spec fn models_json(models: Seq<(Seq<char>, Seq<char>)>) -> JsonView {
    obj(Seq::new(models.len(), |i: int| (models[i].0, JsonView::Str(models[i].1))))
}

/// The preferences as JSON.
pub open spec fn efforts_json(efforts: Seq<(Seq<char>, Seq<(Seq<char>, Seq<char>)>)>) -> JsonView {
    obj(
        nil().push(
            (
                "reasoning_efforts"@,
                obj(Seq::new(efforts.len(), |i: int| (efforts[i].0, models_json(efforts[i].1)))),
            ),
        ),
    )
}

fn encode_models(models: &Vec<(String, String)>) -> (j: Json)
    ensures
        j@ == models_json(models.deep_view()),
        j.within(125),
{
    let ghost goal = Seq::new(
        models.deep_view().len(),
        |i: int| (models.deep_view()[i].0, JsonView::Str(models.deep_view()[i].1)),
    );
    let mut out = Fields::new();
    let mut i: usize = 0;
    while i < models.len()
        invariant
            i <= models@.len(),
            goal == Seq::new(
                models.deep_view().len(),
                |i: int| (models.deep_view()[i].0, JsonView::Str(models.deep_view()[i].1)),
            ),
            out.listed() == goal.take(i as int),
            out.within(124),
        decreases models@.len() - i,
    {
        proof {
            take_next(goal, i as int);
        }
        out.set(models[i].0.as_str(), Json::Str(models[i].1.clone()));
        assert(out.listed() =~= goal.take(i + 1));
        i = i + 1;
    }
    proof {
        take_all(goal);
    }
    out.done()
}

fn encode_efforts(efforts: &Vec<(String, Vec<(String, String)>)>) -> (j: Json)
    ensures
        j@ == efforts_json(efforts.deep_view()),
        j.within(127),
{
    let ghost goal = Seq::new(
        efforts.deep_view().len(),
        |i: int| (efforts.deep_view()[i].0, models_json(efforts.deep_view()[i].1)),
    );
    let mut out = Fields::new();
    let mut i: usize = 0;
    while i < efforts.len()
        invariant
            i <= efforts@.len(),
            goal == Seq::new(
                efforts.deep_view().len(),
                |i: int| (efforts.deep_view()[i].0, models_json(efforts.deep_view()[i].1)),
            ),
            out.listed() == goal.take(i as int),
            out.within(125),
        decreases efforts@.len() - i,
    {
        proof {
            take_next(goal, i as int);
        }
        out.set(efforts[i].0.as_str(), encode_models(&efforts[i].1));
        assert(out.listed() =~= goal.take(i + 1));
        i = i + 1;
    }
    proof {
        take_all(goal);
    }
    let f = Fields::new().with("reasoning_efforts", out.done());
    assert(f.within(126));
    f.done()
}

// ---- Reading back ----

/// The value of an object's entry is what the object says under its key.
proof fn entry_is_said(entries: Vec<(String, Json)>, i: int)
    requires
        Json::Object(entries).tidy(),
        0 <= i < entries@.len(),
    ensures
        lookup(Json::Object(entries)@, entries@[i].0@) == Some(entries@[i].1@),
{
    let views = Json::entry_views(entries);
    fields_say(views, i);
}

proof fn fields_say(views: Seq<(Seq<char>, JsonView)>, i: int)
    requires
        0 <= i < views.len(),
        distinct(views),
    ensures
        fields(views).dom().contains(views[i].0),
        fields(views)[views[i].0] == views[i].1,
    decreases views.len(),
{
    if i < views.len() - 1 {
        assert(distinct(views.drop_last()));
        fields_say(views.drop_last(), i);
        assert(views[i].0 != views[views.len() - 1].0);
    }
}

/// What an object of named values says under a name.
proof fn named_is_said<V>(list: Seq<(Seq<char>, V)>, views: Seq<(Seq<char>, JsonView)>, name: Seq<char>)
    requires
        distinct(list),
        views.len() == list.len(),
        forall|i: int| 0 <= i < list.len() ==> (#[trigger] views[i]).0 == list[i].0,
    ensures
        named(list, name) is None <==> !fields(views).dom().contains(name),
        forall|i: int|
            0 <= i < list.len() && (#[trigger] list[i]).0 == name ==> fields(views).dom().contains(name)
                && fields(views)[name] == views[i].1,
{
    named_by_entry(list, name);
    fields_hold(views, name);
    assert(distinct(views)) by {
        assert forall|i: int, j: int| 0 <= i < j < views.len() implies (#[trigger] views[i]).0 != (
        #[trigger] views[j]).0 by {
            assert(list[i].0 != list[j].0);
        }
    }
    assert forall|i: int| 0 <= i < list.len() && (#[trigger] list[i]).0 == name implies fields(
        views,
    ).dom().contains(name) && fields(views)[name] == views[i].1 by {
        assert(views[i].0 == name);
        fields_say(views, i);
    }
    if named(list, name) is Some {
        let k = choose|k: int| 0 <= k < list.len() && (#[trigger] list[k]).0 == name;
        assert(fields(views).dom().contains(name));
    } else if fields(views).dom().contains(name) {
        let k = choose|k: int| 0 <= k < views.len() && (#[trigger] views[k]).0 == name;
        assert(list[k].0 == name);
    }
}

/// Whether one of the first `n` entries stands under a name.
spec fn has_key(entries: Seq<(String, Json)>, n: int, name: Seq<char>) -> bool {
    exists|i: int| 0 <= i < n && (#[trigger] entries[i]).0@ == name
}

/// The first `n` models of a table that says what `models` do.
proof fn models_so_far(
    entries: Vec<(String, Json)>,
    models: Seq<(Seq<char>, Seq<char>)>,
    n: int,
    name: Seq<char>,
)
    requires
        Json::Object(entries).tidy(),
        distinct(models),
        Json::Object(entries)@ == models_json(models),
        0 <= n <= entries@.len(),
    ensures
        models_in(entries@.take(n)) is Some,
        distinct(models_in(entries@.take(n))->0),
        named(models_in(entries@.take(n))->0, name) == (if has_key(entries@, n, name) {
            named(models, name)
        } else {
            None
        }),
    decreases n,
{
    if n > 0 {
        let i = n - 1;
        take_next(entries@, i);
        models_so_far(entries, models, i, name);
        let before = models_in(entries@.take(i))->0;
        let key = entries@[i].0@;
        let views = Seq::new(models.len(), |i: int| (models[i].0, JsonView::Str(models[i].1)));
        entry_is_said(entries, i);
        named_is_said(models, views, key);
        named_by_entry(models, key);
        let k = choose|k: int| 0 <= k < models.len() && (#[trigger] models[k]).0 == key;
        assert(entries@[i].1@ == JsonView::Str(models[k].1));
        let effort = entries@[i].1->Str_0@;
        law_setting_a_name(before, key, effort, name);
        if name == key {
            assert(has_key(entries@, n, name));
        } else if has_key(entries@, n, name) {
            let j = choose|j: int| 0 <= j < n && (#[trigger] entries@[j]).0@ == name;
            assert(j < i);
            assert(has_key(entries@, i, name));
        } else {
            assert(!has_key(entries@, i, name)) by {
                if has_key(entries@, i, name) {
                    let j = choose|j: int| 0 <= j < i && (#[trigger] entries@[j]).0@ == name;
                    assert(entries@[j].0@ == name);
                }
            }
        }
    } else {
        assert(entries@.take(0) =~= seq![]);
    }
}

/// A table of models reads back as what it was written from.
proof fn models_read_back(
    entries: Vec<(String, Json)>,
    models: Seq<(Seq<char>, Seq<char>)>,
    name: Seq<char>,
)
    requires
        Json::Object(entries).tidy(),
        distinct(models),
        Json::Object(entries)@ == models_json(models),
    ensures
        models_in(entries@) is Some,
        named(models_in(entries@)->0, name) == named(models, name),
{
    models_so_far(entries, models, entries@.len() as int, name);
    take_all(entries@);
    let views = Seq::new(models.len(), |i: int| (models[i].0, JsonView::Str(models[i].1)));
    named_is_said(models, views, name);
    let own = Json::entry_views(entries);
    fields_hold(own, name);
    if named(models, name) is Some {
        let k = choose|k: int| 0 <= k < own.len() && (#[trigger] own[k]).0 == name;
        assert(entries@[k].0@ == name);
    }
}

/// What `preferred` says of the first `n` providers of a table that says what `efforts` do.
proof fn providers_so_far(
    entries: Vec<(String, Json)>,
    efforts: Seq<(Seq<char>, Seq<(Seq<char>, Seq<char>)>)>,
    n: int,
    provider: Seq<char>,
    model: Seq<char>,
)
    requires
        Json::Object(entries).tidy(),
        all_distinct(efforts),
        Json::Object(entries)@ == obj(
            Seq::new(efforts.len(), |i: int| (efforts[i].0, models_json(efforts[i].1))),
        ),
        0 <= n <= entries@.len(),
    ensures
        providers_in(entries@.take(n)) is Some,
        distinct(providers_in(entries@.take(n))->0),
        preferred(providers_in(entries@.take(n))->0, provider, model) == (if has_key(
            entries@,
            n,
            provider,
        ) {
            preferred(efforts, provider, model)
        } else {
            None
        }),
    decreases n,
{
    if n > 0 {
        let i = n - 1;
        take_next(entries@, i);
        providers_so_far(entries, efforts, i, provider, model);
        let before = providers_in(entries@.take(i))->0;
        let key = entries@[i].0@;
        let views = Seq::new(efforts.len(), |i: int| (efforts[i].0, models_json(efforts[i].1)));
        entry_is_said(entries, i);
        named_is_said(efforts, views, key);
        named_by_entry(efforts, key);
        let k = choose|k: int| 0 <= k < efforts.len() && (#[trigger] efforts[k]).0 == key;
        assert(entries@[i].1@ == models_json(efforts[k].1));
        assert(distinct(efforts[k].1));
        assert(entries@[i].1.tidy());
        let inner = entries@[i].1->Object_0;
        assert(entries@[i].1 == Json::Object(inner));
        models_read_back(inner, efforts[k].1, model);
        law_setting_a_name(before, key, models_in(inner@)->0, provider);
        if provider == key {
            assert(has_key(entries@, n, provider));
        } else if has_key(entries@, n, provider) {
            let j = choose|j: int| 0 <= j < n && (#[trigger] entries@[j]).0@ == provider;
            assert(j < i);
            assert(has_key(entries@, i, provider));
        } else {
            assert(!has_key(entries@, i, provider)) by {
                if has_key(entries@, i, provider) {
                    let j = choose|j: int| 0 <= j < i && (#[trigger] entries@[j]).0@ == provider;
                    assert(entries@[j].0@ == provider);
                }
            }
        }
    } else {
        assert(entries@.take(0) =~= seq![]);
    }
}

/// Preferences that were stored and read again prefer what they preferred before.
pub proof fn law_stored_preferences_read_back(
    efforts: Seq<(Seq<char>, Seq<(Seq<char>, Seq<char>)>)>,
    json: Json,
    provider: Seq<char>,
    model: Seq<char>,
)
    requires
        all_distinct(efforts),
        json.tidy(),
        json@ == efforts_json(efforts),
    ensures
        efforts_in(json) is Some,
        preferred(efforts_in(json)->0, provider, model) == preferred(efforts, provider, model),
{
    let key = "reasoning_efforts"@;
    let views = Seq::new(efforts.len(), |i: int| (efforts[i].0, models_json(efforts[i].1)));
    let outer = nil().push((key, obj(views)));
    assert(distinct(outer));
    fields_say(outer, 0);
    child_is_lookup(json, key);
    let outer_entries = json->Object_0;
    assert(json == Json::Object(outer_entries));
    child_is_tidy(outer_entries@, key);
    let child = json.child(key)->0;
    assert(child@ == obj(views));
    let entries = child->Object_0;
    assert(child == Json::Object(entries));
    providers_so_far(entries, efforts, entries@.len() as int, provider, model);
    take_all(entries@);
    named_is_said(efforts, views, provider);
    let own = Json::entry_views(entries);
    fields_hold(own, provider);
    if named(efforts, provider) is Some {
        let k = choose|k: int| 0 <= k < own.len() && (#[trigger] own[k]).0 == provider;
        assert(entries@[k].0@ == provider);
    }
}

proof fn child_is_tidy(entries: Seq<(String, Json)>, key: Seq<char>)
    requires
        forall|i: int| 0 <= i < entries.len() ==> (#[trigger] entries[i]).1.tidy(),
    ensures
        last_entry(entries, key) is Some ==> last_entry(entries, key)->0.tidy(),
    decreases entries.len(),
{
    if entries.len() > 0 {
        if entries.last().0@ == key {
            assert(entries[entries.len() - 1].1.tidy());
        } else {
            assert forall|i: int| 0 <= i < entries.drop_last().len() implies (
            #[trigger] entries.drop_last()[i]).1.tidy() by {
                assert(entries[i].1.tidy());
            }
            child_is_tidy(entries.drop_last(), key);
        }
    }
}

impl WorkspacePreferences {
    /// No preferences.
    pub fn none(path: String) -> (p: WorkspacePreferences)
        ensures
            p.view() == Seq::<(Seq<char>, Seq<(Seq<char>, Seq<char>)>)>::empty(),
            p.file() == path@,
    {
        WorkspacePreferences { path, efforts: empty() }
    }

    /// The preferences that a file holds.
    pub fn from_json(path: String, json: &Json) -> (r: Option<WorkspacePreferences>)
        ensures
            match efforts_in(*json) {
                Some(efforts) => r is Some && r->0.view() == efforts && r->0.file() == path@,
                None => r is None,
            },
    {
        let efforts = match json {
            Json::Object(_) => match json.get("reasoning_efforts") {
                None => Some(empty()),
                Some(value) => read_table(value),
            },
            Json::Array(items) => if items.len() == 0 {
                Some(empty())
            } else if items.len() == 1 {
                read_table(&items[0])
            } else {
                None
            },
            _ => None,
        };
        match efforts {
            Some(efforts) => Some(WorkspacePreferences { path, efforts }),
            None => None,
        }
    }

    /// Reads the text of a preferences' file.
    pub fn parse(path: String, text: &str) -> (r: Result<WorkspacePreferences, String>)
        ensures
            match parsed_json(text@) {
                Err(e) => r is Err && r->Err_0@ == e,
                Ok(view) => exists|json: Json| #[trigger]
                    json.tidy() && json@ == view && match efforts_in(json) {
                        Some(efforts) => r is Ok && r->Ok_0.view() == efforts && r->Ok_0.file()
                            == path@,
                        None => r is Err && r->Err_0@ == "reasoning_efforts 的格式无效"@,
                    },
            },
    {
        match Json::parse(text) {
            Err(e) => Err(e),
            Ok(json) => {
                assert(json.tidy());
                match WorkspacePreferences::from_json(path, &json) {
                    Some(preferences) => Ok(preferences),
                    None => Err("reasoning_efforts 的格式无效".to_owned()),
                }
            },
        }
    }

    pub fn path(&self) -> (s: &str)
        ensures
            s@ == self.file(),
    {
        self.path.as_str()
    }

    pub fn effort(&self, provider: &str, model: &str) -> (r: Option<&str>)
        ensures
            r.deep_view() == preferred(self.view(), provider@, model@),
    {
        match find_named(&self.efforts, provider) {
            Some(models) => match find_named(models, model) {
                Some(effort) => Some(effort.as_str()),
                None => None,
            },
            None => None,
        }
    }

    /// The preferred efforts, the providers and the models of each in the order of their names.
    pub fn reasoning_efforts(&self) -> (out: Vec<(String, Vec<(String, String)>)>)
        ensures
            out@.len() == self.view().len(),
            rising(out.deep_view()),
            forall|i: int| 0 <= i < out@.len() ==> rising((#[trigger] out.deep_view()[i]).1),
            forall|provider: Seq<char>|
                named(out.deep_view(), provider) is Some <==> #[trigger] named(
                    self.view(),
                    provider,
                ) is Some,
            forall|provider: Seq<char>, model: Seq<char>| #[trigger]
                preferred(out.deep_view(), provider, model) == preferred(
                    self.view(),
                    provider,
                    model,
                ),
    {
        proof {
            use_type_invariant(self);
        }
        let ghost all = self.efforts.deep_view();
        let mut list: Vec<(String, Vec<(String, String)>)> = empty();
        let mut i: usize = 0;
        while i < self.efforts.len()
            invariant
                i <= self.efforts@.len(),
                all == self.efforts.deep_view(),
                all_distinct(all),
                list@.len() == i,
                forall|k: int| 0 <= k < i ==> #[trigger] list.deep_view()[k].0 == all[k].0,
                forall|k: int| 0 <= k < i ==> rising((#[trigger] list.deep_view()[k]).1),
                forall|k: int, model: Seq<char>|
                    0 <= k < i ==> #[trigger] named(list.deep_view()[k].1, model) == named(
                        all[k].1,
                        model,
                    ),
            decreases self.efforts@.len() - i,
        {
            let models = copy_pairs(&self.efforts[i].1);
            let ghost given = models;
            let sorted = sort_named(models);
            let ghost before = list.deep_view();
            proof {
                assert(all[i as int].1 == given.deep_view());
                assert(distinct(all[i as int].1));
                law_sorting_keeps_what_is_named(given, sorted, seq![]);
                assert forall|model: Seq<char>| #[trigger] named(sorted.deep_view(), model)
                    == named(all[i as int].1, model) by {
                    law_sorting_keeps_what_is_named(given, sorted, model);
                }
            }
            put(&mut list, (self.efforts[i].0.clone(), sorted));
            assert(list.deep_view() =~= before.push((all[i as int].0, sorted.deep_view())));
            i = i + 1;
        }
        let ghost given = list;
        let out = sort_named(list);
        proof {
            sorted_efforts_say_the_same(all, given, out);
        }
        out
    }

    /// The preferences after a choice. They are the workspace's only when they are stored.
    pub fn set_effort(&self, provider: &str, model: &str, effort: &str, default_effort: &str) -> (next:
        WorkspacePreferences)
        ensures
            next.view() == with_effort(
                self.view(),
                provider@,
                model@,
                effort@,
                default_effort@,
            ),
            next.file() == self.file(),
    {
        proof {
            use_type_invariant(self);
            effort_keeps_distinct(self.view(), provider@, model@, effort@, default_effort@);
        }
        let mut efforts = copy_efforts(&self.efforts);
        let held = match find_named(&self.efforts, provider) {
            Some(models) => Some(copy_pairs(models)),
            None => None,
        };
        if same(effort, default_effort) {
            if let Some(models) = held {
                let mut models = models;
                drop_named(&mut models, model);
                assert(models.deep_view().len() == models@.len());
                if models.len() == 0 {
                    drop_named(&mut efforts, provider);
                } else {
                    set_named(&mut efforts, provider.to_owned(), models);
                }
            }
        } else {
            let mut models = match held {
                Some(models) => models,
                None => empty(),
            };
            set_named(&mut models, model.to_owned(), effort.to_owned());
            set_named(&mut efforts, provider.to_owned(), models);
        }
        WorkspacePreferences { path: self.path.clone(), efforts }
    }

    /// The text of the preferences' file; none where there is nothing to keep, so that no file
    /// should be left.
    pub fn content(&self) -> (r: Option<String>)
        ensures
            r is None <==> self.view().len() == 0,
            r is Some ==> r->0@ == pretty_json(efforts_json(self.view())),
            r is Some ==> parsed_json(r->0@) == Ok::<JsonView, Seq<char>>(
                efforts_json(self.view()),
            ),
            all_distinct(self.view()),
    {
        proof {
            use_type_invariant(self);
        }
        assert(self.efforts.deep_view().len() == self.efforts@.len());
        if self.efforts.len() == 0 {
            None
        } else {
            Some(print_pretty(&encode_efforts(&self.efforts)))
        }
    }
}

} // verus!
