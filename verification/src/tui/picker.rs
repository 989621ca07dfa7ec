//! A list to choose from, narrowed down by what is typed.
use vstd::prelude::*;

use crate::list::{empty, put, take_all, take_next};
use crate::text::{contains_text, holds_part, lower, lowercase};

verus! {

#[derive(Debug)]
pub struct PickerItem {
    pub label: String,
    pub description: String,
    /// What the choice stands for; nothing where it leads to an input of its own.
    pub value: Option<String>,
    pub current: bool,
}

#[verifier::ext_equal]
pub struct ItemInfo {
    pub label: Seq<char>,
    pub description: Seq<char>,
    pub value: Option<Seq<char>>,
    pub current: bool,
}

impl DeepView for PickerItem {
    type V = ItemInfo;

    open spec fn deep_view(&self) -> ItemInfo {
        ItemInfo {
            label: self.label@,
            description: self.description@,
            value: self.value.deep_view(),
            current: self.current,
        }
    }
}

impl Clone for PickerItem {
    fn clone(&self) -> (r: PickerItem)
        ensures
            r.deep_view() == self.deep_view(),
    {
        PickerItem {
            label: self.label.clone(),
            description: self.description.clone(),
            value: crate::message::copy_opt_text(&self.value),
            current: self.current,
        }
    }
}

#[derive(Debug)]
pub struct Picker {
    pub title: String,
    pub items: Vec<PickerItem>,
    pub filter: String,
    pub selected: usize,
}

#[verifier::ext_equal]
pub struct PickerState {
    pub title: Seq<char>,
    pub items: Seq<ItemInfo>,
    pub filter: Seq<char>,
    pub selected: usize,
}

impl DeepView for Picker {
    type V = PickerState;

    open spec fn deep_view(&self) -> PickerState {
        PickerState {
            title: self.title@,
            items: self.items.deep_view(),
            filter: self.filter@,
            selected: self.selected,
        }
    }
}

/// Whether an item passes the filter; case makes no difference.
pub open spec fn passes(item: ItemInfo, filter: Seq<char>) -> bool {
    holds_part(lower(item.label), lower(filter)) || holds_part(
        lower(item.description),
        lower(filter),
    )
}

/// The items that are offered.
pub open spec fn offered(items: Seq<ItemInfo>, filter: Seq<char>) -> Seq<ItemInfo>
    decreases items.len(),
{
    if items.len() == 0 {
        seq![]
    } else if filter.len() == 0 || passes(items.last(), filter) {
        offered(items.drop_last(), filter).push(items.last())
    } else {
        offered(items.drop_last(), filter)
    }
}

/// The first current item.
pub open spec fn current_place(items: Seq<ItemInfo>) -> Option<int>
    decreases items.len(),
{
    if items.len() == 0 {
        None
    } else {
        match current_place(items.drop_last()) {
            Some(i) => Some(i),
            None => if items.last().current {
                Some(items.len() - 1)
            } else {
                None
            },
        }
    }
}

/// A list with the current item chosen.
pub open spec fn opened(title: Seq<char>, items: Seq<ItemInfo>) -> PickerState {
    PickerState {
        title,
        items,
        filter: seq![],
        selected: match current_place(items) {
            Some(i) => i as usize,
            None => 0,
        },
    }
}

/// The next choice; after the last comes the first.
pub open spec fn moved(p: PickerState, down: bool) -> PickerState {
    let n = offered(p.items, p.filter).len();
    if n == 0 {
        p
    } else {
        PickerState { selected: stepped(p.selected, n, down), ..p }
    }
}

/// One step in a circle of `n`.
pub open spec fn stepped(selected: usize, n: nat, down: bool) -> usize {
    if down {
        if selected + 1 < n {
            (selected + 1) as usize
        } else {
            0
        }
    } else if selected == 0 || selected > n {
        (n - 1) as usize
    } else {
        (selected - 1) as usize
    }
}

pub fn step_in_circle(selected: usize, n: usize, down: bool) -> (r: usize)
    requires
        n > 0,
    ensures
        r == stepped(selected, n as nat, down),
        r < n,
{
    if down {
        if selected < n - 1 {
            selected + 1
        } else {
            0
        }
    } else if selected == 0 || selected > n {
        n - 1
    } else {
        selected - 1
    }
}

pub open spec fn narrowed(p: PickerState, c: char) -> PickerState {
    PickerState { filter: p.filter.push(c), selected: 0, ..p }
}

pub open spec fn widened(p: PickerState) -> PickerState {
    PickerState {
        filter: if p.filter.len() > 0 {
            p.filter.drop_last()
        } else {
            p.filter
        },
        selected: 0,
        ..p
    }
}

/// The item that is chosen, if any is offered.
pub open spec fn chosen(p: PickerState) -> Option<ItemInfo> {
    let list = offered(p.items, p.filter);
    if p.selected < list.len() {
        Some(list[p.selected as int])
    } else {
        None
    }
}

proof fn current_place_stays(items: Seq<ItemInfo>, n: int)
    requires
        0 <= n <= items.len(),
        current_place(items.take(n)) is Some,
    ensures
        current_place(items) == current_place(items.take(n)),
    decreases items.len() - n,
{
    if n < items.len() {
        take_next(items, n);
        current_place_stays(items, n + 1);
    } else {
        take_all(items);
    }
}

impl Picker {
    pub fn new(title: String, items: Vec<PickerItem>) -> (p: Picker)
        ensures
            p.deep_view() == opened(title@, items.deep_view()),
    {
        let ghost all = items.deep_view();
        let mut i: usize = 0;
        let mut selected: usize = 0;
        let mut found = false;
        while i < items.len() && !found
            invariant
                i <= items@.len(),
                all == items.deep_view(),
                !found ==> current_place(all.take(i as int)) is None && selected == 0,
                found ==> current_place(all) == Some(selected as int),
            decreases items@.len() - i,
        {
            proof {
                take_next(all, i as int);
            }
            assert(all[i as int] == items@[i as int].deep_view());
            if items[i].current {
                selected = i;
                found = true;
                proof {
                    current_place_stays(all, i + 1);
                }
            }
            i = i + 1;
        }
        proof {
            take_all(all);
        }
        let filter = String::new();
        assert(filter@ =~= seq![]);
        Picker { title, items, filter, selected }
    }

    /// The items that are offered.
    pub fn visible(&self) -> (out: Vec<PickerItem>)
        ensures
            out.deep_view() == offered(self.deep_view().items, self.filter@),
    {
        let ghost all = self.items.deep_view();
        let filter = lowercase(self.filter.as_str());
        let any = self.filter.as_str().unicode_len() == 0;
        let mut out: Vec<PickerItem> = empty();
        let mut i: usize = 0;
        while i < self.items.len()
            invariant
                i <= self.items@.len(),
                all == self.items.deep_view(),
                filter@ == lower(self.filter@),
                any == (self.filter@.len() == 0),
                out.deep_view() == offered(all.take(i as int), self.filter@),
            decreases self.items@.len() - i,
        {
            proof {
                take_next(all, i as int);
            }
            let item = &self.items[i];
            assert(all[i as int] == item.deep_view());
            if any || contains_text(lowercase(item.label.as_str()).as_str(), filter.as_str())
                || contains_text(lowercase(item.description.as_str()).as_str(), filter.as_str()) {
                put(&mut out, item.clone());
            }
            i = i + 1;
        }
        proof {
            take_all(all);
        }
        out
    }

    fn step(&mut self, down: bool)
        ensures
            final(self).deep_view() == moved(old(self).deep_view(), down),
    {
        let list = self.visible();
        let n: usize = list.len();
        assert(list.deep_view().len() == n);
        if n > 0 {
            self.selected = step_in_circle(self.selected, n, down);
        }
    }

    pub fn move_up(&mut self)
        ensures
            final(self).deep_view() == moved(old(self).deep_view(), false),
    {
        self.step(false);
    }

    pub fn move_down(&mut self)
        ensures
            final(self).deep_view() == moved(old(self).deep_view(), true),
    {
        self.step(true);
    }

    pub fn push_filter(&mut self, c: char)
        ensures
            final(self).deep_view() == narrowed(old(self).deep_view(), c),
    {
        self.filter.push(c);
        self.selected = 0;
    }

    pub fn pop_filter(&mut self)
        ensures
            final(self).deep_view() == widened(old(self).deep_view()),
    {
        let n: usize = self.filter.as_str().unicode_len();
        if n > 0 {
            let rest = self.filter.as_str().substring_char(0, n - 1).to_owned();
            assert(rest@ =~= self.filter@.drop_last());
            self.filter = rest;
        }
        self.selected = 0;
    }

    /// The item that is chosen.
    pub fn selected(&self) -> (r: Option<PickerItem>)
        ensures
            r.deep_view() == chosen(self.deep_view()),
    {
        let list = self.visible();
        assert(list.deep_view().len() == list@.len());
        if self.selected < list.len() {
            assert(list.deep_view()[self.selected as int] == list@[self.selected as int].deep_view());
            Some(list[self.selected].clone())
        } else {
            None
        }
    }
}

// ---- Laws ----

/// An open list without a filter offers everything.
pub proof fn law_everything_is_offered_at_first(items: Seq<ItemInfo>)
    ensures
        offered(items, seq![]) == items,
    decreases items.len(),
{
    if items.len() > 0 {
        law_everything_is_offered_at_first(items.drop_last());
        assert(offered(items, seq![]) =~= items);
    } else {
        assert(offered(items, seq![]) =~= items);
    }
}

/// Moving keeps the choice on an item that is offered.
pub proof fn law_moving_stays_in_the_list(p: PickerState, down: bool)
    requires
        offered(p.items, p.filter).len() > 0,
        offered(p.items, p.filter).len() <= usize::MAX,
    ensures
        chosen(moved(p, down)) is Some,
{
}

} // verus!
