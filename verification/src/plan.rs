//! The structured work plan: a snapshot that is only ever replaced as a whole.
use vstd::prelude::*;

use crate::list::{take_all, take_next};
use crate::text::{decimal, dec, same};

verus! {

pub const MAX_PLAN_ITEMS: usize = 64;

pub const MAX_PLAN_ID_CHARS: usize = 64;

pub const MAX_PLAN_TEXT_CHARS: usize = 500;

pub const MAX_PLAN_EXPLANATION_CHARS: usize = 1000;

#[derive(Debug, Clone, Copy, PartialEq, Eq, Structural)]
pub enum PlanStatus {
    Pending,
    InProgress,
    Completed,
}

#[derive(Debug, PartialEq, Eq)]
pub struct PlanItem {
    pub id: String,
    pub text: String,
    pub status: PlanStatus,
}

/// The complete plan after its `revision`-th update.
#[derive(Debug, PartialEq, Eq)]
pub struct PlanSnapshot {
    pub revision: u64,
    pub items: Vec<PlanItem>,
    pub explanation: Option<String>,
}

#[verifier::ext_equal]
pub struct PlanItemView {
    pub id: Seq<char>,
    pub text: Seq<char>,
    pub status: PlanStatus,
}

#[verifier::ext_equal]
pub struct PlanView {
    pub revision: nat,
    pub items: Seq<PlanItemView>,
    pub explanation: Option<Seq<char>>,
}

impl DeepView for PlanItem {
    type V = PlanItemView;

    open spec fn deep_view(&self) -> PlanItemView {
        PlanItemView { id: self.id@, text: self.text@, status: self.status }
    }
}

impl DeepView for PlanSnapshot {
    type V = PlanView;

    open spec fn deep_view(&self) -> PlanView {
        PlanView {
            revision: self.revision as nat,
            items: self.items.deep_view(),
            explanation: self.explanation.deep_view(),
        }
    }
}

/// The plan before any update.
pub open spec fn no_plan() -> PlanView {
    PlanView { revision: 0, items: seq![], explanation: None }
}

impl Default for PlanSnapshot {
    fn default() -> (p: PlanSnapshot)
        ensures
            p.deep_view() == no_plan(),
    {
        let p = PlanSnapshot { revision: 0, items: Vec::new(), explanation: None };
        assert(p.deep_view() =~= no_plan());
        p
    }
}

/// How many items have the status.
pub open spec fn with_status(items: Seq<PlanItemView>, status: PlanStatus) -> nat
    decreases items.len(),
{
    if items.len() == 0 {
        0
    } else {
        with_status(items.drop_last(), status) + if items.last().status == status {
            1nat
        } else {
            0
        }
    }
}

/// An item has an id and a text, both of bounded length.
pub open spec fn item_ok(item: PlanItemView) -> bool {
    &&& 1 <= item.id.len() <= MAX_PLAN_ID_CHARS
    &&& 1 <= item.text.len() <= MAX_PLAN_TEXT_CHARS
}

/// A plan that may be stored: bounded, with distinct item ids and at most one item in progress.
pub open spec fn plan_ok(items: Seq<PlanItemView>, explanation: Option<Seq<char>>) -> bool {
    &&& items.len() <= MAX_PLAN_ITEMS
    &&& forall|i: int| 0 <= i < items.len() ==> item_ok(#[trigger] items[i])
    &&& forall|i: int, j: int| 0 <= i < j < items.len() ==> items[i].id != items[j].id
    &&& with_status(items, PlanStatus::InProgress) <= 1
    &&& (explanation is Some ==> explanation->0.len() <= MAX_PLAN_EXPLANATION_CHARS)
}

/// How many items there are of each status.
#[derive(Debug, Clone, Copy, PartialEq, Eq, Structural)]
pub struct PlanCounts {
    pub pending: usize,
    pub in_progress: usize,
    pub completed: usize,
}

fn count_items(items: &Vec<PlanItem>) -> (c: PlanCounts)
    ensures
        c.pending == with_status(items.deep_view(), PlanStatus::Pending),
        c.in_progress == with_status(items.deep_view(), PlanStatus::InProgress),
        c.completed == with_status(items.deep_view(), PlanStatus::Completed),
{
    let mut c = PlanCounts { pending: 0, in_progress: 0, completed: 0 };
    let ghost all = items.deep_view();
    let mut i: usize = 0;
    while i < items.len()
        invariant
            i <= items@.len(),
            all == items.deep_view(),
            c.pending <= i && c.in_progress <= i && c.completed <= i,
            c.pending == with_status(all.take(i as int), PlanStatus::Pending),
            c.in_progress == with_status(all.take(i as int), PlanStatus::InProgress),
            c.completed == with_status(all.take(i as int), PlanStatus::Completed),
        decreases items@.len() - i,
    {
        proof {
            take_next(all, i as int);
        }
        match items[i].status {
            PlanStatus::Pending => {
                c.pending = c.pending + 1;
            },
            PlanStatus::InProgress => {
                c.in_progress = c.in_progress + 1;
            },
            PlanStatus::Completed => {
                c.completed = c.completed + 1;
            },
        }
        i = i + 1;
    }
    proof {
        take_all(all);
    }
    c
}

impl PlanSnapshot {
    pub fn counts(&self) -> (c: PlanCounts)
        ensures
            c.pending == with_status(self.deep_view().items, PlanStatus::Pending),
            c.in_progress == with_status(self.deep_view().items, PlanStatus::InProgress),
            c.completed == with_status(self.deep_view().items, PlanStatus::Completed),
    {
        count_items(&self.items)
    }

    /// Whether the plan may be stored.
    pub fn is_ok(&self) -> (r: bool)
        ensures
            r == plan_ok(self.deep_view().items, self.deep_view().explanation),
    {
        check_plan(&self.items, &self.explanation)
    }
}

impl Clone for PlanSnapshot {
    fn clone(&self) -> (r: PlanSnapshot)
        ensures
            r.deep_view() == self.deep_view(),
    {
        let mut items: Vec<PlanItem> = crate::list::empty();
        let mut i: usize = 0;
        while i < self.items.len()
            invariant
                i <= self.items@.len(),
                items.deep_view() == self.items.deep_view().take(i as int),
            decreases self.items@.len() - i,
        {
            let item = &self.items[i];
            crate::list::put(
                &mut items,
                PlanItem { id: item.id.clone(), text: item.text.clone(), status: item.status },
            );
            i = i + 1;
        }
        proof {
            take_all(self.items.deep_view());
        }
        PlanSnapshot {
            revision: self.revision,
            items,
            explanation: crate::message::copy_opt_text(&self.explanation),
        }
    }
}

fn check_plan(items: &Vec<PlanItem>, explanation: &Option<String>) -> (r: bool)
    ensures
        r == plan_ok(items.deep_view(), explanation.deep_view()),
{
    let ghost all = items.deep_view();
    if items.len() > MAX_PLAN_ITEMS {
        return false;
    }
    if let Some(text) = explanation {
        if text.as_str().unicode_len() > MAX_PLAN_EXPLANATION_CHARS {
            return false;
        }
    }
    let mut i: usize = 0;
    while i < items.len()
        invariant
            i <= items@.len(),
            all == items.deep_view(),
            forall|k: int| 0 <= k < i ==> item_ok(#[trigger] all[k]),
            forall|k: int, l: int| 0 <= k < l < i ==> all[k].id != all[l].id,
        decreases items@.len() - i,
    {
        let ids = items[i].id.as_str().unicode_len();
        let chars = items[i].text.as_str().unicode_len();
        if ids < 1 || ids > MAX_PLAN_ID_CHARS || chars < 1 || chars > MAX_PLAN_TEXT_CHARS {
            assert(!item_ok(all[i as int]));
            return false;
        }
        let mut j: usize = 0;
        while j < i
            invariant
                j <= i < items@.len(),
                all == items.deep_view(),
                forall|k: int| 0 <= k < j ==> all[k].id != all[i as int].id,
            decreases i - j,
        {
            if same(items[j].id.as_str(), items[i].id.as_str()) {
                assert(all[j as int].id == all[i as int].id);
                return false;
            }
            j = j + 1;
        }
        i = i + 1;
    }
    count_items(items).in_progress <= 1
}

#[derive(Debug, Clone, Copy, PartialEq, Eq, Structural)]
pub enum PlanErrorKind {
    /// The plan itself is not acceptable.
    Invalid,
    /// It was made against another revision than the current one.
    Conflict,
}

#[derive(Debug)]
pub struct PlanError {
    pub kind: PlanErrorKind,
    pub message: String,
}

/// Replaces the plan. The caller names the revision that it has seen.
pub fn update_plan(
    current: &PlanSnapshot,
    expected_revision: u64,
    items: Vec<PlanItem>,
    explanation: Option<String>,
) -> (r: Result<PlanSnapshot, PlanError>)
    ensures
        match r {
            Ok(next) => {
                &&& expected_revision == current.revision
                &&& current.revision < u64::MAX
                &&& plan_ok(items.deep_view(), explanation.deep_view())
                &&& next.deep_view() == (PlanView {
                    revision: (current.revision + 1) as nat,
                    items: items.deep_view(),
                    explanation: explanation.deep_view(),
                })
            },
            Err(e) => match e.kind {
                PlanErrorKind::Conflict => expected_revision != current.revision,
                PlanErrorKind::Invalid => expected_revision == current.revision && (
                current.revision == u64::MAX || !plan_ok(items.deep_view(), explanation.deep_view())),
            },
        },
        r is Err ==> r->Err_0.message@ == (if expected_revision != current.revision {
            "plan revision conflict: expected "@ + dec(expected_revision as nat) + ", current "@ + dec(
                current.revision as nat,
            )
        } else {
            "invalid plan"@
        }),
{
    if expected_revision != current.revision {
        let mut message = "plan revision conflict: expected ".to_owned();
        message.push_str(decimal(expected_revision).as_str());
        message.push_str(", current ");
        message.push_str(decimal(current.revision).as_str());
        return Err(PlanError { kind: PlanErrorKind::Conflict, message });
    }
    if current.revision == u64::MAX || !check_plan(&items, &explanation) {
        return Err(PlanError { kind: PlanErrorKind::Invalid, message: "invalid plan".to_owned() });
    }
    Ok(PlanSnapshot { revision: current.revision + 1, items, explanation })
}

/// `next` may follow `current`: it is the next revision and acceptable.
pub open spec fn may_follow(current: PlanView, next: PlanView) -> bool {
    next.revision == current.revision + 1 && plan_ok(next.items, next.explanation)
}

pub fn check_follows(current: &PlanSnapshot, next: &PlanSnapshot) -> (r: bool)
    ensures
        r == may_follow(current.deep_view(), next.deep_view()),
{
    current.revision < u64::MAX && next.revision == current.revision + 1 && next.is_ok()
}

/// An accepted update always may follow the plan that it was made against.
pub proof fn law_update_follows(
    current: PlanView,
    items: Seq<PlanItemView>,
    explanation: Option<Seq<char>>,
)
    requires
        plan_ok(items, explanation),
    ensures
        may_follow(current, PlanView { revision: current.revision + 1, items, explanation }),
{
}

} // verus!
