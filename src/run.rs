use vstd::prelude::*;

use crate::identifier::identifier_in;
use crate::request::{property_change, ChangeRequest, DesiredState};
use crate::session::{next_phase, pending, Action, DeviceError, EventView, Phase};

verus! {

/// A device set as one lookup observes it: whether it opens, the identifier
/// of each entry in enumeration order (`None` where it cannot be resolved),
/// and whether staging and committing a change succeed.
pub struct Platform {
    pub open_ok: bool,
    pub ids: Seq<Option<Seq<u16>>>,
    pub stage_ok: bool,
    pub commit_ok: bool,
}

/// Every entry can be addressed by a 32-bit index and every identifier
/// length fits a 32-bit count with room for the terminator.
pub open spec fn platform_wf(p: Platform) -> bool {
    &&& p.ids.len() <= u32::MAX
    &&& forall|k: int|
        0 <= k < p.ids.len() && (#[trigger] p.ids[k]) is Some ==> p.ids[k]->0.len() < u32::MAX
}

/// How the platform answers an action.
pub open spec fn respond(a: Action, p: Platform) -> EventView {
    match a {
        Action::OpenSet => EventView::Opened { ok: p.open_ok },
        Action::EnumEntry { index } => if index < p.ids.len() {
            EventView::EntryFound
        } else {
            EventView::NoMoreEntries
        },
        Action::QueryIdSize { index } => match p.ids[index as int] {
            Some(id) => EventView::IdSize { reported: Some(id.len() as u32) },
            None => EventView::IdSize { reported: None },
        },
        Action::FetchId { index, capacity } => match p.ids[index as int] {
            Some(id) => EventView::IdFetched { buffer: Some(id.push(0u16)) },
            None => EventView::IdFetched { buffer: None },
        },
        Action::Stage { index, request } => EventView::Staged { ok: p.stage_ok },
        Action::Commit { index } => EventView::Committed { ok: p.commit_ok },
        Action::CloseSet => EventView::Closed,
        Action::Finish { outcome } => EventView::Closed,
    }
}

/// Runs a session from `phase` against `p` for at most `fuel` actions:
/// the phase reached and the actions issued, the final `Finish` included.
/// Each step is the one `Session::step` takes, as its contract states.
pub open spec fn drive(
    phase: Phase,
    target: Seq<u16>,
    desired: DesiredState,
    p: Platform,
    fuel: nat,
) -> (Phase, Seq<Action>)
    decreases fuel,
{
    if fuel == 0 {
        (phase, Seq::empty())
    } else {
        let a = pending(phase, desired);
        if a is Finish {
            (phase, seq![a])
        } else {
            let r = drive(next_phase(phase, target, respond(a, p)), target, desired, p, (fuel - 1) as nat);
            (r.0, seq![a] + r.1)
        }
    }
}

/// A whole lookup of `target` against `p`, with room for every action.
pub open spec fn run(target: Seq<u16>, desired: DesiredState, p: Platform) -> (Phase, Seq<Action>) {
    drive(Phase::Opening, target, desired, p, 3 * p.ids.len() + 8)
}

/// The first entry from `from` on whose identifier is `target`.
pub open spec fn first_match(ids: Seq<Option<Seq<u16>>>, target: Seq<u16>, from: int) -> Option<int>
    decreases ids.len() - from,
{
    if from < 0 || from >= ids.len() {
        None
    } else if ids[from] == Some(target) {
        Some(from)
    } else {
        first_match(ids, target, from + 1)
    }
}

/// The outcome of staging and committing on a matched entry.
pub open spec fn apply_outcome(p: Platform) -> Result<(), DeviceError> {
    if !p.stage_ok {
        Err(DeviceError::StageFailed)
    } else if !p.commit_ok {
        Err(DeviceError::CommitFailed)
    } else {
        Ok(())
    }
}

/// The outcome a lookup of `target` owes on `p`.
pub open spec fn expected_outcome(target: Seq<u16>, p: Platform) -> Result<(), DeviceError> {
    if !p.open_ok {
        Err(DeviceError::RegistryUnavailable)
    } else {
        match first_match(p.ids, target, 0) {
            None => Err(DeviceError::DeviceNotFound),
            Some(_) => apply_outcome(p),
        }
    }
}

/// Kinds of action, for counting them in a trace.
pub enum ActionKind {
    Open,
    Enum,
    Size,
    Fetch,
    Stage,
    Commit,
    Close,
    Finish,
}

/// The kind of an action.
pub open spec fn kind_of(a: Action) -> ActionKind {
    match a {
        Action::OpenSet => ActionKind::Open,
        Action::EnumEntry { .. } => ActionKind::Enum,
        Action::QueryIdSize { .. } => ActionKind::Size,
        Action::FetchId { .. } => ActionKind::Fetch,
        Action::Stage { .. } => ActionKind::Stage,
        Action::Commit { .. } => ActionKind::Commit,
        Action::CloseSet => ActionKind::Close,
        Action::Finish { .. } => ActionKind::Finish,
    }
}

/// How many actions of a trace are of kind `k`.
pub open spec fn count_kind(tr: Seq<Action>, k: ActionKind) -> nat
    decreases tr.len(),
{
    if tr.len() == 0 {
        0
    } else {
        (if kind_of(tr[0]) == k {
            1nat
        } else {
            0nat
        }) + count_kind(tr.drop_first(), k)
    }
}

/// Every change submitted in a trace is `request`, on entry `index`.
pub open spec fn stages_only(tr: Seq<Action>, index: int, request: ChangeRequest) -> bool {
    forall|j: int|
        0 <= j < tr.len() && (#[trigger] tr[j]) is Stage ==> tr[j]->Stage_index == index
            && tr[j]->Stage_request == request
}

/// No entry past `index` is fetched in a trace.
pub open spec fn enumerates_up_to(tr: Seq<Action>, index: int) -> bool {
    forall|j: int| 0 <= j < tr.len() && (#[trigger] tr[j]) is EnumEntry ==> tr[j]->EnumEntry_index <= index
}

proof fn lemma_count_cons(a: Action, rest: Seq<Action>)
    ensures
        forall|k: ActionKind|
            #[trigger] count_kind(seq![a] + rest, k) == (if kind_of(a) == k {
                1nat
            } else {
                0nat
            }) + count_kind(rest, k),
{
    let tr = seq![a] + rest;
    assert(tr.drop_first() =~= rest);
    assert(tr[0] == a);
    assert forall|k: ActionKind| #[trigger] count_kind(tr, k) == (if kind_of(a) == k {
        1nat
    } else {
        0nat
    }) + count_kind(rest, k) by {
        assert(tr.len() > 0);
    }
}

proof fn lemma_closing(outcome: Result<(), DeviceError>, target: Seq<u16>, desired: DesiredState, p: Platform, fuel: nat)
    requires
        fuel >= 2,
    ensures
        drive(Phase::Closing { outcome }, target, desired, p, fuel).0 == (Phase::Done { outcome }),
        drive(Phase::Closing { outcome }, target, desired, p, fuel).1 == seq![Action::CloseSet] + seq![Action::Finish { outcome }],
{
    let f1 = (fuel - 1) as nat;
    assert(drive(Phase::Done { outcome }, target, desired, p, f1) == (Phase::Done { outcome }, seq![Action::Finish { outcome }]));
}

proof fn lemma_staging(index: u32, target: Seq<u16>, desired: DesiredState, p: Platform, fuel: nat)
    requires
        fuel >= 4,
    ensures
        ({
            let r = drive(Phase::Staging { index }, target, desired, p, fuel);
            &&& r.0 == (Phase::Done { outcome: apply_outcome(p) })
            &&& count_kind(r.1, ActionKind::Close) == 1
            &&& count_kind(r.1, ActionKind::Stage) == 1
            &&& (!p.stage_ok ==> count_kind(r.1, ActionKind::Commit) == 0)
            &&& stages_only(r.1, index as int, property_change(desired))
            &&& enumerates_up_to(r.1, index as int)
        }),
{
    let f1 = (fuel - 1) as nat;
    let f2 = (fuel - 2) as nat;
    let st = Action::Stage { index, request: property_change(desired) };
    let r = drive(Phase::Staging { index }, target, desired, p, fuel);
    if p.stage_ok {
        let o = if p.commit_ok {
            Ok(())
        } else {
            Err(DeviceError::CommitFailed)
        };
        lemma_closing(o, target, desired, p, f2);
        let c = drive(Phase::Closing { outcome: o }, target, desired, p, f2);
        lemma_count_cons(Action::CloseSet, seq![Action::Finish { outcome: o }]);
        lemma_count_cons(Action::Finish { outcome: o }, Seq::empty());
        assert(seq![Action::Finish { outcome: o }] =~= seq![Action::Finish { outcome: o }] + Seq::<Action>::empty());
        let t1 = drive(Phase::Committing { index }, target, desired, p, f1);
        assert(t1.1 == seq![Action::Commit { index }] + c.1);
        lemma_count_cons(Action::Commit { index }, c.1);
        assert(r.1 == seq![st] + t1.1);
        lemma_count_cons(st, t1.1);
    } else {
        let o = Err(DeviceError::StageFailed);
        lemma_closing(o, target, desired, p, f1);
        let c = drive(Phase::Closing { outcome: o }, target, desired, p, f1);
        lemma_count_cons(Action::CloseSet, seq![Action::Finish { outcome: o }]);
        lemma_count_cons(Action::Finish { outcome: o }, Seq::empty());
        assert(seq![Action::Finish { outcome: o }] =~= seq![Action::Finish { outcome: o }] + Seq::<Action>::empty());
        assert(r.1 == seq![st] + c.1);
        lemma_count_cons(st, c.1);
    }
}

proof fn lemma_first_match_bounds(ids: Seq<Option<Seq<u16>>>, target: Seq<u16>, from: int)
    requires
        0 <= from,
    ensures
        first_match(ids, target, from) is Some ==> {
            let m = first_match(ids, target, from)->0;
            &&& from <= m < ids.len()
            &&& ids[m] == Some(target)
            &&& forall|j: int| from <= j < m ==> ids[j] != Some(target)
        },
        first_match(ids, target, from) is None ==> forall|j: int|
            from <= j < ids.len() ==> ids[j] != Some(target),
    decreases ids.len() - from,
{
    if from < ids.len() && ids[from] != Some(target) {
        lemma_first_match_bounds(ids, target, from + 1);
    }
}

proof fn lemma_terminated_identifier(id: Seq<u16>)
    ensures
        identifier_in(id.push(0u16), id.len()) == Some(id),
{
    assert(id.push(0u16).subrange(0, id.len() as int) =~= id);
}

proof fn lemma_scan(i: nat, target: Seq<u16>, desired: DesiredState, p: Platform, fuel: nat)
    requires
        platform_wf(p),
        i <= p.ids.len(),
        fuel >= 3 * (p.ids.len() - i) + 7,
    ensures
        ({
            let r = drive(Phase::Enumerating { index: i as u32 }, target, desired, p, fuel);
            let m = first_match(p.ids, target, i as int);
            &&& r.0 == (Phase::Done {
                outcome: if m is Some {
                    apply_outcome(p)
                } else {
                    Err(DeviceError::DeviceNotFound)
                },
            })
            &&& count_kind(r.1, ActionKind::Close) == 1
            &&& count_kind(r.1, ActionKind::Stage) == (if m is Some {
                1nat
            } else {
                0nat
            })
            &&& (!p.stage_ok ==> count_kind(r.1, ActionKind::Commit) == 0)
            &&& (m is Some ==> stages_only(r.1, m->0, property_change(desired)))
            &&& (m is Some ==> enumerates_up_to(r.1, m->0))
        }),
    decreases p.ids.len() - i,
{
    let n = p.ids.len();
    let e = Action::EnumEntry { index: i as u32 };
    let r = drive(Phase::Enumerating { index: i as u32 }, target, desired, p, fuel);
    let f1 = (fuel - 1) as nat;
    let f2 = (fuel - 2) as nat;
    let f3 = (fuel - 3) as nat;
    lemma_first_match_bounds(p.ids, target, i as int);
    if i == n {
        let o = Err(DeviceError::DeviceNotFound);
        lemma_closing(o, target, desired, p, f1);
        let c = drive(Phase::Closing { outcome: o }, target, desired, p, f1);
        lemma_count_cons(Action::CloseSet, seq![Action::Finish { outcome: o }]);
        lemma_count_cons(Action::Finish { outcome: o }, Seq::empty());
        assert(seq![Action::Finish { outcome: o }] =~= seq![Action::Finish { outcome: o }] + Seq::<Action>::empty());
        assert(r.1 == seq![e] + c.1);
        lemma_count_cons(e, c.1);
    } else {
        let q = Action::QueryIdSize { index: i as u32 };
        let s1 = drive(Phase::Sizing { index: i as u32 }, target, desired, p, f1);
        assert(r.1 == seq![e] + s1.1);
        lemma_count_cons(e, s1.1);
        match p.ids[i as int] {
            None => {
                lemma_scan(i + 1, target, desired, p, f2);
                let t = drive(Phase::Enumerating { index: (i + 1) as u32 }, target, desired, p, f2);
                assert(s1.1 == seq![q] + t.1);
                lemma_count_cons(q, t.1);
                lemma_first_match_bounds(p.ids, target, (i + 1) as int);
            },
            Some(id) => {
                assert(id.len() < u32::MAX);
                let fa = Action::FetchId { index: i as u32, capacity: (id.len() + 1) as u32 };
                let s2 = drive(Phase::Fetching { index: i as u32, reported: id.len() as u32 }, target, desired, p, f2);
                assert(s1.1 == seq![q] + s2.1);
                lemma_count_cons(q, s2.1);
                lemma_terminated_identifier(id);
                if id == target {
                    lemma_staging(i as u32, target, desired, p, f3);
                    let t = drive(Phase::Staging { index: i as u32 }, target, desired, p, f3);
                    assert(s2.1 == seq![fa] + t.1);
                    lemma_count_cons(fa, t.1);
                } else {
                    lemma_scan(i + 1, target, desired, p, f3);
                    let t = drive(Phase::Enumerating { index: (i + 1) as u32 }, target, desired, p, f3);
                    assert(s2.1 == seq![fa] + t.1);
                    lemma_count_cons(fa, t.1);
                    lemma_first_match_bounds(p.ids, target, (i + 1) as int);
                }
            },
        }
    }
}

proof fn lemma_run(target: Seq<u16>, desired: DesiredState, p: Platform)
    requires
        platform_wf(p),
    ensures
        ({
            let r = run(target, desired, p);
            let m = first_match(p.ids, target, 0);
            &&& r.0 == (Phase::Done { outcome: expected_outcome(target, p) })
            &&& count_kind(r.1, ActionKind::Close) == (if p.open_ok {
                1nat
            } else {
                0nat
            })
            &&& count_kind(r.1, ActionKind::Stage) == (if p.open_ok && m is Some {
                1nat
            } else {
                0nat
            })
            &&& (!p.stage_ok ==> count_kind(r.1, ActionKind::Commit) == 0)
            &&& (m is Some ==> stages_only(r.1, m->0, property_change(desired)))
            &&& (m is Some ==> enumerates_up_to(r.1, m->0))
        }),
{
    let n = p.ids.len();
    let fuel = 3 * n + 8;
    let f1 = (fuel - 1) as nat;
    let r = run(target, desired, p);
    if p.open_ok {
        lemma_scan(0, target, desired, p, f1);
        let t = drive(Phase::Enumerating { index: 0 }, target, desired, p, f1);
        assert(r.1 == seq![Action::OpenSet] + t.1);
        lemma_count_cons(Action::OpenSet, t.1);
    } else {
        let o = Err(DeviceError::RegistryUnavailable);
        let t = drive(Phase::Done { outcome: o }, target, desired, p, f1);
        assert(t.1 == seq![Action::Finish { outcome: o }]);
        assert(r.1 == seq![Action::OpenSet] + t.1);
        lemma_count_cons(Action::OpenSet, t.1);
        lemma_count_cons(Action::Finish { outcome: o }, Seq::empty());
        assert(seq![Action::Finish { outcome: o }] =~= seq![Action::Finish { outcome: o }] + Seq::<Action>::empty());
    }
}

/// A lookup ends with the outcome it owes: the set unavailable, the device
/// not found, or the result of staging and committing the change on the
/// first entry whose identifier is the target.
pub proof fn law_outcome(target: Seq<u16>, desired: DesiredState, p: Platform)
    requires
        platform_wf(p),
    ensures
        run(target, desired, p).0 == (Phase::Done { outcome: expected_outcome(target, p) }),
{
    lemma_run(target, desired, p);
}

/// The device set is released exactly once whenever it was opened, on
/// every path, and never when it could not be opened.
pub proof fn law_set_released_once(target: Seq<u16>, desired: DesiredState, p: Platform)
    requires
        platform_wf(p),
    ensures
        count_kind(run(target, desired, p).1, ActionKind::Close) == (if p.open_ok {
            1nat
        } else {
            0nat
        }),
{
    lemma_run(target, desired, p);
}

/// A target that no entry carries is reported not found, and no change
/// request is ever submitted.
pub proof fn law_absent_submits_nothing(target: Seq<u16>, desired: DesiredState, p: Platform)
    requires
        platform_wf(p),
        p.open_ok,
        forall|k: int| 0 <= k < p.ids.len() ==> p.ids[k] != Some(target),
    ensures
        run(target, desired, p).0 == (Phase::Done { outcome: Err(DeviceError::DeviceNotFound) }),
        count_kind(run(target, desired, p).1, ActionKind::Stage) == 0,
{
    lemma_run(target, desired, p);
    lemma_first_match_bounds(p.ids, target, 0);
}

/// When two entries carry the target, exactly one change is submitted, on
/// the first matching entry, and no entry past it is ever fetched.
pub proof fn law_first_match_only(target: Seq<u16>, desired: DesiredState, p: Platform, a: int, b: int)
    requires
        platform_wf(p),
        p.open_ok,
        0 <= a < b < p.ids.len(),
        p.ids[a] == Some(target),
        p.ids[b] == Some(target),
    ensures
        first_match(p.ids, target, 0) is Some,
        first_match(p.ids, target, 0)->0 <= a,
        count_kind(run(target, desired, p).1, ActionKind::Stage) == 1,
        stages_only(run(target, desired, p).1, first_match(p.ids, target, 0)->0, property_change(desired)),
        enumerates_up_to(run(target, desired, p).1, first_match(p.ids, target, 0)->0),
{
    lemma_run(target, desired, p);
    lemma_first_match_bounds(p.ids, target, 0);
}

/// An entry whose identifier cannot be resolved is skipped: when the next
/// entry carries the target and the change is accepted, the lookup succeeds.
pub proof fn law_unresolved_entry_skipped(target: Seq<u16>, desired: DesiredState, p: Platform, k: int)
    requires
        platform_wf(p),
        p.open_ok,
        p.stage_ok,
        p.commit_ok,
        0 <= k && k + 1 < p.ids.len(),
        p.ids[k] is None,
        p.ids[k + 1] == Some(target),
    ensures
        run(target, desired, p).0 == (Phase::Done { outcome: Ok(()) }),
{
    lemma_run(target, desired, p);
    lemma_first_match_bounds(p.ids, target, 0);
}

/// A change whose staging is rejected is never committed, and the lookup
/// does not succeed.
pub proof fn law_failed_stage_never_commits(target: Seq<u16>, desired: DesiredState, p: Platform)
    requires
        platform_wf(p),
        !p.stage_ok,
    ensures
        count_kind(run(target, desired, p).1, ActionKind::Commit) == 0,
        run(target, desired, p).0 != (Phase::Done { outcome: Ok(()) }),
{
    lemma_run(target, desired, p);
}

/// On a present device whose platform accepts every change, any two
/// requests in a row, the same state twice or one state then the other,
/// both succeed, each submitting exactly one record for its own state.
pub proof fn law_repeated_requests_succeed(
    target: Seq<u16>,
    first: DesiredState,
    second: DesiredState,
    p: Platform,
    k: int,
)
    requires
        platform_wf(p),
        p.open_ok,
        p.stage_ok,
        p.commit_ok,
        0 <= k < p.ids.len(),
        p.ids[k] == Some(target),
    ensures
        run(target, first, p).0 == (Phase::Done { outcome: Ok(()) }),
        run(target, second, p).0 == (Phase::Done { outcome: Ok(()) }),
        count_kind(run(target, first, p).1, ActionKind::Stage) == 1,
        count_kind(run(target, second, p).1, ActionKind::Stage) == 1,
        stages_only(run(target, first, p).1, first_match(p.ids, target, 0)->0, property_change(first)),
        stages_only(run(target, second, p).1, first_match(p.ids, target, 0)->0, property_change(second)),
{
    lemma_run(target, first, p);
    lemma_run(target, second, p);
    lemma_first_match_bounds(p.ids, target, 0);
}

} // verus!
