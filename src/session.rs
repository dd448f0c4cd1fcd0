use vstd::prelude::*;

use crate::identifier::{capacity_for, fetch_capacity, identifier_in, identifier_matches};
use crate::request::{change_request, property_change, ChangeRequest, DesiredState};

verus! {

/// Why a lookup-and-apply ended without changing the device.
#[derive(Clone, Copy, Debug, PartialEq, Eq, Structural)]
pub enum DeviceError {
    /// The snapshot of the device set could not be obtained.
    RegistryUnavailable,
    /// Every entry was examined and none carries the identifier.
    DeviceNotFound,
    /// The change-request parameters were rejected.
    StageFailed,
    /// The parameters were staged but applying the change failed.
    CommitFailed,
}

/// Where a lookup stands.
#[derive(Clone, Copy, Debug)]
pub enum Phase {
    /// Waiting for the device set to be opened.
    Opening,
    /// Waiting to learn whether entry `index` exists.
    Enumerating { index: u32 },
    /// Waiting for the identifier length of entry `index`.
    Sizing { index: u32 },
    /// Waiting for the identifier of entry `index`, of reported length `reported`.
    Fetching { index: u32, reported: u32 },
    /// Waiting for the change request on entry `index` to be staged.
    Staging { index: u32 },
    /// Waiting for the staged change on entry `index` to be applied.
    Committing { index: u32 },
    /// Waiting for the device set to be released; `outcome` is then reported.
    Closing { outcome: Result<(), DeviceError> },
    /// The lookup is over.
    Done { outcome: Result<(), DeviceError> },
}

/// What the caller is asked to do next.
#[derive(Clone, Copy, Debug)]
pub enum Action {
    /// Open a snapshot of all devices of all classes.
    OpenSet,
    /// Fetch entry `index` of the set.
    EnumEntry { index: u32 },
    /// Ask for the identifier length of entry `index`.
    QueryIdSize { index: u32 },
    /// Fetch the identifier of entry `index` into a buffer of `capacity` units.
    FetchId { index: u32, capacity: u32 },
    /// Submit `request` as the install parameters of entry `index`.
    Stage { index: u32, request: ChangeRequest },
    /// Apply the staged change to entry `index`.
    Commit { index: u32 },
    /// Release the device set.
    CloseSet,
    /// Report `outcome`; nothing more is to be done.
    Finish { outcome: Result<(), DeviceError> },
}

/// What the caller observed when it performed the last action.
#[derive(Clone, Debug)]
pub enum Event {
    /// The set was opened (`ok`) or could not be.
    Opened { ok: bool },
    /// The requested entry exists.
    EntryFound,
    /// The requested index is past the last entry.
    NoMoreEntries,
    /// The identifier length, or `None` when the query did not succeed.
    IdSize { reported: Option<u32> },
    /// The fetched buffer, or `None` when the fetch did not succeed.
    IdFetched { buffer: Option<Vec<u16>> },
    /// Staging succeeded (`ok`) or not.
    Staged { ok: bool },
    /// Applying the change succeeded (`ok`) or not.
    Committed { ok: bool },
    /// The set was released.
    Closed,
}

/// An event with its buffer seen as a sequence.
pub enum EventView {
    Opened { ok: bool },
    EntryFound,
    NoMoreEntries,
    IdSize { reported: Option<u32> },
    IdFetched { buffer: Option<Seq<u16>> },
    Staged { ok: bool },
    Committed { ok: bool },
    Closed,
}

impl View for Event {
    type V = EventView;

    open spec fn view(&self) -> EventView {
        match self {
            Event::Opened { ok } => EventView::Opened { ok: *ok },
            Event::EntryFound => EventView::EntryFound,
            Event::NoMoreEntries => EventView::NoMoreEntries,
            Event::IdSize { reported } => EventView::IdSize { reported: *reported },
            Event::IdFetched { buffer } => EventView::IdFetched {
                buffer: match buffer {
                    Some(b) => Some(b@),
                    None => None,
                },
            },
            Event::Staged { ok } => EventView::Staged { ok: *ok },
            Event::Committed { ok } => EventView::Committed { ok: *ok },
            Event::Closed => EventView::Closed,
        }
    }
}

/// The action a phase waits on.
pub open spec fn pending(phase: Phase, desired: DesiredState) -> Action {
    match phase {
        Phase::Opening => Action::OpenSet,
        Phase::Enumerating { index } => Action::EnumEntry { index },
        Phase::Sizing { index } => Action::QueryIdSize { index },
        Phase::Fetching { index, reported } => Action::FetchId {
            index,
            capacity: (reported + 1) as u32,
        },
        Phase::Staging { index } => Action::Stage { index, request: property_change(desired) },
        Phase::Committing { index } => Action::Commit { index },
        Phase::Closing { outcome } => Action::CloseSet,
        Phase::Done { outcome } => Action::Finish { outcome },
    }
}

/// Moving past entry `index` without a match: on to the next entry, or, when
/// no further index can be addressed, to releasing the set unmatched.
pub open spec fn skip_entry(index: u32) -> Phase {
    if index < u32::MAX {
        Phase::Enumerating { index: (index + 1) as u32 }
    } else {
        Phase::Closing { outcome: Err(DeviceError::DeviceNotFound) }
    }
}

/// The phase that follows `phase` once `event` is observed. An event that
/// does not answer the pending action leaves the phase as it is.
pub open spec fn next_phase(phase: Phase, target: Seq<u16>, event: EventView) -> Phase {
    match (phase, event) {
        (Phase::Opening, EventView::Opened { ok }) => if ok {
            Phase::Enumerating { index: 0 }
        } else {
            Phase::Done { outcome: Err(DeviceError::RegistryUnavailable) }
        },
        (Phase::Enumerating { index }, EventView::EntryFound) => Phase::Sizing { index },
        (Phase::Enumerating { index }, EventView::NoMoreEntries) => Phase::Closing {
            outcome: Err(DeviceError::DeviceNotFound),
        },
        (Phase::Sizing { index }, EventView::IdSize { reported }) => match reported {
            Some(r) => if capacity_for(r) is Some {
                Phase::Fetching { index, reported: r }
            } else {
                skip_entry(index)
            },
            None => skip_entry(index),
        },
        (Phase::Fetching { index, reported }, EventView::IdFetched { buffer }) => match buffer {
            Some(b) => if identifier_in(b, reported as nat) == Some(target) {
                Phase::Staging { index }
            } else {
                skip_entry(index)
            },
            None => skip_entry(index),
        },
        (Phase::Staging { index }, EventView::Staged { ok }) => if ok {
            Phase::Committing { index }
        } else {
            Phase::Closing { outcome: Err(DeviceError::StageFailed) }
        },
        (Phase::Committing { index }, EventView::Committed { ok }) => Phase::Closing {
            outcome: if ok {
                Ok(())
            } else {
                Err(DeviceError::CommitFailed)
            },
        },
        (Phase::Closing { outcome }, EventView::Closed) => Phase::Done { outcome },
        _ => phase,
    }
}

/// Whether a phase can stand in a session: a fetch waits on a length whose
/// capacity can be expressed.
pub open spec fn phase_wf(phase: Phase) -> bool {
    match phase {
        Phase::Fetching { index, reported } => reported < u32::MAX,
        _ => true,
    }
}

/// One lookup of `target`, to be set to `desired`.
pub struct Session {
    pub target: Vec<u16>,
    pub desired: DesiredState,
    pub phase: Phase,
}

impl Session {
    /// The session's phase is well formed.
    pub open spec fn wf(&self) -> bool {
        phase_wf(self.phase)
    }

    /// Starts a lookup; the first action is to open the device set.
    pub fn start(target: Vec<u16>, desired: DesiredState) -> (r: (Session, Action))
        ensures
            r.0.wf(),
            r.0.target@ == target@,
            r.0.desired == desired,
            r.0.phase == Phase::Opening,
            r.1 == Action::OpenSet,
    {
        (Session { target, desired, phase: Phase::Opening }, Action::OpenSet)
    }

    /// The action the current phase waits on.
    pub fn pending_action(&self) -> (r: Action)
        requires
            self.wf(),
        ensures
            r == pending(self.phase, self.desired),
    {
        match self.phase {
            Phase::Opening => Action::OpenSet,
            Phase::Enumerating { index } => Action::EnumEntry { index },
            Phase::Sizing { index } => Action::QueryIdSize { index },
            Phase::Fetching { index, reported } => Action::FetchId { index, capacity: reported + 1 },
            Phase::Staging { index } => Action::Stage { index, request: change_request(self.desired) },
            Phase::Committing { index } => Action::Commit { index },
            Phase::Closing { outcome } => Action::CloseSet,
            Phase::Done { outcome } => Action::Finish { outcome },
        }
    }

    /// Whether the lookup is over, with its outcome.
    pub fn outcome(&self) -> (r: Option<Result<(), DeviceError>>)
        ensures
            r == (match self.phase {
                Phase::Done { outcome } => Some(outcome),
                _ => None,
            }),
    {
        match self.phase {
            Phase::Done { outcome } => Some(outcome),
            _ => None,
        }
    }

    /// Takes in what the caller observed and returns the next action.
    pub fn step(&mut self, event: Event) -> (r: Action)
        requires
            old(self).wf(),
        ensures
            final(self).wf(),
            final(self).target@ == old(self).target@,
            final(self).desired == old(self).desired,
            final(self).phase == next_phase(old(self).phase, old(self).target@, event@),
            r == pending(final(self).phase, final(self).desired),
    {
        let next = match (self.phase, event) {
            (Phase::Opening, Event::Opened { ok }) => if ok {
                Phase::Enumerating { index: 0 }
            } else {
                Phase::Done { outcome: Err(DeviceError::RegistryUnavailable) }
            },
            (Phase::Enumerating { index }, Event::EntryFound) => Phase::Sizing { index },
            (Phase::Enumerating { index }, Event::NoMoreEntries) => Phase::Closing {
                outcome: Err(DeviceError::DeviceNotFound),
            },
            (Phase::Sizing { index }, Event::IdSize { reported }) => match reported {
                Some(r) => match fetch_capacity(r) {
                    Some(_) => Phase::Fetching { index, reported: r },
                    None => skip(index),
                },
                None => skip(index),
            },
            (Phase::Fetching { index, reported }, Event::IdFetched { buffer }) => match buffer {
                Some(b) => if identifier_matches(&b, reported, &self.target) {
                    Phase::Staging { index }
                } else {
                    skip(index)
                },
                None => skip(index),
            },
            (Phase::Staging { index }, Event::Staged { ok }) => if ok {
                Phase::Committing { index }
            } else {
                Phase::Closing { outcome: Err(DeviceError::StageFailed) }
            },
            (Phase::Committing { index }, Event::Committed { ok }) => if ok {
                Phase::Closing { outcome: Ok(()) }
            } else {
                Phase::Closing { outcome: Err(DeviceError::CommitFailed) }
            },
            (Phase::Closing { outcome }, Event::Closed) => Phase::Done { outcome },
            _ => self.phase,
        };
        self.phase = next;
        self.pending_action()
    }
}

fn skip(index: u32) -> (r: Phase)
    ensures
        r == skip_entry(index),
{
    if index < u32::MAX {
        Phase::Enumerating { index: index + 1 }
    } else {
        Phase::Closing { outcome: Err(DeviceError::DeviceNotFound) }
    }
}

} // verus!
