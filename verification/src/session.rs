//! The course of a run: which phase follows which, and when files may be written.

use crate::runner::Plan;
use crate::utils::RunError;
use vstd::prelude::*;

verus! {

/// Where a run stands.
#[derive(Clone, Copy, Debug, PartialEq, Eq, Structural)]
pub enum Phase {
    /// The version upgraded from is checked and the milestone chosen.
    Validating,
    /// The packages that the rules speak of are loaded into the tables.
    Preloading,
    /// The files are walked, one by one; their patches are kept.
    Walking,
    /// The patches are written to the files.
    Applying,
    /// The run ended: all was written, or there was nothing to do.
    Done,
    /// The run ended before any file was written.
    Aborted,
}

/// What the caller reports of the work it did.
#[derive(Clone, Copy, Debug, PartialEq, Eq, Structural)]
pub enum Event {
    /// The version upgraded from lies below the lowest one.
    Refused,
    /// No milestone is registered for the version upgraded to.
    NothingRegistered,
    /// A milestone was chosen.
    Chosen,
    /// The tables are filled, and the hook before the walk, if any, passed.
    Prepared,
    /// The hook before the walk refused the upgrade.
    InitFailed,
    /// One more file was walked.
    FileWalked,
    /// A hook refused to go on while a file was walked.
    HookFailed,
    /// Every file was walked.
    AllWalked,
    /// One more file was written.
    FileWritten,
    /// Every file was written.
    AllWritten,
    /// Reading or writing failed.
    IoFailed,
}

/// The phase after an event. An event that does not belong to a phase leaves it as it is.
pub open spec fn next(phase: Phase, event: Event) -> Phase {
    match (phase, event) {
        (Phase::Validating, Event::Refused) => Phase::Aborted,
        (Phase::Validating, Event::NothingRegistered) => Phase::Done,
        (Phase::Validating, Event::Chosen) => Phase::Preloading,
        (Phase::Preloading, Event::Prepared) => Phase::Walking,
        (Phase::Preloading, Event::InitFailed) => Phase::Aborted,
        (Phase::Preloading, Event::IoFailed) => Phase::Aborted,
        (Phase::Walking, Event::FileWalked) => Phase::Walking,
        (Phase::Walking, Event::HookFailed) => Phase::Aborted,
        (Phase::Walking, Event::IoFailed) => Phase::Aborted,
        (Phase::Walking, Event::AllWalked) => Phase::Applying,
        (Phase::Applying, Event::FileWritten) => Phase::Applying,
        (Phase::Applying, Event::AllWritten) => Phase::Done,
        (Phase::Applying, Event::IoFailed) => Phase::Done,
        (phase, _) => phase,
    }
}

/// Files are written in the phase of applying and in no other.
pub open spec fn writes(phase: Phase) -> bool {
    phase == Phase::Applying
}

/// The phase after a series of events.
pub open spec fn after(phase: Phase, events: Seq<Event>) -> Phase
    decreases events.len(),
{
    if events.len() == 0 {
        phase
    } else {
        next(after(phase, events.drop_last()), events.last())
    }
}

/// The event that the start of a run brings.
pub open spec fn opening_of(started: Result<Plan, RunError>) -> Event {
    match started {
        Err(_) => Event::Refused,
        Ok(Plan::NoChanges) => Event::NothingRegistered,
        Ok(Plan::Upgrade { .. }) => Event::Chosen,
    }
}

/// The phase after an event.
pub fn advance(phase: Phase, event: Event) -> (r: Phase)
    ensures
        r == next(phase, event),
{
    match (phase, event) {
        (Phase::Validating, Event::Refused) => Phase::Aborted,
        (Phase::Validating, Event::NothingRegistered) => Phase::Done,
        (Phase::Validating, Event::Chosen) => Phase::Preloading,
        (Phase::Preloading, Event::Prepared) => Phase::Walking,
        (Phase::Preloading, Event::InitFailed) => Phase::Aborted,
        (Phase::Preloading, Event::IoFailed) => Phase::Aborted,
        (Phase::Walking, Event::FileWalked) => Phase::Walking,
        (Phase::Walking, Event::HookFailed) => Phase::Aborted,
        (Phase::Walking, Event::IoFailed) => Phase::Aborted,
        (Phase::Walking, Event::AllWalked) => Phase::Applying,
        (Phase::Applying, Event::FileWritten) => Phase::Applying,
        (Phase::Applying, Event::AllWritten) => Phase::Done,
        (Phase::Applying, Event::IoFailed) => Phase::Done,
        (phase, _) => phase,
    }
}

/// Whether files may be written in this phase.
pub fn may_write(phase: Phase) -> (r: bool)
    ensures
        r == writes(phase),
{
    phase == Phase::Applying
}

/// The event that the start of a run brings: a refusal aborts, a version without a
/// milestone ends the run with nothing done, a milestone leads on.
pub fn opening(started: &Result<Plan, RunError>) -> (event: Event)
    ensures
        event == opening_of(*started),
{
    match started {
        Err(_) => Event::Refused,
        Ok(Plan::NoChanges) => Event::NothingRegistered,
        Ok(Plan::Upgrade { .. }) => Event::Chosen,
    }
}

/// A run that ended stays ended, whatever is reported to it, and writes no file.
pub proof fn ended_run_writes_nothing(phase: Phase, events: Seq<Event>)
    requires
        phase == Phase::Aborted || phase == Phase::Done,
    ensures
        after(phase, events) == phase,
        !writes(after(phase, events)),
    decreases events.len(),
{
    if events.len() > 0 {
        ended_run_writes_nothing(phase, events.drop_last());
    }
}

/// An upgrade from below the lowest version writes no file, whatever follows; and so
/// does one to a version for which no milestone is registered, which ends as done.
pub proof fn refused_or_unregistered_writes_nothing(first: Event, events: Seq<Event>)
    requires
        first == Event::Refused || first == Event::NothingRegistered,
    ensures
        !writes(after(Phase::Validating, seq![first] + events)),
        first == Event::Refused ==> after(Phase::Validating, seq![first] + events) == Phase::Aborted,
        first == Event::NothingRegistered ==> after(Phase::Validating, seq![first] + events)
            == Phase::Done,
    decreases events.len(),
{
    let all = seq![first] + events;
    if events.len() == 0 {
        assert(all.drop_last() =~= Seq::<Event>::empty());
        assert(after(Phase::Validating, all.drop_last()) == Phase::Validating);
    } else {
        assert(all.drop_last() =~= seq![first] + events.drop_last());
        assert(all.last() == events.last());
        refused_or_unregistered_writes_nothing(first, events.drop_last());
    }
}

/// Files are written only once every file was walked: the phase of applying is entered
/// from the walk alone, by the report that all files were walked.
pub proof fn applying_follows_the_walk(phase: Phase, event: Event)
    requires
        writes(next(phase, event)),
    ensures
        writes(phase) || (phase == Phase::Walking && event == Event::AllWalked),
{
}

/// A failure before the files are written leads to a phase in which none is written.
pub proof fn failure_aborts(phase: Phase, event: Event)
    requires
        event == Event::HookFailed || event == Event::InitFailed || event == Event::IoFailed,
        !writes(phase),
    ensures
        !writes(next(phase, event)),
        phase == Phase::Walking && event != Event::InitFailed ==> next(phase, event) == Phase::Aborted,
        phase == Phase::Preloading && event != Event::HookFailed ==> next(phase, event)
            == Phase::Aborted,
{
}

/// Files are written only in a run that chose a milestone, filled the tables and walked
/// every file: whatever was reported, the phase of applying is reached by no other way.
pub proof fn applying_has_its_history(events: Seq<Event>)
    ensures
        ({
            let phase = after(Phase::Validating, events);
            &&& phase == Phase::Preloading ==> events.contains(Event::Chosen)
            &&& phase == Phase::Walking ==> events.contains(Event::Chosen) && events.contains(
                Event::Prepared,
            )
            &&& phase == Phase::Applying ==> events.contains(Event::Chosen) && events.contains(
                Event::Prepared,
            ) && events.contains(Event::AllWalked)
        }),
    decreases events.len(),
{
    if events.len() > 0 {
        let front = events.drop_last();
        applying_has_its_history(front);
        assert forall|e: Event| front.contains(e) implies events.contains(e) by {
            let i = choose|i: int| 0 <= i < front.len() && front[i] == e;
            assert(events[i] == e);
        }
        assert(events[events.len() - 1] == events.last());
    }
}

} // verus!
