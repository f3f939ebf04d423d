//! The course of a guest page fault: from admission to the mapped page.

use super::archive::{
    archive_step, archive_step_spec, footer_installed, install_footer, page_resolved, resolve_page,
    ArchiveStep,
};
use super::capture::{save_before_write, saved_before_write};
use super::fault::{
    admit_fault, begin_fill, can_dirty, current, end_fill, fail_fetch, fetch_finished,
    fetch_outcome, fill_begun, fill_plan, finish_fetch, finish_shared_fill, finish_zero_fill,
    location, moved_since, must_save, remap_resident, resident_written, route_fault, servable,
    shared_filled, write_resident, zero_filled, FaultRoute, FetchOutcome, FillPlan,
};
use super::state::{follows, BaseKey, Counters, HostState};
use super::volume::{PageEntry, VolumeState};
use crate::objects::{BlxFooter, ObjectRef};
use crate::types::HostId;
use vstd::prelude::*;

verus! {

broadcast use vstd::std_specs::btree::group_btree_axioms;

/// A fault of a guest.
#[derive(Clone, Copy, PartialEq, Eq, Debug, Structural)]
pub struct Fault {
    pub volume: u64,
    pub page: u32,
    pub write: bool,
    /// The guest tried to write to a page that is mapped for reading.
    pub write_protected: bool,
    /// Only the mapping of the page is gone.
    pub minor: bool,
}

/// A fault that was admitted for one incarnation of its volume.
#[derive(Clone, Copy, PartialEq, Eq, Debug, Structural)]
pub struct OpenFault {
    pub fault: Fault,
    pub incarnation: u64,
}

pub enum FaultStep {
    /// The fault cannot be served: fail the access. The host cannot go on.
    Reject,
    /// Map the resident page again.
    Remap { writable: bool },
    /// Read the page before the guest writes to it.
    Save,
    /// Let the guest write to the page.
    Unprotect,
    /// Load the footer of an archived file.
    Footer(ObjectRef),
    /// Reserve a slot, if one is free, and see how the page is brought in.
    Begin,
    /// Wait until another fault has brought the page in.
    WaitForPage,
    /// Wait for a slot, then begin again.
    WaitForSlot,
    /// Empty the slot that was reserved, if one was.
    Prepare(FillPlan),
    /// Fetch the page, if need be from the host the volume came from.
    Fetch { entry: PageEntry, source: Option<HostId> },
    /// Fill the page with zeroes.
    FillZero,
    /// Fill the page with what was fetched.
    Fill,
    /// Map the page of a base; `fetched` if its content was fetched for it.
    FillShared { share: BaseKey, fetched: bool },
    /// Let the guest write to its copy of the page of a base.
    UnprotectCopy,
    /// Nothing is left to be done.
    Done,
}

/// `after` is `before` with one more fault that could not be served.
pub open spec fn unservable(before: HostState, after: HostState) -> bool {
    after == (HostState {
        counters: Counters {
            faults_unservable: (before.counters.faults_unservable + 1) as u64,
            ..before.counters
        },
        ..before
    })
}

fn reject(host: &mut HostState) -> (step: FaultStep)
    requires
        old(host).counters.room(1),
    ensures
        step is Reject,
        unservable(*old(host), *final(host)),
{
    host.counters.faults_unservable = host.counters.faults_unservable + 1;
    FaultStep::Reject
}

// ---------------------------------------------------------------------------
// Where the page is
// ---------------------------------------------------------------------------

/// `after` is `before` with the location of the page resolved.
pub open spec fn resolved(before: HostState, after: HostState, fault: Fault) -> bool {
    &&& after == (HostState { volumes: after.volumes, ..before })
    &&& after.volumes@ == before.volumes@.insert(fault.volume, after.volumes@[fault.volume])
    &&& page_resolved(
        before.volumes@[fault.volume],
        after.volumes@[fault.volume],
        fault.volume,
        fault.page,
    )
}

/// How a fault on a page that is not resident goes on.
pub open spec fn looks_up(before: HostState, after: HostState, open: OpenFault, step: FaultStep) ->
    bool {
    if !current(before, open.fault.volume, open.incarnation) {
        step is Reject && unservable(before, after)
    } else {
        match archive_step_spec(before.volumes@[open.fault.volume], open.fault.page) {
            ArchiveStep::Ready => step is Begin && after == before,
            ArchiveStep::Fetch(object) => step == FaultStep::Footer(object) && after == before,
            ArchiveStep::Resolve => step is Begin && resolved(before, after, open.fault),
        }
    }
}

fn look_up(host: &mut HostState, open: OpenFault) -> (step: FaultStep)
    requires
        old(host).counters.room(1),
    ensures
        looks_up(*old(host), *final(host), open, step),
{
    let volume: u64 = open.fault.volume;
    let known: Option<ArchiveStep> = match host.volumes.get(&volume) {
        Some(state) => if state.incarnation == open.incarnation && state.ready {
            Some(archive_step(state, open.fault.page))
        } else {
            None
        },
        None => None,
    };
    match known {
        None => reject(host),
        Some(ArchiveStep::Ready) => FaultStep::Begin,
        Some(ArchiveStep::Fetch(object)) => FaultStep::Footer(object),
        Some(ArchiveStep::Resolve) => {
            let ghost was = host.volumes@;
            if let Some(mut state) = host.volumes.remove(&volume) {
                resolve_page(&mut state, volume, open.fault.page);
                host.volumes.insert(volume, state);
                proof {
                    assert(was.remove(volume).insert(volume, state) =~= was.insert(volume, state));
                }
            }
            FaultStep::Begin
        },
    }
}

/// `after` is `before` with the footer taken in.
pub open spec fn footer_taken(
    before: HostState,
    after: HostState,
    volume: u64,
    object: ObjectRef,
    footer: BlxFooter,
) -> bool {
    &&& after == (HostState { volumes: after.volumes, ..before })
    &&& after.volumes@ == before.volumes@.insert(volume, after.volumes@[volume])
    &&& footer_installed(before.volumes@[volume], after.volumes@[volume], object, footer, true)
}

/// What follows once the footer of an archived file was loaded, or could not be.
/// The fault cannot be served if the footer is not the file's.
pub fn footer_loaded(
    host: &mut HostState,
    open: OpenFault,
    object: &ObjectRef,
    footer: Option<BlxFooter>,
) -> (step: FaultStep)
    requires
        old(host).counters.room(1),
    ensures
        if footer is None || !footer->0.belongs_to(*object) || !current(
            *old(host),
            open.fault.volume,
            open.incarnation,
        ) {
            step is Reject && unservable(*old(host), *final(host))
        } else {
            exists|mid: HostState| #[trigger]
                footer_taken(*old(host), mid, open.fault.volume, *object, footer->0) && looks_up(
                    mid,
                    *final(host),
                    open,
                    step,
                )
        },
        follows(*old(host), *final(host)),
{
    let footer: BlxFooter = match footer {
        Some(footer) => footer,
        None => {
            return reject(host);
        },
    };
    if !footer.verify(object) {
        return reject(host);
    }
    let volume: u64 = open.fault.volume;
    let here: bool = match host.volumes.get(&volume) {
        Some(state) => state.incarnation == open.incarnation && state.ready,
        None => false,
    };
    if !here {
        return reject(host);
    }
    let ghost before = *host;
    let ghost loaded = footer;
    if let Some(mut state) = host.volumes.remove(&volume) {
        install_footer(&mut state, object, footer);
        host.volumes.insert(volume, state);
        proof {
            assert(before.volumes@.remove(volume).insert(volume, state)
                =~= before.volumes@.insert(volume, state));
        }
    }
    proof {
        assert(footer_taken(before, *host, volume, *object, loaded));
    }
    look_up(host, open)
}

// ---------------------------------------------------------------------------
// Admission
// ---------------------------------------------------------------------------

/// `after` is `before` with one more rejected fault.
pub open spec fn turned_away(before: HostState, after: HostState) -> bool {
    after == (HostState {
        counters: Counters {
            guest_rejected: (before.counters.guest_rejected + 1) as u64,
            ..before.counters
        },
        ..before
    })
}

/// How a fault on a resident page goes on.
pub open spec fn serves_resident(
    before: HostState,
    after: HostState,
    open: OpenFault,
    step: FaultStep,
) -> bool {
    if !open.fault.write {
        step is Done && after == before
    } else {
        let allowed = step is Unprotect;
        &&& step is Unprotect || step is Done
        &&& resident_written(
            before,
            after,
            open.fault.volume,
            open.incarnation,
            open.fault.page as u64,
            allowed,
        )
    }
}

fn serve_resident(host: &mut HostState, open: OpenFault) -> (step: FaultStep)
    requires
        can_dirty(*old(host), open.fault.volume),
    ensures
        serves_resident(*old(host), *final(host), open, step),
{
    if !open.fault.write {
        return FaultStep::Done;
    }
    if write_resident(host, open.fault.volume, open.incarnation, open.fault.page as u64) {
        FaultStep::Unprotect
    } else {
        FaultStep::Done
    }
}

/// The page still has to be read by a capture.
pub open spec fn is_unread(host: HostState, open: OpenFault) -> bool {
    match host.volume_at_spec(open.fault.volume, open.incarnation) {
        Some(state) => match state.operations.drain {
            Some(drain) => drain.unread@.contains_key(open.fault.page as u64),
            None => false,
        },
        None => false,
    }
}

/// How an admitted fault begins.
pub open spec fn begins(before: HostState, after: HostState, open: OpenFault, step: FaultStep) ->
    bool {
    let state = before.volumes@[open.fault.volume];
    let page = open.fault.page as u64;
    if !state.pages@.contains_key(page) {
        looks_up(before, after, open, step)
    } else if open.fault.minor {
        step == (FaultStep::Remap { writable: state.pages@[page].dirty }) && after == before
    } else if open.fault.write && is_unread(before, open) {
        step is Save && after == before
    } else {
        serves_resident(before, after, open, step)
    }
}

/// Takes a fault on. One that no open volume has a page for is rejected.
pub fn take_fault(host: &mut HostState, fault: Fault) -> (taken: (Option<OpenFault>, FaultStep))
    requires
        can_dirty(*old(host), fault.volume),
    ensures
        if !servable(*old(host), fault.volume, fault.page) {
            &&& taken.0 is None
            &&& taken.1 is Reject
            &&& turned_away(*old(host), *final(host))
        } else {
            let open = OpenFault {
                fault,
                incarnation: old(host).volumes@[fault.volume].incarnation,
            };
            &&& taken.0 == Some(open)
            &&& begins(*old(host), *final(host), open, taken.1)
        },
        follows(*old(host), *final(host)),
{
    let incarnation: u64 = match admit_fault(host, fault.volume, fault.page) {
        Some(incarnation) => incarnation,
        None => {
            return (None, FaultStep::Reject);
        },
    };
    let open = OpenFault { fault, incarnation };
    let page: u64 = fault.page as u64;
    let step: FaultStep = match route_fault(host, fault.volume, page, fault.minor) {
        FaultRoute::Missing => look_up(host, open),
        FaultRoute::Remap => match remap_resident(host, fault.volume, incarnation, page) {
            Some(writable) => FaultStep::Remap { writable },
            None => FaultStep::Done,
        },
        FaultRoute::Resident => if must_save(host, fault.volume, incarnation, page, fault.write) {
            FaultStep::Save
        } else {
            serve_resident(host, open)
        },
    };
    (Some(open), step)
}

/// `after` is `before` with the content of the page saved.
pub open spec fn page_saved_for(
    before: HostState,
    after: HostState,
    open: OpenFault,
    bytes: Vec<u8>,
) -> bool {
    let volume = open.fault.volume;
    exists|saved: bool| #[trigger]
        saved_before_write(
            before.volumes@[volume],
            after.volumes@[volume],
            open.fault.page as u64,
            bytes,
            saved,
        ) && after == (HostState {
            volumes: after.volumes,
            counters: Counters {
                cow_captures: (before.counters.cow_captures + if saved {
                    1int
                } else {
                    0
                }) as u64,
                ..before.counters
            },
            ..before
        }) && after.volumes@ == before.volumes@.insert(volume, after.volumes@[volume])
}

/// What follows once the page was read before the guest writes to it.
pub fn page_saved(host: &mut HostState, open: OpenFault, bytes: Vec<u8>) -> (step: FaultStep)
    requires
        can_dirty(*old(host), open.fault.volume),
        old(host).counters.room(2),
    ensures
        if old(host).volume_at_spec(open.fault.volume, open.incarnation) is None {
            step is Done && *final(host) == *old(host)
        } else {
            exists|mid: HostState| #[trigger]
                page_saved_for(*old(host), mid, open, bytes) && serves_resident(
                    mid,
                    *final(host),
                    open,
                    step,
                )
        },
        follows(*old(host), *final(host)),
{
    let volume: u64 = open.fault.volume;
    if host.volume_at(volume, open.incarnation).is_none() {
        return FaultStep::Done;
    }
    let ghost before = *host;
    let ghost content = bytes;
    let mut saved: bool = false;
    if let Some(mut state) = host.volumes.remove(&volume) {
        saved = save_before_write(&mut state, open.fault.page as u64, bytes);
        host.volumes.insert(volume, state);
        proof {
            assert(before.volumes@.remove(volume).insert(volume, state)
                =~= before.volumes@.insert(volume, state));
        }
    }
    if saved {
        host.counters.cow_captures = host.counters.cow_captures + 1;
    }
    proof {
        assert(saved_before_write(
            before.volumes@[volume],
            host.volumes@[volume],
            open.fault.page as u64,
            content,
            saved,
        ));
        assert(page_saved_for(before, *host, open, content));
    }
    serve_resident(host, open)
}

// ---------------------------------------------------------------------------
// Bringing a page in
// ---------------------------------------------------------------------------

/// What follows from how the page is brought in.
pub open spec fn fill_step(plan: FillPlan) -> FaultStep {
    match plan {
        FillPlan::Gone => FaultStep::Done,
        FillPlan::Filling => FaultStep::WaitForPage,
        FillPlan::InvalidWriteProtect => FaultStep::Reject,
        FillPlan::Wait => FaultStep::WaitForSlot,
        _ => FaultStep::Prepare(plan),
    }
}

/// Sees how a page whose location is known is brought in. `slot_free` tells
/// whether a slot can be had.
pub fn begin_page(host: &mut HostState, open: OpenFault, slot_free: bool) -> (step: FaultStep)
    requires
        old(host).counters.room(1),
    ensures
        ({
            let plan = fill_plan(
                *old(host),
                open.fault.volume,
                open.incarnation,
                open.fault.page as u64,
                open.fault.write,
                open.fault.write_protected,
                slot_free,
            );
            &&& step == fill_step(plan)
            &&& fill_begun(
                *old(host),
                *final(host),
                open.fault.volume,
                open.incarnation,
                open.fault.page as u64,
                open.fault.write,
                open.fault.write_protected,
                slot_free,
                plan,
            )
        }),
        follows(*old(host), *final(host)),
{
    let plan = begin_fill(
        host,
        open.fault.volume,
        open.incarnation,
        open.fault.page as u64,
        open.fault.write,
        open.fault.write_protected,
        slot_free,
    );
    match plan {
        FillPlan::Gone => FaultStep::Done,
        FillPlan::Filling => FaultStep::WaitForPage,
        FillPlan::InvalidWriteProtect => FaultStep::Reject,
        FillPlan::Wait => FaultStep::WaitForSlot,
        _ => FaultStep::Prepare(plan),
    }
}

/// `after` is `before` with the page no longer being brought in.
pub open spec fn fill_ended(before: HostState, after: HostState, open: OpenFault) -> bool {
    let volume = open.fault.volume;
    if before.volume_at_spec(volume, open.incarnation) is Some {
        let was = before.volumes@[volume];
        let now = after.volumes@[volume];
        &&& after == (HostState { volumes: after.volumes, ..before })
        &&& after.volumes@ == before.volumes@.insert(volume, now)
        &&& now == (VolumeState { filling: now.filling, ..was })
        &&& now.filling@ == was.filling@.remove(open.fault.page as u64)
    } else {
        after == before
    }
}

/// Ends bringing a page in: it is in, or could not be brought in.
pub fn end_page(host: &mut HostState, open: OpenFault)
    ensures
        fill_ended(*old(host), *final(host), open),
        follows(*old(host), *final(host)),
{
    let volume: u64 = open.fault.volume;
    if host.volume_at(volume, open.incarnation).is_none() {
        return ;
    }
    let ghost was = host.volumes@;
    if let Some(mut state) = host.volumes.remove(&volume) {
        end_fill(&mut state, open.fault.page as u64);
        host.volumes.insert(volume, state);
        proof {
            assert(was.remove(volume).insert(volume, state) =~= was.insert(volume, state));
        }
    }
}

/// How a fault goes on once its slot is empty.
pub open spec fn goes_on_with_slot(
    before: HostState,
    after: HostState,
    open: OpenFault,
    plan: FillPlan,
    step: FaultStep,
) -> bool {
    let volume = open.fault.volume;
    let here = current(before, volume, open.incarnation);
    match plan {
        FillPlan::Ready { entry: Some(entry), source, .. } => after == before && step
            == (FaultStep::Fetch { entry, source }),
        FillPlan::Ready { entry: None, .. } => {
            &&& step == (if here {
                FaultStep::FillZero
            } else {
                FaultStep::Done
            })
            &&& zero_filled(
                before,
                after,
                volume,
                open.incarnation,
                open.fault.page as u64,
                open.fault.write,
                here,
            )
        },
        FillPlan::Shared { share, .. } => {
            &&& step == (if !here {
                FaultStep::Done
            } else if open.fault.write_protected {
                FaultStep::UnprotectCopy
            } else {
                FaultStep::FillShared { share, fetched: false }
            })
            &&& shared_filled(
                before,
                after,
                volume,
                open.incarnation,
                open.fault.page as u64,
                open.fault.write,
                open.fault.write_protected,
                here,
            )
        },
        _ => false,
    }
}

/// What follows once the slot is empty.
pub fn slot_prepared(host: &mut HostState, open: OpenFault, plan: FillPlan) -> (step: FaultStep)
    requires
        can_dirty(*old(host), open.fault.volume),
        plan is Ready || plan is Shared,
    ensures
        goes_on_with_slot(*old(host), *final(host), open, plan, step),
        follows(*old(host), *final(host)),
{
    let volume: u64 = open.fault.volume;
    let page: u64 = open.fault.page as u64;
    match plan {
        FillPlan::Ready { entry: Some(entry), source, .. } => FaultStep::Fetch { entry, source },
        FillPlan::Ready { entry: None, .. } => {
            if finish_zero_fill(host, volume, open.incarnation, page, open.fault.write) {
                FaultStep::FillZero
            } else {
                FaultStep::Done
            }
        },
        FillPlan::Shared { share, .. } => {
            if !finish_shared_fill(
                host,
                volume,
                open.incarnation,
                page,
                open.fault.write,
                open.fault.write_protected,
            ) {
                FaultStep::Done
            } else if open.fault.write_protected {
                FaultStep::UnprotectCopy
            } else {
                FaultStep::FillShared { share, fetched: false }
            }
        },
        _ => FaultStep::Done,
    }
}

/// How a fault goes on once the page was fetched.
pub open spec fn goes_on_fetched(
    before: HostState,
    after: HostState,
    open: OpenFault,
    entry: PageEntry,
    contribution: u64,
    step: FaultStep,
) -> bool {
    let outcome = fetch_outcome(
        before,
        open.fault.volume,
        open.incarnation,
        open.fault.page as u64,
        entry,
        open.fault.write,
    );
    if outcome is Moved {
        step is Begin && fill_ended(before, after, open)
    } else {
        &&& step == (match outcome {
            FetchOutcome::Shared(share) => FaultStep::FillShared { share, fetched: true },
            FetchOutcome::Filled => FaultStep::Fill,
            _ => FaultStep::Done,
        })
        &&& fetch_finished(
            before,
            after,
            open.fault.volume,
            open.incarnation,
            open.fault.page,
            entry,
            open.fault.write,
            contribution,
            outcome,
        )
    }
}

/// What follows once the page was fetched, with what its content adds to the
/// checksum of the state, or could not be. A page that has moved meanwhile is
/// looked at again.
pub fn page_fetched(
    host: &mut HostState,
    open: OpenFault,
    entry: PageEntry,
    contribution: Option<u64>,
) -> (step: FaultStep)
    requires
        can_dirty(*old(host), open.fault.volume),
    ensures
        match contribution {
            Some(sum) => goes_on_fetched(*old(host), *final(host), open, entry, sum, step),
            None => if moved_since(
                *old(host),
                open.fault.volume,
                open.incarnation,
                open.fault.page as u64,
                entry,
            ) {
                step is Begin && fill_ended(*old(host), *final(host), open)
            } else {
                step is Reject && unservable(*old(host), *final(host))
            },
        },
        follows(*old(host), *final(host)),
{
    let volume: u64 = open.fault.volume;
    match contribution {
        None => {
            if fail_fetch(host, volume, open.incarnation, open.fault.page as u64, entry) {
                end_page(host, open);
                FaultStep::Begin
            } else {
                FaultStep::Reject
            }
        },
        Some(sum) => match finish_fetch(
            host,
            volume,
            open.incarnation,
            open.fault.page,
            entry,
            open.fault.write,
            sum,
        ) {
            FetchOutcome::Gone => FaultStep::Done,
            FetchOutcome::Moved => {
                end_page(host, open);
                FaultStep::Begin
            },
            FetchOutcome::Filled => FaultStep::Fill,
            FetchOutcome::Shared(share) => FaultStep::FillShared { share, fetched: true },
        },
    }
}

/// A page that has moved since its fetch began is never filled with what was
/// fetched.
pub proof fn stale_content_is_not_used(
    before: HostState,
    after: HostState,
    open: OpenFault,
    entry: PageEntry,
    contribution: u64,
    step: FaultStep,
)
    requires
        goes_on_fetched(before, after, open, entry, contribution, step),
        step is Fill || step is FillShared,
    ensures
        current(before, open.fault.volume, open.incarnation),
        location(before.volumes@[open.fault.volume], open.fault.page as u64) == Some(
            entry,
        ),
{
}

/// A page that was never written is served as zeroes, without a fetch.
pub proof fn unwritten_pages_are_zero(
    before: HostState,
    open: OpenFault,
    slot_free: bool,
    plan: FillPlan,
    later: HostState,
    after: HostState,
    step: FaultStep,
)
    requires
        current(before, open.fault.volume, open.incarnation),
        !before.volumes@[open.fault.volume].page_locs@.contains_key(open.fault.page as u64),
        plan == fill_plan(
            before,
            open.fault.volume,
            open.incarnation,
            open.fault.page as u64,
            open.fault.write,
            open.fault.write_protected,
            slot_free,
        ),
        plan is Ready || plan is Shared,
        goes_on_with_slot(later, after, open, plan, step),
        current(later, open.fault.volume, open.incarnation),
    ensures
        step is FillZero,
{
}

} // verus!
