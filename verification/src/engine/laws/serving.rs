//! What the course of a fault is for: whichever way it takes, a write that is let
//! through is counted and its page dirty, and a page shows what was there.

use super::super::archive::footer_of;
use super::super::fault::FillPlan;
use super::super::serving::{
    begins, fill_ended, fill_step, footer_taken, goes_on_fetched, goes_on_with_slot, looks_up,
    page_saved_for, turned_away, FaultStep, OpenFault,
};
use super::super::state::HostState;
use super::super::volume::PageEntry;
use super::archive::a_page_is_resolved_once_all_footers_are_there;
use super::fault::{
    a_write_to_a_fetched_page_counts, a_write_to_a_resident_page_counts,
    a_write_to_a_shared_page_counts, a_write_to_an_empty_page_counts,
};
use crate::objects::{BlxFooter, ObjectRef};
use vstd::prelude::*;

verus! {

/// How a fault on a resident page is served. A mapping that is gone comes back as it
/// was. A write to a page that a capture has not read yet has it saved first. Any
/// other write is let through, and then the page is dirty and the write counted; a
/// read needs nothing.
pub proof fn a_fault_on_a_resident_page(
    before: HostState,
    after: HostState,
    open: OpenFault,
    step: FaultStep,
)
    requires
        begins(before, after, open, step),
        before.volumes@.contains_key(open.fault.volume),
        before.volumes@[open.fault.volume].incarnation == open.incarnation,
        before.volumes@[open.fault.volume].ready,
        before.volumes@[open.fault.volume].pages@.contains_key(open.fault.page as u64),
        before.volumes@[open.fault.volume].mutation_seq < u64::MAX,
        before.volumes@[open.fault.volume].pages_dirtied < u64::MAX,
        before.counters.wp_faults < u64::MAX,
        before.counters.guest_pages_dirtied < u64::MAX,
    ensures
        ({
            let was = before.volumes@[open.fault.volume];
            let now = after.volumes@[open.fault.volume];
            let page = open.fault.page as u64;
            let unread = was.operations.drain is Some
                && was.operations.drain->0.unread@.contains_key(page);
            let fault = open.fault;
            &&& fault.minor ==> after == before && step == (FaultStep::Remap {
                writable: was.pages@[page].dirty,
            })
            &&& !fault.minor && fault.write && unread ==> step is Save && after == before
            &&& !fault.minor && fault.write && !unread ==> {
                &&& step is Unprotect
                &&& now.pages@.contains_key(page)
                &&& now.pages@[page].dirty
                &&& was.pages@[page].dirty ==> now.mutation_seq == was.mutation_seq
                &&& !was.pages@[page].dirty ==> now.mutation_seq == was.mutation_seq + 1
            }
            &&& !fault.minor && !fault.write ==> step is Done && after == before
        }),
{
    let volume = open.fault.volume;
    let page = open.fault.page as u64;
    let other = if page == 0 {
        1u64
    } else {
        0
    };
    let elsewhere = if volume == 0 {
        1u64
    } else {
        0
    };
    let unread = before.volumes@[volume].operations.drain is Some
        && before.volumes@[volume].operations.drain->0.unread@.contains_key(page);
    if !open.fault.minor && open.fault.write && !unread {
        a_write_to_a_resident_page_counts(
            before,
            after,
            volume,
            open.incarnation,
            page,
            step is Unprotect,
            other,
            elsewhere,
        );
    }
}

/// How a fault on a page that is not resident goes on: once its archived location is
/// known. Footers that are still needed are loaded first, and a volume that was
/// replaced or closed meanwhile serves no fault.
pub proof fn a_fault_on_an_absent_page(
    before: HostState,
    after: HostState,
    open: OpenFault,
    step: FaultStep,
)
    requires
        begins(before, after, open, step) && !before.volumes@[open.fault.volume].pages@.contains_key(
            open.fault.page as u64,
        ) || looks_up(before, after, open, step),
        before.counters.faults_unservable < u64::MAX,
    ensures
        ({
            let volume = open.fault.volume;
            let was = before.volumes@[volume];
            let page = open.fault.page as u64;
            let open_here = before.volumes@.contains_key(volume) && was.incarnation
                == open.incarnation && was.ready;
            let known = was.page_locs@.contains_key(page) || was.archive_resolved@.contains(page);
            &&& !open_here ==> step is Reject && after.counters.faults_unservable
                == before.counters.faults_unservable + 1 && after.volumes == before.volumes
            &&& open_here && known ==> step is Begin && after == before
            &&& open_here && !known ==> step is Begin || step is Footer
            &&& open_here && step is Begin && !known
                ==> after.volumes@[volume].archive_resolved@.contains(page)
            &&& open_here && step is Footer ==> after == before
            &&& open_here ==> after.volumes@[volume].pages == was.pages
                && after.volumes@[volume].mutation_seq == was.mutation_seq
        }),
{
    if before.volumes@.contains_key(open.fault.volume) {
        a_page_is_resolved_once_all_footers_are_there(
            before.volumes@[open.fault.volume],
            open.fault.page,
        );
    }
}

/// A page that is brought in for a fault: zeros where nothing was ever written, what
/// is fetched where something was, the shared page where it is shared. A write
/// leaves it dirty and is counted.
pub proof fn a_page_is_brought_in_for_a_fault(
    before: HostState,
    after: HostState,
    open: OpenFault,
    plan: FillPlan,
    step: FaultStep,
)
    requires
        goes_on_with_slot(before, after, open, plan, step),
        before.volumes@.contains_key(open.fault.volume),
        before.volumes@[open.fault.volume].mutation_seq < u64::MAX,
        before.volumes@[open.fault.volume].pages_dirtied < u64::MAX,
        before.volumes@[open.fault.volume].fills < u64::MAX,
        before.counters.wp_faults < u64::MAX,
        before.counters.zero_fills < u64::MAX,
        before.counters.shared_fills < u64::MAX,
        before.counters.guest_pages_dirtied < u64::MAX,
    ensures
        ({
            let was = before.volumes@[open.fault.volume];
            let now = after.volumes@[open.fault.volume];
            let page = open.fault.page as u64;
            let here = was.incarnation == open.incarnation && was.ready;
            let filled = step is FillZero || step is FillShared || step is UnprotectCopy;
            &&& match plan {
                FillPlan::Ready { entry: Some(entry), source, .. } => step == (FaultStep::Fetch {
                    entry,
                    source,
                }) && after == before,
                FillPlan::Ready { entry: None, .. } => (here <==> step is FillZero) && (!here
                    <==> step is Done),
                FillPlan::Shared { share, .. } => {
                    &&& !here <==> step is Done
                    &&& here && open.fault.write_protected <==> step is UnprotectCopy
                    &&& here && !open.fault.write_protected ==> step == (FaultStep::FillShared {
                        share,
                        fetched: false,
                    })
                },
                _ => false,
            }
            &&& filled && open.fault.write ==> {
                &&& now.pages@.contains_key(page)
                &&& now.pages@[page].dirty
                &&& now.mutation_seq == was.mutation_seq + 1
                &&& now.pages_dirtied == was.pages_dirtied + 1
            }
            &&& !open.fault.write ==> now.mutation_seq == was.mutation_seq
            &&& step is FillZero && !open.fault.write ==> now.pages@.contains_key(page)
                && !now.pages@[page].dirty
            &&& now.page_locs == was.page_locs
        }),
{
    let volume = open.fault.volume;
    let page = open.fault.page as u64;
    let other = if page == 0 {
        1u64
    } else {
        0
    };
    let elsewhere = if volume == 0 {
        1u64
    } else {
        0
    };
    let was = before.volumes@[volume];
    let here = was.incarnation == open.incarnation && was.ready;
    match plan {
        FillPlan::Ready { entry: None, .. } => {
            a_write_to_an_empty_page_counts(
                before,
                after,
                volume,
                open.incarnation,
                page,
                open.fault.write,
                here,
                other,
                elsewhere,
            );
        },
        FillPlan::Shared { .. } => {
            a_write_to_a_shared_page_counts(
                before,
                after,
                volume,
                open.incarnation,
                page,
                open.fault.write,
                open.fault.write_protected,
                here,
                other,
                elsewhere,
            );
        },
        _ => {},
    }
}

/// A page whose content was fetched for a fault is filled with it if the page still
/// lies there, and looked up again if it has moved. A write leaves it dirty and is
/// counted.
pub proof fn a_fetched_page_serves_its_fault(
    before: HostState,
    after: HostState,
    open: OpenFault,
    entry: PageEntry,
    contribution: u64,
    step: FaultStep,
)
    requires
        goes_on_fetched(before, after, open, entry, contribution, step),
        before.volumes@.contains_key(open.fault.volume),
        before.volumes@[open.fault.volume].mutation_seq < u64::MAX,
        before.volumes@[open.fault.volume].pages_dirtied < u64::MAX,
        before.volumes@[open.fault.volume].fills < u64::MAX,
        before.counters.fills < u64::MAX,
        before.counters.shared_fills < u64::MAX,
        before.counters.guest_pages_dirtied < u64::MAX,
    ensures
        ({
            let was = before.volumes@[open.fault.volume];
            let now = after.volumes@[open.fault.volume];
            let page = open.fault.page as u64;
            let here = was.incarnation == open.incarnation && was.ready;
            let there = was.page_locs@.contains_key(page) && was.page_locs@[page] == entry;
            let share = entry.loc.base != 0 && !open.fault.write;
            &&& !here <==> step is Done
            &&& here && !there <==> step is Begin
            &&& here && there && !share <==> step is Fill
            &&& here && there && share ==> match step {
                FaultStep::FillShared { share: key, fetched } => fetched && key.base
                    == entry.loc.base && key.fence == entry.loc.fence && key.object
                    == entry.loc.object && key.offset == entry.loc.offset,
                _ => false,
            }
            &&& step is Fill ==> {
                &&& now.pages@.contains_key(page)
                &&& now.pages@[page].dirty == open.fault.write
                &&& open.fault.write ==> now.mutation_seq == was.mutation_seq + 1
                &&& open.fault.write ==> now.pages_dirtied == was.pages_dirtied + 1
                &&& !open.fault.write ==> now.mutation_seq == was.mutation_seq
            }
            &&& step is Begin ==> !now.filling@.contains(page) && now.pages == was.pages
                && now.mutation_seq == was.mutation_seq
            &&& now.page_locs == was.page_locs
        }),
{
    let volume = open.fault.volume;
    let page = open.fault.page as u64;
    let other = if page == 0 {
        1u64
    } else {
        0
    };
    let elsewhere = if volume == 0 {
        1u64
    } else {
        0
    };
    let was = before.volumes@[volume];
    let here = was.incarnation == open.incarnation && was.ready;
    let there = was.page_locs@.contains_key(page) && was.page_locs@[page] == entry;
    if !(here && !there) {
        let outcome = super::super::fault::fetch_outcome(
            before,
            volume,
            open.incarnation,
            page,
            entry,
            open.fault.write,
        );
        a_write_to_a_fetched_page_counts(
            before,
            after,
            volume,
            open.incarnation,
            open.fault.page,
            entry,
            open.fault.write,
            contribution,
            outcome,
            other,
            elsewhere,
        );
    }
}

/// Which step a plan to bring a page in leads to.
pub proof fn a_plan_leads_to_its_step(plan: FillPlan)
    ensures
        plan is Gone <==> fill_step(plan) is Done,
        plan is Filling <==> fill_step(plan) is WaitForPage,
        plan is InvalidWriteProtect <==> fill_step(plan) is Reject,
        plan is Wait <==> fill_step(plan) is WaitForSlot,
        plan is Shared || plan is Ready <==> fill_step(plan) is Prepare,
        plan is Shared || plan is Ready ==> fill_step(plan) == FaultStep::Prepare(plan),
{
}

/// A page that is brought in, or not, is free for the next fault; other pages that
/// are being brought in are not disturbed.
pub proof fn a_served_page_is_free_again(
    before: HostState,
    after: HostState,
    open: OpenFault,
    other: u64,
)
    requires
        fill_ended(before, after, open),
        before.volumes@.contains_key(open.fault.volume),
        before.volumes@[open.fault.volume].incarnation == open.incarnation,
        other != open.fault.page,
    ensures
        !after.volumes@[open.fault.volume].filling@.contains(open.fault.page as u64),
        after.volumes@[open.fault.volume].filling@.contains(other)
            == before.volumes@[open.fault.volume].filling@.contains(other),
        after.volumes@[open.fault.volume].pages == before.volumes@[open.fault.volume].pages,
{
}

/// A page is saved for the capture under way before its write goes through, once, and
/// that is counted.
pub proof fn a_page_is_saved_before_its_write(
    before: HostState,
    after: HostState,
    open: OpenFault,
    bytes: Vec<u8>,
)
    requires
        page_saved_for(before, after, open, bytes),
        before.volumes@[open.fault.volume].operations.drain is Some,
        before.volumes@[open.fault.volume].operations.drain->0.unread@.contains_key(
            open.fault.page as u64,
        ),
        before.counters.cow_captures < u64::MAX,
    ensures
        ({
            let was = before.volumes@[open.fault.volume].operations.drain->0;
            let now = after.volumes@[open.fault.volume].operations.drain->0;
            let page = open.fault.page as u64;
            &&& after.volumes@[open.fault.volume].operations.drain is Some
            &&& !now.unread@.contains_key(page)
            &&& now.copied@.contains_key(page)
            &&& now.copied@[page].generation == was.unread@[page]
            &&& now.copied@[page].bytes == bytes
            &&& !was.copied@.contains_key(page) ==> after.counters.cow_captures
                == before.counters.cow_captures + 1
            &&& after.volumes@[open.fault.volume].pages == before.volumes@[open.fault.volume].pages
        }),
{
}

/// A footer that is loaded for a fault changes nothing but what is known of its
/// object; a guest that is turned away is counted.
pub proof fn loading_a_footer_changes_no_page(
    before: HostState,
    after: HostState,
    volume: u64,
    object: ObjectRef,
    footer: BlxFooter,
    refused: HostState,
)
    requires
        footer_taken(before, after, volume, object, footer),
        turned_away(before, refused),
        before.counters.guest_rejected < u64::MAX,
    ensures
        after.volumes@[volume].pages == before.volumes@[volume].pages,
        after.volumes@[volume].page_locs == before.volumes@[volume].page_locs,
        after.volumes@[volume].mutation_seq == before.volumes@[volume].mutation_seq,
        refused.counters.guest_rejected == before.counters.guest_rejected + 1,
        refused.volumes == before.volumes,
{
}

/// A footer is taken for a fault only if it is its object's own, and then it is known.
pub proof fn only_an_own_footer_is_taken(
    before: HostState,
    after: HostState,
    volume: u64,
    object: ObjectRef,
    footer: BlxFooter,
)
    requires
        footer_taken(before, after, volume, object, footer),
    ensures
        footer.entries@.len() > 0,
        footer.entries@[0].key == object.first_key,
        before.volumes@[volume].archive_objects@.contains(object) ==> footer_of(
            after.volumes@[volume].archive_footers@,
            object.identity,
        ) == Some(footer),
        after == (HostState { volumes: after.volumes, ..before }),
        after.volumes@ == before.volumes@.insert(volume, after.volumes@[volume]),
{
}

} // verus!
