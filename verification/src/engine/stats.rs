//! Figures for operators.

use super::capture::contains_name;
use super::maps::{lists_keys, sorted_keys};
use super::state::HostState;
use super::volume::{LocalFile, PageState, VolumeState};
use crate::arith::sat_add;
use crate::objects::ObjectIdentity;
use std::collections::BTreeMap;
use vstd::prelude::*;

verus! {

broadcast use vstd::std_specs::btree::group_btree_axioms;

#[derive(Clone, Copy, PartialEq, Eq, Debug, Structural)]
pub enum VolumeRole {
    /// Not open yet.
    Recovering,
    Serving,
    /// Being handed to another host.
    Outbound,
}

#[derive(Clone, Copy, PartialEq, Eq, Debug, Structural)]
pub struct VolumeStats {
    pub role: VolumeRole,
    pub resident_pages: u64,
    pub dirty_pages: u64,
    /// Dirty, or captured and not yet in a file.
    pub unstable_pages: u64,
    /// Bytes in files that the archive does not have; unknown without a head.
    pub archive_lag_bytes: Option<u64>,
}

/// How many of the listed pages are dirty.
pub open spec fn dirty_count(pages: Map<u64, PageState>, keys: Seq<u64>) -> nat
    decreases keys.len(),
{
    if keys.len() == 0 {
        0
    } else {
        dirty_count(pages, keys.drop_last()) + if pages[keys.last()].dirty {
            1nat
        } else {
            0
        }
    }
}

pub open spec fn unstable_count(pages: Map<u64, PageState>, keys: Seq<u64>) -> nat
    decreases keys.len(),
{
    if keys.len() == 0 {
        0
    } else {
        let page = pages[keys.last()];
        unstable_count(pages, keys.drop_last()) + if page.dirty || page.flushing {
            1nat
        } else {
            0
        }
    }
}

/// Bytes in files that are not in `backed`.
pub open spec fn unarchived_bytes(files: Seq<LocalFile>, backed: Seq<ObjectIdentity>) -> nat
    decreases files.len(),
{
    if files.len() == 0 {
        0
    } else {
        unarchived_bytes(files.drop_last(), backed) + if backed.contains(files.last().identity) {
            0nat
        } else {
            files.last().bytes as nat
        }
    }
}

fn count_pages(pages: &BTreeMap<u64, PageState>) -> (counts: (u64, u64, u64))
    ensures
        exists|keys: Seq<u64>|
            {
                &&& #[trigger] lists_keys(keys, pages@)
                &&& counts.0 == keys.len()
                &&& counts.1 == dirty_count(pages@, keys)
                &&& counts.2 == unstable_count(pages@, keys)
            },
{
    let keys: Vec<u64> = sorted_keys(pages);
    let count: usize = keys.len();
    let mut dirty: u64 = 0;
    let mut unstable: u64 = 0;
    let mut i: usize = 0;
    while i < keys.len()
        invariant
            i <= keys@.len(),
            count == keys@.len(),
            lists_keys(keys@, pages@),
            dirty <= i,
            unstable <= i,
            dirty == dirty_count(pages@, keys@.take(i as int)),
            unstable == unstable_count(pages@, keys@.take(i as int)),
        decreases keys@.len() - i,
    {
        proof {
            assert(keys@.take(i + 1).drop_last() =~= keys@.take(i as int));
            assert(keys@.contains(keys@[i as int]));
        }
        if let Some(page) = pages.get(&keys[i]) {
            if page.dirty {
                dirty = dirty + 1;
            }
            if page.dirty || page.flushing {
                unstable = unstable + 1;
            }
        }
        i = i + 1;
    }
    proof {
        assert(keys@.take(i as int) =~= keys@);
    }
    (count as u64, dirty, unstable)
}

fn lag_bytes(files: &Vec<LocalFile>, backed: &Vec<ObjectIdentity>) -> (bytes: u64)
    ensures
        bytes == (if unarchived_bytes(files@, backed@) <= u64::MAX {
            unarchived_bytes(files@, backed@) as u64
        } else {
            u64::MAX
        }),
{
    let mut bytes: u64 = 0;
    let mut i: usize = 0;
    while i < files.len()
        invariant
            i <= files@.len(),
            bytes == (if unarchived_bytes(files@.take(i as int), backed@) <= u64::MAX {
                unarchived_bytes(files@.take(i as int), backed@) as u64
            } else {
                u64::MAX
            }),
        decreases files@.len() - i,
    {
        proof {
            assert(files@.take(i + 1).drop_last() =~= files@.take(i as int));
        }
        if !contains_name(backed, files[i].identity) {
            bytes = bytes.saturating_add(files[i].bytes);
        }
        i = i + 1;
    }
    proof {
        assert(files@.take(i as int) =~= files@);
    }
    bytes
}

/// Figures of one volume.
pub fn volume_stats(state: &VolumeState) -> (stats: VolumeStats)
    ensures
        describes_volume(stats, *state),
{
    let role = if state.outbound {
        VolumeRole::Outbound
    } else if state.ready {
        VolumeRole::Serving
    } else {
        VolumeRole::Recovering
    };
    let counts = count_pages(&state.pages);
    let archive_lag_bytes: Option<u64> = match state.head_version {
        Some(_) => Some(lag_bytes(&state.files, &state.backed_files)),
        None => None,
    };
    VolumeStats {
        role,
        resident_pages: counts.0,
        dirty_pages: counts.1,
        unstable_pages: counts.2,
        archive_lag_bytes,
    }
}

pub struct HostStats {
    pub cache_capacity_pages: u64,
    pub resident_pages: u64,
    pub dirty_pages: u64,
    /// Figures by volume, in order.
    pub volumes: Vec<(u64, VolumeStats)>,
}

/// `stats` are figures of `state`.
pub open spec fn describes_volume(stats: VolumeStats, state: VolumeState) -> bool {
    &&& stats.role == (if state.outbound {
        VolumeRole::Outbound
    } else if state.ready {
        VolumeRole::Serving
    } else {
        VolumeRole::Recovering
    })
    &&& exists|keys: Seq<u64>|
        {
            &&& #[trigger] lists_keys(keys, state.pages@)
            &&& stats.resident_pages == keys.len()
            &&& stats.dirty_pages == dirty_count(state.pages@, keys)
            &&& stats.unstable_pages == unstable_count(state.pages@, keys)
        }
    &&& stats.archive_lag_bytes == (if state.head_version is Some {
        let bytes = unarchived_bytes(state.files@, state.backed_files@);
        Some(
            if bytes <= u64::MAX {
                bytes as u64
            } else {
                u64::MAX
            },
        )
    } else {
        None
    })
}

/// Sum of a figure over the volumes, as far as it can be counted.
pub open spec fn summed(volumes: Seq<(u64, VolumeStats)>, dirty: bool) -> u64
    decreases volumes.len(),
{
    if volumes.len() == 0 {
        0
    } else {
        let more = if dirty {
            volumes.last().1.dirty_pages
        } else {
            volumes.last().1.resident_pages
        };
        sat_add(summed(volumes.drop_last(), dirty), more)
    }
}

/// Figures of a host and all its volumes.
pub fn host_stats(host: &HostState, cache_capacity_pages: u64) -> (stats: HostStats)
    ensures
        stats.cache_capacity_pages == cache_capacity_pages,
        stats.resident_pages == summed(stats.volumes@, false),
        stats.dirty_pages == summed(stats.volumes@, true),
        lists_keys(stats.volumes@.map_values(|v: (u64, VolumeStats)| v.0), host.volumes@),
        forall|i: int|
            0 <= i < stats.volumes@.len() ==> describes_volume(
                (#[trigger] stats.volumes@[i]).1,
                host.volumes@[stats.volumes@[i].0],
            ),
{
    let keys: Vec<u64> = sorted_keys(&host.volumes);
    let mut volumes: Vec<(u64, VolumeStats)> = Vec::new();
    let mut resident_pages: u64 = 0;
    let mut dirty_pages: u64 = 0;
    let mut i: usize = 0;
    while i < keys.len()
        invariant
            i <= keys@.len(),
            lists_keys(keys@, host.volumes@),
            volumes@.len() == i,
            forall|a: int| 0 <= a < i ==> (#[trigger] volumes@[a]).0 == keys@[a],
            forall|a: int|
                0 <= a < i ==> describes_volume(
                    (#[trigger] volumes@[a]).1,
                    host.volumes@[volumes@[a].0],
                ),
            resident_pages == summed(volumes@, false),
            dirty_pages == summed(volumes@, true),
        decreases keys@.len() - i,
    {
        let key: u64 = keys[i];
        proof {
            assert(keys@.contains(keys@[i as int]));
        }
        match host.volumes.get(&key) {
            Some(state) => {
                let ghost before = volumes@;
                let figures = volume_stats(state);
                volumes.push((key, figures));
                proof {
                    assert(volumes@.drop_last() =~= before);
                }
                resident_pages = resident_pages.saturating_add(figures.resident_pages);
                dirty_pages = dirty_pages.saturating_add(figures.dirty_pages);
            },
            None => {
                return HostStats { cache_capacity_pages, resident_pages, dirty_pages, volumes };
            },
        }
        i = i + 1;
    }
    proof {
        assert(volumes@.map_values(|v: (u64, VolumeStats)| v.0) =~= keys@);
    }
    HostStats { cache_capacity_pages, resident_pages, dirty_pages, volumes }
}

} // verus!
