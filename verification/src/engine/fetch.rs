//! The course of a fetch: from one place to the next until a copy of the page is
//! good. Where to look is decided anew at each place, for keepers and archived
//! files may change while a copy is read.

use super::fault::{
    fetch_sources, fetch_sources_spec, verify_entry, ArchiveName, FetchSources, OpenedEntry,
    ReplicaSource,
};
use super::state::HostState;
use super::volume::PageEntry;
use crate::types::HostId;
use vstd::prelude::*;

verus! {

broadcast use vstd::std_specs::btree::group_btree_axioms;

/// A place where a copy of a page may lie.
#[derive(Clone, Copy, PartialEq, Eq, Debug, Structural)]
pub enum CopyPlace {
    /// The local device.
    Local,
    /// The host the volume came from.
    Peer(HostId),
    /// The host that keeps the volume's newest commits.
    Replica(ReplicaSource),
    Archive(ArchiveName),
}

impl CopyPlace {
    /// How late a place is looked at.
    pub open spec fn rank(self) -> int {
        match self {
            CopyPlace::Local => 0,
            CopyPlace::Peer(_) => 1,
            CopyPlace::Replica(_) => 2,
            CopyPlace::Archive(_) => 3,
        }
    }
}

/// The first place of at least this rank. The archive is always one, and the
/// last.
pub open spec fn place_from(sources: FetchSources, rank: int) -> Option<CopyPlace> {
    if rank <= 0 && sources.local {
        Some(CopyPlace::Local)
    } else if rank <= 1 && sources.peer is Some {
        Some(CopyPlace::Peer(sources.peer->0))
    } else if rank <= 2 && sources.replica is Some {
        Some(CopyPlace::Replica(sources.replica->0))
    } else if rank <= 3 {
        Some(CopyPlace::Archive(sources.archive))
    } else {
        None
    }
}

/// Where a page is looked for. Of a volume that is no longer here only the
/// location itself says so.
pub open spec fn sources_of(
    host: HostState,
    volume: u64,
    entry: PageEntry,
    source: Option<HostId>,
) -> FetchSources {
    if host.volumes@.contains_key(volume) {
        fetch_sources_spec(host.volumes@[volume], volume, entry, source)
    } else {
        FetchSources {
            local: true,
            peer: if entry.loc.base == 0 {
                source
            } else {
                None
            },
            replica: None,
            archive: ArchiveName::File {
                origin: if entry.loc.base == 0 {
                    volume
                } else {
                    entry.loc.base
                },
                fence: entry.loc.fence,
                object: entry.loc.object,
            },
        }
    }
}

pub fn find_sources(host: &HostState, volume: u64, entry: PageEntry, source: Option<HostId>) -> (sources:
    FetchSources)
    ensures
        sources == sources_of(*host, volume, entry, source),
{
    match host.volumes.get(&volume) {
        Some(state) => fetch_sources(state, volume, entry, source),
        None => {
            let own: bool = entry.loc.base == 0;
            let peer: Option<HostId> = if own {
                source
            } else {
                None
            };
            let origin: u64 = if own {
                volume
            } else {
                entry.loc.base
            };
            FetchSources {
                local: true,
                peer,
                replica: None,
                archive: ArchiveName::File {
                    origin,
                    fence: entry.loc.fence,
                    object: entry.loc.object,
                },
            }
        },
    }
}

/// A page that is being fetched.
#[derive(Clone, Copy, PartialEq, Eq, Debug, Structural)]
pub struct FetchJob {
    pub volume: u64,
    pub page: u64,
    pub entry: PageEntry,
    /// The host the volume came from, if pages may still be there only.
    pub source: Option<HostId>,
    /// Where the next copy may lie.
    pub place: CopyPlace,
}

pub enum FetchStep {
    /// Read the copy at the job's place.
    Read(FetchJob),
    /// The page's content, and where it was found.
    Found { bytes: Vec<u8>, place: CopyPlace },
    /// No copy is good.
    Failed,
}

/// Starts to fetch a page: from the first place there is.
pub fn start_fetch(
    host: &HostState,
    volume: u64,
    page: u64,
    entry: PageEntry,
    source: Option<HostId>,
) -> (step: FetchStep)
    ensures
        step == FetchStep::Read(
            FetchJob {
                volume,
                page,
                entry,
                source,
                place: place_from(sources_of(*host, volume, entry, source), 0)->0,
            },
        ),
{
    let sources: FetchSources = find_sources(host, volume, entry, source);
    let place: CopyPlace = if sources.local {
        CopyPlace::Local
    } else if let Some(peer) = sources.peer {
        CopyPlace::Peer(peer)
    } else if let Some(keeper) = sources.replica {
        CopyPlace::Replica(keeper)
    } else {
        CopyPlace::Archive(sources.archive)
    };
    FetchStep::Read(FetchJob { volume, page, entry, source, place })
}

/// What a copy has to hold.
pub open spec fn is_good(job: FetchJob, opened: Option<OpenedEntry>) -> bool {
    match opened {
        Some(found) => found.volume == job.volume && found.page == job.page && found.generation
            == job.entry.generation,
        None => false,
    }
}

/// How a fetch goes on with a copy that was read.
pub open spec fn fetch_step(host: HostState, job: FetchJob, opened: Option<OpenedEntry>) -> FetchStep {
    if is_good(job, opened) {
        FetchStep::Found { bytes: opened->0.bytes, place: job.place }
    } else {
        match place_from(
            sources_of(host, job.volume, job.entry, job.source),
            job.place.rank() + 1,
        ) {
            Some(place) => FetchStep::Read(FetchJob { place, ..job }),
            None => FetchStep::Failed,
        }
    }
}

/// What follows once a copy was read, or could not be. One that holds something
/// else is passed over.
pub fn copy_read(host: &HostState, job: FetchJob, opened: Option<OpenedEntry>) -> (step: FetchStep)
    ensures
        step == fetch_step(*host, job, opened),
{
    if let Some(bytes) = verify_entry(job.volume, job.page, job.entry.generation, opened) {
        return FetchStep::Found { bytes, place: job.place };
    }
    let sources: FetchSources = find_sources(host, job.volume, job.entry, job.source);
    let after: u8 = match job.place {
        CopyPlace::Local => 0,
        CopyPlace::Peer(_) => 1,
        CopyPlace::Replica(_) => 2,
        CopyPlace::Archive(_) => 3,
    };
    if after < 1 {
        if let Some(peer) = sources.peer {
            return FetchStep::Read(FetchJob { place: CopyPlace::Peer(peer), ..job });
        }
    }
    if after < 2 {
        if let Some(keeper) = sources.replica {
            return FetchStep::Read(FetchJob { place: CopyPlace::Replica(keeper), ..job });
        }
    }
    if after < 3 {
        return FetchStep::Read(FetchJob { place: CopyPlace::Archive(sources.archive), ..job });
    }
    FetchStep::Failed
}

/// The content that a fetch returns is of the page and generation it was asked
/// for, wherever it comes from; a damaged copy leads on to a later place.
pub proof fn fetched_content_is_of_the_page(
    host: HostState,
    job: FetchJob,
    opened: Option<OpenedEntry>,
)
    ensures
        fetch_step(host, job, opened) matches FetchStep::Found { bytes, place } ==> {
            &&& opened matches Some(found) && found.bytes == bytes
            &&& opened->0.volume == job.volume
            &&& opened->0.page == job.page
            &&& opened->0.generation == job.entry.generation
            &&& place == job.place
        },
        fetch_step(host, job, opened) matches FetchStep::Read(next) ==> {
            &&& next == (FetchJob { place: next.place, ..job })
            &&& job.place.rank() < next.place.rank()
        },
{
}

/// A fetch fails only once the archive's copy was no good, and then it does. Until
/// then no place that there is by now is left out: the host the volume came from,
/// then the keeper, then the archive.
pub proof fn the_archive_is_the_last_resort(
    host: HostState,
    job: FetchJob,
    opened: Option<OpenedEntry>,
)
    requires
        !is_good(job, opened),
    ensures
        ({
            let sources = sources_of(host, job.volume, job.entry, job.source);
            let step = fetch_step(host, job, opened);
            &&& step is Failed <==> job.place is Archive
            &&& step matches FetchStep::Read(next) ==> {
                &&& job.place.rank() < 1 && sources.peer is Some ==> next.place is Peer
                &&& job.place.rank() < 2 && sources.replica is Some ==> next.place.rank() <= 2
                &&& next.place is Peer ==> sources.peer == Some(next.place->Peer_0)
                &&& next.place is Replica ==> sources.replica == Some(next.place->Replica_0)
                &&& next.place is Archive ==> next.place->Archive_0 == sources.archive
            }
        }),
{
}

} // verus!
