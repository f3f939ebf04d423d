//! What a vset is, and the record of one committed state of it.

use crate::types::{HostId, PageId, VsetId};
use std::collections::BTreeMap;
use vstd::prelude::*;

verus! {

/// Bytes in one page.
pub const PAGE_SIZE: usize = 4096;

/// Page keys covered by one leaf of the page map.
pub const LEAF_SPAN: u64 = 1024;

#[derive(Clone, Copy, PartialEq, Eq, Debug, Structural)]
pub enum VsetKind {
    /// The three files of a `SQLite` database.
    Database,
    /// One data volume.
    Data,
}

#[derive(Clone, Copy, PartialEq, Eq, Debug, Structural)]
pub struct VsetConfig {
    pub kind: VsetKind,
    pub volumes: u8,
    pub pages_per_volume: u32,
}

impl VsetConfig {
    pub fn database(pages_per_volume: u32) -> (config: VsetConfig)
        ensures
            config == (VsetConfig { kind: VsetKind::Database, volumes: 3, pages_per_volume }),
    {
        VsetConfig { kind: VsetKind::Database, volumes: 3, pages_per_volume }
    }

    pub fn data(pages_per_volume: u32) -> (config: VsetConfig)
        ensures
            config == (VsetConfig { kind: VsetKind::Data, volumes: 1, pages_per_volume }),
    {
        VsetConfig { kind: VsetKind::Data, volumes: 1, pages_per_volume }
    }

    pub open spec fn contains_spec(self, page: PageId) -> bool {
        page.volume.idx.0 < self.volumes && page.page.0 < self.pages_per_volume
    }

    /// Whether `page` is one of the vset's pages.
    #[verifier::when_used_as_spec(contains_spec)]
    pub fn contains(self, page: PageId) -> (inside: bool)
        ensures
            inside == self.contains_spec(page),
    {
        page.volume.idx.0 < self.volumes && page.page.0 < self.pages_per_volume
    }
}

pub open spec fn page_key_spec(page: PageId) -> u64 {
    (page.volume.idx.0 * 0x1_0000_0000 + page.page.0) as u64
}

/// A page's position in its vset's page map.
#[verifier::when_used_as_spec(page_key_spec)]
pub fn page_key(page: PageId) -> (key: u64)
    ensures
        key == page_key_spec(page),
        key == page.volume.idx.0 * 0x1_0000_0000 + page.page.0,
{
    page.volume.idx.0 as u64 * 0x1_0000_0000 + page.page.0 as u64
}

/// Pages of one vset have different keys.
pub proof fn page_keys_are_distinct(a: PageId, b: PageId)
    requires
        a.volume.vset == b.volume.vset,
        page_key(a) == page_key(b),
    ensures
        a == b,
{
    assert(a.volume.idx.0 == b.volume.idx.0 && a.page.0 == b.page.0);
}

pub open spec fn key_volume_spec(key: u64) -> u64 {
    key / 0x1_0000_0000
}

pub open spec fn key_page_spec(key: u64) -> u64 {
    key % 0x1_0000_0000
}

pub open spec fn key_span_spec(key: u64) -> u64 {
    key / LEAF_SPAN
}

/// The volume a key belongs to.
#[verifier::when_used_as_spec(key_volume_spec)]
pub fn key_volume(key: u64) -> (idx: u64)
    ensures
        idx == key_volume_spec(key),
{
    key / 0x1_0000_0000
}

/// The page number of a key inside its volume.
#[verifier::when_used_as_spec(key_page_spec)]
pub fn key_page(key: u64) -> (page: u64)
    ensures
        page == key_page_spec(key),
{
    key % 0x1_0000_0000
}

/// The leaf of the page map that covers a key.
#[verifier::when_used_as_spec(key_span_spec)]
pub fn key_span(key: u64) -> (span: u64)
    ensures
        span == key_span_spec(key),
{
    key / LEAF_SPAN
}

/// The leaf of the page map that covers `page`.
pub fn span_of(page: PageId) -> (span: u64)
    ensures
        span == key_span(page_key(page)),
{
    key_span(page_key(page))
}

/// Where the newest durable copy of a page is. Base zero is the vset itself.
#[derive(Clone, Copy, PartialEq, Eq, Debug, Structural)]
pub struct PageLoc {
    pub base: u64,
    pub generation: u64,
    pub fence: u64,
    pub segment: u64,
    pub slot: u32,
}

/// A leaf of the page map, by the writer and number it was written under. Base
/// zero is the vset itself.
#[derive(Clone, Copy, PartialEq, Eq, Debug, Structural)]
pub struct LeafPointer {
    pub base: u64,
    pub fence: u64,
    pub id: u64,
}

#[derive(Clone, Copy, PartialEq, Eq, Debug, Structural)]
pub struct DatabaseFileMeta {
    pub exists: bool,
    pub size: u64,
}

/// Existence and size of the three files of a database vset.
#[derive(Clone, Copy, PartialEq, Eq, Debug, Structural)]
pub struct DatabaseMeta {
    pub main: DatabaseFileMeta,
    pub wal: DatabaseFileMeta,
    pub journal: DatabaseFileMeta,
}

impl DatabaseMeta {
    /// No file exists.
    pub open spec fn absent() -> DatabaseMeta {
        let none = DatabaseFileMeta { exists: false, size: 0 };
        DatabaseMeta { main: none, wal: none, journal: none }
    }
}

impl Default for DatabaseMeta {
    fn default() -> (meta: DatabaseMeta)
        ensures
            meta == DatabaseMeta::absent(),
    {
        let none = DatabaseFileMeta { exists: false, size: 0 };
        DatabaseMeta { main: none, wal: none, journal: none }
    }
}

#[derive(Clone, Copy, PartialEq, Eq, Debug, Structural)]
pub enum RecordKind {
    Commit,
    Checkpoint,
}

/// Where a vset came from when it moved here from another host.
#[derive(Clone, Copy, PartialEq, Eq, Debug, Structural)]
pub struct MigrationSource {
    pub host: HostId,
    pub offer_fence: u64,
}

/// One committed state of a vset.
pub struct JournalRecord {
    pub config: VsetConfig,
    pub seq: u64,
    pub fence: u64,
    pub kind: RecordKind,
    /// Number of the last guest mutation the record holds.
    pub capture_seq: u64,
    /// Number of the last synchronisation the record makes durable.
    pub sync_covered_through: u64,
    pub database: DatabaseMeta,
    pub overlay: BTreeMap<u64, PageLoc>,
    pub leaves: BTreeMap<u64, LeafPointer>,
    pub migrated_from: Option<MigrationSource>,
}

/// A blob on the local device.
#[derive(Clone, Copy, PartialEq, Eq, Debug, Structural)]
pub enum BlobName {
    Segment { vset: VsetId, fence: u64, segment: u64 },
    Leaf { vset: VsetId, fence: u64, leaf: u64 },
    /// One of the copies of a journal record.
    Record { vset: VsetId, fence: u64, seq: u64, copy: u8 },
}

} // verus!
