//! Manifests: what a node holds and what it knows to be deleted.

use vstd::hash_map::StringHashMap;
use vstd::prelude::*;

use crate::text::contains_text;

verus! {

/// A live file or folder.
#[derive(Debug, Clone)]
pub struct ManifestEntry {
    pub resource_path: String,
    pub resource_kind: String,
    pub checksum: Option<String>,
    pub size: u64,
    pub updated_at: String,
}

/// The contents of a [`ManifestEntry`].
pub struct EntryView {
    pub resource_path: Seq<char>,
    pub resource_kind: Seq<char>,
    pub checksum: Option<Seq<char>>,
    pub size: u64,
    pub updated_at: Seq<char>,
}

impl View for ManifestEntry {
    type V = EntryView;

    open spec fn view(&self) -> EntryView {
        EntryView {
            resource_path: self.resource_path@,
            resource_kind: self.resource_kind@,
            checksum: crate::text::optional_text(self.checksum),
            size: self.size,
            updated_at: self.updated_at@,
        }
    }
}

/// A path that was deleted.
#[derive(Debug, Clone)]
pub struct TombstoneEntry {
    pub resource_path: String,
    pub deleted_at: String,
}

/// The contents of a [`TombstoneEntry`].
pub struct TombstoneView {
    pub resource_path: Seq<char>,
    pub deleted_at: Seq<char>,
}

impl View for TombstoneEntry {
    type V = TombstoneView;

    open spec fn view(&self) -> TombstoneView {
        TombstoneView { resource_path: self.resource_path@, deleted_at: self.deleted_at@ }
    }
}

/// The live resources and the tombstones of a node.
#[derive(Debug, Clone)]
pub struct Manifest {
    pub resources: Vec<ManifestEntry>,
    pub tombstones: Vec<TombstoneEntry>,
}

/// The contents of a [`Manifest`].
pub struct ManifestView {
    pub resources: Seq<EntryView>,
    pub tombstones: Seq<TombstoneView>,
}

/// The contents of a list of entries.
pub open spec fn entry_views(entries: Seq<ManifestEntry>) -> Seq<EntryView> {
    entries.map_values(|e: ManifestEntry| e@)
}

/// The contents of a list of tombstones.
pub open spec fn tombstone_views(tombstones: Seq<TombstoneEntry>) -> Seq<TombstoneView> {
    tombstones.map_values(|t: TombstoneEntry| t@)
}

impl View for Manifest {
    type V = ManifestView;

    open spec fn view(&self) -> ManifestView {
        ManifestView {
            resources: entry_views(self.resources@),
            tombstones: tombstone_views(self.tombstones@),
        }
    }
}

impl Default for Manifest {
    /// The manifest of a node that holds nothing.
    fn default() -> (manifest: Self)
        ensures
            manifest@.resources == Seq::<EntryView>::empty(),
            manifest@.tombstones == Seq::<TombstoneView>::empty(),
    {
        let manifest = Manifest { resources: Vec::new(), tombstones: Vec::new() };
        assert(manifest@.resources == Seq::<EntryView>::empty());
        assert(manifest@.tombstones == Seq::<TombstoneView>::empty());
        manifest
    }
}

// ---------------------------------------------------------------------------
// Assembling a manifest
// ---------------------------------------------------------------------------

/// The name of a file that is still being received.
pub open spec fn is_sync_temp(path: Seq<char>) -> bool {
    crate::text::occurs_in(".p2p-tmp"@, path)
}

/// Entries that are advertised.
pub open spec fn advertised() -> spec_fn(EntryView) -> bool {
    |e: EntryView| !is_sync_temp(e.resource_path)
}

/// Some entry has the path.
pub open spec fn holds_path(entries: Seq<EntryView>, path: Seq<char>) -> bool {
    exists|i: int| 0 <= i < entries.len() && #[trigger] entries[i].resource_path == path
}

/// Tombstones of paths that are not live.
pub open spec fn gone(live: Seq<EntryView>) -> spec_fn(TombstoneView) -> bool {
    |t: TombstoneView| !is_sync_temp(t.resource_path) && !holds_path(live, t.resource_path)
}

/// The manifest of a node with the given files and folders on disk and the
/// given deletions in its archive: files that are still being received are
/// left out, and so are deletions of paths that are live again.
pub open spec fn assembled(
    scanned: Seq<EntryView>,
    deleted: Seq<TombstoneView>,
) -> ManifestView {
    let live = scanned.filter(advertised());
    ManifestView { resources: live, tombstones: deleted.filter(gone(live)) }
}

/// Assembles a manifest from what was found on disk and in the archive.
pub fn assemble_manifest(scanned: Vec<ManifestEntry>, deleted: Vec<TombstoneEntry>) -> (manifest:
    Manifest)
    ensures
        manifest@ == assembled(entry_views(scanned@), tombstone_views(deleted@)),
{
    let ghost found = entry_views(scanned@);
    let ghost removed = tombstone_views(deleted@);
    let mut resources: Vec<ManifestEntry> = Vec::new();
    let mut paths: StringHashMap<bool> = StringHashMap::new();
    let count: usize = scanned.len();
    for entry in it: scanned
        invariant
            it.seq() == scanned@,
            found == entry_views(scanned@),
            entry_views(resources@) == found.take(it.index()).filter(advertised()),
            forall|p: Seq<char>|
                paths@.contains_key(p) <==> #[trigger] holds_path(entry_views(resources@), p),
    {
        let ghost before = entry_views(resources@);
        let ghost i = it.index();
        proof {
            reveal(Seq::filter);
            assert(found.take(i + 1).drop_last() == found.take(i));
            assert(found[i] == entry@);
        }
        if !contains_text(&entry.resource_path, ".p2p-tmp") {
            let ghost added = entry@;
            paths.insert(entry.resource_path.clone(), true);
            resources.push(entry);
            proof {
                let after = entry_views(resources@);
                assert(after == before.push(added));
                assert forall|p: Seq<char>|
                    paths@.contains_key(p) <==> #[trigger] holds_path(after, p) by {
                    if holds_path(before, p) {
                        let k = choose|k: int|
                            0 <= k < before.len() && #[trigger] before[k].resource_path == p;
                        assert(after[k].resource_path == p);
                    }
                    if p == added.resource_path {
                        assert(after[before.len() as int].resource_path == p);
                    }
                    if holds_path(after, p) && p != added.resource_path {
                        let k = choose|k: int|
                            0 <= k < after.len() && #[trigger] after[k].resource_path == p;
                        assert(before[k].resource_path == p);
                    }
                }
            }
        }
    }
    assert(found.take(count as int) == found);
    let ghost live = entry_views(resources@);
    let mut tombstones: Vec<TombstoneEntry> = Vec::new();
    let gone_count: usize = deleted.len();
    for tombstone in it: deleted
        invariant
            it.seq() == deleted@,
            removed == tombstone_views(deleted@),
            tombstone_views(tombstones@) == removed.take(it.index()).filter(gone(live)),
            forall|p: Seq<char>| paths@.contains_key(p) <==> #[trigger] holds_path(live, p),
    {
        let ghost before = tombstone_views(tombstones@);
        let ghost i = it.index();
        proof {
            reveal(Seq::filter);
            assert(removed.take(i + 1).drop_last() == removed.take(i));
            assert(removed[i] == tombstone@);
        }
        if !contains_text(&tombstone.resource_path, ".p2p-tmp") && !paths.contains_key(
            &tombstone.resource_path,
        ) {
            let ghost added = tombstone@;
            tombstones.push(tombstone);
            assert(tombstone_views(tombstones@) == before.push(added));
        }
    }
    assert(removed.take(gone_count as int) == removed);
    Manifest { resources, tombstones }
}

// ---------------------------------------------------------------------------
// Laws
// ---------------------------------------------------------------------------

/// No assembled manifest lists a path both as live and as deleted, and none
/// advertises a file that is still being received.
pub proof fn law_manifest_is_consistent(scanned: Seq<EntryView>, deleted: Seq<TombstoneView>)
    ensures
        ({
            let manifest = assembled(scanned, deleted);
            &&& forall|i: int|
                0 <= i < manifest.resources.len() ==> !is_sync_temp(
                    (#[trigger] manifest.resources[i]).resource_path,
                )
            &&& forall|i: int|
                0 <= i < manifest.tombstones.len() ==> !is_sync_temp(
                    (#[trigger] manifest.tombstones[i]).resource_path,
                ) && !holds_path(manifest.resources, manifest.tombstones[i].resource_path)
        }),
{
    let live = scanned.filter(advertised());
    let dead = deleted.filter(gone(live));
    assert forall|i: int| 0 <= i < live.len() implies !is_sync_temp(
        (#[trigger] live[i]).resource_path,
    ) by {
        scanned.lemma_filter_pred(advertised(), i);
    }
    assert forall|i: int| 0 <= i < dead.len() implies !is_sync_temp(
        (#[trigger] dead[i]).resource_path,
    ) && !holds_path(live, dead[i].resource_path) by {
        deleted.lemma_filter_pred(gone(live), i);
    }
}

/// Every file and folder on disk that is not still being received is
/// advertised as live.
pub proof fn law_manifest_lists_what_is_on_disk(
    scanned: Seq<EntryView>,
    deleted: Seq<TombstoneView>,
    i: int,
)
    requires
        0 <= i < scanned.len(),
        !is_sync_temp(scanned[i].resource_path),
    ensures
        assembled(scanned, deleted).resources.contains(scanned[i]),
{
    scanned.lemma_filter_contains(advertised(), i);
}

/// A manifest lists each entry and each tombstone with all that it holds, in
/// their order.
pub proof fn law_manifest_tells_all(manifest: Manifest, i: int)
    ensures
        manifest@.resources.len() == manifest.resources@.len(),
        manifest@.tombstones.len() == manifest.tombstones@.len(),
        0 <= i < manifest.resources@.len() ==> {
            let entry = manifest.resources@[i];
            let shown = manifest@.resources[i];
            &&& shown.resource_path == entry.resource_path@
            &&& shown.resource_kind == entry.resource_kind@
            &&& shown.checksum is Some <==> entry.checksum is Some
            &&& entry.checksum is Some ==> shown.checksum->0 == entry.checksum->0@
            &&& shown.size == entry.size
            &&& shown.updated_at == entry.updated_at@
        },
        0 <= i < manifest.tombstones@.len() ==> {
            let tombstone = manifest.tombstones@[i];
            let shown = manifest@.tombstones[i];
            &&& shown.resource_path == tombstone.resource_path@
            &&& shown.deleted_at == tombstone.deleted_at@
        },
{
}

/// A path that holds `.p2p-tmp` somewhere.
pub open spec fn is_still_received(path: Seq<char>) -> bool {
    exists|left: Seq<char>, right: Seq<char>| path == left + ".p2p-tmp"@ + right
}

/// Every deletion of a path that is not on disk is advertised, unless the path
/// is that of a file that is still being received; what is advertised was
/// found on disk or in the archive, unchanged.
pub proof fn law_manifest_lists_what_was_deleted(
    scanned: Seq<EntryView>,
    deleted: Seq<TombstoneView>,
    i: int,
)
    requires
        0 <= i < deleted.len(),
    ensures
        ({
            let path = deleted[i].resource_path;
            let on_disk = exists|k: int|
                0 <= k < scanned.len() && (#[trigger] scanned[k]).resource_path == path;
            let listed = assembled(scanned, deleted).tombstones.contains(deleted[i]);
            listed <==> !on_disk && !is_still_received(path)
        }),
{
    let path = deleted[i].resource_path;
    let live = scanned.filter(advertised());
    crate::text::law_occurrence_splits_the_text(".p2p-tmp"@, path);
    if exists|k: int| 0 <= k < scanned.len() && (#[trigger] scanned[k]).resource_path == path {
        let k = choose|k: int|
            0 <= k < scanned.len() && (#[trigger] scanned[k]).resource_path == path;
        if !is_sync_temp(path) {
            scanned.lemma_filter_contains(advertised(), k);
            let m = choose|m: int| 0 <= m < live.len() && live[m] == scanned[k];
            assert(live[m].resource_path == path);
        }
    }
    if holds_path(live, path) {
        let m = choose|m: int| 0 <= m < live.len() && #[trigger] live[m].resource_path == path;
        scanned.lemma_filter_contains_rev(advertised(), live[m]);
        let k = choose|k: int| 0 <= k < scanned.len() && scanned[k] == live[m];
        assert(scanned[k].resource_path == path);
    }
    let keep = gone(live);
    if keep(deleted[i]) {
        deleted.lemma_filter_contains(keep, i);
    }
    let dead = deleted.filter(keep);
    if dead.contains(deleted[i]) {
        let m = choose|m: int| 0 <= m < dead.len() && dead[m] == deleted[i];
        deleted.lemma_filter_pred(keep, m);
    }
}

/// One more file or folder is advertised behind the others, one more deletion
/// behind the other deletions, or not at all: the order stays.
pub proof fn law_manifest_grows_at_the_end(
    scanned: Seq<EntryView>,
    deleted: Seq<TombstoneView>,
    entry: EntryView,
    tombstone: TombstoneView,
)
    ensures
        assembled(scanned.push(entry), deleted).resources == if is_still_received(
            entry.resource_path,
        ) {
            assembled(scanned, deleted).resources
        } else {
            assembled(scanned, deleted).resources.push(entry)
        },
        ({
            let before = assembled(scanned, deleted);
            let after = assembled(scanned, deleted.push(tombstone));
            &&& after.resources == before.resources
            &&& after.tombstones == before.tombstones || after.tombstones
                == before.tombstones.push(tombstone)
        }),
        assembled(Seq::empty(), Seq::empty()).resources.len() == 0,
        assembled(Seq::empty(), Seq::empty()).tombstones.len() == 0,
{
    reveal(Seq::filter);
    crate::text::law_occurrence_splits_the_text(".p2p-tmp"@, entry.resource_path);
    assert(scanned.push(entry).drop_last() == scanned);
    assert(deleted.push(tombstone).drop_last() == deleted);
}

} // verus!
