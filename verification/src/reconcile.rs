//! Reconciling two manifests: what a node has to do to catch up with a peer.

use vstd::hash_map::StringHashMap;
use vstd::prelude::*;

use crate::manifest::{EntryView, Manifest, ManifestView, TombstoneView};
use crate::text::{copy_optional, optional_text_eq, text_eq, text_less};

verus! {

/// An action to take locally in response to a peer's manifest being newer
/// for a given path than the local state.
#[derive(Debug, Clone, PartialEq, Eq)]
pub enum SyncAction {
    /// Pull file content for `path` (the peer has a live version that's newer).
    Pull { path: String, checksum: Option<String> },
    /// Create an (empty) directory; the peer has a live folder we're missing.
    CreateDir { path: String },
    /// Delete a locally-present path; the peer's tombstone is newer.
    Delete { path: String },
}

/// The contents of a [`SyncAction`].
pub enum SyncActionView {
    Pull { path: Seq<char>, checksum: Option<Seq<char>> },
    CreateDir { path: Seq<char> },
    Delete { path: Seq<char> },
}

impl View for SyncAction {
    type V = SyncActionView;

    open spec fn view(&self) -> SyncActionView {
        match self {
            SyncAction::Pull { path, checksum } => SyncActionView::Pull {
                path: path@,
                checksum: crate::text::optional_text(*checksum),
            },
            SyncAction::CreateDir { path } => SyncActionView::CreateDir { path: path@ },
            SyncAction::Delete { path } => SyncActionView::Delete { path: path@ },
        }
    }
}

impl SyncActionView {
    /// The path that the action concerns.
    pub open spec fn target(self) -> Seq<char> {
        match self {
            SyncActionView::Pull { path, .. } => path,
            SyncActionView::CreateDir { path } => path,
            SyncActionView::Delete { path } => path,
        }
    }
}

// ---------------------------------------------------------------------------
// The state of a path
// ---------------------------------------------------------------------------

/// What a manifest says of a path: when it changed last, and what it is.
/// Deleted paths have the kind `deleted`.
pub struct StateView {
    pub stamp: Seq<char>,
    pub kind: Seq<char>,
    pub checksum: Option<Seq<char>>,
}

/// The state that an entry gives its path.
pub open spec fn live_state(entry: EntryView) -> StateView {
    StateView { stamp: entry.updated_at, kind: entry.resource_kind, checksum: entry.checksum }
}

/// The state that a tombstone gives its path.
pub open spec fn deleted_state(tombstone: TombstoneView) -> StateView {
    StateView { stamp: tombstone.deleted_at, kind: "deleted"@, checksum: None }
}

/// The newer of two states. Of two with the same stamp the second counts.
pub open spec fn newer(first: Option<StateView>, second: StateView) -> StateView {
    match first {
        Some(state) => if crate::text::text_before(second.stamp, state.stamp) {
            state
        } else {
            second
        },
        None => second,
    }
}

/// The newest state that an entry gives the path; of several as new, the last.
pub open spec fn newest_live(entries: Seq<EntryView>, path: Seq<char>) -> Option<StateView>
    decreases entries.len(),
{
    if entries.len() == 0 {
        None
    } else {
        let before = newest_live(entries.drop_last(), path);
        if entries.last().resource_path == path {
            Some(newer(before, live_state(entries.last())))
        } else {
            before
        }
    }
}

/// The newest state that a tombstone gives the path; of several as new, the
/// last.
pub open spec fn newest_deleted(tombstones: Seq<TombstoneView>, path: Seq<char>) -> Option<
    StateView,
>
    decreases tombstones.len(),
{
    if tombstones.len() == 0 {
        None
    } else {
        let before = newest_deleted(tombstones.drop_last(), path);
        if tombstones.last().resource_path == path {
            Some(newer(before, deleted_state(tombstones.last())))
        } else {
            before
        }
    }
}

/// What a manifest says of a path: its latest known state, live or deleted. Of
/// a live and a deleted one with the same stamp the deleted one counts.
pub open spec fn state_of(manifest: ManifestView, path: Seq<char>) -> Option<StateView> {
    latest(newest_deleted(manifest.tombstones, path), newest_live(manifest.resources, path))
}

/// The later of a deleted and a live state.
pub open spec fn latest(deleted: Option<StateView>, live: Option<StateView>) -> Option<StateView> {
    match (deleted, live) {
        (Some(d), Some(l)) => if crate::text::text_before(d.stamp, l.stamp) {
            Some(l)
        } else {
            Some(d)
        },
        (Some(d), None) => Some(d),
        (None, l) => l,
    }
}

/// One more tombstone makes the state newer as it makes the newest tombstone
/// newer.
proof fn lemma_latest_newer(
    deleted: Option<StateView>,
    live: Option<StateView>,
    tombstone: StateView,
)
    ensures
        latest(Some(newer(deleted, tombstone)), live) == Some(
            newer(latest(deleted, live), tombstone),
        ),
{
    if deleted is Some && live is Some {
        let d = deleted->0.stamp;
        let l = live->0.stamp;
        let t = tombstone.stamp;
        crate::text::lemma_not_before(d, l, t);
        crate::text::lemma_not_before(l, d, t);
        crate::text::lemma_not_before(d, t, l);
        crate::text::lemma_not_before(t, d, l);
    }
}

struct PathState {
    path: String,
    stamp: String,
    resource_kind: String,
    checksum: Option<String>,
}

impl PathState {
    spec fn state(self) -> StateView {
        StateView {
            stamp: self.stamp@,
            kind: self.resource_kind@,
            checksum: crate::text::optional_text(self.checksum),
        }
    }
}

/// The state of every path of a manifest, in the order in which the paths
/// first occur, with the index of each path.
struct LatestStates {
    states: Vec<PathState>,
    index: StringHashMap<usize>,
}

impl LatestStates {
    /// Each path has one state, which its index finds.
    spec fn wf(self) -> bool {
        &&& forall|i: int|
            0 <= i < self.states@.len() ==> self.index@.contains_key(
                (#[trigger] self.states@[i]).path@,
            ) && self.index@[self.states@[i].path@] == i
        &&& forall|p: Seq<char>| #[trigger]
            self.index@.contains_key(p) ==> self.index@[p] < self.states@.len()
                && self.states@[self.index@[p] as int].path@ == p
    }

    spec fn lookup(self, path: Seq<char>) -> Option<StateView> {
        if self.index@.contains_key(path) {
            Some(self.states@[self.index@[path] as int].state())
        } else {
            None
        }
    }

    /// Takes note of a state, unless a newer one of its path is known.
    fn put(&mut self, state: PathState)
        requires
            old(self).wf(),
        ensures
            final(self).wf(),
            forall|p: Seq<char>| #[trigger]
                final(self).lookup(p) == if p == state.path@ {
                    Some(newer(old(self).lookup(p), state.state()))
                } else {
                    old(self).lookup(p)
                },
    {
        let ghost before = *self;
        let known: Option<usize> = match self.index.get(&state.path) {
            Some(i) => Some(*i),
            None => None,
        };
        match known {
            Some(i) => {
                if text_less(&state.stamp, &self.states[i].stamp) {
                    return;
                }
                self.states.set(i, state);
                proof {
                    assert forall|k: int| 0 <= k < self.states@.len() implies self.index@.contains_key(
                        (#[trigger] self.states@[k]).path@,
                    ) && self.index@[self.states@[k].path@] == k by {
                        assert(self.states@[k].path@ == before.states@[k].path@);
                    }
                }
            },
            None => {
                let i: usize = self.states.len();
                self.index.insert(state.path.clone(), i);
                self.states.push(state);
                proof {
                    assert forall|k: int| 0 <= k < self.states@.len() implies self.index@.contains_key(
                        (#[trigger] self.states@[k]).path@,
                    ) && self.index@[self.states@[k].path@] == k by {
                        if k < i {
                            assert(self.states@[k] == before.states@[k]);
                            assert(before.index@.contains_key(before.states@[k].path@));
                        }
                    }
                }
            },
        }
    }
}

/// Collects the state of every path of a manifest.
fn latest_states(manifest: &Manifest) -> (latest: LatestStates)
    ensures
        latest.wf(),
        forall|p: Seq<char>| #[trigger] latest.lookup(p) == state_of(manifest@, p),
{
    let mut latest = LatestStates { states: Vec::new(), index: StringHashMap::new() };
    let ghost entries = manifest@.resources;
    let ghost tombstones = manifest@.tombstones;
    let mut i: usize = 0;
    while i < manifest.resources.len()
        invariant
            i <= manifest.resources@.len(),
            entries == manifest@.resources,
            latest.wf(),
            forall|p: Seq<char>| #[trigger]
                latest.lookup(p) == newest_live(entries.take(i as int), p),
        decreases manifest.resources@.len() - i,
    {
        let entry = &manifest.resources[i];
        let ghost before = latest;
        latest.put(
            PathState {
                path: entry.resource_path.clone(),
                stamp: entry.updated_at.clone(),
                resource_kind: entry.resource_kind.clone(),
                checksum: copy_optional(&entry.checksum),
            },
        );
        i = i + 1;
        proof {
            assert(entries.take(i as int).drop_last() == entries.take(i - 1));
            assert(entries.take(i as int).last() == entry@);
            assert forall|p: Seq<char>| #[trigger]
                latest.lookup(p) == newest_live(entries.take(i as int), p) by {
                assert(before.lookup(p) == newest_live(entries.take(i - 1), p));
            }
        }
    }
    assert(entries.take(i as int) == entries);
    let mut j: usize = 0;
    while j < manifest.tombstones.len()
        invariant
            j <= manifest.tombstones@.len(),
            entries == manifest@.resources,
            tombstones == manifest@.tombstones,
            latest.wf(),
            forall|p: Seq<char>| #[trigger]
                latest.lookup(p) == self::latest(
                    newest_deleted(tombstones.take(j as int), p),
                    newest_live(entries, p),
                ),
        decreases manifest.tombstones@.len() - j,
    {
        let tombstone = &manifest.tombstones[j];
        let ghost before = latest;
        latest.put(
            PathState {
                path: tombstone.resource_path.clone(),
                stamp: tombstone.deleted_at.clone(),
                resource_kind: "deleted".to_string(),
                checksum: None,
            },
        );
        j = j + 1;
        proof {
            assert(tombstones.take(j as int).drop_last() == tombstones.take(j - 1));
            assert(tombstones.take(j as int).last() == tombstone@);
            assert forall|p: Seq<char>| #[trigger]
                latest.lookup(p) == self::latest(
                    newest_deleted(tombstones.take(j as int), p),
                    newest_live(entries, p),
                ) by {
                let deleted = newest_deleted(tombstones.take(j - 1), p);
                assert(before.lookup(p) == self::latest(deleted, newest_live(entries, p)));
                lemma_latest_newer(deleted, newest_live(entries, p), deleted_state(tombstone@));
            }
        }
    }
    assert(tombstones.take(j as int) == tombstones);
    latest
}

// ---------------------------------------------------------------------------
// Deciding on a path
// ---------------------------------------------------------------------------

/// Both sides hold a file with the same known checksum.
pub open spec fn same_file(local: StateView, remote: StateView) -> bool {
    &&& remote.kind == "file"@
    &&& local.kind == "file"@
    &&& remote.checksum is Some
    &&& remote.checksum == local.checksum
}

/// What the local node does about a path, given what it and the peer say of
/// it: nothing unless the peer's state is newer and is not the same file.
pub open spec fn decided(
    path: Seq<char>,
    local: Option<StateView>,
    remote: Option<StateView>,
) -> Option<SyncActionView> {
    match remote {
        None => None,
        Some(theirs) => {
            let newer = match local {
                Some(ours) => !same_file(ours, theirs) && crate::text::text_before(
                    ours.stamp,
                    theirs.stamp,
                ),
                None => true,
            };
            if !newer {
                None
            } else if theirs.kind == "deleted"@ {
                if local is Some && local->0.kind != "deleted"@ {
                    Some(SyncActionView::Delete { path })
                } else {
                    None
                }
            } else if theirs.kind == "folder"@ {
                Some(SyncActionView::CreateDir { path })
            } else {
                Some(SyncActionView::Pull { path, checksum: theirs.checksum })
            }
        },
    }
}

/// What the local node does about a path, given both manifests.
pub open spec fn reconciled(
    local: ManifestView,
    remote: ManifestView,
    path: Seq<char>,
) -> Option<SyncActionView> {
    decided(path, state_of(local, path), state_of(remote, path))
}

fn decide(local: Option<&PathState>, remote: &PathState) -> (action: Option<SyncAction>)
    ensures
        (match action {
            Some(a) => Some(a@),
            None => None,
        }) == decided(
            remote.path@,
            match local {
                Some(l) => Some(l.state()),
                None => None,
            },
            Some(remote.state()),
        ),
{
    if let Some(ours) = local {
        if text_eq(&remote.resource_kind, "file") && text_eq(&ours.resource_kind, "file")
            && remote.checksum.is_some() && optional_text_eq(&remote.checksum, &ours.checksum) {
            return None;
        }
        if !text_less(&ours.stamp, &remote.stamp) {
            return None;
        }
    }
    if text_eq(&remote.resource_kind, "deleted") {
        if let Some(ours) = local {
            if !text_eq(&ours.resource_kind, "deleted") {
                return Some(SyncAction::Delete { path: remote.path.clone() });
            }
        }
        None
    } else if text_eq(&remote.resource_kind, "folder") {
        Some(SyncAction::CreateDir { path: remote.path.clone() })
    } else {
        Some(
            SyncAction::Pull {
                path: remote.path.clone(),
                checksum: copy_optional(&remote.checksum),
            },
        )
    }
}

/// Compares two manifests and returns the actions the *local* node should
/// take. Only considers paths where the remote's latest known state (live
/// resource or tombstone) is newer than the local one.
///
/// There is at most one action for each path; their order carries no meaning.
pub fn diff_manifests(local: &Manifest, remote: &Manifest) -> (actions: Vec<SyncAction>)
    ensures
        forall|i: int|
            0 <= i < actions@.len() ==> reconciled(
                local@,
                remote@,
                (#[trigger] actions@[i])@.target(),
            ) == Some(actions@[i]@),
        forall|p: Seq<char>|
            (#[trigger] reconciled(local@, remote@, p)) is Some ==> exists|i: int|
                0 <= i < actions@.len() && (#[trigger] actions@[i])@ == reconciled(
                    local@,
                    remote@,
                    p,
                )->0,
        forall|i: int, j: int|
            0 <= i < j < actions@.len() ==> (#[trigger] actions@[i])@.target() != (
            #[trigger] actions@[j])@.target(),
{
    let ours: LatestStates = latest_states(local);
    let theirs: LatestStates = latest_states(remote);
    let mut actions: Vec<SyncAction> = Vec::new();
    let mut i: usize = 0;
    while i < theirs.states.len()
        invariant
            i <= theirs.states@.len(),
            ours.wf(),
            theirs.wf(),
            forall|p: Seq<char>| #[trigger] ours.lookup(p) == state_of(local@, p),
            forall|p: Seq<char>| #[trigger] theirs.lookup(p) == state_of(remote@, p),
            forall|k: int|
                0 <= k < actions@.len() ==> reconciled(
                    local@,
                    remote@,
                    (#[trigger] actions@[k])@.target(),
                ) == Some(actions@[k]@),
            forall|k: int|
                0 <= k < i && (#[trigger] reconciled(
                    local@,
                    remote@,
                    theirs.states@[k].path@,
                )) is Some ==> exists|m: int|
                    0 <= m < actions@.len() && (#[trigger] actions@[m])@ == reconciled(
                        local@,
                        remote@,
                        theirs.states@[k].path@,
                    )->0,
            forall|k: int|
                0 <= k < actions@.len() ==> theirs.index@.contains_key(
                    (#[trigger] actions@[k])@.target(),
                ) && theirs.index@[actions@[k]@.target()] < i,
            forall|k: int, m: int|
                0 <= k < m < actions@.len() ==> (#[trigger] actions@[k])@.target() != (
                #[trigger] actions@[m])@.target(),
        decreases theirs.states@.len() - i,
    {
        let state = &theirs.states[i];
        let found: Option<usize> = match ours.index.get(&state.path) {
            Some(k) => Some(*k),
            None => None,
        };
        let known: Option<&PathState> = match found {
            Some(k) => Some(&ours.states[k]),
            None => None,
        };
        let ghost before = actions@;
        proof {
            assert(theirs.lookup(state.path@) == Some(state.state()));
            assert(ours.lookup(state.path@) == state_of(local@, state.path@));
        }
        if let Some(action) = decide(known, state) {
            actions.push(action);
            assert(actions@[before.len() as int]@ == reconciled(local@, remote@, state.path@)->0);
        }
        assert(forall|k: int| 0 <= k < before.len() ==> actions@[k] == before[k]);
        i = i + 1;
    }
    proof {
        assert forall|p: Seq<char>|
            (#[trigger] reconciled(local@, remote@, p)) is Some implies exists|m: int|
                0 <= m < actions@.len() && (#[trigger] actions@[m])@ == reconciled(
                    local@,
                    remote@,
                    p,
                )->0 by {
            assert(theirs.lookup(p) == state_of(remote@, p));
            let k = theirs.index@[p] as int;
            assert(theirs.states@[k].path@ == p);
        }
    }
    actions
}

// ---------------------------------------------------------------------------
// Laws
// ---------------------------------------------------------------------------

proof fn lemma_newest_live(entries: Seq<EntryView>, path: Seq<char>, i: int)
    requires
        0 <= i < entries.len(),
        entries[i].resource_path == path,
    ensures
        newest_live(entries, path) matches Some(state) && !crate::text::text_before(
            state.stamp,
            entries[i].updated_at,
        ),
    decreases entries.len(),
{
    let front = entries.drop_last();
    let last = entries.last();
    crate::text::lemma_text_order(last.updated_at, last.updated_at);
    if i < front.len() {
        assert(front[i] == entries[i]);
        lemma_newest_live(front, path, i);
        crate::text::lemma_not_before(
            entries[i].updated_at,
            newest_live(front, path)->0.stamp,
            last.updated_at,
        );
    } else if newest_live(front, path) is Some {
        crate::text::lemma_text_order(last.updated_at, newest_live(front, path)->0.stamp);
    }
}

proof fn lemma_newest_deleted(tombstones: Seq<TombstoneView>, path: Seq<char>, i: int)
    requires
        0 <= i < tombstones.len(),
        tombstones[i].resource_path == path,
    ensures
        newest_deleted(tombstones, path) matches Some(state) && !crate::text::text_before(
            state.stamp,
            tombstones[i].deleted_at,
        ),
    decreases tombstones.len(),
{
    let front = tombstones.drop_last();
    let last = tombstones.last();
    crate::text::lemma_text_order(last.deleted_at, last.deleted_at);
    if i < front.len() {
        assert(front[i] == tombstones[i]);
        lemma_newest_deleted(front, path, i);
        crate::text::lemma_not_before(
            tombstones[i].deleted_at,
            newest_deleted(front, path)->0.stamp,
            last.deleted_at,
        );
    } else if newest_deleted(front, path) is Some {
        crate::text::lemma_text_order(last.deleted_at, newest_deleted(front, path)->0.stamp);
    }
}

/// The state of a path is the latest known one: no entry and no tombstone of
/// the path is newer, wherever it stands in the manifest.
pub proof fn law_state_is_the_latest_known(manifest: ManifestView, path: Seq<char>)
    ensures
        forall|i: int|
            0 <= i < manifest.resources.len() && (#[trigger] manifest.resources[i]).resource_path
                == path ==> (state_of(manifest, path) matches Some(state)
                && !crate::text::text_before(state.stamp, manifest.resources[i].updated_at)),
        forall|i: int|
            0 <= i < manifest.tombstones.len() && (#[trigger] manifest.tombstones[i]).resource_path
                == path ==> (state_of(manifest, path) matches Some(state)
                && !crate::text::text_before(state.stamp, manifest.tombstones[i].deleted_at)),
{
    let deleted = newest_deleted(manifest.tombstones, path);
    let live = newest_live(manifest.resources, path);
    if deleted is Some && live is Some {
        crate::text::lemma_text_order(deleted->0.stamp, live->0.stamp);
    }
    assert forall|i: int|
        0 <= i < manifest.resources.len() && (#[trigger] manifest.resources[i]).resource_path
            == path implies (state_of(manifest, path) matches Some(state)
        && !crate::text::text_before(state.stamp, manifest.resources[i].updated_at)) by {
        lemma_newest_live(manifest.resources, path, i);
        if deleted is Some {
            crate::text::lemma_not_before(
                manifest.resources[i].updated_at,
                live->0.stamp,
                deleted->0.stamp,
            );
        }
    }
    assert forall|i: int|
        0 <= i < manifest.tombstones.len() && (#[trigger] manifest.tombstones[i]).resource_path
            == path implies (state_of(manifest, path) matches Some(state)
        && !crate::text::text_before(state.stamp, manifest.tombstones[i].deleted_at)) by {
        lemma_newest_deleted(manifest.tombstones, path, i);
        if live is Some {
            crate::text::lemma_not_before(
                manifest.tombstones[i].deleted_at,
                deleted->0.stamp,
                live->0.stamp,
            );
        }
    }
}

proof fn lemma_live_is_listed(entries: Seq<EntryView>, path: Seq<char>)
    ensures
        newest_live(entries, path) matches Some(state) ==> exists|i: int|
            0 <= i < entries.len() && (#[trigger] entries[i]).resource_path == path && state
                == live_state(entries[i]),
    decreases entries.len(),
{
    if entries.len() > 0 {
        let front = entries.drop_last();
        lemma_live_is_listed(front, path);
        if let Some(state) = newest_live(entries, path) {
            if newest_live(front, path) == Some(state) {
                let i = choose|i: int|
                    0 <= i < front.len() && (#[trigger] front[i]).resource_path == path && state
                        == live_state(front[i]);
                assert(entries[i] == front[i]);
            } else {
                assert(entries[entries.len() - 1] == entries.last());
            }
        }
    }
}

proof fn lemma_deleted_is_listed(tombstones: Seq<TombstoneView>, path: Seq<char>)
    ensures
        newest_deleted(tombstones, path) matches Some(state) ==> exists|i: int|
            0 <= i < tombstones.len() && (#[trigger] tombstones[i]).resource_path == path && state
                == deleted_state(tombstones[i]),
    decreases tombstones.len(),
{
    if tombstones.len() > 0 {
        let front = tombstones.drop_last();
        lemma_deleted_is_listed(front, path);
        if let Some(state) = newest_deleted(tombstones, path) {
            if newest_deleted(front, path) == Some(state) {
                let i = choose|i: int|
                    0 <= i < front.len() && (#[trigger] front[i]).resource_path == path && state
                        == deleted_state(front[i]);
                assert(tombstones[i] == front[i]);
            } else {
                assert(tombstones[tombstones.len() - 1] == tombstones.last());
            }
        }
    }
}

/// The state of a path is that of one of its entries or tombstones.
pub proof fn law_state_is_listed(manifest: ManifestView, path: Seq<char>)
    ensures
        state_of(manifest, path) matches Some(state) ==> {
            ||| exists|i: int|
                0 <= i < manifest.resources.len() && (
                #[trigger] manifest.resources[i]).resource_path == path && state == live_state(
                    manifest.resources[i],
                )
            ||| exists|i: int|
                0 <= i < manifest.tombstones.len() && (
                #[trigger] manifest.tombstones[i]).resource_path == path && state == deleted_state(
                    manifest.tombstones[i],
                )
        },
{
    lemma_live_is_listed(manifest.resources, path);
    lemma_deleted_is_listed(manifest.tombstones, path);
}

/// A node has nothing to do about a path on which it and the peer agree, and
/// so nothing at all about a peer with an identical manifest.
pub proof fn law_agreeing_nodes_need_nothing(
    local: ManifestView,
    remote: ManifestView,
    path: Seq<char>,
)
    requires
        state_of(local, path) == state_of(remote, path),
    ensures
        reconciled(local, remote, path) is None,
{
    if state_of(remote, path) is Some {
        let stamp = state_of(remote, path)->0.stamp;
        crate::text::lemma_text_order(stamp, stamp);
    }
}

/// Two nodes never both act on the same path: where one catches up with the
/// other, the other has nothing to do.
pub proof fn law_only_one_side_acts(a: ManifestView, b: ManifestView, path: Seq<char>)
    ensures
        !(reconciled(a, b, path) is Some && reconciled(b, a, path) is Some),
{
    if state_of(a, path) is Some && state_of(b, path) is Some {
        crate::text::lemma_text_order(state_of(a, path)->0.stamp, state_of(b, path)->0.stamp);
    }
}

/// An action is only taken on a state of the peer that is newer than the local
/// one, and a path is only deleted where it is live locally.
pub proof fn law_actions_follow_newer_states(
    local: ManifestView,
    remote: ManifestView,
    path: Seq<char>,
)
    requires
        reconciled(local, remote, path) is Some,
    ensures
        state_of(remote, path) is Some,
        state_of(local, path) is Some ==> crate::text::text_before(
            state_of(local, path)->0.stamp,
            state_of(remote, path)->0.stamp,
        ),
        reconciled(local, remote, path)->0 is Delete ==> state_of(local, path) is Some && state_of(
            local,
            path,
        )->0.kind != "deleted"@,
        reconciled(local, remote, path)->0.target() == path,
{
}

/// A file with the checksum that the peer reports is never transferred again,
/// however the timestamps differ.
pub proof fn law_equal_checksums_are_not_transferred(
    local: ManifestView,
    remote: ManifestView,
    path: Seq<char>,
)
    requires
        state_of(local, path) is Some,
        state_of(remote, path) is Some,
        same_file(state_of(local, path)->0, state_of(remote, path)->0),
    ensures
        reconciled(local, remote, path) is None,
        reconciled(remote, local, path) is None,
{
}

/// Reconciliation is over after one round: a node that took over the peer's
/// state of every path on which it had to act, and kept its own of the others,
/// has nothing left to do, and neither has the peer on the paths taken over.
pub proof fn law_one_round_catches_up(
    local: ManifestView,
    remote: ManifestView,
    caught_up: ManifestView,
    path: Seq<char>,
)
    requires
        state_of(caught_up, path) == if reconciled(local, remote, path) is Some {
            state_of(remote, path)
        } else {
            state_of(local, path)
        },
    ensures
        reconciled(caught_up, remote, path) is None,
        reconciled(local, remote, path) is Some ==> reconciled(remote, caught_up, path) is None,
{
    if reconciled(local, remote, path) is Some {
        law_agreeing_nodes_need_nothing(caught_up, remote, path);
        law_agreeing_nodes_need_nothing(remote, caught_up, path);
    }
}

// ---------------------------------------------------------------------------
// What follows from the manifests themselves
// ---------------------------------------------------------------------------

/// Entry `i` is the latest that a manifest has on its path: every other entry
/// is older, or as old and listed before it, and every tombstone is older.
pub open spec fn is_latest_entry(manifest: ManifestView, i: int) -> bool {
    &&& 0 <= i < manifest.resources.len()
    &&& forall|j: int|
        0 <= j < manifest.resources.len() && j != i && (
        #[trigger] manifest.resources[j]).resource_path == manifest.resources[i].resource_path
            ==> crate::text::text_before(
            manifest.resources[j].updated_at,
            manifest.resources[i].updated_at,
        ) || (j < i && manifest.resources[j].updated_at == manifest.resources[i].updated_at)
    &&& forall|k: int|
        0 <= k < manifest.tombstones.len() && (#[trigger] manifest.tombstones[k]).resource_path
            == manifest.resources[i].resource_path ==> crate::text::text_before(
            manifest.tombstones[k].deleted_at,
            manifest.resources[i].updated_at,
        )
}

/// Tombstone `k` is the latest that a manifest has on its path: every entry is
/// older or as old, and every other tombstone is older, or as old and listed
/// before it.
pub open spec fn is_latest_tombstone(manifest: ManifestView, k: int) -> bool {
    &&& 0 <= k < manifest.tombstones.len()
    &&& forall|j: int|
        0 <= j < manifest.tombstones.len() && j != k && (
        #[trigger] manifest.tombstones[j]).resource_path == manifest.tombstones[k].resource_path
            ==> crate::text::text_before(
            manifest.tombstones[j].deleted_at,
            manifest.tombstones[k].deleted_at,
        ) || (j < k && manifest.tombstones[j].deleted_at == manifest.tombstones[k].deleted_at)
    &&& forall|i: int|
        0 <= i < manifest.resources.len() && (#[trigger] manifest.resources[i]).resource_path
            == manifest.tombstones[k].resource_path ==> !crate::text::text_before(
            manifest.tombstones[k].deleted_at,
            manifest.resources[i].updated_at,
        )
}

/// A manifest says nothing of a path.
pub open spec fn is_unknown(manifest: ManifestView, path: Seq<char>) -> bool {
    &&& forall|i: int|
        0 <= i < manifest.resources.len() ==> (#[trigger] manifest.resources[i]).resource_path
            != path
    &&& forall|k: int|
        0 <= k < manifest.tombstones.len() ==> (#[trigger] manifest.tombstones[k]).resource_path
            != path
}

/// All that a manifest says of a path is older than a stamp.
pub open spec fn is_older(manifest: ManifestView, path: Seq<char>, stamp: Seq<char>) -> bool {
    &&& forall|i: int|
        0 <= i < manifest.resources.len() && (#[trigger] manifest.resources[i]).resource_path
            == path ==> crate::text::text_before(manifest.resources[i].updated_at, stamp)
    &&& forall|k: int|
        0 <= k < manifest.tombstones.len() && (#[trigger] manifest.tombstones[k]).resource_path
            == path ==> crate::text::text_before(manifest.tombstones[k].deleted_at, stamp)
}

/// Two entries are files with one known checksum.
pub open spec fn is_same_content(one: EntryView, other: EntryView) -> bool {
    &&& one.resource_kind == "file"@
    &&& other.resource_kind == "file"@
    &&& one.checksum is Some
    &&& one.checksum == other.checksum
}

proof fn lemma_newest_live_is(entries: Seq<EntryView>, path: Seq<char>, i: int)
    requires
        0 <= i < entries.len(),
        entries[i].resource_path == path,
        forall|j: int|
            0 <= j < entries.len() && j != i && (#[trigger] entries[j]).resource_path == path
                ==> crate::text::text_before(entries[j].updated_at, entries[i].updated_at) || (j
                < i && entries[j].updated_at == entries[i].updated_at),
    ensures
        newest_live(entries, path) == Some(live_state(entries[i])),
    decreases entries.len(),
{
    let front = entries.drop_last();
    let last = entries.last();
    if i < front.len() {
        assert forall|j: int| 0 <= j < front.len() && j != i && (
        #[trigger] front[j]).resource_path == path implies crate::text::text_before(
            front[j].updated_at,
            front[i].updated_at,
        ) || (j < i && front[j].updated_at == front[i].updated_at) by {
            assert(entries[j] == front[j]);
        }
        lemma_newest_live_is(front, path, i);
        assert(entries[entries.len() - 1] == last);
    } else {
        lemma_live_is_listed(front, path);
        if let Some(state) = newest_live(front, path) {
            let j = choose|j: int|
                0 <= j < front.len() && (#[trigger] front[j]).resource_path == path && state
                    == live_state(front[j]);
            assert(entries[j] == front[j]);
            crate::text::lemma_text_order(state.stamp, last.updated_at);
        }
    }
}

proof fn lemma_newest_deleted_is(tombstones: Seq<TombstoneView>, path: Seq<char>, i: int)
    requires
        0 <= i < tombstones.len(),
        tombstones[i].resource_path == path,
        forall|j: int|
            0 <= j < tombstones.len() && j != i && (#[trigger] tombstones[j]).resource_path == path
                ==> crate::text::text_before(tombstones[j].deleted_at, tombstones[i].deleted_at)
                || (j < i && tombstones[j].deleted_at == tombstones[i].deleted_at),
    ensures
        newest_deleted(tombstones, path) == Some(deleted_state(tombstones[i])),
    decreases tombstones.len(),
{
    let front = tombstones.drop_last();
    let last = tombstones.last();
    if i < front.len() {
        assert forall|j: int| 0 <= j < front.len() && j != i && (
        #[trigger] front[j]).resource_path == path implies crate::text::text_before(
            front[j].deleted_at,
            front[i].deleted_at,
        ) || (j < i && front[j].deleted_at == front[i].deleted_at) by {
            assert(tombstones[j] == front[j]);
        }
        lemma_newest_deleted_is(front, path, i);
        assert(tombstones[tombstones.len() - 1] == last);
    } else {
        lemma_deleted_is_listed(front, path);
        if let Some(state) = newest_deleted(front, path) {
            let j = choose|j: int|
                0 <= j < front.len() && (#[trigger] front[j]).resource_path == path && state
                    == deleted_state(front[j]);
            assert(tombstones[j] == front[j]);
            crate::text::lemma_text_order(state.stamp, last.deleted_at);
        }
    }
}

/// The latest entry of a path, or its latest tombstone, tells its state.
proof fn lemma_latest_tells_the_state(manifest: ManifestView, path: Seq<char>, i: int)
    ensures
        is_latest_entry(manifest, i) && manifest.resources[i].resource_path == path ==> state_of(
            manifest,
            path,
        ) == Some(live_state(manifest.resources[i])),
        is_latest_tombstone(manifest, i) && manifest.tombstones[i].resource_path == path
            ==> state_of(manifest, path) == Some(deleted_state(manifest.tombstones[i])),
        is_unknown(manifest, path) ==> state_of(manifest, path) is None,
{
    lemma_live_is_listed(manifest.resources, path);
    lemma_deleted_is_listed(manifest.tombstones, path);
    if is_latest_entry(manifest, i) && manifest.resources[i].resource_path == path {
        lemma_newest_live_is(manifest.resources, path, i);
    }
    if is_latest_tombstone(manifest, i) && manifest.tombstones[i].resource_path == path {
        lemma_newest_deleted_is(manifest.tombstones, path, i);
    }
}

/// What a path is, by its state: unknown, or as its latest entry or its latest
/// tombstone says.
proof fn lemma_state_is_told(manifest: ManifestView, path: Seq<char>) -> (i: int)
    ensures
        state_of(manifest, path) is None ==> is_unknown(manifest, path),
        state_of(manifest, path) is Some ==> {
            ||| is_latest_entry(manifest, i) && manifest.resources[i].resource_path == path
            ||| is_latest_tombstone(manifest, i) && manifest.tombstones[i].resource_path == path
        },
{
    law_state_is_the_latest_known(manifest, path);
    let live = lemma_latest_live_index(manifest.resources, path);
    let dead = lemma_latest_deleted_index(manifest.tombstones, path);
    if newest_live(manifest.resources, path) is Some {
        let e = manifest.resources[live];
        if newest_deleted(manifest.tombstones, path) is Some {
            let t = manifest.tombstones[dead];
            if crate::text::text_before(t.deleted_at, e.updated_at) {
                assert forall|k: int| 0 <= k < manifest.tombstones.len() && (
                #[trigger] manifest.tombstones[k]).resource_path
                    == path implies crate::text::text_before(
                    manifest.tombstones[k].deleted_at,
                    e.updated_at,
                ) by {
                    if k != dead && crate::text::text_before(
                        manifest.tombstones[k].deleted_at,
                        t.deleted_at,
                    ) {
                        crate::text::lemma_text_order_transitive(
                            manifest.tombstones[k].deleted_at,
                            t.deleted_at,
                            e.updated_at,
                        );
                    }
                }
                assert(is_latest_entry(manifest, live));
                live
            } else {
                assert forall|j: int| 0 <= j < manifest.resources.len() && (
                #[trigger] manifest.resources[j]).resource_path
                    == path implies !crate::text::text_before(
                    t.deleted_at,
                    manifest.resources[j].updated_at,
                ) by {
                    if j != live && crate::text::text_before(
                        manifest.resources[j].updated_at,
                        e.updated_at,
                    ) && crate::text::text_before(
                        t.deleted_at,
                        manifest.resources[j].updated_at,
                    ) {
                        crate::text::lemma_text_order_transitive(
                            t.deleted_at,
                            manifest.resources[j].updated_at,
                            e.updated_at,
                        );
                    }
                }
                assert(is_latest_tombstone(manifest, dead));
                dead
            }
        } else {
            assert(is_latest_entry(manifest, live));
            live
        }
    } else {
        if newest_deleted(manifest.tombstones, path) is Some {
            assert(is_latest_tombstone(manifest, dead));
        }
        dead
    }
}

proof fn lemma_latest_live_index(entries: Seq<EntryView>, path: Seq<char>) -> (i: int)
    ensures
        newest_live(entries, path) is None ==> forall|j: int|
            0 <= j < entries.len() ==> (#[trigger] entries[j]).resource_path != path,
        newest_live(entries, path) is Some ==> {
            &&& 0 <= i < entries.len()
            &&& entries[i].resource_path == path
            &&& forall|j: int|
                0 <= j < entries.len() && j != i && (#[trigger] entries[j]).resource_path == path
                    ==> crate::text::text_before(entries[j].updated_at, entries[i].updated_at) || (j
                    < i && entries[j].updated_at == entries[i].updated_at)
        },
    decreases entries.len(),
{
    if entries.len() == 0 {
        0
    } else {
        let front = entries.drop_last();
        let last = entries.last();
        let k = lemma_latest_live_index(front, path);
        assert(forall|j: int| 0 <= j < front.len() ==> #[trigger] entries[j] == front[j]);
        if newest_live(front, path) is Some {
            lemma_newest_live_is(front, path, k);
            crate::text::lemma_text_order(front[k].updated_at, last.updated_at);
        }
        if last.resource_path == path && (newest_live(front, path) is None
            || !crate::text::text_before(last.updated_at, front[k].updated_at)) {
            let n = entries.len() - 1;
            assert forall|j: int| 0 <= j < entries.len() && j != n && (
            #[trigger] entries[j]).resource_path == path implies crate::text::text_before(
                entries[j].updated_at,
                last.updated_at,
            ) || (j < n && entries[j].updated_at == last.updated_at) by {
                assert(entries[j] == front[j]);
                if j != k && crate::text::text_before(
                    front[j].updated_at,
                    front[k].updated_at,
                ) && crate::text::text_before(front[k].updated_at, last.updated_at) {
                    crate::text::lemma_text_order_transitive(
                        front[j].updated_at,
                        front[k].updated_at,
                        last.updated_at,
                    );
                }
            }
            n
        } else {
            k
        }
    }
}

proof fn lemma_latest_deleted_index(tombstones: Seq<TombstoneView>, path: Seq<char>) -> (i: int)
    ensures
        newest_deleted(tombstones, path) is None ==> forall|j: int|
            0 <= j < tombstones.len() ==> (#[trigger] tombstones[j]).resource_path != path,
        newest_deleted(tombstones, path) is Some ==> {
            &&& 0 <= i < tombstones.len()
            &&& tombstones[i].resource_path == path
            &&& forall|j: int|
                0 <= j < tombstones.len() && j != i && (#[trigger] tombstones[j]).resource_path
                    == path ==> crate::text::text_before(
                    tombstones[j].deleted_at,
                    tombstones[i].deleted_at,
                ) || (j < i && tombstones[j].deleted_at == tombstones[i].deleted_at)
        },
    decreases tombstones.len(),
{
    if tombstones.len() == 0 {
        0
    } else {
        let front = tombstones.drop_last();
        let last = tombstones.last();
        let k = lemma_latest_deleted_index(front, path);
        assert(forall|j: int| 0 <= j < front.len() ==> #[trigger] tombstones[j] == front[j]);
        if newest_deleted(front, path) is Some {
            lemma_newest_deleted_is(front, path, k);
            crate::text::lemma_text_order(front[k].deleted_at, last.deleted_at);
        }
        if last.resource_path == path && (newest_deleted(front, path) is None
            || !crate::text::text_before(last.deleted_at, front[k].deleted_at)) {
            let n = tombstones.len() - 1;
            assert forall|j: int| 0 <= j < tombstones.len() && j != n && (
            #[trigger] tombstones[j]).resource_path == path implies crate::text::text_before(
                tombstones[j].deleted_at,
                last.deleted_at,
            ) || (j < n && tombstones[j].deleted_at == last.deleted_at) by {
                assert(tombstones[j] == front[j]);
                if j != k && crate::text::text_before(
                    front[j].deleted_at,
                    front[k].deleted_at,
                ) && crate::text::text_before(front[k].deleted_at, last.deleted_at) {
                    crate::text::lemma_text_order_transitive(
                        front[j].deleted_at,
                        front[k].deleted_at,
                        last.deleted_at,
                    );
                }
            }
            n
        } else {
            k
        }
    }
}

/// A live file or folder of the peer that is newer than all that is known of
/// its path here is taken over: a folder is created, anything else is pulled
/// with the checksum that the peer reports. So it is where the path is unknown
/// here, where an older version is held, and where it was deleted before the
/// peer created it again. Only a file with the same checksum is left as it is.
pub proof fn law_newer_entry_is_taken_over(local: ManifestView, remote: ManifestView, i: int)
    requires
        is_latest_entry(remote, i),
        remote.resources[i].resource_kind != "deleted"@,
        is_older(local, remote.resources[i].resource_path, remote.resources[i].updated_at),
        forall|j: int|
            is_latest_entry(local, j) && (#[trigger] local.resources[j]).resource_path
                == remote.resources[i].resource_path ==> !is_same_content(
                local.resources[j],
                remote.resources[i],
            ),
    ensures
        ({
            let entry = remote.resources[i];
            reconciled(local, remote, entry.resource_path) == Some(
                if entry.resource_kind == "folder"@ {
                    SyncActionView::CreateDir { path: entry.resource_path }
                } else {
                    SyncActionView::Pull { path: entry.resource_path, checksum: entry.checksum }
                },
            )
        }),
{
    let path = remote.resources[i].resource_path;
    lemma_latest_tells_the_state(remote, path, i);
    let k = lemma_state_is_told(local, path);
    lemma_latest_tells_the_state(local, path, k);
    reveal_strlit("file");
    reveal_strlit("folder");
    reveal_strlit("deleted");
    assert("file"@.len() == 4 && "folder"@.len() == 6 && "deleted"@.len() == 7);
}

/// A deletion by the peer that is newer than the live version held here is
/// taken over.
pub proof fn law_newer_deletion_is_taken_over(
    local: ManifestView,
    remote: ManifestView,
    k: int,
    j: int,
)
    requires
        is_latest_tombstone(remote, k),
        is_latest_entry(local, j),
        local.resources[j].resource_path == remote.tombstones[k].resource_path,
        local.resources[j].resource_kind != "deleted"@,
        crate::text::text_before(local.resources[j].updated_at, remote.tombstones[k].deleted_at),
    ensures
        reconciled(local, remote, remote.tombstones[k].resource_path) == Some(
            SyncActionView::Delete { path: remote.tombstones[k].resource_path },
        ),
{
    let path = remote.tombstones[k].resource_path;
    lemma_latest_tells_the_state(remote, path, k);
    lemma_latest_tells_the_state(local, path, j);
    reveal_strlit("file");
    reveal_strlit("deleted");
    assert("file"@.len() == 4 && "deleted"@.len() == 7);
}

/// Nothing is done about a path of which the peer says nothing, about one of
/// which something as new is known here, about a deletion of what is unknown or
/// deleted here, nor about a file whose checksum is the same here.
pub proof fn law_nothing_else_is_done(
    local: ManifestView,
    remote: ManifestView,
    path: Seq<char>,
    i: int,
    j: int,
)
    ensures
        is_unknown(remote, path) ==> reconciled(local, remote, path) is None,
        is_latest_entry(remote, i) && remote.resources[i].resource_path == path && !is_older(
            local,
            path,
            remote.resources[i].updated_at,
        ) ==> reconciled(local, remote, path) is None,
        is_latest_tombstone(remote, i) && remote.tombstones[i].resource_path == path && !is_older(
            local,
            path,
            remote.tombstones[i].deleted_at,
        ) ==> reconciled(local, remote, path) is None,
        is_latest_tombstone(remote, i) && remote.tombstones[i].resource_path == path && (is_unknown(
            local,
            path,
        ) || (is_latest_tombstone(local, j) && local.tombstones[j].resource_path == path))
            ==> reconciled(local, remote, path) is None,
        is_latest_entry(remote, i) && remote.resources[i].resource_path == path && is_latest_entry(
            local,
            j,
        ) && local.resources[j].resource_path == path && is_same_content(
            local.resources[j],
            remote.resources[i],
        ) ==> reconciled(local, remote, path) is None,
{
    lemma_latest_tells_the_state(remote, path, i);
    lemma_latest_tells_the_state(local, path, j);
    let k = lemma_state_is_told(local, path);
    lemma_latest_tells_the_state(local, path, k);
    law_state_is_the_latest_known(local, path);
    if state_of(local, path) is Some && state_of(remote, path) is Some {
        let ours = state_of(local, path)->0.stamp;
        let stamp = state_of(remote, path)->0.stamp;
        if crate::text::text_before(ours, stamp) {
            assert forall|m: int| 0 <= m < local.resources.len() && (
            #[trigger] local.resources[m]).resource_path == path implies crate::text::text_before(
                local.resources[m].updated_at,
                stamp,
            ) by {
                crate::text::lemma_not_before(local.resources[m].updated_at, ours, stamp);
                crate::text::lemma_text_order(local.resources[m].updated_at, ours);
                crate::text::lemma_text_order(local.resources[m].updated_at, stamp);
                crate::text::lemma_not_before(ours, stamp, local.resources[m].updated_at);
            }
            assert forall|m: int| 0 <= m < local.tombstones.len() && (
            #[trigger] local.tombstones[m]).resource_path == path implies crate::text::text_before(
                local.tombstones[m].deleted_at,
                stamp,
            ) by {
                crate::text::lemma_text_order(local.tombstones[m].deleted_at, ours);
                crate::text::lemma_text_order(local.tombstones[m].deleted_at, stamp);
                crate::text::lemma_not_before(ours, stamp, local.tombstones[m].deleted_at);
            }
            assert(is_older(local, path, stamp));
        }
    }
}

/// An action is seen with all that it holds.
pub proof fn law_actions_tell_all(action: SyncAction)
    ensures
        action matches SyncAction::Pull { path, checksum: None } ==> action@
            == (SyncActionView::Pull { path: path@, checksum: None }),
        action matches SyncAction::Pull { path, checksum: Some(sum) } ==> action@
            == (SyncActionView::Pull { path: path@, checksum: Some(sum@) }),
        action matches SyncAction::CreateDir { path } ==> action@ == (SyncActionView::CreateDir {
            path: path@,
        }),
        action matches SyncAction::Delete { path } ==> action@ == (SyncActionView::Delete {
            path: path@,
        }),
{
}

/// An entry of the kind `deleted` counts as a deletion: of a peer, it deletes
/// an older version that is live here and does nothing where there is none; here,
/// there is nothing that a deletion by the peer could delete.
pub proof fn law_entries_can_tell_deletions(
    local: ManifestView,
    remote: ManifestView,
    i: int,
    j: int,
)
    ensures
        is_latest_entry(remote, i) && remote.resources[i].resource_kind == "deleted"@ ==> {
            let path = remote.resources[i].resource_path;
            &&& is_unknown(local, path) || (is_latest_tombstone(local, j)
                && local.tombstones[j].resource_path == path) ==> reconciled(local, remote, path)
                is None
            &&& is_latest_entry(local, j) && local.resources[j].resource_path == path
                && local.resources[j].resource_kind != "deleted"@ && crate::text::text_before(
                local.resources[j].updated_at,
                remote.resources[i].updated_at,
            ) ==> reconciled(local, remote, path) == Some(SyncActionView::Delete { path })
        },
        is_latest_entry(local, j) && local.resources[j].resource_kind == "deleted"@
            && is_latest_tombstone(remote, i) && remote.tombstones[i].resource_path
            == local.resources[j].resource_path ==> reconciled(
            local,
            remote,
            local.resources[j].resource_path,
        ) is None,
        is_latest_entry(local, j) && local.resources[j].resource_kind == "deleted"@
            && is_latest_entry(remote, i) && remote.resources[i].resource_kind == "deleted"@
            && remote.resources[i].resource_path == local.resources[j].resource_path
            ==> reconciled(local, remote, local.resources[j].resource_path) is None,
{
    if is_latest_entry(remote, i) {
        let path = remote.resources[i].resource_path;
        lemma_latest_tells_the_state(remote, path, i);
        lemma_latest_tells_the_state(local, path, j);
    }
    if is_latest_entry(local, j) {
        let path = local.resources[j].resource_path;
        lemma_latest_tells_the_state(remote, path, i);
        lemma_latest_tells_the_state(local, path, j);
    }
    reveal_strlit("file");
    reveal_strlit("deleted");
    assert("file"@.len() == 4 && "deleted"@.len() == 7);
}

} // verus!
