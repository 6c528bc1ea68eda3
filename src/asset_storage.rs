//! The per-type asset storage and its maintenance pass.
use vstd::prelude::*;

use std::collections::HashMap;
use std::sync::Arc;

use crossbeam::channel::{Receiver, Sender};

use crate::asset_loader::AssetLoader;
use crate::channel::{clone_sender, open_channel, poll_message, Polled};
use crate::handle::{Handle, HandleId, ReferenceCountSignal};
use crate::liveness::{
    lemma_tally_failure_persists, lemma_tally_keeps_keys, maintained, tally, PassOutcome, Tally,
};
use crate::Asset;

verus! {

broadcast use vstd::std_specs::hash::group_hash_axioms;

/// Why a file could not be loaded.
#[derive(Debug)]
pub enum AssetLoadError {
    /// The resolved path does not exist, or its existence could not be
    /// determined.
    FileDoesNotExist(String),
    /// The resolved path exists but is not a regular file.
    IsNotFile(String),
    /// The path has no extension.
    InvalidExtension,
    /// No registered loader reads this extension.
    NoLoaderForExtension(String),
    /// A loader produced data of another asset type than requested.
    InvalidCastType(String, String),
    /// The loader itself failed.
    Other(anyhow::Error),
}

/// What the file system reports about a resolved path.
#[derive(Clone, Copy, Debug, PartialEq, Eq, Structural)]
pub enum PathKind {
    /// The path does not exist, or that could not be determined.
    Missing,
    /// The path exists and is not a regular file.
    NotFile,
    /// The path is a regular file.
    File,
}

/// A broken invariant found by a maintenance pass. Either one means the
/// storage's bookkeeping can no longer be trusted.
#[derive(Clone, Copy, Debug, PartialEq, Eq, Structural)]
pub enum MaintenanceError {
    /// A signal named an id without a count, or would have taken a count
    /// below zero or past `u32::MAX`.
    UnmatchedSignal,
    /// Every sender of the storage's channel is gone.
    Disconnected,
}

/// Where relative asset paths are resolved.
pub struct AssetLoadOptions {
    load_path: String,
}

impl AssetLoadOptions {
    pub closed spec fn spec_load_path(&self) -> Seq<char> {
        self.load_path@
    }

    pub fn new(load_path: String) -> (r: Self)
        ensures
            r.spec_load_path() == load_path@,
    {
        AssetLoadOptions { load_path }
    }

    /// The base directory that relative paths are joined to.
    pub fn load_path(&self) -> (r: &str)
        ensures
            r@ == self.spec_load_path(),
    {
        self.load_path.as_str()
    }
}

/// Owned copies of the strings in a slice.
fn owned_strings(items: &[&str]) -> (r: Vec<String>)
    ensures
        r@.len() == items@.len(),
        forall|i: int| 0 <= i < items@.len() ==> #[trigger] r@[i]@ == items@[i]@,
{
    let mut list: Vec<String> = Vec::new();
    let mut i: usize = 0;
    while i < items.len()
        invariant
            i <= items@.len(),
            list@.len() == i,
            forall|j: int| 0 <= j < i ==> #[trigger] list@[j]@ == items@[j]@,
        decreases items@.len() - i,
    {
        list.push(items[i].to_owned());
        i = i + 1;
    }
    list
}

/// Relies on std::path::Path::extension: the part of the file name after its
/// last dot, which therefore holds no dot itself; a path without a dot has no
/// extension.
#[verifier::external_body]
fn file_extension(path: &str) -> (r: Option<String>)
    ensures
        !path@.contains('.') ==> r is None,
        r matches Some(e) ==> !e@.contains('.') && exists|i: int|
            0 <= i && i + 1 + e@.len() <= path@.len() && path@[i] == '.' && path@.subrange(
                i + 1,
                i + 1 + e@.len(),
            ) == e@,
{
    std::path::Path::new(path).extension().map(|e| e.to_string_lossy().into_owned())
}

/// Loader `i` is the first in `lists` whose list holds `extension`.
pub open spec fn is_first_match(lists: Seq<Seq<Seq<char>>>, extension: Seq<char>, i: int) -> bool {
    &&& 0 <= i < lists.len()
    &&& lists[i].contains(extension)
    &&& forall|j: int| 0 <= j < i ==> !#[trigger] lists[j].contains(extension)
}

/// No list in `lists` holds `extension`.
pub open spec fn no_match(lists: Seq<Seq<Seq<char>>>, extension: Seq<char>) -> bool {
    forall|j: int| 0 <= j < lists.len() ==> !#[trigger] lists[j].contains(extension)
}

/// The views of the strings in a list.
pub open spec fn string_views(list: Seq<String>) -> Seq<Seq<char>> {
    list.map_values(|s: String| s@)
}

/// Whether `list` holds a string equal to `wanted`.
fn list_contains(list: &Vec<String>, wanted: &String) -> (r: bool)
    ensures
        r == string_views(list@).contains(wanted@),
{
    let mut i: usize = 0;
    while i < list.len()
        invariant
            i <= list@.len(),
            forall|j: int| 0 <= j < i ==> list@[j]@ != wanted@,
        decreases list@.len() - i,
    {
        if list[i] == *wanted {
            assert(string_views(list@)[i as int] == wanted@);
            return true;
        }
        i = i + 1;
    }
    assert forall|j: int| 0 <= j < string_views(list@).len() implies string_views(list@)[j]
        != wanted@ by {
        assert(list@[j]@ != wanted@);
    }
    false
}

/// Folds `signals` in order over a copy of `counts`: the new counts and the
/// ids whose count fell to zero, or `None` when a signal does not match.
fn tally_signals<A: Asset>(counts: &HashMap<u32, u32>, signals: &Vec<ReferenceCountSignal<A>>) -> (r:
    Option<(HashMap<u32, u32>, Vec<u32>)>)
    ensures
        match tally(counts@, Seq::empty(), signals@) {
            Some(t) => r matches Some((c, p)) && c@ == t.counts && p@ == t.pending,
            None => r is None,
        },
{
    let mut current = counts.clone();
    let mut pending: Vec<u32> = Vec::new();
    let mut i: usize = 0;
    while i < signals.len()
        invariant
            i <= signals@.len(),
            tally(counts@, Seq::empty(), signals@.take(i as int)) == Some(
                Tally { counts: current@, pending: pending@ },
            ),
        decreases signals@.len() - i,
    {
        assert(signals@.take(i + 1).drop_last() =~= signals@.take(i as int));
        assert(signals@.take(i + 1).last() == signals@[i as int]);
        let key = match &signals[i] {
            ReferenceCountSignal::Increase(id) => id.value(),
            ReferenceCountSignal::Decrease(id) => id.value(),
        };
        let n = match current.get(&key) {
            Some(n) => *n,
            None => {
                proof {
                    lemma_tally_failure_persists(counts@, Seq::empty(), signals@, i + 1);
                }
                return None;
            },
        };
        match &signals[i] {
            ReferenceCountSignal::Increase(_) => {
                if n == u32::MAX {
                    proof {
                        lemma_tally_failure_persists(counts@, Seq::empty(), signals@, i + 1);
                    }
                    return None;
                }
                current.insert(key, n + 1);
            },
            ReferenceCountSignal::Decrease(_) => {
                if n == 0 {
                    proof {
                        lemma_tally_failure_persists(counts@, Seq::empty(), signals@, i + 1);
                    }
                    return None;
                }
                current.insert(key, n - 1);
                if n - 1 == 0 {
                    pending.push(key);
                }
            },
        }
        i = i + 1;
    }
    assert(signals@.take(signals@.len() as int) =~= signals@);
    Some((current, pending))
}

/// The cache of all assets of type `A`, with the loaders that produce them
/// from files read with the help of an application context `C`.
#[verifier::reject_recursive_types(A)]
#[verifier::reject_recursive_types(C)]
pub struct AssetStorage<A: Asset, C: 'static> {
    sender: Sender<ReferenceCountSignal<A>>,
    receiver: Receiver<ReferenceCountSignal<A>>,
    current_id: HandleId<A>,
    loaded_assets: HashMap<u32, Arc<A>>,
    removed_assets: Vec<u32>,
    handle_count: HashMap<u32, u32>,
    asset_loaders: Vec<Box<dyn AssetLoader<A, C>>>,
    loader_extensions: Vec<Vec<String>>,
}

impl<A: Asset, C: 'static> AssetStorage<A, C> {
    /// The id that the next inserted asset receives.
    pub closed spec fn spec_next_id(&self) -> u32 {
        self.current_id.spec_value()
    }

    /// The stored assets by id.
    pub closed spec fn spec_assets(&self) -> Map<u32, A> {
        self.loaded_assets@.map_values(|v: Arc<A>| *v)
    }

    /// The reconciled number of live handles by id.
    pub closed spec fn spec_counts(&self) -> Map<u32, u32> {
        self.handle_count@
    }

    /// The ids that the last maintenance pass evicted, in order.
    pub closed spec fn spec_removed(&self) -> Seq<u32> {
        self.removed_assets@
    }

    /// The extension lists of the registered loaders, in registration order.
    pub closed spec fn spec_extensions(&self) -> Seq<Seq<Seq<char>>> {
        self.loader_extensions@.map_values(|l: Vec<String>| string_views(l@))
    }

    /// Every stored asset has a count, every count an asset, and every id
    /// was issued before.
    pub closed spec fn wf(&self) -> bool {
        &&& self.loaded_assets@.dom() == self.handle_count@.dom()
        &&& forall|k: u32| #[trigger]
            self.handle_count@.contains_key(k) ==> k < self.current_id.spec_value()
        &&& self.asset_loaders@.len() == self.loader_extensions@.len()
    }

    pub fn new() -> (r: Self)
        ensures
            r.wf(),
            r.spec_next_id() == 0,
            r.spec_assets() == Map::<u32, A>::empty(),
            r.spec_counts() == Map::<u32, u32>::empty(),
            r.spec_removed() == Seq::<u32>::empty(),
            r.spec_extensions() == Seq::<Seq<Seq<char>>>::empty(),
    {
        let (sender, receiver) = open_channel();
        let r = AssetStorage {
            sender,
            receiver,
            current_id: HandleId::from_id(0),
            loaded_assets: HashMap::new(),
            removed_assets: Vec::new(),
            handle_count: HashMap::new(),
            asset_loaders: Vec::new(),
            loader_extensions: Vec::new(),
        };
        assert(r.spec_assets() =~= Map::<u32, A>::empty());
        assert(r.spec_extensions() =~= Seq::<Seq<Seq<char>>>::empty());
        r
    }

    /// Appends a loader; loaders registered earlier take precedence.
    pub fn register_loader(&mut self, loader: Box<dyn AssetLoader<A, C>>)
        requires
            old(self).wf(),
        ensures
            final(self).wf(),
            final(self).spec_next_id() == old(self).spec_next_id(),
            final(self).spec_assets() == old(self).spec_assets(),
            final(self).spec_counts() == old(self).spec_counts(),
            final(self).spec_removed() == old(self).spec_removed(),
            final(self).spec_extensions().len() == old(self).spec_extensions().len() + 1,
            final(self).spec_extensions().take(old(self).spec_extensions().len() as int)
                == old(self).spec_extensions(),
    {
        let extensions = owned_strings(loader.extensions());
        let ghost before = self.asset_loaders@;
        self.asset_loaders.push(loader);
        proof {
            vstd::seq::axiom_seq_push_len(before, loader);
        }
        self.loader_extensions.push(extensions);
        assert(self.spec_extensions().take(old(self).spec_extensions().len() as int)
            =~= old(self).spec_extensions());
    }

    /// The index of the first registered loader that reads `extension`.
    pub fn find_loader(&self, extension: &str) -> (r: Option<usize>)
        ensures
            match r {
                Some(i) => is_first_match(self.spec_extensions(), extension@, i as int),
                None => no_match(self.spec_extensions(), extension@),
            },
    {
        let wanted = extension.to_owned();
        let mut i: usize = 0;
        while i < self.loader_extensions.len()
            invariant
                i <= self.loader_extensions@.len(),
                wanted@ == extension@,
                forall|j: int| 0 <= j < i ==> !#[trigger] self.spec_extensions()[j].contains(extension@),
            decreases self.loader_extensions@.len() - i,
        {
            if list_contains(&self.loader_extensions[i], &wanted) {
                return Some(i);
            }
            i = i + 1;
        }
        None
    }

    /// Stores `asset` under a fresh id with a count of zero and returns the
    /// first handle to it, whose creation the next pass counts.
    pub fn insert_asset(&mut self, asset: A) -> (h: Handle<A>)
        requires
            old(self).wf(),
            old(self).spec_next_id() < u32::MAX,
        ensures
            final(self).wf(),
            h.spec_key() == old(self).spec_next_id(),
            h.spec_asset() == asset,
            !old(self).spec_assets().contains_key(old(self).spec_next_id()),
            final(self).spec_next_id() == old(self).spec_next_id() + 1,
            final(self).spec_assets() == old(self).spec_assets().insert(old(self).spec_next_id(), asset),
            final(self).spec_counts() == old(self).spec_counts().insert(old(self).spec_next_id(), 0),
            final(self).spec_removed() == old(self).spec_removed(),
            final(self).spec_extensions() == old(self).spec_extensions(),
    {
        let asset = Arc::new(asset);
        let id = self.current_id.get_next();
        let key = id.value();
        self.loaded_assets.insert(key, asset.clone());
        self.handle_count.insert(key, 0);
        assert(self.spec_assets() =~= old(self).spec_assets().insert(key, *asset));
        Handle::new(id, clone_sender(&self.sender), asset)
    }

    /// The id that the next inserted asset receives.
    pub fn next_id(&self) -> (r: u32)
        ensures
            r == self.spec_next_id(),
    {
        self.current_id.value()
    }

    /// The asset stored under `id`, if it has not been evicted.
    pub fn get_asset(&self, id: HandleId<A>) -> (r: Option<&A>)
        ensures
            match r {
                Some(a) => {
                    &&& self.spec_assets().contains_key(id.spec_value())
                    &&& *a == self.spec_assets()[id.spec_value()]
                },
                None => !self.spec_assets().contains_key(id.spec_value()),
            },
    {
        match self.loaded_assets.get(&id.value()) {
            Some(a) => Some(&**a),
            None => None,
        }
    }

    /// The reconciled number of live handles of `id`, if it is stored.
    pub fn handle_count(&self, id: HandleId<A>) -> (r: Option<u32>)
        ensures
            match r {
                Some(n) => {
                    &&& self.spec_counts().contains_key(id.spec_value())
                    &&& n == self.spec_counts()[id.spec_value()]
                },
                None => !self.spec_counts().contains_key(id.spec_value()),
            },
    {
        match self.handle_count.get(&id.value()) {
            Some(n) => Some(*n),
            None => None,
        }
    }

    /// The map of all stored assets.
    pub fn get_storage(&self) -> (r: &HashMap<u32, Arc<A>>)
        ensures
            r@.map_values(|v: Arc<A>| *v) == self.spec_assets(),
    {
        &self.loaded_assets
    }

    /// Decides which loader reads the file at the resolved `path`, given what
    /// the file system reports about it and the path's extension. The checks
    /// run in this order: existence, being a file, having an extension, and a
    /// loader that reads the extension.
    pub fn select_loader(&self, path: &str, kind: PathKind, extension: Option<&str>) -> (r: Result<
        usize,
        AssetLoadError,
    >)
        ensures
            kind == PathKind::Missing ==> (r matches Err(AssetLoadError::FileDoesNotExist(p))
                && p@ == path@),
            kind == PathKind::NotFile ==> (r matches Err(AssetLoadError::IsNotFile(p)) && p@
                == path@),
            kind == PathKind::File ==> match extension {
                None => r matches Err(AssetLoadError::InvalidExtension),
                Some(e) => match r {
                    Ok(i) => is_first_match(self.spec_extensions(), e@, i as int),
                    Err(AssetLoadError::NoLoaderForExtension(x)) => x@ == e@ && no_match(
                        self.spec_extensions(),
                        e@,
                    ),
                    _ => false,
                },
            },
    {
        match kind {
            PathKind::Missing => Err(AssetLoadError::FileDoesNotExist(path.to_owned())),
            PathKind::NotFile => Err(AssetLoadError::IsNotFile(path.to_owned())),
            PathKind::File => match extension {
                None => Err(AssetLoadError::InvalidExtension),
                Some(e) => match self.find_loader(e) {
                    Some(i) => Ok(i),
                    None => Err(AssetLoadError::NoLoaderForExtension(e.to_owned())),
                },
            },
        }
    }

    /// Loads the file at the resolved `path` with the first loader that reads
    /// its extension and stores the result, as `insert_asset` does. `kind` is
    /// what the file system reports about `path`; nothing is loaded and the
    /// storage is unchanged unless it is a regular file with an extension
    /// that some loader reads and that loader succeeds.
    pub fn load_file(&mut self, context: &C, path: &str, kind: PathKind) -> (r: Result<
        Handle<A>,
        AssetLoadError,
    >)
        requires
            old(self).wf(),
            old(self).spec_next_id() < u32::MAX,
        ensures
            final(self).wf(),
            final(self).spec_extensions() == old(self).spec_extensions(),
            final(self).spec_removed() == old(self).spec_removed(),
            kind == PathKind::Missing ==> (r matches Err(AssetLoadError::FileDoesNotExist(p))
                && p@ == path@),
            kind == PathKind::NotFile ==> (r matches Err(AssetLoadError::IsNotFile(p)) && p@
                == path@),
            kind == PathKind::File && old(self).spec_extensions().len() == 0 ==> (r matches Err(
                AssetLoadError::InvalidExtension,
            ) || r matches Err(AssetLoadError::NoLoaderForExtension(_))),
            r matches Err(AssetLoadError::InvalidCastType(_, _)) ==> false,
            r matches Err(AssetLoadError::FileDoesNotExist(_)) ==> kind == PathKind::Missing,
            r matches Err(AssetLoadError::IsNotFile(_)) ==> kind == PathKind::NotFile,
            r matches Err(AssetLoadError::InvalidExtension) ==> kind == PathKind::File,
            r matches Err(AssetLoadError::NoLoaderForExtension(x)) ==> kind == PathKind::File
                && no_match(old(self).spec_extensions(), x@),
            (r is Ok || r matches Err(AssetLoadError::Other(_))) ==> kind == PathKind::File
                && exists|e: Seq<char>, i: int| is_first_match(old(self).spec_extensions(), e, i),
            match r {
                Ok(h) => {
                    &&& h.spec_key() == old(self).spec_next_id()
                    &&& final(self).spec_next_id() == old(self).spec_next_id() + 1
                    &&& final(self).spec_assets() == old(self).spec_assets().insert(
                        old(self).spec_next_id(),
                        h.spec_asset(),
                    )
                    &&& final(self).spec_counts() == old(self).spec_counts().insert(
                        old(self).spec_next_id(),
                        0,
                    )
                },
                Err(_) => {
                    &&& final(self).spec_next_id() == old(self).spec_next_id()
                    &&& final(self).spec_assets() == old(self).spec_assets()
                    &&& final(self).spec_counts() == old(self).spec_counts()
                },
            },
    {
        let extension = if kind == PathKind::File {
            file_extension(path)
        } else {
            None
        };
        let borrowed = match &extension {
            Some(e) => Some(e.as_str()),
            None => None,
        };
        let index = match self.select_loader(path, kind, borrowed) {
            Ok(i) => i,
            Err(e) => return Err(e),
        };
        match self.asset_loaders[index].load_path(context, path) {
            Ok(asset) => Ok(self.insert_asset(asset)),
            Err(e) => Err(AssetLoadError::Other(e)),
        }
    }

    /// Applies a batch of lifecycle signals in order, then evicts every id
    /// whose count fell to zero on a decrease. The previous pass's list of
    /// evicted ids is replaced by this pass's. A batch with a signal that
    /// does not match the counts is refused as a whole and changes nothing.
    pub fn reconcile(&mut self, signals: &Vec<ReferenceCountSignal<A>>) -> (r: Result<(), MaintenanceError>)
        ensures
            old(self).wf() ==> final(self).wf(),
            final(self).spec_next_id() == old(self).spec_next_id(),
            final(self).spec_extensions() == old(self).spec_extensions(),
            match maintained(old(self).spec_assets(), old(self).spec_counts(), signals@) {
                Some(p) => {
                    &&& r == Ok::<(), MaintenanceError>(())
                    &&& final(self).spec_assets() == p.assets
                    &&& final(self).spec_counts() == p.counts
                    &&& final(self).spec_removed() == p.removed
                },
                None => {
                    &&& r == Err::<(), MaintenanceError>(MaintenanceError::UnmatchedSignal)
                    &&& final(self).spec_assets() == old(self).spec_assets()
                    &&& final(self).spec_counts() == old(self).spec_counts()
                    &&& final(self).spec_removed() == old(self).spec_removed()
                },
            },
    {
        let (counted, pending) = match tally_signals(&self.handle_count, signals) {
            Some(t) => t,
            None => return Err(MaintenanceError::UnmatchedSignal),
        };
        proof {
            lemma_tally_keeps_keys(old(self).handle_count@, Seq::empty(), signals@);
        }
        self.handle_count = counted;
        self.removed_assets = pending;
        let ghost counts = self.handle_count@;
        let ghost pend = self.removed_assets@;
        let mut j: usize = 0;
        while j < self.removed_assets.len()
            invariant
                j <= pend.len(),
                self.removed_assets@ == pend,
                self.current_id == old(self).current_id,
                self.loader_extensions@ == old(self).loader_extensions@,
                self.asset_loaders@ == old(self).asset_loaders@,
                counts.dom() == old(self).handle_count@.dom(),
                self.loaded_assets@ == old(self).loaded_assets@.remove_keys(
                    pend.take(j as int).to_set(),
                ),
                self.handle_count@ == counts.remove_keys(pend.take(j as int).to_set()),
            decreases pend.len() - j,
        {
            let key = self.removed_assets[j];
            self.loaded_assets.remove(&key);
            self.handle_count.remove(&key);
            assert(pend.take(j + 1) =~= pend.take(j as int).push(key));
            proof {
                pend.take(j as int).lemma_push_to_set_commute(key);
            }
            assert(pend.take(j + 1).to_set() =~= pend.take(j as int).to_set().insert(key));
            assert(self.loaded_assets@ =~= old(self).loaded_assets@.remove_keys(
                pend.take(j + 1).to_set(),
            ));
            assert(self.handle_count@ =~= counts.remove_keys(pend.take(j + 1).to_set()));
            j = j + 1;
        }
        assert(pend.take(pend.len() as int) =~= pend);
        assert(self.spec_assets() =~= old(self).spec_assets().remove_keys(pend.to_set()));
        assert(old(self).wf() ==> self.loaded_assets@.dom() =~= self.handle_count@.dom());
        Ok(())
    }

    /// Takes every signal queued on the channel, without blocking.
    fn drain_signals(&self) -> (r: Result<Vec<ReferenceCountSignal<A>>, MaintenanceError>)
        ensures
            r is Err ==> r == Err::<Vec<ReferenceCountSignal<A>>, MaintenanceError>(
                MaintenanceError::Disconnected,
            ),
    {
        let mut signals: Vec<ReferenceCountSignal<A>> = Vec::new();
        while signals.len() < usize::MAX
            decreases usize::MAX - signals@.len(),
        {
            match poll_message(&self.receiver) {
                Polled::Ready(signal) => signals.push(signal),
                Polled::Empty => break,
                Polled::Disconnected => return Err(MaintenanceError::Disconnected),
            }
        }
        Ok(signals)
    }

    /// The maintenance pass: drains the channel and reconciles what it held.
    /// Whatever the handles announced, the result is a pass over some
    /// sequence of signals.
    pub fn update_handles(&mut self) -> (r: Result<(), MaintenanceError>)
        ensures
            old(self).wf() ==> final(self).wf(),
            final(self).spec_next_id() == old(self).spec_next_id(),
            final(self).spec_extensions() == old(self).spec_extensions(),
            r is Ok ==> exists|signals: Seq<ReferenceCountSignal<A>>|
                maintained(old(self).spec_assets(), old(self).spec_counts(), signals) == Some(
                    PassOutcome {
                        assets: final(self).spec_assets(),
                        counts: final(self).spec_counts(),
                        removed: final(self).spec_removed(),
                    },
                ),
            r is Err ==> final(self).spec_assets() == old(self).spec_assets(),
            r == Err::<(), MaintenanceError>(MaintenanceError::Disconnected) ==> {
                &&& final(self).spec_counts() == old(self).spec_counts()
                &&& final(self).spec_removed() == old(self).spec_removed()
            },
    {
        let signals = match self.drain_signals() {
            Ok(signals) => signals,
            Err(e) => return Err(e),
        };
        let r = self.reconcile(&signals);
        assert(r is Ok ==> maintained(old(self).spec_assets(), old(self).spec_counts(), signals@)
            == Some(
            PassOutcome {
                assets: self.spec_assets(),
                counts: self.spec_counts(),
                removed: self.spec_removed(),
            },
        ));
        r
    }

    /// The ids that the last maintenance pass evicted.
    pub fn removed_assets(&self) -> (r: &Vec<u32>)
        ensures
            r@ == self.spec_removed(),
    {
        &self.removed_assets
    }
}


} // verus!
