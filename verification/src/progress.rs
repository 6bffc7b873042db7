//! The progress of a transfer, kept up to date from the events of a download.

use std::collections::hash_map::Entry;
use std::collections::HashMap;
use vstd::prelude::*;

verus! {

broadcast use vstd::std_specs::hash::group_hash_axioms;

/// The progress identifier for individual blobs.
pub type ProgressId = u64;

/// The size of a blob, and whether it was checked against the blob's hash.
#[derive(Debug, Clone, Copy, PartialEq, Eq, Structural)]
pub enum BaoBlobSize {
    /// A size that the remote claimed.
    Unverified(u64),
    /// A size that was checked.
    Verified(u64),
}

impl BaoBlobSize {
    /// The size, checked or not.
    pub fn value(&self) -> (size: u64)
        ensures
            size == match *self {
                BaoBlobSize::Unverified(n) => n,
                BaoBlobSize::Verified(n) => n,
            },
    {
        match self {
            BaoBlobSize::Unverified(n) => *n,
            BaoBlobSize::Verified(n) => *n,
        }
    }
}

/// The chunk ranges of a blob, as the offsets at which membership flips.
#[derive(Debug, Clone, PartialEq, Eq)]
pub struct RangeSpec(pub Vec<u64>);

/// What a download reports while it runs.
#[allow(inconsistent_fields)]
#[derive(Debug, Clone)]
pub enum DownloadProgress {
    /// Data was found locally.
    FoundLocal {
        /// Child number: 0 for the root, the position of the child otherwise.
        child: u64,
        /// The hash of the blob.
        hash: crate::hash::Hash,
        /// The size of the blob.
        size: BaoBlobSize,
        /// The ranges that are present and valid.
        valid_ranges: RangeSpec,
    },
    /// A node was connected to.
    Connected,
    /// An item was found on the remote; the following events of this item
    /// carry `id`.
    Found {
        /// The identifier under which progress of this item is reported.
        id: u64,
        /// Child number: 0 for the root, the position of the child otherwise.
        child: u64,
        /// The hash of the blob.
        hash: crate::hash::Hash,
        /// The size of the blob.
        size: u64,
    },
    /// The item with the given hash turned out to be a sequence of hashes.
    FoundHashSeq {
        /// The hash of the sequence.
        hash: crate::hash::Hash,
        /// The number of children in it.
        children: u64,
    },
    /// Data of the item `id` arrived, up to `offset`.
    Progress {
        /// The identifier of the item.
        id: u64,
        /// The offset reached.
        offset: u64,
    },
    /// The item `id` is complete.
    Done {
        /// The identifier of the item.
        id: u64,
    },
    /// The whole download is complete.
    AllDone,
    /// The download failed.
    Abort,
}

/// The id of a blob in a transfer
#[derive(Debug, Copy, Clone, Ord, PartialOrd, Eq, PartialEq, Hash, Structural)]
pub enum BlobId {
    /// The root blob (child id 0)
    Root,
    /// A child blob (child id > 0)
    Child(u64),
}

impl BlobId {
    /// A child is never numbered 0: that number is the root's.
    pub open spec fn wf(self) -> bool {
        self matches BlobId::Child(id) ==> id != 0
    }

    /// The blob with the given child number.
    pub open spec fn spec_from_child_id(id: u64) -> BlobId {
        if id == 0 {
            BlobId::Root
        } else {
            BlobId::Child(id)
        }
    }

    /// The child number of the blob.
    pub open spec fn spec_child_id(self) -> u64 {
        match self {
            BlobId::Root => 0,
            BlobId::Child(id) => id,
        }
    }

    /// The blob with the given child number.
    pub fn from_child_id(id: u64) -> (blob: Self)
        ensures
            blob == Self::spec_from_child_id(id),
            blob.wf(),
            blob.spec_child_id() == id,
    {
        match id {
            0 => BlobId::Root,
            _ => BlobId::Child(id),
        }
    }
}

impl From<BlobId> for u64 {
    fn from(value: BlobId) -> (id: u64) {
        match value {
            BlobId::Root => 0,
            BlobId::Child(id) => id,
        }
    }
}

impl vstd::std_specs::convert::FromSpecImpl<BlobId> for u64 {
    open spec fn obeys_from_spec() -> bool {
        true
    }

    open spec fn from_spec(value: BlobId) -> u64 {
        value.spec_child_id()
    }
}

/// Progress state for a single blob
#[derive(Debug, Clone, Copy, PartialEq, Eq, Structural)]
pub enum ProgressState {
    /// Download is pending
    Pending,
    /// Download is in progress
    Progressing(u64),
    /// Download has finished
    Done,
}

impl Default for ProgressState {
    fn default() -> (state: Self)
        ensures
            state == ProgressState::Pending,
    {
        ProgressState::Pending
    }
}

/// State of a single blob in transfer
#[derive(Debug, Clone, PartialEq, Eq)]
pub struct BlobState {
    /// The hash of this blob.
    pub hash: crate::hash::Hash,
    /// The size of this blob. Only known if the blob is partially present locally, or after having
    /// received the size from the remote.
    pub size: Option<BaoBlobSize>,
    /// The current state of the blob transfer.
    pub progress: ProgressState,
    /// Ranges already available locally at the time of starting the transfer.
    pub local_ranges: Option<RangeSpec>,
    /// Number of children (only applies to hashseqs, None for raw blobs).
    pub child_count: Option<u64>,
}

impl BlobState {
    /// The state of a blob of which only the hash is known.
    pub open spec fn spec_new(hash: crate::hash::Hash) -> BlobState {
        BlobState {
            hash,
            size: None,
            local_ranges: None,
            child_count: None,
            progress: ProgressState::Pending,
        }
    }

    /// Create a new [`BlobState`].
    pub fn new(hash: crate::hash::Hash) -> (blob: Self)
        ensures
            blob == Self::spec_new(hash),
    {
        Self {
            hash,
            size: None,
            local_ranges: None,
            child_count: None,
            progress: ProgressState::default(),
        }
    }
}

/// What a transfer state is, as far as contracts are concerned.
#[verifier::ext_equal]
pub struct TransferView {
    /// The state of the root blob.
    pub root: BlobState,
    /// Whether a node is connected.
    pub connected: bool,
    /// The state of each child that was seen, by its child number.
    pub children: Map<u64, BlobState>,
    /// The blob that is being transferred.
    pub current: Option<BlobId>,
    /// The blob that each progress identifier stands for.
    pub progress_ids: Map<u64, BlobId>,
}

impl TransferView {
    /// The state of a transfer of which only the root's hash is known.
    pub open spec fn new(root_hash: crate::hash::Hash) -> TransferView {
        TransferView {
            root: BlobState::spec_new(root_hash),
            connected: false,
            children: Map::empty(),
            current: None,
            progress_ids: Map::empty(),
        }
    }

    /// The state of the blob `id`, if it was seen.
    pub open spec fn blob(self, id: BlobId) -> Option<BlobState> {
        match id {
            BlobId::Root => Some(self.root),
            BlobId::Child(n) => if self.children.contains_key(n) {
                Some(self.children[n])
            } else {
                None
            },
        }
    }

    /// The state of the blob `id`, or that of a blob of which only `hash`
    /// is known if `id` was not seen yet.
    pub open spec fn blob_or_new(self, id: BlobId, hash: crate::hash::Hash) -> BlobState {
        match self.blob(id) {
            Some(blob) => blob,
            None => BlobState::spec_new(hash),
        }
    }

    /// This state with `blob` as the state of the blob `id`.
    pub open spec fn with_blob(self, id: BlobId, blob: BlobState) -> TransferView {
        match id {
            BlobId::Root => TransferView { root: blob, ..self },
            BlobId::Child(n) => TransferView { children: self.children.insert(n, blob), ..self },
        }
    }

    /// The blob that the progress identifier `id` stands for, if the
    /// identifier is known and its blob was seen.
    pub open spec fn blob_of_progress(self, id: u64) -> Option<BlobId> {
        if self.progress_ids.contains_key(id) && self.blob(self.progress_ids[id]) is Some {
            Some(self.progress_ids[id])
        } else {
            None
        }
    }

    /// The state of the blob that is being transferred, if there is one and
    /// it was seen.
    pub open spec fn current_blob(self) -> Option<BlobState> {
        match self.current {
            Some(id) => self.blob(id),
            None => None,
        }
    }

    /// The state after the download reported `event`.
    pub open spec fn on_progress(self, event: DownloadProgress) -> TransferView {
        match event {
            DownloadProgress::FoundLocal { child, hash, size, valid_ranges } => {
                let id = BlobId::spec_from_child_id(child);
                let blob = self.blob_or_new(id, hash);
                self.with_blob(
                    id,
                    BlobState { size: Some(size), local_ranges: Some(valid_ranges), ..blob },
                )
            },
            DownloadProgress::Connected => TransferView { connected: true, ..self },
            DownloadProgress::Found { id: progress_id, child, hash, size } => {
                let id = BlobId::spec_from_child_id(child);
                let blob = self.blob_or_new(id, hash);
                let known = if blob.size is None {
                    Some(BaoBlobSize::Verified(size))
                } else {
                    blob.size
                };
                TransferView {
                    progress_ids: self.progress_ids.insert(progress_id, id),
                    current: Some(id),
                    ..self.with_blob(
                        id,
                        BlobState { size: known, progress: ProgressState::Progressing(0), ..blob },
                    )
                }
            },
            DownloadProgress::FoundHashSeq { hash, children } => {
                if hash == self.root.hash {
                    TransferView {
                        root: BlobState { child_count: Some(children), ..self.root },
                        ..self
                    }
                } else {
                    self
                }
            },
            DownloadProgress::Progress { id, offset } => {
                match self.blob_of_progress(id) {
                    Some(blob_id) => self.with_blob(
                        blob_id,
                        BlobState {
                            progress: ProgressState::Progressing(offset),
                            ..self.blob(blob_id).unwrap()
                        },
                    ),
                    None => self,
                }
            },
            DownloadProgress::Done { id } => {
                match self.blob_of_progress(id) {
                    Some(blob_id) => TransferView {
                        progress_ids: self.progress_ids.remove(id),
                        ..self.with_blob(
                            blob_id,
                            BlobState {
                                progress: ProgressState::Done,
                                ..self.blob(blob_id).unwrap()
                            },
                        )
                    },
                    None => self,
                }
            },
            DownloadProgress::AllDone => self,
            DownloadProgress::Abort => self,
        }
    }
}

/// Progress state of a transfer
#[derive(Debug, Clone)]
pub struct TransferState {
    /// The root blob of this transfer (may be a hash seq),
    pub root: BlobState,
    /// Whether we are connected to a node
    pub connected: bool,
    /// Children if the root blob is a hash seq, empty for raw blobs
    pub children: HashMap<u64, BlobState>,
    /// Child being transferred at the moment.
    pub current: Option<BlobId>,
    /// Progress ids for individual blobs.
    pub progress_ids: HashMap<ProgressId, BlobId>,
}

impl View for TransferState {
    type V = TransferView;

    open spec fn view(&self) -> TransferView {
        TransferView {
            root: self.root,
            connected: self.connected,
            children: self.children@,
            current: self.current,
            progress_ids: self.progress_ids@,
        }
    }
}

impl TransferState {
    /// Create a new, empty transfer state.
    pub fn new(root_hash: crate::hash::Hash) -> (state: Self)
        ensures
            state@ == TransferView::new(root_hash),
    {
        Self {
            root: BlobState::new(root_hash),
            connected: false,
            children: HashMap::new(),
            current: None,
            progress_ids: HashMap::new(),
        }
    }

    /// Get state of the root blob of this transfer.
    pub fn root(&self) -> (blob: &BlobState)
        ensures
            *blob == self@.root,
    {
        &self.root
    }

    /// Get a blob state by its [`BlobId`] in this transfer.
    pub fn get_blob(&self, blob_id: &BlobId) -> (blob: Option<&BlobState>)
        ensures
            match blob {
                Some(b) => self@.blob(*blob_id) == Some(*b),
                None => self@.blob(*blob_id) is None,
            },
    {
        match blob_id {
            BlobId::Root => Some(&self.root),
            BlobId::Child(id) => self.children.get(id),
        }
    }

    /// Get the blob state currently being transferred.
    pub fn get_current(&self) -> (blob: Option<&BlobState>)
        ensures
            match blob {
                Some(b) => self@.current_blob() == Some(*b),
                None => self@.current_blob() is None,
            },
    {
        match &self.current {
            Some(id) => self.get_blob(id),
            None => None,
        }
    }

    fn get_or_insert_blob(&mut self, blob_id: BlobId, hash: crate::hash::Hash) -> (blob:
        &mut BlobState)
        ensures
            *blob == old(self)@.blob_or_new(blob_id, hash),
            final(self)@ == old(self)@.with_blob(blob_id, *final(blob)),
    {
        match blob_id {
            BlobId::Root => &mut self.root,
            BlobId::Child(id) => self.children.entry(id).or_insert(BlobState::new(hash)),
        }
    }

    fn get_blob_mut(&mut self, blob_id: &BlobId) -> (blob: Option<&mut BlobState>)
        ensures
            match blob {
                Some(b) => {
                    &&& old(self)@.blob(*blob_id) == Some(*b)
                    &&& final(self)@ == old(self)@.with_blob(*blob_id, *final(b))
                },
                None => old(self)@.blob(*blob_id) is None && final(self)@ == old(self)@,
            },
    {
        match blob_id {
            BlobId::Root => Some(&mut self.root),
            BlobId::Child(id) => match self.children.entry(*id) {
                Entry::Occupied(entry) => Some(entry.into_mut()),
                Entry::Vacant(_) => None,
            },
        }
    }

    fn get_by_progress_id(&mut self, progress_id: ProgressId) -> (blob: Option<&mut BlobState>)
        ensures
            match blob {
                Some(b) => {
                    &&& old(self)@.blob_of_progress(progress_id) is Some
                    &&& old(self)@.blob(old(self)@.blob_of_progress(progress_id).unwrap()) == Some(
                        *b,
                    )
                    &&& final(self)@ == old(self)@.with_blob(
                        old(self)@.blob_of_progress(progress_id).unwrap(),
                        *final(b),
                    )
                },
                None => old(self)@.blob_of_progress(progress_id) is None && final(self)@ == old(
                    self,
                )@,
            },
    {
        let blob_id = match self.progress_ids.get(&progress_id) {
            Some(id) => *id,
            None => {
                return None;
            },
        };
        self.get_blob_mut(&blob_id)
    }

    /// Update the state with a new [`DownloadProgress`] event for this transfer.
    pub fn on_progress(&mut self, event: DownloadProgress)
        ensures
            final(self)@ == old(self)@.on_progress(event),
    {
        match event {
            DownloadProgress::FoundLocal { child, hash, size, valid_ranges } => {
                let blob = self.get_or_insert_blob(BlobId::from_child_id(child), hash);
                blob.size = Some(size);
                blob.local_ranges = Some(valid_ranges);
            },
            DownloadProgress::Connected => self.connected = true,
            DownloadProgress::Found { id: progress_id, child, hash, size } => {
                let blob_id = BlobId::from_child_id(child);
                let blob = self.get_or_insert_blob(blob_id, hash);
                if blob.size.is_none() {
                    blob.size = Some(BaoBlobSize::Verified(size));
                }
                blob.progress = ProgressState::Progressing(0);
                self.progress_ids.insert(progress_id, blob_id);
                self.current = Some(blob_id);
            },
            DownloadProgress::FoundHashSeq { hash, children } => {
                if hash == self.root.hash {
                    self.root.child_count = Some(children);
                }
            },
            DownloadProgress::Progress { id, offset } => {
                if let Some(blob) = self.get_by_progress_id(id) {
                    blob.progress = ProgressState::Progressing(offset);
                }
            },
            DownloadProgress::Done { id } => {
                if let Some(blob) = self.get_by_progress_id(id) {
                    blob.progress = ProgressState::Done;
                    self.progress_ids.remove(&id);
                }
            },
            _ => {},
        }
    }
}

} // verus!
