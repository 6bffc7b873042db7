use willow_session::progress::{
    BaoBlobSize, BlobId, BlobState, DownloadProgress, ProgressState, RangeSpec, TransferState,
};

fn hash_of(tag: u8) -> willow_session::hash::Hash {
    willow_session::hash::Hash::from_bytes([tag; 32])
}

#[test]
fn new_blob_state_knows_only_the_hash() {
    let blob = BlobState::new(hash_of(1));
    assert_eq!(blob.hash, hash_of(1));
    assert_eq!(blob.size, None);
    assert_eq!(blob.progress, ProgressState::Pending);
    assert_eq!(blob.local_ranges, None);
    assert_eq!(blob.child_count, None);
    assert_eq!(ProgressState::default(), ProgressState::Pending);
    assert_eq!(hash_of(1).as_bytes(), &[1u8; 32]);
    assert_ne!(hash_of(1), hash_of(2));
}

#[test]
fn new_transfer_state_is_empty() {
    let state = TransferState::new(hash_of(1));
    assert_eq!(state.root(), &BlobState::new(hash_of(1)));
    assert!(!state.connected);
    assert!(state.children.is_empty());
    assert_eq!(state.current, None);
    assert!(state.progress_ids.is_empty());
    assert_eq!(state.get_current(), None);
    assert_eq!(state.get_blob(&BlobId::Root), Some(&BlobState::new(hash_of(1))));
    assert_eq!(state.get_blob(&BlobId::Child(1)), None);
}

#[test]
fn blob_id_from_child_number() {
    assert_eq!(BlobId::from_child_id(0), BlobId::Root);
    assert_eq!(BlobId::from_child_id(1), BlobId::Child(1));
    assert_eq!(BlobId::from_child_id(u64::MAX), BlobId::Child(u64::MAX));
    assert_eq!(u64::from(BlobId::Root), 0);
    assert_eq!(u64::from(BlobId::Child(17)), 17);
    assert!(BlobId::Root < BlobId::Child(1));
}

#[test]
fn blob_size_value() {
    assert_eq!(BaoBlobSize::Verified(5).value(), 5);
    assert_eq!(BaoBlobSize::Unverified(6).value(), 6);
}

#[test]
fn connected_sets_the_flag() {
    let mut state = TransferState::new(hash_of(1));
    state.on_progress(DownloadProgress::Connected);
    assert!(state.connected);
    assert_eq!(state.root(), &BlobState::new(hash_of(1)));
}

#[test]
fn found_local_records_size_and_ranges() {
    let mut state = TransferState::new(hash_of(1));
    state.on_progress(DownloadProgress::FoundLocal {
        child: 0,
        hash: hash_of(9),
        size: BaoBlobSize::Unverified(100),
        valid_ranges: RangeSpec(vec![0, 4]),
    });
    assert_eq!(state.root.hash, hash_of(1));
    assert_eq!(state.root.size, Some(BaoBlobSize::Unverified(100)));
    assert_eq!(state.root.local_ranges, Some(RangeSpec(vec![0, 4])));
    state.on_progress(DownloadProgress::FoundLocal {
        child: 2,
        hash: hash_of(2),
        size: BaoBlobSize::Verified(7),
        valid_ranges: RangeSpec(vec![]),
    });
    let child = state.get_blob(&BlobId::Child(2)).cloned();
    assert_eq!(
        child,
        Some(BlobState {
            hash: hash_of(2),
            size: Some(BaoBlobSize::Verified(7)),
            progress: ProgressState::Pending,
            local_ranges: Some(RangeSpec(vec![])),
            child_count: None,
        })
    );
    assert_eq!(state.current, None);
}

#[test]
fn found_starts_progress_and_keeps_a_known_size() {
    let mut state = TransferState::new(hash_of(1));
    state.on_progress(DownloadProgress::FoundLocal {
        child: 0,
        hash: hash_of(1),
        size: BaoBlobSize::Unverified(100),
        valid_ranges: RangeSpec(vec![0, 4]),
    });
    state.on_progress(DownloadProgress::Found { id: 5, child: 0, hash: hash_of(1), size: 200 });
    assert_eq!(state.root.size, Some(BaoBlobSize::Unverified(100)));
    assert_eq!(state.root.progress, ProgressState::Progressing(0));
    assert_eq!(state.current, Some(BlobId::Root));
    assert_eq!(state.progress_ids.get(&5), Some(&BlobId::Root));

    state.on_progress(DownloadProgress::Found { id: 6, child: 3, hash: hash_of(3), size: 300 });
    let child = state.get_current().cloned();
    assert_eq!(
        child,
        Some(BlobState {
            hash: hash_of(3),
            size: Some(BaoBlobSize::Verified(300)),
            progress: ProgressState::Progressing(0),
            local_ranges: None,
            child_count: None,
        })
    );
    assert_eq!(state.current, Some(BlobId::Child(3)));
    assert_eq!(state.progress_ids.get(&6), Some(&BlobId::Child(3)));
    assert_eq!(state.children.len(), 1);
}

#[test]
fn found_hash_seq_counts_children_of_the_root_only() {
    let mut state = TransferState::new(hash_of(1));
    state.on_progress(DownloadProgress::FoundHashSeq { hash: hash_of(2), children: 9 });
    assert_eq!(state.root.child_count, None);
    state.on_progress(DownloadProgress::FoundHashSeq { hash: hash_of(1), children: 9 });
    assert_eq!(state.root.child_count, Some(9));
}

#[test]
fn progress_and_done_follow_the_progress_id() {
    let mut state = TransferState::new(hash_of(1));
    state.on_progress(DownloadProgress::Found { id: 7, child: 3, hash: hash_of(3), size: 100 });
    state.on_progress(DownloadProgress::Progress { id: 7, offset: 50 });
    assert_eq!(state.children.get(&3).map(|b| b.progress), Some(ProgressState::Progressing(50)));
    state.on_progress(DownloadProgress::Progress { id: 8, offset: 60 });
    assert_eq!(state.children.get(&3).map(|b| b.progress), Some(ProgressState::Progressing(50)));
    assert_eq!(state.root.progress, ProgressState::Pending);
    state.on_progress(DownloadProgress::Done { id: 8 });
    assert_eq!(state.progress_ids.len(), 1);
    state.on_progress(DownloadProgress::Done { id: 7 });
    assert_eq!(state.children.get(&3).map(|b| b.progress), Some(ProgressState::Done));
    assert!(state.progress_ids.is_empty());
    state.on_progress(DownloadProgress::Progress { id: 7, offset: 70 });
    assert_eq!(state.children.get(&3).map(|b| b.progress), Some(ProgressState::Done));
    assert_eq!(state.current, Some(BlobId::Child(3)));
}

#[test]
fn all_done_and_abort_change_nothing() {
    let mut state = TransferState::new(hash_of(1));
    state.on_progress(DownloadProgress::Found { id: 1, child: 0, hash: hash_of(1), size: 10 });
    let root = state.root.clone();
    state.on_progress(DownloadProgress::AllDone);
    state.on_progress(DownloadProgress::Abort);
    assert_eq!(state.root, root);
    assert_eq!(state.current, Some(BlobId::Root));
    assert_eq!(state.progress_ids.len(), 1);
    assert!(!state.connected);
}
