use preview_cache::prune::{
    prune_preview_cache, DirEntry, FileMetadata, PREVIEW_CACHE_MAX_FILES,
    PREVIEW_CACHE_MAX_TOTAL_BYTES,
};

const MIB: u64 = 1024 * 1024;

fn file(modified: i128, len: u64) -> DirEntry {
    DirEntry { is_file: true, metadata: Some(FileMetadata { modified: Some(modified), len }) }
}

#[test]
fn limits() {
    assert_eq!(PREVIEW_CACHE_MAX_FILES, 30);
    assert_eq!(PREVIEW_CACHE_MAX_TOTAL_BYTES, 83_886_080);
}

#[test]
fn cache_within_limits_is_untouched() {
    assert!(prune_preview_cache(&vec![]).is_empty());
    let entries: Vec<DirEntry> = (0..30).map(|i| file(100 - i, 1)).collect();
    assert!(prune_preview_cache(&entries).is_empty());
    assert!(prune_preview_cache(&vec![file(1, 80 * MIB)]).is_empty());
}

#[test]
fn too_many_files_lose_the_oldest() {
    let entries: Vec<DirEntry> = (0..33).map(|i| file(1000 - i, 1)).collect();
    assert_eq!(prune_preview_cache(&entries), vec![32, 31, 30]);
}

#[test]
fn too_many_bytes_lose_the_oldest() {
    let entries = vec![file(3, 50 * MIB), file(1, 20 * MIB), file(2, 20 * MIB), file(4, 10 * MIB)];
    assert_eq!(prune_preview_cache(&entries), vec![1]);
    let entries = vec![file(3, 50 * MIB), file(1, MIB), file(2, 20 * MIB), file(4, 30 * MIB)];
    assert_eq!(prune_preview_cache(&entries), vec![1, 2]);
}

#[test]
fn one_oversized_file_goes_too() {
    assert_eq!(prune_preview_cache(&vec![file(1, 80 * MIB + 1)]), vec![0]);
    assert_eq!(prune_preview_cache(&vec![file(2, 81 * MIB), file(1, 0)]), vec![1, 0]);
}

#[test]
fn equally_old_files_go_in_listing_order() {
    let entries: Vec<DirEntry> = (0..32).map(|_| file(5, 1)).collect();
    assert_eq!(prune_preview_cache(&entries), vec![0, 1]);
}

#[test]
fn unknown_times_count_as_the_epoch() {
    let mut entries: Vec<DirEntry> = (0..30).map(|i| file(10 + i, 1)).collect();
    entries.push(DirEntry { is_file: true, metadata: Some(FileMetadata { modified: None, len: 1 }) });
    entries.push(file(-1, 1));
    assert_eq!(prune_preview_cache(&entries), vec![31, 30]);
}

#[test]
fn only_files_with_metadata_count() {
    let mut entries: Vec<DirEntry> = (0..30).map(|i| file(10 + i, 1)).collect();
    entries.push(DirEntry { is_file: false, metadata: Some(FileMetadata { modified: Some(0), len: 90 * MIB }) });
    entries.push(DirEntry { is_file: true, metadata: None });
    assert!(prune_preview_cache(&entries).is_empty());
}

#[test]
fn pruning_again_removes_nothing() {
    let entries: Vec<DirEntry> = (0..50).map(|i| file((i * 7919) % 53, (i as u64) * MIB)).collect();
    let plan = prune_preview_cache(&entries);
    let rest: Vec<DirEntry> = (0..50).filter(|i| !plan.contains(i)).map(|i| entries[i]).collect();
    let total: u64 = rest.iter().map(|e| e.metadata.unwrap().len).sum();
    assert!(rest.len() <= 30 && total <= 80 * MIB);
    assert!(prune_preview_cache(&rest).is_empty());
    let newest_gone = plan.iter().map(|&i| entries[i].metadata.unwrap().modified).max().unwrap();
    assert!(rest.iter().all(|e| e.metadata.unwrap().modified >= newest_gone));
}

#[test]
fn other_entries_do_not_matter() {
    let mut entries: Vec<DirEntry> = (0..32).map(|i| file(10 + i, 1)).collect();
    entries.insert(1, DirEntry { is_file: false, metadata: None });
    entries.insert(5, DirEntry { is_file: true, metadata: None });
    let plan = prune_preview_cache(&entries);
    assert_eq!(plan, vec![0, 2]);
    entries[1].metadata = Some(FileMetadata { modified: Some(-9), len: 90 * MIB });
    entries[5] = DirEntry { is_file: false, metadata: Some(FileMetadata { modified: None, len: 1 }) };
    assert_eq!(prune_preview_cache(&entries), plan);
}
