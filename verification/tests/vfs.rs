use lazuli::vfs::{entry_parents, FsEntry};

#[test]
fn files_sit_in_the_directory_that_encloses_them() {
    // 1: file, 2: directory holding 3, 4: file back in the root.
    let entries = [FsEntry::File, FsEntry::Directory { end_index: 4 }, FsEntry::File, FsEntry::File];
    assert_eq!(entry_parents(&entries, 5), vec![0, 0, 2, 0]);
}

#[test]
fn directories_ending_together_close_together() {
    // 1 holds 2, which holds 3; both end before 4.
    let entries = [
        FsEntry::Directory { end_index: 4 },
        FsEntry::Directory { end_index: 4 },
        FsEntry::File,
        FsEntry::File,
    ];
    assert_eq!(entry_parents(&entries, 5), vec![0, 1, 2, 0]);
}

#[test]
fn an_empty_table_has_no_entries() {
    assert_eq!(entry_parents(&[], 1), Vec::<u32>::new());
}
