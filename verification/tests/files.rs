use postal_core::files::{
    archive_name, check_fetch_status, downloaded_archive_name, entry_to_extract, feed_name, next_copy_len,
    path_in, prefecture_resource_name, FetchError, UnpackError, COPY_CHUNK_BYTES,
};

#[test]
fn only_a_success_status_is_written_to_disk() {
    for code in [200, 201, 204, 299] {
        assert_eq!(check_fetch_status(code), Ok(()));
    }
    for code in [0, 100, 199, 300, 301, 404, 500, 503, u16::MAX] {
        assert_eq!(check_fetch_status(code), Err(FetchError::Status { code }));
    }
}

#[test]
fn an_archive_without_entries_is_refused() {
    assert_eq!(entry_to_extract(0), Err(UnpackError::EmptyArchive));
    assert_eq!(entry_to_extract(1), Ok(0));
    assert_eq!(entry_to_extract(7), Ok(0));
}

#[test]
fn a_file_is_copied_in_pieces_of_one_kibibyte() {
    assert_eq!(COPY_CHUNK_BYTES, 1024);
    assert_eq!(next_copy_len(0, 0), 0);
    assert_eq!(next_copy_len(0, 10), 10);
    assert_eq!(next_copy_len(0, 1024), 1024);
    assert_eq!(next_copy_len(0, 4000), 1024);
    assert_eq!(next_copy_len(3072, 4000), 928);
    assert_eq!(next_copy_len(4000, 4000), 0);
    assert_eq!(next_copy_len(5000, 4000), 0);
    assert_eq!(next_copy_len(0, u64::MAX), 1024);
}

#[test]
fn the_files_of_a_cycle_have_their_names() {
    assert_eq!(downloaded_archive_name(), "utf_ken_all.zip");
    assert_eq!(archive_name(), "utf_ken_all_optimize.zip");
    assert_eq!(feed_name(), "utf_ken_all.csv");
    assert_eq!(prefecture_resource_name(), "pref.json");
    assert_eq!(path_in("/tmp/temp_assets", feed_name()), "/tmp/temp_assets/utf_ken_all.csv");
    assert_eq!(path_in("", ""), "/");
}
