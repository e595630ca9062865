use postal_core::constants::{common_path, temp_dir};

#[test]
fn temp_dir_names_the_asset_directory() {
    assert_eq!(temp_dir(), "temp_assets");
}

#[test]
fn common_path_names_the_shared_directory() {
    assert_eq!(common_path(), "../common");
}
