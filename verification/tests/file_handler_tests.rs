use lightkeeper::file_handler::{
    cache_dir_from, config_dir_from, convert_to_local_metadata_path, convert_to_local_paths, data_dir_from, get_content_file_path, get_metadata_path, local_file_name,
    strip_metadata_suffix, FileMetadata,
};

#[test]
fn metadata_path_appends_suffix() {
    assert_eq!(get_metadata_path("/c/host/nginx_x"), "/c/host/nginx_x.metadata.yml");
    assert_eq!(strip_metadata_suffix("/c/a.metadata.yml"), Some(String::from("/c/a")));
    assert_eq!(strip_metadata_suffix("/c/a.yml"), None);
    assert_eq!(strip_metadata_suffix(".metadata.yml"), Some(String::new()));
}

#[test]
fn content_file_must_exist() {
    assert_eq!(get_content_file_path("/nonexistent/dir/file.metadata.yml"), None);
    assert_eq!(get_content_file_path("/etc/hostname.yml"), None);
}

#[test]
fn local_names_keep_last_components_and_digest() {
    assert_eq!(
        local_file_name("/etc/nginx/nginx.conf"),
        "nginx_nginx.conf_08cdfcae237f26e40849389a2dee772439eff20c8b5ee8b3f5aa22d60b0a38bb"
    );
    assert_eq!(
        local_file_name("nginx.conf"),
        "nginx.conf_1f91f64bfa3fb0a1ece881887af0a2356b8c529a96fb91c1894745b2a1a009aa"
    );
    assert_eq!(local_file_name(""), "e3b0c44298fc1c149afbf4c8996fb92427ae41e4649b934ca495991b7852b855");
}

#[test]
fn user_directories() {
    let home = Some(String::from("/home/u"));
    assert_eq!(config_dir_from(&None, &home, false), "/home/u/.config/lightkeeper");
    assert_eq!(config_dir_from(&Some(String::from("/xdg")), &home, false), "/xdg/lightkeeper");
    assert_eq!(config_dir_from(&None, &home, true), "/home/u/.config");
    assert_eq!(cache_dir_from(&None, &home, false), "/home/u/.cache/lightkeeper");
    assert_eq!(data_dir_from(&None, &home, false), Ok(String::from("/home/u/.local/share/lightkeeper")));
    assert_eq!(
        data_dir_from(&None, &None, false),
        Err(String::from("Cannot find data directory. $XDG_DATA_HOME or $HOME is not set."))
    );
}

#[test]
fn local_paths_under_host_directory() {
    let (dir, file) = convert_to_local_paths("/cache/lightkeeper", "web", "/etc/nginx/nginx.conf");
    assert_eq!(dir, "/cache/lightkeeper/web");
    assert_eq!(
        file,
        "/cache/lightkeeper/web/nginx_nginx.conf_08cdfcae237f26e40849389a2dee772439eff20c8b5ee8b3f5aa22d60b0a38bb"
    );
    assert_eq!(
        convert_to_local_metadata_path("/cache/lightkeeper", "web", "/etc/nginx/nginx.conf"),
        format!("{}.metadata.yml", file)
    );
}

fn metadata(local_path: Option<&str>) -> FileMetadata {
    FileMetadata {
        download_time: 1_700_000_000_000,
        local_path: local_path.map(|p| p.to_string()),
        remote_path: String::from("/etc/hosts"),
        remote_file_hash: String::from("old"),
        owner_uid: 0,
        owner_gid: 0,
        permissions: 0o644,
        temporary: false,
    }
}

#[test]
fn metadata_hash_update_and_path() {
    let mut m = metadata(Some("/cache/web/hosts_x"));
    m.update_hash(String::from("new"));
    assert_eq!(m.remote_file_hash, "new");
    assert_eq!(m.remote_path, "/etc/hosts");
    assert_eq!(m.metadata_file_path(), Ok(String::from("/cache/web/hosts_x.metadata.yml")));
    assert_eq!(metadata(None).metadata_file_path(), Err(String::from("Metadata does not contain local file path")));
}

#[test]
fn root_is_left_out_of_local_names() {
    let name = local_file_name("/x");
    assert!(name.starts_with("x_"));
    assert_eq!(name.len(), 2 + 64);
    assert!(!name.contains('/'));
    let root = local_file_name("/");
    assert_eq!(root.len(), 64);
    assert!(!root.contains('/'));
    let (dir, file) = convert_to_local_paths("/cache/lightkeeper", "web", "/x");
    assert_eq!(file, format!("{}/{}", dir, name));
}
