use shard::engine::resolve::{
    filetype_category, parse_content_disposition_filename, resolve_destination, url_basename,
    DownloadOptions, FiletypeRouting, RemoteMetadata,
};

fn check_content_disposition_parsing() {
    assert_eq!(
        parse_content_disposition_filename(r#"attachment; filename="game.iso""#),
        Some("game.iso".to_string())
    );
    assert_eq!(
        parse_content_disposition_filename("attachment; filename=simple.bin; size=5"),
        Some("simple.bin".to_string())
    );
    assert!(parse_content_disposition_filename("attachment; filename=../../etc/passwd").is_none());
    assert!(parse_content_disposition_filename("attachment").is_none());
}

#[test]
fn content_disposition_names_are_parsed_and_sanitized() {
    check_content_disposition_parsing();
}

#[test]
fn manager_content_disposition_names_are_parsed_and_sanitized() {
    check_content_disposition_parsing();
}

#[test]
fn url_fallback_names_the_last_path_segment() {
    assert_eq!(
        url_basename("https://cdn.example.com/dl/pack.tar.gz?token=abc"),
        Some("pack.tar.gz".to_string())
    );
    assert_eq!(url_basename("https://cdn.example.com/"), None);
}

#[test]
fn unparsable_urls_give_no_name() {
    assert_eq!(url_basename("not a url"), None);
}

#[test]
fn resolve_destination_keeps_explicit_files_untouched() {
    let options = DownloadOptions {
        url: "http://x".into(),
        dest_path: "/tmp/out/result.bin".into(),
        chunk_size: 1024,
        connections: 1,
        max_attempts: 2,
        ..Default::default()
    };
    let metadata = RemoteMetadata {
        final_url: "http://x/file.bin".into(),
        size: 10,
        etag: None,
        last_modified: None,
        accepts_ranges: true,
        content_disposition: Some("attachment; filename=\"server.bin\"".into()),
    };
    assert_eq!(resolve_destination(&options, &metadata, false), "/tmp/out/result.bin");
}

#[test]
fn directory_destination_takes_the_server_name() {
    let options = DownloadOptions {
        url: "http://x".into(),
        dest_path: "/tmp/out/".into(),
        ..Default::default()
    };
    let metadata = RemoteMetadata {
        final_url: "http://x/file.bin".into(),
        size: 10,
        etag: None,
        last_modified: None,
        accepts_ranges: true,
        content_disposition: Some("attachment; filename=\"album-art-cache.zip\"".into()),
    };
    assert_eq!(resolve_destination(&options, &metadata, false), "/tmp/out/album-art-cache.zip");
    let nameless = RemoteMetadata { content_disposition: None, final_url: "http://x/".into(), ..metadata };
    assert_eq!(resolve_destination(&options, &nameless, true), "/tmp/out/download.bin");
}

#[test]
fn filetype_category_classifies_known_extensions() {
    assert_eq!(filetype_category("movie.mp4"), "video");
    assert_eq!(filetype_category("PIC.JPG"), "image");
    assert_eq!(filetype_category("song.flac"), "audio");
    assert_eq!(filetype_category("backup.tar.gz"), "archive");
    assert_eq!(filetype_category("resume.pdf"), "document");
    assert_eq!(filetype_category("mystery.xyz"), "other");
    assert_eq!(filetype_category("noext"), "other");
}

#[test]
fn resolve_destination_routes_by_extension_under_base_dir() {
    let options = DownloadOptions {
        url: "http://x".into(),
        dest_path: "/tmp/shard-route-destination".into(),
        chunk_size: 1024,
        connections: 1,
        max_attempts: 2,
        routing: Some(FiletypeRouting {
            dirs: vec![
                ("video".to_string(), "Videos".to_string()),
                ("document".to_string(), "Documents".to_string()),
            ],
            other: "Other".to_string(),
        }),
        ..Default::default()
    };
    let metadata = RemoteMetadata {
        final_url: "http://x/movie.mp4".into(),
        size: 10,
        etag: None,
        last_modified: None,
        accepts_ranges: true,
        content_disposition: None,
    };
    assert_eq!(
        resolve_destination(&options, &metadata, false),
        "/tmp/shard-route-destination/Videos/movie.mp4"
    );
    let unknown = RemoteMetadata { final_url: "http://x/data.xyz".into(), ..metadata };
    assert_eq!(
        resolve_destination(&options, &unknown, false),
        "/tmp/shard-route-destination/Other/data.xyz"
    );
}
