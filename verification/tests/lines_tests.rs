use rs3::cli::commands::{delete_bucket_error_line, Command};
use rs3::object::{download_path, filter_objects, object_line, parent_dir};
use rs3::s3::client::{bucket_line, BucketInfo, Timestamp};

#[test]
fn bucket_line_known_date() {
    let info = BucketInfo {
        name: "media".to_string(),
        creation_date: Some(Timestamp { secs: 0, nanos: 0 }),
    };
    assert_eq!(bucket_line(&info), format!("{:<30}   1970-01-01T00:00:00Z", "media"));
}

#[test]
fn bucket_line_unknown_date() {
    let info = BucketInfo { name: "media".to_string(), creation_date: None };
    assert_eq!(bucket_line(&info), format!("{:<30}   Unknown", "media"));
}

#[test]
fn bucket_line_unrepresentable_date() {
    let info = BucketInfo {
        name: "media".to_string(),
        creation_date: Some(Timestamp { secs: i64::MAX, nanos: 0 }),
    };
    assert_eq!(bucket_line(&info), format!("{:<30}   Unknown", "media"));
}

#[test]
fn object_line_columns() {
    let ts = Timestamp { secs: 0, nanos: 0 };
    let line = object_line("x/a.txt", 1024, &ts).unwrap();
    assert_eq!(
        line,
        format!("{:<50} | {:<9} | {:<30}", "x/a.txt", "1.00 KB", "1970-01-01T00:00:00Z")
    );
}

#[test]
fn delete_bucket_error_line_defaults() {
    assert_eq!(delete_bucket_error_line(&None, &None), "403 ");
    assert_eq!(
        delete_bucket_error_line(
            &Some("NoSuchBucket".to_string()),
            &Some("The specified bucket does not exist".to_string()),
        ),
        "NoSuchBucket The specified bucket does not exist"
    );
}

#[test]
fn delete_bucket_failure_exits_clean() {
    let del = Command::DeleteBucket { name: "gone".to_string() };
    assert_eq!(del.exit_code_on_remote_error(), 0);
    let create = Command::CreateBucket { name: "new".to_string() };
    assert_eq!(create.exit_code_on_remote_error(), 1);
    let list = Command::ListBuckets;
    assert_eq!(list.exit_code_on_remote_error(), 1);
}

#[test]
fn success_messages() {
    let c = Command::CreateBucket { name: "bkt".to_string() };
    assert_eq!(c.success_message().unwrap(), "Bucket 'bkt' created successfully");
    let d = Command::DeleteBucket { name: "bkt".to_string() };
    assert_eq!(d.success_message().unwrap(), "Bucket 'bkt' deleted successfully");
    let u = Command::UploadObject {
        bucket: "bkt".to_string(),
        key: "k".to_string(),
        file_path: "f".to_string(),
    };
    assert_eq!(u.success_message().unwrap(), "Object 'k' uploaded successfully to bucket 'bkt'");
    let dl = Command::DownloadObject {
        bucket: "bkt".to_string(),
        key: "k".to_string(),
        file_path: "f".to_string(),
    };
    assert_eq!(
        dl.success_message().unwrap(),
        "Object 'k' downloaded successfully from bucket 'bkt'"
    );
    let del = Command::DeleteObject { bucket: "bkt".to_string(), key: "k".to_string() };
    assert_eq!(del.success_message().unwrap(), "Object 'k' deleted successfully from bucket 'bkt'");
    assert!(Command::ListBuckets.success_message().is_none());
    let lo = Command::ListObjects { bucket: "bkt".to_string(), prefix: None };
    assert!(lo.success_message().is_none());
}

#[test]
fn filter_keeps_prefixed_keys_in_order() {
    let keys: Vec<String> = ["x/a.txt", "y/b.txt", "x/sub/c.txt", "x", "x/"]
        .iter()
        .map(|s| s.to_string())
        .collect();
    let filtered = filter_objects(&keys, &Some("x/".to_string()));
    assert_eq!(filtered, vec!["x/a.txt".to_string(), "x/sub/c.txt".to_string(), "x/".to_string()]);
}

#[test]
fn no_prefix_keeps_every_key() {
    let keys: Vec<String> = ["a", "b", "c"].iter().map(|s| s.to_string()).collect();
    let all = filter_objects(&keys, &None);
    assert_eq!(all, keys);
}

#[test]
fn empty_prefix_keeps_every_key() {
    let keys: Vec<String> = ["a", "b"].iter().map(|s| s.to_string()).collect();
    let all = filter_objects(&keys, &Some(String::new()));
    assert_eq!(all, keys);
}

#[test]
fn download_paths() {
    assert_eq!(download_path("out", "x/a.txt"), "out/x/a.txt");
    assert_eq!(download_path("out/", "x/a.txt"), "out/x/a.txt");
    assert_eq!(download_path("", "a"), "/a");
}

#[test]
fn parent_directories() {
    assert_eq!(parent_dir("out/x/a.txt").as_deref(), Some("out/x"));
    assert_eq!(parent_dir("a.txt"), None);
    assert_eq!(parent_dir(""), None);
    assert_eq!(parent_dir("dir/"), Some("dir".to_string()));
}
