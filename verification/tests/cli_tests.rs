use rs3::cli::commands::Command;
use rs3::cli::parser::{parse_cli, CliError};

fn args(list: &[&str]) -> Vec<String> {
    let mut v = vec!["rs3".to_string()];
    v.extend(list.iter().map(|s| s.to_string()));
    v
}

#[test]
fn parse_list_buckets() {
    let cli = parse_cli(&args(&["list-buckets"])).unwrap();
    assert!(matches!(cli.command, Command::ListBuckets));
}

#[test]
fn parse_create_and_delete_bucket() {
    let cli = parse_cli(&args(&["create-bucket", "bkt"])).unwrap();
    match cli.command {
        Command::CreateBucket { name } => assert_eq!(name, "bkt"),
        _ => panic!("wrong command"),
    }
    let cli = parse_cli(&args(&["delete-bucket", "old"])).unwrap();
    match cli.command {
        Command::DeleteBucket { name } => assert_eq!(name, "old"),
        _ => panic!("wrong command"),
    }
}

#[test]
fn parse_list_objects_without_prefix() {
    let cli = parse_cli(&args(&["list-objects", "bkt"])).unwrap();
    match cli.command {
        Command::ListObjects { bucket, prefix } => {
            assert_eq!(bucket, "bkt");
            assert!(prefix.is_none());
        }
        _ => panic!("wrong command"),
    }
}

#[test]
fn parse_list_objects_with_prefix_forms() {
    for flag in ["-p", "--prefix"] {
        let cli = parse_cli(&args(&["list-objects", "bkt", flag, "x/"])).unwrap();
        match cli.command {
            Command::ListObjects { bucket, prefix } => {
                assert_eq!(bucket, "bkt");
                assert_eq!(prefix.as_deref(), Some("x/"));
            }
            _ => panic!("wrong command"),
        }
    }
}

#[test]
fn parse_upload_download_delete_object() {
    let cli = parse_cli(&args(&["upload-object", "bkt", "x/", "./dir"])).unwrap();
    match cli.command {
        Command::UploadObject { bucket, key, file_path } => {
            assert_eq!(bucket, "bkt");
            assert_eq!(key, "x/");
            assert_eq!(file_path, "./dir");
        }
        _ => panic!("wrong command"),
    }
    let cli = parse_cli(&args(&["download-object", "bkt", "k", "out"])).unwrap();
    match cli.command {
        Command::DownloadObject { bucket, key, file_path } => {
            assert_eq!(bucket, "bkt");
            assert_eq!(key, "k");
            assert_eq!(file_path, "out");
        }
        _ => panic!("wrong command"),
    }
    let cli = parse_cli(&args(&["delete-object", "bkt", "k"])).unwrap();
    match cli.command {
        Command::DeleteObject { bucket, key } => {
            assert_eq!(bucket, "bkt");
            assert_eq!(key, "k");
        }
        _ => panic!("wrong command"),
    }
}

#[test]
fn parse_rejects_bad_lines() {
    assert!(matches!(parse_cli(&vec!["rs3".to_string()]), Err(CliError::Usage)));
    assert!(parse_cli(&args(&["frobnicate"])).is_err());
    assert!(parse_cli(&args(&["create-bucket"])).is_err());
    assert!(parse_cli(&args(&["create-bucket", "a", "b"])).is_err());
    assert!(parse_cli(&args(&["list-objects", "bkt", "-q", "x/"])).is_err());
    assert!(parse_cli(&args(&["list-objects", "bkt", "-p"])).is_err());
    assert!(parse_cli(&args(&["upload-object", "bkt", "k"])).is_err());
    assert!(parse_cli(&vec![]).is_err());
}

#[test]
fn parse_head_object_and_put_object_alias() {
    let cli = parse_cli(&args(&["head-object", "bkt", "k"])).unwrap();
    match cli.command {
        Command::HeadObject { bucket, key } => {
            assert_eq!(bucket, "bkt");
            assert_eq!(key, "k");
        }
        _ => panic!("wrong command"),
    }
    assert!(parse_cli(&args(&["head-object", "bkt"])).is_err());
    let cli = parse_cli(&args(&["put-object", "bkt", "x/", "./dir"])).unwrap();
    assert!(matches!(cli.command, Command::UploadObject { .. }));
}
