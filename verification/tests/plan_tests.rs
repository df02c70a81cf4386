use rs3::object::{upload_plan, FsEntry};

fn file(name: &str) -> FsEntry {
    FsEntry::File { name: name.to_string() }
}

fn dir(name: &str, entries: Vec<FsEntry>) -> FsEntry {
    FsEntry::Dir { name: name.to_string(), entries }
}

#[test]
fn single_file_keyed_prefix_plus_name() {
    let plan = upload_plan("backups/", &file("notes.txt"));
    assert_eq!(plan.len(), 1);
    assert_eq!(plan[0].key, "backups/notes.txt");
    assert_eq!(plan[0].rel_path, "notes.txt");
    assert_eq!(plan[0].content_type, "text/plain");
}

#[test]
fn single_file_empty_prefix() {
    let plan = upload_plan("", &file("data.bin"));
    assert_eq!(plan.len(), 1);
    assert_eq!(plan[0].key, "data.bin");
    assert_eq!(plan[0].content_type, "application/octet-stream");
}

#[test]
fn two_level_tree_with_prefix() {
    let root = dir("root", vec![file("a.txt"), dir("sub", vec![file("b.txt")])]);
    let plan = upload_plan("x/", &root);
    let keys: Vec<&str> = plan.iter().map(|p| p.key.as_str()).collect();
    assert_eq!(keys, vec!["x/a.txt", "x/sub/b.txt"]);
    let rels: Vec<&str> = plan.iter().map(|p| p.rel_path.as_str()).collect();
    assert_eq!(rels, vec!["a.txt", "sub/b.txt"]);
}

#[test]
fn deep_tree_keys_follow_relative_paths() {
    let root = dir(
        "top",
        vec![
            dir("one", vec![file("f1"), dir("two", vec![file("f2.json")])]),
            file("f0.html"),
        ],
    );
    let plan = upload_plan("p/", &root);
    assert_eq!(plan.len(), 3);
    assert_eq!(plan[0].key, "p/one/f1");
    assert_eq!(plan[0].rel_path, "one/f1");
    assert_eq!(plan[1].key, "p/one/two/f2.json");
    assert_eq!(plan[1].rel_path, "one/two/f2.json");
    assert_eq!(plan[2].key, "p/f0.html");
    assert_eq!(plan[2].rel_path, "f0.html");
    assert_eq!(plan[1].content_type, "application/json");
    assert_eq!(plan[2].content_type, "text/html");
    for item in plan.iter() {
        assert_eq!(item.key, format!("p/{}", item.rel_path));
    }
}

#[test]
fn empty_directory_plans_nothing() {
    let plan = upload_plan("x/", &dir("empty", vec![]));
    assert_eq!(plan.len(), 0);
}

#[test]
fn root_directory_name_not_in_keys() {
    let plan = upload_plan("", &dir("rootname", vec![file("a")]));
    assert_eq!(plan.len(), 1);
    assert_eq!(plan[0].key, "a");
}
