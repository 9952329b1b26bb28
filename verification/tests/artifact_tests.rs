use danmaku::artifact::artifact_file_name;
use std::io::Write;

#[test]
fn extension_is_substituted() {
    assert_eq!(artifact_file_name("av170001"), "av170001.ass");
    assert_eq!(artifact_file_name("BV1xx411c7mD"), "BV1xx411c7mD.ass");
    assert_eq!(artifact_file_name("danmaku.xml"), "danmaku.ass");
    assert_eq!(artifact_file_name("a.b.c"), "a.b.ass");
    assert_eq!(artifact_file_name(".hidden"), ".hidden.ass");
    assert_eq!(artifact_file_name(""), ".ass");
}

#[test]
fn names_match_path_extension_substitution() {
    for token in ["av170001", "BV1xx411c7mD", "danmaku.xml", "a.b.c", ".hidden"] {
        let expected = std::path::Path::new(token).with_extension("ass");
        assert_eq!(artifact_file_name(token), expected.to_str().unwrap());
    }
}

#[test]
fn scoped_directory_is_removed_on_failure() {
    // the shell holds the artifact in a scope that ends when the run aborts;
    // dropping the scope must remove the directory and the file inside it
    let dir = tempfile::tempdir().unwrap();
    let dir_path = dir.path().to_path_buf();
    let mut file = tempfile::Builder::new()
        .suffix(".ass")
        .tempfile_in(dir.path())
        .unwrap();
    file.write_all(b"[Script Info]").unwrap();
    let file_path = file.path().to_path_buf();
    assert!(dir_path.exists());
    assert!(file_path.exists());
    drop(file);
    drop(dir);
    assert!(!file_path.exists());
    assert!(!dir_path.exists());
}
