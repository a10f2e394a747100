use mail_autoconfig::housekeeping::{
    files_in_use, housekeeping, is_file_in_use, maybe_add_file, maybe_add_from_param,
    should_delete, BlobFile, FileSet, References,
};

#[test]
fn test_maybe_add_file() {
    let mut files = Default::default();
    maybe_add_file(&mut files, "$BLOBDIR/hello");
    maybe_add_file(&mut files, "$BLOBDIR/world.txt");
    maybe_add_file(&mut files, "world2.txt");

    assert!(files.contains("hello"));
    assert!(files.contains("world.txt"));
    assert!(!files.contains("world2.txt"));
}

#[test]
fn test_is_file_in_use() {
    let mut files = Default::default();
    maybe_add_file(&mut files, "$BLOBDIR/hello");
    maybe_add_file(&mut files, "$BLOBDIR/world.txt");
    maybe_add_file(&mut files, "world2.txt");

    assert!(is_file_in_use(&files, None, "hello"));
    assert!(!is_file_in_use(&files, Some(".txt"), "hello"));
    assert!(is_file_in_use(&files, Some("-suffix"), "world.txt-suffix"));
}

#[test]
fn blobdir_alone_names_no_file() {
    let mut files = FileSet::new();
    maybe_add_file(&mut files, "$BLOBDIR");
    maybe_add_file(&mut files, "$BLOB");
    maybe_add_file(&mut files, "");
    assert!(!files.contains(""));
    maybe_add_file(&mut files, "$BLOBDIR/");
    assert!(files.contains(""));
}

#[test]
fn suffix_must_be_shorter_than_the_name() {
    let mut files = FileSet::new();
    maybe_add_file(&mut files, "$BLOBDIR/");
    assert!(!is_file_in_use(&files, Some(".waveform"), ".waveform"));
    assert!(!is_file_in_use(&files, Some(".waveform"), "x"));
    maybe_add_file(&mut files, "$BLOBDIR/voice.mp3");
    assert!(is_file_in_use(&files, Some(".waveform"), "voice.mp3.waveform"));
    assert!(!is_file_in_use(&files, Some(".waveform"), "voice.mp3.wave"));
}

fn old_file(name: &str) -> BlobFile {
    BlobFile {
        name: name.to_string(),
        created_secs_ago: Some(7200),
        modified_secs_ago: Some(7200),
        accessed_secs_ago: Some(3600),
    }
}

fn references() -> References {
    References {
        msgs: vec![Some("$BLOBDIR/image.jpg".to_string()), None],
        jobs: vec![Some("$BLOBDIR/upload.bin".to_string())],
        chats: vec![Some("$BLOBDIR/group.png".to_string())],
        contacts: vec![Some("/elsewhere/avatar.png".to_string())],
        config: vec![Some("$BLOBDIR/selfavatar.png".to_string()), Some("1".to_string())],
    }
}

#[test]
fn housekeeping_deletes_only_old_unreferenced_files() {
    let dir = vec![
        old_file("image.jpg"),
        old_file("image.jpg-preview.jpg"),
        old_file("orphan.dat"),
        old_file("upload.bin.increation"),
        old_file("group.png"),
        old_file("avatar.png"),
        old_file("selfavatar.png"),
        BlobFile {
            name: "fresh.dat".to_string(),
            created_secs_ago: Some(10),
            modified_secs_ago: Some(7200),
            accessed_secs_ago: Some(7200),
        },
        BlobFile {
            name: "touched.dat".to_string(),
            created_secs_ago: None,
            modified_secs_ago: None,
            accessed_secs_ago: Some(3599),
        },
        BlobFile {
            name: "unknown-age.dat".to_string(),
            created_secs_ago: None,
            modified_secs_ago: None,
            accessed_secs_ago: None,
        },
    ];
    let doomed = housekeeping(&references(), &dir);
    assert_eq!(doomed, vec![2, 5, 9]);
    let files = files_in_use(&references());
    for i in doomed {
        assert!(!files.contains(&dir[i].name));
        assert!(should_delete(&files, &dir[i]));
    }
}

#[test]
fn an_hour_is_the_limit() {
    let files = FileSet::new();
    let mut f = old_file("a");
    assert!(should_delete(&files, &f));
    f.modified_secs_ago = Some(3599);
    assert!(!should_delete(&files, &f));
    f.modified_secs_ago = Some(3600);
    assert!(should_delete(&files, &f));
    f.created_secs_ago = Some(0);
    assert!(!should_delete(&files, &f));
}

#[test]
fn references_of_rows_are_collected() {
    let mut files = FileSet::new();
    maybe_add_from_param(
        &mut files,
        &vec![None, Some("$BLOBDIR/a".to_string()), Some("b".to_string()), Some("$BLOBDIR/a".to_string())],
    );
    assert!(files.contains("a"));
    assert!(!files.contains("b"));
    let empty = housekeeping(
        &References { msgs: vec![], jobs: vec![], chats: vec![], contacts: vec![], config: vec![] },
        &vec![],
    );
    assert!(empty.is_empty());
}
