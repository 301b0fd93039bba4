use osm_export::archive::{
    relative_names, zip_dir, zip_entries, ArchiveError, CompressionMethod, WalkedEntry,
    FILE_PERMISSIONS,
};
use std::io::{Cursor, Read};

fn directory(path: &str) -> WalkedEntry {
    WalkedEntry { path: path.to_string(), contents: None }
}

fn file(path: &str, contents: &[u8]) -> WalkedEntry {
    WalkedEntry { path: path.to_string(), contents: Some(contents.to_vec()) }
}

fn sample_walk() -> Vec<WalkedEntry> {
    vec![
        directory("out"),
        directory("out/a"),
        file("out/a/b.shp", b"shape bytes"),
        file("out/a/b.dbf", &[0, 1, 2, 255, 254, 0]),
        file("out/c.txt", b""),
        directory("out/d"),
    ]
}

fn read_back(bytes: Vec<u8>) -> Vec<(String, Vec<u8>)> {
    let mut archive = zip::ZipArchive::new(Cursor::new(bytes)).unwrap();
    let mut files = Vec::new();
    for index in 0..archive.len() {
        let mut entry = archive.by_index(index).unwrap();
        let mut contents = Vec::new();
        entry.read_to_end(&mut contents).unwrap();
        files.push((entry.name().to_string(), contents));
    }
    files
}

#[test]
fn zip_dir_stores_the_regular_files_only() {
    let bytes = zip_dir(&sample_walk(), "out", CompressionMethod::Stored).unwrap();
    let names: Vec<String> = read_back(bytes).into_iter().map(|(name, _)| name).collect();
    assert_eq!(names, vec!["a/b.shp", "a/b.dbf", "c.txt"]);
}

#[test]
fn zip_dir_round_trips_names_and_contents() {
    let bytes = zip_dir(&sample_walk(), "out", CompressionMethod::Stored).unwrap();
    assert_eq!(
        read_back(bytes),
        vec![
            ("a/b.shp".to_string(), b"shape bytes".to_vec()),
            ("a/b.dbf".to_string(), vec![0, 1, 2, 255, 254, 0]),
            ("c.txt".to_string(), vec![]),
        ]
    );
}

#[test]
fn zip_dir_round_trips_deflated_contents() {
    let long: Vec<u8> = (0..20000u32).map(|i| (i % 7) as u8).collect();
    let walk = vec![directory("out"), file("out/long.bin", &long), file("out/s", b"x")];
    let bytes = zip_dir(&walk, "out", CompressionMethod::Deflated).unwrap();
    assert!(bytes.len() < long.len());
    assert_eq!(
        read_back(bytes),
        vec![("long.bin".to_string(), long), ("s".to_string(), b"x".to_vec())]
    );
}

#[test]
fn zip_dir_records_method_and_permissions() {
    let bytes = zip_dir(&sample_walk(), "out", CompressionMethod::Stored).unwrap();
    let mut archive = zip::ZipArchive::new(Cursor::new(bytes)).unwrap();
    for index in 0..archive.len() {
        let entry = archive.by_index(index).unwrap();
        assert_eq!(entry.compression(), zip::CompressionMethod::Stored);
        assert_eq!(entry.unix_mode().map(|mode| mode & 0o777), Some(0o755));
        assert!(entry.is_file());
    }
    let bytes = zip_dir(&sample_walk(), "out", CompressionMethod::Deflated).unwrap();
    let mut archive = zip::ZipArchive::new(Cursor::new(bytes)).unwrap();
    assert_eq!(archive.by_index(0).unwrap().compression(), zip::CompressionMethod::Deflated);
}

#[test]
fn stored_archive_holds_the_contents_verbatim() {
    let walk = vec![directory("out"), file("out/c.txt", b"verbatim-contents-marker")];
    let bytes = zip_dir(&walk, "out", CompressionMethod::Stored).unwrap();
    let marker = b"verbatim-contents-marker";
    assert!(bytes.windows(marker.len()).any(|window| window == marker));
}

#[test]
fn zip_dir_of_an_empty_walk_is_an_empty_archive() {
    let bytes = zip_dir(&vec![], "out", CompressionMethod::Stored).unwrap();
    assert_eq!(read_back(bytes), vec![]);
    let bytes = zip_dir(&vec![directory("out"), directory("out/d")], "out", CompressionMethod::Stored);
    assert_eq!(read_back(bytes.unwrap()), vec![]);
}

#[test]
fn zip_dir_twice_gives_the_same_bytes() {
    let first = zip_dir(&sample_walk(), "out", CompressionMethod::Stored).unwrap();
    let second = zip_dir(&sample_walk(), "out", CompressionMethod::Stored).unwrap();
    assert_eq!(first, second);
    let first = zip_dir(&sample_walk(), "out", CompressionMethod::Deflated).unwrap();
    let second = zip_dir(&sample_walk(), "out", CompressionMethod::Deflated).unwrap();
    assert_eq!(first, second);
}

#[test]
fn zip_dir_depends_on_the_files_not_on_the_root() {
    let elsewhere = vec![
        directory("tmp/other"),
        file("tmp/other/a/b.shp", b"shape bytes"),
        directory("tmp/other/empty"),
        file("tmp/other/a/b.dbf", &[0, 1, 2, 255, 254, 0]),
        file("tmp/other/c.txt", b""),
    ];
    let first = zip_dir(&sample_walk(), "out", CompressionMethod::Stored).unwrap();
    let second = zip_dir(&elsewhere, "tmp/other", CompressionMethod::Stored).unwrap();
    assert_eq!(first, second);
}

#[test]
fn zip_dir_refuses_an_entry_outside_the_root() {
    let walk = vec![directory("out"), file("out/a", b"1"), file("other/b", b"2"), file("x", b"3")];
    assert_eq!(
        zip_dir(&walk, "out", CompressionMethod::Stored),
        Err(ArchiveError::NotUnderPrefix { index: 2 })
    );
}

#[test]
fn zip_dir_refuses_a_directory_outside_the_root_too() {
    let walk = vec![directory("elsewhere"), file("out/a", b"1")];
    assert_eq!(
        zip_dir(&walk, "out", CompressionMethod::Stored),
        Err(ArchiveError::NotUnderPrefix { index: 0 })
    );
}

#[test]
fn zip_dir_matches_whole_path_components() {
    let walk = vec![file("output/a", b"1")];
    assert_eq!(
        zip_dir(&walk, "out", CompressionMethod::Stored),
        Err(ArchiveError::NotUnderPrefix { index: 0 })
    );
}

#[test]
fn relative_names_take_the_root_off_each_path() {
    let names = relative_names(&sample_walk(), "out");
    assert_eq!(
        names,
        vec![
            Some("".to_string()),
            Some("a".to_string()),
            Some("a/b.shp".to_string()),
            Some("a/b.dbf".to_string()),
            Some("c.txt".to_string()),
            Some("d".to_string()),
        ]
    );
}

#[test]
fn relative_names_mark_what_lies_elsewhere() {
    let walk = vec![file("out/a", b"1"), file("other/b", b"2"), directory("outer")];
    assert_eq!(relative_names(&walk, "out"), vec![Some("a".to_string()), None, None]);
    assert_eq!(relative_names(&vec![], "out"), vec![]);
}

#[test]
fn zip_entries_stores_under_the_given_names() {
    let walk = vec![directory("anything"), file("ignored/path", b"one"), file("x", b"two")];
    let names = vec![Some("dir".to_string()), Some("first".to_string()), Some("b/second".to_string())];
    let bytes = zip_entries(&walk, &names, CompressionMethod::Stored).unwrap();
    assert_eq!(
        read_back(bytes),
        vec![("first".to_string(), b"one".to_vec()), ("b/second".to_string(), b"two".to_vec())]
    );
}

#[test]
fn zip_entries_stops_at_the_first_entry_without_a_name() {
    let walk = vec![file("a", b"1"), directory("d"), file("b", b"2")];
    let names = vec![Some("a".to_string()), None, None];
    assert_eq!(
        zip_entries(&walk, &names, CompressionMethod::Stored),
        Err(ArchiveError::NotUnderPrefix { index: 1 })
    );
}

#[test]
fn zip_entries_treats_a_short_name_list_as_missing_names() {
    let walk = vec![file("a", b"1"), file("b", b"2")];
    let names = vec![Some("a".to_string())];
    assert_eq!(
        zip_entries(&walk, &names, CompressionMethod::Stored),
        Err(ArchiveError::NotUnderPrefix { index: 1 })
    );
    assert_eq!(
        zip_entries(&walk, &vec![], CompressionMethod::Stored),
        Err(ArchiveError::NotUnderPrefix { index: 0 })
    );
}

#[test]
fn zip_entries_ignores_names_beyond_the_walk() {
    let walk = vec![file("a", b"1")];
    let names = vec![Some("a".to_string()), None, Some("c".to_string())];
    let bytes = zip_entries(&walk, &names, CompressionMethod::Stored).unwrap();
    assert_eq!(read_back(bytes), vec![("a".to_string(), b"1".to_vec())]);
}

#[test]
fn file_permissions_are_rwx_r_x_r_x() {
    assert_eq!(FILE_PERMISSIONS, 0o755);
}
