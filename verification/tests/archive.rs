use investigator::archive::{
    archive_entry_name, archive_entry_path, create_archive, retained_depth, ArchiveError,
    ArchiveItem, SourceTree, WalkEntry,
};
use investigator::entry::EntryKind;
use std::io::{Cursor, Read, Write};

fn parts(path: &str) -> Vec<Vec<u8>> {
    path.split('/').filter(|p| !p.is_empty()).map(|p| p.as_bytes().to_vec()).collect()
}

fn entry(rel: &str, kind: EntryKind) -> WalkEntry {
    WalkEntry { rel: parts(rel), kind }
}

fn text(name: Vec<u8>) -> String {
    String::from_utf8(name).unwrap()
}

#[test]
fn names_keep_three_levels_of_the_source() {
    assert_eq!(retained_depth(0), 0);
    assert_eq!(retained_depth(1), 1);
    assert_eq!(retained_depth(2), 0);
    assert_eq!(retained_depth(3), 3);
    assert_eq!(retained_depth(4), 3);
    assert_eq!(retained_depth(usize::MAX), 3);
}

#[test]
fn entry_names_are_relative_to_the_third_ancestor() {
    let source = parts("/home/user/data/proc_failed/2024-01-01_00_00_00");
    assert_eq!(
        archive_entry_name(&source, &parts("logs/app.log")),
        parts("data/proc_failed/2024-01-01_00_00_00/logs/app.log")
    );
    assert_eq!(
        archive_entry_name(&source, &Vec::new()),
        parts("data/proc_failed/2024-01-01_00_00_00")
    );
}

#[test]
fn entry_paths_use_forward_slashes() {
    let source = parts("/home/user/data/proc_failed/2024-01-01_00_00_00");
    assert_eq!(
        text(archive_entry_path(&source, &parts("logs/app.log"))),
        "data/proc_failed/2024-01-01_00_00_00/logs/app.log"
    );
    assert_eq!(
        text(archive_entry_path(&source, &Vec::new())),
        "data/proc_failed/2024-01-01_00_00_00"
    );
    assert_eq!(text(archive_entry_path(&parts("a/b/c"), &parts("d"))), "a/b/c/d");
}

#[test]
fn entry_paths_of_shallow_sources() {
    assert_eq!(text(archive_entry_path(&parts("a"), &parts("f"))), "a/f");
    assert_eq!(text(archive_entry_path(&parts("a"), &Vec::new())), "a");
    assert_eq!(text(archive_entry_path(&parts("a/b"), &parts("f"))), "f");
    assert_eq!(text(archive_entry_path(&parts("a/b"), &Vec::new())), "");
    assert_eq!(text(archive_entry_path(&Vec::new(), &parts("f/g"))), "f/g");
    assert_eq!(text(archive_entry_path(&Vec::new(), &Vec::new())), "");
}

#[test]
fn an_archive_needs_a_source() {
    assert_eq!(create_archive(&Vec::new()), Err(ArchiveError::NoSources));
}

#[test]
fn files_and_named_directories_are_archived() {
    let sources = vec![
        SourceTree {
            path: parts("/data/proc_failed/run1"),
            entries: vec![
                entry("", EntryKind::Directory),
                entry("exit_report.txt", EntryKind::File),
                entry("logs", EntryKind::Directory),
                entry("logs/socket", EntryKind::Other),
                entry("logs/app.log", EntryKind::File),
            ],
        },
        SourceTree { path: parts("/data/proc_failed/stray.txt"), entries: vec![entry("", EntryKind::File)] },
    ];
    assert_eq!(
        create_archive(&sources),
        Ok(vec![
            ArchiveItem { source: 0, entry: 0, is_dir: true },
            ArchiveItem { source: 0, entry: 1, is_dir: false },
            ArchiveItem { source: 0, entry: 2, is_dir: true },
            ArchiveItem { source: 0, entry: 4, is_dir: false },
            ArchiveItem { source: 1, entry: 0, is_dir: false },
        ])
    );
}

#[test]
fn the_root_of_a_shallow_source_gets_no_entry() {
    let sources = vec![SourceTree {
        path: parts("a/b"),
        entries: vec![entry("", EntryKind::Directory), entry("c", EntryKind::Directory)],
    }];
    assert_eq!(
        create_archive(&sources),
        Ok(vec![ArchiveItem { source: 0, entry: 1, is_dir: true }])
    );
}

#[test]
fn a_source_without_entries_gives_an_empty_archive() {
    let sources = vec![SourceTree { path: parts("/a/b/c"), entries: Vec::new() }];
    assert_eq!(create_archive(&sources), Ok(Vec::new()));
}

#[test]
fn an_archive_gives_back_every_path_and_every_byte() {
    let sources = vec![
        SourceTree {
            path: parts("/data/proc_failed/2024-01-01_00_00_00"),
            entries: vec![
                entry("", EntryKind::Directory),
                entry("exit_report.txt", EntryKind::File),
                entry("logs", EntryKind::Directory),
                entry("logs/app.log", EntryKind::File),
                entry("logs/empty.log", EntryKind::File),
            ],
        },
        SourceTree {
            path: parts("/data/proc_failed/2024-01-02_00_00_00"),
            entries: vec![
                entry("", EntryKind::Directory),
                entry("2024-01-02T00:00:05Z.panic", EntryKind::File),
            ],
        },
    ];
    let contents: Vec<Vec<Vec<u8>>> = vec![
        vec![
            Vec::new(),
            b"The program run exited with error:\ndisk full\n".to_vec(),
            Vec::new(),
            (0..=255u8).cycle().take(70_000).collect(),
            Vec::new(),
        ],
        vec![Vec::new(), b"Thread 'main' panicked at 'boom'\n".to_vec()],
    ];

    let items = create_archive(&sources).unwrap();
    let options = zip::write::SimpleFileOptions::default()
        .compression_method(zip::CompressionMethod::Bzip2);
    let mut writer = zip::ZipWriter::new(Cursor::new(Vec::new()));
    for item in items.iter() {
        let tree = &sources[item.source];
        let name = text(archive_entry_path(&tree.path, &tree.entries[item.entry].rel));
        if item.is_dir {
            writer.add_directory(name, options).unwrap();
        } else {
            writer.start_file(name, options).unwrap();
            writer.write_all(&contents[item.source][item.entry]).unwrap();
        }
    }
    let bytes = writer.finish().unwrap().into_inner();

    let mut archive = zip::ZipArchive::new(Cursor::new(bytes)).unwrap();
    assert_eq!(archive.len(), items.len());
    let mut files = Vec::new();
    let mut dirs = Vec::new();
    for index in 0..archive.len() {
        let mut file = archive.by_index(index).unwrap();
        if file.is_dir() {
            dirs.push(file.name().unwrap().into_owned());
        } else {
            let mut data = Vec::new();
            file.read_to_end(&mut data).unwrap();
            let name = file.name().unwrap().into_owned();
            files.push((name, data));
        }
    }
    assert_eq!(
        dirs,
        vec![
            "data/proc_failed/2024-01-01_00_00_00/".to_string(),
            "data/proc_failed/2024-01-01_00_00_00/logs/".to_string(),
            "data/proc_failed/2024-01-02_00_00_00/".to_string(),
        ]
    );
    assert_eq!(
        files,
        vec![
            (
                "data/proc_failed/2024-01-01_00_00_00/exit_report.txt".to_string(),
                contents[0][1].clone()
            ),
            ("data/proc_failed/2024-01-01_00_00_00/logs/app.log".to_string(), contents[0][3].clone()),
            ("data/proc_failed/2024-01-01_00_00_00/logs/empty.log".to_string(), Vec::new()),
            (
                "data/proc_failed/2024-01-02_00_00_00/2024-01-02T00:00:05Z.panic".to_string(),
                contents[1][1].clone()
            ),
        ]
    );
}
