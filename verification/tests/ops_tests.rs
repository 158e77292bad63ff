use subsonicfs::attr::{subfs_dir_attr, subfs_txt_attr, ttl, FileKind};
use subsonicfs::catalog::{SonicAlbum, SonicArtist, SonicSong, SubsonicFS};
use subsonicfs::inode::{test_flag, ALBUM_ID, ARTIST_ID, SONG_ID};
use subsonicfs::song_file::{get_attr, get_id_from_ino, get_ino, get_ino_from_id};
use subsonicfs::ops::{lookup_reads_name, readdir_page, song_read_range, stream_chunk, DirEntry, FsError, ReadReply};

fn library() -> SubsonicFS {
    let mut fs = SubsonicFS::new(
        "Subsonic FS",
        vec![
            SonicArtist { id: 1, name: "Muse".to_string(), album_count: 1 },
            SonicArtist { id: 2, name: "Air".to_string(), album_count: 1 },
        ],
    );
    fs.build_album_list(
        0,
        vec![SonicAlbum {
            id: 10,
            name: "Absolution".to_string(),
            song_count: 2,
            songs: vec![
                SonicSong { id: 100, title: "Hysteria".to_string(), size: 1000 },
                SonicSong { id: 101, title: "Time Is Running Out".to_string(), size: 2000 },
            ],
        }],
    );
    fs
}

fn names(entries: &[DirEntry]) -> Vec<(u64, FileKind, String)> {
    entries.iter().map(|e| (e.ino, e.kind, e.name.clone())).collect()
}

#[test]
fn lookup_in_root() {
    let fs = library();
    assert_eq!(fs.lookup(1, Some("hello.txt")), Ok(subfs_txt_attr()));
    let artists = fs.lookup(1, Some("Artists")).unwrap();
    assert_eq!((artists.ino, artists.kind, artists.size), (ARTIST_ID, FileKind::Directory, 0));
    assert_eq!(fs.lookup(1, Some("nothing")), Err(FsError::NoEntry));
    assert_eq!(fs.lookup(1, None), Err(FsError::NoEntry));
}

#[test]
fn lookup_of_artists_albums_and_songs() {
    let fs = library();
    let muse = fs.lookup(ARTIST_ID, Some("Muse")).unwrap();
    assert_eq!((muse.ino, muse.size, muse.kind), (ARTIST_ID + 1, 1, FileKind::Directory));
    assert_eq!(fs.lookup(ARTIST_ID, Some("Blur")), Err(FsError::NoEntry));
    let album = fs.lookup(ARTIST_ID + 1, Some("Absolution")).unwrap();
    assert_eq!((album.ino, album.size), (ALBUM_ID + 1, 2));
    // albums are found by name whatever the artist directory
    assert_eq!(fs.lookup(ARTIST_ID + 2, Some("Absolution")).unwrap().ino, ALBUM_ID + 1);
    let song = fs.lookup(ALBUM_ID + 1, Some("Time Is Running Out")).unwrap();
    assert_eq!((song.ino, song.size, song.kind), (SONG_ID + 2, 2000, FileKind::RegularFile));
    assert_eq!(fs.lookup(ALBUM_ID + 1, Some("Uprising")), Err(FsError::NoEntry));
    assert_eq!(fs.lookup(SONG_ID + 1, Some("Hysteria")), Err(FsError::NoEntry));
    assert_eq!(fs.lookup(2, Some("Hysteria")), Err(FsError::NoEntry));
}

#[test]
fn getattr_knows_root_and_hello_only() {
    let fs = library();
    assert_eq!(fs.getattr(1), Ok(subfs_dir_attr()));
    assert_eq!(fs.getattr(2), Ok(subfs_txt_attr()));
    assert_eq!(fs.getattr(ARTIST_ID), Err(FsError::NoEntry));
    assert_eq!(fs.getattr(SONG_ID + 1), Err(FsError::NoEntry));
    let root = subfs_dir_attr();
    assert_eq!((root.ino, root.perm, root.nlink, root.kind), (1, 0o755, 2, FileKind::Directory));
    let txt = subfs_txt_attr();
    assert_eq!((txt.ino, txt.size, txt.blocks, txt.perm, txt.nlink), (2, 13, 1, 0o644, 1));
    assert_eq!((ttl().sec, ttl().nsec), (100, 0));
}

fn data(reply: ReadReply) -> Vec<u8> {
    match reply {
        ReadReply::Data(d) => d,
        other => panic!("expected data, got {:?}", other),
    }
}

#[test]
fn read_hello() {
    let fs = library();
    assert_eq!(data(fs.read(2, 0, 4096)), b"Hello World!\n".to_vec());
    assert_eq!(data(fs.read(2, 6, 4096)), b"World!\n".to_vec());
    assert_eq!(data(fs.read(2, 13, 1)), Vec::<u8>::new());
}

#[test]
fn read_song_ranges() {
    let fs = library();
    match fs.read(SONG_ID + 1, 0, 100) {
        ReadReply::Stream { song, start, end } => assert_eq!((song, start, end), (0, 0, 100)),
        other => panic!("{:?}", other),
    }
    match fs.read(SONG_ID + 1, 950, 100) {
        ReadReply::Stream { song, start, end } => assert_eq!((song, start, end), (0, 950, 1000)),
        other => panic!("{:?}", other),
    }
    match fs.read(SONG_ID + 2, 1000, 100) {
        ReadReply::Stream { song, start, end } => assert_eq!((song, start, end), (1, 1000, 1100)),
        other => panic!("{:?}", other),
    }
    assert!(matches!(fs.read(SONG_ID + 1, 1000, 100), ReadReply::Error(FsError::EndOfFile)));
    assert!(matches!(fs.read(SONG_ID + 3, 0, 100), ReadReply::Error(FsError::NoEntry)));
    assert!(matches!(fs.read(ARTIST_ID + 1, 0, 100), ReadReply::Error(FsError::NoEntry)));
    assert!(matches!(fs.read(5, 0, 100), ReadReply::Error(FsError::NoEntry)));
}

#[test]
fn song_read_range_values() {
    assert_eq!(song_read_range(0, 10, 25), Ok((0, 10)));
    assert_eq!(song_read_range(20, 10, 25), Ok((20, 25)));
    assert_eq!(song_read_range(25, 10, 25), Err(FsError::EndOfFile));
    assert_eq!(song_read_range(3, 0, 25), Ok((3, 3)));
}

#[test]
fn consecutive_reads_tile_a_song() {
    let mut offset = 0i64;
    let mut covered = 0u64;
    loop {
        match song_read_range(offset, 7, 30) {
            Ok((start, end)) => {
                assert_eq!(start, covered);
                covered = end;
                offset = end as i64;
            }
            Err(e) => {
                assert_eq!(e, FsError::EndOfFile);
                break;
            }
        }
    }
    assert_eq!(covered, 30);
}

#[test]
fn stream_chunk_slices() {
    let stream: Vec<u8> = (0u8..20).collect();
    assert_eq!(stream_chunk(&stream, 5, 9), vec![5, 6, 7, 8]);
    assert_eq!(stream_chunk(&stream, 20, 20), Vec::<u8>::new());
}

#[test]
fn listing_of_root_and_artists() {
    let fs = library();
    assert_eq!(
        names(&fs.readdir_entries(1)),
        vec![
            (1, FileKind::Directory, ".".to_string()),
            (1, FileKind::Directory, "..".to_string()),
            (2, FileKind::RegularFile, "hello.txt".to_string()),
            (ARTIST_ID, FileKind::RegularFile, "Artists".to_string()),
        ]
    );
    assert_eq!(
        names(&fs.readdir_entries(ARTIST_ID)),
        vec![
            (ARTIST_ID, FileKind::Directory, ".".to_string()),
            (1, FileKind::Directory, "..".to_string()),
            (ARTIST_ID + 1, FileKind::Directory, "Muse".to_string()),
            (ARTIST_ID + 2, FileKind::Directory, "Air".to_string()),
        ]
    );
}

#[test]
fn listing_of_artist_and_album() {
    let fs = library();
    assert_eq!(
        names(&fs.readdir_entries(ARTIST_ID + 1)),
        vec![
            (ARTIST_ID + 1, FileKind::Directory, ".".to_string()),
            (ARTIST_ID, FileKind::Directory, "..".to_string()),
            (ALBUM_ID + 1, FileKind::Directory, "Absolution".to_string()),
        ]
    );
    assert_eq!(
        names(&fs.readdir_entries(ALBUM_ID + 1)),
        vec![
            (ALBUM_ID + 1, FileKind::Directory, ".".to_string()),
            (ARTIST_ID, FileKind::Directory, "..".to_string()),
            (SONG_ID + 1, FileKind::RegularFile, "Hysteria".to_string()),
            (SONG_ID + 2, FileKind::RegularFile, "Time Is Running Out".to_string()),
        ]
    );
    assert!(fs.readdir_entries(SONG_ID + 1).is_empty());
    assert!(fs.readdir_entries(2).is_empty());
}

#[test]
fn albums_are_fetched_once_per_artist() {
    let fs = library();
    assert_eq!(fs.albums_to_fetch(ARTIST_ID + 1), None);
    assert_eq!(fs.albums_to_fetch(ARTIST_ID + 2), Some(1));
    assert_eq!(fs.albums_to_fetch(ARTIST_ID), None);
    assert_eq!(fs.albums_to_fetch(1), None);
    assert_eq!(fs.albums_to_fetch(ALBUM_ID + 1), None);
}

#[test]
fn listing_pages_resume_after_offset() {
    let fs = library();
    let entries = fs.readdir_entries(ARTIST_ID);
    let all = readdir_page(&entries, 0);
    assert_eq!(all.iter().map(|s| s.offset).collect::<Vec<_>>(), vec![0, 1, 2, 3]);
    let root = fs.readdir_entries(1);
    let resumed = readdir_page(&root, 2);
    assert_eq!(resumed.len(), 1);
    assert_eq!((resumed[0].ino, resumed[0].offset, resumed[0].kind, resumed[0].name.as_str()),
               (ARTIST_ID, 3, FileKind::RegularFile, "Artists"));
    let after_one = readdir_page(&entries, 1);
    assert_eq!(after_one.iter().map(|s| (s.offset, s.name.clone())).collect::<Vec<_>>(),
               vec![(2, "Muse".to_string()), (3, "Air".to_string())]);
    assert_eq!(after_one[0].ino, ARTIST_ID + 1);
    assert!(readdir_page(&entries, 3).is_empty());
    assert!(readdir_page(&entries, 100).is_empty());
    assert_eq!(readdir_page(&entries, -1).len(), 4);
    assert!(readdir_page(&entries, -2).is_empty());
}

#[test]
fn listed_children_look_up_to_the_listed_inode() {
    let fs = library();
    for dir in [1u64, ARTIST_ID, ARTIST_ID + 1, ALBUM_ID + 1] {
        let entries = fs.readdir_entries(dir);
        for e in entries.iter().skip(2) {
            let attr = fs.lookup(dir, Some(&e.name)).unwrap();
            assert_eq!(attr.ino, e.ino);
            if dir != 1 {
                assert_eq!(attr.kind, e.kind);
            }
        }
    }
}

#[test]
fn looked_up_artist_lists_its_albums() {
    let fs = library();
    let ino = fs.lookup(ARTIST_ID, Some("Muse")).unwrap().ino;
    let listed = fs.readdir_entries(ino);
    assert_eq!(listed.len(), 3);
    assert_eq!(listed[2].name, "Absolution");
}

#[test]
fn flags_tell_inodes_apart() {
    assert!(test_flag(ARTIST_ID + 1, ARTIST_ID));
    assert!(!test_flag(ALBUM_ID + 1, ARTIST_ID));
    assert!(test_flag(ALBUM_ID + 1, ALBUM_ID));
    assert!(!test_flag(SONG_ID + 1, ALBUM_ID));
    assert!(test_flag(SONG_ID + 1, SONG_ID));
    assert!(!test_flag(1, ARTIST_ID));
}

#[test]
fn song_file_ids_and_inodes() {
    assert_eq!(get_ino_from_id(5), SONG_ID | 5);
    assert_eq!(get_id_from_ino(SONG_ID | 5), 5);
    assert_eq!(get_id_from_ino(get_ino_from_id(123456)), 123456);
    assert_eq!(get_ino(7), SONG_ID + 7);
    let a = get_attr(7, 99);
    assert_eq!((a.ino, a.size, a.uid, a.gid, a.perm, a.kind), (SONG_ID + 7, 99, 501, 20, 0o755, FileKind::RegularFile));
}

#[test]
fn preconditions_of_the_answers() {
    let fs = library();
    assert!(!lookup_reads_name(1));
    assert!(lookup_reads_name(ARTIST_ID));
    assert!(lookup_reads_name(ARTIST_ID + 1));
    assert!(lookup_reads_name(ALBUM_ID + 1));
    assert!(!lookup_reads_name(SONG_ID + 1));
    assert!(fs.is_listable(1));
    assert!(fs.is_listable(ARTIST_ID + 2));
    assert!(!fs.is_listable(ARTIST_ID + 3));
    assert!(!fs.is_listable(ALBUM_ID));
    assert!(fs.is_listable(ALBUM_ID + 1));
    assert!(!fs.is_listable(ALBUM_ID + 2));
    assert!(fs.is_listable(SONG_ID + 1));
    assert!(fs.read_is_defined(2, 13, 10));
    assert!(!fs.read_is_defined(2, 14, 10));
    assert!(!fs.read_is_defined(2, -1, 10));
    assert!(fs.read_is_defined(SONG_ID + 1, 1000, 10));
    assert!(!fs.read_is_defined(SONG_ID + 1, 1001, 10));
    assert!(!fs.read_is_defined(SONG_ID + 1, -1, 10));
    assert!(!fs.read_is_defined(SONG_ID, 0, 10));
    assert!(fs.read_is_defined(SONG_ID + 9, 5, 10));
    assert!(fs.read_is_defined(7, -5, 10));
}

#[test]
fn album_lists_that_fit() {
    let fs = library();
    let list = vec![SonicAlbum { id: 1, name: "a".to_string(), song_count: 0, songs: vec![] }];
    assert!(fs.album_list_fits(&list));
}
