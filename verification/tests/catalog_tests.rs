use subsonicfs::catalog::{SonicAlbum, SonicArtist, SonicSong, SubsonicFS};
use subsonicfs::inode::{ALBUM_ID, ARTIST_ID, SONG_ID};

fn artist(id: usize, name: &str, album_count: usize) -> SonicArtist {
    SonicArtist { id, name: name.to_string(), album_count }
}

fn song(id: u64, title: &str, size: u64) -> SonicSong {
    SonicSong { id, title: title.to_string(), size }
}

fn album(id: u64, name: &str, songs: Vec<SonicSong>) -> SonicAlbum {
    SonicAlbum { id, name: name.to_string(), song_count: songs.len() as u64, songs }
}

fn sample() -> SubsonicFS {
    SubsonicFS::new("Subsonic FS", vec![artist(10, "AC/DC", 2), artist(11, "Muse", 1)])
}

#[test]
fn new_keeps_artists_in_order_without_albums() {
    let fs = sample();
    assert_eq!(fs.name, "Subsonic FS");
    assert_eq!(fs.artists.len(), 2);
    assert_eq!(fs.artists[0].id, 10);
    assert_eq!(fs.artists[0].album_count, 2);
    assert_eq!(fs.artists[1].name, "Muse");
    assert!(fs.artists[0].albums.is_empty());
    assert!(fs.albums.is_empty());
    assert!(fs.songs.is_empty());
}

#[test]
fn artist_names_have_slashes_replaced() {
    let fs = sample();
    assert_eq!(fs.artists[0].name, "AC-DC");
    assert!(fs.get_artist_by_name("AC-DC").is_some());
    assert!(fs.get_artist_by_name("AC/DC").is_none());
}

#[test]
fn sanitize_keeps_other_characters() {
    assert_eq!(subsonicfs::catalog::sanitize_name("a/b//c é"), "a-b--c é");
    assert_eq!(subsonicfs::catalog::sanitize_name(""), "");
}

#[test]
fn name_lookup_finds_the_last_of_a_name() {
    let fs = SubsonicFS::new("fs", vec![artist(1, "Same", 0), artist(2, "Other", 0), artist(3, "Same", 0)]);
    let a = fs.get_artist_by_name("Same").unwrap();
    assert_eq!(a.id, 3);
    assert_eq!(fs.get_artist_index(&fs.artists[0]), 2);
    assert_eq!(fs.get_artist_ino(&fs.artists[0]), ARTIST_ID + 1 + 2);
    assert!(fs.get_artist_by_name("Missing").is_none());
}

#[test]
fn build_album_list_adds_albums_and_their_songs() {
    let mut fs = sample();
    fs.build_album_list(
        0,
        vec![
            album(100, "Back in Black", vec![song(1000, "Hells Bells", 5000), song(1001, "Shoot to Thrill", 6000)]),
            album(101, "Highway to Hell", vec![song(1002, "Highway to Hell", 7000)]),
        ],
    );
    assert_eq!(fs.albums.len(), 2);
    assert_eq!(fs.songs.len(), 3);
    assert_eq!(fs.artists[0].albums, vec![0, 1]);
    assert_eq!(fs.albums[0].songs, vec![0, 1]);
    assert_eq!(fs.albums[1].songs, vec![2]);
    assert_eq!(fs.albums[1].song_count, 1);
    assert_eq!(fs.songs[2].name, "Highway to Hell");
    assert_eq!(fs.songs[2].size, 7000);
    assert_eq!(fs.get_album_by_name("Highway to Hell").unwrap().id, 101);
    assert_eq!(fs.get_song_by_name("Shoot to Thrill").unwrap().id, 1001);
    // another artist's albums go after the first ones
    fs.build_album_list(1, vec![album(102, "Absolution", vec![])]);
    assert_eq!(fs.artists[1].albums, vec![2]);
    assert_eq!(fs.artists[0].albums, vec![0, 1]);
}

#[test]
fn add_new_song_returns_position() {
    let mut fs = sample();
    let i = fs.add_new_song(subsonicfs::catalog::Song { name: "x".to_string(), id: 7, size: 1 });
    let j = fs.add_new_song(subsonicfs::catalog::Song { name: "y".to_string(), id: 8, size: 2 });
    assert_eq!((i, j), (0, 1));
    assert_eq!(fs.get_song_ino(&fs.songs[1]), SONG_ID + 2);
}

#[test]
fn inode_lookups_by_position() {
    let mut fs = sample();
    fs.build_album_list(1, vec![album(5, "Origin of Symmetry", vec![song(6, "Plug In Baby", 42)])]);
    assert_eq!(fs.get_artist_by_ino(ARTIST_ID + 2).unwrap().name, "Muse");
    assert!(fs.get_artist_by_ino(ARTIST_ID + 3).is_none());
    assert_eq!(fs.get_album_by_ino(ALBUM_ID + 1).unwrap().id, 5);
    assert!(fs.get_album_by_ino(ALBUM_ID + 2).is_none());
    assert_eq!(fs.get_song_by_ino(SONG_ID + 1).unwrap().size, 42);
    assert!(fs.get_song_by_ino(SONG_ID + 2).is_none());
}

#[test]
fn attributes_of_catalog_entries() {
    let mut fs = sample();
    fs.build_album_list(1, vec![album(5, "Origin of Symmetry", vec![song(6, "Plug In Baby", 42)])]);
    let a = fs.get_artist_attr(&fs.artists[1]);
    assert_eq!(a.ino, ARTIST_ID + 2);
    assert_eq!(a.size, 1);
    assert_eq!(a.kind, subsonicfs::attr::FileKind::Directory);
    assert_eq!(a.perm, 0o755);
    assert_eq!((a.uid, a.gid, a.nlink), (65534, 65534, 2));
    let b = fs.get_album_attr(&fs.albums[0]);
    assert_eq!((b.ino, b.size), (ALBUM_ID + 1, 1));
    let s = fs.get_song_attr(&fs.songs[0]);
    assert_eq!((s.ino, s.size, s.kind), (SONG_ID + 1, 42, subsonicfs::attr::FileKind::RegularFile));
    assert_eq!(s.atime.sec, 1381237736);
    let d = fs.get_dir_attr(77);
    assert_eq!((d.ino, d.size, d.blocks), (77, 0, 0));
}
