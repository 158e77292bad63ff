//! Properties that relate the answers of the filesystem to one another.
use vstd::prelude::*;
use crate::attr::{
    dir_attr_of, hello_txt_content, song_attr_of, spec_hello_txt_attr, spec_root_dir_attr, FileAttr,
    FileKind,
};
use crate::catalog::{
    all_below, is_album_of, is_artist_of, is_last_named, is_song_of, sanitize, Album, Artist, SonicAlbum,
    SonicArtist, SonicSong, Song, SubsonicFS,
};
use crate::inode::{
    album_ino, artist_ino, flag_safe_index, has_flag, lemma_ino_index_round_trip, lemma_ino_kinds,
    song_ino, ALBUM_ID, ARTIST_ID, HELLO_INO, ROOT_INO, SONG_ID,
};
use crate::ops::{first_listed, lookup_needs_name, page_spec, song_read_spec, FsError};

verus! {

/// A lookup by name finds an artist, album or song exactly when the catalog
/// holds one of that name, and then it finds the last one of that name.
pub proof fn lemma_name_lookup_finds_last(fs: SubsonicFS, n: Seq<char>)
    requires
        fs.well_formed(),
    ensures
        fs.artist_named(n) is Some <==> fs.artist_names().contains(n),
        fs.artist_named(n) matches Some(i) ==> is_last_named(fs.artist_names(), n, i),
        fs.album_named(n) is Some <==> fs.album_names().contains(n),
        fs.album_named(n) matches Some(i) ==> is_last_named(fs.album_names(), n, i),
        fs.song_named(n) is Some <==> fs.song_names().contains(n),
        fs.song_named(n) matches Some(i) ==> is_last_named(fs.song_names(), n, i),
{
    if fs.artist_names().contains(n) {
        let i = choose|i: int| 0 <= i < fs.artist_names().len() && fs.artist_names()[i] == n;
        assert(fs.artists_name_to_index@.contains_key(fs.artist_names()[i]));
    }
    if fs.artists_name_to_index@.contains_key(n) {
        assert(is_last_named(fs.artist_names(), n, fs.artists_name_to_index@[n] as int));
    }
    if fs.album_names().contains(n) {
        let i = choose|i: int| 0 <= i < fs.album_names().len() && fs.album_names()[i] == n;
        assert(fs.albums_name_to_index@.contains_key(fs.album_names()[i]));
    }
    if fs.albums_name_to_index@.contains_key(n) {
        assert(is_last_named(fs.album_names(), n, fs.albums_name_to_index@[n] as int));
    }
    if fs.song_names().contains(n) {
        let i = choose|i: int| 0 <= i < fs.song_names().len() && fs.song_names()[i] == n;
        assert(fs.songs_name_to_index@.contains_key(fs.song_names()[i]));
    }
    if fs.songs_name_to_index@.contains_key(n) {
        assert(is_last_named(fs.song_names(), n, fs.songs_name_to_index@[n] as int));
    }
}

/// Every child that a listing of a directory shows is found by a lookup of
/// its name in that directory, under the inode the listing showed; below
/// the root also of the kind the listing showed (the root lists `Artists`
/// as a regular file, which a lookup finds as a directory).
pub proof fn lemma_listed_names_look_up(fs: SubsonicFS, dir: u64, k: int)
    requires
        fs.well_formed(),
        fs.listable(dir),
        2 <= k < fs.listing(dir).len(),
    ensures
        fs.lookup_spec(dir, Some(fs.listing(dir)[k].2)) is Ok,
        fs.lookup_spec(dir, Some(fs.listing(dir)[k].2))->Ok_0.ino == fs.listing(dir)[k].0,
        dir != ROOT_INO ==> fs.lookup_spec(dir, Some(fs.listing(dir)[k].2))->Ok_0.kind == fs.listing(dir)[k].1,
{
    reveal_strlit("hello.txt");
    reveal_strlit("Artists");
    let entries = fs.listing(dir);
    if dir == ROOT_INO {
        assert("hello.txt"@ != "Artists"@) by {
            assert("hello.txt"@.len() != "Artists"@.len());
        }
    } else if dir == ARTIST_ID {
        let i = k - 2;
        let n = fs.artists@[i].name@;
        assert(fs.artist_names()[i] == n);
        assert(fs.artists_name_to_index@.contains_key(fs.artist_names()[i]));
        let j = fs.artists_name_to_index@[n] as int;
        assert(is_last_named(fs.artist_names(), n, j));
        assert(entries[k] == fs.artist_entry(i));
    } else if has_flag(dir, ARTIST_ID) {
        let albums = fs.artists@[((dir - ARTIST_ID - 1) as usize) as int].albums@;
        let m = k - 2;
        assert(crate::catalog::all_below(albums, fs.albums@.len() as int));
        let j = albums[m] as int;
        let n = fs.albums@[j].name@;
        assert(fs.album_names()[j] == n);
        assert(fs.albums_name_to_index@.contains_key(fs.album_names()[j]));
        assert(entries[k] == fs.album_entry(j));
    } else if has_flag(dir, ALBUM_ID) {
        let songs = fs.albums@[((dir - ALBUM_ID - 1) as usize) as int].songs@;
        let m = k - 2;
        assert(crate::catalog::all_below(songs, fs.songs@.len() as int));
        let j = songs[m] as int;
        let n = fs.songs@[j].name@;
        assert(fs.song_names()[j] == n);
        assert(fs.songs_name_to_index@.contains_key(fs.song_names()[j]));
        assert(entries[k] == fs.song_entry(j));
    }
}

/// The inode that a lookup of an artist in `Artists` answers with, listed,
/// shows that artist's albums; the inode of an album found in an artist's
/// directory, listed, shows that album's songs. Both hold while the position
/// of the artist or album leaves the flag bits of its inode apart.
pub proof fn lemma_looked_up_dirs_list_their_children(fs: SubsonicFS, n: Seq<char>, artist_dir: u64)
    requires
        fs.well_formed(),
        artist_dir != ROOT_INO,
        artist_dir != ARTIST_ID,
        has_flag(artist_dir, ARTIST_ID),
    ensures
        fs.artist_named(n) matches Some(i) ==> flag_safe_index(i) ==> {
            let ino = fs.lookup_spec(ARTIST_ID, Some(n))->Ok_0.ino;
            &&& fs.listable(ino)
            &&& fs.listing(ino) == seq![(ino, FileKind::Directory, "."@), (ARTIST_ID, FileKind::Directory, ".."@)]
                + Seq::new(fs.artists@[i].albums@.len(), |m: int| fs.album_entry(fs.artists@[i].albums@[m] as int))
        },
        fs.album_named(n) matches Some(i) ==> flag_safe_index(i) ==> {
            let ino = fs.lookup_spec(artist_dir, Some(n))->Ok_0.ino;
            &&& fs.listable(ino)
            &&& fs.listing(ino) == seq![(ino, FileKind::Directory, "."@), (ARTIST_ID, FileKind::Directory, ".."@)]
                + Seq::new(fs.albums@[i].songs@.len(), |m: int| fs.song_entry(fs.albums@[i].songs@[m] as int))
        },
{
    if let Some(i) = fs.artist_named(n) {
        if flag_safe_index(i) {
            assert(is_last_named(fs.artist_names(), n, i));
            lemma_ino_kinds(i as u64);
            lemma_ino_index_round_trip(i);
            let ino = artist_ino(i) as u64;
            assert(((ino - ARTIST_ID - 1) as usize) as int == i);
        }
    }
    if let Some(i) = fs.album_named(n) {
        if flag_safe_index(i) {
            assert(is_last_named(fs.album_names(), n, i));
            lemma_ino_kinds(i as u64);
            lemma_ino_index_round_trip(i);
            let ino = album_ino(i) as u64;
            assert(((ino - ALBUM_ID - 1) as usize) as int == i);
        }
    }
}

/// A listing from offset 0 hands out every entry, each with its position as
/// offset; a listing resumed from the offset of a handed-out entry (other
/// than the first) hands out exactly the entries after it; a listing from
/// -1 hands out all entries, and one from any lower offset none.
pub proof fn lemma_listing_resumes(entries: Seq<(u64, FileKind, Seq<char>)>, offset: i64)
    requires
        entries.len() <= i64::MAX,
        offset < i64::MAX,
    ensures
        page_spec(entries, 0).len() == entries.len(),
        forall|k: int| 0 <= k < entries.len() ==> #[trigger] page_spec(entries, 0)[k] == (
            entries[k].0,
            k as i64,
            entries[k].1,
            entries[k].2,
        ),
        1 <= offset ==> page_spec(entries, offset) == page_spec(entries, 0).subrange(
            if offset + 1 <= entries.len() { offset + 1 } else { entries.len() as int },
            entries.len() as int,
        ),
        offset == -1 ==> page_spec(entries, offset) == page_spec(entries, 0),
        offset < -1 ==> page_spec(entries, offset).len() == 0,
{
    assert(first_listed(0) == 0);
    if offset >= 1 {
        assert(first_listed(offset) == offset + 1);
        assert(page_spec(entries, offset) =~= page_spec(entries, 0).subrange(
            if offset + 1 <= entries.len() { offset + 1 } else { entries.len() as int },
            entries.len() as int,
        ));
    }
    if offset == -1 {
        assert(first_listed(offset) == 0);
        assert(page_spec(entries, offset) =~= page_spec(entries, 0));
    }
    if offset < -1 {
        assert(first_listed(offset) == offset + 1 + 0x1_0000_0000_0000_0000) by (bit_vector)
            requires
                offset < -1,
        ;
    }
}

/// Reads one after the other tile a song: a read hands out bytes from its
/// offset on, never past the song's end, and as many as asked for unless it
/// reaches the end; the next read, at its end, goes on from there, and at the
/// song's end answers the end of file.
pub proof fn lemma_reads_tile_the_song(offset: i64, size: u32, song_size: u64)
    requires
        0 <= offset,
        song_size <= i64::MAX,
    ensures
        song_read_spec(offset, size, song_size) matches Ok((start, end)) ==> {
            &&& start == offset
            &&& start <= end <= song_size
            &&& end == song_size || end - start == size
            &&& end == song_size ==> song_read_spec(end as i64, size, song_size) == Err::<(u64, u64), FsError>(FsError::EndOfFile)
            &&& end < song_size ==> song_read_spec(end as i64, size, song_size) is Ok
        },
        song_read_spec(offset, size, song_size) is Err <==> offset >= song_size,
{
}

/// A lookup of `hello.txt` in the root answers what a request for the
/// attributes of its inode answers.
pub proof fn lemma_hello_attrs_agree(fs: SubsonicFS)
    ensures
        fs.lookup_spec(ROOT_INO, Some("hello.txt"@)) == fs.getattr_spec(HELLO_INO),
{
}

/// At most one position is the last one to carry a name.
pub proof fn lemma_last_named_unique(names: Seq<Seq<char>>, n: Seq<char>, i: int, j: int)
    requires
        is_last_named(names, n, i),
        is_last_named(names, n, j),
    ensures
        i == j,
{
    if i < j {
        assert(names[j] != n);
    } else if j < i {
        assert(names[i] != n);
    }
}

/// The name index of a well-formed catalog maps a name to the last position
/// that carries it, and holds a name exactly when a position carries it.
proof fn lemma_index_lookup(m: Map<Seq<char>, usize>, names: Seq<Seq<char>>, n: Seq<char>, i: int)
    requires
        crate::catalog::indexes_names(m, names),
    ensures
        is_last_named(names, n, i) ==> m.contains_key(n) && m[n] as int == i,
        !names.contains(n) ==> !m.contains_key(n),
{
    if is_last_named(names, n, i) {
        assert(m.contains_key(names[i]));
        assert(is_last_named(names, n, m[n] as int));
        lemma_last_named_unique(names, n, i, m[n] as int);
    }
    if m.contains_key(n) {
        assert(is_last_named(names, n, m[n] as int));
        assert(names[m[n] as int] == n);
    }
}

/// A read of a song at an offset inside it hands out exactly the bytes asked
/// for, from the offset on, as long as they end inside the song; a read
/// that would pass the song's end is cut there; a read from the song's end
/// on answers the end of file.
pub proof fn lemma_song_read_answers(offset: i64, size: u32, song_size: u64)
    requires
        0 <= offset,
    ensures
        offset < song_size && offset + size <= song_size ==> song_read_spec(offset, size, song_size)
            == Ok::<(u64, u64), FsError>((offset as u64, (offset + size) as u64)),
        offset < song_size < offset + size ==> song_read_spec(offset, size, song_size)
            == Ok::<(u64, u64), FsError>((offset as u64, song_size)),
        offset >= song_size ==> song_read_spec(offset, size, song_size)
            == Err::<(u64, u64), FsError>(FsError::EndOfFile),
{
}

/// Looking up an artist's name in `Artists` answers the directory of the last
/// artist of that name: its inode, the album count the server listed for it
/// (fetched albums or not), and the directory kind; a name no artist has is
/// no entry.
pub proof fn lemma_lookup_artist(fs: SubsonicFS, n: Seq<char>, i: int)
    requires
        fs.well_formed(),
    ensures
        is_last_named(fs.artist_names(), n, i) ==> {
            let r = fs.lookup_spec(ARTIST_ID, Some(n));
            &&& r is Ok
            &&& r->Ok_0.ino == ARTIST_ID + 1 + i
            &&& r->Ok_0.size == fs.artists@[i].album_count
            &&& r->Ok_0.kind == FileKind::Directory
        },
        !fs.artist_names().contains(n) ==> fs.lookup_spec(ARTIST_ID, Some(n)) == Err::<
            crate::attr::FileAttr,
            FsError,
        >(FsError::NoEntry),
{
    lemma_index_lookup(fs.artists_name_to_index@, fs.artist_names(), n, i);
}

/// Looking up an album's name in an artist's directory answers the directory
/// of the last album of that name: its inode, its song count and the
/// directory kind; a name no album has is no entry.
pub proof fn lemma_lookup_album(fs: SubsonicFS, dir: u64, n: Seq<char>, i: int)
    requires
        fs.well_formed(),
        dir != ROOT_INO,
        dir != ARTIST_ID,
        has_flag(dir, ARTIST_ID),
    ensures
        is_last_named(fs.album_names(), n, i) ==> {
            let r = fs.lookup_spec(dir, Some(n));
            &&& r is Ok
            &&& r->Ok_0.ino == ALBUM_ID + 1 + i
            &&& r->Ok_0.size == fs.albums@[i].song_count
            &&& r->Ok_0.kind == FileKind::Directory
        },
        !fs.album_names().contains(n) ==> fs.lookup_spec(dir, Some(n)) == Err::<
            crate::attr::FileAttr,
            FsError,
        >(FsError::NoEntry),
{
    lemma_index_lookup(fs.albums_name_to_index@, fs.album_names(), n, i);
}

/// Looking up a song's title in an album's directory answers the file of the
/// last song of that title: its inode, its size in bytes and the regular
/// file kind; a title no song has is no entry.
pub proof fn lemma_lookup_song(fs: SubsonicFS, dir: u64, n: Seq<char>, i: int)
    requires
        fs.well_formed(),
        dir != ROOT_INO,
        dir != ARTIST_ID,
        !has_flag(dir, ARTIST_ID),
        has_flag(dir, ALBUM_ID),
    ensures
        is_last_named(fs.song_names(), n, i) ==> {
            let r = fs.lookup_spec(dir, Some(n));
            &&& r is Ok
            &&& r->Ok_0.ino == SONG_ID + 1 + i
            &&& r->Ok_0.size == fs.songs@[i].size
            &&& r->Ok_0.kind == FileKind::RegularFile
        },
        !fs.song_names().contains(n) ==> fs.lookup_spec(dir, Some(n)) == Err::<
            crate::attr::FileAttr,
            FsError,
        >(FsError::NoEntry),
{
    lemma_index_lookup(fs.songs_name_to_index@, fs.song_names(), n, i);
}

/// The listing of `Artists` is `.`, `..` and then one directory per artist of
/// the catalog, in catalog order, each under its name and the inode of the
/// last artist of that name.
pub proof fn lemma_artists_listing(fs: SubsonicFS)
    requires
        fs.well_formed(),
    ensures
        fs.listing(ARTIST_ID).len() == fs.artists@.len() + 2,
        fs.listing(ARTIST_ID)[0] == (ARTIST_ID, FileKind::Directory, "."@),
        fs.listing(ARTIST_ID)[1] == (ROOT_INO, FileKind::Directory, ".."@),
        forall|i: int| 0 <= i < fs.artists@.len() ==> {
            let e = fs.listing(ARTIST_ID)[i + 2];
            &&& e.2 == (#[trigger] fs.artists@[i]).name@
            &&& e.1 == FileKind::Directory
            &&& e.0 > ARTIST_ID
            &&& is_last_named(fs.artist_names(), e.2, e.0 - ARTIST_ID - 1)
        },
{
    assert forall|i: int| 0 <= i < fs.artists@.len() implies {
        let e = fs.listing(ARTIST_ID)[i + 2];
        &&& e.2 == (#[trigger] fs.artists@[i]).name@
        &&& e.1 == FileKind::Directory
        &&& e.0 > ARTIST_ID
        &&& is_last_named(fs.artist_names(), e.2, e.0 - ARTIST_ID - 1)
    } by {
        let n = fs.artists@[i].name@;
        assert(fs.artist_names()[i] == n);
        assert(fs.artists_name_to_index@.contains_key(fs.artist_names()[i]));
        assert(is_last_named(fs.artist_names(), n, fs.artists_name_to_index@[n] as int));
        assert(fs.listing(ARTIST_ID)[i + 2] == fs.artist_entry(i));
    }
}

/// The directory of the artist at position `a` lists `.`, `..` and then one
/// directory per album of that artist, in order, each under the album's name
/// and the inode of the last album of that name.
pub proof fn lemma_artist_dir_listing(fs: SubsonicFS, a: int)
    requires
        fs.well_formed(),
        0 <= a < fs.artists@.len(),
        flag_safe_index(a),
    ensures
        ({
            let ino = artist_ino(a) as u64;
            let albums = fs.artists@[a].albums@;
            &&& fs.listable(ino)
            &&& fs.listing(ino).len() == albums.len() + 2
            &&& fs.listing(ino)[0] == (ino, FileKind::Directory, "."@)
            &&& fs.listing(ino)[1] == (ARTIST_ID, FileKind::Directory, ".."@)
            &&& forall|m: int| 0 <= m < albums.len() ==> {
                let e = fs.listing(ino)[m + 2];
                &&& e.2 == fs.albums@[#[trigger] albums[m] as int].name@
                &&& e.1 == FileKind::Directory
                &&& e.0 > ALBUM_ID
                &&& is_last_named(fs.album_names(), e.2, e.0 - ALBUM_ID - 1)
            }
        }),
{
    lemma_ino_kinds(a as u64);
    lemma_ino_index_round_trip(a);
    let ino = artist_ino(a) as u64;
    assert(((ino - ARTIST_ID - 1) as usize) as int == a);
    let albums = fs.artists@[a].albums@;
    assert(all_below(albums, fs.albums@.len() as int));
    assert forall|m: int| 0 <= m < albums.len() implies {
        let e = fs.listing(ino)[m + 2];
        &&& e.2 == fs.albums@[#[trigger] albums[m] as int].name@
        &&& e.1 == FileKind::Directory
        &&& e.0 > ALBUM_ID
        &&& is_last_named(fs.album_names(), e.2, e.0 - ALBUM_ID - 1)
    } by {
        let j = albums[m] as int;
        let n = fs.albums@[j].name@;
        assert(fs.album_names()[j] == n);
        assert(fs.albums_name_to_index@.contains_key(fs.album_names()[j]));
        assert(is_last_named(fs.album_names(), n, fs.albums_name_to_index@[n] as int));
        assert(fs.listing(ino)[m + 2] == fs.album_entry(j));
    }
}

/// The directory of the album at position `a` lists `.`, `..` and then one
/// regular file per song of that album, in order, each under the song's
/// title and the inode of the last song of that title.
pub proof fn lemma_album_dir_listing(fs: SubsonicFS, a: int)
    requires
        fs.well_formed(),
        0 <= a < fs.albums@.len(),
        flag_safe_index(a),
    ensures
        ({
            let ino = album_ino(a) as u64;
            let songs = fs.albums@[a].songs@;
            &&& fs.listable(ino)
            &&& fs.listing(ino).len() == songs.len() + 2
            &&& fs.listing(ino)[0] == (ino, FileKind::Directory, "."@)
            &&& fs.listing(ino)[1] == (ARTIST_ID, FileKind::Directory, ".."@)
            &&& forall|m: int| 0 <= m < songs.len() ==> {
                let e = fs.listing(ino)[m + 2];
                &&& e.2 == fs.songs@[#[trigger] songs[m] as int].name@
                &&& e.1 == FileKind::RegularFile
                &&& e.0 > SONG_ID
                &&& is_last_named(fs.song_names(), e.2, e.0 - SONG_ID - 1)
            }
        }),
{
    lemma_ino_kinds(a as u64);
    lemma_ino_index_round_trip(a);
    let ino = album_ino(a) as u64;
    assert(((ino - ALBUM_ID - 1) as usize) as int == a);
    let songs = fs.albums@[a].songs@;
    assert(all_below(songs, fs.songs@.len() as int));
    assert forall|m: int| 0 <= m < songs.len() implies {
        let e = fs.listing(ino)[m + 2];
        &&& e.2 == fs.songs@[#[trigger] songs[m] as int].name@
        &&& e.1 == FileKind::RegularFile
        &&& e.0 > SONG_ID
        &&& is_last_named(fs.song_names(), e.2, e.0 - SONG_ID - 1)
    } by {
        let j = songs[m] as int;
        let n = fs.songs@[j].name@;
        assert(fs.song_names()[j] == n);
        assert(fs.songs_name_to_index@.contains_key(fs.song_names()[j]));
        assert(is_last_named(fs.song_names(), n, fs.songs_name_to_index@[n] as int));
        assert(fs.listing(ino)[m + 2] == fs.song_entry(j));
    }
}

/// The inode of the song at position `i` is read as that song: a read of it
/// takes the song branch and streams the song at position `i`.
pub proof fn lemma_song_inode_reads_that_song(fs: SubsonicFS, i: int)
    requires
        fs.well_formed(),
        0 <= i < fs.songs@.len(),
        flag_safe_index(i),
    ensures
        ({
            let ino = song_ino(i) as u64;
            &&& ino != HELLO_INO
            &&& has_flag(ino, SONG_ID)
            &&& ino > SONG_ID
            &&& fs.song_at_ino(ino) == i
        }),
{
    lemma_ino_kinds(i as u64);
    lemma_ino_index_round_trip(i);
}

/// Replacing slashes keeps the length of a name and every character but
/// `/`, which becomes `-`; a name without `/` is kept as it is.
pub proof fn lemma_sanitize_replaces_only_slashes(n: Seq<char>)
    ensures
        sanitize(n).len() == n.len(),
        forall|k: int| 0 <= k < n.len() ==> #[trigger] sanitize(n)[k] == (if n[k] == '/' { '-' } else { n[k] }),
        !n.contains('/') ==> sanitize(n) == n,
{
    if !n.contains('/') {
        assert forall|k: int| 0 <= k < n.len() implies sanitize(n)[k] == n[k] by {
            assert(n[k] != '/');
        }
        assert(sanitize(n) =~= n);
    }
}

/// The bytes of `hello.txt` are the text "Hello World!\n", 13 bytes long as
/// its attributes say.
pub proof fn lemma_hello_txt_is_hello_world()
    ensures
        hello_txt_content().len() == crate::attr::spec_hello_txt_attr().size,
        hello_txt_content().len() == "Hello World!\n"@.len(),
        forall|k: int| 0 <= k < hello_txt_content().len() ==>
            (#[trigger] hello_txt_content()[k]) as char == "Hello World!\n"@[k],
{
    reveal_strlit("Hello World!\n");
}

/// A directory of the catalog has the given inode and size, no blocks, the
/// directory kind, mode 755, two links, owner and group nobody (65534), no
/// device or flags, and all four times at 1381237736 s; a song's file is the
/// same but of the regular-file kind.
pub proof fn lemma_catalog_attrs(ino: u64, size: u64)
    ensures
        ({
            let d = dir_attr_of(ino, size);
            &&& d.ino == ino && d.size == size && d.blocks == 0
            &&& d.kind == FileKind::Directory
            &&& d.perm == 0o755 && d.nlink == 2 && d.uid == 65534 && d.gid == 65534
            &&& d.rdev == 0 && d.flags == 0
            &&& d.atime.sec == 1381237736 && d.atime.nsec == 0
            &&& d.atime == d.mtime && d.atime == d.ctime && d.atime == d.crtime
        }),
        ({
            let f = song_attr_of(ino, size);
            &&& f.kind == FileKind::RegularFile
            &&& f == (FileAttr { kind: FileKind::RegularFile, ..dir_attr_of(ino, size) })
        }),
{
}

/// The root and `hello.txt` have fixed attributes: the root is directory 1
/// of size 0; `hello.txt` is regular file 2, 13 bytes in one block, mode
/// 644, one link. A request for attributes knows those two inodes and no
/// other; a lookup in the root finds `hello.txt` and the `Artists`
/// directory and nothing else.
pub proof fn lemma_root_answers(fs: SubsonicFS, ino: u64, n: Seq<char>)
    ensures
        spec_root_dir_attr() == dir_attr_of(ROOT_INO, 0),
        ({
            let h = spec_hello_txt_attr();
            &&& h.ino == 2 && h.size == 13 && h.blocks == 1
            &&& h.kind == FileKind::RegularFile
            &&& h.perm == 0o644 && h.nlink == 1 && h.uid == 65534 && h.gid == 65534
            &&& h.rdev == 0 && h.flags == 0
            &&& h.atime == dir_attr_of(ROOT_INO, 0).atime
            &&& h.atime == h.mtime && h.atime == h.ctime && h.atime == h.crtime
        }),
        fs.getattr_spec(ROOT_INO) == Ok::<FileAttr, FsError>(spec_root_dir_attr()),
        fs.getattr_spec(HELLO_INO) == Ok::<FileAttr, FsError>(spec_hello_txt_attr()),
        ino != ROOT_INO && ino != HELLO_INO ==> fs.getattr_spec(ino) == Err::<FileAttr, FsError>(FsError::NoEntry),
        fs.lookup_spec(ROOT_INO, Some("hello.txt"@)) == Ok::<FileAttr, FsError>(spec_hello_txt_attr()),
        fs.lookup_spec(ROOT_INO, Some("Artists"@)) == Ok::<FileAttr, FsError>(dir_attr_of(ARTIST_ID, 0)),
        n != "hello.txt"@ && n != "Artists"@ ==> fs.lookup_spec(ROOT_INO, Some(n)) == Err::<FileAttr, FsError>(
            FsError::NoEntry,
        ),
        fs.lookup_spec(ROOT_INO, None) == Err::<FileAttr, FsError>(FsError::NoEntry),
        !lookup_needs_name(ROOT_INO),
        ino != ROOT_INO && ino != ARTIST_ID && !has_flag(ino, ARTIST_ID) && !has_flag(ino, ALBUM_ID) ==>
            fs.lookup_spec(ino, Some(n)) == Err::<FileAttr, FsError>(FsError::NoEntry),
{
    reveal_strlit("hello.txt");
    reveal_strlit("Artists");
    assert("hello.txt"@ != "Artists"@) by {
        assert("hello.txt"@.len() != "Artists"@.len());
    }
}

/// The root lists `.` and `..` (both the root), `hello.txt` (file 2) and
/// `Artists` (inode `ARTIST_ID`, listed as a regular file), in that order;
/// an inode that is no directory lists nothing.
pub proof fn lemma_root_listing(fs: SubsonicFS, ino: u64)
    ensures
        fs.listing(ROOT_INO) == seq![
            (ROOT_INO, FileKind::Directory, "."@),
            (ROOT_INO, FileKind::Directory, ".."@),
            (HELLO_INO, FileKind::RegularFile, "hello.txt"@),
            (ARTIST_ID, FileKind::RegularFile, "Artists"@),
        ],
        ino != ROOT_INO && ino != ARTIST_ID && !has_flag(ino, ARTIST_ID) && !has_flag(ino, ALBUM_ID) ==>
            fs.listing(ino).len() == 0 && fs.listable(ino),
        fs.listable(ROOT_INO) && fs.listable(ARTIST_ID),
{
}

/// Reads are defined on every offset of `hello.txt` up to its end, and on a
/// song of the catalog at every offset up to the song's end.
pub proof fn lemma_reads_defined(fs: SubsonicFS, offset: i64, size: u32, i: int)
    requires
        fs.well_formed(),
        0 <= offset,
    ensures
        offset <= 13 ==> fs.read_defined(HELLO_INO, offset, size),
        0 <= i < fs.songs@.len() && flag_safe_index(i) && offset <= fs.songs@[i].size ==> fs.read_defined(
            song_ino(i) as u64,
            offset,
            size,
        ),
{
    if 0 <= i < fs.songs@.len() && flag_safe_index(i) {
        lemma_song_inode_reads_that_song(fs, i);
    }
}

/// The catalog records made of the server's records keep their fields: an
/// artist its id, album count and name (with `/` replaced) and no albums
/// yet; a song its title, id and size; an album its name, id, song count and
/// as many songs as the server listed, at consecutive positions from `first`.
pub proof fn lemma_records_keep_server_fields(
    a: Artist,
    sa: SonicArtist,
    s: Song,
    ss: SonicSong,
    b: Album,
    sb: SonicAlbum,
    first: int,
)
    ensures
        is_artist_of(a, sa) ==> a.id == sa.id && a.album_count == sa.album_count && a.name@ == sanitize(
            sa.name@,
        ) && a.albums@.len() == 0,
        is_song_of(s, ss) ==> s.name@ == ss.title@ && s.id == ss.id && s.size == ss.size,
        is_album_of(b, sb, first) ==> {
            &&& b.name@ == sb.name@ && b.id == sb.id && b.song_count == sb.song_count
            &&& b.songs@.len() == sb.songs@.len()
            &&& forall|k: int| 0 <= k < b.songs@.len() ==> #[trigger] b.songs@[k] == first + k
        },
{
}

/// The file of a song numbered by its server id has the id with the song
/// flag as inode, the song's size, the regular-file kind, mode 755, two
/// links, owner 501 and group 20.
pub proof fn lemma_song_file_attr(id: u64, size: u64)
    ensures
        ({
            let f = crate::song_file::spec_song_file_attr(id, size);
            &&& f.ino == ((id as usize) as u64 | SONG_ID)
            &&& f.size == size && f.blocks == 0
            &&& f.kind == FileKind::RegularFile
            &&& f.perm == 0o755 && f.nlink == 2 && f.uid == 501 && f.gid == 20
            &&& f.atime == dir_attr_of(ROOT_INO, 0).atime
        }),
{
}

} // verus!
