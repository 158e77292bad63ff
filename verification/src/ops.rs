//! What the filesystem answers: to a lookup of a name in a directory, to a
//! request for attributes, to a read of a file and to a listing of a
//! directory.
use vstd::prelude::*;
use crate::attr::{
    dir_attr_of, hello_txt_bytes, hello_txt_content, song_attr_of, spec_hello_txt_attr,
    spec_root_dir_attr, subfs_dir_attr, subfs_txt_attr, FileAttr, FileKind,
};
use crate::catalog::{all_below, is_last_named, Album, Artist, Song, SubsonicFS};
use crate::inode::{
    lemma_flag_bound, album_ino, artist_ino, has_flag, song_ino, test_flag, ALBUM_ID, ARTIST_ID, HELLO_INO, ROOT_INO,
    SONG_ID,
};

verus! {

/// The errors the filesystem answers with.
#[derive(Debug, Clone, Copy, PartialEq, Eq, Structural)]
pub enum FsError {
    /// No such file or directory.
    NoEntry,
    /// A read at or past the end of a song.
    EndOfFile,
}

/// The answer to a read.
#[derive(Debug)]
pub enum ReadReply {
    /// These bytes.
    Data(Vec<u8>),
    /// Bytes `start..end` of the stream of the song at position `song`.
    Stream { song: usize, start: u64, end: u64 },
    /// An error.
    Error(FsError),
}

/// An entry of a directory listing.
#[derive(Debug)]
pub struct DirEntry {
    pub ino: u64,
    pub kind: FileKind,
    pub name: String,
}

/// An entry of a directory listing as it is handed to the kernel, with the
/// offset at which it stands in the listing.
#[derive(Debug)]
pub struct DirSlot {
    pub ino: u64,
    pub offset: i64,
    pub kind: FileKind,
    pub name: String,
}

/// An entry as plain values.
pub open spec fn entry_view(e: DirEntry) -> (u64, FileKind, Seq<char>) {
    (e.ino, e.kind, e.name@)
}

/// A slot as plain values.
pub open spec fn slot_view(s: DirSlot) -> (u64, i64, FileKind, Seq<char>) {
    (s.ino, s.offset, s.kind, s.name@)
}

/// Whether a lookup in `parent` reads the name as text, which fails for a
/// name that is not valid text.
pub open spec fn lookup_needs_name(parent: u64) -> bool {
    parent != ROOT_INO && (parent == ARTIST_ID || has_flag(parent, ARTIST_ID) || has_flag(parent, ALBUM_ID))
}

/// What a read at `offset` of `size` bytes of a song of `song_size` bytes
/// answers: the end of file from the song's end on, else the bytes from the
/// offset on, at most `size` of them and none past the song's end. A
/// negative offset counts as its 64-bit two's complement.
pub open spec fn song_read_spec(offset: i64, size: u32, song_size: u64) -> Result<(u64, u64), FsError> {
    let start = offset as u64;
    if start >= song_size {
        Err(FsError::EndOfFile)
    } else if start + size > song_size {
        Ok((start, song_size))
    } else {
        Ok((start, (start + size) as u64))
    }
}

/// The inputs on which a read of a song of `song_size` bytes is defined: the
/// offset, as a 64-bit two's complement, plus the size fits in 64 bits and
/// is not past the song's end.
pub open spec fn song_read_defined(offset: i64, size: u32, song_size: u64) -> bool {
    (offset as u64) + size <= u64::MAX && (offset as u64) <= song_size
}

/// The first position of a listing that a listing from `offset` hands out:
/// 0 for offset 0, else one past the offset, as a 64-bit two's complement.
pub open spec fn first_listed(offset: i64) -> int {
    (if offset == 0 { 0 } else { offset + 1 }) as u64 as int
}

/// What a listing of `entries` from `offset` hands to the kernel: each entry
/// from `first_listed(offset)` on, with its position as its offset.
pub open spec fn page_spec(entries: Seq<(u64, FileKind, Seq<char>)>, offset: i64) -> Seq<(u64, i64, FileKind, Seq<char>)> {
    let first = first_listed(offset);
    if first >= entries.len() {
        Seq::empty()
    } else {
        Seq::new(
            (entries.len() - first) as nat,
            |k: int| (entries[first + k].0, (first + k) as i64, entries[first + k].1, entries[first + k].2),
        )
    }
}

impl SubsonicFS {
    /// What a lookup of `name` in the directory `parent` answers.
    pub open spec fn lookup_spec(self, parent: u64, name: Option<Seq<char>>) -> Result<FileAttr, FsError> {
        if parent == ROOT_INO {
            if name == Some("hello.txt"@) {
                Ok(spec_hello_txt_attr())
            } else if name == Some("Artists"@) {
                Ok(dir_attr_of(ARTIST_ID, 0))
            } else {
                Err(FsError::NoEntry)
            }
        } else if parent == ARTIST_ID {
            match self.artist_named(name->0) {
                Some(i) => Ok(dir_attr_of(artist_ino(i) as u64, self.artists@[i].album_count as u64)),
                None => Err(FsError::NoEntry),
            }
        } else if has_flag(parent, ARTIST_ID) {
            match self.album_named(name->0) {
                Some(i) => Ok(dir_attr_of(album_ino(i) as u64, self.albums@[i].song_count)),
                None => Err(FsError::NoEntry),
            }
        } else if has_flag(parent, ALBUM_ID) {
            match self.song_named(name->0) {
                Some(i) => Ok(song_attr_of(song_ino(i) as u64, self.songs@[i].size)),
                None => Err(FsError::NoEntry),
            }
        } else {
            Err(FsError::NoEntry)
        }
    }

    /// What a request for the attributes of `ino` answers.
    pub open spec fn getattr_spec(self, ino: u64) -> Result<FileAttr, FsError> {
        if ino == ROOT_INO {
            Ok(spec_root_dir_attr())
        } else if ino == HELLO_INO {
            Ok(spec_hello_txt_attr())
        } else {
            Err(FsError::NoEntry)
        }
    }

    /// Position of the song that the song inode `ino` stands for.
    pub open spec fn song_at_ino(self, ino: u64) -> int {
        ((ino - SONG_ID - 1) as usize) as int
    }

    /// The inputs on which a read is defined.
    pub open spec fn read_defined(self, ino: u64, offset: i64, size: u32) -> bool {
        if ino == HELLO_INO {
            0 <= offset <= 13
        } else if has_flag(ino, SONG_ID) {
            &&& ino > SONG_ID
            &&& self.song_at_ino(ino) < self.songs@.len() ==> song_read_defined(
                offset,
                size,
                self.songs@[self.song_at_ino(ino)].size,
            )
        } else {
            true
        }
    }

    /// The inputs on which a listing is defined: an artist or album inode
    /// names an artist or album of the catalog.
    pub open spec fn listable(self, ino: u64) -> bool {
        if ino == ROOT_INO || ino == ARTIST_ID {
            true
        } else if has_flag(ino, ARTIST_ID) {
            ((ino - ARTIST_ID - 1) as usize) < self.artists@.len()
        } else if has_flag(ino, ALBUM_ID) {
            ino > ALBUM_ID && ((ino - ALBUM_ID - 1) as usize) < self.albums@.len()
        } else {
            true
        }
    }

    /// Entry of the artist at position `i` in the `Artists` directory: the
    /// inode of the last artist of that name.
    pub open spec fn artist_entry(self, i: int) -> (u64, FileKind, Seq<char>) {
        let n = self.artists@[i].name@;
        (artist_ino(self.artists_name_to_index@[n] as int) as u64, FileKind::Directory, n)
    }

    /// Entry of the album at position `j` in an artist's directory: the inode
    /// of the last album of that name.
    pub open spec fn album_entry(self, j: int) -> (u64, FileKind, Seq<char>) {
        let n = self.albums@[j].name@;
        (album_ino(self.albums_name_to_index@[n] as int) as u64, FileKind::Directory, n)
    }

    /// Entry of the song at position `j` in an album's directory: the inode
    /// of the last song of that title, listed as a regular file.
    pub open spec fn song_entry(self, j: int) -> (u64, FileKind, Seq<char>) {
        let n = self.songs@[j].name@;
        (song_ino(self.songs_name_to_index@[n] as int) as u64, FileKind::RegularFile, n)
    }

    /// The listing of the directory `ino`.
    pub open spec fn listing(self, ino: u64) -> Seq<(u64, FileKind, Seq<char>)> {
        if ino == ROOT_INO {
            seq![
                (ROOT_INO, FileKind::Directory, "."@),
                (ROOT_INO, FileKind::Directory, ".."@),
                (HELLO_INO, FileKind::RegularFile, "hello.txt"@),
                (ARTIST_ID, FileKind::RegularFile, "Artists"@),
            ]
        } else if ino == ARTIST_ID {
            seq![(ARTIST_ID, FileKind::Directory, "."@), (ROOT_INO, FileKind::Directory, ".."@)]
                + Seq::new(self.artists@.len(), |i: int| self.artist_entry(i))
        } else if has_flag(ino, ARTIST_ID) {
            let albums = self.artists@[((ino - ARTIST_ID - 1) as usize) as int].albums@;
            seq![(ino, FileKind::Directory, "."@), (ARTIST_ID, FileKind::Directory, ".."@)]
                + Seq::new(albums.len(), |k: int| self.album_entry(albums[k] as int))
        } else if has_flag(ino, ALBUM_ID) {
            let songs = self.albums@[((ino - ALBUM_ID - 1) as usize) as int].songs@;
            seq![(ino, FileKind::Directory, "."@), (ARTIST_ID, FileKind::Directory, ".."@)]
                + Seq::new(songs.len(), |k: int| self.song_entry(songs[k] as int))
        } else {
            Seq::empty()
        }
    }
}

/// Whether `a` and `b` are the same text.
fn same_text(a: &str, b: &str) -> (res: bool)
    ensures
        res == (a@ == b@),
{
    a.to_owned() == b.to_owned()
}

impl SubsonicFS {
    /// Looks up `name` in the directory `parent`: `hello.txt` and `Artists`
    /// in the root; an artist by name in `Artists`; an album by name in an
    /// artist's directory and a song by title in an album's directory, both
    /// from the whole catalog.
    pub fn lookup(&self, parent: u64, name: Option<&str>) -> (res: Result<FileAttr, FsError>)
        requires
            self.well_formed(),
            name is Some || !lookup_needs_name(parent),
        ensures
            res == self.lookup_spec(parent, match name { Some(n) => Some(n@), None => None }),
    {
        if parent == ROOT_INO {
            match name {
                Some(n) => {
                    if same_text(n, "hello.txt") {
                        Ok(subfs_txt_attr())
                    } else if same_text(n, "Artists") {
                        Ok(self.get_dir_attr(ARTIST_ID))
                    } else {
                        Err(FsError::NoEntry)
                    }
                },
                None => Err(FsError::NoEntry),
            }
        } else if parent == ARTIST_ID {
            let n = name.unwrap();
            match self.get_artist_by_name(n) {
                Some(artist) => {
                    proof {
                        let i = self.artist_named(n@)->0;
                        assert(is_last_named(self.artist_names(), n@, i));
                        assert(self.artist_names()[i] == self.artists@[i].name@);
                    }
                    Ok(self.get_artist_attr(artist))
                },
                None => Err(FsError::NoEntry),
            }
        } else if test_flag(parent, ARTIST_ID) {
            let n = name.unwrap();
            match self.get_album_by_name(n) {
                Some(album) => {
                    proof {
                        let i = self.album_named(n@)->0;
                        assert(is_last_named(self.album_names(), n@, i));
                        assert(self.album_names()[i] == self.albums@[i].name@);
                    }
                    Ok(self.get_album_attr(album))
                },
                None => Err(FsError::NoEntry),
            }
        } else if test_flag(parent, ALBUM_ID) {
            let n = name.unwrap();
            match self.get_song_by_name(n) {
                Some(song) => {
                    proof {
                        let i = self.song_named(n@)->0;
                        assert(is_last_named(self.song_names(), n@, i));
                        assert(self.song_names()[i] == self.songs@[i].name@);
                    }
                    Ok(self.get_song_attr(song))
                },
                None => Err(FsError::NoEntry),
            }
        } else {
            Err(FsError::NoEntry)
        }
    }

    /// The attributes of `ino`: only the root and `hello.txt` have them.
    pub fn getattr(&self, ino: u64) -> (res: Result<FileAttr, FsError>)
        ensures
            res == self.getattr_spec(ino),
    {
        if ino == ROOT_INO {
            Ok(subfs_dir_attr())
        } else if ino == HELLO_INO {
            Ok(subfs_txt_attr())
        } else {
            Err(FsError::NoEntry)
        }
    }
}

/// The bytes of `hello.txt` from `offset` on.
fn hello_txt_from(offset: usize) -> (data: Vec<u8>)
    requires
        offset <= 13,
    ensures
        data@ == hello_txt_content().subrange(offset as int, 13),
{
    let all = hello_txt_bytes();
    let mut data: Vec<u8> = Vec::new();
    let mut i = offset;
    while i < all.len()
        invariant
            all@ == hello_txt_content(),
            offset <= i <= all@.len(),
            data@ == all@.subrange(offset as int, i as int),
        decreases all@.len() - i,
    {
        data.push(all[i]);
        i = i + 1;
        assert(data@ =~= all@.subrange(offset as int, i as int));
    }
    data
}

/// Bytes `start..end` of a song's stream.
pub fn stream_chunk(stream: &Vec<u8>, start: u64, end: u64) -> (chunk: Vec<u8>)
    requires
        start <= end <= stream@.len(),
    ensures
        chunk@ == stream@.subrange(start as int, end as int),
{
    let mut chunk: Vec<u8> = Vec::new();
    let length = stream.len();
    assert(start <= end <= length);
    let mut i = start as usize;
    let stop = end as usize;
    while i < stop
        invariant
            start <= i <= stop,
            stop == end,
            end <= stream@.len(),
            chunk@ == stream@.subrange(start as int, i as int),
        decreases stop - i,
    {
        chunk.push(stream[i]);
        i = i + 1;
        assert(chunk@ =~= stream@.subrange(start as int, i as int));
    }
    chunk
}

/// The range of a song's stream that a read at `offset` of `size` bytes
/// answers with, or the end of file at or past the song's end.
pub fn song_read_range(offset: i64, size: u32, song_size: u64) -> (res: Result<(u64, u64), FsError>)
    requires
        song_read_defined(offset, size, song_size),
    ensures
        res == song_read_spec(offset, size, song_size),
{
    let start = offset as u64;
    let len: u64 = if start + size as u64 > song_size {
        song_size - start
    } else {
        size as u64
    };
    if start >= song_size {
        Err(FsError::EndOfFile)
    } else {
        Ok((start, start + len))
    }
}

/// The slots that a listing of `entries` from `offset` hands to the kernel:
/// every entry from `first_listed(offset)` on, with its position as offset.
pub fn readdir_page(entries: &Vec<DirEntry>, offset: i64) -> (page: Vec<DirSlot>)
    requires
        offset < i64::MAX,
    ensures
        page@.map_values(|s: DirSlot| slot_view(s)) == page_spec(entries@.map_values(|e: DirEntry| entry_view(e)), offset),
{
    let to_skip: u64 = #[verifier::truncate] ((if offset == 0 { offset } else { offset + 1 }) as u64);
    let ghost views = entries@.map_values(|e: DirEntry| entry_view(e));
    let ghost first = first_listed(offset);
    let mut page: Vec<DirSlot> = Vec::new();
    let mut i: usize = 0;
    while i < entries.len()
        invariant
            views == entries@.map_values(|e: DirEntry| entry_view(e)),
            first == first_listed(offset),
            to_skip == first,
            i <= entries@.len(),
            page@.len() == if i <= first { 0 } else { i - first },
            forall|k: int| 0 <= k < page@.len() ==> #[trigger] slot_view(page@[k]) == (
                views[first + k].0,
                (first + k) as i64,
                views[first + k].1,
                views[first + k].2,
            ),
        decreases entries@.len() - i,
    {
        if i as u64 >= to_skip {
            let e = &entries[i];
            let slot = DirSlot { ino: e.ino, offset: #[verifier::truncate] (i as i64), kind: e.kind, name: e.name.clone() };
            page.push(slot);
        }
        i = i + 1;
    }
    proof {
        let spec_page = page_spec(views, offset);
        assert(page@.map_values(|s: DirSlot| slot_view(s)) =~= spec_page);
    }
    page
}

/// An entry of a listing.
fn entry(ino: u64, kind: FileKind, name: &str) -> (e: DirEntry)
    ensures
        entry_view(e) == (ino, kind, name@),
{
    DirEntry { ino, kind, name: name.to_owned() }
}

impl SubsonicFS {
    /// Answers a read of `size` bytes at `offset` of the file `ino`: the bytes
    /// of `hello.txt` from the offset on; for a song of the catalog, the range
    /// of its stream to send, or the end of file; else no such file.
    pub fn read(&self, ino: u64, offset: i64, size: u32) -> (res: ReadReply)
        requires
            self.well_formed(),
            self.read_defined(ino, offset, size),
        ensures
            ino == HELLO_INO ==> (res matches ReadReply::Data(d) && d@ == hello_txt_content().subrange(
                offset as int,
                13,
            )),
            ino != HELLO_INO && has_flag(ino, SONG_ID) && self.song_at_ino(ino) < self.songs@.len() ==> match song_read_spec(
                offset,
                size,
                self.songs@[self.song_at_ino(ino)].size,
            ) {
                Ok((start, end)) => res == (ReadReply::Stream { song: self.song_at_ino(ino) as usize, start, end }),
                Err(e) => res == ReadReply::Error(e),
            },
            ino != HELLO_INO && !(has_flag(ino, SONG_ID) && self.song_at_ino(ino) < self.songs@.len()) ==>
                res == ReadReply::Error(FsError::NoEntry),
    {
        proof {
            lemma_flag_bound(ino);
        }
        if ino == HELLO_INO {
            ReadReply::Data(hello_txt_from(offset as usize))
        } else if test_flag(ino, SONG_ID) {
            match self.get_song_by_ino(ino) {
                Some(song) => {
                    let index = crate::inode::song_index_of_ino(ino) as usize;
                    match song_read_range(offset, size, song.size) {
                        Ok((start, end)) => ReadReply::Stream { song: index, start, end },
                        Err(e) => ReadReply::Error(e),
                    }
                },
                None => ReadReply::Error(FsError::NoEntry),
            }
        } else {
            ReadReply::Error(FsError::NoEntry)
        }
    }

    /// Position of the artist whose albums a listing of `ino` has to fetch
    /// first: that of an artist directory whose artist has no albums yet.
    pub fn albums_to_fetch(&self, ino: u64) -> (artist: Option<usize>)
        requires
            self.listable(ino),
        ensures
            artist == (if ino != ROOT_INO && ino != ARTIST_ID && has_flag(ino, ARTIST_ID)
                && self.artists@[((ino - ARTIST_ID - 1) as usize) as int].albums@.len() == 0 {
                Some(((ino - ARTIST_ID - 1) as usize))
            } else {
                None::<usize>
            }),
    {
        proof {
            lemma_flag_bound(ino);
        }
        if ino != ROOT_INO && ino != ARTIST_ID && test_flag(ino, ARTIST_ID) {
            let index = crate::inode::artist_index_of_ino(ino) as usize;
            if self.artists[index].albums.len() == 0 {
                Some(index)
            } else {
                None
            }
        } else {
            None
        }
    }

    /// The listing of the directory `ino`: `.`, `..` and its children.
    pub fn readdir_entries(&self, ino: u64) -> (entries: Vec<DirEntry>)
        requires
            self.well_formed(),
            self.listable(ino),
        ensures
            entries@.map_values(|e: DirEntry| entry_view(e)) == self.listing(ino),
    {
        proof {
            lemma_flag_bound(ino);
        }
        let mut entries: Vec<DirEntry> = Vec::new();
        if ino == ROOT_INO {
            entries.push(entry(ROOT_INO, FileKind::Directory, "."));
            entries.push(entry(ROOT_INO, FileKind::Directory, ".."));
            entries.push(entry(HELLO_INO, FileKind::RegularFile, "hello.txt"));
            entries.push(entry(ARTIST_ID, FileKind::RegularFile, "Artists"));
            assert(entries@.map_values(|e: DirEntry| entry_view(e)) =~= self.listing(ino));
        } else if ino == ARTIST_ID {
            entries.push(entry(ARTIST_ID, FileKind::Directory, "."));
            entries.push(entry(ROOT_INO, FileKind::Directory, ".."));
            let ghost head = entries@.map_values(|e: DirEntry| entry_view(e));
            let mut i: usize = 0;
            while i < self.artists.len()
                invariant
                    self.well_formed(),
                    i <= self.artists@.len(),
                    entries@.map_values(|e: DirEntry| entry_view(e)) == head + Seq::new(
                        i as nat,
                        |k: int| self.artist_entry(k),
                    ),
                decreases self.artists@.len() - i,
            {
                let a = &self.artists[i];
                proof {
                    assert(self.artist_names()[i as int] == a.name@);
                }
                let e = DirEntry { ino: self.get_artist_ino(a), kind: FileKind::Directory, name: a.name.clone() };
                let ghost before = entries@.map_values(|e: DirEntry| entry_view(e));
                let ghost ev = entry_view(e);
                entries.push(e);
                assert(entries@.map_values(|e: DirEntry| entry_view(e)) =~= before.push(ev));
                i = i + 1;
                assert(entries@.map_values(|e: DirEntry| entry_view(e)) =~= head + Seq::new(
                    i as nat,
                    |k: int| self.artist_entry(k),
                ));
            }
            assert(entries@.map_values(|e: DirEntry| entry_view(e)) =~= self.listing(ino));
        } else if test_flag(ino, ARTIST_ID) {
            entries.push(entry(ino, FileKind::Directory, "."));
            entries.push(entry(ARTIST_ID, FileKind::Directory, ".."));
            let ghost head = entries@.map_values(|e: DirEntry| entry_view(e));
            let artist = self.get_artist_by_ino(ino).unwrap();
            let ghost albums = artist.albums@;
            proof {
                assert(all_below(self.artists@[((ino - ARTIST_ID - 1) as usize) as int].albums@, self.albums@.len() as int));
            }
            let mut k: usize = 0;
            while k < artist.albums.len()
                invariant
                    self.well_formed(),
                    albums == artist.albums@,
                    forall|m: int| 0 <= m < albums.len() ==> (#[trigger] albums[m] as int) < self.albums@.len(),
                    k <= albums.len(),
                    entries@.map_values(|e: DirEntry| entry_view(e)) == head + Seq::new(
                        k as nat,
                        |m: int| self.album_entry(albums[m] as int),
                    ),
                decreases albums.len() - k,
            {
                let j = artist.albums[k];
                let al = &self.albums[j];
                proof {
                    assert(self.album_names()[j as int] == al.name@);
                }
                let i = self.get_album_index(al);
                proof {
                    assert(self.albums_name_to_index@.contains_key(al.name@));
                    assert(is_last_named(self.album_names(), al.name@, i as int));
                }
                let a = &self.albums[i];
                proof {
                    assert(self.album_names()[i as int] == a.name@);
                }
                let e = DirEntry { ino: self.get_album_ino(a), kind: FileKind::Directory, name: a.name.clone() };
                let ghost before = entries@.map_values(|e: DirEntry| entry_view(e));
                let ghost ev = entry_view(e);
                entries.push(e);
                assert(entries@.map_values(|e: DirEntry| entry_view(e)) =~= before.push(ev));
                k = k + 1;
                assert(entries@.map_values(|e: DirEntry| entry_view(e)) =~= head + Seq::new(
                    k as nat,
                    |m: int| self.album_entry(albums[m] as int),
                ));
            }
            assert(entries@.map_values(|e: DirEntry| entry_view(e)) =~= self.listing(ino));
        } else if test_flag(ino, ALBUM_ID) {
            entries.push(entry(ino, FileKind::Directory, "."));
            entries.push(entry(ARTIST_ID, FileKind::Directory, ".."));
            let ghost head = entries@.map_values(|e: DirEntry| entry_view(e));
            let album = self.get_album_by_ino(ino).unwrap();
            let ghost songs = album.songs@;
            proof {
                assert(all_below(self.albums@[((ino - ALBUM_ID - 1) as usize) as int].songs@, self.songs@.len() as int));
            }
            let mut k: usize = 0;
            while k < album.songs.len()
                invariant
                    self.well_formed(),
                    songs == album.songs@,
                    forall|m: int| 0 <= m < songs.len() ==> (#[trigger] songs[m] as int) < self.songs@.len(),
                    k <= songs.len(),
                    entries@.map_values(|e: DirEntry| entry_view(e)) == head + Seq::new(
                        k as nat,
                        |m: int| self.song_entry(songs[m] as int),
                    ),
                decreases songs.len() - k,
            {
                let j = album.songs[k];
                let sg = &self.songs[j];
                proof {
                    assert(self.song_names()[j as int] == sg.name@);
                }
                let i = self.get_song_index(sg);
                proof {
                    assert(self.songs_name_to_index@.contains_key(sg.name@));
                    assert(is_last_named(self.song_names(), sg.name@, i as int));
                }
                let song = &self.songs[i];
                proof {
                    assert(self.song_names()[i as int] == song.name@);
                }
                let e = DirEntry { ino: self.get_song_ino(song), kind: FileKind::RegularFile, name: song.name.clone() };
                let ghost before = entries@.map_values(|e: DirEntry| entry_view(e));
                let ghost ev = entry_view(e);
                entries.push(e);
                assert(entries@.map_values(|e: DirEntry| entry_view(e)) =~= before.push(ev));
                k = k + 1;
                assert(entries@.map_values(|e: DirEntry| entry_view(e)) =~= head + Seq::new(
                    k as nat,
                    |m: int| self.song_entry(songs[m] as int),
                ));
            }
            assert(entries@.map_values(|e: DirEntry| entry_view(e)) =~= self.listing(ino));
        } else {
            assert(entries@.map_values(|e: DirEntry| entry_view(e)) =~= self.listing(ino));
        }
        entries
    }
}

/// Whether a lookup in `parent` reads the name as text.
pub fn lookup_reads_name(parent: u64) -> (res: bool)
    ensures
        res == lookup_needs_name(parent),
{
    parent != ROOT_INO && (parent == ARTIST_ID || test_flag(parent, ARTIST_ID) || test_flag(parent, ALBUM_ID))
}

impl SubsonicFS {
    /// Whether a read of `size` bytes at `offset` of `ino` is defined.
    pub fn read_is_defined(&self, ino: u64, offset: i64, size: u32) -> (res: bool)
        ensures
            res == self.read_defined(ino, offset, size),
    {
        if ino == HELLO_INO {
            0 <= offset && offset <= 13
        } else if test_flag(ino, SONG_ID) {
            if ino <= SONG_ID {
                false
            } else {
                match self.get_song_by_ino(ino) {
                    Some(song) => {
                        let start: u64 = #[verifier::truncate] (offset as u64);
                        start <= u64::MAX - size as u64 && start <= song.size
                    },
                    None => true,
                }
            }
        } else {
            true
        }
    }

    /// Whether a listing of `ino` is defined.
    pub fn is_listable(&self, ino: u64) -> (res: bool)
        ensures
            res == self.listable(ino),
    {
        proof {
            lemma_flag_bound(ino);
        }
        if ino == ROOT_INO || ino == ARTIST_ID {
            true
        } else if test_flag(ino, ARTIST_ID) {
            self.get_artist_by_ino(ino).is_some()
        } else if test_flag(ino, ALBUM_ID) {
            ino > ALBUM_ID && self.get_album_by_ino(ino).is_some()
        } else {
            true
        }
    }
}

} // verus!
