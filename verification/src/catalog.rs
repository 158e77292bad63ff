//! The catalog of the filesystem: artists, albums and songs in the order in
//! which the server gave them, each kind with an index from name to position.
//!
//! A name maps to the last entry that carries it. Artist names are stored with
//! every `/` replaced by `-`, so that they can stand as names of directories.
use vstd::prelude::*;
use vstd::hash_map::StringHashMap;
use crate::attr::{dir_attr_of, make_attr, song_attr_of, FileAttr, FileKind, NOBODY};
use crate::inode::{album_ino, album_index_of_ino, artist_ino, artist_index_of_ino, song_ino, song_index_of_ino, ALBUM_ID, ARTIST_ID, SONG_ID};

verus! {

/// An artist as the server lists it.
pub struct SonicArtist {
    pub id: usize,
    pub name: String,
    pub album_count: usize,
}

/// A song as the server lists it.
pub struct SonicSong {
    pub id: u64,
    pub title: String,
    pub size: u64,
}

/// An album as the server lists it, with the songs the server lists for it.
pub struct SonicAlbum {
    pub id: u64,
    pub name: String,
    pub song_count: u64,
    pub songs: Vec<SonicSong>,
}

/// An artist of the catalog; `albums` holds the positions of its albums in
/// the catalog, and is empty until they were fetched.
pub struct Artist {
    pub name: String,
    pub id: usize,
    pub album_count: usize,
    pub albums: Vec<usize>,
}

/// An album of the catalog; `songs` holds the positions of its songs.
pub struct Album {
    pub name: String,
    pub id: u64,
    pub song_count: u64,
    pub songs: Vec<usize>,
}

/// A song of the catalog.
pub struct Song {
    pub name: String,
    pub id: u64,
    pub size: u64,
}

/// The state of the filesystem: its name and its catalog.
pub struct SubsonicFS {
    pub name: String,
    pub artists: Vec<Artist>,
    pub artists_name_to_index: StringHashMap<usize>,
    pub albums: Vec<Album>,
    pub albums_name_to_index: StringHashMap<usize>,
    pub songs: Vec<Song>,
    pub songs_name_to_index: StringHashMap<usize>,
}

/// `name` with every `/` replaced by `-`.
pub open spec fn sanitize(name: Seq<char>) -> Seq<char> {
    name.map_values(|c: char| if c == '/' { '-' } else { c })
}

/// `m` maps each name of `names` to the last position that carries it, and
/// holds no other name.
pub open spec fn indexes_names(m: Map<Seq<char>, usize>, names: Seq<Seq<char>>) -> bool {
    &&& forall|i: int| 0 <= i < names.len() ==> #[trigger] m.contains_key(names[i])
    &&& forall|n: Seq<char>| #[trigger] m.contains_key(n) ==> is_last_named(names, n, m[n] as int)
}

/// `i` is the last position of `names` that carries `n`.
pub open spec fn is_last_named(names: Seq<Seq<char>>, n: Seq<char>, i: int) -> bool {
    &&& 0 <= i < names.len()
    &&& names[i] == n
    &&& forall|j: int| i < j < names.len() ==> names[j] != n
}

/// Every element of `s` is below `bound`.
pub open spec fn all_below(s: Seq<usize>, bound: int) -> bool {
    forall|k: int| 0 <= k < s.len() ==> (#[trigger] s[k] as int) < bound
}

/// `a` is the catalog artist made of the server's `s`, before its albums are known.
pub open spec fn is_artist_of(a: Artist, s: SonicArtist) -> bool {
    &&& a.name@ == sanitize(s.name@)
    &&& a.id == s.id
    &&& a.album_count == s.album_count
    &&& a.albums@.len() == 0
}

/// `s` is the catalog song made of the server's `t`.
pub open spec fn is_song_of(s: Song, t: SonicSong) -> bool {
    &&& s.name@ == t.title@
    &&& s.id == t.id
    &&& s.size == t.size
}

/// `a` is the catalog album made of the server's `s`, its songs stored from
/// position `first` of the catalog on.
pub open spec fn is_album_of(a: Album, s: SonicAlbum, first: int) -> bool {
    &&& a.name@ == s.name@
    &&& a.id == s.id
    &&& a.song_count == s.song_count
    &&& a.songs@.len() == s.songs@.len()
    &&& forall|k: int| 0 <= k < a.songs@.len() ==> #[trigger] a.songs@[k] == first + k
}

/// The songs of all albums of `list`, one album after the other.
pub open spec fn all_songs(list: Seq<SonicAlbum>) -> Seq<SonicSong>
    decreases list.len(),
{
    if list.len() == 0 {
        Seq::empty()
    } else {
        all_songs(list.drop_last()) + list.last().songs@
    }
}

impl SubsonicFS {
    /// Names of the artists, in catalog order.
    pub open spec fn artist_names(self) -> Seq<Seq<char>> {
        self.artists@.map_values(|a: Artist| a.name@)
    }

    /// Names of the albums, in catalog order.
    pub open spec fn album_names(self) -> Seq<Seq<char>> {
        self.albums@.map_values(|a: Album| a.name@)
    }

    /// Names (titles) of the songs, in catalog order.
    pub open spec fn song_names(self) -> Seq<Seq<char>> {
        self.songs@.map_values(|s: Song| s.name@)
    }

    /// The catalog's name invariant: each name index maps every name to its
    /// last position, artist names hold no `/`, and no list outgrows
    /// `isize::MAX`.
    pub open spec fn names_indexed(self) -> bool {
        &&& indexes_names(self.artists_name_to_index@, self.artist_names())
        &&& indexes_names(self.albums_name_to_index@, self.album_names())
        &&& indexes_names(self.songs_name_to_index@, self.song_names())
        &&& self.artists@.len() <= isize::MAX
        &&& self.albums@.len() <= isize::MAX
        &&& self.songs@.len() <= isize::MAX
        &&& forall|i: int| 0 <= i < self.artists@.len() ==>
            !(#[trigger] self.artists@[i].name@).contains('/')
    }

    /// The albums of every artist, and the songs of every album, are
    /// positions of the catalog.
    pub open spec fn positions_valid(self) -> bool {
        &&& forall|i: int| 0 <= i < self.artists@.len() ==>
            all_below(#[trigger] self.artists@[i].albums@, self.albums@.len() as int)
        &&& forall|i: int| 0 <= i < self.albums@.len() ==>
            all_below(#[trigger] self.albums@[i].songs@, self.songs@.len() as int)
    }

    /// The catalog's invariant: names indexed and positions valid.
    pub open spec fn well_formed(self) -> bool {
        &&& self.names_indexed()
        &&& self.positions_valid()
    }

    /// Position of the artist named `name`, if any.
    pub open spec fn artist_named(self, name: Seq<char>) -> Option<int> {
        if self.artists_name_to_index@.contains_key(name) {
            Some(self.artists_name_to_index@[name] as int)
        } else {
            None
        }
    }

    /// Position of the album named `name`, if any.
    pub open spec fn album_named(self, name: Seq<char>) -> Option<int> {
        if self.albums_name_to_index@.contains_key(name) {
            Some(self.albums_name_to_index@[name] as int)
        } else {
            None
        }
    }

    /// Position of the song titled `name`, if any.
    pub open spec fn song_named(self, name: Seq<char>) -> Option<int> {
        if self.songs_name_to_index@.contains_key(name) {
            Some(self.songs_name_to_index@[name] as int)
        } else {
            None
        }
    }
}

/// Appending a name at the end and mapping it to its position keeps a name
/// index exact.
pub proof fn lemma_index_push(m: Map<Seq<char>, usize>, names: Seq<Seq<char>>, n: Seq<char>)
    requires
        indexes_names(m, names),
        names.len() <= usize::MAX,
    ensures
        indexes_names(m.insert(n, names.len() as usize), names.push(n)),
{
    let m2 = m.insert(n, names.len() as usize);
    let names2 = names.push(n);
    assert forall|i: int| 0 <= i < names2.len() implies #[trigger] m2.contains_key(names2[i]) by {
        if i < names.len() {
            assert(m.contains_key(names[i]));
        }
    }
    assert forall|k: Seq<char>| #[trigger] m2.contains_key(k) implies is_last_named(names2, k, m2[k] as int) by {
        if k != n {
            assert(m.contains_key(k));
            assert(is_last_named(names, k, m[k] as int));
            assert forall|j: int| m2[k] < j < names2.len() implies names2[j] != k by {
                if j < names.len() {
                    assert(names2[j] == names[j]);
                }
            }
        }
    }
}

/// A name with its slashes replaced holds no slash.
pub proof fn lemma_sanitized_has_no_slash(name: Seq<char>)
    ensures
        !sanitize(name).contains('/'),
{
    assert forall|k: int| 0 <= k < sanitize(name).len() implies sanitize(name)[k] != '/' by {}
}

/// `name` with every `/` replaced by `-`.
pub fn sanitize_name(name: &str) -> (res: String)
    ensures
        res@ == sanitize(name@),
{
    let mut res = String::new();
    for c in it: name.chars()
        invariant
            it.seq() == name@,
            res@ == sanitize(name@.take(it.index())),
    {
        let d = if c == '/' { '-' } else { c };
        push_char(&mut res, d);
        assert(name@.take(it.index() + 1) =~= name@.take(it.index()).push(c));
        assert(res@ =~= sanitize(name@.take(it.index() + 1)));
    }
    assert(name@.take(name@.len() as int) =~= name@);
    res
}

/// Trusted: calls std's `String::push`. The contract claims what std
/// documents of it: afterwards the string is the old one with `c` appended.
#[verifier::external_body]
fn push_char(s: &mut String, c: char)
    ensures
        final(s)@ == old(s)@.push(c),
{
    s.push(c);
}


impl SubsonicFS {
    /// Adds `artist` at the end of the catalog, with the slashes of its name
    /// replaced, and maps that name to it (a name seen before now maps to
    /// the new artist). The name index stays exact whatever the artist; the
    /// album positions stay valid when the artist's own albums are positions
    /// of the catalog.
    pub fn add_new_artist(&mut self, artist: Artist)
        requires
            old(self).names_indexed(),
            old(self).artists@.len() < isize::MAX,
        ensures
            final(self).names_indexed(),
            final(self).positions_valid() == (old(self).positions_valid() && all_below(
                artist.albums@,
                old(self).albums@.len() as int,
            )),
            final(self).artists@.len() == old(self).artists@.len() + 1,
            forall|i: int| 0 <= i < old(self).artists@.len() ==> final(self).artists@[i] == old(self).artists@[i],
            final(self).artists@.last().name@ == sanitize(artist.name@),
            final(self).artists@.last().id == artist.id,
            final(self).artists@.last().album_count == artist.album_count,
            final(self).artists@.last().albums == artist.albums,
            final(self).artists_name_to_index@ == old(self).artists_name_to_index@.insert(
                sanitize(artist.name@),
                old(self).artists@.len() as usize,
            ),
            final(self).artist_named(sanitize(artist.name@)) == Some(old(self).artists@.len() as int),
            final(self).name == old(self).name,
            final(self).albums == old(self).albums,
            final(self).albums_name_to_index == old(self).albums_name_to_index,
            final(self).songs == old(self).songs,
            final(self).songs_name_to_index == old(self).songs_name_to_index,
    {
        let ghost raw_name = artist.name@;
        let ghost new_albums = artist.albums@;
        let mut artist = artist;
        artist.name = sanitize_name(artist.name.as_str());
        let name = artist.name.clone();
        let ghost old_names = self.artist_names();
        self.artists.push(artist);
        let index = self.artists.len() - 1;
        self.artists_name_to_index.insert(name, index);
        proof {
            lemma_index_push(old(self).artists_name_to_index@, old_names, name@);
            assert(self.artist_names() =~= old_names.push(name@));
            lemma_sanitized_has_no_slash(raw_name);
            let n = old(self).artists@.len() as int;
            assert(self.artists@[n].albums@ == new_albums);
            if old(self).positions_valid() && all_below(new_albums, old(self).albums@.len() as int) {
                assert forall|i: int| 0 <= i < self.artists@.len() implies
                    all_below(#[trigger] self.artists@[i].albums@, self.albums@.len() as int) by {
                    if i < n {
                        assert(self.artists@[i] == old(self).artists@[i]);
                        assert(all_below(old(self).artists@[i].albums@, old(self).albums@.len() as int));
                    }
                }
            }
            if self.positions_valid() {
                assert(all_below(self.artists@[n].albums@, self.albums@.len() as int));
                assert forall|i: int| 0 <= i < n implies
                    all_below(#[trigger] old(self).artists@[i].albums@, old(self).albums@.len() as int) by {
                    assert(self.artists@[i] == old(self).artists@[i]);
                    assert(all_below(self.artists@[i].albums@, self.albums@.len() as int));
                }
            }
            assert forall|i: int| 0 <= i < self.artists@.len() implies
                !(#[trigger] self.artists@[i].name@).contains('/') by {
                if i < old(self).artists@.len() {
                    assert(self.artists@[i] == old(self).artists@[i]);
                }
            }
        }
    }

    /// Adds `song` at the end of the catalog, maps its title to it, and
    /// returns its position.
    pub fn add_new_song(&mut self, song: Song) -> (index: usize)
        requires
            old(self).well_formed(),
            old(self).songs@.len() < isize::MAX,
        ensures
            final(self).well_formed(),
            index == old(self).songs@.len(),
            final(self).songs@ == old(self).songs@.push(song),
            final(self).songs_name_to_index@ == old(self).songs_name_to_index@.insert(song.name@, index),
            final(self).song_named(song.name@) == Some(index as int),
            final(self).name == old(self).name,
            final(self).artists == old(self).artists,
            final(self).artists_name_to_index == old(self).artists_name_to_index,
            final(self).albums == old(self).albums,
            final(self).albums_name_to_index == old(self).albums_name_to_index,
    {
        let name = song.name.clone();
        let ghost old_names = self.song_names();
        self.songs.push(song);
        let index = self.songs.len() - 1;
        self.songs_name_to_index.insert(name, index);
        proof {
            lemma_index_push(old(self).songs_name_to_index@, old_names, name@);
            assert(self.song_names() =~= old_names.push(name@));
            assert forall|i: int| 0 <= i < self.albums@.len() implies
                all_below(#[trigger] self.albums@[i].songs@, self.songs@.len() as int) by {
                assert(all_below(old(self).albums@[i].songs@, old(self).songs@.len() as int));
            }
        }
        index
    }
}

impl SubsonicFS {
    /// Adds the songs of `song_list` at the end of the catalog, in order, and
    /// appends their positions to the songs of `album`.
    pub fn build_song_list(&mut self, album: &mut Album, song_list: Vec<SonicSong>)
        requires
            old(self).well_formed(),
            old(self).songs@.len() + song_list@.len() <= isize::MAX,
        ensures
            final(self).well_formed(),
            final(self).songs@.len() == old(self).songs@.len() + song_list@.len(),
            forall|i: int| 0 <= i < old(self).songs@.len() ==> final(self).songs@[i] == old(self).songs@[i],
            forall|k: int| 0 <= k < song_list@.len() ==>
                is_song_of(#[trigger] final(self).songs@[old(self).songs@.len() + k], song_list@[k]),
            final(album).songs@.len() == old(album).songs@.len() + song_list@.len(),
            forall|k: int| 0 <= k < old(album).songs@.len() ==> final(album).songs@[k] == old(album).songs@[k],
            forall|k: int| 0 <= k < song_list@.len() ==>
                #[trigger] final(album).songs@[old(album).songs@.len() + k] == old(self).songs@.len() + k,
            final(album).name == old(album).name,
            final(album).id == old(album).id,
            final(album).song_count == old(album).song_count,
            final(self).name == old(self).name,
            final(self).artists == old(self).artists,
            final(self).artists_name_to_index == old(self).artists_name_to_index,
            final(self).albums == old(self).albums,
            final(self).albums_name_to_index == old(self).albums_name_to_index,
    {
        let ghost start = self.songs@.len();
        let ghost album_start = album.songs@.len();
        let ghost list = song_list@;
        for s in it: song_list.into_iter()
            invariant
                it.seq() == list,
                self.well_formed(),
                start + list.len() <= isize::MAX,
                start == old(self).songs@.len(),
                album_start == old(album).songs@.len(),
                self.songs@.len() == start + it.index(),
                forall|i: int| 0 <= i < start ==> self.songs@[i] == old(self).songs@[i],
                forall|k: int| 0 <= k < it.index() ==> is_song_of(#[trigger] self.songs@[start + k], list[k]),
                album.songs@.len() == album_start + it.index(),
                forall|k: int| 0 <= k < album_start ==> album.songs@[k] == old(album).songs@[k],
                forall|k: int| 0 <= k < it.index() ==> #[trigger] album.songs@[album_start + k] == start + k,
                album.name == old(album).name,
                album.id == old(album).id,
                album.song_count == old(album).song_count,
                self.name == old(self).name,
                self.artists == old(self).artists,
                self.artists_name_to_index == old(self).artists_name_to_index,
                self.albums == old(self).albums,
                self.albums_name_to_index == old(self).albums_name_to_index,
        {
            let song = Song { name: s.title, id: s.id, size: s.size };
            let index = self.add_new_song(song);
            album.songs.push(index);
        }
    }

    /// Adds `album` at the end of the catalog, its songs first, maps its name
    /// to it, and returns its position.
    pub fn add_new_album(&mut self, album: SonicAlbum) -> (index: usize)
        requires
            old(self).well_formed(),
            old(self).albums@.len() < isize::MAX,
            old(self).songs@.len() + album.songs@.len() <= isize::MAX,
        ensures
            final(self).well_formed(),
            index == old(self).albums@.len(),
            final(self).albums@.len() == old(self).albums@.len() + 1,
            forall|i: int| 0 <= i < old(self).albums@.len() ==> final(self).albums@[i] == old(self).albums@[i],
            is_album_of(final(self).albums@[index as int], album, old(self).songs@.len() as int),
            final(self).albums_name_to_index@ == old(self).albums_name_to_index@.insert(album.name@, index),
            final(self).album_named(album.name@) == Some(index as int),
            final(self).songs@.len() == old(self).songs@.len() + album.songs@.len(),
            forall|i: int| 0 <= i < old(self).songs@.len() ==> final(self).songs@[i] == old(self).songs@[i],
            forall|k: int| 0 <= k < album.songs@.len() ==>
                is_song_of(#[trigger] final(self).songs@[old(self).songs@.len() + k], album.songs@[k]),
            final(self).name == old(self).name,
            final(self).artists == old(self).artists,
            final(self).artists_name_to_index == old(self).artists_name_to_index,
    {
        let SonicAlbum { id, name, song_count, songs } = album;
        let mut record = Album { name, id, song_count, songs: Vec::new() };
        let ghost start = self.songs@.len();
        let ghost n = songs@.len();
        self.build_song_list(&mut record, songs);
        assert forall|k: int| 0 <= k < n implies #[trigger] record.songs@[k] == start + k by {
            assert(record.songs@[0 + k] == start + k);
        }
        let key = record.name.clone();
        let ghost old_names = self.album_names();
        let ghost mid = *self;
        self.albums.push(record);
        let index = self.albums.len() - 1;
        self.albums_name_to_index.insert(key, index);
        proof {
            lemma_index_push(mid.albums_name_to_index@, old_names, key@);
            assert(self.album_names() =~= old_names.push(key@));
            assert forall|i: int| 0 <= i < self.albums@.len() implies
                all_below(#[trigger] self.albums@[i].songs@, self.songs@.len() as int) by {
                if i < mid.albums@.len() {
                    assert(self.albums@[i] == mid.albums@[i]);
                } else {
                    assert(self.albums@[i] == record);
                }
            }
        }
        index
    }
}

/// The songs of the first `k` albums of `list` lead the songs of all of them.
pub proof fn lemma_all_songs_prefix(list: Seq<SonicAlbum>, k: int)
    requires
        0 <= k <= list.len(),
    ensures
        all_songs(list.take(k)).len() <= all_songs(list).len(),
        forall|j: int| 0 <= j < all_songs(list.take(k)).len() ==>
            #[trigger] all_songs(list.take(k))[j] == all_songs(list)[j],
    decreases list.len(),
{
    if k == list.len() {
        assert(list.take(k) =~= list);
    } else {
        assert(list.drop_last().take(k) =~= list.take(k));
        lemma_all_songs_prefix(list.drop_last(), k);
    }
}

/// The songs of the first `k + 1` albums are those of the first `k`, then
/// those of album `k`.
pub proof fn lemma_all_songs_step(list: Seq<SonicAlbum>, k: int)
    requires
        0 <= k < list.len(),
    ensures
        all_songs(list.take(k + 1)) == all_songs(list.take(k)) + list[k].songs@,
{
    assert(list.take(k + 1).drop_last() =~= list.take(k));
}

impl SubsonicFS {
    /// Adds the albums of `album_list` at the end of the catalog, in order,
    /// each with its songs, and makes them the albums of the artist at
    /// position `artist`.
    pub fn build_album_list(&mut self, artist: usize, album_list: Vec<SonicAlbum>)
        requires
            old(self).well_formed(),
            artist < old(self).artists@.len(),
            old(self).albums@.len() + album_list@.len() <= isize::MAX,
            old(self).songs@.len() + all_songs(album_list@).len() <= isize::MAX,
        ensures
            final(self).well_formed(),
            final(self).albums@.len() == old(self).albums@.len() + album_list@.len(),
            forall|i: int| 0 <= i < old(self).albums@.len() ==> final(self).albums@[i] == old(self).albums@[i],
            forall|k: int| 0 <= k < album_list@.len() ==> is_album_of(
                #[trigger] final(self).albums@[old(self).albums@.len() + k],
                album_list@[k],
                (old(self).songs@.len() + all_songs(album_list@.take(k)).len()) as int,
            ),
            final(self).songs@.len() == old(self).songs@.len() + all_songs(album_list@).len(),
            forall|i: int| 0 <= i < old(self).songs@.len() ==> final(self).songs@[i] == old(self).songs@[i],
            forall|j: int| 0 <= j < all_songs(album_list@).len() ==>
                is_song_of(#[trigger] final(self).songs@[old(self).songs@.len() + j], all_songs(album_list@)[j]),
            final(self).artists@.len() == old(self).artists@.len(),
            forall|i: int| 0 <= i < old(self).artists@.len() && i != artist ==> final(self).artists@[i] == old(self).artists@[i],
            final(self).artists@[artist as int].name == old(self).artists@[artist as int].name,
            final(self).artists@[artist as int].id == old(self).artists@[artist as int].id,
            final(self).artists@[artist as int].album_count == old(self).artists@[artist as int].album_count,
            final(self).artists@[artist as int].albums@.len() == album_list@.len(),
            forall|k: int| 0 <= k < album_list@.len() ==>
                #[trigger] final(self).artists@[artist as int].albums@[k] == old(self).albums@.len() + k,
            final(self).artists_name_to_index == old(self).artists_name_to_index,
            final(self).name == old(self).name,
    {
        let ghost a0 = self.albums@.len() as int;
        let ghost s0 = self.songs@.len() as int;
        let ghost list = album_list@;
        let mut indices: Vec<usize> = Vec::new();
        proof {
            lemma_all_songs_prefix(list, 0);
            assert(all_songs(list.take(0)) =~= Seq::<SonicSong>::empty());
        }
        for album in it: album_list.into_iter()
            invariant
                it.seq() == list,
                self.well_formed(),
                a0 == old(self).albums@.len(),
                s0 == old(self).songs@.len(),
                a0 + list.len() <= isize::MAX,
                s0 + all_songs(list).len() <= isize::MAX,
                self.albums@.len() == a0 + it.index(),
                forall|i: int| 0 <= i < a0 ==> self.albums@[i] == old(self).albums@[i],
                forall|j: int| 0 <= j < it.index() ==> is_album_of(
                    #[trigger] self.albums@[a0 + j],
                    list[j],
                    (s0 + all_songs(list.take(j)).len()) as int,
                ),
                self.songs@.len() == s0 + all_songs(list.take(it.index())).len(),
                forall|i: int| 0 <= i < s0 ==> self.songs@[i] == old(self).songs@[i],
                forall|j: int| 0 <= j < all_songs(list.take(it.index())).len() ==>
                    is_song_of(#[trigger] self.songs@[s0 + j], all_songs(list.take(it.index()))[j]),
                indices@.len() == it.index(),
                forall|k: int| 0 <= k < it.index() ==> #[trigger] indices@[k] == a0 + k,
                self.artists == old(self).artists,
                self.artists_name_to_index == old(self).artists_name_to_index,
                self.name == old(self).name,
        {
            let ghost k = it.index();
            let ghost songs_before = self.songs@;
            proof {
                lemma_all_songs_step(list, k);
                lemma_all_songs_prefix(list, k + 1);
            }
            let index = self.add_new_album(album);
            indices.push(index);
            proof {
                let before = all_songs(list.take(k));
                let after = all_songs(list.take(k + 1));
                assert forall|j: int| 0 <= j < after.len() implies
                    is_song_of(#[trigger] self.songs@[s0 + j], after[j]) by {
                    if j < before.len() {
                        assert(self.songs@[s0 + j] == songs_before[s0 + j]);
                    } else {
                        let m = j - before.len();
                        assert(self.songs@[songs_before.len() + m] == self.songs@[s0 + j]);
                    }
                }
            }
        }
        proof {
            assert(list.take(list.len() as int) =~= list);
        }
        let current = &self.artists[artist];
        let updated = Artist {
            name: current.name.clone(),
            id: current.id,
            album_count: current.album_count,
            albums: indices,
        };
        let ghost mid = *self;
        self.artists.set(artist, updated);
        proof {
            assert(self.artist_names() =~= mid.artist_names());
            assert forall|i: int| 0 <= i < self.artists@.len() implies
                all_below(#[trigger] self.artists@[i].albums@, self.albums@.len() as int) by {
                if i != artist {
                    assert(self.artists@[i] == mid.artists@[i]);
                    assert(all_below(mid.artists@[i].albums@, mid.albums@.len() as int));
                } else {
                    assert(self.artists@[i].albums@ == indices@);
                    assert forall|k: int| 0 <= k < indices@.len() implies
                        (#[trigger] indices@[k] as int) < self.albums@.len() by {
                        assert(indices@[k] == a0 + k);
                    }
                }
            }
            assert forall|i: int| 0 <= i < self.artists@.len() implies
                !(#[trigger] self.artists@[i].name@).contains('/') by {
                if i != artist {
                    assert(self.artists@[i] == mid.artists@[i]);
                } else {
                    assert(self.artists@[i].name@ == mid.artists@[i].name@);
                }
            }
        }
    }

    /// Adds the artists of `artist_list` at the end of the catalog, in order,
    /// none of them with albums yet.
    pub fn build_artist_list(&mut self, artist_list: Vec<SonicArtist>)
        requires
            old(self).well_formed(),
            old(self).artists@.len() + artist_list@.len() <= isize::MAX,
        ensures
            final(self).well_formed(),
            final(self).artists@.len() == old(self).artists@.len() + artist_list@.len(),
            forall|i: int| 0 <= i < old(self).artists@.len() ==> final(self).artists@[i] == old(self).artists@[i],
            forall|k: int| 0 <= k < artist_list@.len() ==>
                is_artist_of(#[trigger] final(self).artists@[old(self).artists@.len() + k], artist_list@[k]),
            final(self).name == old(self).name,
            final(self).albums == old(self).albums,
            final(self).albums_name_to_index == old(self).albums_name_to_index,
            final(self).songs == old(self).songs,
            final(self).songs_name_to_index == old(self).songs_name_to_index,
    {
        let ghost r0 = self.artists@.len() as int;
        let ghost list = artist_list@;
        for a in it: artist_list.into_iter()
            invariant
                it.seq() == list,
                self.well_formed(),
                r0 == old(self).artists@.len(),
                r0 + list.len() <= isize::MAX,
                self.artists@.len() == r0 + it.index(),
                forall|i: int| 0 <= i < r0 ==> self.artists@[i] == old(self).artists@[i],
                forall|k: int| 0 <= k < it.index() ==> is_artist_of(#[trigger] self.artists@[r0 + k], list[k]),
                self.name == old(self).name,
                self.albums == old(self).albums,
                self.albums_name_to_index == old(self).albums_name_to_index,
                self.songs == old(self).songs,
                self.songs_name_to_index == old(self).songs_name_to_index,
        {
            let artist = Artist { name: a.name, id: a.id, album_count: a.album_count, albums: Vec::new() };
            self.add_new_artist(artist);
        }
    }

    /// A filesystem named `name` whose catalog holds the artists of
    /// `artist_list`, in order, none of them with albums yet.
    pub fn new(name: &str, artist_list: Vec<SonicArtist>) -> (fs: SubsonicFS)
        requires
            artist_list@.len() <= isize::MAX,
        ensures
            fs.well_formed(),
            fs.name@ == name@,
            fs.artists@.len() == artist_list@.len(),
            forall|k: int| 0 <= k < artist_list@.len() ==> is_artist_of(#[trigger] fs.artists@[k], artist_list@[k]),
            fs.albums@.len() == 0,
            fs.songs@.len() == 0,
    {
        let mut fs = SubsonicFS {
            name: name.to_owned(),
            artists: Vec::new(),
            artists_name_to_index: StringHashMap::new(),
            albums: Vec::new(),
            albums_name_to_index: StringHashMap::new(),
            songs: Vec::new(),
            songs_name_to_index: StringHashMap::new(),
        };
        proof {
            assert(fs.artist_names() =~= Seq::<Seq<char>>::empty());
            assert(fs.album_names() =~= Seq::<Seq<char>>::empty());
            assert(fs.song_names() =~= Seq::<Seq<char>>::empty());
        }
        let ghost list = artist_list@;
        fs.build_artist_list(artist_list);
        assert forall|k: int| 0 <= k < list.len() implies is_artist_of(#[trigger] fs.artists@[k], list[k]) by {
            assert(is_artist_of(fs.artists@[0 + k], list[k]));
        }
        fs
    }
}

impl SubsonicFS {
    /// The artist named `name`: the last one of that name.
    pub fn get_artist_by_name(&self, name: &str) -> (artist: Option<&Artist>)
        requires
            self.well_formed(),
        ensures
            artist is Some <==> self.artist_named(name@) is Some,
            artist matches Some(a) ==> *a == self.artists@[self.artist_named(name@)->0],
    {
        match self.artists_name_to_index.get(name) {
            Some(index) => {
                let index = *index;
                if index < self.artists.len() {
                    Some(&self.artists[index])
                } else {
                    None
                }
            },
            None => None,
        }
    }

    /// The album named `name`: the last one of that name.
    pub fn get_album_by_name(&self, name: &str) -> (album: Option<&Album>)
        requires
            self.well_formed(),
        ensures
            album is Some <==> self.album_named(name@) is Some,
            album matches Some(a) ==> *a == self.albums@[self.album_named(name@)->0],
    {
        match self.albums_name_to_index.get(name) {
            Some(index) => {
                let index = *index;
                if index < self.albums.len() {
                    Some(&self.albums[index])
                } else {
                    None
                }
            },
            None => None,
        }
    }

    /// The song titled `name`: the last one of that title.
    pub fn get_song_by_name(&self, name: &str) -> (song: Option<&Song>)
        requires
            self.well_formed(),
        ensures
            song is Some <==> self.song_named(name@) is Some,
            song matches Some(s) ==> *s == self.songs@[self.song_named(name@)->0],
    {
        match self.songs_name_to_index.get(name) {
            Some(index) => {
                let index = *index;
                if index < self.songs.len() {
                    Some(&self.songs[index])
                } else {
                    None
                }
            },
            None => None,
        }
    }

    /// The artist that the artist inode `ino` stands for, if the catalog has it.
    pub fn get_artist_by_ino(&self, ino: u64) -> (artist: Option<&Artist>)
        requires
            ino > ARTIST_ID,
        ensures
            artist is Some <==> ((ino - ARTIST_ID - 1) as usize) < self.artists@.len(),
            artist matches Some(a) ==> *a == self.artists@[((ino - ARTIST_ID - 1) as usize) as int],
    {
        let index = artist_index_of_ino(ino) as usize;
        if index < self.artists.len() {
            Some(&self.artists[index])
        } else {
            None
        }
    }

    /// The album that the album inode `ino` stands for, if the catalog has it.
    pub fn get_album_by_ino(&self, ino: u64) -> (album: Option<&Album>)
        requires
            ino > ALBUM_ID,
        ensures
            album is Some <==> ((ino - ALBUM_ID - 1) as usize) < self.albums@.len(),
            album matches Some(a) ==> *a == self.albums@[((ino - ALBUM_ID - 1) as usize) as int],
    {
        let index = album_index_of_ino(ino) as usize;
        if index < self.albums.len() {
            Some(&self.albums[index])
        } else {
            None
        }
    }

    /// The song that the song inode `ino` stands for, if the catalog has it.
    pub fn get_song_by_ino(&self, ino: u64) -> (song: Option<&Song>)
        requires
            ino > SONG_ID,
        ensures
            song is Some <==> ((ino - SONG_ID - 1) as usize) < self.songs@.len(),
            song matches Some(s) ==> *s == self.songs@[((ino - SONG_ID - 1) as usize) as int],
    {
        let index = song_index_of_ino(ino) as usize;
        if index < self.songs.len() {
            Some(&self.songs[index])
        } else {
            None
        }
    }

    /// Position of the last artist named as `artist` is.
    pub fn get_artist_index(&self, artist: &Artist) -> (index: usize)
        requires
            self.artists_name_to_index@.contains_key(artist.name@),
        ensures
            index == self.artists_name_to_index@[artist.name@],
    {
        *self.artists_name_to_index.get(artist.name.as_str()).unwrap()
    }

    /// Position of the last album named as `album` is.
    pub fn get_album_index(&self, album: &Album) -> (index: usize)
        requires
            self.albums_name_to_index@.contains_key(album.name@),
        ensures
            index == self.albums_name_to_index@[album.name@],
    {
        *self.albums_name_to_index.get(album.name.as_str()).unwrap()
    }

    /// Position of the last song titled as `song` is.
    pub fn get_song_index(&self, song: &Song) -> (index: usize)
        requires
            self.songs_name_to_index@.contains_key(song.name@),
        ensures
            index == self.songs_name_to_index@[song.name@],
    {
        *self.songs_name_to_index.get(song.name.as_str()).unwrap()
    }

    /// Inode of the last artist named as `artist` is.
    pub fn get_artist_ino(&self, artist: &Artist) -> (ino: u64)
        requires
            self.well_formed(),
            self.artists_name_to_index@.contains_key(artist.name@),
        ensures
            ino == artist_ino(self.artists_name_to_index@[artist.name@] as int),
    {
        let index = self.get_artist_index(artist);
        assert(is_last_named(self.artist_names(), artist.name@, index as int));
        ARTIST_ID + 1 + index as u64
    }

    /// Inode of the last album named as `album` is.
    pub fn get_album_ino(&self, album: &Album) -> (ino: u64)
        requires
            self.well_formed(),
            self.albums_name_to_index@.contains_key(album.name@),
        ensures
            ino == album_ino(self.albums_name_to_index@[album.name@] as int),
    {
        let index = self.get_album_index(album);
        assert(is_last_named(self.album_names(), album.name@, index as int));
        ALBUM_ID + 1 + index as u64
    }

    /// Inode of the last song titled as `song` is.
    pub fn get_song_ino(&self, song: &Song) -> (ino: u64)
        requires
            self.well_formed(),
            self.songs_name_to_index@.contains_key(song.name@),
        ensures
            ino == song_ino(self.songs_name_to_index@[song.name@] as int),
    {
        let index = self.get_song_index(song);
        assert(is_last_named(self.song_names(), song.name@, index as int));
        SONG_ID + 1 + index as u64
    }

    /// Attributes of an artist's directory: its size is the artist's album count.
    pub fn get_artist_attr(&self, artist: &Artist) -> (attr: FileAttr)
        requires
            self.well_formed(),
            self.artists_name_to_index@.contains_key(artist.name@),
        ensures
            attr == dir_attr_of(
                artist_ino(self.artists_name_to_index@[artist.name@] as int) as u64,
                artist.album_count as u64,
            ),
    {
        let ino = self.get_artist_ino(artist);
        make_attr(ino, artist.album_count as u64, 0, FileKind::Directory, 0o755, 2, NOBODY, NOBODY)
    }

    /// Attributes of an album's directory: its size is the album's song count.
    pub fn get_album_attr(&self, album: &Album) -> (attr: FileAttr)
        requires
            self.well_formed(),
            self.albums_name_to_index@.contains_key(album.name@),
        ensures
            attr == dir_attr_of(album_ino(self.albums_name_to_index@[album.name@] as int) as u64, album.song_count),
    {
        let ino = self.get_album_ino(album);
        make_attr(ino, album.song_count, 0, FileKind::Directory, 0o755, 2, NOBODY, NOBODY)
    }

    /// Attributes of a song's file: its size is the song's size in bytes.
    pub fn get_song_attr(&self, song: &Song) -> (attr: FileAttr)
        requires
            self.well_formed(),
            self.songs_name_to_index@.contains_key(song.name@),
        ensures
            attr == song_attr_of(song_ino(self.songs_name_to_index@[song.name@] as int) as u64, song.size),
    {
        let ino = self.get_song_ino(song);
        make_attr(ino, song.size, 0, FileKind::RegularFile, 0o755, 2, NOBODY, NOBODY)
    }

    /// Attributes of the directory with inode `ino` and no size.
    pub fn get_dir_attr(&self, ino: u64) -> (attr: FileAttr)
        ensures
            attr == dir_attr_of(ino, 0),
    {
        make_attr(ino, 0, 0, FileKind::Directory, 0o755, 2, NOBODY, NOBODY)
    }
}

impl SubsonicFS {
    /// Whether the albums of `album_list`, and their songs, fit in the catalog.
    pub fn album_list_fits(&self, album_list: &Vec<SonicAlbum>) -> (res: bool)
        requires
            self.well_formed(),
        ensures
            res == (self.albums@.len() + album_list@.len() <= isize::MAX
                && self.songs@.len() + all_songs(album_list@).len() <= isize::MAX),
    {
        let limit = isize::MAX as usize;
        if album_list.len() > limit - self.albums.len() {
            return false;
        }
        let mut total: usize = self.songs.len();
        let mut k: usize = 0;
        proof {
            assert(album_list@.take(0) =~= Seq::<SonicAlbum>::empty());
        }
        while k < album_list.len()
            invariant
                self.well_formed(),
                limit == isize::MAX,
                k <= album_list@.len(),
                total == self.songs@.len() + all_songs(album_list@.take(k as int)).len(),
                total <= limit,
            decreases album_list@.len() - k,
        {
            proof {
                lemma_all_songs_step(album_list@, k as int);
                lemma_all_songs_prefix(album_list@, k as int + 1);
            }
            let n = album_list[k].songs.len();
            if n > limit - total {
                return false;
            }
            total = total + n;
            k = k + 1;
        }
        proof {
            assert(album_list@.take(album_list@.len() as int) =~= album_list@);
        }
        true
    }
}

} // verus!
