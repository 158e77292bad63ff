//! The inode numbering scheme of the filesystem.
//!
//! Inode 1 is the mount root and inode 2 the `hello.txt` file. The directory
//! that lists every artist is `ARTIST_ID`; the n-th artist, album and song of
//! the catalog (counting from 0) get `ARTIST_ID + 1 + n`, `ALBUM_ID + 1 + n`
//! and `SONG_ID + 1 + n`. What kind of node an inode names is then read back
//! from the flag bits.
use vstd::prelude::*;

verus! {

/// Inode of the mount root.
pub const ROOT_INO: u64 = 1;

/// Inode of `hello.txt`, the one file of the root.
pub const HELLO_INO: u64 = 2;

/// Flag bit of artists (bit 31); also the inode of the `Artists` directory.
pub const ARTIST_ID: u64 = 0x8000_0000;

/// Flag bit of albums (bit 32).
pub const ALBUM_ID: u64 = 0x1_0000_0000;

/// Flag bit of songs (bit 33).
pub const SONG_ID: u64 = 0x2_0000_0000;

/// Whether every bit of `flag` is set in `ino`.
pub open spec fn has_flag(ino: u64, flag: u64) -> bool {
    ino & flag == flag
}

/// Inode of the artist at `index` of the catalog.
pub open spec fn artist_ino(index: int) -> int {
    ARTIST_ID + 1 + index
}

/// Inode of the album at `index` of the catalog.
pub open spec fn album_ino(index: int) -> int {
    ALBUM_ID + 1 + index
}

/// Inode of the song at `index` of the catalog.
pub open spec fn song_ino(index: int) -> int {
    SONG_ID + 1 + index
}

/// The largest index whose inode keeps the flag bit of its own kind alone:
/// below it, artist, album and song inodes are told apart by their flags.
pub open spec fn flag_safe_index(index: int) -> bool {
    0 <= index < 0x7fff_ffff
}

/// Tests whether every bit of `flag` is set in `ino`.
pub fn test_flag(ino: u64, flag: u64) -> (res: bool)
    ensures
        res == has_flag(ino, flag),
{
    ino & flag == flag
}

/// Catalog index that an artist inode stands for (`ino - ARTIST_ID - 1`).
pub fn artist_index_of_ino(ino: u64) -> (index: u64)
    requires
        ino > ARTIST_ID,
    ensures
        artist_ino(index as int) == ino,
{
    ino - ARTIST_ID - 1
}

/// Catalog index that an album inode stands for (`ino - ALBUM_ID - 1`).
pub fn album_index_of_ino(ino: u64) -> (index: u64)
    requires
        ino > ALBUM_ID,
    ensures
        album_ino(index as int) == ino,
{
    ino - ALBUM_ID - 1
}

/// Catalog index that a song inode stands for (`ino - SONG_ID - 1`).
pub fn song_index_of_ino(ino: u64) -> (index: u64)
    requires
        ino > SONG_ID,
    ensures
        song_ino(index as int) == ino,
{
    ino - SONG_ID - 1
}

/// An artist inode: the `Artists` directory is not one, and the flag bit of
/// artists is set; an album or a song inode has neither the artist flag nor,
/// for a song, the album flag; and the root and `hello.txt` carry no flag.
pub proof fn lemma_ino_kinds(index: u64)
    requires
        flag_safe_index(index as int),
    ensures
        artist_ino(index as int) != ARTIST_ID,
        has_flag(artist_ino(index as int) as u64, ARTIST_ID),
        !has_flag(album_ino(index as int) as u64, ARTIST_ID),
        has_flag(album_ino(index as int) as u64, ALBUM_ID),
        album_ino(index as int) != ALBUM_ID,
        !has_flag(song_ino(index as int) as u64, ARTIST_ID),
        !has_flag(song_ino(index as int) as u64, ALBUM_ID),
        has_flag(song_ino(index as int) as u64, SONG_ID),
        song_ino(index as int) != SONG_ID,
        !has_flag(ROOT_INO, ARTIST_ID) && !has_flag(ROOT_INO, ALBUM_ID) && !has_flag(ROOT_INO, SONG_ID),
        !has_flag(HELLO_INO, ARTIST_ID) && !has_flag(HELLO_INO, ALBUM_ID) && !has_flag(HELLO_INO, SONG_ID),
{
    let a: u64 = (0x8000_0000u64 + 1 + index) as u64;
    let b: u64 = (0x1_0000_0000u64 + 1 + index) as u64;
    let c: u64 = (0x2_0000_0000u64 + 1 + index) as u64;
    assert(a & 0x8000_0000u64 == 0x8000_0000u64) by (bit_vector)
        requires
            index < 0x7fff_ffffu64,
            a == 0x8000_0000u64 + 1 + index,
    ;
    assert(b & 0x8000_0000u64 != 0x8000_0000u64 && b & 0x1_0000_0000u64 == 0x1_0000_0000u64)
        by (bit_vector)
        requires
            index < 0x7fff_ffffu64,
            b == 0x1_0000_0000u64 + 1 + index,
    ;
    assert(c & 0x8000_0000u64 != 0x8000_0000u64 && c & 0x1_0000_0000u64 != 0x1_0000_0000u64
        && c & 0x2_0000_0000u64 == 0x2_0000_0000u64) by (bit_vector)
        requires
            index < 0x7fff_ffffu64,
            c == 0x2_0000_0000u64 + 1 + index,
    ;
    assert(1u64 & 0x8000_0000u64 != 0x8000_0000u64 && 1u64 & 0x1_0000_0000u64 != 0x1_0000_0000u64
        && 1u64 & 0x2_0000_0000u64 != 0x2_0000_0000u64) by (bit_vector);
    assert(2u64 & 0x8000_0000u64 != 0x8000_0000u64 && 2u64 & 0x1_0000_0000u64 != 0x1_0000_0000u64
        && 2u64 & 0x2_0000_0000u64 != 0x2_0000_0000u64) by (bit_vector);
}

/// Reading the index back from the inode of an index gives that index.
pub proof fn lemma_ino_index_round_trip(index: int)
    requires
        0 <= index,
    ensures
        artist_ino(index) - ARTIST_ID - 1 == index,
        album_ino(index) - ALBUM_ID - 1 == index,
        song_ino(index) - SONG_ID - 1 == index,
        artist_ino(index) > ARTIST_ID,
        album_ino(index) > ALBUM_ID,
        song_ino(index) > SONG_ID,
{
}

/// An inode with a flag bit set is at least that flag.
pub proof fn lemma_flag_bound(ino: u64)
    ensures
        has_flag(ino, ARTIST_ID) ==> ino >= ARTIST_ID,
        has_flag(ino, ALBUM_ID) ==> ino >= ALBUM_ID,
        has_flag(ino, SONG_ID) ==> ino >= SONG_ID,
{
    assert(ino & 0x8000_0000u64 == 0x8000_0000u64 ==> ino >= 0x8000_0000u64) by (bit_vector);
    assert(ino & 0x1_0000_0000u64 == 0x1_0000_0000u64 ==> ino >= 0x1_0000_0000u64) by (bit_vector);
    assert(ino & 0x2_0000_0000u64 == 0x2_0000_0000u64 ==> ino >= 0x2_0000_0000u64) by (bit_vector);
}

} // verus!
