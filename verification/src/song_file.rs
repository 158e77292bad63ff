//! A second way to number song files: by the server's song id, with the
//! song flag bit set (`id | SONG_ID`), and its attributes.
use vstd::prelude::*;
use crate::attr::{attr_of, make_attr, FileAttr, FileKind};
use crate::inode::SONG_ID;

verus! {

/// Owner of a song file numbered by its id.
pub const SONG_FILE_UID: u32 = 501;

/// Group of a song file numbered by its id.
pub const SONG_FILE_GID: u32 = 20;

/// Inode of the song with server id `id`.
pub open spec fn spec_ino_from_id(id: usize) -> u64 {
    (id as u64) | SONG_ID
}

/// Server id of the song that inode `ino` stands for.
pub open spec fn spec_id_from_ino(ino: u64) -> usize {
    (ino & !SONG_ID) as usize
}

/// Attributes of the song file with server id `id` and `size` bytes.
pub open spec fn spec_song_file_attr(id: u64, size: u64) -> FileAttr {
    attr_of(
        spec_ino_from_id(id as usize),
        size,
        0,
        FileKind::RegularFile,
        0o755,
        2,
        SONG_FILE_UID,
        SONG_FILE_GID,
    )
}

/// Inode of the song with server id `id`: the id with the song flag set.
pub fn get_ino_from_id(id: usize) -> (ino: u64)
    ensures
        ino == spec_ino_from_id(id),
{
    id as u64 | SONG_ID
}

/// Server id of the song that `ino` stands for: the inode without the song flag.
pub fn get_id_from_ino(ino: u64) -> (id: usize)
    ensures
        id == spec_id_from_ino(ino),
{
    (ino & !SONG_ID) as usize
}

/// Inode of a song file, from the song's server id.
pub fn get_ino(id: u64) -> (ino: u64)
    ensures
        ino == spec_ino_from_id(id as usize),
{
    get_ino_from_id(id as usize)
}

/// Attributes of the song file with server id `id` and `size` bytes.
pub fn get_attr(id: u64, size: u64) -> (attr: FileAttr)
    ensures
        attr == spec_song_file_attr(id, size),
{
    make_attr(get_ino(id), size, 0, FileKind::RegularFile, 0o755, 2, SONG_FILE_UID, SONG_FILE_GID)
}

/// An inode made from a song id carries the song flag, and gives that id
/// back, as long as the id does not itself use the flag bit.
pub proof fn lemma_song_id_round_trip(id: usize)
    requires
        (id as u64) & SONG_ID == 0,
    ensures
        spec_ino_from_id(id) & SONG_ID == SONG_ID,
        spec_id_from_ino(spec_ino_from_id(id)) == id,
{
    assert(((id as u64) | 0x2_0000_0000u64) & 0x2_0000_0000u64 == 0x2_0000_0000u64) by (bit_vector);
    assert(((((id as u64) | 0x2_0000_0000u64) & !0x2_0000_0000u64) as usize) == id) by (bit_vector)
        requires
            (id as u64) & 0x2_0000_0000u64 == 0,
    ;
}

} // verus!
