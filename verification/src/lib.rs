//! The verified core of a read-only FUSE filesystem that shows the library of
//! a Subsonic server: artists, their albums and the albums' songs.
use vstd::prelude::*;

pub mod inode;
pub mod attr;
pub mod song_file;
pub mod catalog;
pub mod ops;
pub mod laws;

verus! {
}
