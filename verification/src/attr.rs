//! File attributes of the nodes the filesystem shows, as plain values.
use vstd::prelude::*;

verus! {

/// The kinds of node the filesystem shows.
#[derive(Debug, Clone, Copy, PartialEq, Eq, Structural)]
pub enum FileKind {
    Directory,
    RegularFile,
}

/// A point in time: seconds and nanoseconds since the epoch.
#[derive(Debug, Clone, Copy, PartialEq, Eq, Structural)]
pub struct Timespec {
    pub sec: i64,
    pub nsec: i32,
}

/// The attributes the kernel is told of a node.
#[derive(Debug, Clone, Copy, PartialEq, Eq, Structural)]
pub struct FileAttr {
    pub ino: u64,
    pub size: u64,
    pub blocks: u64,
    pub atime: Timespec,
    pub mtime: Timespec,
    pub ctime: Timespec,
    pub crtime: Timespec,
    pub kind: FileKind,
    pub perm: u16,
    pub nlink: u32,
    pub uid: u32,
    pub gid: u32,
    pub rdev: u32,
    pub flags: u32,
}

/// The user and group id `nobody`, owner of every node the filesystem lists.
pub const NOBODY: u32 = 65534;

/// Contents of `hello.txt`: "Hello World!\n".
pub open spec fn hello_txt_content() -> Seq<u8> {
    seq![72u8, 101u8, 108u8, 108u8, 111u8, 32u8, 87u8, 111u8, 114u8, 108u8, 100u8, 33u8, 10u8]
}

/// The time every node was created at: 2013-10-08 08:56.
pub open spec fn spec_create_time() -> Timespec {
    Timespec { sec: 1381237736, nsec: 0 }
}

/// How long the kernel may keep an answer: 100 seconds.
pub open spec fn spec_ttl() -> Timespec {
    Timespec { sec: 100, nsec: 0 }
}

/// Attributes with all times at the creation time, and no device or flags.
pub open spec fn attr_of(
    ino: u64,
    size: u64,
    blocks: u64,
    kind: FileKind,
    perm: u16,
    nlink: u32,
    uid: u32,
    gid: u32,
) -> FileAttr {
    FileAttr {
        ino,
        size,
        blocks,
        atime: spec_create_time(),
        mtime: spec_create_time(),
        ctime: spec_create_time(),
        crtime: spec_create_time(),
        kind,
        perm,
        nlink,
        uid,
        gid,
        rdev: 0,
        flags: 0,
    }
}

/// A directory of the filesystem: mode 755, two links, owned by nobody.
pub open spec fn dir_attr_of(ino: u64, size: u64) -> FileAttr {
    attr_of(ino, size, 0, FileKind::Directory, 0o755, 2, NOBODY, NOBODY)
}

/// A song file as a catalog lists it: mode 755, two links, owned by nobody.
pub open spec fn song_attr_of(ino: u64, size: u64) -> FileAttr {
    attr_of(ino, size, 0, FileKind::RegularFile, 0o755, 2, NOBODY, NOBODY)
}

/// Attributes of the mount root.
pub open spec fn spec_root_dir_attr() -> FileAttr {
    dir_attr_of(1, 0)
}

/// Attributes of `hello.txt`: 13 bytes in one block, mode 644, one link.
pub open spec fn spec_hello_txt_attr() -> FileAttr {
    attr_of(2, 13, 1, FileKind::RegularFile, 0o644, 1, NOBODY, NOBODY)
}

/// The time every node was created at.
pub fn create_time() -> (t: Timespec)
    ensures
        t == spec_create_time(),
{
    Timespec { sec: 1381237736, nsec: 0 }
}

/// How long the kernel may keep an entry or attributes.
pub fn ttl() -> (t: Timespec)
    ensures
        t == spec_ttl(),
{
    Timespec { sec: 100, nsec: 0 }
}

/// Builds attributes whose four times are the creation time.
pub fn make_attr(
    ino: u64,
    size: u64,
    blocks: u64,
    kind: FileKind,
    perm: u16,
    nlink: u32,
    uid: u32,
    gid: u32,
) -> (attr: FileAttr)
    ensures
        attr == attr_of(ino, size, blocks, kind, perm, nlink, uid, gid),
{
    let t = create_time();
    FileAttr {
        ino,
        size,
        blocks,
        atime: t,
        mtime: t,
        ctime: t,
        crtime: t,
        kind,
        perm,
        nlink,
        uid,
        gid,
        rdev: 0,
        flags: 0,
    }
}

/// Attributes of the mount root.
pub fn subfs_dir_attr() -> (attr: FileAttr)
    ensures
        attr == spec_root_dir_attr(),
{
    make_attr(1, 0, 0, FileKind::Directory, 0o755, 2, NOBODY, NOBODY)
}

/// Attributes of `hello.txt`.
pub fn subfs_txt_attr() -> (attr: FileAttr)
    ensures
        attr == spec_hello_txt_attr(),
{
    make_attr(2, 13, 1, FileKind::RegularFile, 0o644, 1, NOBODY, NOBODY)
}

/// The bytes of `hello.txt`.
pub fn hello_txt_bytes() -> (bytes: Vec<u8>)
    ensures
        bytes@ == hello_txt_content(),
{
    let bytes: Vec<u8> = vec![72u8, 101u8, 108u8, 108u8, 111u8, 32u8, 87u8, 111u8, 114u8, 108u8, 100u8, 33u8, 10u8];
    assert(bytes@ =~= hello_txt_content());
    bytes
}

} // verus!
