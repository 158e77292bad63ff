# subsonicfs

A read-only FUSE filesystem that shows the library of a Subsonic server:
`/Artists/<artist>/<album>/<song>`, beside a `hello.txt` in the root.

The library (`src/`) is verified with Verus:

- `inode`: the inode numbering (flag bits for artists, albums and songs);
- `attr`: file attributes as plain values;
- `song_file`: inodes made from server song ids;
- `catalog`: artists, albums and songs with their name indexes, and the
  operations that fill them from what the server lists;
- `ops`: the answers to lookup, getattr, read and readdir;
- `laws`: properties that relate those answers to one another.

`app/` holds the program: it talks to the server (through `sunk`) and to the
kernel (through `fuse`), and hands plain values to and from the library.
