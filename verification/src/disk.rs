//! Disk sizing for the ext4 rootfs builder: the space a directory tree
//! needs, the overhead ext4 asks on top, and the arguments handed to the
//! filesystem builder. Walking the directory is the caller's work; it
//! hands the entries in as plain values.

use vstd::prelude::*;

use crate::strutil::{spec_dec_str, u64_to_string};

verus! {

/// The size of a filesystem block.
pub const BLOCK_SIZE: u64 = 4096;

/// The size of one inode.
pub const INODE_SIZE: u64 = 256;

/// One entry of a directory walk, as far as sizing reads it.
#[derive(Debug, Clone, Copy, PartialEq, Eq, Structural)]
pub enum FsEntry {
    /// A regular file of the given length in bytes.
    File(u64),
    /// A directory.
    Dir,
    /// Anything else (symlinks and the like).
    Other,
}

/// Blocks an entry occupies: a file's length rounded up to whole blocks
/// (at least one), one block per directory, none otherwise.
pub open spec fn spec_entry_blocks(e: FsEntry) -> int {
    match e {
        FsEntry::File(len) => if len == 0 {
            1
        } else {
            (len + BLOCK_SIZE - 1) as int / BLOCK_SIZE as int
        },
        FsEntry::Dir => 1,
        FsEntry::Other => 0,
    }
}

/// Total blocks of a directory tree's entries.
pub open spec fn spec_tree_blocks(entries: Seq<FsEntry>) -> int
    decreases entries.len(),
{
    if entries.len() == 0 {
        0
    } else {
        spec_tree_blocks(entries.drop_last()) + spec_entry_blocks(entries.last())
    }
}

/// The bytes a directory tree needs: block storage plus one inode per
/// entry.
pub open spec fn spec_dir_size(entries: Seq<FsEntry>) -> int {
    spec_tree_blocks(entries) * BLOCK_SIZE as int + entries.len() * INODE_SIZE as int
}

/// Sum a directory walk's entries into the bytes an ext4 tree needs.
///
/// The walk arrives as plain values; its length and the file sizes must
/// leave the sum within the machine's range.
pub fn calculate_dir_size(entries: &Vec<FsEntry>) -> (r: u64)
    requires
        spec_dir_size(entries@) <= u64::MAX,
        spec_tree_blocks(entries@) * BLOCK_SIZE as int <= u64::MAX,
    ensures
        r as int == spec_dir_size(entries@),
{
    let n = entries.len();
    let mut blocks: u64 = 0;
    let mut i: usize = 0;
    proof {
        assert(entries@.take(0) =~= Seq::<FsEntry>::empty());
        lemma_tree_blocks_nonneg(entries@);
        assert(spec_dir_size(entries@) >= 0) by (nonlinear_arith)
            requires
                spec_tree_blocks(entries@) >= 0,
                entries@.len() >= 0,
                spec_dir_size(entries@) == spec_tree_blocks(entries@) * BLOCK_SIZE as int
                    + entries@.len() * INODE_SIZE as int,
                BLOCK_SIZE == 4096,
                INODE_SIZE == 256,
        ;
    }
    while i < n
        invariant
            n == entries@.len(),
            i <= n,
            blocks as int == spec_tree_blocks(entries@.take(i as int)),
            spec_tree_blocks(entries@.take(i as int)) * BLOCK_SIZE as int + i * INODE_SIZE as int
                <= spec_dir_size(entries@),
            spec_dir_size(entries@) <= u64::MAX,
            spec_tree_blocks(entries@) * BLOCK_SIZE as int <= u64::MAX,
        decreases n - i,
    {
        proof {
            assert(entries@.take(i as int + 1).drop_last() =~= entries@.take(i as int));
            assert(entries@.take(i as int + 1).last() == entries@[i as int]);
            lemma_tree_blocks_prefix(entries@, i as int + 1);
            assert(spec_entry_blocks(entries@[i as int]) >= 0);
            assert(spec_tree_blocks(entries@.take(i as int + 1)) * BLOCK_SIZE as int + (i + 1)
                * INODE_SIZE as int <= spec_dir_size(entries@)) by (nonlinear_arith)
                requires
                    spec_tree_blocks(entries@.take(i as int + 1)) <= spec_tree_blocks(entries@),
                    0 <= i + 1 <= entries@.len(),
                    spec_dir_size(entries@) == spec_tree_blocks(entries@) * BLOCK_SIZE as int
                        + entries@.len() * INODE_SIZE as int,
                    BLOCK_SIZE == 4096,
                    INODE_SIZE == 256,
                    spec_tree_blocks(entries@.take(i as int + 1)) >= 0,
            ;
        }
        let add: u64 = match entries[i] {
            FsEntry::File(len) => {
                if len == 0 {
                    1
                } else {
                    proof {
                        assert((len + BLOCK_SIZE - 1) as int / BLOCK_SIZE as int
                            <= spec_tree_blocks(entries@.take(i as int + 1))) by (nonlinear_arith)
                            requires
                                spec_tree_blocks(entries@.take(i as int + 1)) == spec_tree_blocks(
                                    entries@.take(i as int),
                                ) + (len + BLOCK_SIZE - 1) as int / BLOCK_SIZE as int,
                                spec_tree_blocks(entries@.take(i as int)) >= 0,
                        ;
                        assert(spec_tree_blocks(entries@.take(i as int + 1)) <= u64::MAX)
                            by (nonlinear_arith)
                            requires
                                spec_tree_blocks(entries@.take(i as int + 1)) * BLOCK_SIZE as int
                                    + (i + 1) * INODE_SIZE as int <= spec_dir_size(entries@),
                                spec_dir_size(entries@) <= u64::MAX,
                                BLOCK_SIZE == 4096,
                                INODE_SIZE == 256,
                                i >= 0,
                                spec_tree_blocks(entries@.take(i as int + 1)) >= 0,
                        ;
                    }
                    if len > u64::MAX - (BLOCK_SIZE - 1) {
                        // the rounded length itself overflows; the tree
                        // sum would too, which the caller rules out
                        proof {
                            assert((len + BLOCK_SIZE - 1) as int / BLOCK_SIZE as int > u64::MAX
                                as int / BLOCK_SIZE as int - 1) by (nonlinear_arith)
                                requires
                                    len > u64::MAX - (BLOCK_SIZE - 1),
                                    BLOCK_SIZE == 4096,
                            ;
                            assert(false);
                        }
                        0
                    } else {
                        (len + (BLOCK_SIZE - 1)) / BLOCK_SIZE
                    }
                }
            },
            FsEntry::Dir => 1,
            FsEntry::Other => 0,
        };
        proof {
            lemma_tree_blocks_nonneg(entries@.take(i as int));
            assert(blocks as int + add as int == spec_tree_blocks(entries@.take(i as int + 1)));
            assert(spec_tree_blocks(entries@.take(i as int + 1)) <= u64::MAX) by (nonlinear_arith)
                requires
                    spec_tree_blocks(entries@.take(i as int + 1)) * BLOCK_SIZE as int + (i + 1)
                        * INODE_SIZE as int <= spec_dir_size(entries@),
                    spec_dir_size(entries@) <= u64::MAX,
                    BLOCK_SIZE == 4096,
                    INODE_SIZE == 256,
                    i >= 0,
                    spec_tree_blocks(entries@.take(i as int + 1)) >= 0,
            ;
        }
        blocks = blocks + add;
        i += 1;
    }
    proof {
        assert(entries@.take(n as int) =~= entries@);
        assert(blocks as int * BLOCK_SIZE as int + n as int * INODE_SIZE as int <= u64::MAX);
    }
    blocks * BLOCK_SIZE + (n as u64) * INODE_SIZE
}

/// Prefix sums never exceed the whole tree's.
proof fn lemma_tree_blocks_prefix(entries: Seq<FsEntry>, i: int)
    requires
        0 <= i <= entries.len(),
    ensures
        spec_tree_blocks(entries.take(i)) <= spec_tree_blocks(entries),
        spec_tree_blocks(entries.take(i)) >= 0,
    decreases entries.len() - i,
{
    lemma_tree_blocks_nonneg(entries.take(i));
    if i < entries.len() {
        assert(entries.take(i + 1).drop_last() =~= entries.take(i));
        assert(entries.take(i + 1).last() == entries[i]);
        assert(spec_entry_blocks(entries[i]) >= 0);
        lemma_tree_blocks_prefix(entries, i + 1);
    } else {
        assert(entries.take(i) =~= entries);
    }
}

/// Block counts are never negative.
proof fn lemma_tree_blocks_nonneg(entries: Seq<FsEntry>)
    ensures
        spec_tree_blocks(entries) >= 0,
    decreases entries.len(),
{
    if entries.len() > 0 {
        lemma_tree_blocks_nonneg(entries.drop_last());
        assert(spec_entry_blocks(entries.last()) >= 0);
    }
}

/// The measured tree size, or the 64 MiB assumption used where the walk
/// of the source directory failed.
pub fn dir_size_or_default(measured: Option<u64>) -> (r: u64)
    ensures
        r == (match measured {
            Some(m) => m,
            None => 0x400_0000u64,
        }),
{
    match measured {
        Some(m) => m,
        None => 0x400_0000,
    }
}

/// The disk size for a tree of the given byte size: double it for ext4's
/// block groups, inode tables and journal, add a quarter gigabyte of base
/// overhead, and never go below one gigabyte.
pub fn calculate_disk_size(dir_size: u64) -> (r: u64)
    requires
        dir_size <= (u64::MAX - 0x1000_0000) / 2,
    ensures
        r as int == if dir_size as int * 2 + 0x1000_0000 > 0x4000_0000 {
            dir_size as int * 2 + 0x1000_0000
        } else {
            0x4000_0000int
        },
{
    let with_overhead = dir_size * 2 + 0x1000_0000;
    if with_overhead > 0x4000_0000 {
        with_overhead
    } else {
        0x4000_0000
    }
}

/// The arguments handed to the ext4 builder: populate from the source
/// directory, force, quiet, root-owned, sized in 4 KiB blocks.
pub fn mke2fs_args(source: &str, output_path: &str, size_bytes: u64) -> (r: Vec<String>)
    ensures
        r@.len() == 9,
        r@[0]@ == "-t"@,
        r@[1]@ == "ext4"@,
        r@[2]@ == "-d"@,
        r@[3]@ == source@,
        r@[4]@ == "-E"@,
        r@[5]@ == "root_owner=0:0"@,
        r@[6]@ == "-F"@,
        r@[7]@ == output_path@,
        r@[8]@ == spec_dec_str((size_bytes / 4096) as int),
{
    let size_blocks = size_bytes / BLOCK_SIZE;
    let r: Vec<String> = vec![
        String::from_str("-t"),
        String::from_str("ext4"),
        String::from_str("-d"),
        String::from_str(source),
        String::from_str("-E"),
        String::from_str("root_owner=0:0"),
        String::from_str("-F"),
        String::from_str(output_path),
        u64_to_string(size_blocks),
    ];
    r
}

} // verus!
