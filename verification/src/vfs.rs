//! The in-memory virtual file system: files, directories, and device nodes
//! behind one node interface. Files grow on write with zero fill; directory
//! entries are unique by name.

use vstd::prelude::*;
use vstd::string::StringSliceAdditionalSpecFns;

use crate::drivers::ConsoleDevice;

verus! {

/// What kind of node this is.
#[derive(Clone, Copy, PartialEq, Eq, Structural, Debug)]
pub enum FileType {
    File,
    Directory,
    Device,
}

/// A filesystem node. The spec functions pin each implementation's
/// behaviour: its readable contents, its kind, and the exact effect and
/// count of a write.
pub trait INode: Sized {
    /// The readable byte contents.
    spec fn contents(&self) -> Seq<u8>;

    /// The node's kind.
    spec fn node_type(&self) -> FileType;

    /// The node's name (empty for anonymous nodes).
    spec fn ident(&self) -> Seq<char>;

    /// Bytes this node has pushed to its output device (empty for plain
    /// files and directories).
    spec fn emitted(&self) -> Seq<u8>;

    /// What a write may assume.
    spec fn write_pre(&self, offset: int, len: int) -> bool;

    /// The readable contents after a write.
    spec fn contents_after_write(&self, offset: int, bytes: Seq<u8>) -> Seq<u8>;

    /// What a write pushes to the output device.
    spec fn emit_of(&self, bytes: Seq<u8>) -> Seq<u8>;

    /// How many bytes a write reports.
    spec fn write_len(&self, offset: int, bytes: Seq<u8>) -> int;

    /// Read up to `len` bytes starting at `offset`.
    fn read(&self, offset: usize, len: usize) -> (out: Vec<u8>)
        ensures
            out@ == (if offset < self.contents().len() {
                self.contents().subrange(
                    offset as int,
                    if offset + len <= self.contents().len() {
                        offset + len
                    } else {
                        self.contents().len() as int
                    },
                )
            } else {
                Seq::<u8>::empty()
            }),
    ;

    /// Write `buf` at `offset`.
    fn write(&mut self, offset: usize, buf: &Vec<u8>) -> (n: usize)
        requires
            old(self).write_pre(offset as int, buf@.len() as int),
        ensures
            final(self).contents() == old(self).contents_after_write(offset as int, buf@),
            final(self).emitted() == old(self).emitted() + old(self).emit_of(buf@),
            final(self).node_type() == old(self).node_type(),
            final(self).ident() == old(self).ident(),
            n == old(self).write_len(offset as int, buf@),
    ;

    /// The node's kind, at runtime.
    fn metadata(&self) -> (t: FileType)
        ensures
            t == self.node_type(),
    ;

    /// Size of the readable contents.
    fn size(&self) -> (n: usize)
        ensures
            n == self.contents().len(),
    ;
}

/// An in-memory file.
pub struct RamFile {
    pub name: String,
    pub data: Vec<u8>,
}

impl RamFile {
    /// An empty file with this name.
    pub fn new(name: &str) -> (f: RamFile)
        ensures
            f.name@ == name@,
            f.data@ == Seq::<u8>::empty(),
    {
        RamFile { name: name.to_owned(), data: Vec::new() }
    }
}

/// A file's contents after writing `bytes` at `offset`: the old contents,
/// zero-extended to cover the written range if needed, with the range
/// replaced.
pub open spec fn file_after_write(data: Seq<u8>, offset: int, bytes: Seq<u8>) -> Seq<u8> {
    let end = offset + bytes.len();
    let base = if end > data.len() {
        data + Seq::new((end - data.len()) as nat, |j: int| 0u8)
    } else {
        data
    };
    base.take(offset) + bytes + base.skip(end)
}

impl INode for RamFile {
    open spec fn contents(&self) -> Seq<u8> {
        self.data@
    }

    open spec fn node_type(&self) -> FileType {
        FileType::File
    }

    open spec fn ident(&self) -> Seq<char> {
        self.name@
    }

    open spec fn emitted(&self) -> Seq<u8> {
        Seq::empty()
    }

    open spec fn write_pre(&self, offset: int, len: int) -> bool {
        offset + len <= usize::MAX
    }

    open spec fn contents_after_write(&self, offset: int, bytes: Seq<u8>) -> Seq<u8> {
        file_after_write(self.data@, offset, bytes)
    }

    open spec fn emit_of(&self, bytes: Seq<u8>) -> Seq<u8> {
        Seq::empty()
    }

    open spec fn write_len(&self, offset: int, bytes: Seq<u8>) -> int {
        bytes.len() as int
    }

    fn read(&self, offset: usize, len: usize) -> (out: Vec<u8>) {
        let mut out: Vec<u8> = Vec::new();
        if offset >= self.data.len() {
            return out;
        }
        let end = if self.data.len() - offset <= len {
            self.data.len()
        } else {
            offset + len
        };
        let mut k = offset;
        while k < end
            invariant
                offset <= k <= end <= self.data@.len(),
                out@ == self.data@.subrange(offset as int, k as int),
            decreases end - k,
        {
            out.push(self.data[k]);
            assert(out@ =~= self.data@.subrange(offset as int, k + 1));
            k += 1;
        }
        out
    }

    fn write(&mut self, offset: usize, buf: &Vec<u8>) -> (n: usize) {
        let end = offset + buf.len();
        while self.data.len() < end
            invariant
                self.name == old(self).name,
                end == offset + buf@.len(),
                self.data@.len() <= end || self.data@.len() == old(self).data@.len(),
                self.data@ == (if old(self).data@.len() >= self.data@.len() {
                    old(self).data@
                } else {
                    old(self).data@ + Seq::new(
                        (self.data@.len() - old(self).data@.len()) as nat,
                        |j: int| 0u8,
                    )
                }),
            decreases end - self.data@.len(),
        {
            let ghost before = self.data@;
            self.data.push(0u8);
            proof {
                if old(self).data@.len() >= before.len() {
                    assert(before == old(self).data@);
                    assert(self.data@ =~= old(self).data@ + Seq::new(1nat, |j: int| 0u8));
                } else {
                    assert(self.data@ =~= old(self).data@ + Seq::new(
                        (self.data@.len() - old(self).data@.len()) as nat,
                        |j: int| 0u8,
                    ));
                }
            }
        }
        let ghost base = self.data@;
        let mut k: usize = 0;
        while k < buf.len()
            invariant
                k <= buf@.len(),
                end == offset + buf@.len(),
                end <= self.data@.len(),
                self.name == old(self).name,
                self.data@.len() == base.len(),
                base.len() >= offset + buf@.len(),
                forall|m: int|
                    0 <= m < base.len() ==> #[trigger] self.data@[m] == (if offset <= m < offset
                        + k {
                        buf@[m - offset]
                    } else {
                        base[m]
                    }),
            decreases buf@.len() - k,
        {
            self.data[offset + k] = buf[k];
            k += 1;
        }
        proof {
            assert(self.data@ =~= file_after_write(old(self).data@, offset as int, buf@));
        }
        buf.len()
    }

    fn metadata(&self) -> (t: FileType) {
        FileType::File
    }

    fn size(&self) -> (n: usize) {
        self.data.len()
    }
}

/// A node a directory can hold.
pub enum VfsNode {
    File(RamFile),
    Dir(Box<RamDir>),
    Device(ConsoleDevice),
}

/// An in-memory directory: named children, names unique.
pub struct RamDir {
    pub name: String,
    pub children: Vec<(String, VfsNode)>,
}

/// A name is already taken in the child list.
pub open spec fn dir_has_name(children: Seq<(String, VfsNode)>, name: Seq<char>) -> bool {
    exists|i: int| 0 <= i < children.len() && (#[trigger] children[i]).0@ == name
}

impl RamDir {
    /// An empty directory with this name.
    pub fn new(name: &str) -> (d: RamDir)
        ensures
            d.name@ == name@,
            d.children@ == Seq::<(String, VfsNode)>::empty(),
    {
        RamDir { name: name.to_owned(), children: Vec::new() }
    }

    /// Find a child by name.
    pub fn lookup(&self, name: &str) -> (r: Option<&VfsNode>)
        ensures
            match r {
                Some(node) => exists|i: int|
                    0 <= i < self.children@.len() && (#[trigger] self.children@[i]).0@ == name@
                        && self.children@[i].1 == *node,
                None => !dir_has_name(self.children@, name@),
            },
    {
        let wanted = name.to_owned();
        let mut i: usize = 0;
        while i < self.children.len()
            invariant
                wanted@ == name@,
                i <= self.children@.len(),
                forall|j: int| 0 <= j < i ==> (#[trigger] self.children@[j]).0@ != name@,
            decreases self.children@.len() - i,
        {
            if self.children[i].0 == wanted {
                return Some(&self.children[i].1);
            }
            i += 1;
        }
        None
    }

    /// Add a child; an existing name is refused.
    pub fn insert(&mut self, name: &str, node: VfsNode) -> (r: Result<(), &'static str>)
        ensures
            final(self).name == old(self).name,
            match r {
                Ok(()) => !dir_has_name(old(self).children@, name@) && final(self).children@.len() == old(self).children@.len() + 1 && final(self).children@.last().0@ == name@ && final(self).children@.drop_last() == old(self).children@,
                Err(_) => dir_has_name(old(self).children@, name@) && final(self).children@
                    == old(self).children@,
            },
    {
        let wanted = name.to_owned();
        let mut i: usize = 0;
        while i < self.children.len()
            invariant
                wanted@ == name@,
                self.children@ == old(self).children@,
                self.name == old(self).name,
                i <= self.children@.len(),
                forall|j: int| 0 <= j < i ==> (#[trigger] self.children@[j]).0@ != name@,
            decreases self.children@.len() - i,
        {
            if self.children[i].0 == wanted {
                return Err("File exists");
            }
            i += 1;
        }
        self.children.push((wanted, node));
        Ok(())
    }
}

impl INode for RamDir {
    open spec fn contents(&self) -> Seq<u8> {
        Seq::empty()
    }

    open spec fn node_type(&self) -> FileType {
        FileType::Directory
    }

    open spec fn ident(&self) -> Seq<char> {
        self.name@
    }

    open spec fn emitted(&self) -> Seq<u8> {
        Seq::empty()
    }

    open spec fn write_pre(&self, offset: int, len: int) -> bool {
        true
    }

    open spec fn contents_after_write(&self, offset: int, bytes: Seq<u8>) -> Seq<u8> {
        Seq::empty()
    }

    open spec fn emit_of(&self, bytes: Seq<u8>) -> Seq<u8> {
        Seq::empty()
    }

    open spec fn write_len(&self, offset: int, bytes: Seq<u8>) -> int {
        0
    }

    fn read(&self, offset: usize, len: usize) -> (out: Vec<u8>) {
        Vec::new()
    }

    fn write(&mut self, offset: usize, buf: &Vec<u8>) -> (n: usize) {
        0
    }

    fn metadata(&self) -> (t: FileType) {
        FileType::Directory
    }

    fn size(&self) -> (n: usize) {
        0
    }
}

} // verus!
