//! What the file system says of the nodes that the lab deals with.

use crate::lab::error::LabError;
use crate::text::push_decimal;
#[allow(unused_imports)]
use crate::text::decimal;
use vstd::prelude::*;

verus! {

/// The file system and the file that a name leads to.
#[derive(Clone, Copy, Debug, PartialEq, Eq, Structural)]
pub struct FileIdentity {
    pub device: u64,
    pub inode: u64,
}

impl FileIdentity {
    /// How the identity is written.
    pub open spec fn text_of(self) -> Seq<char> {
        decimal(self.device as int) + ":"@ + decimal(self.inode as int)
    }

    /// Writes the identity.
    pub fn text(&self) -> (text: String)
        ensures
            text@ == self.text_of(),
    {
        let mut text = String::new();
        push_decimal(&mut text, self.device);
        text.append(":");
        push_decimal(&mut text, self.inode);
        assert(text@ =~= self.text_of());
        text
    }
}

/// The type of a node.
#[derive(Clone, Copy, Debug, PartialEq, Eq, Structural)]
pub enum NodeKind {
    File,
    Directory,
    BlockDevice,
    CharDevice,
    Other,
}

/// What the file system says of a node.
#[derive(Clone, Copy, Debug, PartialEq, Eq)]
pub struct NodeFacts {
    pub kind: NodeKind,
    pub uid: u32,
    pub gid: u32,
    /// Permission bits.
    pub mode: u32,
    /// How many names lead to it.
    pub links: u64,
    pub len: u64,
    pub identity: FileIdentity,
    /// The major and minor number of a device node.
    pub number: (u32, u32),
}

/// A fact, or why it could not be established.
pub type Observed<T> = Result<T, LabError>;

} // verus!
