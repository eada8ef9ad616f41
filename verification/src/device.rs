//! Block requests, how they complete, and the disk they act on.

use crate::error::IoFailure;
use vstd::prelude::*;

verus! {

/// What is asked of the backing.
#[derive(Debug)]
pub enum Operation {
    /// Read `blocks` blocks from `block` on.
    Read { block: u64, blocks: u32 },
    /// Write whole blocks from `block` on.
    Write { block: u64, bytes: Vec<u8> },
    /// Make completed writes durable.
    Sync,
}

/// A request and the tag that its completion carries.
#[derive(Debug)]
pub struct Request {
    pub operation: Operation,
    pub tag: u64,
}

/// How a request went: the bytes read, none for a write or a sync, or why it failed.
pub type Reply = Result<Vec<u8>, IoFailure>;

/// The meaning of an operation.
pub ghost enum Op {
    Read { block: int, blocks: int },
    Write { block: int, bytes: Seq<u8> },
    Sync,
}

/// The meaning of a request.
pub ghost struct Req {
    pub op: Op,
    pub tag: u64,
}

/// The contents of a backing, block by block.
pub type Disk = Seq<Seq<u8>>;

impl View for Operation {
    type V = Op;

    open spec fn view(&self) -> Op {
        match *self {
            Operation::Read { block, blocks } => Op::Read { block: block as int, blocks: blocks as int },
            Operation::Write { block, bytes } => Op::Write { block: block as int, bytes: bytes@ },
            Operation::Sync => Op::Sync,
        }
    }
}

impl View for Request {
    type V = Req;

    open spec fn view(&self) -> Req {
        Req { op: self.operation@, tag: self.tag }
    }
}

/// The meaning of a reply.
pub open spec fn reply_view(reply: Reply) -> Result<Seq<u8>, IoFailure> {
    match reply {
        Ok(bytes) => Ok(bytes@),
        Err(failure) => Err(failure),
    }
}

impl Request {
    /// How many bytes the request has to transfer.
    pub open spec fn transfer(self) -> int {
        match self.operation {
            Operation::Read { block, blocks } => 4096 * blocks,
            Operation::Write { block, bytes } => bytes@.len() as int,
            Operation::Sync => 0,
        }
    }

    /// The number that a completion of the request has to report.
    pub fn expected_result(&self) -> (result: i32)
        requires
            self.transfer() <= i32::MAX,
        ensures
            result == self.transfer(),
    {
        match &self.operation {
            Operation::Read { block: _, blocks } => *blocks as i32 * 4096,
            Operation::Write { block: _, bytes } => bytes.len() as i32,
            Operation::Sync => 0,
        }
    }
}

/// Whether every block of `disk` has the size of a block.
pub open spec fn disk_wf(disk: Disk) -> bool {
    forall|i: int| 0 <= i < disk.len() ==> (#[trigger] disk[i]).len() == 4096
}

/// `disk` after whole blocks were written from `block` on.
pub open spec fn written(disk: Disk, block: int, bytes: Seq<u8>) -> Disk {
    Seq::new(
        disk.len(),
        |i: int|
            if block <= i < block + bytes.len() / 4096 {
                bytes.subrange(4096 * (i - block), 4096 * (i - block) + 4096)
            } else {
                disk[i]
            },
    )
}

/// `disk` after `request` was carried out on it.
pub open spec fn performed(disk: Disk, request: Req) -> Disk {
    match request.op {
        Op::Write { block, bytes } => written(disk, block, bytes),
        _ => disk,
    }
}

/// `disk` after `requests` were carried out on it in order.
pub open spec fn performed_all(disk: Disk, requests: Seq<Req>) -> Disk
    decreases requests.len(),
{
    if requests.len() == 0 {
        disk
    } else {
        performed(performed_all(disk, requests.drop_last()), requests.last())
    }
}

/// Writing one block changes that block alone.
pub proof fn lemma_written_block(disk: Disk, block: int, bytes: Seq<u8>)
    requires
        bytes.len() == 4096,
        0 <= block < disk.len(),
    ensures
        written(disk, block, bytes) == disk.update(block, bytes),
{
    assert(bytes.subrange(0, 4096) =~= bytes);
    assert(written(disk, block, bytes) =~= disk.update(block, bytes));
}

/// Writing two blocks changes those two alone.
pub proof fn lemma_written_pair(disk: Disk, block: int, first: Seq<u8>, second: Seq<u8>)
    requires
        first.len() == 4096,
        second.len() == 4096,
        0 <= block,
        block + 1 < disk.len(),
    ensures
        written(disk, block, first + second) == disk.update(block, first).update(block + 1, second),
{
    let bytes = first + second;
    assert(bytes.subrange(0, 4096) =~= first);
    assert(bytes.subrange(4096, 8192) =~= second);
    assert(written(disk, block, bytes) =~= disk.update(block, first).update(block + 1, second));
}

} // verus!
