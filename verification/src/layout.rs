//! Where the checkpoint areas and the log lie in the backing.

use crate::error::StorageError;
use vstd::prelude::*;

verus! {

/// Bytes in a block, logical or physical.
pub const BLOCK_SIZE: usize = 4096;

/// Version byte of every persistent structure.
pub const FORMAT_VERSION: u8 = 1;

/// Largest number of logical blocks in a volume.
pub const MAX_VOLUME_BLOCKS: u64 = 0x8000_0000;

/// Largest number of physical blocks in a backing.
pub const MAX_BACKING_BLOCKS: u64 = 0x1_0000_0000;

/// Largest number of blocks in a log record, its footer included.
pub const MAXIMUM_RECORD_BLOCKS: u64 = 339;

/// Largest number of payload blocks in a log record.
pub const MAXIMUM_PAYLOAD_BLOCKS: usize = 338;

/// Block numbers of the two checkpoint bodies and of the log.
///
/// Blocks 0 and 1 hold the two checkpoint descriptors.
#[derive(Clone, Copy, Debug, PartialEq, Eq, Structural)]
pub struct Layout {
    pub physical_map_blocks: u32,
    pub checksum_map_blocks: u32,
    pub green_physical_map_start: u32,
    pub green_checksum_map_start: u32,
    pub blue_physical_map_start: u32,
    pub blue_checksum_map_start: u32,
    pub log_start: u32,
}

/// `value` divided by `divisor`, rounded up.
pub open spec fn ceil_div(value: int, divisor: int) -> int {
    (value + divisor - 1) / divisor
}

/// Whether a volume can have this many logical blocks.
pub open spec fn valid_volume_blocks(volume_blocks: int) -> bool {
    1 <= volume_blocks <= MAX_VOLUME_BLOCKS
}

/// Whether a volume can have this many bytes.
pub open spec fn valid_volume_bytes(volume_bytes: u64) -> bool {
    volume_bytes % 4096 == 0 && valid_volume_blocks((volume_bytes / 4096) as int)
}

/// The layout of a volume of `volume_blocks` logical blocks: both bodies, each a map of
/// four-byte physical block numbers and a map of eight-byte checksums, then the log.
pub open spec fn layout_of(volume_blocks: int) -> Layout {
    let physical = ceil_div(volume_blocks, 1024);
    let checksum = ceil_div(volume_blocks, 512);
    Layout {
        physical_map_blocks: physical as u32,
        checksum_map_blocks: checksum as u32,
        green_physical_map_start: 2,
        green_checksum_map_start: (2 + physical) as u32,
        blue_physical_map_start: (2 + physical + checksum) as u32,
        blue_checksum_map_start: (2 + 2 * physical + checksum) as u32,
        log_start: (2 + 2 * physical + 2 * checksum) as u32,
    }
}

/// Why a backing of this many bytes cannot hold the layout, if it cannot.
pub open spec fn backing_refusal(layout: Layout, backing_bytes: u64) -> Option<StorageError> {
    if backing_bytes % 4096 != 0 {
        Some(StorageError::BackingNotBlockAligned)
    } else if backing_bytes / 4096 > MAX_BACKING_BLOCKS {
        Some(StorageError::BackingTooLarge)
    } else if backing_bytes / 4096 < layout.log_start + 2 {
        Some(StorageError::BackingTooSmall)
    } else {
        None
    }
}

/// Law: the checkpoint descriptors, the four maps and the log follow one another without a gap
/// or an overlap, each map is just large enough, and the log starts within the address space.
pub proof fn law_layout_regions_are_adjacent(volume_blocks: int)
    requires
        valid_volume_blocks(volume_blocks),
    ensures
        ({
            let layout = layout_of(volume_blocks);
            &&& layout.green_physical_map_start == 2
            &&& layout.green_checksum_map_start == layout.green_physical_map_start
                + layout.physical_map_blocks
            &&& layout.blue_physical_map_start == layout.green_checksum_map_start
                + layout.checksum_map_blocks
            &&& layout.blue_checksum_map_start == layout.blue_physical_map_start
                + layout.physical_map_blocks
            &&& layout.log_start == layout.blue_checksum_map_start + layout.checksum_map_blocks
            &&& 1024 * (layout.physical_map_blocks - 1) < volume_blocks <= 1024
                * layout.physical_map_blocks
            &&& 512 * (layout.checksum_map_blocks - 1) < volume_blocks <= 512
                * layout.checksum_map_blocks
            &&& 1 <= layout.physical_map_blocks <= 0x20_0000
            &&& 1 <= layout.checksum_map_blocks <= 0x40_0000
            &&& layout.log_start + 2 <= MAX_BACKING_BLOCKS
        }),
{
}

/// The layout of a volume of `volume_blocks` logical blocks.
pub fn layout_of_blocks(volume_blocks: u32) -> (layout: Layout)
    requires
        valid_volume_blocks(volume_blocks as int),
    ensures
        layout == layout_of(volume_blocks as int),
{
    let physical_map_blocks: u32 = ((volume_blocks as u64 + 1023) / 1024) as u32;
    let checksum_map_blocks: u32 = ((volume_blocks as u64 + 511) / 512) as u32;
    let green_physical_map_start: u32 = 2;
    let green_checksum_map_start: u32 = green_physical_map_start + physical_map_blocks;
    let blue_physical_map_start: u32 = green_checksum_map_start + checksum_map_blocks;
    let blue_checksum_map_start: u32 = blue_physical_map_start + physical_map_blocks;
    Layout {
        physical_map_blocks,
        checksum_map_blocks,
        green_physical_map_start,
        green_checksum_map_start,
        blue_physical_map_start,
        blue_checksum_map_start,
        log_start: blue_checksum_map_start + checksum_map_blocks,
    }
}

/// The number of logical blocks and the layout of a volume of `volume_bytes` bytes.
pub fn layout_for(volume_bytes: u64) -> (result: Result<(u32, Layout), StorageError>)
    ensures
        match result {
            Ok((volume_blocks, layout)) => {
                &&& valid_volume_bytes(volume_bytes)
                &&& volume_blocks == volume_bytes / 4096
                &&& layout == layout_of(volume_blocks as int)
            },
            Err(error) => !valid_volume_bytes(volume_bytes) && error
                == StorageError::InvalidVolumeSize,
        },
{
    if volume_bytes == 0 || volume_bytes % 4096 != 0 {
        return Err(StorageError::InvalidVolumeSize);
    }
    let volume_blocks: u64 = volume_bytes / 4096;
    if volume_blocks > MAX_VOLUME_BLOCKS {
        return Err(StorageError::InvalidVolumeSize);
    }
    Ok((volume_blocks as u32, layout_of_blocks(volume_blocks as u32)))
}

/// The number of physical blocks in a backing of `backing_bytes` bytes that holds `layout`.
pub fn backing_blocks_for(layout: &Layout, backing_bytes: u64) -> (result: Result<
    u64,
    StorageError,
>)
    ensures
        match result {
            Ok(backing_blocks) => {
                &&& backing_refusal(*layout, backing_bytes) is None
                &&& backing_blocks == backing_bytes / 4096
            },
            Err(error) => backing_refusal(*layout, backing_bytes) == Some(error),
        },
{
    if backing_bytes % 4096 != 0 {
        return Err(StorageError::BackingNotBlockAligned);
    }
    let backing_blocks: u64 = backing_bytes / 4096;
    if backing_blocks > MAX_BACKING_BLOCKS {
        return Err(StorageError::BackingTooLarge);
    }
    if backing_blocks < layout.log_start as u64 + 2 {
        return Err(StorageError::BackingTooSmall);
    }
    Ok(backing_blocks)
}

} // verus!
