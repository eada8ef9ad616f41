//! The volume engine on a backing that is held in memory.

use block_storage::checksum::payload_checksum;
use block_storage::descriptor::{
    decode_checkpoint, encode_checkpoint_descriptor, Checkpoint, CheckpointSlot,
    CHECKPOINT_BODY_CHECKSUM_OFFSET,
};
use block_storage::device::{Operation, Reply, Request};
use block_storage::error::{ErrorKind, IoFailure, StorageError};
use block_storage::footer::{
    decode_write_tail_footer, encode_write_footer, FOOTER_CHECKSUM_OFFSET, FOOTER_LBA_OFFSET,
    FOOTER_PAYLOAD_CHECKSUM_OFFSET, RECORD_KIND_WRITE,
};
use block_storage::layout::{
    backing_blocks_for, layout_for, Layout, BLOCK_SIZE, FORMAT_VERSION, MAXIMUM_PAYLOAD_BLOCKS,
    MAXIMUM_RECORD_BLOCKS, MAX_BACKING_BLOCKS, MAX_VOLUME_BLOCKS,
};
use block_storage::recovery::{self, OpenStep, Opening};
use block_storage::volume::{Step, Volume, VolumeOpenOptions};
use xxhash_rust::xxh3::{xxh3_64, xxh3_64_with_seed};

const DESCRIPTOR_CHECKSUM_OFFSET: usize = 4088;
const CHECKPOINT_MAGIC: &[u8] = b"VBLC";
const FOOTER_MAGIC: &[u8] = b"VBLF";
const VOLUME_ID: u64 = 0x1122_3344_5566_7788;

fn read_u32(bytes: &[u8], offset: usize) -> u32 {
    u32::from_le_bytes(bytes[offset..offset + 4].try_into().unwrap())
}

fn read_u64(bytes: &[u8], offset: usize) -> u64 {
    u64::from_le_bytes(bytes[offset..offset + 8].try_into().unwrap())
}

#[derive(Clone)]
struct Backing {
    bytes: Vec<u8>,
    /// Carry out so many requests, then report that the process is gone.
    budget: Option<usize>,
    writable: bool,
    /// What the last sync has made durable, where that is followed.
    durable: Option<Vec<u8>>,
}

/// The process ended before a request was carried out.
#[derive(Debug)]
struct Crashed;

impl Backing {
    fn sized(bytes: u64) -> Self {
        Self {
            bytes: vec![0; bytes as usize],
            budget: None,
            writable: true,
            durable: None,
        }
    }

    fn len(&self) -> u64 {
        self.bytes.len() as u64
    }

    fn block(&self, block: u32) -> &[u8] {
        let start = block as usize * BLOCK_SIZE;
        &self.bytes[start..start + BLOCK_SIZE]
    }

    fn put(&mut self, offset: u64, bytes: &[u8]) {
        let start = offset as usize;
        self.bytes[start..start + bytes.len()].copy_from_slice(bytes);
    }

    fn carry_out(&mut self, request: &Request) -> Result<Reply, Crashed> {
        if let Some(budget) = self.budget.as_mut() {
            if *budget == 0 {
                return Err(Crashed);
            }
            *budget -= 1;
        }
        Ok(match &request.operation {
            Operation::Read { block, blocks } => {
                let start = *block as usize * BLOCK_SIZE;
                Ok(self.bytes[start..start + *blocks as usize * BLOCK_SIZE].to_vec())
            }
            Operation::Write { block, bytes } => {
                if self.writable {
                    let start = *block as usize * BLOCK_SIZE;
                    self.bytes[start..start + bytes.len()].copy_from_slice(bytes);
                    Ok(Vec::new())
                } else {
                    Err(IoFailure::Os(9))
                }
            }
            Operation::Sync => {
                if self.durable.is_some() {
                    self.durable = Some(self.bytes.clone());
                }
                Ok(Vec::new())
            }
        })
    }

    /// Loses each block that was written since the last sync as `lose` says.
    fn lose(&mut self, mut lose: impl FnMut() -> bool) {
        let durable = self.durable.clone().unwrap();
        for start in (0..self.bytes.len()).step_by(BLOCK_SIZE) {
            let block = start..start + BLOCK_SIZE;
            if self.bytes[block.clone()] != durable[block.clone()] && lose() {
                self.bytes[block.clone()].copy_from_slice(&durable[block]);
            }
        }
        self.durable = Some(self.bytes.clone());
    }

    fn format_as(&mut self, volume_bytes: u64, volume_id: u64) -> Result<(), StorageError> {
        let (write, sync) = recovery::format(volume_bytes, self.len(), volume_id)?;
        for request in [write, sync] {
            self.carry_out(&request)
                .unwrap()
                .map_err(StorageError::Io)?;
        }
        Ok(())
    }

    fn format(&mut self, volume_bytes: u64) -> Result<(), StorageError> {
        self.format_as(volume_bytes, VOLUME_ID)
    }

    fn run_opening(&mut self, opening: Opening) -> Result<Result<Volume, StorageError>, Crashed> {
        let mut opening = opening;
        loop {
            let request = opening.request();
            let reply = self.carry_out(&request)?;
            match opening.advance(reply) {
                OpenStep::Perform(next) => opening = next,
                OpenStep::Opened(volume) => return Ok(Ok(volume)),
                OpenStep::Failed(error) => return Ok(Err(error)),
            }
        }
    }

    fn open(&mut self) -> Result<Volume, StorageError> {
        let opening = recovery::open(self.len());
        self.run_opening(opening).unwrap()
    }

    fn open_with_options(&mut self, options: VolumeOpenOptions) -> Result<Volume, StorageError> {
        let opening = recovery::open_with_options(self.len(), options)?;
        self.run_opening(opening).unwrap()
    }

    fn drive(
        &mut self,
        volume: &mut Volume,
        first: Request,
    ) -> Result<Result<Option<Vec<u8>>, StorageError>, Crashed> {
        let mut request = first;
        loop {
            let reply = self.carry_out(&request)?;
            match volume.advance(reply) {
                Step::Perform(next) => request = next,
                Step::Done => return Ok(Ok(None)),
                Step::Data(bytes) => return Ok(Ok(Some(bytes))),
                Step::Failed(error) => return Ok(Err(error)),
            }
        }
    }

    fn read(&mut self, volume: &mut Volume, lba: u32) -> Result<Vec<u8>, StorageError> {
        match volume.read_block(lba)? {
            Step::Data(bytes) => Ok(bytes),
            Step::Perform(request) => Ok(self.drive(volume, request).unwrap()?.unwrap()),
            Step::Done => panic!("a read ends with data"),
            Step::Failed(error) => Err(error),
        }
    }

    fn try_write(
        &mut self,
        volume: &mut Volume,
        lba: u32,
        data: &[u8; BLOCK_SIZE],
    ) -> Result<Result<(), StorageError>, Crashed> {
        match volume.write_block(lba, data) {
            Ok(request) => Ok(self.drive(volume, request)?.map(|_| ())),
            Err(error) => Ok(Err(error)),
        }
    }

    fn write(
        &mut self,
        volume: &mut Volume,
        lba: u32,
        data: &[u8; BLOCK_SIZE],
    ) -> Result<(), StorageError> {
        self.try_write(volume, lba, data).unwrap()
    }

    fn try_flush(&mut self, volume: &mut Volume) -> Result<Result<(), StorageError>, Crashed> {
        match volume.flush() {
            Ok(request) => Ok(self.drive(volume, request)?.map(|_| ())),
            Err(error) => Ok(Err(error)),
        }
    }

    fn flush(&mut self, volume: &mut Volume) -> Result<(), StorageError> {
        self.try_flush(volume).unwrap()
    }

    fn try_close(&mut self, volume: &mut Volume) -> Result<Result<(), StorageError>, Crashed> {
        match volume.close() {
            Ok(request) => Ok(self.drive(volume, request)?.map(|_| ())),
            Err(error) => Ok(Err(error)),
        }
    }

    fn close(&mut self, volume: &mut Volume) -> Result<(), StorageError> {
        self.try_close(volume).unwrap()
    }

    fn volume_id(&self) -> u64 {
        read_u64(&self.bytes, 8)
    }

    fn write_raw_record_payloads(
        &mut self,
        volume_id: u64,
        lsn: u64,
        previous_footer_block: u32,
        payloads: &[(u32, u8)],
    ) -> [u8; BLOCK_SIZE] {
        assert!(!payloads.is_empty() && payloads.len() <= MAXIMUM_PAYLOAD_BLOCKS);
        let footer_block = previous_footer_block + 1 + payloads.len() as u32;
        let mut footer = [0; BLOCK_SIZE];
        footer[..4].copy_from_slice(FOOTER_MAGIC);
        footer[4] = FORMAT_VERSION;
        footer[5] = RECORD_KIND_WRITE;
        footer[8..16].copy_from_slice(&volume_id.to_le_bytes());
        footer[16..24].copy_from_slice(&lsn.to_le_bytes());
        footer[24..28].copy_from_slice(&previous_footer_block.to_le_bytes());
        footer[28..32].copy_from_slice(&footer_block.to_le_bytes());
        for (index, &(lba, byte)) in payloads.iter().enumerate() {
            let payload_block = previous_footer_block + 1 + index as u32;
            let payload = [byte; BLOCK_SIZE];
            let lba_offset = FOOTER_LBA_OFFSET + index * 4;
            let checksum_offset = FOOTER_PAYLOAD_CHECKSUM_OFFSET + index * 8;
            footer[lba_offset..lba_offset + 4].copy_from_slice(&lba.to_le_bytes());
            footer[checksum_offset..checksum_offset + 8].copy_from_slice(
                &payload_checksum(volume_id, lba, payload_block, &payload).to_le_bytes(),
            );
            self.put(u64::from(payload_block) * BLOCK_SIZE as u64, &payload);
        }
        seal(&mut footer);
        self.put(u64::from(footer_block) * BLOCK_SIZE as u64, &footer);
        footer
    }

    fn write_raw_record(
        &mut self,
        volume_id: u64,
        lsn: u64,
        previous_footer_block: u32,
        payload_block: u32,
        lba: u32,
        byte: u8,
    ) -> [u8; BLOCK_SIZE] {
        assert_eq!(payload_block, previous_footer_block + 1);
        self.write_raw_record_payloads(volume_id, lsn, previous_footer_block, &[(lba, byte)])
    }
}

fn seal(block: &mut [u8]) {
    block[4088..].fill(0);
    let checksum = xxh3_64(block);
    block[4088..].copy_from_slice(&checksum.to_le_bytes());
}

fn assert_sealed(block: &[u8]) {
    let stored = read_u64(block, 4088);
    let mut unsealed = block.to_vec();
    unsealed[4088..].fill(0);
    assert_eq!(xxh3_64(&unsealed), stored);
}

fn raw_footer(
    volume_id: u64,
    lsn: u64,
    previous_footer_block: u32,
    declared_footer_block: u32,
) -> [u8; BLOCK_SIZE] {
    let mut footer = [0; BLOCK_SIZE];
    footer[..4].copy_from_slice(FOOTER_MAGIC);
    footer[4] = FORMAT_VERSION;
    footer[5] = RECORD_KIND_WRITE;
    footer[8..16].copy_from_slice(&volume_id.to_le_bytes());
    footer[16..24].copy_from_slice(&lsn.to_le_bytes());
    footer[24..28].copy_from_slice(&previous_footer_block.to_le_bytes());
    footer[28..32].copy_from_slice(&declared_footer_block.to_le_bytes());
    seal(&mut footer);
    footer
}

fn layout(volume_blocks: u32) -> Layout {
    layout_for(u64::from(volume_blocks) * BLOCK_SIZE as u64).unwrap().1
}

/// A formatted volume whose log has room for `log_blocks` blocks.
fn formatted(volume_blocks: u32, log_blocks: u32) -> (Backing, Layout) {
    let layout = layout(volume_blocks);
    let mut backing =
        Backing::sized((u64::from(layout.log_start) + u64::from(log_blocks)) * BLOCK_SIZE as u64);
    backing
        .format(u64::from(volume_blocks) * BLOCK_SIZE as u64)
        .unwrap();
    (backing, layout)
}

fn cursors(volume: &Volume) -> (Vec<u32>, Vec<u64>, u64, u64, u64, u32, CheckpointSlot, u64, bool) {
    (
        volume.physical_blocks.clone(),
        volume.checksums.clone(),
        volume.last_lsn,
        volume.durable_lsn,
        volume.checkpoint_lsn,
        volume.last_footer_block,
        volume.next_checkpoint_slot,
        volume.log_bytes_since_checkpoint,
        volume.failed,
    )
}

fn seeded_checksum(volume_id: u64, lba: u32, physical_block: u32, payload: &[u8]) -> u64 {
    let mut input = [0; BLOCK_SIZE + 8];
    input[..4].copy_from_slice(&lba.to_le_bytes());
    input[4..8].copy_from_slice(&physical_block.to_le_bytes());
    input[8..].copy_from_slice(payload);
    xxh3_64_with_seed(&input, volume_id)
}

// Formatting and geometry.

#[test]
fn xxh3_matches_persistent_format_vectors() {
    assert_eq!(xxh3_64(b""), 0x2d06_8005_38d3_94c2);
    assert_eq!(xxh3_64(&[0; BLOCK_SIZE]), 0x93d7_6fe1_48c6_89ba);

    let mut payload_input = [0xa5; BLOCK_SIZE + 8];
    payload_input[..4].copy_from_slice(&0x0102_0304_u32.to_le_bytes());
    payload_input[4..8].copy_from_slice(&0x0506_0708_u32.to_le_bytes());
    assert_eq!(
        xxh3_64_with_seed(&payload_input, 0x1122_3344_5566_7788),
        0x4681_58e2_0c4c_72c4
    );
    assert_eq!(
        payload_checksum(
            0x1122_3344_5566_7788,
            0x0102_0304,
            0x0506_0708,
            &[0xa5; BLOCK_SIZE]
        ),
        0x4681_58e2_0c4c_72c4
    );
}

#[test]
fn format_validates_geometry_boundaries() {
    assert!(layout_for(0).is_err());
    assert!(layout_for(BLOCK_SIZE as u64 - 1).is_err());
    assert!(layout_for((MAX_VOLUME_BLOCKS + 1) * BLOCK_SIZE as u64).is_err());

    let (_, layout) = layout_for(BLOCK_SIZE as u64).unwrap();
    assert_eq!(
        backing_blocks_for(&layout, MAX_BACKING_BLOCKS * BLOCK_SIZE as u64).unwrap(),
        MAX_BACKING_BLOCKS
    );
    assert!(backing_blocks_for(&layout, (MAX_BACKING_BLOCKS + 1) * BLOCK_SIZE as u64).is_err());
    assert!(backing_blocks_for(&layout, u64::from(layout.log_start + 2) * 4096 - 1).is_err());
    assert!(backing_blocks_for(&layout, u64::from(layout.log_start + 1) * 4096).is_err());

    assert_eq!(
        Backing::sized(0).format(0).unwrap_err().kind(),
        ErrorKind::InvalidInput
    );
    let mut too_small = Backing::sized(u64::from(layout.log_start + 1) * BLOCK_SIZE as u64);
    assert_eq!(
        too_small.format(BLOCK_SIZE as u64).unwrap_err().kind(),
        ErrorKind::InvalidInput
    );
    let mut misaligned = Backing::sized(u64::from(layout.log_start + 2) * BLOCK_SIZE as u64 - 1);
    assert_eq!(
        misaligned.format(BLOCK_SIZE as u64).unwrap_err().kind(),
        ErrorKind::InvalidInput
    );
}

#[test]
fn geometry_refusals_are_told_apart() {
    let (_, layout) = layout_for(BLOCK_SIZE as u64).unwrap();
    assert_eq!(
        layout_for(BLOCK_SIZE as u64 + 1).unwrap_err(),
        StorageError::InvalidVolumeSize
    );
    assert_eq!(
        backing_blocks_for(&layout, 4097).unwrap_err(),
        StorageError::BackingNotBlockAligned
    );
    assert_eq!(
        backing_blocks_for(&layout, (MAX_BACKING_BLOCKS + 1) * 4096).unwrap_err(),
        StorageError::BackingTooLarge
    );
    assert_eq!(
        backing_blocks_for(&layout, 4096).unwrap_err(),
        StorageError::BackingTooSmall
    );
}

#[test]
fn layout_regions_follow_each_other() {
    let (blocks, layout) = layout_for(1025 * 4096).unwrap();
    assert_eq!(blocks, 1025);
    assert_eq!(layout.physical_map_blocks, 2);
    assert_eq!(layout.checksum_map_blocks, 3);
    assert_eq!(layout.green_physical_map_start, 2);
    assert_eq!(layout.green_checksum_map_start, 4);
    assert_eq!(layout.blue_physical_map_start, 7);
    assert_eq!(layout.blue_checksum_map_start, 9);
    assert_eq!(layout.log_start, 12);
}

#[test]
fn open_reconstructs_empty_volume_and_requires_matching_roots() {
    let volume_blocks = 1025_u32;
    let backing_blocks = 14_u64;
    let mut backing = Backing::sized(backing_blocks * BLOCK_SIZE as u64);
    backing
        .format(u64::from(volume_blocks) * BLOCK_SIZE as u64)
        .unwrap();

    let volume_id = backing.volume_id();
    let blue_descriptor = backing.block(1).to_vec();

    let volume = backing.open().unwrap();
    assert_eq!(volume.volume_id, volume_id);
    assert_eq!(volume.volume_blocks, volume_blocks);
    assert_eq!(volume.volume_blocks(), volume_blocks);
    assert_eq!(volume.backing_blocks, backing_blocks);
    assert_eq!(volume.physical_blocks.len(), volume_blocks as usize);
    assert!(volume.physical_blocks.iter().all(|block| *block == 0));
    assert!(volume.checksums.iter().all(|checksum| *checksum == 0));
    assert_eq!(volume.last_lsn, 0);
    assert_eq!(volume.durable_lsn, 0);
    assert_eq!(volume.checkpoint_lsn, 0);
    assert_eq!(volume.last_footer_block, 11);
    assert_eq!(volume.next_checkpoint_slot, CheckpointSlot::Blue);
    assert_eq!(volume.log_bytes_since_checkpoint, 0);

    backing.bytes[0] ^= 1;
    let volume = backing.open().unwrap();
    assert_eq!(volume.next_checkpoint_slot, CheckpointSlot::Green);

    let mut green = blue_descriptor;
    green[5] = 0;
    green[8] ^= 1;
    seal(&mut green);
    backing.put(0, &green);
    assert_eq!(
        backing.open().err().unwrap().kind(),
        ErrorKind::InvalidData
    );
}

#[test]
fn format_writes_valid_empty_checkpoint_roots() {
    let volume_blocks = 1025_u32;
    let backing_blocks = 14_u64;
    let mut backing = Backing::sized(backing_blocks * BLOCK_SIZE as u64);
    let layout = layout(volume_blocks);
    let checkpoint_bodies = vec![0xa5; (layout.log_start as usize - 2) * BLOCK_SIZE];
    backing.put(2 * BLOCK_SIZE as u64, &checkpoint_bodies);
    backing
        .format(u64::from(volume_blocks) * BLOCK_SIZE as u64)
        .unwrap();

    let volume_id = backing.volume_id();
    let mut descriptors = backing.bytes[..2 * BLOCK_SIZE].to_vec();
    for index in 0..2 {
        let descriptor = &descriptors[index * BLOCK_SIZE..(index + 1) * BLOCK_SIZE];
        assert_eq!(&descriptor[..4], CHECKPOINT_MAGIC);
        assert_eq!(descriptor[4], FORMAT_VERSION);
        assert_eq!(descriptor[5], index as u8);
        assert_eq!(&descriptor[6..8], &[0, 0]);
        assert_eq!(read_u64(descriptor, 8), volume_id);
        assert_eq!(read_u32(descriptor, 16), BLOCK_SIZE as u32);
        assert_eq!(read_u32(descriptor, 20), volume_blocks);
        assert_eq!(read_u64(descriptor, 24), backing_blocks);
        assert_eq!(read_u64(descriptor, 32), 0);
        assert_eq!(read_u32(descriptor, 40), 11);
        assert_eq!(read_u64(descriptor, CHECKPOINT_BODY_CHECKSUM_OFFSET), 0);
        assert!(
            descriptor[CHECKPOINT_BODY_CHECKSUM_OFFSET + 8..DESCRIPTOR_CHECKSUM_OFFSET]
                .iter()
                .all(|byte| *byte == 0)
        );
        assert_sealed(descriptor);
    }

    assert_eq!(
        backing.bytes[2 * BLOCK_SIZE..2 * BLOCK_SIZE + checkpoint_bodies.len()],
        checkpoint_bodies[..]
    );
    let volume = backing.open().unwrap();
    assert_eq!(volume.next_checkpoint_slot, CheckpointSlot::Blue);
    assert!(backing.bytes[12 * BLOCK_SIZE..14 * BLOCK_SIZE]
        .iter()
        .all(|byte| *byte == 0));

    for descriptor in descriptors.chunks_exact_mut(BLOCK_SIZE) {
        descriptor[6] = 1;
        seal(descriptor);
    }
    backing.put(0, &descriptors);
    assert_eq!(
        backing.open().err().unwrap().kind(),
        ErrorKind::InvalidData
    );
}

// Writing and reading.

#[test]
fn direct_io_uring_write_survives_fsync_and_reopen() {
    let mut backing = Backing::sized(BLOCK_SIZE as u64);
    let written = [0xa5; BLOCK_SIZE];
    let write = Request {
        operation: Operation::Write {
            block: 0,
            bytes: written.to_vec(),
        },
        tag: 1,
    };
    assert_eq!(write.expected_result(), BLOCK_SIZE as i32);
    backing.carry_out(&write).unwrap().unwrap();
    let sync = Request {
        operation: Operation::Sync,
        tag: 2,
    };
    assert_eq!(sync.expected_result(), 0);
    backing.carry_out(&sync).unwrap().unwrap();
    let read = Request {
        operation: Operation::Read { block: 0, blocks: 1 },
        tag: 3,
    };
    assert_eq!(read.expected_result(), BLOCK_SIZE as i32);
    assert_eq!(backing.carry_out(&read).unwrap().unwrap(), written);
}

#[test]
fn multiple_lbas_read_correctly_before_and_after_reopen() {
    let (mut backing, _) = formatted(2, 4);
    let expected = [[0xa5; BLOCK_SIZE], [0x5a; BLOCK_SIZE]];
    let mut volume = backing.open().unwrap();
    for (lba, block) in expected.iter().enumerate() {
        backing.write(&mut volume, lba as u32, block).unwrap();
    }
    for (lba, block) in expected.iter().enumerate() {
        assert_eq!(backing.read(&mut volume, lba as u32).unwrap(), block);
    }
    backing.close(&mut volume).unwrap();

    let mut volume = backing.open().unwrap();
    for (lba, block) in expected.iter().enumerate() {
        assert_eq!(backing.read(&mut volume, lba as u32).unwrap(), block);
    }
    backing.close(&mut volume).unwrap();
}

#[test]
fn repeated_overwrite_returns_only_latest_value() {
    let (mut backing, _) = formatted(1, 6);
    let mut volume = backing.open().unwrap();
    let values = [[0xa5; BLOCK_SIZE], [0x5a; BLOCK_SIZE], [0xc3; BLOCK_SIZE]];
    for expected in values {
        backing.write(&mut volume, 0, &expected).unwrap();
        assert_eq!(backing.read(&mut volume, 0).unwrap(), expected);
    }
    backing.flush(&mut volume).unwrap();
    backing.close(&mut volume).unwrap();

    let mut volume = backing.open().unwrap();
    assert_eq!(backing.read(&mut volume, 0).unwrap(), values[2]);
    backing.close(&mut volume).unwrap();
}

#[test]
fn overwriting_lba_with_zeroes_returns_zeroes_before_and_after_reopen() {
    let (mut backing, _) = formatted(1, 4);
    let mut volume = backing.open().unwrap();
    backing.write(&mut volume, 0, &[0xa5; BLOCK_SIZE]).unwrap();
    backing.write(&mut volume, 0, &[0; BLOCK_SIZE]).unwrap();
    assert_eq!(backing.read(&mut volume, 0).unwrap(), [0; BLOCK_SIZE]);
    backing.close(&mut volume).unwrap();

    let mut volume = backing.open().unwrap();
    assert_eq!(backing.read(&mut volume, 0).unwrap(), [0; BLOCK_SIZE]);
    backing.close(&mut volume).unwrap();
}

#[test]
fn raw_footer_linkage_and_lsns_are_contiguous() {
    let (mut backing, _) = formatted(1, 6);
    let mut volume = backing.open().unwrap();
    let initial_footer_block = volume.last_footer_block;

    for byte in [0xa5, 0x5a, 0xc3] {
        backing.write(&mut volume, 0, &[byte; BLOCK_SIZE]).unwrap();
    }

    let mut previous_footer_block = initial_footer_block;
    for lsn in 1..=3 {
        let footer_block = previous_footer_block + 2;
        let footer = backing.block(footer_block);
        assert_eq!(read_u64(footer, 16), lsn);
        assert_eq!(read_u32(footer, 24), previous_footer_block);
        assert_eq!(read_u32(footer, 28), footer_block);
        previous_footer_block = footer_block;
    }
}

#[test]
fn log_full_write_leaves_last_successful_value_readable_after_reopen() {
    let (mut backing, layout) = formatted(1, 2);
    let expected = [0xa5; BLOCK_SIZE];
    let mut volume = backing.open().unwrap();
    backing.write(&mut volume, 0, &expected).unwrap();
    let before = cursors(&volume);
    let log_start = layout.log_start as usize * BLOCK_SIZE;
    let log_bytes = backing.bytes[log_start..log_start + 2 * BLOCK_SIZE].to_vec();

    let error = backing
        .write(&mut volume, 0, &[0x5a; BLOCK_SIZE])
        .unwrap_err();
    assert_eq!(error.raw_os_error(), Some(28));
    assert_eq!(error, StorageError::NoSpace);
    assert_eq!(error.kind(), ErrorKind::StorageFull);

    assert_eq!(cursors(&volume), before);
    assert_eq!(
        backing.bytes[log_start..log_start + 2 * BLOCK_SIZE],
        log_bytes[..]
    );
    assert_eq!(backing.read(&mut volume, 0).unwrap(), expected);
    backing.close(&mut volume).unwrap();

    let mut volume = backing.open().unwrap();
    assert_eq!(backing.read(&mut volume, 0).unwrap(), expected);
    backing.close(&mut volume).unwrap();
}

#[test]
fn out_of_range_write_leaves_mapping_and_cursors_unchanged() {
    let (mut backing, _) = formatted(1, 4);
    let mut volume = backing.open().unwrap();
    let expected = [0xa5; BLOCK_SIZE];
    backing.write(&mut volume, 0, &expected).unwrap();
    backing.flush(&mut volume).unwrap();
    let before = cursors(&volume);

    let out_of_range = volume.volume_blocks;
    let error = backing
        .write(&mut volume, out_of_range, &[0x5a; BLOCK_SIZE])
        .unwrap_err();
    assert_eq!(error.kind(), ErrorKind::InvalidInput);
    assert_eq!(error, StorageError::InvalidLogicalBlock);
    assert_eq!(cursors(&volume), before);
    assert_eq!(backing.read(&mut volume, 0).unwrap(), expected);
}

#[test]
fn write_block_appends_complete_raw_record_and_publishes_mapping() {
    let (mut backing, _) = formatted(2, 2);
    let mut volume = backing.open().unwrap();

    let lba = 1_u32;
    let payload = [0xa5; BLOCK_SIZE];
    let previous_footer_block = volume.last_footer_block;
    let payload_block = previous_footer_block + 1;
    let footer_block = payload_block + 1;
    backing.write(&mut volume, lba, &payload).unwrap();

    assert_eq!(backing.block(payload_block), &payload);
    let footer = backing.block(footer_block);
    assert_eq!(&footer[..4], FOOTER_MAGIC);
    assert_eq!(&footer[4..8], &[FORMAT_VERSION, RECORD_KIND_WRITE, 0, 0]);
    assert_eq!(read_u64(footer, 8), volume.volume_id);
    assert_eq!(read_u64(footer, 16), 1);
    assert_eq!(read_u32(footer, 24), previous_footer_block);
    assert_eq!(read_u32(footer, 28), footer_block);
    assert_eq!(read_u32(footer, FOOTER_LBA_OFFSET), lba);
    let expected_payload_checksum =
        seeded_checksum(volume.volume_id, lba, payload_block, &payload);
    assert_eq!(
        read_u64(footer, FOOTER_PAYLOAD_CHECKSUM_OFFSET),
        expected_payload_checksum
    );
    assert!(
        footer[FOOTER_LBA_OFFSET + 4..FOOTER_PAYLOAD_CHECKSUM_OFFSET]
            .iter()
            .all(|byte| *byte == 0)
    );
    assert!(
        footer[FOOTER_PAYLOAD_CHECKSUM_OFFSET + 8..FOOTER_CHECKSUM_OFFSET]
            .iter()
            .all(|byte| *byte == 0)
    );
    assert_sealed(footer);

    assert_eq!(volume.physical_blocks, [0, payload_block]);
    assert_eq!(volume.checksums, [0, expected_payload_checksum]);
    assert_eq!(volume.last_lsn, 1);
    assert_eq!(volume.durable_lsn, 0);
    assert_eq!(volume.last_footer_block, footer_block);
    assert_eq!(volume.log_bytes_since_checkpoint, (2 * BLOCK_SIZE) as u64);
}

#[test]
fn failed_write_is_not_published() {
    let (mut backing, _) = formatted(1, 2);
    let mut volume = backing.open().unwrap();
    backing.writable = false;

    let initial_footer_block = volume.last_footer_block;
    let error = backing
        .write(&mut volume, 0, &[0xa5; BLOCK_SIZE])
        .unwrap_err();
    assert_eq!(error.raw_os_error(), Some(9));
    assert_eq!(error, StorageError::Io(IoFailure::Os(9)));
    assert_eq!(volume.physical_blocks, [0]);
    assert_eq!(volume.checksums, [0]);
    assert_eq!(volume.last_lsn, 0);
    assert_eq!(volume.durable_lsn, 0);
    assert_eq!(volume.last_footer_block, initial_footer_block);
    assert_eq!(volume.log_bytes_since_checkpoint, 0);

    assert_eq!(
        backing.read(&mut volume, 0).unwrap_err().message(),
        "volume failed"
    );
    assert_eq!(
        backing
            .write(&mut volume, 0, &[0; BLOCK_SIZE])
            .unwrap_err()
            .message(),
        "volume failed"
    );
    assert_eq!(
        backing.flush(&mut volume).unwrap_err().message(),
        "volume failed"
    );
    assert_eq!(
        backing.close(&mut volume).unwrap_err().message(),
        "volume failed"
    );
}

#[test]
fn public_operations_complete_v0_4_acceptance() {
    let volume_blocks = 2_u32;
    let (mut backing, layout) = formatted(volume_blocks, 2);

    let mut expected = [0; BLOCK_SIZE];
    for (index, byte) in expected.iter_mut().enumerate() {
        *byte = index as u8;
    }
    {
        let mut volume = backing.open().unwrap();
        assert_eq!(backing.read(&mut volume, 0).unwrap(), [0; BLOCK_SIZE]);
        assert_eq!(
            backing.read(&mut volume, volume_blocks).unwrap_err().kind(),
            ErrorKind::InvalidInput
        );

        backing.write(&mut volume, 1, &expected).unwrap();
        assert_eq!(backing.read(&mut volume, 1).unwrap(), expected);
        backing.flush(&mut volume).unwrap();
        backing.close(&mut volume).unwrap();
    }
    {
        let mut volume = backing.open().unwrap();
        assert_eq!(backing.read(&mut volume, 1).unwrap(), expected);
        backing.close(&mut volume).unwrap();
    }

    backing.put(
        u64::from(layout.log_start) * BLOCK_SIZE as u64,
        &[expected[0] ^ 0xff],
    );
    let mut volume = backing.open().unwrap();
    let error = backing.read(&mut volume, 1).unwrap_err();
    assert_eq!(error.kind(), ErrorKind::InvalidData);
    assert_eq!(error, StorageError::PayloadChecksumMismatch);
}

// Checkpoints and replay.

#[test]
fn clean_checkpoint_maps_each_lba_to_latest_payload_and_checksum() {
    let (mut backing, layout) = formatted(2, 6);
    let mut volume = backing.open().unwrap();
    let volume_id = volume.volume_id;
    backing.write(&mut volume, 0, &[0xa5; BLOCK_SIZE]).unwrap();
    backing.write(&mut volume, 1, &[0x5a; BLOCK_SIZE]).unwrap();
    backing.write(&mut volume, 0, &[0xc3; BLOCK_SIZE]).unwrap();
    backing.close(&mut volume).unwrap();

    let start = layout.blue_physical_map_start as usize * BLOCK_SIZE;
    let body = backing.bytes[start..start + 2 * BLOCK_SIZE].to_vec();
    let expected = [
        (layout.log_start + 4, [0xc3; BLOCK_SIZE]),
        (layout.log_start + 2, [0x5a; BLOCK_SIZE]),
    ];
    for (lba, (expected_physical_block, expected_payload)) in expected.iter().enumerate() {
        let physical_block = read_u32(&body, lba * 4);
        assert_eq!(physical_block, *expected_physical_block);
        let payload = backing.block(physical_block);
        assert_eq!(payload, expected_payload);
        assert_eq!(
            read_u64(&body, BLOCK_SIZE + lba * 8),
            seeded_checksum(volume_id, lba as u32, physical_block, payload)
        );
    }
}

struct CheckpointFallbackFixture {
    backing: Backing,
    newest: Checkpoint,
    older_lsn: u64,
    last_lsn: u64,
    expected: [[u8; BLOCK_SIZE]; 3],
}

fn body_start(checkpoint: &Checkpoint) -> u32 {
    match checkpoint.slot {
        CheckpointSlot::Green => checkpoint.layout.green_physical_map_start,
        CheckpointSlot::Blue => checkpoint.layout.blue_physical_map_start,
    }
}

fn prepare_checkpoint_fallback_fixture() -> CheckpointFallbackFixture {
    let (mut backing, _) = formatted(3, 64);
    let backing_bytes = backing.len();

    let mut volume = backing.open().unwrap();
    backing.write(&mut volume, 0, &[0xa5; BLOCK_SIZE]).unwrap();
    backing.write(&mut volume, 1, &[0x5a; BLOCK_SIZE]).unwrap();
    backing.close(&mut volume).unwrap();

    let mut volume = backing.open().unwrap();
    backing.write(&mut volume, 0, &[0xc3; BLOCK_SIZE]).unwrap();
    backing.write(&mut volume, 2, &[0x3c; BLOCK_SIZE]).unwrap();
    backing.close(&mut volume).unwrap();

    let expected = [[0xd4; BLOCK_SIZE], [0xe7; BLOCK_SIZE], [0x7e; BLOCK_SIZE]];
    let mut volume = backing.open().unwrap();
    for (lba, value) in expected.iter().enumerate() {
        backing.write(&mut volume, lba as u32, value).unwrap();
    }
    backing.flush(&mut volume).unwrap();
    let last_lsn = volume.last_lsn;

    let green = decode_checkpoint(backing.block(0), CheckpointSlot::Green, backing_bytes)
        .expect("green checkpoint descriptor must be valid before corruption");
    let blue = decode_checkpoint(backing.block(1), CheckpointSlot::Blue, backing_bytes)
        .expect("blue checkpoint descriptor must be valid before corruption");
    assert!(green.checkpoint_lsn > blue.checkpoint_lsn);
    assert_eq!(last_lsn, green.checkpoint_lsn + expected.len() as u64);

    for checkpoint in [&green, &blue] {
        let body_blocks =
            checkpoint.layout.physical_map_blocks + checkpoint.layout.checksum_map_blocks;
        let start = body_start(checkpoint) as usize * BLOCK_SIZE;
        let body = &backing.bytes[start..start + body_blocks as usize * BLOCK_SIZE];
        assert_eq!(xxh3_64(body), checkpoint.body_checksum);
    }

    CheckpointFallbackFixture {
        backing,
        older_lsn: blue.checkpoint_lsn,
        newest: green,
        last_lsn,
        expected,
    }
}

fn verify_checkpoint_fallback(fixture: &mut CheckpointFallbackFixture) {
    let mut volume = fixture.backing.open().unwrap();
    assert_eq!(volume.checkpoint_lsn, fixture.older_lsn);
    assert_eq!(volume.last_lsn, fixture.last_lsn);
    for (lba, expected) in fixture.expected.iter().enumerate() {
        let actual = fixture.backing.read(&mut volume, lba as u32).unwrap();
        assert_eq!(&actual, expected);
    }
    fixture.backing.close(&mut volume).unwrap();
}

#[test]
fn falls_back_from_corrupted_newest_descriptor_and_replays_tail() {
    let mut fixture = prepare_checkpoint_fallback_fixture();
    assert_eq!(fixture.newest.slot.index(), 0);
    let offset = fixture.newest.slot.index() as usize * BLOCK_SIZE + 100;
    fixture.backing.bytes[offset] ^= 0xff;
    verify_checkpoint_fallback(&mut fixture);
}

#[test]
fn falls_back_from_corrupted_newest_checkpoint_body_and_replays_tail() {
    let mut fixture = prepare_checkpoint_fallback_fixture();
    let offset = body_start(&fixture.newest) as usize * BLOCK_SIZE + 100;
    fixture.backing.bytes[offset] ^= 0xff;
    verify_checkpoint_fallback(&mut fixture);
}

#[test]
fn rejects_two_unusable_checkpoint_roots_without_panic_or_mutation() {
    let mut fixture = prepare_checkpoint_fallback_fixture();
    let newest_descriptor_offset = fixture.newest.slot.index() as usize * BLOCK_SIZE + 100;
    let older_body_start = match fixture.newest.slot {
        CheckpointSlot::Green => fixture.newest.layout.blue_physical_map_start,
        CheckpointSlot::Blue => fixture.newest.layout.green_physical_map_start,
    };
    let older_body_offset = older_body_start as usize * BLOCK_SIZE + 100;
    for offset in [newest_descriptor_offset, older_body_offset] {
        fixture.backing.bytes[offset] ^= 0xff;
    }

    let corrupted = fixture.backing.bytes.clone();
    for _ in 0..2 {
        let error = fixture.backing.open().err().unwrap();
        assert_eq!(error.kind(), ErrorKind::InvalidData);
        assert_eq!(error, StorageError::NoValidCheckpointBody);
        assert!(fixture.backing.bytes == corrupted);
    }
}

#[test]
fn reconstructs_every_recovery_cursor_from_replayed_state() {
    let volume_blocks = 4_u32;
    let (mut backing, _) = formatted(volume_blocks, 64);
    let backing_bytes = backing.len();

    let mut volume = backing.open().unwrap();
    backing.write(&mut volume, 0, &[0xa5; BLOCK_SIZE]).unwrap();
    backing.write(&mut volume, 1, &[0x5a; BLOCK_SIZE]).unwrap();
    backing.close(&mut volume).unwrap();

    let green = decode_checkpoint(backing.block(0), CheckpointSlot::Green, backing_bytes)
        .expect("green checkpoint descriptor must remain valid");
    let blue = decode_checkpoint(backing.block(1), CheckpointSlot::Blue, backing_bytes)
        .expect("blue checkpoint descriptor must remain valid");
    let selected_checkpoint = if green.checkpoint_lsn > blue.checkpoint_lsn {
        green
    } else {
        blue
    };
    assert_eq!(selected_checkpoint.checkpoint_lsn, 2);

    let checkpoint_footer = selected_checkpoint.last_footer_block;
    let id = selected_checkpoint.volume_id;
    backing.write_raw_record_payloads(id, 3, checkpoint_footer, &[(0, 0xc3)]);
    let second_footer = checkpoint_footer + 2;
    backing.write_raw_record_payloads(id, 4, second_footer, &[(2, 0x3c), (1, 0xe7), (3, 0x7e)]);
    let third_footer = second_footer + 4;
    backing.write_raw_record_payloads(id, 5, third_footer, &[(2, 0xd4)]);

    let final_footer = third_footer + 2;
    let append_block = final_footer + 1;
    let replayed_blocks = u64::from(final_footer - checkpoint_footer);
    let expected = [
        (checkpoint_footer + 1, 0xc3),
        (second_footer + 2, 0xe7),
        (third_footer + 1, 0xd4),
        (second_footer + 3, 0x7e),
    ];

    let mut volume = backing.open().unwrap();
    assert_eq!(volume.last_lsn, 5);
    assert_eq!(volume.last_footer_block, final_footer);
    assert_eq!(volume.durable_lsn, 5);
    assert_eq!(volume.checkpoint_lsn, selected_checkpoint.checkpoint_lsn);
    assert_eq!(
        volume.log_bytes_since_checkpoint,
        replayed_blocks * BLOCK_SIZE as u64
    );
    assert_eq!(volume.last_footer_block + 1, append_block);
    assert_eq!(
        volume.next_checkpoint_slot,
        selected_checkpoint.slot.opposite()
    );

    for (lba, &(physical_block, byte)) in expected.iter().enumerate() {
        let payload = [byte; BLOCK_SIZE];
        assert_eq!(volume.physical_blocks[lba], physical_block);
        assert_eq!(
            volume.checksums[lba],
            payload_checksum(id, lba as u32, physical_block, &payload)
        );
        assert_eq!(backing.read(&mut volume, lba as u32).unwrap(), payload);
    }
}

#[test]
fn rejects_invalid_checkpoint_after_bytes_before_touching_backing() {
    const MINIMUM_CHECKPOINT_AFTER_BYTES: u64 = 339 * 4096;

    assert_eq!(
        MINIMUM_CHECKPOINT_AFTER_BYTES,
        MAXIMUM_RECORD_BLOCKS * BLOCK_SIZE as u64
    );
    assert_eq!(
        VolumeOpenOptions::default().checkpoint_after_bytes,
        64 * 1024 * 1024
    );

    let (mut backing, layout) = formatted(1, MAXIMUM_RECORD_BLOCKS as u32);
    backing.put(
        u64::from(layout.log_start) * BLOCK_SIZE as u64,
        &[0xa5; BLOCK_SIZE],
    );
    let original_bytes = backing.bytes.clone();

    let invalid_values = [
        0,
        MINIMUM_CHECKPOINT_AFTER_BYTES - BLOCK_SIZE as u64,
        MINIMUM_CHECKPOINT_AFTER_BYTES - BLOCK_SIZE as u64 + 1,
        MINIMUM_CHECKPOINT_AFTER_BYTES - 1,
        MINIMUM_CHECKPOINT_AFTER_BYTES + 1,
        VolumeOpenOptions::default().checkpoint_after_bytes - 1,
        VolumeOpenOptions::default().checkpoint_after_bytes + 1,
    ];
    for checkpoint_after_bytes in invalid_values {
        let options = VolumeOpenOptions {
            checkpoint_after_bytes,
        };
        assert!(!options.is_valid());
        let error = backing.open_with_options(options).err().unwrap();
        assert_eq!(error.kind(), ErrorKind::InvalidInput);
        assert_eq!(error, StorageError::InvalidCheckpointAfterBytes);
        assert!(backing.bytes == original_bytes);
    }

    let minimum = VolumeOpenOptions {
        checkpoint_after_bytes: MINIMUM_CHECKPOINT_AFTER_BYTES,
    };
    let volume = backing.open_with_options(minimum).unwrap();
    assert_eq!(
        volume.checkpoint_after_bytes,
        MINIMUM_CHECKPOINT_AFTER_BYTES
    );

    let volume = backing
        .open_with_options(VolumeOpenOptions::default())
        .unwrap();
    assert_eq!(volume.checkpoint_after_bytes, 64 * 1024 * 1024);
}

fn assert_body_matches(
    backing: &Backing,
    start: u32,
    physical_blocks: &[u32],
    checksums: &[u64],
    descriptor: u32,
) {
    let start = start as usize * BLOCK_SIZE;
    let body = &backing.bytes[start..start + 2 * BLOCK_SIZE];
    for lba in 0..physical_blocks.len() {
        assert_eq!(read_u32(body, lba * 4), physical_blocks[lba]);
        assert_eq!(read_u64(body, BLOCK_SIZE + lba * 8), checksums[lba]);
    }
    assert_eq!(
        read_u64(backing.block(descriptor), CHECKPOINT_BODY_CHECKSUM_OFFSET),
        xxh3_64(body)
    );
}

#[test]
fn checkpoints_before_write_exceeding_replay_bound() {
    const CHECKPOINT_BLOCKS: u64 = 340;
    const FIRST_BOUND_LSN: u64 = CHECKPOINT_BLOCKS / 2;
    const SECOND_BOUND_LSN: u64 = FIRST_BOUND_LSN * 2;

    let volume_blocks = 2_u32;
    let (mut backing, layout) = formatted(volume_blocks, 800);
    let options = VolumeOpenOptions {
        checkpoint_after_bytes: CHECKPOINT_BLOCKS * BLOCK_SIZE as u64,
    };
    let mut volume = backing.open_with_options(options).unwrap();

    for lsn in 1..=FIRST_BOUND_LSN {
        let lba = (lsn % u64::from(volume_blocks)) as u32;
        backing
            .write(&mut volume, lba, &[lsn as u8; BLOCK_SIZE])
            .unwrap();
    }
    assert_eq!(volume.checkpoint_lsn, 0);
    assert_eq!(volume.last_lsn, FIRST_BOUND_LSN);
    assert_eq!(
        volume.log_bytes_since_checkpoint,
        options.checkpoint_after_bytes
    );
    assert_eq!(volume.next_checkpoint_slot, CheckpointSlot::Blue);

    let descriptors = backing.bytes[..2 * BLOCK_SIZE].to_vec();
    assert_eq!(read_u64(&descriptors[BLOCK_SIZE..], 32), 0);
    let exact_footer = volume.last_footer_block;
    let exact_physical_blocks = volume.physical_blocks.clone();
    let exact_checksums = volume.checksums.clone();

    assert_eq!(
        backing
            .write(&mut volume, volume_blocks, &[0xff; BLOCK_SIZE])
            .unwrap_err()
            .kind(),
        ErrorKind::InvalidInput
    );
    assert_eq!(backing.bytes[..2 * BLOCK_SIZE], descriptors[..]);
    assert_eq!(volume.checkpoint_lsn, 0);
    assert_eq!(
        volume.log_bytes_since_checkpoint,
        options.checkpoint_after_bytes
    );

    backing
        .write(&mut volume, 1, &[(FIRST_BOUND_LSN + 1) as u8; BLOCK_SIZE])
        .unwrap();
    assert_eq!(volume.last_lsn, FIRST_BOUND_LSN + 1);
    assert_eq!(volume.durable_lsn, FIRST_BOUND_LSN);
    assert_eq!(volume.checkpoint_lsn, FIRST_BOUND_LSN);
    assert_eq!(volume.last_footer_block, exact_footer + 2);
    assert_eq!(volume.log_bytes_since_checkpoint, (2 * BLOCK_SIZE) as u64);
    assert_eq!(volume.next_checkpoint_slot, CheckpointSlot::Green);
    assert_ne!(volume.physical_blocks[1], exact_physical_blocks[1]);

    assert_eq!(read_u64(backing.block(1), 32), FIRST_BOUND_LSN);
    assert_eq!(read_u32(backing.block(1), 40), exact_footer);
    assert_body_matches(
        &backing,
        layout.blue_physical_map_start,
        &exact_physical_blocks,
        &exact_checksums,
        1,
    );

    for lsn in FIRST_BOUND_LSN + 2..=SECOND_BOUND_LSN {
        let lba = (lsn % u64::from(volume_blocks)) as u32;
        backing
            .write(&mut volume, lba, &[lsn as u8; BLOCK_SIZE])
            .unwrap();
    }
    assert_eq!(volume.checkpoint_lsn, FIRST_BOUND_LSN);
    assert_eq!(
        volume.log_bytes_since_checkpoint,
        options.checkpoint_after_bytes
    );
    assert_eq!(volume.next_checkpoint_slot, CheckpointSlot::Green);
    let second_footer = volume.last_footer_block;
    let second_physical_blocks = volume.physical_blocks.clone();
    let second_checksums = volume.checksums.clone();

    backing
        .write(&mut volume, 1, &[(SECOND_BOUND_LSN + 1) as u8; BLOCK_SIZE])
        .unwrap();
    assert_eq!(volume.last_lsn, SECOND_BOUND_LSN + 1);
    assert_eq!(volume.durable_lsn, SECOND_BOUND_LSN);
    assert_eq!(volume.checkpoint_lsn, SECOND_BOUND_LSN);
    assert_eq!(volume.last_footer_block, second_footer + 2);
    assert_eq!(volume.log_bytes_since_checkpoint, (2 * BLOCK_SIZE) as u64);
    assert_eq!(volume.next_checkpoint_slot, CheckpointSlot::Blue);

    assert_eq!(read_u64(backing.block(0), 32), SECOND_BOUND_LSN);
    assert_eq!(read_u32(backing.block(0), 40), second_footer);
    assert_body_matches(
        &backing,
        layout.green_physical_map_start,
        &second_physical_blocks,
        &second_checksums,
        0,
    );

    drop(volume);
    let mut reopened = backing.open_with_options(options).unwrap();
    assert_eq!(reopened.last_lsn, SECOND_BOUND_LSN + 1);
    assert_eq!(reopened.durable_lsn, SECOND_BOUND_LSN + 1);
    assert_eq!(reopened.checkpoint_lsn, SECOND_BOUND_LSN);
    assert_eq!(reopened.last_footer_block, second_footer + 2);
    assert_eq!(reopened.log_bytes_since_checkpoint, (2 * BLOCK_SIZE) as u64);
    assert_eq!(reopened.next_checkpoint_slot, CheckpointSlot::Blue);
    assert_eq!(
        backing.read(&mut reopened, 0).unwrap(),
        [SECOND_BOUND_LSN as u8; BLOCK_SIZE]
    );
    assert_eq!(
        backing.read(&mut reopened, 1).unwrap(),
        [(SECOND_BOUND_LSN + 1) as u8; BLOCK_SIZE]
    );
}

#[test]
fn log_full_write_does_not_publish_live_checkpoint() {
    const CHECKPOINT_BLOCKS: u64 = 340;

    let (mut backing, _) = formatted(1, CHECKPOINT_BLOCKS as u32);
    let options = VolumeOpenOptions {
        checkpoint_after_bytes: CHECKPOINT_BLOCKS * BLOCK_SIZE as u64,
    };
    let mut volume = backing.open_with_options(options).unwrap();
    for lsn in 1..=CHECKPOINT_BLOCKS / 2 {
        backing
            .write(&mut volume, 0, &[lsn as u8; BLOCK_SIZE])
            .unwrap();
    }

    let state = cursors(&volume);
    let descriptors = backing.bytes[..2 * BLOCK_SIZE].to_vec();
    assert_eq!(
        backing
            .write(&mut volume, 0, &[0xff; BLOCK_SIZE])
            .unwrap_err()
            .raw_os_error(),
        Some(28)
    );
    assert_eq!(cursors(&volume), state);
    assert_eq!(backing.bytes[..2 * BLOCK_SIZE], descriptors[..]);
    assert_eq!(
        backing.read(&mut volume, 0).unwrap(),
        [(CHECKPOINT_BLOCKS / 2) as u8; BLOCK_SIZE]
    );
}

#[test]
fn flush_advances_durable_lsn() {
    let (mut backing, _) = formatted(1, 2);
    let mut volume = backing.open().unwrap();
    backing.write(&mut volume, 0, &[0xa5; BLOCK_SIZE]).unwrap();
    assert_eq!(volume.durable_lsn, 0);
    backing.flush(&mut volume).unwrap();
    assert_eq!(volume.durable_lsn, volume.last_lsn);
}

#[test]
fn close_persists_clean_checkpoint_body_and_descriptor() {
    let (mut backing, layout) = formatted(2, 2);
    let mut volume = backing.open().unwrap();
    let volume_id = volume.volume_id;
    let payload = [0xa5; BLOCK_SIZE];
    let payload_block = volume.last_footer_block + 1;
    let footer_block = payload_block + 1;
    let lba = 1_u32;
    backing.write(&mut volume, lba, &payload).unwrap();
    backing.close(&mut volume).unwrap();

    let start = layout.blue_physical_map_start as usize * BLOCK_SIZE;
    let body = backing.bytes[start..start + 2 * BLOCK_SIZE].to_vec();
    assert_eq!(read_u32(&body, 0), 0);
    assert_eq!(read_u32(&body, 4), payload_block);
    assert!(body[8..BLOCK_SIZE].iter().all(|byte| *byte == 0));

    let payload_checksum = seeded_checksum(volume_id, lba, payload_block, &payload);
    assert_eq!(read_u64(&body, BLOCK_SIZE), 0);
    assert_eq!(read_u64(&body, BLOCK_SIZE + 8), payload_checksum);
    assert!(body[BLOCK_SIZE + 16..].iter().all(|byte| *byte == 0));

    let descriptor = backing.block(1);
    assert_eq!(&descriptor[..4], CHECKPOINT_MAGIC);
    assert_eq!(&descriptor[4..8], &[FORMAT_VERSION, 1, 0, 0]);
    assert_eq!(read_u64(descriptor, 8), volume_id);
    assert_eq!(read_u64(descriptor, 32), 1);
    assert_eq!(read_u32(descriptor, 40), footer_block);
    assert_eq!(
        read_u64(descriptor, CHECKPOINT_BODY_CHECKSUM_OFFSET),
        xxh3_64(&body)
    );
    assert!(
        descriptor[CHECKPOINT_BODY_CHECKSUM_OFFSET + 8..DESCRIPTOR_CHECKSUM_OFFSET]
            .iter()
            .all(|byte| *byte == 0)
    );
    assert_sealed(descriptor);

    let reopened = backing.open().unwrap();
    assert_eq!(reopened.physical_blocks, [0, payload_block]);
    assert_eq!(reopened.checksums, [0, payload_checksum]);
    assert_eq!(reopened.last_lsn, 1);
    assert_eq!(reopened.durable_lsn, 1);
    assert_eq!(reopened.checkpoint_lsn, 1);
    assert_eq!(reopened.last_footer_block, footer_block);
    assert_eq!(reopened.next_checkpoint_slot, CheckpointSlot::Green);
}

#[test]
fn close_without_mapping_changes_does_not_publish_checkpoint() {
    let (mut backing, _) = formatted(1, 2);

    let before = backing.bytes[..2 * BLOCK_SIZE].to_vec();
    let mut volume = backing.open().unwrap();
    backing.close(&mut volume).unwrap();
    assert_eq!(backing.bytes[..2 * BLOCK_SIZE], before[..]);

    let mut volume = backing.open().unwrap();
    backing.write(&mut volume, 0, &[0xa5; BLOCK_SIZE]).unwrap();
    backing.close(&mut volume).unwrap();
    let before = backing.bytes[..2 * BLOCK_SIZE].to_vec();
    let mut volume = backing.open().unwrap();
    backing.close(&mut volume).unwrap();
    assert_eq!(backing.bytes[..2 * BLOCK_SIZE], before[..]);
}

#[test]
fn equal_lsn_checkpoints_require_equivalent_mapping() {
    let (mut backing, layout) = formatted(1, 2);
    let mut volume = backing.open().unwrap();
    backing.write(&mut volume, 0, &[0xa5; BLOCK_SIZE]).unwrap();
    backing.close(&mut volume).unwrap();

    let start = layout.blue_physical_map_start as usize * BLOCK_SIZE;
    let body = backing.bytes[start..start + 2 * BLOCK_SIZE].to_vec();
    backing.put(
        u64::from(layout.green_physical_map_start) * BLOCK_SIZE as u64,
        &body,
    );
    let mut green = backing.block(1).to_vec();
    green[5] = CheckpointSlot::Green.index();
    seal(&mut green);
    backing.put(0, &green);

    let volume = backing.open().unwrap();
    assert_eq!(volume.next_checkpoint_slot, CheckpointSlot::Blue);

    green[CHECKPOINT_BODY_CHECKSUM_OFFSET] ^= 1;
    seal(&mut green);
    backing.put(0, &green);
    let error = backing.open().err().unwrap();
    assert_eq!(error.kind(), ErrorKind::InvalidData);
    assert_eq!(error, StorageError::EqualLsnRootsDisagree);
}

#[test]
fn published_checkpoint_is_what_the_next_open_starts_from() {
    let (mut backing, _) = formatted(2, 8);
    let mut volume = backing.open().unwrap();
    backing.write(&mut volume, 0, &[0x11; BLOCK_SIZE]).unwrap();
    let request = volume.publish_checkpoint().unwrap();
    backing.drive(&mut volume, request).unwrap().unwrap();
    assert!(volume.is_idle());
    assert_eq!(volume.checkpoint_lsn, 1);
    assert_eq!(volume.next_checkpoint_slot, CheckpointSlot::Green);
    assert_eq!(volume.log_bytes_since_checkpoint, 0);
    let mut reopened = backing.open().unwrap();
    assert_eq!(reopened.checkpoint_lsn, 1);
    assert_eq!(
        backing.read(&mut reopened, 0).unwrap(),
        [0x11; BLOCK_SIZE]
    );
}

// Stale tails.

#[test]
fn recovery_accepts_every_format_one_payload_count() {
    let volume_blocks = MAXIMUM_PAYLOAD_BLOCKS as u32;
    let layout = layout(volume_blocks);
    let record_blocks = (1..=MAXIMUM_PAYLOAD_BLOCKS as u64)
        .map(|payload_blocks| payload_blocks + 1)
        .sum::<u64>();
    let backing_blocks = u64::from(layout.log_start) + record_blocks + MAXIMUM_RECORD_BLOCKS;
    let mut backing = Backing::sized(backing_blocks * BLOCK_SIZE as u64);
    backing
        .format(u64::from(volume_blocks) * BLOCK_SIZE as u64)
        .unwrap();
    let volume_id = backing.volume_id();

    let mut previous_footer_block = layout.log_start - 1;
    for payload_count in 1..=MAXIMUM_PAYLOAD_BLOCKS {
        let payloads = (0..payload_count)
            .map(|index| (index as u32, ((payload_count + index) % 251 + 1) as u8))
            .collect::<Vec<_>>();
        backing.write_raw_record_payloads(
            volume_id,
            payload_count as u64,
            previous_footer_block,
            &payloads,
        );
        previous_footer_block += payload_count as u32 + 1;
    }

    let mut volume = backing.open().unwrap();
    assert_eq!(volume.last_lsn, MAXIMUM_PAYLOAD_BLOCKS as u64);
    assert_eq!(volume.last_footer_block, previous_footer_block);
    assert_eq!(
        volume.log_bytes_since_checkpoint,
        record_blocks * BLOCK_SIZE as u64
    );
    for lba in 0..volume_blocks {
        let byte = ((MAXIMUM_PAYLOAD_BLOCKS + lba as usize) % 251 + 1) as u8;
        assert_eq!(backing.read(&mut volume, lba).unwrap(), [byte; BLOCK_SIZE]);
    }
}

fn prepare_footer_rejection_image(backing_blocks: u64) -> (Backing, Layout, u64) {
    let volume_blocks = 4_u32;
    let layout = layout(volume_blocks);
    let mut backing = Backing::sized(backing_blocks * BLOCK_SIZE as u64);
    backing
        .format(u64::from(volume_blocks) * BLOCK_SIZE as u64)
        .unwrap();
    let volume_id = backing.volume_id();
    backing.write_raw_record(
        volume_id,
        1,
        layout.log_start - 1,
        layout.log_start,
        0,
        0xa5,
    );
    (backing, layout, volume_id)
}

fn verify_recovery_stops_before_invalid_footer(backing: &mut Backing, clear_start: u32) {
    let mut volume = backing.open().unwrap();
    assert_eq!(volume.last_lsn, 1);
    assert_eq!(volume.durable_lsn, 1);
    assert_eq!(volume.last_footer_block + 1, clear_start);
    assert_eq!(volume.log_bytes_since_checkpoint, (2 * BLOCK_SIZE) as u64);
    assert_eq!(volume.physical_blocks, [clear_start - 2, 0, 0, 0]);
    assert_eq!(volume.checksums[1..], [0, 0, 0]);

    assert_eq!(backing.read(&mut volume, 0).unwrap(), [0xa5; BLOCK_SIZE]);
    for lba in 1..4 {
        assert_eq!(backing.read(&mut volume, lba).unwrap(), [0; BLOCK_SIZE]);
    }
}

fn assert_zero_blocks(backing: &Backing, start: u32, count: u32) {
    for block in start..start + count {
        assert_eq!(
            backing.block(block),
            [0; BLOCK_SIZE],
            "physical block {block}"
        );
    }
}

fn replay_cursor(volume_id: u64, backing_blocks: u64, layout: Layout) -> Checkpoint {
    Checkpoint {
        slot: CheckpointSlot::Green,
        volume_id,
        volume_blocks: 4,
        backing_blocks,
        checkpoint_lsn: 1,
        last_footer_block: layout.log_start + 1,
        layout,
        body_checksum: 0,
    }
}

#[test]
fn rejects_invalid_footer_with_zero_payloads() {
    let clear_start = layout(4).log_start + 2;
    let backing_blocks = u64::from(clear_start) + MAXIMUM_RECORD_BLOCKS + 1;
    let (mut backing, layout, volume_id) = prepare_footer_rejection_image(backing_blocks);
    backing.put(
        u64::from(clear_start) * BLOCK_SIZE as u64,
        &vec![0x7e; MAXIMUM_RECORD_BLOCKS as usize * BLOCK_SIZE],
    );
    let footer = raw_footer(volume_id, 2, layout.log_start + 1, clear_start);
    assert_sealed(&footer);
    let cursor = replay_cursor(volume_id, backing_blocks, layout);
    assert!(decode_write_tail_footer(&footer, cursor, clear_start).is_none());
    backing.put(u64::from(clear_start) * BLOCK_SIZE as u64, &footer);
    let preserved_block = clear_start + MAXIMUM_RECORD_BLOCKS as u32;
    backing.put(
        u64::from(preserved_block) * BLOCK_SIZE as u64,
        &[0x9d; BLOCK_SIZE],
    );

    verify_recovery_stops_before_invalid_footer(&mut backing, clear_start);
    assert_zero_blocks(&backing, clear_start, MAXIMUM_RECORD_BLOCKS as u32);
    assert_eq!(backing.block(preserved_block), [0x9d; BLOCK_SIZE]);
}

#[test]
fn rejects_invalid_footer_above_maximum_payloads() {
    let clear_start = layout(4).log_start + 2;
    let invalid_footer_block = clear_start + MAXIMUM_RECORD_BLOCKS as u32;
    let backing_blocks = u64::from(invalid_footer_block) + 1;
    let (mut backing, layout, volume_id) = prepare_footer_rejection_image(backing_blocks);
    backing.put(
        u64::from(clear_start) * BLOCK_SIZE as u64,
        &vec![0x7e; MAXIMUM_RECORD_BLOCKS as usize * BLOCK_SIZE],
    );
    let footer = raw_footer(volume_id, 2, layout.log_start + 1, invalid_footer_block);
    assert_sealed(&footer);
    let cursor = replay_cursor(volume_id, backing_blocks, layout);
    assert!(decode_write_tail_footer(&footer, cursor, invalid_footer_block).is_none());
    backing.put(u64::from(invalid_footer_block) * BLOCK_SIZE as u64, &footer);

    verify_recovery_stops_before_invalid_footer(&mut backing, clear_start);
    assert_zero_blocks(&backing, clear_start, MAXIMUM_RECORD_BLOCKS as u32);
    assert_eq!(backing.block(invalid_footer_block), footer);
}

#[test]
fn rejects_invalid_footer_declaring_position_beyond_backing() {
    const BACKING_REMAINDER_BLOCKS: u32 = 5;

    let clear_start = layout(4).log_start + 2;
    let backing_blocks = u64::from(clear_start + BACKING_REMAINDER_BLOCKS);
    let (mut backing, layout, volume_id) = prepare_footer_rejection_image(backing_blocks);
    let actual_footer_block = backing_blocks as u32 - 1;
    backing.put(
        u64::from(clear_start) * BLOCK_SIZE as u64,
        &vec![0x7e; BACKING_REMAINDER_BLOCKS as usize * BLOCK_SIZE],
    );
    let mut footer = raw_footer(volume_id, 2, layout.log_start + 1, backing_blocks as u32);
    for index in 0..(BACKING_REMAINDER_BLOCKS - 1) as usize {
        let lba_offset = FOOTER_LBA_OFFSET + index * 4;
        let checksum_offset = FOOTER_PAYLOAD_CHECKSUM_OFFSET + index * 8;
        footer[lba_offset..lba_offset + 4].copy_from_slice(&(index as u32).to_le_bytes());
        let payload_block = clear_start + index as u32;
        let checksum =
            payload_checksum(volume_id, index as u32, payload_block, &[0x7e; BLOCK_SIZE]);
        footer[checksum_offset..checksum_offset + 8].copy_from_slice(&checksum.to_le_bytes());
    }
    seal(&mut footer);
    assert_sealed(&footer);
    backing.put(u64::from(actual_footer_block) * BLOCK_SIZE as u64, &footer);

    verify_recovery_stops_before_invalid_footer(&mut backing, clear_start);
    assert_eq!(backing.len(), backing_blocks * BLOCK_SIZE as u64);
    assert_zero_blocks(&backing, clear_start, BACKING_REMAINDER_BLOCKS);
}

fn verify_rejected_two_payload_footer(mutate: impl FnOnce(&mut [u8; BLOCK_SIZE], u64, u32)) {
    let clear_start = layout(4).log_start + 2;
    let backing_blocks = u64::from(clear_start) + MAXIMUM_RECORD_BLOCKS + 1;
    let (mut backing, layout, volume_id) = prepare_footer_rejection_image(backing_blocks);
    backing.put(
        u64::from(clear_start) * BLOCK_SIZE as u64,
        &vec![0x7e; MAXIMUM_RECORD_BLOCKS as usize * BLOCK_SIZE],
    );
    let invalid_footer_block = clear_start + 2;
    let mut footer = backing.write_raw_record_payloads(
        volume_id,
        2,
        layout.log_start + 1,
        &[(1, 0x5a), (2, 0xc3)],
    );
    assert_eq!(read_u32(&footer, 28), invalid_footer_block);
    mutate(&mut footer, volume_id, clear_start);
    seal(&mut footer);
    assert_sealed(&footer);
    backing.put(u64::from(invalid_footer_block) * BLOCK_SIZE as u64, &footer);
    let preserved_block = clear_start + MAXIMUM_RECORD_BLOCKS as u32;
    backing.put(
        u64::from(preserved_block) * BLOCK_SIZE as u64,
        &[0x9d; BLOCK_SIZE],
    );

    verify_recovery_stops_before_invalid_footer(&mut backing, clear_start);
    assert_eq!(backing.len(), backing_blocks * BLOCK_SIZE as u64);
    assert_zero_blocks(&backing, clear_start, MAXIMUM_RECORD_BLOCKS as u32);
    assert_eq!(backing.block(preserved_block), [0x9d; BLOCK_SIZE]);
}

#[test]
fn rejects_invalid_footer_with_out_of_range_lba() {
    verify_rejected_two_payload_footer(|footer, volume_id, first_payload_block| {
        footer[FOOTER_LBA_OFFSET..FOOTER_LBA_OFFSET + 4].copy_from_slice(&4_u32.to_le_bytes());
        let checksum = payload_checksum(volume_id, 4, first_payload_block, &[0x5a; BLOCK_SIZE]);
        footer[FOOTER_PAYLOAD_CHECKSUM_OFFSET..FOOTER_PAYLOAD_CHECKSUM_OFFSET + 8]
            .copy_from_slice(&checksum.to_le_bytes());
    })
}

#[test]
fn rejects_invalid_footer_with_duplicate_lbas() {
    verify_rejected_two_payload_footer(|footer, volume_id, first_payload_block| {
        let first_lba = footer[FOOTER_LBA_OFFSET..FOOTER_LBA_OFFSET + 4].to_vec();
        footer[FOOTER_LBA_OFFSET + 4..FOOTER_LBA_OFFSET + 8].copy_from_slice(&first_lba);
        let checksum = payload_checksum(volume_id, 1, first_payload_block + 1, &[0xc3; BLOCK_SIZE]);
        let checksum_offset = FOOTER_PAYLOAD_CHECKSUM_OFFSET + 8;
        footer[checksum_offset..checksum_offset + 8].copy_from_slice(&checksum.to_le_bytes());
    })
}

#[test]
fn rejects_invalid_footer_with_nonzero_unused_lba() {
    verify_rejected_two_payload_footer(|footer, _, _| {
        let unused_offset = FOOTER_LBA_OFFSET + 8;
        footer[unused_offset..unused_offset + 4].copy_from_slice(&3_u32.to_le_bytes());
    })
}

#[test]
fn rejects_invalid_footer_with_nonzero_unused_checksum() {
    verify_rejected_two_payload_footer(|footer, _, _| {
        let unused_offset = FOOTER_PAYLOAD_CHECKSUM_OFFSET + 16;
        footer[unused_offset..unused_offset + 8].copy_from_slice(&1_u64.to_le_bytes());
    })
}

struct InvalidGapFixture {
    backing: Backing,
    clear_start: u32,
    later_payload_block: u32,
    later_footer: [u8; BLOCK_SIZE],
    backing_bytes: u64,
}

fn prepare_invalid_gap_fixture() -> InvalidGapFixture {
    let volume_blocks = 2_u32;
    let layout = layout(volume_blocks);
    let clear_start = layout.log_start + 2;
    let later_payload_block = clear_start + MAXIMUM_RECORD_BLOCKS as u32;
    let backing_bytes = u64::from(later_payload_block + 2) * BLOCK_SIZE as u64;
    let mut backing = Backing::sized(backing_bytes);
    backing
        .format(u64::from(volume_blocks) * BLOCK_SIZE as u64)
        .unwrap();
    let volume_id = backing.volume_id();

    let first_footer = layout.log_start + 1;
    backing.write_raw_record(
        volume_id,
        1,
        layout.log_start - 1,
        layout.log_start,
        0,
        0xa5,
    );
    assert_eq!(clear_start, first_footer + 1);
    backing.put(
        u64::from(clear_start) * BLOCK_SIZE as u64,
        &vec![0x7e; MAXIMUM_RECORD_BLOCKS as usize * BLOCK_SIZE],
    );
    let later_footer = backing.write_raw_record(
        volume_id,
        3,
        clear_start + MAXIMUM_RECORD_BLOCKS as u32 - 1,
        later_payload_block,
        1,
        0x5a,
    );
    InvalidGapFixture {
        backing,
        clear_start,
        later_payload_block,
        later_footer,
        backing_bytes,
    }
}

fn verify_cleared_window(fixture: &InvalidGapFixture) {
    assert_eq!(fixture.backing.len(), fixture.backing_bytes);
    assert_zero_blocks(
        &fixture.backing,
        fixture.clear_start,
        MAXIMUM_RECORD_BLOCKS as u32,
    );
    assert_eq!(
        fixture.backing.block(fixture.later_payload_block),
        [0x5a; BLOCK_SIZE]
    );
    assert_eq!(
        fixture.backing.block(fixture.later_payload_block + 1),
        fixture.later_footer
    );
}

fn verify_invalid_gap_recovery(fixture: &mut InvalidGapFixture) {
    let mut volume = fixture.backing.open().unwrap();
    assert_eq!(
        fixture.backing.read(&mut volume, 0).unwrap(),
        [0xa5; BLOCK_SIZE]
    );
    assert_eq!(
        fixture.backing.read(&mut volume, 1).unwrap(),
        [0; BLOCK_SIZE]
    );
    assert_eq!(volume.last_lsn, 1);
    assert_eq!(volume.last_footer_block + 1, fixture.clear_start);
    verify_cleared_window(fixture);
}

#[test]
fn invalid_gap_stops_replay_and_clears_only_bounded_window() {
    let mut fixture = prepare_invalid_gap_fixture();
    verify_invalid_gap_recovery(&mut fixture);
}

/// How many requests opening takes.
fn opening_requests(backing: &Backing) -> usize {
    let mut copy = backing.clone();
    copy.budget = Some(usize::MAX);
    copy.open().unwrap();
    usize::MAX - copy.budget.unwrap()
}

#[test]
fn recover_after_each_stale_tail_clear_block_boundary() {
    let mut fixture = prepare_invalid_gap_fixture();
    let total = opening_requests(&fixture.backing);
    let clears = MAXIMUM_RECORD_BLOCKS as usize;
    for done in [1, clears / 2, clears] {
        let mut crashed = fixture.backing.clone();
        crashed.budget = Some(total - 1 - clears + done);
        let opening = recovery::open(crashed.len());
        assert!(crashed.run_opening(opening).is_err());
        crashed.budget = None;
        let intact = std::mem::replace(&mut fixture.backing, crashed);
        verify_invalid_gap_recovery(&mut fixture);
        fixture.backing = intact;
    }
}

#[test]
fn recover_after_stale_tail_fsync_boundary() {
    let mut fixture = prepare_invalid_gap_fixture();
    let mut opening = recovery::open(fixture.backing.len());
    loop {
        let request = opening.request();
        let reply = fixture.backing.carry_out(&request).unwrap();
        match opening.advance(reply) {
            OpenStep::Perform(next) => {
                opening = next;
            }
            OpenStep::Opened(_) => {
                assert!(matches!(request.operation, Operation::Sync));
                break;
            }
            OpenStep::Failed(error) => panic!("{error:?}"),
        }
    }
    verify_cleared_window(&fixture);
    verify_invalid_gap_recovery(&mut fixture);
}

#[test]
fn stale_tail_clear_stops_at_backing_eof() {
    const EOF_REMAINDER_BLOCKS: u32 = 17;

    let layout = layout(1);
    let clear_start = layout.log_start + 2;
    let backing_bytes = u64::from(clear_start + EOF_REMAINDER_BLOCKS) * BLOCK_SIZE as u64;
    let mut backing = Backing::sized(backing_bytes);
    backing.format(BLOCK_SIZE as u64).unwrap();
    let volume_id = backing.volume_id();

    backing.write_raw_record(
        volume_id,
        1,
        layout.log_start - 1,
        layout.log_start,
        0,
        0xa5,
    );
    backing.put(
        u64::from(clear_start) * BLOCK_SIZE as u64,
        &vec![0x7e; EOF_REMAINDER_BLOCKS as usize * BLOCK_SIZE],
    );

    let volume = backing.open().unwrap();
    assert_eq!(volume.last_lsn, 1);
    assert_eq!(backing.len(), backing_bytes);
    assert_zero_blocks(&backing, clear_start, EOF_REMAINDER_BLOCKS);
}

// Ends of the process at any request.

#[test]
fn recover_one_flushed_write_after_sigkill_without_close() {
    let (mut backing, _) = formatted(1, 2);
    {
        let mut volume = backing.open().unwrap();
        backing.write(&mut volume, 0, &[0xa5; BLOCK_SIZE]).unwrap();
        backing.flush(&mut volume).unwrap();
    }
    let mut volume = backing.open().unwrap();
    assert_eq!(backing.read(&mut volume, 0).unwrap(), [0xa5; BLOCK_SIZE]);
    backing.close(&mut volume).unwrap();
}

fn recover_flushed(writes: &[(u32, u8)], expected: [u8; 3]) {
    let (mut backing, _) = formatted(3, 64);
    {
        let mut volume = backing.open().unwrap();
        for &(lba, byte) in writes {
            backing.write(&mut volume, lba, &[byte; BLOCK_SIZE]).unwrap();
        }
        backing.flush(&mut volume).unwrap();
    }
    let mut volume = backing.open().unwrap();
    for (lba, byte) in expected.iter().enumerate() {
        assert_eq!(
            backing.read(&mut volume, lba as u32).unwrap(),
            [*byte; BLOCK_SIZE]
        );
    }
    backing.close(&mut volume).unwrap();
}

#[test]
fn recover_multiple_flushed_writes_and_overwrites_after_sigkill() {
    recover_flushed(
        &[
            (0, 0xa5),
            (1, 0x5a),
            (0, 0xc3),
            (2, 0x3c),
            (0, 0xd4),
            (1, 0xe7),
        ],
        [0xd4, 0xe7, 0x3c],
    );
}

#[test]
fn recover_after_uncaught_unwinding_panic_without_close() {
    recover_flushed(
        &[(0, 0xa5), (1, 0x5a), (0, 0xc3), (2, 0x3c), (1, 0xe7)],
        [0xc3, 0xe7, 0x3c],
    );
}

/// Writes a new value over an old one and ends after `requests` requests of the write and the
/// flush behind it; hands out what is read then.
fn value_after_write_crash(requests: usize) -> Vec<u8> {
    let (mut backing, _) = formatted(1, 6);
    let mut volume = backing.open().unwrap();
    backing.write(&mut volume, 0, &[0xa5; BLOCK_SIZE]).unwrap();
    backing.close(&mut volume).unwrap();

    let mut volume = backing.open().unwrap();
    backing.budget = Some(requests);
    let written = backing.try_write(&mut volume, 0, &[0x5a; BLOCK_SIZE]);
    if written.is_ok() {
        let _ = backing.try_flush(&mut volume);
    }
    drop(volume);
    backing.budget = None;

    let mut volume = backing.open().unwrap();
    let actual = backing.read(&mut volume, 0).unwrap();
    backing.close(&mut volume).unwrap();
    actual
}

#[test]
fn recover_after_kill_at_record_write_boundary() {
    for requests in 0..=1 {
        let actual = value_after_write_crash(requests);
        assert!(actual == [0xa5; BLOCK_SIZE] || actual == [0x5a; BLOCK_SIZE]);
    }
}

#[test]
fn recover_after_kill_at_mapping_publication_boundary() {
    let actual = value_after_write_crash(1);
    assert!(actual == [0xa5; BLOCK_SIZE] || actual == [0x5a; BLOCK_SIZE]);
}

#[test]
fn recover_after_kill_at_log_fsync_boundary() {
    assert_eq!(value_after_write_crash(2), [0x5a; BLOCK_SIZE]);
}

/// Closes a volume with four new writes and ends after `requests` requests of that.
fn recover_after_checkpoint_crash(requests: usize, expected_checkpoint_lsn: u64) {
    let volume_blocks = 1025_u32;
    let (mut backing, layout) = formatted(volume_blocks, 64);
    assert!(layout.physical_map_blocks + layout.checksum_map_blocks > 1);
    let mut volume = backing.open().unwrap();
    backing.write(&mut volume, 0, &[0xa5; BLOCK_SIZE]).unwrap();
    backing.close(&mut volume).unwrap();

    let mut volume = backing.open().unwrap();
    for (lba, byte) in [(0, 0x5a), (1, 0xc3), (2, 0x3c), (1, 0xe7)] {
        backing.write(&mut volume, lba, &[byte; BLOCK_SIZE]).unwrap();
    }
    backing.flush(&mut volume).unwrap();
    backing.budget = Some(requests);
    let _ = backing.try_close(&mut volume);
    drop(volume);
    backing.budget = None;

    let mut volume = backing.open().unwrap();
    assert_eq!(volume.checkpoint_lsn, expected_checkpoint_lsn);
    assert_eq!(volume.last_lsn, 5);
    for (lba, byte) in [0x5a, 0xe7, 0x3c].iter().enumerate() {
        assert_eq!(
            backing.read(&mut volume, lba as u32).unwrap(),
            [*byte; BLOCK_SIZE]
        );
    }
}

/// Requests before the body of a checkpoint: the flush and the checkpoint's own sync of the log.
const BEFORE_BODY: usize = 1;

fn body_blocks() -> usize {
    let layout = layout(1025);
    (layout.physical_map_blocks + layout.checksum_map_blocks) as usize
}

#[test]
fn recover_after_each_checkpoint_body_block_boundary() {
    for blocks in 0..=body_blocks() {
        recover_after_checkpoint_crash(BEFORE_BODY + blocks, 1);
    }
}

#[test]
fn recover_after_checkpoint_body_fsync_boundary() {
    recover_after_checkpoint_crash(BEFORE_BODY + body_blocks() + 1, 1);
}

#[test]
fn recover_after_descriptor_write_boundary() {
    recover_after_checkpoint_crash(BEFORE_BODY + body_blocks() + 2, 5);
}

#[test]
fn recover_after_descriptor_fsync_boundary() {
    recover_after_checkpoint_crash(BEFORE_BODY + body_blocks() + 3, 5);
}

// Codecs and error values.

#[test]
fn descriptor_round_trip_and_slot_binding() {
    let (volume_blocks, layout) = layout_for(5 * 4096).unwrap();
    let checkpoint = Checkpoint {
        slot: CheckpointSlot::Blue,
        volume_id: 77,
        volume_blocks,
        backing_blocks: 40,
        checkpoint_lsn: 3,
        last_footer_block: layout.log_start + 5,
        layout,
        body_checksum: 0x0102_0304_0506_0708,
    };
    let block = encode_checkpoint_descriptor(&checkpoint);
    assert_eq!(block.len(), BLOCK_SIZE);
    assert_eq!(
        decode_checkpoint(&block, CheckpointSlot::Blue, 40 * 4096),
        Some(checkpoint)
    );
    assert!(decode_checkpoint(&block, CheckpointSlot::Green, 40 * 4096).is_none());
    assert!(decode_checkpoint(&block, CheckpointSlot::Blue, 41 * 4096).is_none());
    for byte in [0, 5, 20, 44, 4000, 4088] {
        let mut changed = block.clone();
        changed[byte] ^= 1;
        assert!(decode_checkpoint(&changed, CheckpointSlot::Blue, 40 * 4096).is_none());
    }
}

#[test]
fn footer_round_trip_and_position_binding() {
    let layout = layout(4);
    let cursor = replay_cursor(9, 100, layout);
    let footer_block = cursor.last_footer_block + 2;
    let footer = encode_write_footer(
        9,
        2,
        cursor.last_footer_block,
        footer_block,
        3,
        0xfeed_beef_0000_0001,
    );
    let writes = decode_write_tail_footer(&footer, cursor, footer_block).unwrap();
    assert_eq!(writes.len(), 1);
    assert_eq!(writes[0].lba, 3);
    assert_eq!(writes[0].checksum, 0xfeed_beef_0000_0001);
    assert_eq!(writes[0].payload_block, footer_block - 1);
    let cursor = replay_cursor(9, 100, self::layout(4));
    assert!(decode_write_tail_footer(&footer, cursor, footer_block + 1).is_none());
    let zeros = [0; BLOCK_SIZE];
    let cursor = replay_cursor(9, 100, self::layout(4));
    assert!(decode_write_tail_footer(&zeros, cursor, footer_block).is_none());
}

#[test]
fn sequence_numbers_run_out() {
    let (mut backing, _) = formatted(1, 8);
    let mut volume = backing.open().unwrap();
    volume.last_lsn = u64::MAX;
    volume.durable_lsn = u64::MAX;
    volume.checkpoint_lsn = u64::MAX;
    assert_eq!(
        volume.write_block(0, &[1; BLOCK_SIZE]).err(),
        Some(StorageError::SequenceExhausted)
    );
}

#[test]
fn failed_requests_fail_opening() {
    let (backing, _) = formatted(1, 2);
    let opening = recovery::open(backing.len());
    match opening.advance(Err(IoFailure::Os(5))) {
        OpenStep::Failed(error) => {
            assert_eq!(error, StorageError::Io(IoFailure::Os(5)));
            assert_eq!(error.raw_os_error(), Some(5));
        }
        _ => panic!("opening went on after a failed read"),
    }
}

#[test]
fn only_what_the_system_reported_is_an_io_error() {
    assert_eq!(StorageError::Io(IoFailure::Os(5)).kind(), ErrorKind::Io);
    for failure in [
        IoFailure::RingUnavailable,
        IoFailure::SubmissionQueueFull,
        IoFailure::SubmissionCount,
        IoFailure::UnexpectedCompletion,
        IoFailure::ShortOperation,
        IoFailure::ExtraCompletion,
        IoFailure::OutOfMemory,
    ] {
        assert_eq!(StorageError::Io(failure).kind(), ErrorKind::Other);
    }
}

#[test]
fn roots_of_different_volumes_are_refused() {
    let (mut backing, _) = formatted(1, 2);
    let mut other = backing.clone();
    other.format_as(BLOCK_SIZE as u64, 5).unwrap();
    let green = other.block(0).to_vec();
    backing.put(0, &green);
    let error = backing.open().err().unwrap();
    assert_eq!(error, StorageError::RootsDisagree);
    assert_eq!(error.kind(), ErrorKind::InvalidData);
}

// What crashes and damage leave.

/// Every way in which the blocks of three unflushed records can be lost.
#[test]
fn unflushed_records_survive_a_crash_as_a_prefix() {
    let (mut backing, layout) = formatted(4, 64);
    let mut volume = backing.open().unwrap();
    backing.write(&mut volume, 0, &[0x10; BLOCK_SIZE]).unwrap();
    backing.flush(&mut volume).unwrap();
    let flushed = backing.clone();
    let end = volume.last_footer_block;
    assert_eq!(end, layout.log_start + 1);
    for (lba, byte) in [(1, 0x21), (2, 0x22), (0, 0x23)] {
        backing.write(&mut volume, lba, &[byte; BLOCK_SIZE]).unwrap();
    }
    for lost in 0..64_u32 {
        let mut crashed = backing.clone();
        for at in 0..6 {
            if lost & (1 << at) != 0 {
                let block = end + 1 + at;
                let old = flushed.block(block).to_vec();
                crashed.put(u64::from(block) * BLOCK_SIZE as u64, &old);
            }
        }
        let kept = (0..3).take_while(|i| lost & (2 << (2 * i)) == 0).count() as u32;
        let mut reopened = crashed.open().unwrap();
        assert_eq!(reopened.last_lsn, 1 + u64::from(kept));
        assert_eq!(reopened.last_footer_block, end + 2 * kept);
        for (index, (lba, byte)) in [(1, 0x21), (2, 0x22), (0, 0x23)].into_iter().enumerate() {
            let payload_lost = lost & (1 << (2 * index)) != 0;
            let read = crashed.read(&mut reopened, lba);
            if index as u32 >= kept {
                let before = if lba == 0 { 0x10 } else { 0 };
                assert_eq!(read.unwrap(), [before; BLOCK_SIZE]);
            } else if payload_lost {
                assert_eq!(read.unwrap_err(), StorageError::PayloadChecksumMismatch);
            } else {
                assert_eq!(read.unwrap(), [byte; BLOCK_SIZE]);
            }
        }
    }
}

#[test]
fn spare_slot_can_be_damaged_in_any_way() {
    let (mut backing, layout) = formatted(4, 64);
    let mut volume = backing.open().unwrap();
    backing.write(&mut volume, 3, &[0x31; BLOCK_SIZE]).unwrap();
    let before = cursors(&volume);
    let mut closed = backing.clone();
    assert_eq!(volume.next_checkpoint_slot, CheckpointSlot::Blue);
    closed.close(&mut volume).unwrap();
    assert_eq!(closed.open().unwrap().checkpoint_lsn, 1);
    for block in [
        1,
        layout.blue_physical_map_start,
        layout.blue_checksum_map_start,
    ] {
        let mut damaged = closed.clone();
        damaged.put(u64::from(block) * BLOCK_SIZE as u64 + 100, &[0xee; 64]);
        let mut reopened = damaged.open().unwrap();
        assert_eq!(reopened.checkpoint_lsn, 0);
        assert_eq!(reopened.physical_blocks, before.0);
        assert_eq!(damaged.read(&mut reopened, 3).unwrap(), [0x31; BLOCK_SIZE]);

        // A volume that was opened by its older checkpoint goes on like any other.
        damaged.write(&mut reopened, 2, &[0x32; BLOCK_SIZE]).unwrap();
        let mut again = damaged.clone().open().unwrap();
        assert_eq!(damaged.read(&mut again, 2).unwrap(), [0x32; BLOCK_SIZE]);
        damaged.close(&mut reopened).unwrap();
        let mut last = damaged.open().unwrap();
        assert_eq!(last.checkpoint_lsn, 2);
        assert_eq!(damaged.read(&mut last, 2).unwrap(), [0x32; BLOCK_SIZE]);
        assert_eq!(damaged.read(&mut last, 3).unwrap(), [0x31; BLOCK_SIZE]);
    }
}

/// The least bound on what is replayed, so that writes need checkpoints.
#[test]
fn volume_stays_sound_over_writes_checkpoints_and_reopening() {
    let (mut backing, _) = formatted(8, 1200);
    let options = VolumeOpenOptions {
        checkpoint_after_bytes: MAXIMUM_RECORD_BLOCKS * BLOCK_SIZE as u64,
    };
    let mut volume = backing.open_with_options(options).unwrap();
    let mut expected = [[0; BLOCK_SIZE]; 8];
    for round in 0..500_u32 {
        let lba = round * 5 % 8;
        expected[lba as usize] = [round as u8; BLOCK_SIZE];
        backing
            .write(&mut volume, lba, &expected[lba as usize])
            .unwrap();
        assert!(volume.log_bytes_since_checkpoint <= options.checkpoint_after_bytes);
        if round % 83 == 0 {
            let before = cursors(&volume);
            volume = backing.open_with_options(options).unwrap();
            let after = cursors(&volume);
            assert_eq!(after.0, before.0);
            assert_eq!(after.1, before.1);
            assert_eq!(after.2, before.2);
            assert_eq!(after.3, before.2);
            assert_eq!(after.4, before.4);
            assert_eq!(after.5, before.5);
            assert_eq!(after.6, before.6);
            assert_eq!(after.7, before.7);
        }
    }
    assert!(volume.checkpoint_lsn > 0);
    for lba in 0..8 {
        assert_eq!(
            backing.read(&mut volume, lba).unwrap(),
            expected[lba as usize]
        );
    }
}

/// Records that were once written behind a gap, and that fit where new ones end.
fn behind_a_gap() -> (Backing, Layout) {
    let (mut backing, layout) = formatted(8, 1200);
    let mut volume = backing.open().unwrap();
    for _ in 0..200 {
        backing.write(&mut volume, 3, &[0xee; BLOCK_SIZE]).unwrap();
    }
    backing.flush(&mut volume).unwrap();
    let first_footer = u64::from(layout.log_start + 1) * BLOCK_SIZE as u64;
    backing.put(first_footer, &[0; BLOCK_SIZE]);
    (backing, layout)
}

#[test]
fn record_behind_a_gap_never_returns() {
    let (mut backing, layout) = behind_a_gap();
    let mut volume = backing.open().unwrap();
    assert_eq!(volume.last_lsn, 0);
    let last_cleared = layout.log_start - 1 + MAXIMUM_RECORD_BLOCKS as u32;
    assert_eq!(volume.cleared_to, last_cleared);
    assert_ne!(backing.block(last_cleared + 1), [0; BLOCK_SIZE]);
    for round in 1..=200_u32 {
        backing
            .write(&mut volume, round % 2, &[round as u8; BLOCK_SIZE])
            .unwrap();
        assert_eq!(volume.last_lsn, u64::from(round));
        let mut crashed = backing.clone();
        let mut again = crashed.open().unwrap();
        assert_eq!(again.last_lsn, u64::from(round));
        assert_eq!(crashed.read(&mut again, 3).unwrap(), [0; BLOCK_SIZE]);
        assert_eq!(
            crashed.read(&mut again, round % 2).unwrap(),
            [round as u8; BLOCK_SIZE]
        );
    }
    backing.close(&mut volume).unwrap();
    let mut last = backing.open().unwrap();
    assert_eq!(last.last_lsn, 200);
    assert_eq!(backing.read(&mut last, 3).unwrap(), [0; BLOCK_SIZE]);
}

#[test]
fn clearing_ahead_can_be_cut_short_at_any_request() {
    let (mut backing, layout) = behind_a_gap();
    backing.open().unwrap();
    let all = MAXIMUM_RECORD_BLOCKS as usize + 2;
    for requests in [0, 1, 2, 170, all - 3, all - 2, all - 1, all] {
        let mut crashed = backing.clone();
        let mut volume = crashed.open().unwrap();
        crashed.budget = Some(requests);
        let finished = crashed.try_write(&mut volume, 5, &[0x55; BLOCK_SIZE]).is_ok();
        assert_eq!(finished, requests == all);
        crashed.budget = None;
        let mut again = crashed.open().unwrap();
        assert_eq!(again.last_lsn, u64::from(finished));
        let expected = if finished { 0x55 } else { 0 };
        assert_eq!(crashed.read(&mut again, 5).unwrap(), [expected; BLOCK_SIZE]);
        assert_eq!(crashed.read(&mut again, 3).unwrap(), [0; BLOCK_SIZE]);
    }

    // Clearing makes the log durable, and goes on from where it had come.
    let mut volume = backing.open().unwrap();
    backing.write(&mut volume, 5, &[0x55; BLOCK_SIZE]).unwrap();
    let reach = layout.log_start - 1 + 2 * MAXIMUM_RECORD_BLOCKS as u32;
    assert_eq!(volume.cleared_to, reach);
    assert_zero_blocks(
        &backing,
        layout.log_start + 2,
        reach - layout.log_start - 1,
    );
    assert_eq!(volume.durable_lsn, 0);
    backing.write(&mut volume, 5, &[0x56; BLOCK_SIZE]).unwrap();
    assert_eq!(volume.cleared_to, reach);
    assert_eq!(volume.durable_lsn, 0);
}

/// One crash after another, each losing any of the blocks that were not durable.
#[test]
fn every_crash_leaves_a_prefix_of_all_writes() {
    let options = VolumeOpenOptions {
        checkpoint_after_bytes: MAXIMUM_RECORD_BLOCKS * BLOCK_SIZE as u64,
    };
    let (mut backing, _) = formatted(4, 1500);
    let mut volume = backing.open_with_options(options).unwrap();
    backing.durable = Some(backing.bytes.clone());
    let mut log: Vec<(u32, u8)> = Vec::new();
    let mut random = 0x2545_f491_4f6c_dd1d_u64;
    let mut next = move || {
        random ^= random << 13;
        random ^= random >> 7;
        random ^= random << 17;
        random >> 20
    };
    for round in 0..60 {
        let mut safe = log.len();
        for _ in 0..next() % 14 {
            let (lba, byte) = ((next() % 4) as u32, next() as u8);
            backing.write(&mut volume, lba, &[byte; BLOCK_SIZE]).unwrap();
            log.push((lba, byte));
            if next() % 5 == 0 {
                backing.flush(&mut volume).unwrap();
            }
            safe = safe.max(volume.durable_lsn as usize);
        }
        if round % 7 == 3 && volume.checkpoint_lsn < volume.last_lsn {
            // A checkpoint that is cut short.
            backing.budget = Some((next() % 7) as usize);
            if backing.try_close(&mut volume).is_ok() {
                safe = log.len();
            }
            backing.budget = None;
            safe = safe.max(volume.durable_lsn as usize);
        }
        backing.lose(|| next() % 3 == 0);
        volume = backing.open_with_options(options).unwrap();
        let count = volume.last_lsn as usize;
        assert!(safe <= count && count <= log.len());
        log.truncate(count);
        for lba in 0..4_u32 {
            let last = log.iter().rposition(|write| write.0 == lba);
            let wanted = last.map_or(0, |index| log[index].1);
            match backing.read(&mut volume, lba) {
                Ok(bytes) => assert_eq!(bytes, [wanted; BLOCK_SIZE]),
                Err(error) => {
                    assert_eq!(error, StorageError::PayloadChecksumMismatch);
                    // Its payload was lost; what is written next is read again.
                    assert!(last.is_some());
                    backing.write(&mut volume, lba, &[wanted; BLOCK_SIZE]).unwrap();
                    log.push((lba, wanted));
                    backing.flush(&mut volume).unwrap();
                    assert_eq!(
                        backing.read(&mut volume, lba).unwrap(),
                        [wanted; BLOCK_SIZE]
                    );
                }
            }
        }
    }
    assert!(volume.checkpoint_lsn > 0);
}

#[test]
fn older_checkpoint_stands_in_through_records_and_reopening() {
    let (mut backing, layout) = formatted(4, 64);
    let mut volume = backing.open().unwrap();
    backing.write(&mut volume, 0, &[0x10; BLOCK_SIZE]).unwrap();
    backing.close(&mut volume).unwrap();
    let mut volume = backing.open().unwrap();
    backing.write(&mut volume, 1, &[0x11; BLOCK_SIZE]).unwrap();
    backing.close(&mut volume).unwrap();
    let mut volume = backing.open().unwrap();
    backing.write(&mut volume, 2, &[0x12; BLOCK_SIZE]).unwrap();
    backing.flush(&mut volume).unwrap();
    assert_eq!((volume.checkpoint_lsn, volume.last_lsn), (2, 3));
    for block in [0, layout.green_physical_map_start] {
        let mut damaged = backing.clone();
        damaged.put(u64::from(block) * BLOCK_SIZE as u64 + 9, &[0xee; 16]);
        let mut again = damaged.open().unwrap();
        assert_eq!((again.checkpoint_lsn, again.last_lsn), (1, 3));
        assert_eq!(again.next_checkpoint_slot, CheckpointSlot::Green);
        for lba in 0..3_u32 {
            assert_eq!(
                damaged.read(&mut again, lba).unwrap(),
                [0x10 + lba as u8; BLOCK_SIZE]
            );
        }
    }
}

#[test]
fn maps_are_filled_only_where_memory_was_reserved() {
    assert_eq!(
        recovery::filled(Vec::new(), 0_u32, 3, true),
        Some(vec![0, 0, 0])
    );
    assert_eq!(
        recovery::filled(Vec::new(), 7_u64, 2, true),
        Some(vec![7, 7])
    );
    assert_eq!(recovery::filled(Vec::new(), 0_u32, 0, true), Some(vec![]));
    assert_eq!(recovery::filled(Vec::new(), 0_u64, 3, false), None);
}
