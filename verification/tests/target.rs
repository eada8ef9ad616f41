//! The daemon's command line and device parameters.

use block_storage::lab::error::LabErrorKind;
use block_storage::target::{
    controller_settings, parse_args, parse_device_id, target_configuration, Args,
    ControllerSettings, ATTR_VOLATILE_CACHE, BLOCK_SHIFT, IO_BUFFER_BYTES, PARAM_TYPE_BASIC,
    QUEUE_COUNT, QUEUE_DEPTH, TARGET_NAME,
};

fn operands(texts: &[&str]) -> Vec<Vec<u8>> {
    texts.iter().map(|text| text.as_bytes().to_vec()).collect()
}

#[test]
fn parses_backing_path_and_device_id() {
    let args = parse_args("daemon", &operands(&["volume.img", "7"])).unwrap();
    assert_eq!(
        args,
        Args {
            backing_path: b"volume.img".to_vec(),
            device_id: 7,
        }
    );
}

#[test]
fn accepts_auto_allocated_device_id() {
    assert_eq!(parse_device_id(b"-1").unwrap(), -1);
}

#[test]
fn rejects_invalid_arguments() {
    assert!(parse_device_id(b"-2").is_err());
    assert!(parse_device_id(b"not-a-number").is_err());
    assert!(parse_args("daemon", &operands(&[])).is_err());
    assert!(parse_args("daemon", &operands(&["volume.img", "1", "extra"])).is_err());
}

#[test]
fn device_numbers_have_the_range_of_the_driver() {
    assert_eq!(parse_device_id(b"+12").unwrap(), 12);
    assert_eq!(parse_device_id(b"-0").unwrap(), 0);
    assert_eq!(parse_device_id(b"2147483647").unwrap(), i32::MAX);
    for invalid in ["2147483648", "-2147483649", "", "+", "-", "1 ", "0x1"] {
        let error = parse_device_id(invalid.as_bytes()).unwrap_err();
        assert_eq!(error.message, "invalid device ID", "{invalid}");
        assert_eq!(error.kind, LabErrorKind::InvalidInput);
    }
    for low in ["-2", "-2147483648"] {
        assert_eq!(
            parse_device_id(low.as_bytes()).unwrap_err().message,
            "device ID must be -1 or non-negative"
        );
    }
    assert_eq!(
        parse_args("x/daemon", &operands(&["volume.img"])).unwrap_err().message,
        "usage: x/daemon <backing-path> <device-id>"
    );
}

#[test]
fn configures_exact_v07_target_parameters() {
    let target = target_configuration(37);
    assert_eq!(target.device_bytes, 37 * 4096);
    assert_eq!(target.types, PARAM_TYPE_BASIC);
    assert_eq!(target.attrs, ATTR_VOLATILE_CACHE);
    assert_eq!(target.logical_bs_shift, BLOCK_SHIFT);
    assert_eq!(target.physical_bs_shift, BLOCK_SHIFT);
    assert_eq!(target.io_opt_shift, BLOCK_SHIFT);
    assert_eq!(target.io_min_shift, BLOCK_SHIFT);
    assert_eq!(target.max_sectors, 8);
    assert_eq!(target.dev_sectors, 37 * 8);
}

#[test]
fn configures_one_depth_one_4k_queue() {
    assert_eq!(QUEUE_COUNT, 1);
    assert_eq!(QUEUE_DEPTH, 1);
    assert_eq!(IO_BUFFER_BYTES, 4096);
    assert_eq!(TARGET_NAME, "block-storage");
    assert_eq!(
        controller_settings(4),
        ControllerSettings {
            device_id: 4,
            queues: 1,
            depth: 1,
            io_buffer_bytes: 4096,
        }
    );
}
