//! The command line and the device parameters of the ublk daemon.

use crate::bytes::copy_of;
use crate::lab::error::{failure, failure_text, LabError, LabErrorKind};
use vstd::prelude::*;

verus! {

pub const BLOCK_SHIFT: u8 = 12;

pub const IO_BUFFER_BYTES: u32 = 4096;

pub const SECTORS_PER_BLOCK: u64 = 8;

/// Set in the parameters of a device that has basic parameters.
pub const PARAM_TYPE_BASIC: u32 = 1;

/// Set in the attributes of a device with a volatile cache.
pub const ATTR_VOLATILE_CACHE: u32 = 4;

/// The name of the target.
pub const TARGET_NAME: &'static str = "block-storage";

pub const QUEUE_COUNT: u16 = 1;

pub const QUEUE_DEPTH: u16 = 1;

/// What the daemon serves, and as which device.
#[derive(Debug, PartialEq, Eq)]
pub struct Args {
    /// The bytes of the backing's path.
    pub backing_path: Vec<u8>,
    /// Minus one lets the driver choose.
    pub device_id: i32,
}

/// Whether `text` consists of decimal digits.
pub open spec fn digit_bytes(text: Seq<u8>) -> bool {
    forall|i: int| 0 <= i < text.len() ==> 48 <= #[trigger] text[i] <= 57
}

/// The number that the digits denote.
pub open spec fn bytes_value(digits: Seq<u8>) -> int
    decreases digits.len(),
{
    if digits.len() == 0 {
        0
    } else {
        10 * bytes_value(digits.drop_last()) + (digits.last() - 48)
    }
}

/// The integer that `text` denotes, with or without a sign, if it does.
pub open spec fn integer_in(text: Seq<u8>) -> Option<int> {
    let signed = text.len() > 0 && (text[0] == 43 || text[0] == 45);
    let digits = if signed {
        text.skip(1)
    } else {
        text
    };
    if digits.len() == 0 || !digit_bytes(digits) {
        None
    } else if signed && text[0] == 45 {
        Some(-bytes_value(digits))
    } else {
        Some(bytes_value(digits))
    }
}

/// Why `text` is no device number, if it is none.
pub open spec fn device_id_refusal(text: Seq<u8>) -> Option<(LabErrorKind, Seq<char>)> {
    match integer_in(text) {
        None => Some((LabErrorKind::InvalidInput, "invalid device ID"@)),
        Some(value) => if value < i32::MIN || value > i32::MAX {
            Some((LabErrorKind::InvalidInput, "invalid device ID"@))
        } else if value < -1 {
            Some((LabErrorKind::InvalidInput, "device ID must be -1 or non-negative"@))
        } else {
            None
        },
    }
}

/// A longer text of digits denotes no smaller number than its start.
proof fn lemma_bytes_value_grows(digits: Seq<u8>, count: int)
    requires
        digit_bytes(digits),
        0 <= count <= digits.len(),
    ensures
        0 <= bytes_value(digits.take(count)) <= bytes_value(digits),
    decreases digits.len(),
{
    if digits.len() > 0 {
        let head = digits.drop_last();
        assert(48 <= digits.last() <= 57);
        assert(digit_bytes(head)) by {
            assert forall|i: int| 0 <= i < head.len() implies 48 <= #[trigger] head[i] <= 57 by {
                assert(head[i] == digits[i]);
            }
        }
        if count == digits.len() {
            assert(digits.take(count) =~= digits);
            lemma_bytes_value_grows(head, head.len() as int);
            assert(head.take(head.len() as int) =~= head);
        } else {
            assert(head.take(count) =~= digits.take(count));
            lemma_bytes_value_grows(head, count);
        }
    } else {
        assert(digits.take(count) =~= digits);
    }
}

/// The number of the device that `value` asks for.
pub fn parse_device_id(value: &[u8]) -> (result: Result<i32, LabError>)
    ensures
        match result {
            Ok(id) => device_id_refusal(value@) is None && integer_in(value@) == Some(id as int),
            Err(error) => device_id_refusal(value@) == Some(error@),
        },
{
    let length: usize = value.len();
    let signed = length > 0 && (value[0] == 43 || value[0] == 45);
    let negative = signed && value[0] == 45;
    let start: usize = if signed {
        1
    } else {
        0
    };
    let ghost digits = if signed {
        value@.skip(1)
    } else {
        value@
    };
    if length == start {
        return Err(failure(LabErrorKind::InvalidInput, "invalid device ID"));
    }
    let mut i: usize = start;
    while i < length
        invariant
            start <= i <= length,
            length == value@.len(),
            digits.len() == length - start,
            forall|j: int| 0 <= j < digits.len() ==> digits[j] == value@[j + start],
            forall|j: int| 0 <= j < i - start ==> 48 <= #[trigger] digits[j] <= 57,
            start == (if signed {
                1int
            } else {
                0int
            }),
            signed == (value@.len() > 0 && (value@[0] == 43 || value@[0] == 45)),
            digits == (if signed {
                value@.skip(1)
            } else {
                value@
            }),
        decreases length - i,
    {
        if value[i] < 48 || value[i] > 57 {
            assert(digits[i - start] == value@[i as int]);
            assert(!digit_bytes(digits));
            return Err(failure(LabErrorKind::InvalidInput, "invalid device ID"));
        }
        assert(digits[i - start] == value@[i as int]);
        i = i + 1;
    }
    assert(digit_bytes(digits));
    let mut number: i64 = 0;
    let mut i: usize = start;
    assert(digits.take(0) =~= Seq::<u8>::empty());
    while i < length
        invariant
            start <= i <= length,
            length == value@.len(),
            digits.len() == length - start,
            digits.len() > 0,
            digit_bytes(digits),
            forall|j: int| 0 <= j < digits.len() ==> digits[j] == value@[j + start],
            0 <= number <= 0x8000_0000,
            number == bytes_value(digits.take(i - start)),
            signed == (value@.len() > 0 && (value@[0] == 43 || value@[0] == 45)),
            negative == (signed && value@[0] == 45),
            digits == (if signed {
                value@.skip(1)
            } else {
                value@
            }),
        decreases length - i,
    {
        proof {
            assert(digits[i - start] == value@[i as int]);
            assert(48 <= digits[i - start] <= 57);
            assert(digits.take(i - start + 1).drop_last() =~= digits.take(i - start));
            lemma_bytes_value_grows(digits, i - start + 1);
        }
        number = number * 10 + (value[i] as i64 - 48);
        if number > 0x8000_0000 {
            return Err(failure(LabErrorKind::InvalidInput, "invalid device ID"));
        }
        i = i + 1;
    }
    assert(digits.take(digits.len() as int) =~= digits);
    let id: i64 = if negative {
        -number
    } else {
        number
    };
    if id > i32::MAX as i64 {
        return Err(failure(LabErrorKind::InvalidInput, "invalid device ID"));
    }
    if id < -1 {
        return Err(failure(LabErrorKind::InvalidInput, "device ID must be -1 or non-negative"));
    }
    Ok(id as i32)
}

/// How the daemon is used.
pub open spec fn daemon_usage(program: Seq<char>) -> (LabErrorKind, Seq<char>) {
    (LabErrorKind::InvalidInput, "usage: "@ + program + " <backing-path> <device-id>"@)
}

fn usage(program: &str) -> (error: LabError)
    ensures
        error@ == daemon_usage(program@),
{
    let mut message = String::from_str("usage: ");
    message.append(program);
    message.append(" <backing-path> <device-id>");
    failure_text(LabErrorKind::InvalidInput, message)
}

/// Why operands are refused, if they are.
pub open spec fn args_refusal(program: Seq<char>, operands: Seq<Vec<u8>>) -> Option<
    (LabErrorKind, Seq<char>),
> {
    if operands.len() < 2 {
        Some(daemon_usage(program))
    } else if device_id_refusal(operands[1]@) is Some {
        device_id_refusal(operands[1]@)
    } else if operands.len() > 2 {
        Some(daemon_usage(program))
    } else {
        None
    }
}

/// Reads the operands behind the program's name: a backing path and a device number.
pub fn parse_args(program: &str, operands: &Vec<Vec<u8>>) -> (result: Result<Args, LabError>)
    ensures
        match result {
            Ok(args) => {
                &&& args_refusal(program@, operands@) is None
                &&& args.backing_path@ == operands@[0]@
                &&& integer_in(operands@[1]@) == Some(args.device_id as int)
            },
            Err(error) => args_refusal(program@, operands@) == Some(error@),
        },
{
    if operands.len() < 2 {
        return Err(usage(program));
    }
    let device_id: i32 = match parse_device_id(operands[1].as_slice()) {
        Ok(id) => id,
        Err(error) => {
            return Err(error);
        },
    };
    if operands.len() > 2 {
        return Err(usage(program));
    }
    Ok(Args { backing_path: copy_of(operands[0].as_slice()), device_id })
}

/// How the device controller is set up.
#[derive(Clone, Copy, Debug, PartialEq, Eq, Structural)]
pub struct ControllerSettings {
    pub device_id: i32,
    pub queues: u16,
    pub depth: u16,
    pub io_buffer_bytes: u32,
}

/// One queue of depth one, with a buffer of one block.
pub fn controller_settings(device_id: i32) -> (settings: ControllerSettings)
    ensures
        settings == (ControllerSettings {
            device_id,
            queues: 1,
            depth: 1,
            io_buffer_bytes: 4096,
        }),
{
    ControllerSettings {
        device_id,
        queues: QUEUE_COUNT,
        depth: QUEUE_DEPTH,
        io_buffer_bytes: IO_BUFFER_BYTES,
    }
}

/// The size and the basic parameters of the device.
#[derive(Clone, Copy, Debug, PartialEq, Eq, Structural)]
pub struct TargetConfiguration {
    pub device_bytes: u64,
    pub types: u32,
    pub attrs: u32,
    pub logical_bs_shift: u8,
    pub physical_bs_shift: u8,
    pub io_opt_shift: u8,
    pub io_min_shift: u8,
    pub max_sectors: u32,
    pub dev_sectors: u64,
}

/// A device of `volume_blocks` blocks with a volatile cache, each request at most one block.
pub fn target_configuration(volume_blocks: u32) -> (target: TargetConfiguration)
    ensures
        target.device_bytes == volume_blocks * 4096,
        target.types == PARAM_TYPE_BASIC,
        target.attrs == ATTR_VOLATILE_CACHE,
        target.logical_bs_shift == 12,
        target.physical_bs_shift == 12,
        target.io_opt_shift == 12,
        target.io_min_shift == 12,
        target.max_sectors == 8,
        target.dev_sectors == volume_blocks * 8,
        target.dev_sectors * 512 == target.device_bytes,
{
    TargetConfiguration {
        device_bytes: volume_blocks as u64 * 4096,
        types: PARAM_TYPE_BASIC,
        attrs: ATTR_VOLATILE_CACHE,
        logical_bs_shift: BLOCK_SHIFT,
        physical_bs_shift: BLOCK_SHIFT,
        io_opt_shift: BLOCK_SHIFT,
        io_min_shift: BLOCK_SHIFT,
        max_sectors: 8,
        dev_sectors: volume_blocks as u64 * SECTORS_PER_BLOCK,
    }
}

/// The bytes of `number` in decimal.
pub open spec fn decimal_bytes(number: int) -> Seq<u8>
    decreases number,
{
    if number < 10 {
        seq![(48 + number) as u8]
    } else {
        decimal_bytes(number / 10).push((48 + number % 10) as u8)
    }
}

/// The bytes of a number denote it.
proof fn lemma_decimal_bytes(number: int)
    requires
        0 <= number,
    ensures
        digit_bytes(decimal_bytes(number)),
        decimal_bytes(number).len() > 0,
        bytes_value(decimal_bytes(number)) == number,
    decreases number,
{
    let bytes = decimal_bytes(number);
    if number < 10 {
        assert(bytes.drop_last() =~= Seq::<u8>::empty());
        assert(bytes_value(bytes.drop_last()) == 0);
    } else {
        lemma_decimal_bytes(number / 10);
        assert(bytes.drop_last() =~= decimal_bytes(number / 10));
    }
}

/// Law: a device number is accepted exactly if it is minus one or a number that is not negative and
/// fits; with or without a sign, it is read as what it denotes.
pub proof fn law_device_numbers(number: int)
    requires
        0 <= number,
    ensures
        integer_in(decimal_bytes(number)) == Some(number),
        integer_in(seq![45u8] + decimal_bytes(number)) == Some(-number),
        integer_in(seq![43u8] + decimal_bytes(number)) == Some(number),
        device_id_refusal(decimal_bytes(number)) is None <==> number <= 0x7fff_ffff,
        device_id_refusal(seq![45u8] + decimal_bytes(number)) is None <==> number <= 1,
        integer_in(Seq::empty()) is None,
{
    let digits = decimal_bytes(number);
    lemma_decimal_bytes(number);
    assert(48 <= digits[0] <= 57);
    assert((seq![45u8] + digits).skip(1) =~= digits);
    assert((seq![43u8] + digits).skip(1) =~= digits);
}

/// Law: whatever is read as a number consists of digits behind at most one sign.
pub proof fn law_numbers_are_digits(text: Seq<u8>, index: int)
    requires
        integer_in(text) is Some,
        0 <= index < text.len(),
    ensures
        48 <= text[index] <= 57 || (index == 0 && text.len() > 1 && (text[0] == 43 || text[0]
            == 45)),
{
    let signed = text[0] == 43 || text[0] == 45;
    let digits = if signed {
        text.skip(1)
    } else {
        text
    };
    if signed && index > 0 {
        assert(digits[index - 1] == text[index]);
    } else if !signed {
        assert(digits[index] == text[index]);
    }
}

/// Law: the daemon takes exactly two operands, of which the second is a device number; any path is
/// taken as it is.
pub proof fn law_daemon_operands(program: Seq<char>, operands: Seq<Vec<u8>>)
    ensures
        args_refusal(program, operands) is None <==> operands.len() == 2 && (integer_in(
            operands[1]@,
        ) matches Some(id) && -1 <= id <= 0x7fff_ffff),
        operands.len() < 2 ==> args_refusal(program, operands) == Some(
            (LabErrorKind::InvalidInput, "usage: "@ + program + " <backing-path> <device-id>"@),
        ),
{
}

} // verus!
