//! The table of mounted file systems, and what the lab demands of it.

use crate::lab::error::{demand, failure, LabError, LabErrorKind};
#[allow(unused_imports)]
use crate::lab::error::demanded;
use crate::paths::{same, starts_with};
#[allow(unused_imports)]
use crate::paths::{lies_under, same_path};
use crate::text::{
    chars_of, find_char, find_text, lines, only_digits, parse_unsigned, spells, string_of,
    strip_prefix, words,
};
#[allow(unused_imports)]
use crate::text::{
    all_digits, decimal, digits_value, find_in, has_prefix, is_digit, is_space, is_unsigned,
    law_decimal_denotes_its_number, law_first_occurrence_is_found, law_unsigned_numbers,
    law_words_one_by_one, lemma_position, lemma_position_behind, lines_of, position, views,
    without_plus, words_of,
};
use vstd::prelude::*;
use vstd::slice::slice_subrange;

verus! {

pub const MOUNT_HELPER: &'static str = "/usr/local/libexec/block-storage-mount";

/// Bytes of the volume that the file system tests use.
pub const VOLUME_BYTES: u64 = 134217728;

/// Bytes of its backing.
pub const BACKING_BYTES: u64 = 1073741824;

/// Largest mount table that is read.
pub const MAX_MOUNTINFO_BYTES: u64 = 16777216;

/// A mounted file system.
#[derive(Debug)]
pub struct Mount {
    pub id: u64,
    pub device: (u32, u32),
    pub root: String,
    pub target: String,
    pub filesystem: String,
}

/// The meaning of a mounted file system.
pub ghost struct MountView {
    pub id: u64,
    pub device: (u32, u32),
    pub root: Seq<char>,
    pub target: Seq<char>,
    pub filesystem: Seq<char>,
}

impl View for Mount {
    type V = MountView;

    open spec fn view(&self) -> MountView {
        MountView {
            id: self.id,
            device: self.device,
            root: self.root@,
            target: self.target@,
            filesystem: self.filesystem@,
        }
    }
}

/// The meaning of a table.
pub open spec fn table_view(table: Seq<Mount>) -> Seq<MountView> {
    Seq::new(table.len(), |i: int| table[i]@)
}

/// The character that a backslash and three digits stand for.
pub open spec fn escaped(digits: Seq<char>) -> Option<char> {
    if digits == "040"@ {
        Some(' ')
    } else if digits == "011"@ {
        Some('\t')
    } else if digits == "012"@ {
        Some('\n')
    } else if digits == "134"@ {
        Some('\\')
    } else {
        None
    }
}

/// The path that a field of the table stands for.
pub open spec fn decoded_path(field: Seq<char>) -> Option<Seq<char>>
    decreases field.len(),
{
    if field.len() == 0 {
        Some(Seq::empty())
    } else if field[0] != '\\' {
        match decoded_path(field.skip(1)) {
            Some(rest) => Some(seq![field[0]] + rest),
            None => None,
        }
    } else if field.len() < 4 {
        None
    } else {
        match (escaped(field.subrange(1, 4)), decoded_path(field.skip(4))) {
            (Some(character), Some(rest)) => Some(seq![character] + rest),
            _ => None,
        }
    }
}

/// The mount that a line of the table describes, if it does.
pub open spec fn mount_in(line: Seq<char>) -> Option<MountView> {
    match find_in(line, " - "@) {
        None => None,
        Some(at) => {
            let fields = words_of(line.take(at));
            let types = words_of(line.skip(at + " - "@.len()));
            if fields.len() < 6 || types.len() == 0 {
                None
            } else {
                let colon = position(fields[2], ':');
                let major = fields[2].take(colon);
                let minor = fields[2].skip(colon + 1);
                let root = decoded_path(fields[3]);
                let target = decoded_path(fields[4]);
                if colon >= fields[2].len() || !is_unsigned(fields[0], u64::MAX as int)
                    || !is_unsigned(major, u32::MAX as int) || !is_unsigned(minor, u32::MAX as int)
                    || root is None || target is None {
                    None
                } else {
                    Some(
                        MountView {
                            id: digits_value(without_plus(fields[0])) as u64,
                            device: (
                                digits_value(without_plus(major)) as u32,
                                digits_value(without_plus(minor)) as u32,
                            ),
                            root: root->0,
                            target: target->0,
                            filesystem: types[0],
                        },
                    )
                }
            }
        },
    }
}

/// The mounts that the lines of a table describe, if each describes one.
pub open spec fn mounts_in(lines: Seq<Seq<char>>) -> Option<Seq<MountView>>
    decreases lines.len(),
{
    if lines.len() == 0 {
        Some(Seq::empty())
    } else {
        match (mounts_in(lines.drop_last()), mount_in(lines.last())) {
            (Some(before), Some(mount)) => Some(before.push(mount)),
            _ => None,
        }
    }
}

/// The error of a malformed table.
pub open spec fn mount_error() -> (LabErrorKind, Seq<char>) {
    (LabErrorKind::InvalidData, "invalid mountinfo record"@)
}

fn invalid_mount() -> (error: LabError)
    ensures
        error@ == mount_error(),
{
    failure(LabErrorKind::InvalidData, "invalid mountinfo record")
}

fn decode_path(field: &[char]) -> (path: Option<String>)
    ensures
        match path {
            Some(found) => decoded_path(field@) == Some(found@),
            None => decoded_path(field@) is None,
        },
{
    let mut path = String::new();
    let mut i: usize = 0;
    assert(field@.skip(0) =~= field@);
    assert(decoded_path(field@) is Some ==> path@ + decoded_path(field@)->0 =~= decoded_path(
        field@,
    )->0);
    while i < field.len()
        invariant
            i <= field@.len(),
            decoded_path(field@) is Some <==> decoded_path(field@.skip(i as int)) is Some,
            decoded_path(field@) is Some ==> decoded_path(field@)->0 == path@ + decoded_path(
                field@.skip(i as int),
            )->0,
        decreases field@.len() - i,
    {
        let ghost rest = field@.skip(i as int);
        let ghost before = path@;
        if field[i] != '\\' {
            assert(rest.skip(1) =~= field@.skip(i + 1));
            path.push(field[i]);
            proof {
                if decoded_path(rest) is Some {
                    let tail = decoded_path(rest.skip(1))->0;
                    assert(before + (seq![rest[0]] + tail) =~= path@ + tail);
                }
            }
            i = i + 1;
        } else {
            if field.len() - i < 4 {
                return None;
            }
            let digits = slice_subrange(field, i + 1, i + 4);
            assert(digits@ =~= rest.subrange(1, 4));
            assert(rest.skip(4) =~= field@.skip(i + 4));
            let character: char = if spells(digits, "040") {
                ' '
            } else if spells(digits, "011") {
                '\t'
            } else if spells(digits, "012") {
                '\n'
            } else if spells(digits, "134") {
                '\\'
            } else {
                return None;
            };
            path.push(character);
            proof {
                if decoded_path(rest) is Some {
                    let tail = decoded_path(rest.skip(4))->0;
                    assert(before + (seq![character] + tail) =~= path@ + tail);
                }
            }
            i = i + 4;
        }
    }
    assert(field@.skip(i as int) =~= Seq::<char>::empty());
    assert(path@ + Seq::<char>::empty() =~= path@);
    Some(path)
}

fn parse_mount_chars(line: &[char]) -> (result: Result<Mount, LabError>)
    ensures
        match result {
            Ok(mount) => mount_in(line@) == Some(mount@),
            Err(error) => mount_in(line@) is None && error@ == mount_error(),
        },
{
    let separator = chars_of(" - ");
    let at: usize = match find_text(line, separator.as_slice()) {
        Some(at) => at,
        None => {
            return Err(invalid_mount());
        },
    };
    let left = slice_subrange(line, 0, at);
    let right = slice_subrange(line, at + separator.len(), line.len());
    assert(left@ =~= line@.take(at as int));
    assert(right@ =~= line@.skip(at + " - "@.len()));
    let fields = words(left);
    let types = words(right);
    if fields.len() < 6 || types.len() == 0 {
        return Err(invalid_mount());
    }
    assert(forall|i: int|
        0 <= i < fields@.len() ==> (#[trigger] views(fields@)[i]) == fields@[i]@);
    assert(views(types@)[0] == types@[0]@);
    let number = fields[2].as_slice();
    assert(number@ == views(fields@)[2]);
    assert(fields@[0]@ == views(fields@)[0]);
    assert(fields@[3]@ == views(fields@)[3]);
    assert(fields@[4]@ == views(fields@)[4]);
    let colon: usize = find_char(number, ':');
    if colon == number.len() {
        return Err(invalid_mount());
    }
    let major = slice_subrange(number, 0, colon);
    let minor = slice_subrange(number, colon + 1, number.len());
    assert(major@ =~= number@.take(colon as int));
    assert(minor@ =~= number@.skip(colon + 1));
    match (
        parse_unsigned(fields[0].as_slice(), u64::MAX),
        parse_unsigned(major, u32::MAX as u64),
        parse_unsigned(minor, u32::MAX as u64),
        decode_path(fields[3].as_slice()),
        decode_path(fields[4].as_slice()),
    ) {
        (Some(id), Some(major), Some(minor), Some(root), Some(target)) => Ok(
            Mount {
                id,
                device: (major as u32, minor as u32),
                root,
                target,
                filesystem: string_of(types[0].as_slice()),
            },
        ),
        _ => Err(invalid_mount()),
    }
}

/// Reads one line of the table of mounts.
pub fn parse_mount(line: &str) -> (result: Result<Mount, LabError>)
    ensures
        match result {
            Ok(mount) => mount_in(line@) == Some(mount@),
            Err(error) => mount_in(line@) is None && error@ == mount_error(),
        },
{
    let chars = chars_of(line);
    parse_mount_chars(chars.as_slice())
}

/// A table of which one line is malformed is malformed.
proof fn lemma_mounts_prefix(lines: Seq<Seq<char>>, count: int)
    requires
        0 <= count <= lines.len(),
        mounts_in(lines.take(count)) is None,
    ensures
        mounts_in(lines) is None,
    decreases lines.len(),
{
    if count == lines.len() {
        assert(lines.take(count) =~= lines);
    } else {
        assert(lines.drop_last().take(count) =~= lines.take(count));
        lemma_mounts_prefix(lines.drop_last(), count);
    }
}

/// Demands that a table of so many bytes is not too long to be read.
pub fn check_table_size(bytes: u64) -> (result: Result<(), LabError>)
    ensures
        demanded(bytes <= MAX_MOUNTINFO_BYTES, "mount table exceeds the lab limit"@, result),
{
    demand(bytes <= MAX_MOUNTINFO_BYTES, "mount table exceeds the lab limit")
}

/// Reads the table of mounts.
pub fn parse_mounts(text: &str) -> (result: Result<Vec<Mount>, LabError>)
    ensures
        match result {
            Ok(table) => mounts_in(lines_of(text@)) == Some(table_view(table@)),
            Err(error) => mounts_in(lines_of(text@)) is None && error@ == mount_error(),
        },
{
    let chars = chars_of(text);
    let all = lines(chars.as_slice());
    let ghost listed = lines_of(text@);
    let mut table: Vec<Mount> = Vec::new();
    let mut i: usize = 0;
    assert(listed.take(0) =~= Seq::<Seq<char>>::empty());
    assert(table_view(table@) =~= Seq::<MountView>::empty());
    while i < all.len()
        invariant
            i <= all@.len(),
            views(all@) == listed,
            listed == lines_of(text@),
            mounts_in(listed.take(i as int)) == Some(table_view(table@)),
        decreases all@.len() - i,
    {
        let ghost before = table@;
        proof {
            assert(views(all@)[i as int] == all@[i as int]@);
            assert(listed.take(i + 1).drop_last() =~= listed.take(i as int));
            assert(listed.take(i + 1).last() == all@[i as int]@);
        }
        match parse_mount_chars(all[i].as_slice()) {
            Ok(mount) => {
                table.push(mount);
                assert(table_view(table@) =~= table_view(before).push(mount@));
            },
            Err(error) => {
                proof {
                    assert(mounts_in(listed.take(i + 1)) is None);
                    lemma_mounts_prefix(listed, i + 1);
                    assert(mounts_in(lines_of(text@)) is None);
                }
                return Err(error);
            },
        }
        i = i + 1;
    }
    assert(listed.take(all@.len() as int) =~= listed);
    Ok(table)
}

/// Whether a mount is of the device, or is at or below the directory.
pub open spec fn concerns(mount: MountView, device: (u32, u32), target: Seq<char>) -> bool {
    mount.device == device || lies_under(mount.target, target)
}

/// The mounts that are of the device, or are at or below the directory.
pub open spec fn related(table: Seq<MountView>, device: (u32, u32), target: Seq<char>) -> Seq<
    MountView,
>
    decreases table.len(),
{
    if table.len() == 0 {
        Seq::empty()
    } else {
        let before = related(table.drop_last(), device, target);
        if concerns(table.last(), device, target) {
            before.push(table.last())
        } else {
            before
        }
    }
}

fn is_related(mount: &Mount, device: (u32, u32), target: &str) -> (found: bool)
    ensures
        found == concerns(mount@, device, target@),
{
    (mount.device.0 == device.0 && mount.device.1 == device.1) || starts_with(
        mount.target.as_str(),
        target,
    )
}

/// Demands that neither the device nor anything at or below the directory is mounted.
pub fn require_unmounted(table: &Vec<Mount>, device: (u32, u32), target: &str) -> (result: Result<
    (),
    LabError,
>)
    ensures
        match result {
            Ok(()) => forall|i: int|
                0 <= i < table@.len() ==> !concerns(#[trigger] table@[i]@, device, target@),
            Err(error) => {
                &&& exists|i: int|
                    0 <= i < table@.len() && concerns(#[trigger] table@[i]@, device, target@)
                &&& error@ == (
                    LabErrorKind::Other,
                    "device or owned mount directory is already mounted"@,
                )
            },
        },
        result is Ok <==> related(table_view(table@), device, target@).len() == 0,
{
    let mut i: usize = 0;
    while i < table.len()
        invariant
            i <= table@.len(),
            forall|j: int| 0 <= j < i ==> !concerns(#[trigger] table@[j]@, device, target@),
        decreases table@.len() - i,
    {
        if is_related(&table[i], device, target) {
            assert(concerns(table@[i as int]@, device, target@));
            proof {
                law_mounted_is_not_unmounted(table_view(table@), device, target@);
                assert(concerns(table_view(table@)[i as int], device, target@));
            }
            return Err(
                failure(LabErrorKind::Other, "device or owned mount directory is already mounted"),
            );
        }
        i = i + 1;
    }
    proof {
        let all = table_view(table@);
        law_mounted_is_not_unmounted(all, device, target@);
        assert forall|i: int| 0 <= i < all.len() implies !concerns(
            #[trigger] all[i],
            device,
            target@,
        ) by {
            assert(!concerns(table@[i]@, device, target@));
        }
    }
    Ok(())
}

/// Whether a mount is the recorded device's whole ext4 file system at the directory.
pub open spec fn is_fixture(mount: MountView, device: (u32, u32), target: Seq<char>) -> bool {
    &&& mount.device == device
    &&& same_path(mount.target, target)
    &&& same_path(mount.root, "/"@)
    &&& mount.filesystem == "ext4"@
}

/// Demands that exactly one mount concerns the device and the directory, and that it is the
/// device's ext4 file system there.
pub fn require_mounted(table: &Vec<Mount>, device: (u32, u32), target: &str) -> (result: Result<
    u64,
    LabError,
>)
    ensures
        ({
            let found = related(table_view(table@), device, target@);
            match result {
                Ok(id) => {
                    &&& found.len() == 1
                    &&& is_fixture(found[0], device, target@)
                    &&& id == found[0].id
                },
                Err(error) => {
                    &&& found.len() != 1 ==> error@ == (
                        LabErrorKind::Other,
                        "missing, stacked, nested, or aliased mount; refusing operation"@,
                    )
                    &&& found.len() == 1 ==> {
                        &&& !is_fixture(found[0], device, target@)
                        &&& error@ == (
                            LabErrorKind::Other,
                            "mount source, root, target, or filesystem differs from recorded ext4 device"@,
                        )
                    }
                },
            }
        }),
{
    let mut count: usize = 0;
    let mut at: usize = 0;
    let mut i: usize = 0;
    let ghost all = table_view(table@);
    assert(all.take(0) =~= Seq::<MountView>::empty());
    while i < table.len()
        invariant
            i <= table@.len(),
            all == table_view(table@),
            count <= i,
            count == related(all.take(i as int), device, target@).len(),
            count > 0 ==> at < table@.len(),
            count == 1 ==> related(all.take(i as int), device, target@)[0] == table@[at as int]@,
        decreases table@.len() - i,
    {
        proof {
            assert(all.take(i + 1).drop_last() =~= all.take(i as int));
            assert(all.take(i + 1).last() == table@[i as int]@);
        }
        if is_related(&table[i], device, target) {
            count = count + 1;
            at = i;
        }
        i = i + 1;
    }
    assert(all.take(table@.len() as int) =~= all);
    if count != 1 {
        return Err(
            failure(
                LabErrorKind::Other,
                "missing, stacked, nested, or aliased mount; refusing operation",
            ),
        );
    }
    let mount = &table[at];
    let filesystem = chars_of(mount.filesystem.as_str());
    if !(mount.device.0 == device.0 && mount.device.1 == device.1) || !same(
        mount.target.as_str(),
        target,
    ) || !same(mount.root.as_str(), "/") || !spells(filesystem.as_slice(), "ext4") {
        return Err(
            failure(
                LabErrorKind::Other,
                "mount source, root, target, or filesystem differs from recorded ext4 device",
            ),
        );
    }
    Ok(mount.id)
}

/// Law: a directory cannot be demanded mounted and unmounted at once.
pub proof fn law_mounted_is_not_unmounted(
    table: Seq<MountView>,
    device: (u32, u32),
    target: Seq<char>,
)
    ensures
        related(table, device, target).len() == 0 <==> forall|i: int|
            0 <= i < table.len() ==> !concerns(#[trigger] table[i], device, target),
    decreases table.len(),
{
    if table.len() > 0 {
        let before = table.drop_last();
        law_mounted_is_not_unmounted(before, device, target);
        if related(table, device, target).len() == 0 {
            assert forall|i: int| 0 <= i < table.len() implies !concerns(
                #[trigger] table[i],
                device,
                target,
            ) by {
                if i < before.len() {
                    assert(before[i] == table[i]);
                }
            }
        } else if concerns(table.last(), device, target) {
            assert(concerns(table[table.len() - 1], device, target));
        } else {
            let i = choose|i: int|
                0 <= i < before.len() && concerns(#[trigger] before[i], device, target);
            assert(concerns(table[i], device, target));
        }
    }
}

/// Whether `name` is one that the lab gives its directories: the prefix, a process number, a
/// dot, and a counter.
pub open spec fn is_owned_name(name: Seq<char>) -> bool {
    let prefix = "my-block-storage-ublk."@;
    &&& has_prefix(name, prefix)
    &&& {
        let suffix = name.skip(prefix.len() as int);
        let dot = position(suffix, '.');
        &&& dot < suffix.len()
        &&& dot > 0
        &&& dot + 1 < suffix.len()
        &&& all_digits(suffix.take(dot))
        &&& all_digits(suffix.skip(dot + 1))
    }
}

fn owned_name_chars(name: &[char]) -> (owned: bool)
    ensures
        owned == is_owned_name(name@),
{
    let suffix = match strip_prefix(name, "my-block-storage-ublk.") {
        Some(suffix) => suffix,
        None => {
            return false;
        },
    };
    let dot: usize = find_char(suffix, '.');
    if dot == suffix.len() || dot == 0 || dot + 1 == suffix.len() {
        return false;
    }
    let pid = slice_subrange(suffix, 0, dot);
    let nonce = slice_subrange(suffix, dot + 1, suffix.len());
    assert(pid@ =~= suffix@.take(dot as int));
    assert(nonce@ =~= suffix@.skip(dot + 1));
    only_digits(pid) && only_digits(nonce)
}

/// Whether `name` is one that the lab gives its directories.
pub fn owned_name(name: &str) -> (owned: bool)
    ensures
        owned == is_owned_name(name@),
{
    let chars = chars_of(name);
    owned_name_chars(chars.as_slice())
}

/// How a path is written in the table.
pub open spec fn encoded_path(path: Seq<char>) -> Seq<char>
    decreases path.len(),
{
    if path.len() == 0 {
        Seq::empty()
    } else {
        let rest = encoded_path(path.skip(1));
        if path[0] == ' ' {
            "\\040"@ + rest
        } else if path[0] == '\t' {
            "\\011"@ + rest
        } else if path[0] == '\n' {
            "\\012"@ + rest
        } else if path[0] == '\\' {
            "\\134"@ + rest
        } else {
            seq![path[0]] + rest
        }
    }
}

/// Law: every path is read back from how it is written in the table.
pub proof fn law_paths_are_read_back(path: Seq<char>)
    ensures
        decoded_path(encoded_path(path)) == Some(path),
    decreases path.len(),
{
    reveal_strlit("\\040");
    reveal_strlit("\\011");
    reveal_strlit("\\012");
    reveal_strlit("\\134");
    reveal_strlit("040");
    reveal_strlit("011");
    reveal_strlit("012");
    reveal_strlit("134");
    if path.len() > 0 {
        let rest = encoded_path(path.skip(1));
        let field = encoded_path(path);
        law_paths_are_read_back(path.skip(1));
        assert(seq![path[0]] + path.skip(1) =~= path);
        if path[0] == ' ' || path[0] == '\t' || path[0] == '\n' || path[0] == '\\' {
            assert(field[0] == '\\');
            assert(field.skip(4) =~= rest);
            let digits = field.subrange(1, 4);
            if path[0] == ' ' {
                assert(digits =~= "040"@);
            } else if path[0] == '\t' {
                assert(digits =~= "011"@);
                assert("040"@[1] == '4' && "011"@[1] == '1');
            } else if path[0] == '\n' {
                assert(digits =~= "012"@);
                assert("040"@[1] == '4' && "011"@[2] == '1' && "012"@[1] == '1' && "012"@[2]
                    == '2');
            } else {
                assert(digits =~= "134"@);
                assert("040"@[0] == '0' && "011"@[0] == '0' && "012"@[0] == '0' && "134"@[0]
                    == '1');
            }
            assert(escaped(digits) == Some(path[0]));
        } else {
            assert(field.skip(1) =~= rest);
        }
    } else {
        assert(path =~= Seq::<char>::empty());
    }
}

/// Law: a table is read line by line: two tables one after the other give the mounts of both in
/// order, and a table with a line that describes no mount gives none at all.
pub proof fn law_tables_are_read_line_by_line(first: Seq<Seq<char>>, second: Seq<Seq<char>>)
    ensures
        mounts_in(Seq::empty()) == Some(Seq::<MountView>::empty()),
        mounts_in(first + second) == (match (mounts_in(first), mounts_in(second)) {
            (Some(one), Some(two)) => Some(one + two),
            _ => None,
        }),
    decreases second.len(),
{
    if second.len() == 0 {
        assert(first + second =~= first);
        if let Some(one) = mounts_in(first) {
            assert(one + Seq::<MountView>::empty() =~= one);
        }
    } else {
        law_tables_are_read_line_by_line(first, second.drop_last());
        assert((first + second).drop_last() =~= first + second.drop_last());
        if let (Some(one), Some(two)) = (mounts_in(first), mounts_in(second.drop_last())) {
            if let Some(mount) = mount_in(second.last()) {
                assert((one + two).push(mount) =~= one + two.push(mount));
            }
        }
    }
}

/// Law: which mounts concern a device and a directory: all that are of the device, wherever they
/// are, and all that are at or below the directory, of whatever device; in the order of the table,
/// and none twice.
pub proof fn law_related_mounts(
    first: Seq<MountView>,
    second: Seq<MountView>,
    mount: MountView,
    device: (u32, u32),
    target: Seq<char>,
)
    ensures
        related(first + second, device, target) == related(first, device, target) + related(
            second,
            device,
            target,
        ),
        related(seq![mount], device, target) == (if (mount.device.0 == device.0 && mount.device.1
            == device.1) || lies_under(mount.target, target) {
            seq![mount]
        } else {
            Seq::empty()
        }),
    decreases second.len(),
{
    reveal_with_fuel(related, 2);
    assert(seq![mount].drop_last() =~= Seq::<MountView>::empty());
    assert(related(seq![mount], device, target) =~= (if concerns(mount, device, target) {
        seq![mount]
    } else {
        Seq::empty()
    }));
    if second.len() == 0 {
        assert(first + second =~= first);
        assert(related(first, device, target) + Seq::<MountView>::empty() =~= related(
            first,
            device,
            target,
        ));
    } else {
        law_related_mounts(first, second.drop_last(), mount, device, target);
        assert((first + second).drop_last() =~= first + second.drop_last());
        assert(related(first + second, device, target) =~= related(first, device, target)
            + related(second, device, target));
    }
}

/// Law: a mount is the fixture's exactly if it is of the recorded device, at exactly the directory,
/// of the whole file system, and ext4.
pub proof fn law_fixture_mounts(mount: MountView, device: (u32, u32), target: Seq<char>)
    ensures
        is_fixture(mount, device, target) <==> mount.device.0 == device.0 && mount.device.1
            == device.1 && same_path(mount.target, target) && same_path(mount.root, "/"@)
            && mount.filesystem == "ext4"@,
        is_fixture(mount, device, target) ==> concerns(mount, device, target),
{
}

/// Law: the lab's own directories are named after a process and a number, both in decimal, and
/// nothing else is.
pub proof fn law_owned_names(name: Seq<char>, process: Seq<char>, number: Seq<char>)
    ensures
        process.len() > 0 && all_digits(process) && number.len() > 0 && all_digits(number)
            ==> is_owned_name("my-block-storage-ublk."@ + process + seq!['.'] + number),
        is_owned_name(name) ==> exists|first: Seq<char>, second: Seq<char>|
            first.len() > 0 && second.len() > 0 && #[trigger] all_digits(first)
                && #[trigger] all_digits(second) && name == "my-block-storage-ublk."@ + first + seq![
                '.',
            ] + second,
{
    let prefix = "my-block-storage-ublk."@;
    if process.len() > 0 && all_digits(process) && number.len() > 0 && all_digits(number) {
        let made = prefix + process + seq!['.'] + number;
        let suffix = process + seq!['.'] + number;
        assert(made.take(prefix.len() as int) =~= prefix);
        assert(made.skip(prefix.len() as int) =~= suffix);
        assert forall|i: int| 0 <= i < process.len() implies #[trigger] process[i] != '.' by {
            assert(is_digit(process[i]));
        }
        lemma_position_behind(process, '.', number);
        assert(suffix.take(process.len() as int) =~= process);
        assert(suffix.skip(process.len() as int + 1) =~= number);
    }
    if is_owned_name(name) {
        let suffix = name.skip(prefix.len() as int);
        let dot = position(suffix, '.');
        lemma_position(suffix, '.');
        let (first, second) = (suffix.take(dot), suffix.skip(dot + 1));
        assert(all_digits(first) && all_digits(second));
        assert(name =~= prefix + first + seq!['.'] + second);
    }
}

/// Words with one space between any two of them.
pub open spec fn spaced(words: Seq<Seq<char>>) -> Seq<char>
    decreases words.len(),
{
    if words.len() == 0 {
        Seq::empty()
    } else if words.len() == 1 {
        words[0]
    } else {
        words[0] + seq![' '] + spaced(words.skip(1))
    }
}

/// Whether `word` is a word that is no dash.
pub open spec fn plain_word(word: Seq<char>) -> bool {
    &&& word.len() > 0
    &&& word != seq!['-']
    &&& forall|i: int| 0 <= i < word.len() ==> !is_space(#[trigger] word[i])
}

/// The words of spaced words are those words.
proof fn lemma_words_of_spaced(words: Seq<Seq<char>>)
    requires
        forall|i: int| 0 <= i < words.len() ==> plain_word(#[trigger] words[i]),
    ensures
        words_of(spaced(words)) == words,
        words.len() > 0 ==> words_of(seq![' '] + spaced(words)) == words,
    decreases words.len(),
{
    let none = Seq::<char>::empty();
    let space = seq![' '];
    if words.len() == 0 {
        law_words_one_by_one(none, seq!['x'], none);
        assert(words =~= Seq::<Seq<char>>::empty());
    } else {
        let first = words[0];
        assert(plain_word(first));
        let rest = if words.len() == 1 {
            none
        } else {
            space + spaced(words.skip(1))
        };
        assert forall|i: int| 0 <= i < words.skip(1).len() implies plain_word(
            #[trigger] words.skip(1)[i],
        ) by {
            assert(plain_word(words[i + 1]));
        }
        if words.len() == 1 {
            assert(first + none =~= first);
            law_words_one_by_one(none, seq!['x'], none);
            assert(words_of(rest) =~= words.skip(1));
        } else {
            lemma_words_of_spaced(words.skip(1));
        }
        assert(spaced(words) =~= none + first + rest);
        assert(space + spaced(words) =~= space + first + rest);
        law_words_one_by_one(none, first, rest);
        law_words_one_by_one(space, first, rest);
        assert(seq![first] + words.skip(1) =~= words);
    }
}

/// No dash stands alone among spaced words.
proof fn lemma_no_dash_alone(words: Seq<Seq<char>>, tail: Seq<char>, at: int)
    requires
        words.len() > 0,
        forall|i: int| 0 <= i < words.len() ==> plain_word(#[trigger] words[i]),
        0 <= at < spaced(words).len(),
    ensures
        ({
            let line = spaced(words) + seq![' ', '-', ' '] + tail;
            !(line[at] == ' ' && line[at + 1] == '-' && line[at + 2] == ' ')
        }),
    decreases words.len(),
{
    let first = words[0];
    let end = seq![' ', '-', ' '] + tail;
    let line = spaced(words) + seq![' ', '-', ' '] + tail;
    assert(plain_word(first));
    assert(line =~= spaced(words) + end);
    if at < first.len() {
        assert(line[at] == first[at]);
        assert(!is_space(first[at]));
    } else {
        let others = words.skip(1);
        let rest = spaced(others);
        assert forall|i: int| 0 <= i < others.len() implies plain_word(#[trigger] others[i]) by {
            assert(plain_word(words[i + 1]));
        }
        let next = others[0];
        assert(plain_word(next));
        assert(rest.len() >= next.len());
        assert(forall|i: int| 0 <= i < next.len() ==> rest[i] == next[i]);
        let from = first.len() + 1;
        assert forall|i: int| 0 <= i < (rest + end).len() implies line[from + i] == #[trigger] (rest
            + end)[i] by {}
        if at == first.len() {
            if next.len() == 1 {
                assert(next[0] != '-') by {
                    if next[0] == '-' {
                        assert(next =~= seq!['-']);
                    }
                }
                assert(line[at + 1] == (rest + end)[0]);
            } else {
                assert(line[at + 2] == (rest + end)[1]);
                assert(!is_space(next[1]));
            }
        } else {
            lemma_no_dash_alone(others, tail, at - from);
            let shorter = rest + seq![' ', '-', ' '] + tail;
            assert(shorter =~= rest + end);
            assert(line[at] == shorter[at - from]);
            assert(line[at + 1] == shorter[at - from + 1]);
            assert(line[at + 2] == shorter[at - from + 2]);
        }
    }
}

/// A written path is one word.
proof fn lemma_encoded_path_is_a_word(path: Seq<char>)
    requires
        forall|i: int|
            0 <= i < path.len() ==> (is_space(#[trigger] path[i]) ==> path[i] == ' ' || path[i]
                == '\t' || path[i] == '\n'),
    ensures
        encoded_path(path).len() >= path.len(),
        forall|i: int|
            0 <= i < encoded_path(path).len() ==> !is_space(#[trigger] encoded_path(path)[i]),
        path.len() > 0 && path[0] == '/' ==> encoded_path(path).len() > 0 && encoded_path(path)[0]
            == '/',
    decreases path.len(),
{
    reveal_strlit("\\040");
    reveal_strlit("\\011");
    reveal_strlit("\\012");
    reveal_strlit("\\134");
    if path.len() > 0 {
        let tail = path.skip(1);
        assert forall|i: int| 0 <= i < tail.len() && is_space(#[trigger] tail[i]) implies tail[i]
            == ' ' || tail[i] == '\t' || tail[i] == '\n' by {
            assert(tail[i] == path[i + 1]);
        }
        lemma_encoded_path_is_a_word(tail);
        let rest = encoded_path(tail);
        let field = encoded_path(path);
        let head = field.len() - rest.len();
        assert(head == 1 || head == 4);
        assert forall|i: int| 0 <= i < field.len() implies !is_space(#[trigger] field[i]) by {
            if i >= head {
                assert(field[i] == rest[i - head]);
            }
        }
    }
}

/// Law: a line of the table that describes a mount gives exactly that mount: any number, device,
/// root and directory that can be written there, and any type of file system, whatever the other
/// fields say.
#[verifier::spinoff_prover]
#[verifier::rlimit(60)]
pub proof fn law_mounts_are_read_back(
    id: u64,
    parent: Seq<char>,
    device: (u32, u32),
    root: Seq<char>,
    target: Seq<char>,
    options: Seq<char>,
    filesystem: Seq<char>,
    rest: Seq<char>,
)
    requires
        plain_word(parent),
        plain_word(options),
        filesystem.len() > 0,
        forall|i: int| 0 <= i < filesystem.len() ==> !is_space(#[trigger] filesystem[i]),
        root.len() > 0 && root[0] == '/',
        target.len() > 0 && target[0] == '/',
        forall|i: int|
            0 <= i < root.len() ==> (is_space(#[trigger] root[i]) ==> root[i] == ' ' || root[i]
                == '\t' || root[i] == '\n'),
        forall|i: int|
            0 <= i < target.len() ==> (is_space(#[trigger] target[i]) ==> target[i] == ' '
                || target[i] == '\t' || target[i] == '\n'),
        rest.len() > 0 ==> rest[0] == ' ',
    ensures
        mount_in(
            spaced(
                seq![
                    decimal(id as int),
                    parent,
                    decimal(device.0 as int) + seq![':'] + decimal(device.1 as int),
                    encoded_path(root),
                    encoded_path(target),
                    options,
                ],
            ) + seq![' ', '-', ' '] + (filesystem + rest),
        ) == Some(MountView { id, device, root, target, filesystem }),
{
    reveal_strlit(" - ");
    let dash = " - "@;
    assert(dash =~= seq![' ', '-', ' ']);
    let (major, minor) = (decimal(device.0 as int), decimal(device.1 as int));
    let number = major + seq![':'] + minor;
    let fields = seq![
        decimal(id as int),
        parent,
        number,
        encoded_path(root),
        encoded_path(target),
        options,
    ];
    let left = spaced(fields);
    let tail = filesystem + rest;
    let line = left + seq![' ', '-', ' '] + tail;
    law_unsigned_numbers(id as int, u64::MAX as int, Seq::empty());
    law_unsigned_numbers(device.0 as int, u32::MAX as int, Seq::empty());
    law_unsigned_numbers(device.1 as int, u32::MAX as int, Seq::empty());
    law_decimal_denotes_its_number(id as int);
    law_decimal_denotes_its_number(device.0 as int);
    law_decimal_denotes_its_number(device.1 as int);
    law_paths_are_read_back(root);
    law_paths_are_read_back(target);
    lemma_encoded_path_is_a_word(root);
    lemma_encoded_path_is_a_word(target);
    assert forall|i: int| 0 <= i < major.len() implies #[trigger] major[i] != ':' by {
        assert(is_digit(major[i]));
    }
    lemma_position_behind(major, ':', minor);
    assert(number.take(major.len() as int) =~= major);
    assert(number.skip(major.len() as int + 1) =~= minor);
    assert(plain_word(decimal(id as int))) by {
        let digits = decimal(id as int);
        assert(is_digit(digits[0]));
        assert forall|i: int| 0 <= i < digits.len() implies !is_space(#[trigger] digits[i]) by {
            assert(is_digit(digits[i]));
        }
    }
    assert(plain_word(number)) by {
        assert(number.len() > 1);
        assert forall|i: int| 0 <= i < number.len() implies !is_space(#[trigger] number[i]) by {
            if i < major.len() {
                assert(is_digit(major[i]));
            } else if i > major.len() {
                assert(is_digit(minor[i - major.len() - 1]));
            }
        }
    }
    assert(plain_word(encoded_path(root)));
    assert(plain_word(encoded_path(target)));
    assert forall|i: int| 0 <= i < fields.len() implies plain_word(#[trigger] fields[i]) by {}
    lemma_words_of_spaced(fields);
    assert forall|i: int| 0 <= i < left.len() implies #[trigger] line.subrange(i, i + dash.len())
        != dash by {
        lemma_no_dash_alone(fields, tail, i);
        if line.subrange(i, i + 3) == dash {
            assert(line.subrange(i, i + 3)[0] == line[i]);
            assert(line.subrange(i, i + 3)[1] == line[i + 1]);
            assert(line.subrange(i, i + 3)[2] == line[i + 2]);
        }
    }
    assert(line.subrange(left.len() as int, (left.len() + 3) as int) =~= dash);
    law_first_occurrence_is_found(line, dash, left.len() as int);
    assert(line.take(left.len() as int) =~= left);
    assert(line.skip((left.len() + 3) as int) =~= tail);
    let none = Seq::<char>::empty();
    assert(tail =~= none + filesystem + rest);
    law_words_one_by_one(none, filesystem, rest);
    let types = words_of(tail);
    assert(types[0] == filesystem);
    assert(fields[2] == number && fields[3] == encoded_path(root));
}

} // verus!
