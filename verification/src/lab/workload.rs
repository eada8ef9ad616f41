//! The files that the ext4 lab writes, and what it expects to find again.

use crate::bytes::{copy_of, push_zeros};
#[allow(unused_imports)]
use crate::bytes::zeros;
use crate::checksum::hash_block;
#[allow(unused_imports)]
use crate::checksum::xxh3_of;
use crate::lab::error::{failure, failure_text, LabError, LabErrorKind};
use crate::lab::node::{NodeFacts, NodeKind, Observed};
use crate::mounts::owned_name;
#[allow(unused_imports)]
use crate::mounts::is_owned_name;
use crate::paths::components_of;
#[allow(unused_imports)]
use crate::paths::components;
use crate::text::{
    chars_of, only_digits, push_base, push_decimal, spells, string_of, strip_prefix,
};
#[allow(unused_imports)]
use crate::text::{
    all_digits, base_digits, decimal, has_prefix, is_digit, law_decimal_denotes_its_number,
    string_views, views,
};
use vstd::prelude::*;

verus! {

/// How long the file is when it is first written.
pub const INITIAL_BYTES: usize = 1_048_576;

/// How long the file is when it has been cut.
pub const RETAINED_BYTES: usize = 60_013;

/// How long the file is when it has been extended again.
pub const FINAL_BYTES: usize = 70_001;

/// Where the file is overwritten.
pub const OVERWRITE_OFFSET: usize = 32_768;

/// How much of the file is overwritten.
pub const OVERWRITE_BYTES: usize = 4096;

/// What the file is overwritten with.
pub const OVERWRITE_BYTE: u8 = 0xa7;

/// How long the file is that stays as it was written.
pub const STABLE_BYTES: usize = 262_144;

/// The byte at `index` of the pattern.
pub open spec fn pattern_byte(index: int) -> u8 {
    ((index * 31 + index / 4096) % 251) as u8
}

/// The first `length` bytes of the pattern.
pub open spec fn pattern_of(length: nat) -> Seq<u8> {
    Seq::new(length, |i: int| pattern_byte(i))
}

/// The first `length` bytes of the pattern.
pub fn pattern(length: usize) -> (bytes: Vec<u8>)
    requires
        length * 32 <= usize::MAX,
    ensures
        bytes@ == pattern_of(length as nat),
{
    let mut bytes: Vec<u8> = Vec::with_capacity(length);
    let mut i: usize = 0;
    while i < length
        invariant
            i <= length,
            length * 32 <= usize::MAX,
            bytes@ == pattern_of(i as nat),
        decreases length - i,
    {
        bytes.push(((i * 31 + i / 4096) % 251) as u8);
        assert(bytes@ =~= pattern_of((i + 1) as nat));
        i = i + 1;
    }
    bytes
}

/// `content` with `count` bytes from `offset` on set to `byte`.
pub open spec fn overwritten(content: Seq<u8>, offset: int, count: int, byte: u8) -> Seq<u8> {
    Seq::new(
        content.len(),
        |i: int|
            if offset <= i < offset + count {
                byte
            } else {
                content[i]
            },
    )
}

/// `content` cut or extended with zeros to `length` bytes.
pub open spec fn resized(content: Seq<u8>, length: nat) -> Seq<u8> {
    if length <= content.len() {
        content.take(length as int)
    } else {
        content + zeros((length - content.len()) as nat)
    }
}

/// What the renamed file must hold: the pattern, overwritten in one place, cut, and extended with
/// zeros.
pub open spec fn renamed_content() -> Seq<u8> {
    resized(
        overwritten(
            pattern_of(RETAINED_BYTES as nat),
            OVERWRITE_OFFSET as int,
            OVERWRITE_BYTES as int,
            OVERWRITE_BYTE,
        ),
        FINAL_BYTES as nat,
    )
}

/// What the renamed file must hold.
pub fn expected_renamed() -> (bytes: Vec<u8>)
    ensures
        bytes@ == renamed_content(),
{
    let mut bytes = pattern(RETAINED_BYTES);
    let ghost start = bytes@;
    let mut i: usize = OVERWRITE_OFFSET;
    assert(bytes@ =~= overwritten(start, OVERWRITE_OFFSET as int, 0, OVERWRITE_BYTE));
    while i < OVERWRITE_OFFSET + OVERWRITE_BYTES
        invariant
            OVERWRITE_OFFSET <= i <= OVERWRITE_OFFSET + OVERWRITE_BYTES,
            start == pattern_of(RETAINED_BYTES as nat),
            bytes@ == overwritten(
                start,
                OVERWRITE_OFFSET as int,
                i - OVERWRITE_OFFSET,
                OVERWRITE_BYTE,
            ),
        decreases OVERWRITE_OFFSET + OVERWRITE_BYTES - i,
    {
        bytes.set(i, OVERWRITE_BYTE);
        assert(bytes@ =~= overwritten(
            start,
            OVERWRITE_OFFSET as int,
            i + 1 - OVERWRITE_OFFSET,
            OVERWRITE_BYTE,
        ));
        i = i + 1;
    }
    push_zeros(&mut bytes, FINAL_BYTES - RETAINED_BYTES);
    bytes
}

/// What the lab prints of the files: their sizes and hashes, and what must be absent.
pub open spec fn manifest_text() -> Seq<char> {
    "a/stable bytes="@ + decimal(STABLE_BYTES as int) + " xxh3="@ + base_digits(
        xxh3_of(pattern_of(STABLE_BYTES as nat)) as int,
        16,
        16,
    ) + "\nb/renamed bytes="@ + decimal(FINAL_BYTES as int) + " xxh3="@ + base_digits(
        xxh3_of(renamed_content()) as int,
        16,
        16,
    ) + "\nabsent: a/payload a/deleted\n"@
}

/// What the lab prints of files with these hashes.
pub fn manifest_of(stable: u64, renamed: u64) -> (text: String)
    ensures
        text@ == "a/stable bytes="@ + decimal(STABLE_BYTES as int) + " xxh3="@ + base_digits(
            stable as int,
            16,
            16,
        ) + "\nb/renamed bytes="@ + decimal(FINAL_BYTES as int) + " xxh3="@ + base_digits(
            renamed as int,
            16,
            16,
        ) + "\nabsent: a/payload a/deleted\n"@,
{
    let mut text = String::from_str("a/stable bytes=");
    push_decimal(&mut text, STABLE_BYTES as u64);
    text.append(" xxh3=");
    push_base(&mut text, stable, 16, 16);
    text.append("\nb/renamed bytes=");
    push_decimal(&mut text, FINAL_BYTES as u64);
    text.append(" xxh3=");
    push_base(&mut text, renamed, 16, 16);
    text.append("\nabsent: a/payload a/deleted\n");
    text
}

/// What the lab prints of the files.
pub fn manifest() -> (text: String)
    ensures
        text@ == manifest_text(),
{
    let stable: u64 = hash_block(pattern(STABLE_BYTES).as_slice());
    let renamed: u64 = hash_block(expected_renamed().as_slice());
    manifest_of(stable, renamed)
}

/// Describes an executable for the record of a run.
pub fn binary_line(path: &str, content: &Vec<u8>) -> (line: String)
    ensures
        line@ == "binary: "@ + path@ + " bytes="@ + decimal(content@.len() as int) + " xxh3="@
            + base_digits(xxh3_of(content@) as int, 16, 16),
{
    let mut line = String::from_str("binary: ");
    line.append(path);
    line.append(" bytes=");
    push_decimal(&mut line, content.len() as u64);
    line.append(" xxh3=");
    push_base(&mut line, hash_block(content.as_slice()), 16, 16);
    line
}

/// One operation on the files of the workload.
#[derive(Debug, PartialEq, Eq)]
pub enum FileOp {
    MakeDirectory(&'static str),
    /// Create a file that must not be there, write it and make it durable.
    Create(&'static str, Vec<u8>),
    /// Overwrite part of a file and make it durable.
    Overwrite(&'static str),
    Rename(&'static str, &'static str),
    /// Set the length of a file and make it durable.
    SetLength(&'static str, usize),
    Remove(&'static str),
    /// Make a directory's entries durable; nothing names the directory around all.
    SyncDirectory(&'static str),
}

/// The meaning of an operation.
#[verifier::ext_equal]
pub ghost enum OpView {
    MakeDirectory(Seq<char>),
    Create(Seq<char>, Seq<u8>),
    Overwrite(Seq<char>),
    Rename(Seq<char>, Seq<char>),
    SetLength(Seq<char>, nat),
    Remove(Seq<char>),
    SyncDirectory(Seq<char>),
}

impl View for FileOp {
    type V = OpView;

    open spec fn view(&self) -> OpView {
        match *self {
            FileOp::MakeDirectory(path) => OpView::MakeDirectory(path@),
            FileOp::Create(path, content) => OpView::Create(path@, content@),
            FileOp::Overwrite(path) => OpView::Overwrite(path@),
            FileOp::Rename(from, to) => OpView::Rename(from@, to@),
            FileOp::SetLength(path, length) => OpView::SetLength(path@, length as nat),
            FileOp::Remove(path) => OpView::Remove(path@),
            FileOp::SyncDirectory(path) => OpView::SyncDirectory(path@),
        }
    }
}

/// The meanings of operations.
pub open spec fn op_views(ops: Seq<FileOp>) -> Seq<OpView> {
    Seq::new(ops.len(), |i: int| ops[i]@)
}

/// The operations that make the files, in order.
pub open spec fn population(deleted: Seq<u8>) -> Seq<OpView> {
    seq![
        OpView::MakeDirectory("a"@),
        OpView::MakeDirectory("b"@),
        OpView::SyncDirectory(""@),
        OpView::Create("a/stable"@, pattern_of(STABLE_BYTES as nat)),
        OpView::Create("a/payload"@, pattern_of(INITIAL_BYTES as nat)),
        OpView::Overwrite("a/payload"@),
        OpView::Rename("a/payload"@, "b/renamed"@),
        OpView::SyncDirectory("a"@),
        OpView::SyncDirectory("b"@),
        OpView::SetLength("b/renamed"@, RETAINED_BYTES as nat),
        OpView::SetLength("b/renamed"@, FINAL_BYTES as nat),
        OpView::Create("a/deleted"@, deleted),
        OpView::SyncDirectory("a"@),
        OpView::Remove("a/deleted"@),
        OpView::SyncDirectory("a"@),
        OpView::SyncDirectory("b"@),
        OpView::SyncDirectory(""@),
    ]
}

/// What the file holds that is made to be removed.
pub open spec fn deleted_content() -> Seq<u8> {
    seq![
        116u8, 104, 105, 115, 32, 102, 105, 108, 101, 32, 109, 117, 115, 116, 32, 100, 105, 115,
        97, 112, 112, 101, 97, 114,
    ]
}

fn deleted_bytes() -> (bytes: Vec<u8>)
    ensures
        bytes@ == deleted_content(),
{
    let content: [u8; 24] = [
        116,
        104,
        105,
        115,
        32,
        102,
        105,
        108,
        101,
        32,
        109,
        117,
        115,
        116,
        32,
        100,
        105,
        115,
        97,
        112,
        112,
        101,
        97,
        114,
    ];
    let bytes = copy_of(content.as_slice());
    assert(bytes@ =~= deleted_content());
    bytes
}

/// The operations that make the files, in order.
pub fn populate() -> (ops: Vec<FileOp>)
    ensures
        op_views(ops@) == population(deleted_content()),
{
    let mut ops: Vec<FileOp> = Vec::new();
    ops.push(FileOp::MakeDirectory("a"));
    ops.push(FileOp::MakeDirectory("b"));
    ops.push(FileOp::SyncDirectory(""));
    ops.push(FileOp::Create("a/stable", pattern(STABLE_BYTES)));
    ops.push(FileOp::Create("a/payload", pattern(INITIAL_BYTES)));
    ops.push(FileOp::Overwrite("a/payload"));
    ops.push(FileOp::Rename("a/payload", "b/renamed"));
    ops.push(FileOp::SyncDirectory("a"));
    ops.push(FileOp::SyncDirectory("b"));
    ops.push(FileOp::SetLength("b/renamed", RETAINED_BYTES));
    ops.push(FileOp::SetLength("b/renamed", FINAL_BYTES));
    ops.push(FileOp::Create("a/deleted", deleted_bytes()));
    ops.push(FileOp::SyncDirectory("a"));
    ops.push(FileOp::Remove("a/deleted"));
    ops.push(FileOp::SyncDirectory("a"));
    ops.push(FileOp::SyncDirectory("b"));
    ops.push(FileOp::SyncDirectory(""));
    assert(op_views(ops@) =~= population(deleted_content()));
    ops
}

/// Files with their contents, as far as the operations reach.
pub ghost struct Tree {
    pub directories: Set<Seq<char>>,
    pub files: Map<Seq<char>, Seq<u8>>,
}

impl Tree {
    /// Nothing at all.
    pub open spec fn empty() -> Tree {
        Tree { directories: Set::empty(), files: Map::empty() }
    }

    /// The tree after an operation.
    pub open spec fn after(self, op: OpView) -> Tree {
        match op {
            OpView::MakeDirectory(path) => Tree {
                directories: self.directories.insert(path),
                ..self
            },
            OpView::Create(path, content) => Tree {
                files: self.files.insert(path, content),
                ..self
            },
            OpView::Overwrite(path) => Tree {
                files: self.files.insert(
                    path,
                    overwritten(
                        self.files[path],
                        OVERWRITE_OFFSET as int,
                        OVERWRITE_BYTES as int,
                        OVERWRITE_BYTE,
                    ),
                ),
                ..self
            },
            OpView::Rename(from, to) => Tree {
                files: self.files.remove(from).insert(to, self.files[from]),
                ..self
            },
            OpView::SetLength(path, length) => Tree {
                files: self.files.insert(path, resized(self.files[path], length)),
                ..self
            },
            OpView::Remove(path) => Tree { files: self.files.remove(path), ..self },
            OpView::SyncDirectory(path) => self,
        }
    }

    /// The tree after the first `count` operations.
    pub open spec fn after_all(self, ops: Seq<OpView>, count: int) -> Tree
        decreases count,
    {
        if count <= 0 {
            self
        } else {
            self.after_all(ops, count - 1).after(ops[count - 1])
        }
    }
}

/// The tree that is expected: two directories, one file in each.
pub open spec fn expected_tree() -> Tree {
    Tree {
        directories: set!["a"@, "b"@],
        files: map![
            "a/stable"@ => pattern_of(STABLE_BYTES as nat),
            "b/renamed"@ => renamed_content(),
        ],
    }
}

/// The names in the workload are different.
proof fn lemma_names_differ()
    ensures
        "a/stable"@ != "a/payload"@,
        "a/stable"@ != "b/renamed"@,
        "a/stable"@ != "a/deleted"@,
        "a/payload"@ != "b/renamed"@,
        "a/deleted"@ != "b/renamed"@,
{
    reveal_strlit("a/stable");
    reveal_strlit("a/payload");
    reveal_strlit("b/renamed");
    reveal_strlit("a/deleted");
    assert("a/stable"@[2] == 's' && "a/payload"@[2] == 'p' && "a/deleted"@[2] == 'd');
    assert("a/stable"@[0] == 'a' && "a/payload"@[0] == 'a' && "a/deleted"@[0] == 'a');
    assert("b/renamed"@[0] == 'b');
}

/// What becomes of the file that is written, overwritten, cut and extended.
proof fn lemma_renamed_content()
    ensures
        resized(
            resized(
                overwritten(
                    pattern_of(INITIAL_BYTES as nat),
                    OVERWRITE_OFFSET as int,
                    OVERWRITE_BYTES as int,
                    OVERWRITE_BYTE,
                ),
                RETAINED_BYTES as nat,
            ),
            FINAL_BYTES as nat,
        ) == renamed_content(),
{
    let written = overwritten(
        pattern_of(INITIAL_BYTES as nat),
        OVERWRITE_OFFSET as int,
        OVERWRITE_BYTES as int,
        OVERWRITE_BYTE,
    );
    assert(resized(written, RETAINED_BYTES as nat) =~= overwritten(
        pattern_of(RETAINED_BYTES as nat),
        OVERWRITE_OFFSET as int,
        OVERWRITE_BYTES as int,
        OVERWRITE_BYTE,
    ));
}

/// Law: the operations turn an empty directory into exactly what is expected to be found again,
/// whatever the removed file held.
pub proof fn law_population_gives_the_expected_files(deleted: Seq<u8>)
    ensures
        Tree::empty().after_all(population(deleted), population(deleted).len() as int)
            == expected_tree(),
{
    let ops = population(deleted);
    let start = Tree::empty();
    let stable = pattern_of(STABLE_BYTES as nat);
    let initial = pattern_of(INITIAL_BYTES as nat);
    let written = overwritten(
        initial,
        OVERWRITE_OFFSET as int,
        OVERWRITE_BYTES as int,
        OVERWRITE_BYTE,
    );
    let cut = resized(written, RETAINED_BYTES as nat);
    lemma_names_differ();
    lemma_renamed_content();
    let directories = Set::<Seq<char>>::empty().insert("a"@).insert("b"@);
    assert(start.after_all(ops, 1) == start.after(ops[0])) by {
        reveal_with_fuel(Tree::after_all, 2);
    }
    assert(start.after_all(ops, 3) == (Tree { directories, files: Map::empty() })) by {
        reveal_with_fuel(Tree::after_all, 3);
    }
    let made = map!["a/stable"@ => stable];
    assert(start.after_all(ops, 4).files =~= made);
    assert(start.after_all(ops, 5).files =~= made.insert("a/payload"@, initial));
    assert(start.after_all(ops, 6).files =~= made.insert("a/payload"@, written));
    assert(start.after_all(ops, 7).files =~= made.insert("b/renamed"@, written));
    assert(start.after_all(ops, 8).files == start.after_all(ops, 7).files);
    assert(start.after_all(ops, 9).files == start.after_all(ops, 7).files);
    assert(start.after_all(ops, 10).files =~= made.insert("b/renamed"@, cut));
    let done = made.insert("b/renamed"@, renamed_content());
    assert(start.after_all(ops, 11).files =~= done);
    assert(start.after_all(ops, 12).files =~= done.insert("a/deleted"@, deleted));
    assert(start.after_all(ops, 13).files == start.after_all(ops, 12).files);
    assert(start.after_all(ops, 14).files =~= done);
    assert(start.after_all(ops, 15).files == done);
    assert(start.after_all(ops, 16).files == done);
    assert(start.after_all(ops, 17).files == done);
    assert(done =~= expected_tree().files);
    assert(start.after_all(ops, 17).directories == directories);
    assert(directories =~= expected_tree().directories);
}

/// Demands that the directory that is to be filled is empty.
pub fn require_empty(empty: bool) -> (result: Result<(), LabError>)
    ensures
        match result {
            Ok(()) => empty,
            Err(error) => !empty && error@ == (
                LabErrorKind::Other,
                "workload directory is not empty"@,
            ),
        },
{
    if empty {
        Ok(())
    } else {
        Err(failure(LabErrorKind::Other, "workload directory is not empty"))
    }
}

/// What has been observed of a file.
#[derive(Debug)]
pub struct FileFacts {
    pub node: Observed<NodeFacts>,
    pub content: Observed<Vec<u8>>,
}

/// What has been observed of the workload's directory.
#[derive(Debug)]
pub struct WorkloadFacts {
    pub root: String,
    pub root_entries: Observed<Vec<String>>,
    pub a: Observed<NodeFacts>,
    pub b: Observed<NodeFacts>,
    pub a_entries: Observed<Vec<String>>,
    pub b_entries: Observed<Vec<String>>,
    pub stable: FileFacts,
    pub renamed: FileFacts,
}

/// What is said of a directory with other entries.
pub open spec fn entries_text(root: Seq<char>) -> Seq<char> {
    "unexpected directory entries in "@ + root
}

/// Why a file is not as expected, if it is not.
pub open spec fn file_refusal(path: Seq<char>, facts: FileFacts, expected: Seq<u8>) -> Option<
    (LabErrorKind, Seq<char>),
> {
    match facts.node {
        Err(error) => Some(error@),
        Ok(node) => if node.kind != NodeKind::File || node.len != expected.len() {
            Some((LabErrorKind::Other, "wrong type or size: "@ + path))
        } else {
            match facts.content {
                Err(error) => Some(error@),
                Ok(content) => if content@ != expected {
                    Some((LabErrorKind::Other, "content mismatch: "@ + path))
                } else {
                    None
                },
            }
        },
    }
}

fn same_bytes(left: &Vec<u8>, right: &Vec<u8>) -> (same: bool)
    ensures
        same == (left@ == right@),
{
    if left.len() != right.len() {
        return false;
    }
    let mut i: usize = 0;
    while i < left.len()
        invariant
            i <= left@.len(),
            left@.len() == right@.len(),
            forall|j: int| 0 <= j < i ==> left@[j] == right@[j],
        decreases left@.len() - i,
    {
        if left[i] != right[i] {
            return false;
        }
        i = i + 1;
    }
    assert(left@ =~= right@);
    true
}

/// Demands that a file holds exactly `expected`.
pub fn verify_file(path: &str, facts: FileFacts, expected: &Vec<u8>) -> (result: Result<(), LabError>)
    ensures
        match result {
            Ok(()) => file_refusal(path@, facts, expected@) is None,
            Err(error) => file_refusal(path@, facts, expected@) == Some(error@),
        },
{
    let node = match facts.node {
        Ok(node) => node,
        Err(error) => {
            return Err(error);
        },
    };
    if node.kind != NodeKind::File || node.len != expected.len() as u64 {
        let mut message = String::from_str("wrong type or size: ");
        message.append(path);
        return Err(failure_text(LabErrorKind::Other, message));
    }
    let content = match facts.content {
        Ok(content) => content,
        Err(error) => {
            return Err(error);
        },
    };
    if !same_bytes(&content, expected) || hash_block(content.as_slice()) != hash_block(
        expected.as_slice(),
    ) {
        let mut message = String::from_str("content mismatch: ");
        message.append(path);
        return Err(failure_text(LabErrorKind::Other, message));
    }
    Ok(())
}

/// A path below the workload's directory.
pub open spec fn below(root: Seq<char>, name: Seq<char>) -> Seq<char> {
    root + "/"@ + name
}

fn path_below(root: &str, name: &str) -> (path: String)
    ensures
        path@ == below(root@, name@),
{
    let mut path = String::from_str(root);
    path.append("/");
    path.append(name);
    path
}

fn unexpected_entries(root: &str) -> (error: LabError)
    ensures
        error@ == (LabErrorKind::Other, entries_text(root@)),
{
    let mut message = String::from_str("unexpected directory entries in ");
    message.append(root);
    failure_text(LabErrorKind::Other, message)
}

fn same_text(left: &String, right: &str) -> (same: bool)
    ensures
        same == (left@ == right@),
{
    let chars = chars_of(left.as_str());
    spells(chars.as_slice(), right)
}

fn one_entry(root: &str, entries: Observed<Vec<String>>, name: &str) -> (result: Result<
    (),
    LabError,
>)
    ensures
        match result {
            Ok(()) => entries_refusal(root@, entries, seq![name@]) is None,
            Err(error) => entries_refusal(root@, entries, seq![name@]) == Some(error@),
        },
{
    let entries = match entries {
        Ok(entries) => entries,
        Err(error) => {
            return Err(error);
        },
    };
    if entries.len() == 1 && same_text(&entries[0], name) {
        assert(string_views(entries@) =~= seq![name@]);
        return Ok(());
    }
    proof {
        if string_views(entries@) == seq![name@] {
            assert(string_views(entries@).len() == 1);
            assert(string_views(entries@)[0] == entries@[0]@);
        }
    }
    Err(unexpected_entries(root))
}

/// Why a directory that is to hold `expected`, in any order, is refused, if it is. At most two
/// entries are expected.
pub open spec fn entries_refusal(
    root: Seq<char>,
    entries: Observed<Vec<String>>,
    expected: Seq<Seq<char>>,
) -> Option<(LabErrorKind, Seq<char>)> {
    match entries {
        Err(error) => Some(error@),
        Ok(entries) => if string_views(entries@) == expected || (expected.len() == 2
            && string_views(entries@) == seq![expected[1], expected[0]]) {
            None
        } else {
            Some((LabErrorKind::Other, entries_text(root)))
        },
    }
}

fn two_entries(root: &str, entries: Observed<Vec<String>>, first: &str, second: &str) -> (result:
    Result<(), LabError>)
    ensures
        match result {
            Ok(()) => entries_refusal(root@, entries, seq![first@, second@]) is None,
            Err(error) => entries_refusal(root@, entries, seq![first@, second@]) == Some(error@),
        },
{
    let entries = match entries {
        Ok(entries) => entries,
        Err(error) => {
            return Err(error);
        },
    };
    if entries.len() == 2 {
        if same_text(&entries[0], first) && same_text(&entries[1], second) {
            assert(string_views(entries@) =~= seq![first@, second@]);
            return Ok(());
        }
        if same_text(&entries[0], second) && same_text(&entries[1], first) {
            assert(string_views(entries@) =~= seq![second@, first@]);
            return Ok(());
        }
    }
    proof {
        let found = string_views(entries@);
        if found == seq![first@, second@] || found == seq![second@, first@] {
            assert(found.len() == 2);
            assert(found[0] == entries@[0]@ && found[1] == entries@[1]@);
        }
    }
    Err(unexpected_entries(root))
}

/// Why a name does not lead to a directory, if it does not.
pub open spec fn directory_refusal(node: Observed<NodeFacts>) -> Option<(LabErrorKind, Seq<char>)> {
    match node {
        Err(error) => Some(error@),
        Ok(facts) => if facts.kind != NodeKind::Directory {
            Some((LabErrorKind::Other, "workload directory was replaced"@))
        } else {
            None
        },
    }
}

fn require_directory(node: Observed<NodeFacts>) -> (result: Result<(), LabError>)
    ensures
        match result {
            Ok(()) => directory_refusal(node) is None,
            Err(error) => directory_refusal(node) == Some(error@),
        },
{
    match node {
        Err(error) => Err(error),
        Ok(facts) => {
            if facts.kind != NodeKind::Directory {
                Err(failure(LabErrorKind::Other, "workload directory was replaced"))
            } else {
                Ok(())
            }
        },
    }
}

/// Why the workload's directory is not as expected, if it is not.
pub open spec fn workload_refusal(facts: WorkloadFacts) -> Option<(LabErrorKind, Seq<char>)> {
    let root = facts.root@;
    if entries_refusal(root, facts.root_entries, seq!["a"@, "b"@]) is Some {
        entries_refusal(root, facts.root_entries, seq!["a"@, "b"@])
    } else if directory_refusal(facts.a) is Some {
        directory_refusal(facts.a)
    } else if directory_refusal(facts.b) is Some {
        directory_refusal(facts.b)
    } else if entries_refusal(below(root, "a"@), facts.a_entries, seq!["stable"@]) is Some {
        entries_refusal(below(root, "a"@), facts.a_entries, seq!["stable"@])
    } else if entries_refusal(below(root, "b"@), facts.b_entries, seq!["renamed"@]) is Some {
        entries_refusal(below(root, "b"@), facts.b_entries, seq!["renamed"@])
    } else if file_refusal(
        below(root, "a/stable"@),
        facts.stable,
        pattern_of(STABLE_BYTES as nat),
    ) is Some {
        file_refusal(below(root, "a/stable"@), facts.stable, pattern_of(STABLE_BYTES as nat))
    } else {
        file_refusal(below(root, "b/renamed"@), facts.renamed, renamed_content())
    }
}

/// Demands that the workload's directory holds exactly what was written.
pub fn verify(facts: WorkloadFacts) -> (result: Result<(), LabError>)
    ensures
        match result {
            Ok(()) => workload_refusal(facts) is None,
            Err(error) => workload_refusal(facts) == Some(error@),
        },
{
    let root = facts.root;
    match two_entries(root.as_str(), facts.root_entries, "a", "b") {
        Ok(()) => {},
        Err(error) => {
            return Err(error);
        },
    }
    match require_directory(facts.a) {
        Ok(()) => {},
        Err(error) => {
            return Err(error);
        },
    }
    match require_directory(facts.b) {
        Ok(()) => {},
        Err(error) => {
            return Err(error);
        },
    }
    match one_entry(path_below(root.as_str(), "a").as_str(), facts.a_entries, "stable") {
        Ok(()) => {},
        Err(error) => {
            return Err(error);
        },
    }
    match one_entry(path_below(root.as_str(), "b").as_str(), facts.b_entries, "renamed") {
        Ok(()) => {},
        Err(error) => {
            return Err(error);
        },
    }
    match verify_file(
        path_below(root.as_str(), "a/stable").as_str(),
        facts.stable,
        &pattern(STABLE_BYTES),
    ) {
        Ok(()) => {},
        Err(error) => {
            return Err(error);
        },
    }
    verify_file(
        path_below(root.as_str(), "b/renamed").as_str(),
        facts.renamed,
        &expected_renamed(),
    )
}

/// Law: a file passes exactly if it is a regular file of the expected size whose whole content is
/// what is expected, byte for byte; one that differs in any byte is said to mismatch.
pub proof fn law_files_are_compared_whole(
    path: Seq<char>,
    facts: FileFacts,
    expected: Seq<u8>,
    index: int,
)
    ensures
        file_refusal(path, facts, expected) is None <==> {
            &&& facts.node matches Ok(node) && node.kind is File && node.len == expected.len()
            &&& facts.content matches Ok(content) && content@ == expected
        },
        facts.node matches Ok(node) ==> (node.kind is File && node.len == expected.len() ==> (
        facts.content matches Ok(content) ==> (content@ != expected ==> file_refusal(
            path,
            facts,
            expected,
        ) == Some((LabErrorKind::Other, "content mismatch: "@ + path))))),
        facts.content matches Ok(content) ==> (0 <= index < expected.len() && content@[index]
            != expected[index] ==> file_refusal(path, facts, expected) is Some),
        facts.node matches Ok(node) ==> (!(node.kind is File) || node.len != expected.len()
            ==> file_refusal(path, facts, expected) == Some(
            (LabErrorKind::Other, "wrong type or size: "@ + path),
        )),
{
}

/// Law: the workload passes exactly if its directory holds the tree that the populating operations
/// make of an empty one, and nothing else: the two directories, in each the one file, and in these
/// files, from the first byte to the last, what the operations have written.
pub proof fn law_verified_workload_is_the_populated_tree(facts: WorkloadFacts, deleted: Seq<u8>)
    ensures
        ({
            let ops = population(deleted);
            let tree = Tree::empty().after_all(ops, ops.len() as int);
            &&& tree.files.contains_key("a/stable"@)
            &&& tree.files.contains_key("b/renamed"@)
            &&& workload_refusal(facts) is None <==> {
                &&& facts.root_entries matches Ok(names) && (string_views(names@) == seq!["a"@, "b"@]
                    || string_views(names@) == seq!["b"@, "a"@])
                &&& facts.a matches Ok(node) && node.kind is Directory
                &&& facts.b matches Ok(node) && node.kind is Directory
                &&& facts.a_entries matches Ok(names) && string_views(names@) == seq!["stable"@]
                &&& facts.b_entries matches Ok(names) && string_views(names@) == seq!["renamed"@]
                &&& facts.stable.node matches Ok(node) && node.kind is File && node.len == 262_144
                &&& facts.stable.content matches Ok(content) && content@ == tree.files["a/stable"@]
                &&& facts.renamed.node matches Ok(node) && node.kind is File && node.len == 70_001
                &&& facts.renamed.content matches Ok(content) && content@
                    == tree.files["b/renamed"@]
            }
        }),
{
    law_population_gives_the_expected_files(deleted);
    lemma_names_differ();
    assert(renamed_content().len() == 70_001);
    assert(seq!["stable"@].len() == 1 && seq!["renamed"@].len() == 1);
}

/// Law: what the files have to hold. The one that stays has the pattern in all of its 262144
/// bytes; the renamed one has it in its first 60013 bytes, but for the 4096 that were overwritten,
/// and zeros in the 9988 by which it was extended. The pattern goes by the position alone and
/// differs between neighbouring bytes and blocks.
pub proof fn law_expected_bytes(index: int)
    requires
        0 <= index,
    ensures
        ({
            let byte = (31 * index + index / 4096) % 251;
            let stable = expected_tree().files["a/stable"@];
            let renamed = expected_tree().files["b/renamed"@];
            &&& stable.len() == 262_144
            &&& renamed.len() == 70_001
            &&& index < 262_144 ==> stable[index] == byte
            &&& index < 32_768 ==> renamed[index] == byte
            &&& 32_768 <= index < 36_864 ==> renamed[index] == 0xa7
            &&& 36_864 <= index < 60_013 ==> renamed[index] == byte
            &&& 60_013 <= index < 70_001 ==> renamed[index] == 0
            &&& forall|length: nat|
                index < length ==> (#[trigger] pattern_of(length)).len() == length && pattern_of(
                    length,
                )[index] == byte
        }),
{
    lemma_names_differ();
}

/// The directory in which `path` is an entry.
pub open spec fn directory_of(path: Seq<char>) -> Seq<char> {
    if path.len() > 1 && path[1] == '/' {
        path.take(1)
    } else {
        Seq::empty()
    }
}

/// Whether an operation changes the entries of `directory`.
pub open spec fn changes_entries(op: OpView, directory: Seq<char>) -> bool {
    match op {
        OpView::MakeDirectory(path) => directory_of(path) == directory,
        OpView::Create(path, _) => directory_of(path) == directory,
        OpView::Rename(from, to) => directory_of(from) == directory || directory_of(to)
            == directory,
        OpView::Remove(path) => directory_of(path) == directory,
        _ => false,
    }
}

/// Law: every change of the entries of a directory is followed by making that directory durable,
/// and the last operation of all makes the directory around all durable.
pub proof fn law_every_change_is_made_durable(
    deleted: Seq<u8>,
    index: int,
    directory: Seq<char>,
)
    requires
        0 <= index < population(deleted).len(),
        changes_entries(population(deleted)[index], directory),
    ensures
        exists|later: int|
            index < later < population(deleted).len() && #[trigger] population(deleted)[later]
                == OpView::SyncDirectory(directory),
        population(deleted).last() == OpView::SyncDirectory(Seq::empty()),
{
    let ops = population(deleted);
    reveal_strlit("");
    reveal_strlit("a");
    reveal_strlit("b");
    reveal_strlit("a/stable");
    reveal_strlit("a/payload");
    reveal_strlit("b/renamed");
    reveal_strlit("a/deleted");
    assert(""@ =~= Seq::<char>::empty());
    assert("a"@ =~= seq!['a'] && "b"@ =~= seq!['b']);
    assert(directory_of("a/stable"@) =~= "a"@);
    assert(directory_of("a/payload"@) =~= "a"@);
    assert(directory_of("a/deleted"@) =~= "a"@);
    assert(directory_of("b/renamed"@) =~= "b"@);
    assert(directory_of("a"@) =~= ""@ && directory_of("b"@) =~= ""@);
    assert(ops[16] == OpView::SyncDirectory(""@));
    assert(ops[15] == OpView::SyncDirectory("b"@));
    assert(ops[14] == OpView::SyncDirectory("a"@));
    if directory == "a"@ {
        assert(index < 14);
    } else if directory == "b"@ {
        assert(index < 15);
    }
}

/// Why `path` is not the directory in which the lab's worker may write, if it is not.
pub open spec fn worker_refusal(path: Seq<char>) -> Option<(LabErrorKind, Seq<char>)> {
    let parts = components(path);
    if parts.len() < 2 {
        Some((LabErrorKind::Other, "missing mount parent"@))
    } else if parts.len() < 3 {
        Some((LabErrorKind::Other, "missing fixture parent"@))
    } else if parts.len() == 5 && parts[0] == "/"@ && parts[1] == "tmp"@ && is_owned_name(parts[2])
        && parts[3] == "mount"@ && parts[4] == "work"@ {
        None
    } else {
        Some(
            (
                LabErrorKind::Other,
                "internal worker requires the lab-owned ext4 work directory"@,
            ),
        )
    }
}

/// Demands that `path`, which starts at the root, is the directory in which the lab's worker may
/// write: `work` in the mount of a directory that the lab made.
pub fn require_worker_directory(path: &str) -> (result: Result<(), LabError>)
    ensures
        match result {
            Ok(()) => worker_refusal(path@) is None,
            Err(error) => worker_refusal(path@) == Some(error@),
        },
{
    let parts = components_of(path);
    assert(views(parts@).len() == parts@.len());
    if parts.len() < 2 {
        return Err(failure(LabErrorKind::Other, "missing mount parent"));
    }
    if parts.len() < 3 {
        return Err(failure(LabErrorKind::Other, "missing fixture parent"));
    }
    proof {
        assert(views(parts@)[0] == parts@[0]@);
        assert(views(parts@)[1] == parts@[1]@);
        assert(views(parts@)[2] == parts@[2]@);
        assert(parts@.len() == 5 ==> views(parts@)[3] == parts@[3]@ && views(parts@)[4]
            == parts@[4]@);
    }
    if parts.len() == 5 && spells(parts[0].as_slice(), "/") && spells(parts[1].as_slice(), "tmp")
        && owned_name(string_of(parts[2].as_slice()).as_str()) && spells(
        parts[3].as_slice(),
        "mount",
    ) && spells(parts[4].as_slice(), "work") {
        return Ok(());
    }
    Err(
        failure(
            LabErrorKind::Other,
            "internal worker requires the lab-owned ext4 work directory",
        ),
    )
}

/// Whether `name` is the name of a ublk block device.
pub open spec fn is_ublk_name(name: Seq<char>) -> bool {
    &&& has_prefix(name, "ublkb"@)
    &&& name.len() > "ublkb"@.len()
    &&& all_digits(name.skip("ublkb"@.len() as int))
}

/// Law: the worker is admitted to exactly the directories `/tmp/<owned>/mount/work`.
pub proof fn law_worker_directories(path: Seq<char>)
    ensures
        worker_refusal(path) is None <==> exists|owned: Seq<char>|
            is_owned_name(owned) && #[trigger] components(path) == seq![
                "/"@,
                "tmp"@,
                owned,
                "mount"@,
                "work"@,
            ],
{
    let parts = components(path);
    if worker_refusal(path) is None {
        assert(parts =~= seq!["/"@, "tmp"@, parts[2], "mount"@, "work"@]);
    }
    if exists|owned: Seq<char>|
        is_owned_name(owned) && #[trigger] components(path) == seq![
            "/"@,
            "tmp"@,
            owned,
            "mount"@,
            "work"@,
        ] {
        let owned = choose|owned: Seq<char>|
            is_owned_name(owned) && #[trigger] components(path) == seq![
                "/"@,
                "tmp"@,
                owned,
                "mount"@,
                "work"@,
            ];
        assert(parts[2] == owned);
    }
}

/// Law: a ublk block device is named `ublkb` and a decimal number, and nothing else is.
pub proof fn law_ublk_names(name: Seq<char>, number: int)
    requires
        0 <= number,
    ensures
        is_ublk_name("ublkb"@ + decimal(number)),
        is_ublk_name(name) ==> name.len() > 5 && name.take(5) == "ublkb"@ && forall|i: int|
            5 <= i < name.len() ==> '0' <= #[trigger] name[i] <= '9',
{
    reveal_strlit("ublkb");
    let head = "ublkb"@;
    let made = head + decimal(number);
    law_decimal_denotes_its_number(number);
    assert(made.take(5) =~= head);
    assert(made.skip(5) =~= decimal(number));
    if is_ublk_name(name) {
        assert forall|i: int| 5 <= i < name.len() implies '0' <= #[trigger] name[i] <= '9' by {
            assert(name.skip(5)[i - 5] == name[i]);
            assert(is_digit(name.skip(5)[i - 5]));
        }
    }
}

/// Demands that a file system is on a ublk device; `name` is that of the device.
pub fn require_ublk_device(name: &str) -> (result: Result<(), LabError>)
    ensures
        match result {
            Ok(()) => is_ublk_name(name@),
            Err(error) => !is_ublk_name(name@) && error@ == (
                LabErrorKind::Other,
                "worker filesystem is not backed by ublk"@,
            ),
        },
{
    let chars = chars_of(name);
    match strip_prefix(chars.as_slice(), "ublkb") {
        Some(digits) => {
            if digits.len() > 0 && only_digits(digits) {
                return Ok(());
            }
        },
        None => {},
    }
    Err(failure(LabErrorKind::Other, "worker filesystem is not backed by ublk"))
}

/// Law: what is printed of the files is their sizes and the hashes of their whole contents, as the
/// populating operations leave them.
pub proof fn law_manifest_describes_the_files(deleted: Seq<u8>)
    ensures
        ({
            let ops = population(deleted);
            let files = Tree::empty().after_all(ops, ops.len() as int).files;
            let (stable, renamed) = (files["a/stable"@], files["b/renamed"@]);
            manifest_text() == "a/stable bytes="@ + decimal(stable.len() as int) + " xxh3="@
                + base_digits(xxh3_of(stable) as int, 16, 16) + "\nb/renamed bytes="@ + decimal(
                renamed.len() as int,
            ) + " xxh3="@ + base_digits(xxh3_of(renamed) as int, 16, 16)
                + "\nabsent: a/payload a/deleted\n"@
        }),
{
    law_population_gives_the_expected_files(deleted);
    law_expected_bytes(0);
    lemma_names_differ();
}

} // verus!
