//! The record that a run of the lab leaves.

use crate::lab::error::{failure_text, LabError, LabErrorKind};
use crate::text::{chars_of, lines, push_decimal, string_of};
#[allow(unused_imports)]
use crate::text::{decimal, lines_of, string_views, views};
use vstd::prelude::*;

verus! {

/// The name of the record of a run at `nanos` nanoseconds, of the commit where it is told.
pub open spec fn log_name_of(name: Seq<char>, nanos: int, commit: Option<Seq<char>>) -> Seq<char> {
    name + "-"@ + decimal(nanos) + (match commit {
        Some(commit) => "-"@ + commit,
        None => Seq::empty(),
    }) + ".log"@
}

/// Names the record of a run of a commit.
pub fn log_name(name: &str, nanos: u64, commit: &str) -> (file: String)
    ensures
        file@ == log_name_of(name@, nanos as int, Some(commit@)),
{
    let mut file = String::from_str(name);
    file.append("-");
    push_decimal(&mut file, nanos);
    file.append("-");
    file.append(commit);
    file.append(".log");
    assert(file@ =~= log_name_of(name@, nanos as int, Some(commit@)));
    file
}

/// Names the record of a run.
pub fn plain_log_name(name: &str, nanos: u64) -> (file: String)
    ensures
        file@ == log_name_of(name@, nanos as int, None),
{
    let mut file = String::from_str(name);
    file.append("-");
    push_decimal(&mut file, nanos);
    file.append(".log");
    assert(file@ =~= log_name_of(name@, nanos as int, None));
    file
}

/// The lines at the head of a record.
pub open spec fn header_of(
    commit: Seq<char>,
    kernel: Seq<char>,
    fio_version: Option<Seq<char>>,
) -> Seq<Seq<char>> {
    seq!["commit: "@ + commit, "kernel: "@ + kernel] + (match fio_version {
        Some(version) => seq!["fio: "@ + version],
        None => Seq::empty(),
    }) + seq!["backing: test-created temporary regular file"@]
}

fn labelled(label: &str, value: &str) -> (text: String)
    ensures
        text@ == label@ + value@,
{
    let mut text = String::from_str(label);
    text.append(value);
    text
}

/// The lines at the head of a record.
pub fn header(commit: &str, kernel: &str, fio_version: Option<&str>) -> (head: Vec<String>)
    ensures
        string_views(head@) == header_of(
            commit@,
            kernel@,
            match fio_version {
                Some(version) => Some(version@),
                None => None,
            },
        ),
{
    let mut head: Vec<String> = Vec::new();
    head.push(labelled("commit: ", commit));
    head.push(labelled("kernel: ", kernel));
    match fio_version {
        Some(version) => {
            head.push(labelled("fio: ", version));
        },
        None => {},
    }
    head.push(String::from_str("backing: test-created temporary regular file"));
    assert(string_views(head@) =~= header_of(
        commit@,
        kernel@,
        match fio_version {
            Some(version) => Some(version@),
            None => None,
        },
    ));
    head
}

/// The lines under which a record keeps what a program printed.
pub open spec fn captured_of(label: Seq<char>, text: Seq<char>) -> Seq<Seq<char>> {
    seq!["--- "@ + label + " ---"@] + lines_of(text) + seq!["--- end "@ + label + " ---"@]
}

fn framed(head: &str, label: &str) -> (line: String)
    ensures
        line@ == head@ + label@ + " ---"@,
{
    let mut line = String::from_str(head);
    line.append(label);
    line.append(" ---");
    line
}

/// The lines under which a record keeps what a program printed.
pub fn captured(label: &str, text: &str) -> (kept: Vec<String>)
    ensures
        string_views(kept@) == captured_of(label@, text@),
{
    let chars = chars_of(text);
    let all = lines(chars.as_slice());
    let mut kept: Vec<String> = Vec::new();
    kept.push(framed("--- ", label));
    let ghost first = seq!["--- "@ + label@ + " ---"@];
    assert(string_views(kept@) =~= first + lines_of(text@).take(0));
    let mut i: usize = 0;
    while i < all.len()
        invariant
            i <= all@.len(),
            views(all@) == lines_of(text@),
            string_views(kept@) == first + lines_of(text@).take(i as int),
        decreases all@.len() - i,
    {
        let ghost before = kept@;
        assert(views(all@)[i as int] == all@[i as int]@);
        kept.push(string_of(all[i].as_slice()));
        assert(string_views(kept@) =~= string_views(before).push(all@[i as int]@));
        assert(string_views(kept@) =~= first + lines_of(text@).take(i + 1));
        i = i + 1;
    }
    assert(views(all@).len() == all@.len());
    assert(lines_of(text@).take(all@.len() as int) =~= lines_of(text@));
    let ghost before = kept@;
    kept.push(framed("--- end ", label));
    assert(string_views(kept@) =~= string_views(before).push("--- end "@ + label@ + " ---"@));
    assert(string_views(kept@) =~= captured_of(label@, text@));
    kept
}

/// The record of a command that is about to run.
pub fn command_line(label: &str, at_millis: u64, command: &str) -> (line: String)
    ensures
        line@ == "command "@ + label@ + " at_ms="@ + decimal(at_millis as int) + ": "@ + command@,
{
    let mut line = String::from_str("command ");
    line.append(label);
    line.append(" at_ms=");
    push_decimal(&mut line, at_millis);
    line.append(": ");
    line.append(command);
    line
}

/// The record of a daemon whose device is there.
pub fn ready_line(pid: u32, path: &str, id: u32) -> (line: String)
    ensures
        line@ == "ready: pid="@ + decimal(pid as int) + " path="@ + path@ + " id="@ + decimal(
            id as int,
        ),
{
    let mut line = String::from_str("ready: pid=");
    push_decimal(&mut line, pid as u64);
    line.append(" path=");
    line.append(path);
    line.append(" id=");
    push_decimal(&mut line, id as u64);
    line
}

/// Reports that a program that describes the run failed.
pub fn program_failure(program: &str, status: &str) -> (error: LabError)
    ensures
        error@ == (LabErrorKind::Other, program@ + " exited with "@ + status@),
{
    let mut message = String::from_str(program);
    message.append(" exited with ");
    message.append(status);
    failure_text(LabErrorKind::Other, message)
}

/// Law: a record keeps everything that a program printed, line by line and in order, between a line
/// that opens it and one that ends it.
pub proof fn law_records_keep_every_line(label: Seq<char>, text: Seq<char>, index: int)
    ensures
        captured_of(label, text).len() == lines_of(text).len() + 2,
        captured_of(label, text)[0] == "--- "@ + label + " ---"@,
        captured_of(label, text).last() == "--- end "@ + label + " ---"@,
        0 <= index < lines_of(text).len() ==> captured_of(label, text)[index + 1] == lines_of(
            text,
        )[index],
{
}

} // verus!
