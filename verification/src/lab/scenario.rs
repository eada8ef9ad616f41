//! What the ublk lab does to a device, scenario by scenario.

use crate::lab::command::CommandLine;
#[allow(unused_imports)]
use crate::lab::command::CommandView;
use crate::lab::error::{failure, LabError, LabErrorKind};
use crate::lab::ublk::{fio_command, FioOptions, FioRw, BLOCK_BYTES, RECORD_CAPACITY};
#[allow(unused_imports)]
use crate::lab::ublk::{fio_base_args, fio_option_args};
use crate::text::{chars_of, find_text, parse_digits, push_decimal, strip_prefix, trim_start};
#[allow(unused_imports)]
use crate::text::{
    all_digits, base_digits, decimal, digits_value, find_in, has_prefix, is_digit, is_space,
    leading,
    law_decimal_denotes_its_number, law_decimal_is_injective, lemma_leading, trimmed_start,
};
use vstd::prelude::*;
use vstd::slice::slice_subrange;

verus! {

/// How often each scenario is run.
pub const REPETITIONS: u8 = 3;

/// Where the daemon stops in the scenario that fails while it closes.
pub const FAILPOINT: &'static str = "descriptor-write-complete";

/// A way to use a device and to check what it held on to.
#[derive(Clone, Copy, Debug, PartialEq, Eq, Structural)]
pub enum Scenario {
    Sequential,
    Random,
    Overwrite,
    GracefulRestart,
    SigkillRestart,
    DescriptorCloseFailpoint,
    Exhaustion,
}

/// The scenarios in the order in which they are run.
pub const SCENARIOS: [Scenario; 7] = [
    Scenario::Sequential,
    Scenario::Random,
    Scenario::Overwrite,
    Scenario::GracefulRestart,
    Scenario::SigkillRestart,
    Scenario::DescriptorCloseFailpoint,
    Scenario::Exhaustion,
];

/// What happens to the device in the course of a scenario.
#[derive(Clone, Copy, Debug, PartialEq, Eq, Structural)]
pub enum Transition {
    Start,
    Workload,
    GracefulStop,
    Sigkill,
    WaitForFailpoint,
    RemoveOldDevice,
    Restart,
    Verify,
}

/// One run of fio.
#[derive(Clone, Copy, Debug, PartialEq, Eq)]
pub struct FioJob {
    pub name: &'static str,
    pub pattern: u32,
    pub rw: FioRw,
    pub blocks: u64,
    pub options: FioOptions,
}

/// The meaning of a run of fio.
pub ghost struct JobView {
    pub name: Seq<char>,
    pub pattern: u32,
    pub rw: FioRw,
    pub blocks: u64,
    pub options: FioOptions,
}

impl View for FioJob {
    type V = JobView;

    open spec fn view(&self) -> JobView {
        JobView {
            name: self.name@,
            pattern: self.pattern,
            rw: self.rw,
            blocks: self.blocks,
            options: self.options,
        }
    }
}

impl JobView {
    /// The command that the job runs.
    pub open spec fn command(self, target: Seq<char>) -> CommandView {
        CommandView::of(
            "fio"@,
            fio_base_args(target, self.name, self.pattern, self.rw, (self.blocks * 4096) as u64, 0)
                + fio_option_args(self.options),
        )
    }

    /// Writes blocks, makes them durable and reads them back.
    pub open spec fn write_verify(name: Seq<char>, pattern: u32, rw: FioRw, blocks: u64) -> JobView {
        JobView {
            name,
            pattern,
            rw,
            blocks,
            options: FioOptions {
                do_verify: Some(true),
                verify_only: false,
                fsync: Some(blocks),
                output_json: false,
            },
        }
    }

    /// Writes blocks and makes the first `durable` of them durable, without reading them.
    pub open spec fn write_only(
        name: Seq<char>,
        pattern: u32,
        blocks: u64,
        durable: u64,
        output_json: bool,
    ) -> JobView {
        JobView {
            name,
            pattern,
            rw: FioRw::Write,
            blocks,
            options: FioOptions {
                do_verify: Some(false),
                verify_only: false,
                fsync: Some(durable),
                output_json,
            },
        }
    }

    /// Only reads blocks back.
    pub open spec fn verify(name: Seq<char>, pattern: u32, blocks: u64) -> JobView {
        JobView {
            name,
            pattern,
            rw: FioRw::Write,
            blocks,
            options: FioOptions {
                do_verify: None,
                verify_only: true,
                fsync: None,
                output_json: false,
            },
        }
    }

    /// Writes before a restart and reads back after it.
    pub open spec fn around_restart(name: Seq<char>, pattern: u32, blocks: u64) -> Seq<JobView> {
        seq![
            JobView::write_only(name, pattern, blocks, blocks, false),
            JobView::verify(name, pattern, blocks),
        ]
    }
}

/// The jobs' meanings.
pub open spec fn job_views(jobs: Seq<FioJob>) -> Seq<JobView> {
    Seq::new(jobs.len(), |i: int| jobs[i]@)
}

impl FioJob {
    /// The command that runs the job on `target`.
    pub fn command(self, target: &str) -> (command: CommandLine)
        requires
            self.blocks * 4096 <= u64::MAX,
        ensures
            command@ == self@.command(target@),
    {
        fio_command(
            target,
            self.name,
            self.pattern,
            self.rw,
            self.blocks * BLOCK_BYTES,
            0,
            self.options,
        )
    }
}

fn write_verify(name: &'static str, pattern: u32, rw: FioRw, blocks: u64) -> (job: FioJob)
    ensures
        job@ == JobView::write_verify(name@, pattern, rw, blocks),
{
    FioJob {
        name,
        pattern,
        rw,
        blocks,
        options: FioOptions {
            do_verify: Some(true),
            verify_only: false,
            fsync: Some(blocks),
            output_json: false,
        },
    }
}

fn verify(name: &'static str, pattern: u32, blocks: u64) -> (job: FioJob)
    ensures
        job@ == JobView::verify(name@, pattern, blocks),
{
    FioJob {
        name,
        pattern,
        rw: FioRw::Write,
        blocks,
        options: FioOptions { do_verify: None, verify_only: true, fsync: None, output_json: false },
    }
}

fn restart_jobs(name: &'static str, pattern: u32, blocks: u64) -> (jobs: Vec<FioJob>)
    ensures
        job_views(jobs@) == JobView::around_restart(name@, pattern, blocks),
{
    let mut jobs: Vec<FioJob> = Vec::new();
    jobs.push(
        FioJob {
            name,
            pattern,
            rw: FioRw::Write,
            blocks,
            options: FioOptions {
                do_verify: Some(false),
                verify_only: false,
                fsync: Some(blocks),
                output_json: false,
            },
        },
    );
    jobs.push(verify(name, pattern, blocks));
    assert(job_views(jobs@) =~= JobView::around_restart(name@, pattern, blocks));
    jobs
}

impl Scenario {
    /// The scenario's name.
    pub open spec fn text(self) -> Seq<char> {
        match self {
            Scenario::Sequential => "sequential"@,
            Scenario::Random => "random"@,
            Scenario::Overwrite => "overwrite"@,
            Scenario::GracefulRestart => "graceful-restart"@,
            Scenario::SigkillRestart => "sigkill-restart"@,
            Scenario::DescriptorCloseFailpoint => "descriptor-close-failpoint"@,
            Scenario::Exhaustion => "exhaustion"@,
        }
    }

    /// The scenario's name.
    pub fn name(self) -> (name: &'static str)
        ensures
            name@ == self.text(),
    {
        match self {
            Scenario::Sequential => "sequential",
            Scenario::Random => "random",
            Scenario::Overwrite => "overwrite",
            Scenario::GracefulRestart => "graceful-restart",
            Scenario::SigkillRestart => "sigkill-restart",
            Scenario::DescriptorCloseFailpoint => "descriptor-close-failpoint",
            Scenario::Exhaustion => "exhaustion",
        }
    }

    /// How many blocks the scenario tries to write.
    pub open spec fn attempts(self) -> u64 {
        match self {
            Scenario::Sequential | Scenario::Random => 16,
            Scenario::Exhaustion => 33,
            _ => 8,
        }
    }

    /// How many blocks the scenario tries to write.
    pub fn attempted_writes(self) -> (count: u64)
        ensures
            count == self.attempts(),
    {
        match self {
            Scenario::Sequential | Scenario::Random => 16,
            Scenario::Overwrite
            | Scenario::GracefulRestart
            | Scenario::SigkillRestart
            | Scenario::DescriptorCloseFailpoint => 8,
            Scenario::Exhaustion => 33,
        }
    }

    /// How many of the writes the log has room for.
    pub fn successful_writes(self) -> (count: u64)
        ensures
            count == if self.attempts() <= RECORD_CAPACITY {
                self.attempts()
            } else {
                RECORD_CAPACITY
            },
    {
        let attempts: u64 = self.attempted_writes();
        if attempts <= RECORD_CAPACITY {
            attempts
        } else {
            RECORD_CAPACITY
        }
    }

    /// What happens to the device, in order.
    pub open spec fn course(self) -> Seq<Transition> {
        match self {
            Scenario::Sequential | Scenario::Random | Scenario::Overwrite => seq![
                Transition::Start,
                Transition::Workload,
            ],
            Scenario::GracefulRestart | Scenario::Exhaustion => seq![
                Transition::Start,
                Transition::Workload,
                Transition::GracefulStop,
                Transition::Restart,
                Transition::Verify,
            ],
            Scenario::SigkillRestart => seq![
                Transition::Start,
                Transition::Workload,
                Transition::Sigkill,
                Transition::RemoveOldDevice,
                Transition::Restart,
                Transition::Verify,
            ],
            Scenario::DescriptorCloseFailpoint => seq![
                Transition::Start,
                Transition::Workload,
                Transition::GracefulStop,
                Transition::WaitForFailpoint,
                Transition::Sigkill,
                Transition::RemoveOldDevice,
                Transition::Restart,
                Transition::Verify,
            ],
        }
    }

    /// What happens to the device, in order.
    pub fn transitions(self) -> (course: Vec<Transition>)
        ensures
            course@ == self.course(),
    {
        let mut course: Vec<Transition> = Vec::new();
        course.push(Transition::Start);
        course.push(Transition::Workload);
        match self {
            Scenario::Sequential | Scenario::Random | Scenario::Overwrite => {},
            Scenario::GracefulRestart | Scenario::Exhaustion => {
                course.push(Transition::GracefulStop);
                course.push(Transition::Restart);
                course.push(Transition::Verify);
            },
            Scenario::SigkillRestart => {
                course.push(Transition::Sigkill);
                course.push(Transition::RemoveOldDevice);
                course.push(Transition::Restart);
                course.push(Transition::Verify);
            },
            Scenario::DescriptorCloseFailpoint => {
                course.push(Transition::GracefulStop);
                course.push(Transition::WaitForFailpoint);
                course.push(Transition::Sigkill);
                course.push(Transition::RemoveOldDevice);
                course.push(Transition::Restart);
                course.push(Transition::Verify);
            },
        }
        assert(course@ =~= self.course());
        course
    }

    /// The jobs of the scenario, in order.
    pub open spec fn jobs(self) -> Seq<JobView> {
        match self {
            Scenario::Sequential => seq![
                JobView::write_verify("sequential"@, 0x1357_9bdf, FioRw::Write, 16),
            ],
            Scenario::Random => seq![
                JobView::write_verify("random"@, 0x2468_ace0, FioRw::RandomWrite, 16),
            ],
            Scenario::Overwrite => Seq::new(
                8,
                |i: int|
                    JobView::write_verify(
                        "overwrite"@,
                        ((i + 1) * 0x0101_0101) as u32,
                        FioRw::Write,
                        1,
                    ),
            ),
            Scenario::GracefulRestart => JobView::around_restart("graceful"@, 0x1122_3344, 8),
            Scenario::SigkillRestart => JobView::around_restart("sigkill"@, 0x5566_7788, 8),
            Scenario::DescriptorCloseFailpoint => JobView::around_restart(
                "close-failpoint"@,
                0x99aa_bbcc,
                8,
            ),
            Scenario::Exhaustion => seq![
                JobView::write_only("exhaustion"@, 0xdead_beef, 33, 32, true),
                JobView::verify("exhaustion"@, 0xdead_beef, 32),
            ],
        }
    }

    /// The jobs of the scenario, in order.
    pub fn fio_jobs(self) -> (jobs: Vec<FioJob>)
        ensures
            job_views(jobs@) == self.jobs(),
    {
        match self {
            Scenario::GracefulRestart => {
                return restart_jobs("graceful", 0x1122_3344, 8);
            },
            Scenario::SigkillRestart => {
                return restart_jobs("sigkill", 0x5566_7788, 8);
            },
            Scenario::DescriptorCloseFailpoint => {
                return restart_jobs("close-failpoint", 0x99aa_bbcc, 8);
            },
            _ => {},
        }
        let mut jobs: Vec<FioJob> = Vec::new();
        match self {
            Scenario::Sequential => {
                jobs.push(write_verify("sequential", 0x1357_9bdf, FioRw::Write, 16));
            },
            Scenario::Random => {
                jobs.push(write_verify("random", 0x2468_ace0, FioRw::RandomWrite, 16));
            },
            Scenario::Exhaustion => {
                jobs.push(
                    FioJob {
                        name: "exhaustion",
                        pattern: 0xdead_beef,
                        rw: FioRw::Write,
                        blocks: 33,
                        options: FioOptions {
                            do_verify: Some(false),
                            verify_only: false,
                            fsync: Some(32),
                            output_json: true,
                        },
                    },
                );
                jobs.push(verify("exhaustion", 0xdead_beef, 32));
            },
            _ => {
                let mut byte: u32 = 1;
                while byte <= 8
                    invariant
                        1 <= byte <= 9,
                        jobs@.len() == byte - 1,
                        forall|i: int|
                            0 <= i < jobs@.len() ==> #[trigger] jobs@[i]@ == JobView::write_verify(
                                "overwrite"@,
                                ((i + 1) * 0x0101_0101) as u32,
                                FioRw::Write,
                                1,
                            ),
                    decreases 9 - byte,
                {
                    jobs.push(write_verify("overwrite", byte * 0x0101_0101, FioRw::Write, 1));
                    byte = byte + 1;
                }
            },
        }
        assert(job_views(jobs@) =~= self.jobs());
        jobs
    }
}

/// Law: what a run of fio does can be read off its command: it works on `target` in single blocks
/// from the start on, over exactly the job's blocks, with the job's pattern, verifies by a hash and
/// stops at the first mismatch, and it only reads exactly if the job says so.
pub proof fn law_command_says_what_the_job_does(job: JobView, target: Seq<char>)
    requires
        job.blocks * 4096 <= u64::MAX,
    ensures
        ({
            let args = job.command(target).args;
            &&& job.command(target).program == "fio"@
            &&& args.contains("--name="@ + job.name)
            &&& args.contains("--filename="@ + target)
            &&& args.contains("--bs="@ + decimal(4096))
            &&& args.contains("--offset="@ + decimal(0))
            &&& args.contains("--size="@ + decimal(4096 * job.blocks))
            &&& args.contains("--verify_pattern=0x"@ + base_digits(job.pattern as int, 16, 8))
            &&& args.contains("--direct=1"@)
            &&& args.contains("--verify=md5"@)
            &&& args.contains("--verify_fatal=1"@)
            &&& args.contains("--end_fsync=1"@)
            &&& args.contains("--rw="@ + (if job.rw is RandomWrite {
                "randwrite"@
            } else {
                "write"@
            }))
            &&& job.options.verify_only ==> args.contains("--verify_only=1"@)
            &&& job.options.do_verify == Some(true) ==> args.contains("--do_verify=1"@)
            &&& job.options.do_verify == Some(false) ==> args.contains("--do_verify=0"@)
            &&& job.options.fsync matches Some(count) ==> args.contains(
                "--fsync="@ + decimal(count as int),
            )
            &&& job.options.output_json ==> args.contains("--output-format=json"@)
        }),
{
    let base = fio_base_args(
        target,
        job.name,
        job.pattern,
        job.rw,
        (job.blocks * 4096) as u64,
        0,
    );
    let more = fio_option_args(job.options);
    let args = job.command(target).args;
    assert(args == base + more);
    assert forall|i: int| 0 <= i < base.len() implies args.contains(#[trigger] base[i]) by {
        assert(args[i] == base[i]);
    }
    assert forall|i: int| 0 <= i < more.len() implies args.contains(#[trigger] more[i]) by {
        assert(args[base.len() + i] == more[i]);
    }
    assert(base[0] == "--name="@ + job.name);
    assert(base[1] == "--filename="@ + target);
    assert(base[2] == "--direct=1"@);
    assert(base[4] == "--bs="@ + decimal(4096));
    assert(base[7] == "--rw="@ + job.rw.text());
    assert(base[8] == "--offset="@ + decimal(0));
    assert(base[9] == "--size="@ + decimal(4096 * job.blocks));
    assert(base[10] == "--verify=md5"@);
    assert(base[11] == "--verify_pattern=0x"@ + base_digits(job.pattern as int, 16, 8));
    assert(base[12] == "--verify_fatal=1"@);
    assert(base[17] == "--end_fsync=1"@);
    let at_only: int = if job.options.do_verify is Some {
        1
    } else {
        0
    };
    let at_fsync: int = at_only + (if job.options.verify_only {
        1int
    } else {
        0
    });
    let at_json: int = at_fsync + (if job.options.fsync is Some {
        1int
    } else {
        0
    });
    if let Some(verify) = job.options.do_verify {
        assert(more[0] == if verify {
            "--do_verify=1"@
        } else {
            "--do_verify=0"@
        });
    }
    if job.options.verify_only {
        assert(more[at_only] == "--verify_only=1"@);
    }
    if let Some(count) = job.options.fsync {
        assert(more[at_fsync] == "--fsync="@ + decimal(count as int));
    }
    if job.options.output_json {
        assert(more[at_json] == "--output-format=json"@);
    }
}

/// Law: a job that may write says nothing of only reading in its command.
pub proof fn law_only_reading_jobs_say_so(job: JobView, target: Seq<char>)
    requires
        !job.options.verify_only,
    ensures
        !job.command(target).args.contains("--verify_only=1"@),
{
    let base = fio_base_args(
        target,
        job.name,
        job.pattern,
        job.rw,
        (job.blocks * 4096) as u64,
        0,
    );
    let more = fio_option_args(job.options);
    let wanted = "--verify_only=1"@;
    reveal_strlit("--verify_only=1");
    reveal_strlit("--name=");
    reveal_strlit("--filename=");
    reveal_strlit("--direct=1");
    reveal_strlit("--ioengine=sync");
    reveal_strlit("--bs=");
    reveal_strlit("--iodepth=1");
    reveal_strlit("--numjobs=1");
    reveal_strlit("--rw=");
    reveal_strlit("--offset=");
    reveal_strlit("--size=");
    reveal_strlit("--verify=md5");
    reveal_strlit("--verify_pattern=0x");
    reveal_strlit("--verify_fatal=1");
    reveal_strlit("--verify_dump=0");
    reveal_strlit("--verify_state_save=0");
    reveal_strlit("--randrepeat=1");
    reveal_strlit("--randseed=74703");
    reveal_strlit("--end_fsync=1");
    reveal_strlit("--do_verify=1");
    reveal_strlit("--do_verify=0");
    reveal_strlit("--fsync=");
    reveal_strlit("--output-format=json");
    assert(wanted[2] == 'v' && wanted[8] == '_' && wanted[9] == 'o');
    assert forall|i: int| 0 <= i < base.len() implies #[trigger] base[i] != wanted by {
        if i == 10 {
            assert(base[i][8] == '=');
        } else if i == 11 {
            assert(base[i][9] == 'p');
        } else if i == 12 {
            assert(base[i][9] == 'f');
        } else if i == 13 {
            assert(base[i][9] == 'd');
        } else if i == 14 {
            assert(base[i][9] == 's');
        } else {
            assert(base[i][2] != 'v');
        }
    }
    assert forall|i: int| 0 <= i < more.len() implies #[trigger] more[i] != wanted by {
        assert(more[i][2] != 'v');
    }
    let args = job.command(target).args;
    assert forall|i: int| 0 <= i < args.len() implies #[trigger] args[i] != wanted by {
        if i < base.len() {
            assert(args[i] == base[i]);
        } else {
            assert(args[i] == more[i - base.len()]);
        }
    }
}

/// Law: where a scenario restarts the daemon there is one job before it and one after it. The one
/// before writes, without reading back, and makes blocks durable; the one after only reads, and it
/// reads exactly the blocks that were made durable and that the device has room for, under the same
/// name and with the same pattern, so that it fails if any of them was lost.
pub proof fn law_after_a_restart_the_written_blocks_are_read(scenario: Scenario, target: Seq<char>)
    requires
        scenario.course().contains(Transition::Restart),
    ensures
        ({
            let jobs = scenario.jobs();
            let (before, after) = (jobs[0], jobs[1]);
            &&& jobs.len() == 2
            &&& before.command(target).args.contains("--do_verify=0"@)
            &&& !before.command(target).args.contains("--verify_only=1"@)
            &&& after.command(target).args.contains("--verify_only=1"@)
            &&& after.name == before.name
            &&& after.pattern == before.pattern
            &&& after.rw == before.rw
            &&& before.options.fsync == Some(after.blocks)
            &&& after.blocks == (if before.blocks <= 32 {
                before.blocks
            } else {
                32
            })
            &&& before.blocks == scenario.attempts()
            &&& before.options.output_json <==> before.blocks > 32
            &&& !after.options.output_json
        }),
{
    let jobs = scenario.jobs();
    law_command_says_what_the_job_does(jobs[0], target);
    law_command_says_what_the_job_does(jobs[1], target);
    law_only_reading_jobs_say_so(jobs[0], target);
}

/// Law: where a scenario does not restart the daemon, every job writes all of its blocks, makes
/// them durable and reads them back, and together they write what the scenario tries to write.
pub proof fn law_without_a_restart_every_job_reads_back(
    scenario: Scenario,
    target: Seq<char>,
    index: int,
)
    requires
        !scenario.course().contains(Transition::Restart),
        0 <= index < scenario.jobs().len(),
    ensures
        ({
            let jobs = scenario.jobs();
            let job = jobs[index];
            &&& job.command(target).args.contains("--do_verify=1"@)
            &&& !job.command(target).args.contains("--verify_only=1"@)
            &&& job.options.fsync == Some(job.blocks)
            &&& job.blocks * jobs.len() == scenario.attempts()
            &&& job.rw is RandomWrite <==> scenario is Random
            &&& forall|other: int|
                0 <= other < jobs.len() && other != index ==> (#[trigger] jobs[other]).pattern
                    != job.pattern && jobs[other].blocks == job.blocks && jobs[other].name
                    == job.name
        }),
{
    assert(scenario.course() =~= seq![Transition::Start, Transition::Workload]
        || scenario.course()[3] == Transition::Restart || scenario.course()[4]
        == Transition::Restart || scenario.course()[6] == Transition::Restart);
    let job = scenario.jobs()[index];
    law_command_says_what_the_job_does(job, target);
    law_only_reading_jobs_say_so(job, target);
}

/// Law: a course begins by starting a daemon and using the device, restarts only what was stopped
/// or killed before, removes the device of a killed daemon before that, and ends a restart by
/// verifying.
pub proof fn law_courses_are_in_order(scenario: Scenario, index: int)
    requires
        0 <= index < scenario.course().len(),
    ensures
        ({
            let course = scenario.course();
            &&& course[0] is Start
            &&& course[1] is Workload
            &&& course[index] is Restart ==> {
                &&& index + 2 == course.len()
                &&& course[index + 1] is Verify
                &&& course[index - 1] is GracefulStop || (course[index - 1] is RemoveOldDevice
                    && course[index - 2] is Sigkill)
            }
            &&& course[index] is Verify ==> course[index - 1] is Restart
            &&& course[index] is Sigkill ==> course[index + 1] is RemoveOldDevice && course[index
                + 2] is Restart
            &&& course[index] is WaitForFailpoint <==> scenario is DescriptorCloseFailpoint
                && index == 3
            &&& course.len() > 2 <==> scenario is GracefulRestart || scenario is SigkillRestart
                || scenario is DescriptorCloseFailpoint || scenario is Exhaustion
        }),
{
}

/// Law: every command of every job of every scenario is among those that are checked beforehand,
/// and no other.
pub proof fn law_every_job_is_among_the_commands(
    scenario: int,
    job: int,
    target: Seq<char>,
    count: int,
)
    requires
        0 <= scenario < count <= 7,
        0 <= job < SCENARIOS[scenario].jobs().len(),
    ensures
        fio_commands(count, target).contains(SCENARIOS[scenario].jobs()[job].command(target)),
    decreases count,
{
    let jobs = SCENARIOS[count - 1].jobs();
    let before = fio_commands(count - 1, target);
    let more = Seq::new(jobs.len(), |i: int| jobs[i].command(target));
    let all = fio_commands(count, target);
    let wanted = SCENARIOS[scenario].jobs()[job].command(target);
    if scenario == count - 1 {
        assert(all[before.len() + job] == more[job]);
    } else {
        law_every_job_is_among_the_commands(scenario, job, target, count - 1);
        let i = choose|i: int| 0 <= i < before.len() && before[i] == wanted;
        assert(all[i] == before[i]);
    }
}

/// The commands of the first `count` scenarios.
pub open spec fn fio_commands(count: int, target: Seq<char>) -> Seq<CommandView>
    decreases count,
{
    if count <= 0 {
        Seq::empty()
    } else {
        let jobs = SCENARIOS[count - 1].jobs();
        fio_commands(count - 1, target) + Seq::new(jobs.len(), |i: int| jobs[i].command(target))
    }
}

/// The meanings of commands.
pub open spec fn command_views(commands: Seq<CommandLine>) -> Seq<CommandView> {
    Seq::new(commands.len(), |i: int| commands[i]@)
}

/// Every command that the scenarios run, on `target`.
pub fn all_fio_commands(target: &str) -> (commands: Vec<CommandLine>)
    ensures
        command_views(commands@) == fio_commands(7, target@),
{
    let mut commands: Vec<CommandLine> = Vec::new();
    let mut i: usize = 0;
    assert(command_views(commands@) =~= fio_commands(0, target@));
    while i < 7
        invariant
            i <= 7,
            command_views(commands@) == fio_commands(i as int, target@),
        decreases 7 - i,
    {
        let scenario = SCENARIOS[i];
        let jobs = scenario.fio_jobs();
        let ghost before = command_views(commands@);
        let ghost wanted = scenario.jobs();
        let mut j: usize = 0;
        assert(forall|k: int| 0 <= k < wanted.len() ==> (#[trigger] wanted[k]).blocks <= 33);
        assert(command_views(commands@) =~= before + Seq::new(
            0,
            |k: int| wanted[k].command(target@),
        ));
        while j < jobs.len()
            invariant
                j <= jobs@.len(),
                job_views(jobs@) == wanted,
                wanted == scenario.jobs(),
                forall|k: int| 0 <= k < wanted.len() ==> (#[trigger] wanted[k]).blocks <= 33,
                command_views(commands@) == before + Seq::new(
                    j as nat,
                    |k: int| wanted[k].command(target@),
                ),
            decreases jobs@.len() - j,
        {
            let ghost earlier = commands@;
            assert(job_views(jobs@)[j as int] == jobs@[j as int]@);
            assert(jobs@[j as int]@ == wanted[j as int]);
            commands.push(jobs[j].command(target));
            assert(command_views(commands@) =~= command_views(earlier).push(
                wanted[j as int].command(target@),
            ));
            assert(command_views(commands@) =~= before + Seq::new(
                (j + 1) as nat,
                |k: int| wanted[k].command(target@),
            ));
            j = j + 1;
        }
        assert(jobs@.len() == wanted.len());
        i = i + 1;
    }
    commands
}

/// Hands out names for the files that catch what programs print, none of them twice.
#[derive(Debug, Default)]
pub struct OutputNames {
    pub daemon: u32,
    pub fio: u32,
    pub command: u32,
}

/// The name of a file that catches what a program prints.
pub open spec fn output_name(label: Seq<char>, sequence: int, stream: Seq<char>) -> Seq<char> {
    label + "."@ + decimal(sequence) + stream
}

fn output_pair(label: &str, sequence: u32) -> (names: (String, String))
    ensures
        names.0@ == output_name(label@, sequence as int, ".stdout"@),
        names.1@ == output_name(label@, sequence as int, ".stderr"@),
{
    let mut out = String::from_str(label);
    out.append(".");
    push_decimal(&mut out, sequence as u64);
    let mut err = String::from_str(out.as_str());
    out.append(".stdout");
    err.append(".stderr");
    (out, err)
}

impl OutputNames {
    /// Nothing handed out yet.
    pub fn new() -> (names: OutputNames)
        ensures
            names == (OutputNames { daemon: 0, fio: 0, command: 0 }),
    {
        OutputNames { daemon: 0, fio: 0, command: 0 }
    }

    /// The files of the next daemon.
    pub fn daemon(&mut self) -> (names: (String, String))
        requires
            old(self).daemon < u32::MAX,
        ensures
            *final(self) == (OutputNames {
                daemon: (old(self).daemon + 1) as u32,
                ..*old(self)
            }),
            names.0@ == output_name("daemon"@, old(self).daemon as int, ".stdout"@),
            names.1@ == output_name("daemon"@, old(self).daemon as int, ".stderr"@),
    {
        let sequence: u32 = self.daemon;
        self.daemon = sequence + 1;
        output_pair("daemon", sequence)
    }

    /// The files of the next run of fio.
    pub fn fio(&mut self) -> (names: (String, String))
        requires
            old(self).fio < u32::MAX,
        ensures
            *final(self) == (OutputNames { fio: (old(self).fio + 1) as u32, ..*old(self) }),
            names.0@ == output_name("fio"@, old(self).fio as int, ".stdout"@),
            names.1@ == output_name("fio"@, old(self).fio as int, ".stderr"@),
    {
        let sequence: u32 = self.fio;
        self.fio = sequence + 1;
        output_pair("fio", sequence)
    }

    /// The files of the next other program.
    pub fn command(&mut self, label: &str) -> (names: (String, String))
        requires
            old(self).command < u32::MAX,
        ensures
            *final(self) == (OutputNames {
                command: (old(self).command + 1) as u32,
                ..*old(self)
            }),
            names.0@ == output_name(label@, old(self).command as int, ".stdout"@),
            names.1@ == output_name(label@, old(self).command as int, ".stderr"@),
    {
        let sequence: u32 = self.command;
        self.command = sequence + 1;
        output_pair(label, sequence)
    }
}

/// The ending of one of the two files of a program.
pub open spec fn stream_of(out: bool) -> Seq<char> {
    if out {
        ".stdout"@
    } else {
        ".stderr"@
    }
}

/// Law: two files that differ in their label, in their number or in the stream that they catch have
/// different names, whatever the labels are.
pub proof fn law_output_names_never_repeat(
    label: Seq<char>,
    first: int,
    out: bool,
    other_label: Seq<char>,
    second: int,
    other_out: bool,
)
    requires
        0 <= first,
        0 <= second,
        label != other_label || first != second || out != other_out,
    ensures
        output_name(label, first, stream_of(out)) != output_name(
            other_label,
            second,
            stream_of(other_out),
        ),
{
    reveal_strlit(".stdout");
    reveal_strlit(".stderr");
    reveal_strlit(".");
    let left = output_name(label, first, stream_of(out));
    let right = output_name(other_label, second, stream_of(other_out));
    if left == right {
        let head = left.take(left.len() - 7);
        let (one, two) = (decimal(first), decimal(second));
        assert(left.skip(left.len() - 7) =~= stream_of(out));
        assert(right.skip(right.len() - 7) =~= stream_of(other_out));
        assert(".stdout"@[4] == 'o' && ".stderr"@[4] == 'e');
        assert(head =~= label + "."@ + one);
        assert(head =~= other_label + "."@ + two);
        law_decimal_denotes_its_number(first);
        law_decimal_denotes_its_number(second);
        assert(head[label.len() as int] == '.');
        assert(head[other_label.len() as int] == '.');
        if label.len() < other_label.len() {
            let at = other_label.len() - label.len() - 1;
            assert(head[other_label.len() as int] == one[at]);
            assert(is_digit(one[at]));
        }
        if other_label.len() < label.len() {
            let at = label.len() - other_label.len() - 1;
            assert(head[label.len() as int] == two[at]);
            assert(is_digit(two[at]));
        }
        assert(label =~= head.take(label.len() as int));
        assert(other_label =~= head.take(label.len() as int));
        assert(one =~= head.skip((label.len() + 1) as int));
        assert(two =~= head.skip((label.len() + 1) as int));
        law_decimal_is_injective(first, second);
    }
}

/// What follows a key and its colon in `input`, where the key first has one.
pub open spec fn value_after(input: Seq<char>, needle: Seq<char>) -> Option<Seq<char>>
    decreases input.len(),
    via value_after_decreases
{
    match find_in(input, needle) {
        None => None,
        Some(at) => if needle.len() == 0 || at < 0 || at + needle.len() > input.len() {
            None
        } else {
            let rest = trimmed_start(input.skip(at + needle.len()));
            if has_prefix(rest, ":"@) {
                Some(rest.skip(":"@.len() as int))
            } else {
                value_after(rest, needle)
            }
        },
    }
}

#[via_fn]
proof fn value_after_decreases(input: Seq<char>, needle: Seq<char>) {
    match find_in(input, needle) {
        None => {},
        Some(at) => {
            if needle.len() > 0 && at >= 0 && at + needle.len() <= input.len() {
                lemma_leading(input.skip(at + needle.len()), true);
            }
        },
    }
}

/// A key as it is written in a text.
pub open spec fn quoted(key: Seq<char>) -> Seq<char> {
    "\""@ + key + "\""@
}

fn invalid_json(message: &str) -> (error: LabError)
    ensures
        error@ == (LabErrorKind::InvalidData, message@),
{
    failure(LabErrorKind::InvalidData, message)
}

fn value_after_key<'a>(input: &'a [char], key: &str) -> (result: Result<&'a [char], LabError>)
    ensures
        match result {
            Ok(value) => value_after(input@, quoted(key@)) == Some(value@),
            Err(error) => {
                &&& value_after(input@, quoted(key@)) is None
                &&& error@ == (LabErrorKind::InvalidData, "required fio field is missing"@)
            },
        },
{
    let mut needle_text = String::from_str("\"");
    needle_text.append(key);
    needle_text.append("\"");
    let needle = chars_of(needle_text.as_str());
    let mut remaining = input;
    proof {
        reveal_strlit("\"");
        assert(needle@ =~= quoted(key@));
    }
    loop
        invariant
            needle@ == quoted(key@),
            needle@.len() >= 2,
            value_after(remaining@, needle@) == value_after(input@, needle@),
        decreases remaining@.len(),
    {
        let at: usize = match find_text(remaining, needle.as_slice()) {
            Some(at) => at,
            None => {
                return Err(invalid_json("required fio field is missing"));
            },
        };
        let rest = trim_start(slice_subrange(remaining, at + needle.len(), remaining.len()));
        proof {
            let tail = remaining@.skip(at + needle@.len());
            assert(remaining@.subrange(at + needle@.len(), remaining@.len() as int) =~= tail);
            lemma_leading(tail, true);
        }
        match strip_prefix(rest, ":") {
            Some(value) => {
                return Ok(value);
            },
            None => {},
        }
        remaining = rest;
    }
}

/// How many decimal digits `text` starts with.
pub open spec fn digit_run(text: Seq<char>) -> int
    decreases text.len(),
{
    if text.len() > 0 && is_digit(text[0]) {
        1 + digit_run(text.skip(1))
    } else {
        0
    }
}

/// Whether a number in a text may end before `character`.
pub open spec fn ends_number(character: char) -> bool {
    ||| character == ' ' || character == '\t' || character == '\n'
    ||| character == '\u{c}' || character == '\r'
    ||| character == ',' || character == '}'
}

/// The number of a key in `input`, or why there is none.
pub open spec fn number_of(input: Seq<char>, needle: Seq<char>) -> Result<int, Seq<char>> {
    match value_after(input, needle) {
        None => Err("required fio field is missing"@),
        Some(found) => {
            let value = trimmed_start(found);
            let end = digit_run(value);
            if end == 0 || end >= value.len() || !ends_number(value[end]) {
                Err("invalid numeric fio field"@)
            } else if digits_value(value.take(end)) > u64::MAX {
                Err("invalid fio number"@)
            } else {
                Ok(digits_value(value.take(end)))
            }
        },
    }
}

fn count_digits(text: &[char]) -> (count: usize)
    ensures
        count == digit_run(text@),
        count <= text@.len(),
        all_digits(text@.take(count as int)),
{
    let mut i: usize = 0;
    assert(text@.skip(0) =~= text@);
    while i < text.len() && '0' <= text[i] && text[i] <= '9'
        invariant
            i <= text@.len(),
            forall|j: int| 0 <= j < i ==> is_digit(#[trigger] text@[j]),
            digit_run(text@) == i + digit_run(text@.skip(i as int)),
        decreases text@.len() - i,
    {
        assert(text@.skip(i as int).skip(1) =~= text@.skip(i + 1));
        i = i + 1;
    }
    i
}

fn number_after_key(input: &[char], key: &str) -> (result: Result<u64, LabError>)
    ensures
        match result {
            Ok(number) => number_of(input@, quoted(key@)) == Ok::<int, Seq<char>>(number as int),
            Err(error) => number_of(input@, quoted(key@)) matches Err(message) && error@ == (
                LabErrorKind::InvalidData,
                message,
            ),
        },
{
    let value = match value_after_key(input, key) {
        Ok(value) => trim_start(value),
        Err(error) => {
            return Err(error);
        },
    };
    let end: usize = count_digits(value);
    if end == 0 || end == value.len() {
        return Err(invalid_json("invalid numeric fio field"));
    }
    let next = value[end];
    if !(next == ' ' || next == '\t' || next == '\n' || next == '\u{c}' || next == '\r' || next
        == ',' || next == '}') {
        return Err(invalid_json("invalid numeric fio field"));
    }
    let digits = slice_subrange(value, 0, end);
    assert(digits@ =~= value@.take(end as int));
    match parse_digits(digits, u64::MAX) {
        Some(number) => Ok(number),
        None => Err(invalid_json("invalid fio number")),
    }
}

/// The error number and the bytes written that fio reports of its first job, or what is wrong
/// with the report.
pub open spec fn report_of(input: Seq<char>) -> Result<(int, int), Seq<char>> {
    match value_after(input, quoted("jobs"@)) {
        None => Err("required fio field is missing"@),
        Some(found) => {
            let jobs = trimmed_start(found);
            let inner = trimmed_start(jobs.skip("["@.len() as int));
            if !has_prefix(jobs, "["@) || !has_prefix(inner, "{"@) {
                Err("jobs must contain an object"@)
            } else {
                let job = inner.skip("{"@.len() as int);
                match number_of(job, quoted("error"@)) {
                    Err(message) => Err(message),
                    Ok(error) => match value_after(job, quoted("write"@)) {
                        None => Err("required fio field is missing"@),
                        Some(write) => match number_of(
                            trimmed_start(write),
                            quoted("io_bytes"@),
                        ) {
                            Err(message) => Err(message),
                            Ok(bytes) => Ok((error, bytes)),
                        },
                    },
                }
            }
        },
    }
}

/// Reads the error number and the bytes written out of what fio reports.
pub fn parse_exhaustion_json(input: &str) -> (result: Result<(u64, u64), LabError>)
    ensures
        match result {
            Ok(found) => report_of(input@) == Ok::<(int, int), Seq<char>>(
                (found.0 as int, found.1 as int),
            ),
            Err(error) => report_of(input@) matches Err(message) && error@ == (
                LabErrorKind::InvalidData,
                message,
            ),
        },
{
    let input = chars_of(input);
    let jobs = match value_after_key(input.as_slice(), "jobs") {
        Ok(value) => trim_start(value),
        Err(error) => {
            return Err(error);
        },
    };
    let inner = match strip_prefix(jobs, "[") {
        Some(rest) => trim_start(rest),
        None => {
            return Err(invalid_json("jobs must contain an object"));
        },
    };
    let job = match strip_prefix(inner, "{") {
        Some(rest) => rest,
        None => {
            return Err(invalid_json("jobs must contain an object"));
        },
    };
    let error: u64 = match number_after_key(job, "error") {
        Ok(number) => number,
        Err(error) => {
            return Err(error);
        },
    };
    let write = match value_after_key(job, "write") {
        Ok(value) => trim_start(value),
        Err(error) => {
            return Err(error);
        },
    };
    let bytes: u64 = match number_after_key(write, "io_bytes") {
        Ok(number) => number,
        Err(error) => {
            return Err(error);
        },
    };
    Ok((error, bytes))
}

/// A run of digits ends where they do.
proof fn lemma_digit_run(digits: Seq<char>, rest: Seq<char>)
    requires
        all_digits(digits),
        rest.len() > 0 ==> !is_digit(rest[0]),
    ensures
        digit_run(digits + rest) == digits.len(),
    decreases digits.len(),
{
    let text = digits + rest;
    if digits.len() > 0 {
        assert(is_digit(digits[0]));
        assert(text.skip(1) =~= digits.skip(1) + rest);
        assert(all_digits(digits.skip(1))) by {
            assert forall|i: int| 0 <= i < digits.skip(1).len() implies is_digit(
                #[trigger] digits.skip(1)[i],
            ) by {
                assert(is_digit(digits[i + 1]));
            }
        }
        lemma_digit_run(digits.skip(1), rest);
    } else {
        assert(text =~= rest);
    }
}

/// Law: the number of a key is the whole number that stands behind its first occurrence and a
/// colon, with any white space around the colon, as long as it fits and is properly ended. One that
/// something else follows is refused, and so is one that does not fit; it is never cut short.
#[verifier::spinoff_prover]
#[verifier::rlimit(40)]
pub proof fn law_whole_numbers_are_read(
    before: Seq<char>,
    needle: Seq<char>,
    gap: Seq<char>,
    more: Seq<char>,
    number: int,
    end: char,
    tail: Seq<char>,
)
    requires
        0 <= number,
        needle.len() > 0,
        forall|i: int| 0 <= i < gap.len() ==> is_space(#[trigger] gap[i]),
        forall|i: int| 0 <= i < more.len() ==> is_space(#[trigger] more[i]),
        !is_digit(end),
        find_in(
            before + needle + (gap + seq![':'] + (more + decimal(number) + (seq![end] + tail))),
            needle,
        ) == Some(before.len() as int),
    ensures
        ({
            let text = before + needle + (gap + seq![':'] + (more + decimal(number) + (seq![end]
                + tail)));
            let ended = end == ' ' || end == '\t' || end == '\n' || end == '\u{c}' || end == '\r'
                || end == ',' || end == '}';
            &&& ended && number <= 0xffff_ffff_ffff_ffff ==> number_of(text, needle) == Ok::<
                int,
                Seq<char>,
            >(number)
            &&& !ended || number > 0xffff_ffff_ffff_ffff ==> number_of(text, needle) is Err
        }),
{
    reveal_strlit(":");
    assert(":"@ =~= seq![':']);
    let digits = decimal(number);
    let last = seq![end] + tail;
    let value = more + digits + last;
    let behind = gap + seq![':'] + value;
    let text = before + needle + behind;
    law_decimal_denotes_its_number(number);
    assert(text.skip((before.len() + needle.len()) as int) =~= behind);
    assert(behind =~= gap + (seq![':'] + value));
    lemma_space_dropped(gap, seq![':'] + value);
    let rest = seq![':'] + value;
    assert(trimmed_start(behind) == rest);
    assert(rest.take(1) =~= ":"@);
    assert(rest.skip(1) =~= value);
    assert(value =~= more + (digits + last));
    assert(is_digit(digits[0]));
    assert((digits + last)[0] == digits[0]);
    lemma_space_dropped(more, digits + last);
    lemma_digit_run(digits, last);
    let shown = digits + last;
    assert(shown[digits.len() as int] == end);
    assert(shown.take(digits.len() as int) =~= digits);
}

/// White space in front of something else is dropped.
proof fn lemma_space_dropped(space: Seq<char>, rest: Seq<char>)
    requires
        forall|i: int| 0 <= i < space.len() ==> is_space(#[trigger] space[i]),
        rest.len() > 0,
        !is_space(rest[0]),
    ensures
        trimmed_start(space + rest) == rest,
{
    let text = space + rest;
    lemma_leading(text, true);
    let at = leading(text, true);
    if at < space.len() {
        assert(text[at] == space[at]);
    }
    if at > space.len() {
        assert(text[space.len() as int] == rest[0]);
    }
    assert(text.skip(space.len() as int) =~= rest);
}

} // verus!
