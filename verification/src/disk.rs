//! Blocks on disk: what is done to a file to write or read one.
#[allow(unused_imports)]
use crate::octets::bytes_contents;
use bytes::Bytes;
use vstd::prelude::*;

verus! {

/// What is asked of a file: to write a block at an offset, or to read one.
#[derive(Debug)]
pub enum DiskCommand {
    WriteBlock { offset: u64, data: Bytes },
    ReadBlock { offset: u64, length: usize },
}

/// One thing that is done to a file.
#[derive(Debug)]
pub enum DiskStep {
    /// Open the file for writing. It is created where it is missing, with the directories
    /// above it, and it is not cut.
    OpenForWriting,
    /// Open the file for reading.
    OpenForReading,
    /// Go to an offset from the start.
    Seek(u64),
    /// Write all octets.
    WriteAll(Bytes),
    /// Read as many octets, and no fewer.
    ReadExact(usize),
}

/// What a [`DiskCommand`] says.
pub enum Job {
    Write { offset: u64, data: Seq<u8> },
    Read { offset: u64, length: usize },
}

/// What a [`DiskStep`] says.
pub enum Step {
    OpenForWriting,
    OpenForReading,
    Seek(u64),
    WriteAll(Seq<u8>),
    ReadExact(usize),
}

impl View for DiskCommand {
    type V = Job;

    open spec fn view(&self) -> Job {
        match self {
            DiskCommand::WriteBlock { offset, data } => Job::Write {
                offset: *offset,
                data: bytes_contents(*data),
            },
            DiskCommand::ReadBlock { offset, length } => Job::Read {
                offset: *offset,
                length: *length,
            },
        }
    }
}

impl View for DiskStep {
    type V = Step;

    open spec fn view(&self) -> Step {
        match self {
            DiskStep::OpenForWriting => Step::OpenForWriting,
            DiskStep::OpenForReading => Step::OpenForReading,
            DiskStep::Seek(offset) => Step::Seek(*offset),
            DiskStep::WriteAll(data) => Step::WriteAll(bytes_contents(*data)),
            DiskStep::ReadExact(length) => Step::ReadExact(*length),
        }
    }
}

impl Job {
    /// What is done to the file, in this order, up to the first step that fails.
    pub open spec fn steps(self) -> Seq<Step> {
        match self {
            Job::Write { offset, data } => seq![
                Step::OpenForWriting,
                Step::Seek(offset),
                Step::WriteAll(data),
            ],
            Job::Read { offset, length } => seq![
                Step::OpenForReading,
                Step::Seek(offset),
                Step::ReadExact(length),
            ],
        }
    }
}

impl Step {
    /// What is said where the step fails for a reason.
    pub open spec fn failure(self, reason: Seq<char>) -> Seq<char> {
        match self {
            Step::OpenForWriting => "Failed to open file for writing: "@ + reason,
            Step::OpenForReading => "Failed to open file for reading: "@ + reason,
            Step::Seek(_) => "Seek failed: "@ + reason,
            Step::WriteAll(_) => "Write failed: "@ + reason,
            Step::ReadExact(_) => "Read failed: "@ + reason,
        }
    }
}

impl DiskCommand {
    /// What is done to the file, in this order, up to the first step that fails.
    pub fn steps(self) -> (steps: Vec<DiskStep>)
        ensures
            steps@.map_values(|step: DiskStep| step@) == self@.steps(),
    {
        let mut steps: Vec<DiskStep> = Vec::new();
        match self {
            DiskCommand::WriteBlock { offset, data } => {
                steps.push(DiskStep::OpenForWriting);
                steps.push(DiskStep::Seek(offset));
                steps.push(DiskStep::WriteAll(data));
            },
            DiskCommand::ReadBlock { offset, length } => {
                steps.push(DiskStep::OpenForReading);
                steps.push(DiskStep::Seek(offset));
                steps.push(DiskStep::ReadExact(length));
            },
        }
        assert(steps@.map_values(|step: DiskStep| step@) =~= self@.steps());
        steps
    }
}

impl DiskStep {
    /// What is said where the step fails for a reason.
    pub fn failure(&self, reason: &str) -> (text: String)
        ensures
            text@ == self@.failure(reason@),
    {
        match self {
            DiskStep::OpenForWriting => "Failed to open file for writing: ".to_owned().concat(
                reason,
            ),
            DiskStep::OpenForReading => "Failed to open file for reading: ".to_owned().concat(
                reason,
            ),
            DiskStep::Seek(_) => "Seek failed: ".to_owned().concat(reason),
            DiskStep::WriteAll(_) => "Write failed: ".to_owned().concat(reason),
            DiskStep::ReadExact(_) => "Read failed: ".to_owned().concat(reason),
        }
    }
}

/// A command that is being carried out: the step to do now, those to do after it, and what
/// was read so far.
#[derive(Debug)]
pub struct DiskJob {
    pub step: DiskStep,
    pub rest: Vec<DiskStep>,
    pub read: Option<Bytes>,
}

/// What comes of a step: the command goes on, or it is answered.
#[derive(Debug)]
pub enum DiskProgress {
    Going(DiskJob),
    Answered(Result<Option<Bytes>, String>),
}

/// What a [`DiskJob`] says.
#[verifier::ext_equal]
pub struct Pending {
    pub step: Step,
    pub rest: Seq<Step>,
    pub read: Option<Seq<u8>>,
}

/// What a [`DiskProgress`] says.
pub enum Progress {
    Going(Pending),
    Answered(Result<Option<Seq<u8>>, Seq<char>>),
}

/// What octets that may have been read hold.
pub open spec fn block_of(read: Option<Bytes>) -> Option<Seq<u8>> {
    match read {
        Some(block) => Some(bytes_contents(block)),
        None => None,
    }
}

/// What the outcome of a step says: octets where it has read some, or why it has failed.
pub open spec fn outcome_of(outcome: Result<Option<Bytes>, String>) -> Result<
    Option<Seq<u8>>,
    Seq<char>,
> {
    match outcome {
        Ok(read) => Ok(block_of(read)),
        Err(reason) => Err(reason@),
    }
}

impl View for DiskJob {
    type V = Pending;

    open spec fn view(&self) -> Pending {
        Pending {
            step: self.step@,
            rest: self.rest@.map_values(|step: DiskStep| step@),
            read: block_of(self.read),
        }
    }
}

impl View for DiskProgress {
    type V = Progress;

    open spec fn view(&self) -> Progress {
        match self {
            DiskProgress::Going(job) => Progress::Going(job@),
            DiskProgress::Answered(answer) => Progress::Answered(outcome_of(*answer)),
        }
    }
}

impl Job {
    /// The command before anything is done.
    pub open spec fn begun(self) -> Pending {
        Pending { step: self.steps()[0], rest: self.steps().drop_first(), read: None }
    }
}

impl Pending {
    /// What comes of the outcome of the step. The first failure ends the command, and its
    /// words are the answer. Once all steps are done, the answer is what was read.
    pub open spec fn after(self, outcome: Result<Option<Seq<u8>>, Seq<char>>) -> Progress {
        match outcome {
            Err(reason) => Progress::Answered(Err(self.step.failure(reason))),
            Ok(block) => {
                let read = if self.step is ReadExact {
                    block
                } else {
                    self.read
                };
                if self.rest.len() == 0 {
                    Progress::Answered(Ok(read))
                } else {
                    Progress::Going(
                        Pending { step: self.rest[0], rest: self.rest.drop_first(), read },
                    )
                }
            },
        }
    }

    /// The answer that comes of several outcomes, if they bring the command to its end.
    pub open spec fn answer(self, outcomes: Seq<Result<Option<Seq<u8>>, Seq<char>>>) -> Option<
        Result<Option<Seq<u8>>, Seq<char>>,
    >
        decreases outcomes.len(),
    {
        if outcomes.len() == 0 {
            None
        } else {
            match self.after(outcomes[0]) {
                Progress::Going(next) => next.answer(outcomes.drop_first()),
                Progress::Answered(answer) => Some(answer),
            }
        }
    }
}

impl DiskJob {
    /// Begins to carry out a command.
    pub fn begin(command: DiskCommand) -> (job: Self)
        ensures
            job@ == command@.begun(),
    {
        let mut rest = command.steps();
        let ghost steps = rest@;
        assert(steps.map_values(|step: DiskStep| step@)[0] == steps[0]@);
        let step = rest.remove(0);
        let job = DiskJob { step, rest, read: None };
        assert(job@.rest =~= command@.steps().drop_first());
        job
    }

    /// Goes on with the outcome of the step: what it has read, if anything, or why it has
    /// failed.
    pub fn after(self, outcome: Result<Option<Bytes>, String>) -> (progress: DiskProgress)
        ensures
            progress@ == self@.after(outcome_of(outcome)),
    {
        let block = match outcome {
            Ok(block) => block,
            Err(reason) => return DiskProgress::Answered(Err(self.step.failure(reason.as_str()))),
        };
        let read = match self.step {
            DiskStep::ReadExact(_) => block,
            _ => self.read,
        };
        let mut rest = self.rest;
        if rest.len() == 0 {
            return DiskProgress::Answered(Ok(read));
        }
        let step = rest.remove(0);
        let job = DiskJob { step, rest, read };
        assert(job@.rest =~= self@.rest.drop_first());
        DiskProgress::Going(job)
    }
}

/// The first step that fails ends a command, and its words are the answer, whatever would
/// come after it.
pub proof fn first_failure_is_the_answer(
    job: Job,
    outcomes: Seq<Result<Option<Seq<u8>>, Seq<char>>>,
    failed: int,
)
    requires
        0 <= failed < job.steps().len(),
        failed < outcomes.len(),
        forall|i: int| 0 <= i < failed ==> #[trigger] outcomes[i] is Ok,
        outcomes[failed] is Err,
    ensures
        job.begun().answer(outcomes) == Some(
            Err::<Option<Seq<u8>>, Seq<char>>(
                job.steps()[failed].failure(outcomes[failed]->Err_0),
            ),
        ),
{
    reveal_with_fuel(Pending::answer, 4);
    let later = outcomes.drop_first();
    assert(failed >= 1 ==> outcomes[0] is Ok && later[0] == outcomes[1]);
    assert(failed >= 2 ==> outcomes[1] is Ok && later.drop_first()[0] == outcomes[2]);
}

/// Where no step fails, a read is answered with what its last step has read, and a write
/// with nothing, once all steps are done and not before.
pub proof fn done_steps_are_answered(
    job: Job,
    outcomes: Seq<Result<Option<Seq<u8>>, Seq<char>>>,
)
    requires
        outcomes.len() <= job.steps().len(),
        forall|i: int| 0 <= i < outcomes.len() ==> #[trigger] outcomes[i] is Ok,
    ensures
        job.begun().answer(outcomes) == if outcomes.len() < job.steps().len() {
            None
        } else if job is Read {
            Some(Ok::<Option<Seq<u8>>, Seq<char>>(outcomes.last()->Ok_0))
        } else {
            Some(Ok::<Option<Seq<u8>>, Seq<char>>(None))
        },
{
    reveal_with_fuel(Pending::answer, 4);
    let later = outcomes.drop_first();
    assert(outcomes.len() >= 1 ==> outcomes[0] is Ok);
    assert(outcomes.len() >= 2 ==> outcomes[1] is Ok && later[0] == outcomes[1]);
    assert(outcomes.len() >= 3 ==> outcomes[2] is Ok && later.drop_first()[0] == outcomes[2]);
}

/// A file: what it holds, where the next octet is written or read, and what was read last.
#[verifier::ext_equal]
pub struct OpenFile {
    pub contents: Seq<u8>,
    pub position: int,
    pub read: Seq<u8>,
}

impl OpenFile {
    /// The file once a step was done to it. A write overwrites and may lengthen the file;
    /// a gap before it is filled with zeros. There is none where fewer octets than asked
    /// for can be read.
    pub open spec fn after(self, step: Step) -> Option<OpenFile> {
        match step {
            Step::OpenForWriting | Step::OpenForReading => Some(OpenFile { position: 0, ..self }),
            Step::Seek(offset) => Some(OpenFile { position: offset as int, ..self }),
            Step::WriteAll(data) => Some(
                OpenFile {
                    contents: overwritten(self.contents, self.position, data),
                    position: self.position + data.len(),
                    ..self
                },
            ),
            Step::ReadExact(length) => if length == 0 {
                Some(OpenFile { read: Seq::empty(), ..self })
            } else if self.position + length <= self.contents.len() {
                Some(
                    OpenFile {
                        position: self.position + length,
                        read: self.contents.subrange(self.position, self.position + length),
                        ..self
                    },
                )
            } else {
                None
            },
        }
    }

    /// The file once several steps were done to it.
    pub open spec fn after_all(self, steps: Seq<Step>) -> Option<OpenFile>
        decreases steps.len(),
    {
        if steps.len() == 0 {
            Some(self)
        } else {
            match self.after(steps[0]) {
                Some(file) => file.after_all(steps.drop_first()),
                None => None,
            }
        }
    }
}

/// What a file holds once octets were written to it at a position.
pub open spec fn overwritten(contents: Seq<u8>, position: int, data: Seq<u8>) -> Seq<u8> {
    if data.len() == 0 {
        contents
    } else {
        let end = position + data.len();
        Seq::new(
            if contents.len() < end {
                end as nat
            } else {
                contents.len()
            },
            |i: int|
                if position <= i < end {
                    data[i - position]
                } else if i < contents.len() {
                    contents[i]
                } else {
                    0
                },
        )
    }
}

/// The steps of a job, one by one.
proof fn job_runs(file: OpenFile, job: Job)
    ensures
        file.after_all(job.steps()) == match job {
            Job::Write { offset, data } => Some(
                OpenFile {
                    contents: overwritten(file.contents, offset as int, data),
                    position: offset + data.len(),
                    ..file
                },
            ),
            Job::Read { offset, length } => OpenFile { position: offset as int, ..file }.after(
                Step::ReadExact(length),
            ),
        },
{
    reveal_with_fuel(OpenFile::after_all, 4);
    let steps = job.steps();
    assert(steps.drop_first()[0] == steps[1]);
    assert(steps.drop_first().drop_first()[0] == steps[2]);
}

/// Where nothing fails, a block that was written is read back from the same offset, whatever
/// the file held before.
pub proof fn block_is_read_back(file: OpenFile, offset: u64, data: Seq<u8>)
    requires
        data.len() <= usize::MAX,
    ensures
        ({
            let write = Job::Write { offset, data };
            let read = Job::Read { offset, length: data.len() as usize };
            &&& file.after_all(write.steps()) matches Some(written)
            &&& written.after_all(read.steps()) matches Some(back)
            &&& back.read == data
        }),
{
    let write = Job::Write { offset, data };
    let read = Job::Read { offset, length: data.len() as usize };
    job_runs(file, write);
    let written = file.after_all(write.steps())->0;
    job_runs(written, read);
    let back = written.after_all(read.steps())->0;
    assert(back.read =~= data);
}

/// Where nothing fails, a block that was written leaves all other octets of the file alone.
pub proof fn other_octets_stay(file: OpenFile, offset: u64, data: Seq<u8>, at: int)
    requires
        0 <= at < file.contents.len(),
        at < offset || offset + data.len() <= at,
    ensures
        ({
            let write = Job::Write { offset, data };
            &&& file.after_all(write.steps()) matches Some(written)
            &&& at < written.contents.len()
            &&& written.contents[at] == file.contents[at]
        }),
{
    job_runs(file, Job::Write { offset, data });
}

/// What a file holds once several blocks were written to it, where nothing fails.
pub open spec fn after_writes(contents: Seq<u8>, writes: Seq<(u64, Seq<u8>)>) -> Seq<u8>
    decreases writes.len(),
{
    if writes.len() == 0 {
        contents
    } else {
        let (offset, data) = writes.last();
        let file = OpenFile {
            contents: after_writes(contents, writes.drop_last()),
            position: 0,
            read: Seq::empty(),
        };
        file.after_all(Job::Write { offset, data }.steps())->0.contents
    }
}

/// Whether a block that is written stays clear of a range of octets.
pub open spec fn clear_of(write: (u64, Seq<u8>), start: int, end: int) -> bool {
    end <= write.0 || write.0 + write.1.len() <= start
}

/// Writes that stay clear of a range leave the octets there alone.
proof fn range_stays(contents: Seq<u8>, writes: Seq<(u64, Seq<u8>)>, start: int, end: int)
    requires
        0 <= start <= end <= contents.len(),
        forall|i: int| 0 <= i < writes.len() ==> clear_of(#[trigger] writes[i], start, end),
    ensures
        end <= after_writes(contents, writes).len(),
        after_writes(contents, writes).subrange(start, end) == contents.subrange(start, end),
    decreases writes.len(),
{
    if writes.len() > 0 {
        let earlier = writes.drop_last();
        assert forall|i: int| 0 <= i < earlier.len() implies clear_of(
            #[trigger] earlier[i],
            start,
            end,
        ) by {
            assert(earlier[i] == writes[i]);
        }
        range_stays(contents, earlier, start, end);
        let before = after_writes(contents, earlier);
        let after = after_writes(contents, writes);
        let (offset, data) = writes.last();
        assert(clear_of(writes[writes.len() - 1], start, end));
        let file = OpenFile { contents: before, position: 0, read: Seq::empty() };
        job_runs(file, Job::Write { offset, data });
        assert(after == overwritten(before, offset as int, data));
        assert forall|i: int| start <= i < end implies after[i] == before[i] by {}
        assert(after.subrange(start, end) =~= before.subrange(start, end));
    }
}

/// Where nothing fails, any part of a block that was written is read back, whatever the file
/// held before, and whatever was written elsewhere since.
pub proof fn part_of_block_is_read_back(
    contents: Seq<u8>,
    offset: u64,
    data: Seq<u8>,
    later: Seq<(u64, Seq<u8>)>,
    start: int,
    length: usize,
)
    requires
        0 <= start,
        start + length <= data.len(),
        offset + start <= u64::MAX,
        forall|i: int|
            0 <= i < later.len() ==> clear_of(
                #[trigger] later[i],
                offset + start,
                offset + start + length,
            ),
    ensures
        ({
            let written = after_writes(contents, seq![(offset, data)]);
            let file = OpenFile {
                contents: after_writes(written, later),
                position: 0,
                read: Seq::empty(),
            };
            let read = Job::Read { offset: (offset + start) as u64, length };
            &&& file.after_all(read.steps()) matches Some(back)
            &&& back.read == data.subrange(start, start + length)
        }),
{
    let writes = seq![(offset, data)];
    assert(writes.drop_last() =~= Seq::empty());
    let fresh = OpenFile { contents, position: 0, read: Seq::empty() };
    job_runs(fresh, Job::Write { offset, data });
    let written = after_writes(contents, writes);
    assert(after_writes(contents, writes.drop_last()) == contents);
    assert(written == overwritten(contents, offset as int, data));
    let file = OpenFile {
        contents: after_writes(written, later),
        position: 0,
        read: Seq::empty(),
    };
    let from = offset + start;
    job_runs(file, Job::Read { offset: from as u64, length });
    if length == 0 {
        assert(data.subrange(start, start + length) =~= Seq::empty());
    } else {
        range_stays(written, later, from, from + length);
        assert(written.subrange(from, from + length) =~= data.subrange(start, start + length));
    }
}

/// To write a block is to open the file for writing, go to the offset and write all of the
/// block there; to read one is to open the file for reading, go to the offset and read as
/// many octets as were asked for.
pub proof fn blocks_are_moved_in_three_steps(
    offset: u64,
    data: Seq<u8>,
    length: usize,
)
    ensures
        ({
            let steps = Job::Write { offset, data }.steps();
            &&& steps.len() == 3
            &&& steps[0] is OpenForWriting
            &&& steps[1] matches Step::Seek(to) && to == offset
            &&& steps[2] matches Step::WriteAll(octets) && octets == data
        }),
        ({
            let steps = Job::Read { offset, length }.steps();
            &&& steps.len() == 3
            &&& steps[0] is OpenForReading
            &&& steps[1] matches Step::Seek(to) && to == offset
            &&& steps[2] matches Step::ReadExact(count) && count == length
        }),
{
}

/// What is said where a step fails: which one it is, and why.
pub proof fn failures_have_their_words(step: Step, reason: Seq<char>)
    ensures
        step is OpenForWriting ==> step.failure(reason) == "Failed to open file for writing: "@
            + reason,
        step is OpenForReading ==> step.failure(reason) == "Failed to open file for reading: "@
            + reason,
        step is Seek ==> step.failure(reason) == "Seek failed: "@ + reason,
        step is WriteAll ==> step.failure(reason) == "Write failed: "@ + reason,
        step is ReadExact ==> step.failure(reason) == "Read failed: "@ + reason,
{
}

/// Commands, steps and jobs are seen with all that they hold.
pub proof fn disk_values_are_seen_whole(
    command: DiskCommand,
    step: DiskStep,
    job: DiskJob,
    progress: DiskProgress,
)
    ensures
        match command@ {
            Job::Write { offset, data } => command matches DiskCommand::WriteBlock {
                offset: at,
                data: held,
            } && at == offset && bytes_contents(held) == data,
            Job::Read { offset, length } => command == DiskCommand::ReadBlock { offset, length },
        },
        match step@ {
            Step::OpenForWriting => step == DiskStep::OpenForWriting,
            Step::OpenForReading => step == DiskStep::OpenForReading,
            Step::Seek(offset) => step == DiskStep::Seek(offset),
            Step::WriteAll(data) => step matches DiskStep::WriteAll(held) && bytes_contents(held)
                == data,
            Step::ReadExact(length) => step == DiskStep::ReadExact(length),
        },
        job@.step == job.step@,
        job@.rest.len() == job.rest@.len(),
        forall|i: int| 0 <= i < job@.rest.len() ==> #[trigger] job@.rest[i] == job.rest@[i]@,
        job@.read is Some <==> job.read is Some,
        job.read matches Some(block) ==> job@.read == Some(bytes_contents(block)),
        match progress@ {
            Progress::Going(pending) => progress matches DiskProgress::Going(held) && held@
                == pending,
            Progress::Answered(Ok(Some(octets))) => progress matches DiskProgress::Answered(
                Ok(Some(block)),
            ) && bytes_contents(block) == octets,
            Progress::Answered(Ok(None)) => progress matches DiskProgress::Answered(Ok(None)),
            Progress::Answered(Err(text)) => progress matches DiskProgress::Answered(Err(held))
                && held@ == text,
        },
{
}

/// How a file changes with a step: opened, it is at its start; a seek goes where it says; a
/// write puts each octet at its place, from where the file stands on, and leaves the others;
/// a read gives the octets from where the file stands on.
pub proof fn steps_do_what_they_say(file: OpenFile, offset: u64, data: Seq<u8>, length: usize)
    requires
        0 <= file.position,
        data.len() > 0,
    ensures
        file.after(Step::OpenForWriting) == Some(OpenFile { position: 0, ..file }),
        file.after(Step::OpenForReading) == Some(OpenFile { position: 0, ..file }),
        file.after(Step::Seek(offset)) == Some(OpenFile { position: offset as int, ..file }),
        file.after(Step::WriteAll(data)) matches Some(after) && {
            &&& after.position == file.position + data.len()
            &&& after.contents.len() >= file.contents.len()
            &&& after.contents.len() >= after.position
            &&& after.contents.len() == file.contents.len() || after.contents.len()
                == after.position
            &&& forall|i: int|
                0 <= i < data.len() ==> after.contents[file.position + i] == #[trigger] data[i]
            &&& forall|i: int|
                0 <= i < file.contents.len() && !(file.position <= i < after.position)
                    ==> #[trigger] after.contents[i] == file.contents[i]
        },
        file.after(Step::ReadExact(length)) is Some <==> length == 0 || file.position + length
            <= file.contents.len(),
        file.after(Step::ReadExact(length)) matches Some(after) ==> {
            &&& after.contents == file.contents
            &&& after.read.len() == length
            &&& forall|i: int|
                0 <= i < length ==> #[trigger] after.read[i] == file.contents[file.position + i]
        },
{
}

} // verus!
