use bytes::Bytes;
use rektorrent::disk::{DiskCommand, DiskJob, DiskProgress, DiskStep};

/// A file in memory.
struct Memory {
    contents: Vec<u8>,
    position: usize,
}

impl Memory {
    fn run(&mut self, command: DiskCommand) -> Option<Vec<u8>> {
        let mut read = Vec::new();
        for step in command.steps() {
            match step {
                DiskStep::OpenForWriting | DiskStep::OpenForReading => self.position = 0,
                DiskStep::Seek(offset) => self.position = offset as usize,
                DiskStep::WriteAll(data) => {
                    let end = self.position + data.len();
                    if self.contents.len() < end && !data.is_empty() {
                        self.contents.resize(end, 0);
                    }
                    self.contents[self.position..end].copy_from_slice(&data);
                    self.position = end;
                }
                DiskStep::ReadExact(length) => {
                    let end = self.position + length;
                    if self.contents.len() < end {
                        return None;
                    }
                    read = self.contents[self.position..end].to_vec();
                }
            }
        }
        Some(read)
    }
}

#[test]
fn a_block_is_written_in_three_steps() {
    let command = DiskCommand::WriteBlock { offset: 7, data: Bytes::from_static(b"abc") };
    let steps = command.steps();
    assert_eq!(steps.len(), 3);
    assert!(matches!(steps[0], DiskStep::OpenForWriting));
    assert!(matches!(steps[1], DiskStep::Seek(7)));
    assert!(matches!(&steps[2], DiskStep::WriteAll(data) if data == "abc"));
}

#[test]
fn a_block_is_read_in_three_steps() {
    let steps = DiskCommand::ReadBlock { offset: 9, length: 4 }.steps();
    assert_eq!(steps.len(), 3);
    assert!(matches!(steps[0], DiskStep::OpenForReading));
    assert!(matches!(steps[1], DiskStep::Seek(9)));
    assert!(matches!(steps[2], DiskStep::ReadExact(4)));
}

#[test]
fn a_block_is_read_back_and_others_stay() {
    let mut file = Memory { contents: b"0123456789".to_vec(), position: 3 };
    file.run(DiskCommand::WriteBlock { offset: 4, data: Bytes::from_static(b"xyz") });
    assert_eq!(file.contents, b"0123xyz789".to_vec());
    let read = file.run(DiskCommand::ReadBlock { offset: 4, length: 3 });
    assert_eq!(read, Some(b"xyz".to_vec()));
    file.run(DiskCommand::WriteBlock { offset: 12, data: Bytes::from_static(b"!") });
    assert_eq!(file.contents, b"0123xyz789\0\0!".to_vec());
    assert_eq!(file.run(DiskCommand::ReadBlock { offset: 12, length: 2 }), None);
}

#[test]
fn failures_tell_the_step() {
    let texts: Vec<String> = [
        DiskStep::OpenForWriting,
        DiskStep::OpenForReading,
        DiskStep::Seek(1),
        DiskStep::WriteAll(Bytes::new()),
        DiskStep::ReadExact(1),
    ]
    .iter()
    .map(|step| step.failure("no"))
    .collect();
    assert_eq!(
        texts,
        vec![
            "Failed to open file for writing: no",
            "Failed to open file for reading: no",
            "Seek failed: no",
            "Write failed: no",
            "Read failed: no",
        ]
    );
}

/// Carries out a command with the given outcomes, and tells the answer and how many steps
/// were done for it.
fn carry_out(
    command: DiskCommand,
    outcomes: Vec<Result<Option<Bytes>, String>>,
) -> (Option<Result<Option<Bytes>, String>>, usize) {
    let mut job = DiskJob::begin(command);
    let mut done = 0;
    for outcome in outcomes {
        done += 1;
        match job.after(outcome) {
            DiskProgress::Going(next) => job = next,
            DiskProgress::Answered(answer) => return (Some(answer), done),
        }
    }
    (None, done)
}

#[test]
fn a_job_goes_through_the_steps_of_its_command() {
    let job = DiskJob::begin(DiskCommand::ReadBlock { offset: 9, length: 4 });
    assert!(matches!(job.step, DiskStep::OpenForReading));
    let job = match job.after(Ok(None)) {
        DiskProgress::Going(job) => job,
        other => panic!("{:?}", other),
    };
    assert!(matches!(job.step, DiskStep::Seek(9)));
    let job = match job.after(Ok(None)) {
        DiskProgress::Going(job) => job,
        other => panic!("{:?}", other),
    };
    assert!(matches!(job.step, DiskStep::ReadExact(4)));
}

#[test]
fn jobs_are_answered_once_all_steps_are_done() {
    let read = || DiskCommand::ReadBlock { offset: 0, length: 3 };
    let write = || DiskCommand::WriteBlock { offset: 0, data: Bytes::from_static(b"abc") };
    let block = Bytes::from_static(b"xyz");
    assert_eq!(carry_out(read(), vec![Ok(None), Ok(None)]), (None, 2));
    assert_eq!(
        carry_out(read(), vec![Ok(None), Ok(None), Ok(Some(block.clone()))]),
        (Some(Ok(Some(block))), 3)
    );
    assert_eq!(
        carry_out(write(), vec![Ok(None), Ok(None), Ok(None)]),
        (Some(Ok(None)), 3)
    );
}

#[test]
fn the_first_failure_is_the_answer() {
    let no = || Err("no".to_string());
    let read = || DiskCommand::ReadBlock { offset: 0, length: 3 };
    let write = || DiskCommand::WriteBlock { offset: 0, data: Bytes::new() };
    let told = |text: &str| Some(Err(text.to_string()));
    assert_eq!(
        carry_out(read(), vec![no(), no(), no()]),
        (told("Failed to open file for reading: no"), 1)
    );
    assert_eq!(carry_out(read(), vec![Ok(None), no()]), (told("Seek failed: no"), 2));
    assert_eq!(
        carry_out(read(), vec![Ok(None), Ok(None), no()]),
        (told("Read failed: no"), 3)
    );
    assert_eq!(
        carry_out(write(), vec![no()]),
        (told("Failed to open file for writing: no"), 1)
    );
    assert_eq!(
        carry_out(write(), vec![Ok(None), Ok(None), no()]),
        (told("Write failed: no"), 3)
    );
}

#[test]
fn parts_of_a_block_are_read_back_after_writes_elsewhere() {
    let mut file = Memory { contents: Vec::new(), position: 0 };
    file.run(DiskCommand::WriteBlock { offset: 4, data: Bytes::from_static(b"abcdef") });
    file.run(DiskCommand::WriteBlock { offset: 0, data: Bytes::from_static(b"123456") });
    file.run(DiskCommand::WriteBlock { offset: 9, data: Bytes::from_static(b"ZZ") });
    let read = file.run(DiskCommand::ReadBlock { offset: 6, length: 3 });
    assert_eq!(read, Some(b"cde".to_vec()));
}
