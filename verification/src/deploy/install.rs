//! Following an installation: its output comes line by line and is handed on in batches.

use vstd::prelude::*;

verus! {

/// How many lines make a batch.
pub const BATCH_LINES: usize = 10;

/// Lines that an installation has written.
#[derive(Debug)]
pub struct InstallMessage {
    pub lines: Vec<String>,
}

/// What came of reading a line.
#[derive(Debug)]
pub enum ReadOutcome {
    /// A line.
    Line(String),
    /// The output has ended.
    End,
    /// The output cannot be read.
    Failed,
}

/// What to do behind a read.
#[derive(Debug)]
pub enum ReinstallAction {
    /// Read the next line.
    ReadOn,
    /// Hand on a batch.
    Send(InstallMessage),
    /// Say that the installation is complete.
    Complete,
}

/// The lines of the batch that is not full yet.
#[derive(Debug)]
pub struct Reinstall {
    pub lines: Vec<String>,
}

/// What the user sees first.
pub fn install_started() -> (message: InstallMessage)
    ensures
        message.lines@.len() == 1,
        message.lines@[0]@ == "Starting to re-install helloworld-server\n\n"@,
{
    let mut lines: Vec<String> = Vec::new();
    lines.push("Starting to re-install helloworld-server\n\n".to_owned());
    InstallMessage { lines }
}

impl Reinstall {
    /// The batch is not full.
    pub open spec fn wf(self) -> bool {
        self.lines@.len() < BATCH_LINES
    }

    /// Nothing read yet.
    pub fn new() -> (reinstall: Self)
        ensures
            reinstall.wf(),
            reinstall.lines@.len() == 0,
    {
        Reinstall { lines: Vec::new() }
    }

    /// Whether to go on reading. A cancelled installation stops between two batches.
    pub fn may_read(&self, cancelled: bool) -> (may: bool)
        ensures
            may <==> !cancelled || self.lines@.len() > 0,
    {
        !cancelled || self.lines.len() > 0
    }

    /// Takes the outcome of a read. Lines are handed on once there are enough for a batch; what
    /// does not fill one up at the end is not handed on.
    pub fn reinstall(&mut self, outcome: ReadOutcome) -> (action: ReinstallAction)
        requires
            old(self).wf(),
        ensures
            final(self).wf(),
            match outcome {
                ReadOutcome::Line(line) => {
                    if old(self).lines@.len() + 1 == BATCH_LINES {
                        &&& action matches ReinstallAction::Send(message)
                        &&& message.lines@ == old(self).lines@.push(line)
                        &&& final(self).lines@.len() == 0
                    } else {
                        &&& action is ReadOn
                        &&& final(self).lines@ == old(self).lines@.push(line)
                    }
                },
                _ => {
                    &&& action is Complete
                    &&& *final(self) == *old(self)
                },
            },
            outcome matches ReadOutcome::Line(line) ==> forall|read: Seq<String>|
                (#[trigger] batches(read)).1 == old(self).lines@ ==> batches(read.push(line)) == (
                    match action {
                        ReinstallAction::Send(message) => batches(read).0.push(message.lines@),
                        _ => batches(read).0,
                    },
                    final(self).lines@,
                ),
    {
        match outcome {
            ReadOutcome::Line(line) => {
                proof {
                    let before = self.lines@;
                    assert forall|read: Seq<String>| (#[trigger] batches(read)).1
                        == before implies batches(read.push(line)) == (if before.len() + 1
                        == BATCH_LINES {
                        (batches(read).0.push(before.push(line)), seq![])
                    } else {
                        (batches(read).0, before.push(line))
                    }) by {
                        assert(read.push(line).drop_last() =~= read);
                    }
                }
                self.lines.push(line);
                if self.lines.len() == BATCH_LINES {
                    let mut lines: Vec<String> = Vec::new();
                    lines.append(&mut self.lines);
                    ReinstallAction::Send(InstallMessage { lines })
                } else {
                    ReinstallAction::ReadOn
                }
            },
            _ => ReinstallAction::Complete,
        }
    }
}

/// The batches handed on and the lines left over after reading lines one by one.
pub open spec fn batches<L>(lines: Seq<L>) -> (Seq<Seq<L>>, Seq<L>)
    decreases lines.len(),
{
    if lines.len() == 0 {
        (seq![], seq![])
    } else {
        let (sent, left) = batches(lines.drop_last());
        if left.len() + 1 == BATCH_LINES {
            (sent.push(left.push(lines.last())), seq![])
        } else {
            (sent, left.push(lines.last()))
        }
    }
}

/// The lines of all batches, one behind the other.
pub open spec fn all_lines<L>(sent: Seq<Seq<L>>) -> Seq<L>
    decreases sent.len(),
{
    if sent.len() == 0 {
        seq![]
    } else {
        all_lines(sent.drop_last()) + sent.last()
    }
}

/// A batch is handed on with every tenth line and holds the ten lines behind the batch before it. What
/// is left over are the lines behind the last batch.
pub proof fn law_batches_are_handed_on_in_time<L>(lines: Seq<L>)
    ensures
        batches(lines).0.len() == lines.len() as int / 10,
        batches(lines).1 == lines.skip(lines.len() - lines.len() as int % 10),
        forall|i: int|
            0 <= i < batches(lines).0.len() ==> (#[trigger] batches(lines).0[i]).len() == 10,
        forall|i: int, j: int|
            #![trigger batches(lines).0[i][j]]
            0 <= i < batches(lines).0.len() && 0 <= j < 10 ==> batches(lines).0[i][j] == lines[10
                * i + j],
    decreases lines.len(),
{
    if lines.len() > 0 {
        let before = lines.drop_last();
        law_batches_are_handed_on_in_time(before);
        let (sent, left) = batches(before);
        if left.len() + 1 == BATCH_LINES {
            assert(lines.skip(lines.len() as int) =~= seq![]);
            let batch = left.push(lines.last());
            assert forall|i: int, j: int|
                #![trigger batches(lines).0[i][j]]
                0 <= i < batches(lines).0.len() && 0 <= j < 10 implies batches(lines).0[i][j]
                == lines[10 * i + j] by {
                if i < sent.len() {
                    assert(batches(lines).0[i] == sent[i]);
                    assert(sent[i][j] == before[10 * i + j]);
                } else {
                    assert(batches(lines).0[i] == batch);
                }
            }
        } else {
            assert(left.push(lines.last()) =~= lines.skip(
                lines.len() - lines.len() as int % 10,
            ));
            assert forall|i: int, j: int|
                #![trigger batches(lines).0[i][j]]
                0 <= i < batches(lines).0.len() && 0 <= j < 10 implies batches(lines).0[i][j]
                == lines[10 * i + j] by {
                assert(sent[i][j] == before[10 * i + j]);
            }
        }
    } else {
        assert(lines.skip(0) =~= seq![]);
    }
}

/// The batches of an installation hold its lines in order, each batch is full, and fewer lines than
/// a batch holds are left over.
pub proof fn law_batches_keep_the_order<L>(lines: Seq<L>)
    ensures
        all_lines(batches(lines).0) + batches(lines).1 == lines,
        forall|i: int|
            0 <= i < batches(lines).0.len() ==> (#[trigger] batches(lines).0[i]).len()
                == BATCH_LINES,
        batches(lines).1.len() < BATCH_LINES,
    decreases lines.len(),
{
    if lines.len() > 0 {
        law_batches_keep_the_order(lines.drop_last());
        let (sent, left) = batches(lines.drop_last());
        assert(lines =~= lines.drop_last().push(lines.last()));
        if left.len() + 1 == BATCH_LINES {
            let batch = left.push(lines.last());
            assert(sent.push(batch).drop_last() =~= sent);
            assert(all_lines(sent.push(batch)) + Seq::<L>::empty() =~= lines);
        } else {
            assert(all_lines(sent) + left.push(lines.last()) =~= lines);
        }
    } else {
        assert(all_lines(batches(lines).0) + batches(lines).1 =~= lines);
    }
}

} // verus!
