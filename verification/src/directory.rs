//! The persistence directory as the engine sees it: three files, and the
//! operations on them that the engine asks a driver to perform.
//!
//! `Directory` keeps the three files in memory. It gives every operation its
//! meaning, and it lets a whole session run without a file system.

use vstd::prelude::*;
use vstd::slice::slice_to_vec;

verus! {

/// The contents of the persistence directory. `None` means that the file
/// does not exist.
pub struct Files {
    /// The snapshot file `state`.
    pub state: Option<Seq<u8>>,
    /// The journal file `journal`.
    pub journal: Option<Seq<u8>>,
    /// The transitional snapshot file `state~`.
    pub transitional: Option<Seq<u8>>,
}

/// Which of the three files exist.
#[derive(Clone, Copy, Debug, PartialEq, Eq, Structural)]
pub struct Presence {
    pub state: bool,
    pub journal: bool,
    pub transitional: bool,
}

impl Files {
    /// The directory that holds no file.
    pub open spec fn empty() -> Files {
        Files { state: None, journal: None, transitional: None }
    }

    /// Which of the files exist.
    pub open spec fn presence(self) -> Presence {
        Presence {
            state: self.state is Some,
            journal: self.journal is Some,
            transitional: self.transitional is Some,
        }
    }
}

/// One operation on the persistence directory.
#[derive(Clone, Debug, PartialEq, Eq)]
pub enum FileOp {
    /// Open the journal for appending, creating it empty if it does not exist.
    OpenJournal,
    /// Append `bytes` to the journal. With `flush` set the bytes have to
    /// reach the file before the operation counts as done; without it they
    /// may stay in a buffer.
    AppendJournal { bytes: Vec<u8>, flush: bool },
    /// Flush the journal and truncate it to zero length.
    ClearJournal,
    /// Delete the journal.
    RemoveJournal,
    /// Write `bytes` as the transitional snapshot, replacing one that is there.
    WriteTransitional { bytes: Vec<u8> },
    /// Delete the transitional snapshot.
    RemoveTransitional,
    /// Delete the snapshot if there is one.
    RemoveState,
    /// Rename the transitional snapshot to the snapshot.
    PromoteTransitional,
}

/// One operation on the persistence directory, as a mathematical value.
pub enum Op {
    OpenJournal,
    AppendJournal { bytes: Seq<u8>, flush: bool },
    ClearJournal,
    RemoveJournal,
    WriteTransitional { bytes: Seq<u8> },
    RemoveTransitional,
    RemoveState,
    PromoteTransitional,
}

impl View for FileOp {
    type V = Op;

    open spec fn view(&self) -> Op {
        match *self {
            FileOp::OpenJournal => Op::OpenJournal,
            FileOp::AppendJournal { bytes, flush } => Op::AppendJournal { bytes: bytes@, flush },
            FileOp::ClearJournal => Op::ClearJournal,
            FileOp::RemoveJournal => Op::RemoveJournal,
            FileOp::WriteTransitional { bytes } => Op::WriteTransitional { bytes: bytes@ },
            FileOp::RemoveTransitional => Op::RemoveTransitional,
            FileOp::RemoveState => Op::RemoveState,
            FileOp::PromoteTransitional => Op::PromoteTransitional,
        }
    }
}

/// The operations of a script as mathematical values.
pub open spec fn ops(script: Seq<FileOp>) -> Seq<Op> {
    script.map_values(|op: FileOp| op@)
}

impl Op {
    /// Whether the operation can be performed on `files`. An operation on a
    /// file that has to exist fails where it does not.
    pub open spec fn applicable(self, files: Files) -> bool {
        match self {
            Op::OpenJournal => true,
            Op::AppendJournal { .. } => files.journal is Some,
            Op::ClearJournal => files.journal is Some,
            Op::RemoveJournal => files.journal is Some,
            Op::WriteTransitional { .. } => true,
            Op::RemoveTransitional => files.transitional is Some,
            Op::RemoveState => true,
            Op::PromoteTransitional => files.transitional is Some,
        }
    }

    /// The directory after the operation has been performed on `files`.
    pub open spec fn effect(self, files: Files) -> Files {
        match self {
            Op::OpenJournal => Files {
                journal: Some(
                    match files.journal {
                        Some(journal) => journal,
                        None => Seq::empty(),
                    },
                ),
                ..files
            },
            Op::AppendJournal { bytes, flush } => Files {
                journal: Some(files.journal.unwrap() + bytes),
                ..files
            },
            Op::ClearJournal => Files { journal: Some(Seq::empty()), ..files },
            Op::RemoveJournal => Files { journal: None, ..files },
            Op::WriteTransitional { bytes } => Files { transitional: Some(bytes), ..files },
            Op::RemoveTransitional => Files { transitional: None, ..files },
            Op::RemoveState => Files { state: None, ..files },
            Op::PromoteTransitional => Files {
                state: files.transitional,
                transitional: None,
                ..files
            },
        }
    }
}

/// Whether the first `count` operations of `script` can be performed on
/// `files` one after the other.
pub open spec fn runnable(files: Files, script: Seq<Op>, count: nat) -> bool
    decreases count,
{
    if count == 0 {
        true
    } else {
        &&& count <= script.len()
        &&& runnable(files, script, (count - 1) as nat)
        &&& script[count - 1].applicable(after(files, script, (count - 1) as nat))
    }
}

/// The directory after the first `count` operations of `script` have been
/// performed on `files`.
pub open spec fn after(files: Files, script: Seq<Op>, count: nat) -> Files
    decreases count,
{
    if count == 0 || count > script.len() {
        files
    } else {
        script[count - 1].effect(after(files, script, (count - 1) as nat))
    }
}

/// A script that can be performed up to some operation can be performed up
/// to every earlier one, and each operation on the way is applicable.
pub proof fn lemma_runnable_prefix(files: Files, script: Seq<Op>, count: nat, earlier: nat)
    requires
        runnable(files, script, count),
        earlier < count,
    ensures
        runnable(files, script, earlier),
        script[earlier as int].applicable(after(files, script, earlier)),
    decreases count,
{
    if earlier + 1 < count {
        lemma_runnable_prefix(files, script, (count - 1) as nat, earlier);
    }
}

/// A persistence directory held in memory.
#[derive(Clone, Debug, PartialEq, Eq)]
pub struct Directory {
    pub state: Option<Vec<u8>>,
    pub journal: Option<Vec<u8>>,
    pub transitional: Option<Vec<u8>>,
}

impl View for Directory {
    type V = Files;

    open spec fn view(&self) -> Files {
        Files {
            state: match self.state {
                Some(bytes) => Some(bytes@),
                None => None,
            },
            journal: match self.journal {
                Some(bytes) => Some(bytes@),
                None => None,
            },
            transitional: match self.transitional {
                Some(bytes) => Some(bytes@),
                None => None,
            },
        }
    }
}

impl Directory {
    /// A directory without files.
    pub fn new() -> (dir: Directory)
        ensures
            dir@ == Files::empty(),
    {
        Directory { state: None, journal: None, transitional: None }
    }

    /// Which of the files exist.
    pub fn presence(&self) -> (found: Presence)
        ensures
            found == self@.presence(),
    {
        Presence {
            state: self.state.is_some(),
            journal: self.journal.is_some(),
            transitional: self.transitional.is_some(),
        }
    }

    /// Performs `op`. An operation on a file that has to exist, and does
    /// not, fails as it does on a disk, and leaves the directory unchanged.
    pub fn perform(&mut self, op: &FileOp) -> (r: Result<(), std::io::Error>)
        ensures
            r is Ok <==> op@.applicable(old(self)@),
            final(self)@ == if r is Ok {
                op@.effect(old(self)@)
            } else {
                old(self)@
            },
    {
        match op {
            FileOp::OpenJournal => {
                if self.journal.is_none() {
                    self.journal = Some(Vec::new());
                }
                Ok(())
            },
            FileOp::AppendJournal { bytes, flush } => {
                match self.journal.take() {
                    Some(mut journal) => {
                        let mut added = slice_to_vec(bytes.as_slice());
                        journal.append(&mut added);
                        self.journal = Some(journal);
                        Ok(())
                    },
                    None => Err(file_not_found()),
                }
            },
            FileOp::ClearJournal => {
                if self.journal.is_some() {
                    self.journal = Some(Vec::new());
                    Ok(())
                } else {
                    Err(file_not_found())
                }
            },
            FileOp::RemoveJournal => {
                match self.journal.take() {
                    Some(_) => Ok(()),
                    None => Err(file_not_found()),
                }
            },
            FileOp::WriteTransitional { bytes } => {
                self.transitional = Some(slice_to_vec(bytes.as_slice()));
                Ok(())
            },
            FileOp::RemoveTransitional => {
                match self.transitional.take() {
                    Some(_) => Ok(()),
                    None => Err(file_not_found()),
                }
            },
            FileOp::RemoveState => {
                self.state = None;
                Ok(())
            },
            FileOp::PromoteTransitional => {
                match self.transitional.take() {
                    Some(bytes) => {
                        self.state = Some(bytes);
                        Ok(())
                    },
                    None => Err(file_not_found()),
                }
            },
        }
    }

    /// Performs the operations of `script` in order and stops at the first
    /// that fails. Returns how many were performed, and the failure.
    pub fn run(&mut self, script: &Vec<FileOp>) -> (r: (usize, Result<(), std::io::Error>))
        ensures
            r.0 <= script@.len(),
            runnable(old(self)@, ops(script@), r.0 as nat),
            final(self)@ == after(old(self)@, ops(script@), r.0 as nat),
            r.1 is Ok <==> r.0 == script@.len(),
            r.0 < script@.len() ==> !script@[r.0 as int]@.applicable(final(self)@),
    {
        let mut done: usize = 0;
        while done < script.len()
            invariant
                done <= script@.len(),
                runnable(old(self)@, ops(script@), done as nat),
                self@ == after(old(self)@, ops(script@), done as nat),
            decreases script@.len() - done,
        {
            match self.perform(&script[done]) {
                Ok(()) => {},
                Err(err) => {
                    return (done, Err(err));
                },
            }
            done += 1;
        }
        (done, Ok(()))
    }
}

/// Calls `std::io::Error::from` on `ErrorKind::NotFound`: the error of an
/// operation on a file that does not exist. Nothing is claimed of it.
#[verifier::external_body]
fn file_not_found() -> (err: std::io::Error) {
    std::io::Error::from(std::io::ErrorKind::NotFound)
}

} // verus!
