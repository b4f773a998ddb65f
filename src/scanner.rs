use vstd::prelude::*;

use crate::classify::{
    class_of_name,
    classify_name,
    extension_of,
    is_audio_extension,
    is_midi_extension,
    lemma_extension_sets_disjoint,
    lower_of,
    FileType,
};

verus! {

/// The number of matches after which the walk stops entering further directories.
pub const SOFT_CAP: usize = 10000;

/// What a directory entry is, as the file system reports it.
#[derive(Clone, Copy, Debug, PartialEq, Eq, Structural)]
pub enum EntryKind {
    Directory,
    File,
    Other,
}

/// One entry of a directory listing.
#[derive(Debug, PartialEq, Eq)]
pub struct DirEntry {
    /// Base name of the entry.
    pub name: String,
    /// Full path of the entry.
    pub path: String,
    pub kind: EntryKind,
}

/// One matched file.
#[derive(Debug, PartialEq, Eq)]
pub struct ScannedFile {
    /// Base name, in its original case.
    pub name: String,
    /// Full path.
    pub path: String,
    pub file_type: FileType,
    /// Length in bytes when the file was measured.
    pub size: u64,
}

/// Why a scan failed.
#[derive(Debug, PartialEq, Eq)]
pub enum ScanError {
    /// The root does not exist.
    NotFound,
    /// The root exists and is not a directory.
    NotADirectory,
    /// A listing or a file's metadata could not be read; holds the system's text.
    IoError(String),
}

impl ScanError {
    /// The text under which the error is reported to callers.
    pub fn message(&self) -> (r: String)
        ensures
            self is NotFound ==> r@ == "Directory does not exist"@,
            self is NotADirectory ==> r@ == "Path is not a directory"@,
            self matches ScanError::IoError(m) ==> r@ == m@,
    {
        match self {
            ScanError::NotFound => String::from_str("Directory does not exist"),
            ScanError::NotADirectory => String::from_str("Path is not a directory"),
            ScanError::IoError(m) => m.clone(),
        }
    }
}

/// What the walk asks of its driver next, or how it ended.
#[derive(Debug)]
pub enum Step {
    /// List the directory at this path and hand the entries to `Scanner::listed`.
    ListDirectory(String),
    /// Read the size of the file at this path and hand it to `Scanner::measured`.
    ReadSize(String),
    /// The walk is over; the matches in the order they were found.
    Finished(Vec<ScannedFile>),
    /// The walk failed; no matches are reported.
    Failed(ScanError),
}

/// What the walk waits for.
#[derive(Debug)]
pub enum Phase {
    /// The listing of the directory it asked for.
    Listing,
    /// The size of this file, which has this kind.
    Measuring(DirEntry, FileType),
    /// Nothing: the walk finished or failed.
    Over,
}

/// A depth-first walk over a directory tree, driven from outside: it says which
/// directory to list or which file to measure, and is handed the outcome.
pub struct Scanner {
    cap: usize,
    pending: Vec<DirEntry>,
    found: Vec<ScannedFile>,
    phase: Phase,
}

/// Every record's name gives it a kind, and the record carries that kind.
pub open spec fn all_classified(found: Seq<ScannedFile>) -> bool {
    forall|i: int|
        0 <= i < found.len() ==> class_of_name(#[trigger] found[i].name@) == Some(
            found[i].file_type,
        )
}

/// Whether the walk has to do outside work for an entry: list a directory while
/// fewer than `cap` matches are found, or measure a file whose name gives a kind.
pub open spec fn wants_work(e: DirEntry, count: nat, cap: nat) -> bool {
    match e.kind {
        EntryKind::Directory => count < cap,
        EntryKind::File => class_of_name(e.name@) is Some,
        EntryKind::Other => false,
    }
}

/// Index of the topmost entry of the stack that wants work, or -1.
pub open spec fn next_wanted(stack: Seq<DirEntry>, count: nat, cap: nat) -> int
    decreases stack.len(),
{
    if stack.len() == 0 {
        -1
    } else if wants_work(stack.last(), count, cap) {
        stack.len() - 1
    } else {
        next_wanted(stack.drop_last(), count, cap)
    }
}

/// The record made of a measured file.
pub open spec fn measured_record(p: Phase, size: u64) -> ScannedFile {
    match p {
        Phase::Measuring(e, t) => ScannedFile { name: e.name, path: e.path, file_type: t, size },
        _ => arbitrary(),
    }
}

/// The walk, with `stack` still to go through (its last entry first) and `found`
/// so far, has gone on to the next entry that wants work and asked for it with
/// `step`, or has finished with `found` where there is none.
pub open spec fn settled(
    stack: Seq<DirEntry>,
    found: Seq<ScannedFile>,
    cap: nat,
    s: Scanner,
    step: Step,
) -> bool {
    let i = next_wanted(stack, found.len(), cap);
    &&& s.cap() == cap
    &&& if i < 0 {
        &&& s.stack() == Seq::<DirEntry>::empty()
        &&& s.found() == Seq::<ScannedFile>::empty()
        &&& s.phase() is Over
        &&& step matches Step::Finished(v) && v@ == found
    } else {
        &&& s.stack() == stack.subrange(0, i)
        &&& s.found() == found
        &&& match stack[i].kind {
            EntryKind::Directory => s.phase() is Listing && step == Step::ListDirectory(
                stack[i].path,
            ),
            EntryKind::File => step == Step::ReadSize(stack[i].path) && s.phase()
                == Phase::Measuring(stack[i], class_of_name(stack[i].name@)->Some_0),
            EntryKind::Other => false,
        }
    }
}

/// Every reported record's name has an extension whose lowercase form lies in
/// exactly one of the audio set and the MIDI set, and the record's kind names
/// that set. So no file of another extension is reported.
pub proof fn lemma_record_in_one_set(found: Seq<ScannedFile>, i: int)
    requires
        all_classified(found),
        0 <= i < found.len(),
    ensures
        extension_of(found[i].name@) is Some,
        ({
            let e = lower_of(extension_of(found[i].name@)->Some_0);
            &&& is_audio_extension(e) != is_midi_extension(e)
            &&& found[i].file_type == FileType::Audio <==> is_audio_extension(e)
            &&& found[i].file_type == FileType::Midi <==> is_midi_extension(e)
        }),
{
    let r = found[i];
    assert(class_of_name(r.name@) == Some(r.file_type));
    let e = lower_of(extension_of(r.name@)->Some_0);
    lemma_extension_sets_disjoint(e);
}

/// The entry that the walk picks next wants work, and every entry above it on
/// the stack wants none: directories are only listed, never reported, and only
/// files whose name gives a kind are measured.
pub proof fn lemma_next_wanted(stack: Seq<DirEntry>, count: nat, cap: nat)
    ensures
        -1 <= next_wanted(stack, count, cap) < stack.len(),
        next_wanted(stack, count, cap) >= 0 ==> wants_work(
            stack[next_wanted(stack, count, cap)],
            count,
            cap,
        ),
        forall|j: int|
            next_wanted(stack, count, cap) < j < stack.len() ==> !wants_work(
                #[trigger] stack[j],
                count,
                cap,
            ),
    decreases stack.len(),
{
    if stack.len() > 0 && !wants_work(stack.last(), count, cap) {
        let p = stack.drop_last();
        lemma_next_wanted(p, count, cap);
        assert forall|j: int| next_wanted(stack, count, cap) < j < stack.len() implies !wants_work(
            #[trigger] stack[j],
            count,
            cap,
        ) by {
            if j < stack.len() - 1 {
                assert(stack[j] == p[j]);
            }
        }
    }
}

/// Once `cap` matches are found, the walk enters no further directory: the next
/// entry it picks, if any, is a file to measure.
pub proof fn lemma_no_descent_at_cap(stack: Seq<DirEntry>, count: nat, cap: nat)
    requires
        count >= cap,
    ensures
        next_wanted(stack, count, cap) >= 0 ==> stack[next_wanted(stack, count, cap)].kind
            == EntryKind::File,
{
    lemma_next_wanted(stack, count, cap);
}

impl Scanner {
    /// Entries still to go through; the last one comes first.
    pub closed spec fn stack(self) -> Seq<DirEntry> {
        self.pending@
    }

    /// Matches found so far, in the order found.
    pub closed spec fn found(self) -> Seq<ScannedFile> {
        self.found@
    }

    /// The soft cap on matches.
    pub closed spec fn cap(self) -> nat {
        self.cap as nat
    }

    /// What the walk waits for.
    pub closed spec fn phase(self) -> Phase {
        self.phase
    }

    /// The walk's invariant: every match carries the kind that its name gives,
    /// and a file waiting to be measured is a file whose name gives its kind.
    pub open spec fn wf(self) -> bool {
        &&& all_classified(self.found())
        &&& self.phase() matches Phase::Measuring(e, t) ==> e.kind == EntryKind::File
            && class_of_name(e.name@) == Some(t)
    }

    /// Begins a walk of `root`, given whether it exists and whether it is a directory.
    pub fn start(root: String, cap: usize, root_exists: bool, root_is_dir: bool) -> (r: (
        Scanner,
        Step,
    ))
        ensures
            r.0.wf(),
            r.0.cap() == cap,
            r.0.stack() == Seq::<DirEntry>::empty(),
            r.0.found() == Seq::<ScannedFile>::empty(),
            !root_exists ==> r.1 == Step::Failed(ScanError::NotFound) && r.0.phase() is Over,
            root_exists && !root_is_dir ==> r.1 == Step::Failed(ScanError::NotADirectory)
                && r.0.phase() is Over,
            root_exists && root_is_dir ==> r.1 == Step::ListDirectory(root) && r.0.phase() is Listing,
    {
        let phase = if root_exists && root_is_dir {
            Phase::Listing
        } else {
            Phase::Over
        };
        let s = Scanner { cap, pending: Vec::new(), found: Vec::new(), phase };
        let step = if !root_exists {
            Step::Failed(ScanError::NotFound)
        } else if !root_is_dir {
            Step::Failed(ScanError::NotADirectory)
        } else {
            Step::ListDirectory(root)
        };
        (s, step)
    }

    /// Whether the walk waits for a directory listing.
    pub fn awaits_listing(&self) -> (r: bool)
        ensures
            r == self.phase() is Listing,
    {
        match self.phase {
            Phase::Listing => true,
            _ => false,
        }
    }

    /// Whether the walk waits for a file's size.
    pub fn awaits_size(&self) -> (r: bool)
        ensures
            r == self.phase() is Measuring,
    {
        match self.phase {
            Phase::Measuring(_, _) => true,
            _ => false,
        }
    }

    /// Goes through the stack to the next entry that wants work.
    fn settle(&mut self) -> (step: Step)
        requires
            all_classified(old(self).found()),
        ensures
            final(self).wf(),
            settled(old(self).stack(), old(self).found(), old(self).cap(), *final(self), step),
    {
        let ghost stack0 = self.pending@;
        let ghost count = self.found@.len();
        let ghost cap = self.cap as nat;
        loop
            invariant
                self.found@.len() == count,
                all_classified(self.found@),
                self.found@ == old(self).found@,
                self.cap == cap,
                self.cap == old(self).cap,
                stack0 == old(self).pending@,
                self.pending@.len() <= stack0.len(),
                self.pending@ == stack0.subrange(0, self.pending@.len() as int),
                next_wanted(stack0, count, cap) == next_wanted(self.pending@, count, cap),
            decreases self.pending@.len(),
        {
            let ghost before = self.pending@;
            match self.pending.pop() {
                None => {
                    self.phase = Phase::Over;
                    let mut out: Vec<ScannedFile> = Vec::new();
                    std::mem::swap(&mut out, &mut self.found);
                    assert(self.pending@.len() == 0);
                    assert(next_wanted(stack0, count, cap) == -1);
                    assert(self.found@ == Seq::<ScannedFile>::empty());
                    assert(self.stack() == Seq::<DirEntry>::empty());
                    let step = Step::Finished(out);
                    assert(settled(old(self).stack(), old(self).found(), cap, *self, step));
                    return step;
                },
                Some(e) => {
                    assert(before.last() == e);
                    assert(before.drop_last() == self.pending@);
                    assert(self.pending@ =~= stack0.subrange(0, before.len() - 1));
                    match e.kind {
                        EntryKind::Directory => {
                            if self.found.len() < self.cap {
                                assert(stack0[before.len() - 1] == e);
                                assert(wants_work(e, count, cap));
                                assert(next_wanted(before, count, cap) == before.len() - 1);
                                self.phase = Phase::Listing;
                                return Step::ListDirectory(e.path);
                            }
                        },
                        EntryKind::File => {
                            match classify_name(e.name.as_str()) {
                                Some(t) => {
                                    assert(stack0[before.len() - 1] == e);
                                    assert(wants_work(e, count, cap));
                                    assert(next_wanted(before, count, cap) == before.len() - 1);
                                    let p = e.path.clone();
                                    self.phase = Phase::Measuring(e, t);
                                    return Step::ReadSize(p);
                                },
                                None => {},
                            }
                        },
                        EntryKind::Other => {},
                    }
                },
            }
        }
    }

    /// Takes the listing of the directory the walk asked for, then goes on to the
    /// next entry that wants work. The first entry of the listing comes first.
    pub fn listed(&mut self, listing: Result<Vec<DirEntry>, String>) -> (step: Step)
        requires
            old(self).wf(),
            old(self).phase() is Listing,
        ensures
            final(self).wf(),
            listing matches Ok(v) ==> settled(
                old(self).stack() + v@.reverse(),
                old(self).found(),
                old(self).cap(),
                *final(self),
                step,
            ),
            listing matches Err(m) ==> step == Step::Failed(ScanError::IoError(m))
                && final(self).phase() is Over,
            step matches Step::Finished(v) ==> all_classified(v@),
    {
        match listing {
            Err(m) => {
                self.phase = Phase::Over;
                Step::Failed(ScanError::IoError(m))
            },
            Ok(v) => {
                let mut v = v;
                let ghost v0 = v@;
                let ghost s0 = self.pending@;
                while v.len() > 0
                    invariant
                        v@.len() <= v0.len(),
                        v@ == v0.subrange(0, v@.len() as int),
                        self.pending@ =~= s0 + Seq::new(
                            (v0.len() - v@.len()) as nat,
                            |j: int| v0[v0.len() - 1 - j],
                        ),
                        self.found@ == old(self).found@,
                        self.cap == old(self).cap,
                    decreases v@.len(),
                {
                    let ghost k = v@.len();
                    let e = v.pop().unwrap();
                    assert(e == v0[k - 1]);
                    self.pending.push(e);
                    assert(self.pending@ =~= s0 + Seq::new(
                        (v0.len() - v@.len()) as nat,
                        |j: int| v0[v0.len() - 1 - j],
                    ));
                }
                assert(self.pending@ =~= s0 + v0.reverse());
                self.settle()
            },
        }
    }

    /// Takes the size of the file the walk asked for, records the match, then goes
    /// on to the next entry that wants work.
    pub fn measured(&mut self, size: Result<u64, String>) -> (step: Step)
        requires
            old(self).wf(),
            old(self).phase() is Measuring,
        ensures
            final(self).wf(),
            size matches Ok(n) ==> settled(
                old(self).stack(),
                old(self).found().push(measured_record(old(self).phase(), n)),
                old(self).cap(),
                *final(self),
                step,
            ),
            size matches Err(m) ==> step == Step::Failed(ScanError::IoError(m))
                && final(self).phase() is Over,
            step matches Step::Finished(v) ==> all_classified(v@),
    {
        let mut ph = Phase::Over;
        std::mem::swap(&mut ph, &mut self.phase);
        match size {
            Err(m) => Step::Failed(ScanError::IoError(m)),
            Ok(n) => {
                match ph {
                    Phase::Measuring(e, t) => {
                        let rec = ScannedFile { name: e.name, path: e.path, file_type: t, size: n };
                        self.found.push(rec);
                        self.settle()
                    },
                    // Not reached: the walk waits for a size.
                    _ => Step::Failed(ScanError::IoError(String::new())),
                }
            },
        }
    }
}

} // verus!
