use vstd::prelude::*;

use crate::input::{requests_exit, Key};
use crate::pattern::{regex_finds, Matcher};
use crate::record::MatchRecord;

verus! {

/// A record as a triple of path, line number and content.
pub type RecordView = (Seq<char>, nat, Seq<char>);

/// The lines of a file as read: `None` for a line that could not be read or
/// decoded as text.
pub open spec fn lines_view(lines: Seq<Option<String>>) -> Seq<Option<Seq<char>>> {
    lines.map_values(|o: Option<String>| if let Some(s) = o { Some(s@) } else { None })
}

pub open spec fn records_view(rs: Seq<MatchRecord>) -> Seq<RecordView> {
    rs.map_values(|r: MatchRecord| r@)
}

/// The records of one file: one for each readable line that the pattern
/// matches, numbered from 1, in the file's order.
pub open spec fn file_records(pattern: Seq<char>, path: Seq<char>, lines: Seq<Option<Seq<char>>>) -> Seq<
    RecordView,
>
    decreases lines.len(),
{
    if lines.len() == 0 {
        Seq::empty()
    } else {
        let prev = file_records(pattern, path, lines.drop_last());
        match lines.last() {
            Some(l) => if regex_finds(pattern, l) {
                prev.push((path, lines.len(), l))
            } else {
                prev
            },
            None => prev,
        }
    }
}

/// The lines that yield a record: readable, and matched by the pattern.
pub open spec fn line_hits(pattern: Seq<char>) -> spec_fn(Option<Seq<char>>) -> bool {
    |o: Option<Seq<char>>| o matches Some(l) && regex_finds(pattern, l)
}

/// The records of a walk: the records of each file, in the order the files came.
pub open spec fn walk_records(pattern: Seq<char>, files: Seq<(Seq<char>, Seq<Option<Seq<char>>>)>) -> Seq<
    RecordView,
>
    decreases files.len(),
{
    if files.len() == 0 {
        Seq::empty()
    } else {
        walk_records(pattern, files.drop_last()) + file_records(
            pattern,
            files.last().0,
            files.last().1,
        )
    }
}

/// How many lines of all the files the pattern matches.
pub open spec fn walk_hits(pattern: Seq<char>, files: Seq<(Seq<char>, Seq<Option<Seq<char>>>)>) -> nat
    decreases files.len(),
{
    if files.len() == 0 {
        0
    } else {
        walk_hits(pattern, files.drop_last()) + files.last().1.filter(line_hits(pattern)).len()
    }
}

/// A file yields exactly one record for each readable line that the pattern
/// matches; lines that could not be read yield none.
pub proof fn lemma_file_record_count(
    pattern: Seq<char>,
    path: Seq<char>,
    lines: Seq<Option<Seq<char>>>,
)
    ensures
        file_records(pattern, path, lines).len() == lines.filter(line_hits(pattern)).len(),
    decreases lines.len(),
{
    reveal(Seq::filter);
    if lines.len() > 0 {
        lemma_file_record_count(pattern, path, lines.drop_last());
    }
}

/// A walk yields as many records as there are matched readable lines in all
/// its files.
pub proof fn lemma_walk_record_count(
    pattern: Seq<char>,
    files: Seq<(Seq<char>, Seq<Option<Seq<char>>>)>,
)
    ensures
        walk_records(pattern, files).len() == walk_hits(pattern, files),
    decreases files.len(),
{
    if files.len() > 0 {
        lemma_walk_record_count(pattern, files.drop_last());
        lemma_file_record_count(pattern, files.last().0, files.last().1);
    }
}

/// Within one file the records carry that file's path, their line numbers
/// start at 1 and strictly increase, and each names a readable line, matched
/// by the pattern, whose text is the record's content.
pub proof fn lemma_file_record_lines(
    pattern: Seq<char>,
    path: Seq<char>,
    lines: Seq<Option<Seq<char>>>,
)
    ensures
        forall|a: int, b: int|
            0 <= a < b < file_records(pattern, path, lines).len() ==> (#[trigger] file_records(
                pattern,
                path,
                lines,
            )[a]).1 < (#[trigger] file_records(pattern, path, lines)[b]).1,
        forall|a: int|
            #![trigger file_records(pattern, path, lines)[a]]
            0 <= a < file_records(pattern, path, lines).len() ==> {
                let r = file_records(pattern, path, lines)[a];
                &&& r.0 == path
                &&& 1 <= r.1 <= lines.len()
                &&& lines[r.1 - 1] == Some(r.2)
                &&& regex_finds(pattern, r.2)
            },
    decreases lines.len(),
{
    if lines.len() > 0 {
        let init = lines.drop_last();
        lemma_file_record_lines(pattern, path, init);
        let prev = file_records(pattern, path, init);
        let cur = file_records(pattern, path, lines);
        assert forall|a: int| 0 <= a < prev.len() implies #[trigger] lines[prev[a].1 - 1]
            == init[prev[a].1 - 1] by {
            let r = prev[a];
            assert(1 <= r.1 <= init.len());
        }
        assert forall|a: int| 0 <= a < prev.len() implies cur[a] == prev[a] by {}
    }
}

/// The records of one file, built from its lines as read.
pub fn scan_lines(m: &Matcher, path: &str, lines: &Vec<Option<String>>) -> (r: Vec<MatchRecord>)
    ensures
        records_view(r@) == file_records(m@, path@, lines_view(lines@)),
{
    let mut out: Vec<MatchRecord> = Vec::new();
    let mut i: usize = 0;
    while i < lines.len()
        invariant
            i <= lines.len(),
            records_view(out@) == file_records(m@, path@, lines_view(lines@.subrange(0, i as int))),
        decreases lines.len() - i,
    {
        let ghost before = lines@.subrange(0, i as int);
        let ghost after = lines@.subrange(0, i + 1);
        assert(lines_view(after).drop_last() =~= lines_view(before));
        assert(lines_view(after).last() == lines_view(lines@)[i as int]);
        match &lines[i] {
            Some(line) => {
                if m.is_match(line.as_str()) {
                    let rec = MatchRecord {
                        path: String::from_str(path),
                        line_number: i + 1,
                        content: line.clone(),
                    };
                    out.push(rec);
                    assert(records_view(out@) =~= file_records(m@, path@, lines_view(before)).push(
                        rec@,
                    ));
                }
            },
            None => {},
        }
        i = i + 1;
    }
    assert(lines@.subrange(0, i as int) =~= lines@);
    out
}

/// Whether the poll before a file, if a tick fell there, asked to exit.
pub open spec fn tick_exits(tick: Option<Option<Key>>) -> bool {
    tick matches Some(Some(k)) && requests_exit(k)
}

/// The outcome of a scan that meets `files` in order. Before file `i` either
/// no tick falls (`ticks[i]` is `None`) or one does, and the poll returns
/// `ticks[i]`'s key, if any. An exit key at a tick ends the scan with no
/// results; otherwise the records of all files come out.
pub open spec fn scan_outcome(
    pattern: Seq<char>,
    files: Seq<(Seq<char>, Seq<Option<Seq<char>>>)>,
    ticks: Seq<Option<Option<Key>>>,
) -> Option<Seq<RecordView>>
    decreases files.len(),
{
    if files.len() == 0 || ticks.len() != files.len() {
        if files.len() == 0 {
            Some(Seq::empty())
        } else {
            None
        }
    } else {
        match scan_outcome(pattern, files.drop_last(), ticks.drop_last()) {
            None => None,
            Some(prev) => if tick_exits(ticks.last()) {
                None
            } else {
                Some(prev + file_records(pattern, files.last().0, files.last().1))
            },
        }
    }
}

/// A scan whose polls never ask to exit yields the records of the whole walk,
/// whenever its ticks fall: two scans of an unchanged tree give the same
/// records.
pub proof fn lemma_scan_repeatable(
    pattern: Seq<char>,
    files: Seq<(Seq<char>, Seq<Option<Seq<char>>>)>,
    ticks1: Seq<Option<Option<Key>>>,
    ticks2: Seq<Option<Option<Key>>>,
)
    requires
        ticks1.len() == files.len(),
        ticks2.len() == files.len(),
        forall|i: int| 0 <= i < ticks1.len() ==> !tick_exits(#[trigger] ticks1[i]),
        forall|i: int| 0 <= i < ticks2.len() ==> !tick_exits(#[trigger] ticks2[i]),
    ensures
        scan_outcome(pattern, files, ticks1) == Some(walk_records(pattern, files)),
        scan_outcome(pattern, files, ticks1) == scan_outcome(pattern, files, ticks2),
{
    lemma_scan_without_exit(pattern, files, ticks1);
    lemma_scan_without_exit(pattern, files, ticks2);
}

proof fn lemma_scan_without_exit(
    pattern: Seq<char>,
    files: Seq<(Seq<char>, Seq<Option<Seq<char>>>)>,
    ticks: Seq<Option<Option<Key>>>,
)
    requires
        ticks.len() == files.len(),
        forall|i: int| 0 <= i < ticks.len() ==> !tick_exits(#[trigger] ticks[i]),
    ensures
        scan_outcome(pattern, files, ticks) == Some(walk_records(pattern, files)),
    decreases files.len(),
{
    if files.len() > 0 {
        let t = ticks.drop_last();
        assert forall|i: int| 0 <= i < t.len() implies !tick_exits(#[trigger] t[i]) by {
            assert(t[i] == ticks[i]);
        }
        lemma_scan_without_exit(pattern, files.drop_last(), t);
        assert(!tick_exits(ticks[ticks.len() - 1]));
    }
}

/// An exit asked for at any tick of a scan ends it without results.
pub proof fn lemma_scan_exit_cancels(
    pattern: Seq<char>,
    files: Seq<(Seq<char>, Seq<Option<Seq<char>>>)>,
    ticks: Seq<Option<Option<Key>>>,
    i: int,
)
    requires
        ticks.len() == files.len(),
        0 <= i < ticks.len(),
        tick_exits(ticks[i]),
    ensures
        scan_outcome(pattern, files, ticks) is None,
    decreases files.len(),
{
    if i < files.len() - 1 {
        let t = ticks.drop_last();
        assert(t[i] == ticks[i]);
        lemma_scan_exit_cancels(pattern, files.drop_last(), t, i);
    }
}

/// What the scan asks of its driver before the next file.
#[derive(Clone, Copy, Debug, PartialEq, Eq, Structural)]
pub enum FileStep {
    /// Repaint the scanning frame with this animation frame, then poll for a key.
    Repaint(usize),
    /// Go on and read the file.
    Read,
}

/// The state of a scan that a driver loop feeds with files and keys.
pub struct Scan {
    results: Vec<MatchRecord>,
    animation: usize,
    cancelled: bool,
    pattern: Ghost<Seq<char>>,
    walked: Ghost<Seq<(Seq<char>, Seq<Option<Seq<char>>>)>>,
    ticks: Ghost<Seq<Option<Option<Key>>>>,
    pending: Ghost<Option<Option<Key>>>,
}

/// The number of animation frames of the scanning frame.
pub const ANIMATION_FRAMES: usize = 4;

impl Scan {
    /// The records gathered so far.
    pub closed spec fn records(&self) -> Seq<RecordView> {
        records_view(self.results@)
    }

    /// The animation frame last shown.
    pub closed spec fn frame(&self) -> nat {
        self.animation as nat
    }

    /// Whether an exit was asked for.
    pub closed spec fn is_cancelled(&self) -> bool {
        self.cancelled
    }

    /// The pattern the scan searches for.
    pub closed spec fn pattern(&self) -> Seq<char> {
        self.pattern@
    }

    /// The files read so far, each with its path and lines, in order.
    pub closed spec fn walked(&self) -> Seq<(Seq<char>, Seq<Option<Seq<char>>>)> {
        self.walked@
    }

    /// For each file read so far, whether a tick fell before it and what the
    /// poll there returned (see `scan_outcome`).
    pub closed spec fn ticks(&self) -> Seq<Option<Option<Key>>> {
        self.ticks@
    }

    /// The same for the file about to be read.
    pub closed spec fn pending(&self) -> Option<Option<Key>> {
        self.pending@
    }

    /// The animation frame is in range, the records are those of the files
    /// read so far, and the scan is cancelled exactly when the last poll asked
    /// to exit.
    pub closed spec fn wf(&self) -> bool {
        &&& self.animation < ANIMATION_FRAMES
        &&& records_view(self.results@) == walk_records(self.pattern@, self.walked@)
        &&& self.ticks@.len() == self.walked@.len()
        &&& forall|i: int| 0 <= i < self.ticks@.len() ==> !tick_exits(#[trigger] self.ticks@[i])
        &&& self.cancelled == tick_exits(self.pending@)
    }

    /// A scan for `m`'s pattern with no files read, at the first animation frame.
    pub fn new(m: &Matcher) -> (r: Scan)
        ensures
            r.wf(),
            r.pattern() == m@,
            r.walked() == Seq::<(Seq<char>, Seq<Option<Seq<char>>>)>::empty(),
            r.ticks() == Seq::<Option<Option<Key>>>::empty(),
            r.pending() == None::<Option<Key>>,
            r.records() == Seq::<RecordView>::empty(),
            r.frame() == 0,
            !r.is_cancelled(),
    {
        let r = Scan {
            results: Vec::new(),
            animation: 0,
            cancelled: false,
            pattern: Ghost(m@),
            walked: Ghost(Seq::empty()),
            ticks: Ghost(Seq::empty()),
            pending: Ghost(None),
        };
        assert(records_view(r.results@) =~= Seq::<RecordView>::empty());
        r
    }

    /// Called before each regular file. When a tick is due the animation
    /// advances by one frame and the driver is asked to repaint and poll; the
    /// file is read either way once the poll has not asked to exit.
    pub fn next_file(&mut self, tick_due: bool) -> (r: FileStep)
        requires
            old(self).wf(),
            !old(self).is_cancelled(),
        ensures
            final(self).ticks() == old(self).ticks(),
            final(self).pending() == (if tick_due {
                Some(None::<Key>)
            } else {
                None
            }),
            final(self).wf(),
            final(self).records() == old(self).records(),
            final(self).pattern() == old(self).pattern(),
            final(self).walked() == old(self).walked(),
            final(self).is_cancelled() == old(self).is_cancelled(),
            tick_due ==> final(self).frame() == (old(self).frame() + 1) % (ANIMATION_FRAMES as nat),
            tick_due ==> r == FileStep::Repaint(final(self).frame() as usize),
            !tick_due ==> final(self).frame() == old(self).frame(),
            !tick_due ==> r == FileStep::Read,
    {
        self.pending = Ghost(if tick_due {
            Some(None)
        } else {
            None
        });
        if tick_due {
            self.animation = (self.animation + 1) % ANIMATION_FRAMES;
            FileStep::Repaint(self.animation)
        } else {
            FileStep::Read
        }
    }

    /// Takes the outcome of a poll at a tick. An exit key cancels the scan;
    /// any other key, or none, changes nothing. Returns whether the scan is
    /// now cancelled.
    pub fn on_key(&mut self, key: Option<Key>) -> (r: bool)
        requires
            old(self).wf(),
            !old(self).is_cancelled(),
            old(self).pending() is Some,
        ensures
            final(self).ticks() == old(self).ticks(),
            final(self).pending() == Some(key),
            final(self).wf(),
            final(self).records() == old(self).records(),
            final(self).pattern() == old(self).pattern(),
            final(self).walked() == old(self).walked(),
            final(self).frame() == old(self).frame(),
            final(self).is_cancelled() == (old(self).is_cancelled() || (key matches Some(k)
                && requests_exit(k))),
            r == final(self).is_cancelled(),
    {
        self.pending = Ghost(Some(key));
        if let Some(k) = key {
            if crate::input::is_exit_key(k) {
                self.cancelled = true;
            }
        }
        self.cancelled
    }

    /// Adds the records of one file, read as `lines`.
    pub fn add_file(&mut self, m: &Matcher, path: &str, lines: &Vec<Option<String>>)
        requires
            old(self).wf(),
            !old(self).is_cancelled(),
            m@ == old(self).pattern(),
        ensures
            final(self).ticks() == old(self).ticks().push(old(self).pending()),
            final(self).pending() == None::<Option<Key>>,
            final(self).wf(),
            final(self).pattern() == old(self).pattern(),
            final(self).walked() == old(self).walked().push((path@, lines_view(lines@))),
            final(self).records() == old(self).records() + file_records(
                m@,
                path@,
                lines_view(lines@),
            ),
            final(self).frame() == old(self).frame(),
            final(self).is_cancelled() == old(self).is_cancelled(),
    {
        let mut found = scan_lines(m, path, lines);
        let ghost before = self.results@;
        let ghost added = found@;
        self.results.append(&mut found);
        self.walked = Ghost(self.walked@.push((path@, lines_view(lines@))));
        self.ticks = Ghost(self.ticks@.push(self.pending@));
        self.pending = Ghost(None);
        assert(forall|i: int|
            0 <= i < self.ticks@.len() - 1 ==> self.ticks@[i] == old(self).ticks@[i]);
        assert(self.walked@.drop_last() =~= old(self).walked@);
        assert(records_view(self.results@) =~= records_view(before) + records_view(added));
    }

    /// Ends the scan: the records in the order they were found, or `None` when
    /// an exit was asked for, in which case no results are shown.
    pub fn finish(self) -> (r: Option<Vec<MatchRecord>>)
        requires
            self.wf(),
        ensures
            r matches Some(v) ==> records_view(v@) == walk_records(self.pattern(), self.walked()),
            r matches Some(v) ==> scan_outcome(self.pattern(), self.walked(), self.ticks()) == Some(
                records_view(v@),
            ),
            r is None ==> forall|f: (Seq<char>, Seq<Option<Seq<char>>>)|
                scan_outcome(
                    self.pattern(),
                    #[trigger] self.walked().push(f),
                    self.ticks().push(self.pending()),
                ) is None,
            self.is_cancelled() <==> r is None,
            r matches Some(v) ==> records_view(v@) == self.records(),
    {
        proof {
            if self.cancelled {
                assert forall|f: (Seq<char>, Seq<Option<Seq<char>>>)|
                    scan_outcome(
                        self.pattern(),
                        #[trigger] self.walked().push(f),
                        self.ticks().push(self.pending()),
                    ) is None by {
                    let t = self.ticks@.push(self.pending@);
                    lemma_scan_exit_cancels(self.pattern@, self.walked@.push(f), t, t.len() - 1);
                }
            } else {
                lemma_scan_without_exit(self.pattern@, self.walked@, self.ticks@);
            }
        }
        if self.cancelled {
            None
        } else {
            Some(self.results)
        }
    }
}

} // verus!
