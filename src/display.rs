use vstd::prelude::*;

use crate::record::{record_text, MatchRecord};

verus! {

/// What one frame shows: the header's title, the lower panel's title, and the
/// lines of the lower panel.
pub struct FrameText {
    pub header: String,
    pub title: String,
    pub lines: Vec<String>,
}

/// The header's title: the search pattern and how to leave.
pub open spec fn header_text(pattern: Seq<char>) -> Seq<char> {
    " Search term: '"@ + pattern + "' (Exit: q) "@
}

/// The three-character dots of an animation frame: none, one, two or three.
pub open spec fn dots_text(frame: nat) -> Seq<char> {
    if frame == 1 {
        ".  "@
    } else if frame == 2 {
        ".. "@
    } else if frame == 3 {
        "..."@
    } else {
        "   "@
    }
}

/// The scanning panel's title at an animation frame.
pub open spec fn searching_text(frame: nat) -> Seq<char> {
    " Searching"@ + dots_text(frame) + " "@
}

/// The scanning panel's line: the file being scanned.
pub open spec fn current_file_text(path: Seq<char>) -> Seq<char> {
    "Current file: "@ + path
}

/// The results panel's title.
pub open spec fn results_title_text() -> Seq<char> {
    " Found in "@
}

pub fn header_title(pattern: &str) -> (r: String)
    ensures
        r@ == header_text(pattern@),
{
    let mut s = String::from_str(" Search term: '");
    s.append(pattern);
    s.append("' (Exit: q) ");
    s
}

fn dots(frame: usize) -> (r: &'static str)
    ensures
        r@ == dots_text(frame as nat),
{
    if frame == 1 {
        ".  "
    } else if frame == 2 {
        ".. "
    } else if frame == 3 {
        "..."
    } else {
        "   "
    }
}

pub fn searching_title(frame: usize) -> (r: String)
    ensures
        r@ == searching_text(frame as nat),
{
    let mut s = String::from_str(" Searching");
    s.append(dots(frame));
    s.append(" ");
    s
}

pub fn current_file_line(path: &str) -> (r: String)
    ensures
        r@ == current_file_text(path@),
{
    let mut s = String::from_str("Current file: ");
    s.append(path);
    s
}

/// The frame shown while scanning: the header, the animated title, and the
/// file being scanned.
pub fn scanning_frame(pattern: &str, path: &str, frame: usize) -> (r: FrameText)
    ensures
        r.header@ == header_text(pattern@),
        r.title@ == searching_text(frame as nat),
        r.lines@.len() == 1,
        r.lines@[0]@ == current_file_text(path@),
{
    let mut lines: Vec<String> = Vec::new();
    lines.push(current_file_line(path));
    FrameText { header: header_title(pattern), title: searching_title(frame), lines }
}

/// The frame shown once the scan is done: the header, and one line per
/// record, in the records' order.
pub fn results_frame(pattern: &str, records: &Vec<MatchRecord>) -> (r: FrameText)
    ensures
        r.header@ == header_text(pattern@),
        r.title@ == results_title_text(),
        r.lines@.len() == records@.len(),
        forall|i: int|
            0 <= i < records@.len() ==> (#[trigger] r.lines@[i])@ == record_text(
                records@[i].path@,
                records@[i].line_number as nat,
                records@[i].content@,
            ),
{
    let mut lines: Vec<String> = Vec::new();
    let mut i: usize = 0;
    while i < records.len()
        invariant
            i <= records.len(),
            lines@.len() == i,
            forall|k: int|
                0 <= k < i ==> (#[trigger] lines@[k])@ == record_text(
                    records@[k].path@,
                    records@[k].line_number as nat,
                    records@[k].content@,
                ),
        decreases records.len() - i,
    {
        lines.push(records[i].format());
        i = i + 1;
    }
    FrameText { header: header_title(pattern), title: String::from_str(" Found in "), lines }
}

} // verus!
