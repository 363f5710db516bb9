//! The query protocol's data types and response text.
//!
//! A client sends one request per connection — a summary over an optional
//! window, or the current activity — and reads back plain text: a two-column
//! table for a summary, three labelled lines for the current activity, or a
//! single line prefixed `Error: `.

use vstd::prelude::*;

use crate::duration::spec_format_duration;
use crate::duration::format_duration;

verus! {

/// A query request: one of the two kinds a client may send.
#[derive(Debug)]
pub enum Action {
    /// Report time per activity within a window; each bound is an optional
    /// date string.
    Summary { start_time: Option<String>, end_time: Option<String> },
    /// Report the activity being tracked right now.
    Current,
}

/// Human-readable metadata for an activity identifier, as the activity
/// directory reports it.  Both fields are empty when the directory does not
/// know the identifier.
#[derive(Debug)]
pub struct ActivityInfo {
    pub name: String,
    pub description: String,
}

/// The display name and description for an activity: the directory's
/// metadata, or the raw identifier with an empty description when the
/// directory does not know it.
pub fn resolve_display(uuid: String, info: ActivityInfo) -> (r: (String, String))
    ensures
        info.name@.len() == 0 ==> r.0@ == uuid@ && r.1@.len() == 0,
        info.name@.len() > 0 ==> r.0@ == info.name@ && r.1@ == info.description@,
{
    if info.name.as_str().is_empty() {
        (uuid, String::new())
    } else {
        (info.name, info.description)
    }
}

/// The sentinel shown when no interval is open.
pub fn no_activity_sentinel() -> (r: String)
    ensures
        r@ == "No current activity"@,
{
    "No current activity".to_owned()
}

/// `n` copies of `c` (none for `n <= 0`).
pub open spec fn char_repeat(c: char, n: int) -> Seq<char> {
    if n <= 0 {
        Seq::empty()
    } else {
        Seq::new(n as nat, |i: int| c)
    }
}

/// `s` left-aligned in a field `w` wide (unchanged when it is wider).
pub open spec fn spec_pad(s: Seq<char>, w: int) -> Seq<char> {
    s + char_repeat(' ', w - s.len())
}

/// A separator line of the summary table.
pub open spec fn spec_sep_line(w1: int, w2: int) -> Seq<char> {
    char_repeat('-', w1) + seq!['-', '+'] + char_repeat('-', w2) + seq!['\n']
}

/// One row of the summary table.
pub open spec fn spec_row_line(a: Seq<char>, b: Seq<char>, w1: int, w2: int) -> Seq<char> {
    spec_pad(a, w1) + seq![' ', '|', ' '] + spec_pad(b, w2) + seq!['\n']
}

/// The width of a column: at least `w0`, and wide enough for every cell.
pub open spec fn width_of(w0: int, cells: Seq<Seq<char>>) -> int
    decreases cells.len(),
{
    if cells.len() == 0 {
        w0
    } else {
        let rest = width_of(w0, cells.drop_last());
        if cells.last().len() > rest {
            cells.last().len() as int
        } else {
            rest
        }
    }
}

/// The rows' body text, one line per row, in order.
pub open spec fn spec_body(rows: Seq<(Seq<char>, Seq<char>)>, w1: int, w2: int) -> Seq<char>
    decreases rows.len(),
{
    if rows.len() == 0 {
        Seq::empty()
    } else {
        spec_body(rows.drop_last(), w1, w2) + spec_row_line(
            rows.last().0,
            rows.last().1,
            w1,
            w2,
        )
    }
}

/// The views of a row list.
pub open spec fn rows_view(rows: Seq<(String, String)>) -> Seq<(Seq<char>, Seq<char>)> {
    Seq::new(rows.len(), |i: int| (rows[i].0@, rows[i].1@))
}

/// The whole summary table: separator, header, separator, one line per
/// row, separator.  Column widths are sized to content, never narrower
/// than the headers.
pub open spec fn spec_table(rows: Seq<(Seq<char>, Seq<char>)>) -> Seq<char> {
    let w1 = width_of(8, Seq::new(rows.len(), |i: int| rows[i].0));
    let w2 = width_of(8, Seq::new(rows.len(), |i: int| rows[i].1));
    let hdr = spec_row_line(
        seq!['A', 'c', 't', 'i', 'v', 'i', 't', 'y'],
        seq!['D', 'u', 'r', 'a', 't', 'i', 'o', 'n'],
        w1,
        w2,
    );
    spec_sep_line(w1, w2) + hdr + spec_sep_line(w1, w2) + spec_body(rows, w1, w2) + spec_sep_line(
        w1,
        w2,
    )
}

/// The three-line current-activity report.
pub open spec fn spec_current_report(n: Seq<char>, d: Seq<char>, e: Option<int>) -> Seq<char> {
    "Current Activity: "@ + n + "\nDescription: "@ + d + "\nElapsed Time: "@ + (match e {
        Some(t) => spec_format_duration(t),
        None => "N/A"@,
    }) + "\n"@
}

fn repeat_str(piece: &str, n: usize) -> (r: String)
    requires
        piece@.len() == 1,
    ensures
        r@ == char_repeat(piece@[0], n as int),
{
    let mut r = String::new();
    let mut i: usize = 0;
    while i < n
        invariant
            0 <= i <= n,
            piece@.len() == 1,
            r@ =~= char_repeat(piece@[0], i as int),
        decreases n - i,
    {
        r.append(piece);
        i = i + 1;
        proof {
            assert(r@ =~= char_repeat(piece@[0], i as int));
        }
    }
    r
}

fn pad_to(s: &str, w: usize) -> (r: String)
    ensures
        r@ == spec_pad(s@, w as int),
{
    let mut r = s.to_owned();
    let mut i: usize = s.unicode_len();
    proof {
        assert(r@ =~= s@ + char_repeat(' ', i as int - s@.len()));
    }
    while i < w
        invariant
            s@.len() <= i,
            i <= w || i as int == s@.len(),
            r@ =~= s@ + char_repeat(' ', i as int - s@.len()),
        decreases w - i,
    {
        r.append(" ");
        i = i + 1;
        proof {
            reveal_strlit(" ");
            assert(r@ =~= s@ + char_repeat(' ', i as int - s@.len()));
        }
    }
    proof {
        assert(r@ =~= spec_pad(s@, w as int));
    }
    r
}

fn sep_line(w1: usize, w2: usize) -> (r: String)
    ensures
        r@ == spec_sep_line(w1 as int, w2 as int),
{
    proof {
        reveal_strlit("-");
        reveal_strlit("-+");
        reveal_strlit("\n");
    }
    let mut r = repeat_str("-", w1);
    r.append("-+");
    let tail = repeat_str("-", w2);
    r.append(tail.as_str());
    r.append("\n");
    proof {
        assert(r@ =~= spec_sep_line(w1 as int, w2 as int));
    }
    r
}

fn row_line(a: &str, b: &str, w1: usize, w2: usize) -> (r: String)
    ensures
        r@ == spec_row_line(a@, b@, w1 as int, w2 as int),
{
    proof {
        reveal_strlit(" | ");
        reveal_strlit("\n");
    }
    let mut r = pad_to(a, w1);
    r.append(" | ");
    let right = pad_to(b, w2);
    r.append(right.as_str());
    r.append("\n");
    proof {
        assert(r@ =~= spec_row_line(a@, b@, w1 as int, w2 as int));
    }
    r
}

/// A column's width over the given cells of the rows.
fn name_width(rows: &Vec<(String, String)>) -> (r: usize)
    ensures
        r as int == width_of(8, Seq::new(rows_view(rows@).len(), |i: int| rows_view(rows@)[i].0)),
{
    let ghost cells = Seq::new(rows_view(rows@).len(), |i: int| rows_view(rows@)[i].0);
    let mut w: usize = 8;
    let mut i: usize = 0;
    while i < rows.len()
        invariant
            0 <= i <= rows@.len(),
            cells == Seq::new(rows_view(rows@).len(), |j: int| rows_view(rows@)[j].0),
            cells.len() == rows@.len(),
            w as int == width_of(8, cells.take(i as int)),
        decreases rows@.len() - i,
    {
        let l = rows[i].0.as_str().unicode_len();
        proof {
            assert(cells.take(i as int + 1).drop_last() =~= cells.take(i as int));
            assert(cells.take(i as int + 1).last() == cells[i as int]);
            assert(cells[i as int] == rows@[i as int].0@);
        }
        if l > w {
            w = l;
        }
        i = i + 1;
    }
    proof {
        assert(cells.take(rows@.len() as int) =~= cells);
    }
    w
}

/// As [`name_width`], for the duration column.
fn duration_width(rows: &Vec<(String, String)>) -> (r: usize)
    ensures
        r as int == width_of(8, Seq::new(rows_view(rows@).len(), |i: int| rows_view(rows@)[i].1)),
{
    let ghost cells = Seq::new(rows_view(rows@).len(), |i: int| rows_view(rows@)[i].1);
    let mut w: usize = 8;
    let mut i: usize = 0;
    while i < rows.len()
        invariant
            0 <= i <= rows@.len(),
            cells == Seq::new(rows_view(rows@).len(), |j: int| rows_view(rows@)[j].1),
            cells.len() == rows@.len(),
            w as int == width_of(8, cells.take(i as int)),
        decreases rows@.len() - i,
    {
        let l = rows[i].1.as_str().unicode_len();
        proof {
            assert(cells.take(i as int + 1).drop_last() =~= cells.take(i as int));
            assert(cells.take(i as int + 1).last() == cells[i as int]);
            assert(cells[i as int] == rows@[i as int].1@);
        }
        if l > w {
            w = l;
        }
        i = i + 1;
    }
    proof {
        assert(cells.take(rows@.len() as int) =~= cells);
    }
    w
}

/// Renders the summary table for already-resolved rows of (display name,
/// formatted duration).
pub fn render_summary_table(rows: &Vec<(String, String)>) -> (r: String)
    ensures
        r@ == spec_table(rows_view(rows@)),
{
    let ghost rv = rows_view(rows@);
    let w1 = name_width(rows);
    let w2 = duration_width(rows);
    let ghost gw1 = w1 as int;
    let ghost gw2 = w2 as int;
    let mut out = sep_line(w1, w2);
    let hdr = row_line("Activity", "Duration", w1, w2);
    out.append(hdr.as_str());
    proof {
        reveal_strlit("Activity");
        reveal_strlit("Duration");
        assert("Activity"@ =~= seq!['A', 'c', 't', 'i', 'v', 'i', 't', 'y']);
        assert("Duration"@ =~= seq!['D', 'u', 'r', 'a', 't', 'i', 'o', 'n']);
    }
    let second = sep_line(w1, w2);
    out.append(second.as_str());
    let ghost head = spec_sep_line(gw1, gw2) + spec_row_line(
        seq!['A', 'c', 't', 'i', 'v', 'i', 't', 'y'],
        seq!['D', 'u', 'r', 'a', 't', 'i', 'o', 'n'],
        gw1,
        gw2,
    ) + spec_sep_line(gw1, gw2);
    proof {
        assert(out@ =~= head);
    }
    let mut i: usize = 0;
    while i < rows.len()
        invariant
            0 <= i <= rows@.len(),
            rv == rows_view(rows@),
            rv.len() == rows@.len(),
            gw1 == w1 as int,
            gw2 == w2 as int,
            out@ =~= head + spec_body(rv.take(i as int), gw1, gw2),
        decreases rows@.len() - i,
    {
        let line = row_line(rows[i].0.as_str(), rows[i].1.as_str(), w1, w2);
        out.append(line.as_str());
        i = i + 1;
        proof {
            assert(rv.take(i as int).drop_last() =~= rv.take(i as int - 1));
            assert(rv.take(i as int).last() == rv[i as int - 1]);
            assert(rv[i as int - 1] == (rows@[i as int - 1].0@, rows@[i as int - 1].1@));
            assert(out@ =~= head + spec_body(rv.take(i as int), gw1, gw2));
        }
    }
    let last = sep_line(w1, w2);
    out.append(last.as_str());
    proof {
        assert(rv.take(rows@.len() as int) =~= rv);
        assert(Seq::new(rv.len(), |i: int| rv[i].0) =~= Seq::new(
            rows_view(rows@).len(),
            |i: int| rows_view(rows@)[i].0,
        ));
        assert(out@ =~= spec_table(rv));
    }
    out
}

/// Renders the current-activity report: name, description, and elapsed
/// time (`N/A` when nothing is tracked).
pub fn render_current(name: &str, description: &str, elapsed: Option<u64>) -> (r: String)
    ensures
        r@ == spec_current_report(
            name@,
            description@,
            match elapsed {
                Some(e) => Some(e as int),
                None => None,
            },
        ),
{
    proof {
        reveal_strlit("Current Activity: ");
        reveal_strlit("\nDescription: ");
        reveal_strlit("\nElapsed Time: ");
        reveal_strlit("N/A");
        reveal_strlit("\n");
    }
    let mut r = "Current Activity: ".to_owned();
    r.append(name);
    r.append("\nDescription: ");
    r.append(description);
    r.append("\nElapsed Time: ");
    match elapsed {
        Some(e) => {
            let d = format_duration(e as u128);
            r.append(d.as_str());
        },
        None => {
            r.append("N/A");
        },
    }
    r.append("\n");
    proof {
        assert(r@ =~= spec_current_report(
            name@,
            description@,
            match elapsed {
                Some(e) => Some(e as int),
                None => None,
            },
        ));
    }
    r
}

/// Renders the one-line error reply sent back to a failing client.
pub fn error_response(msg: &str) -> (r: String)
    ensures
        r@ == "Error: "@ + msg@ + "\n"@,
{
    proof {
        reveal_strlit("Error: ");
        reveal_strlit("\n");
    }
    let mut r = "Error: ".to_owned();
    r.append(msg);
    r.append("\n");
    proof {
        assert(r@ =~= "Error: "@ + msg@ + "\n"@);
    }
    r
}

} // verus!
