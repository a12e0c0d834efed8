//! The per-file processor: classify a file from its first line, then run
//! every line through the date parser and the split writer, producing the
//! full plan of appends for that file.
//!
//! The processor computes on the file's lines; reading them, carrying out
//! the planned appends, and deleting the source on success are its
//! caller's work.

use crate::format::{classify, classify_spec, LogFormat};
use crate::parser::{determine_date, extract_date};
use crate::splitter::{plan_matches, plan_splits, writes_of, WriteOp};
use vstd::prelude::*;
use vstd::string::StringExecFns;

verus! {

/// The (optional date, line) pairs the date parser produces for a file's
/// lines under format `fmt`, lending `year` to `Syslog` lines.
pub open spec fn pairs_of(lines: Seq<Seq<char>>, fmt: LogFormat, year: int) -> Seq<
    (Option<Seq<char>>, Seq<char>),
> {
    lines.map_values(|l: Seq<char>| (extract_date(fmt, l, year), l))
}

/// The format a whole file is assigned: classification reads the first
/// line only; a file with no lines gets none.
pub open spec fn file_format(lines: Seq<Seq<char>>) -> Option<LogFormat> {
    if lines.len() == 0 {
        None
    } else {
        classify_spec(lines[0])
    }
}

/// What processing one file must yield: no plan when the file's first
/// line matches no format, and otherwise the exact split plan of its
/// lines under the assigned format and the lent year.
pub open spec fn process_result_ok(
    r: Option<Vec<WriteOp>>,
    lines: Seq<Seq<char>>,
    year: int,
) -> bool {
    match file_format(lines) {
        None => r is None,
        Some(fmt) => r matches Some(ops) && plan_matches(
            ops@,
            writes_of(pairs_of(lines, fmt, year)),
        ),
    }
}

/// One input file on its way through a run: where it lies, where its
/// split output goes, and the format its first line was assigned, once
/// one was.
pub struct FileProcessor {
    /// Path of the file being processed.
    pub path: String,
    /// Output path prefix its per-date files share.
    pub outroot: String,
    /// The assigned format; none before classification, and still none
    /// after it when no pattern matched, meaning the file is skipped.
    pub logtype: Option<LogFormat>,
}

impl FileProcessor {
    /// Take on one file: no format is assigned yet.
    pub fn new(path: String, outroot: String) -> (r: FileProcessor)
        ensures
            r.path@ == path@,
            r.outroot@ == outroot@,
            r.logtype is None,
    {
        FileProcessor { path, outroot, logtype: None }
    }

    /// Classify the file from its first line: the first format in
    /// priority order whose detection pattern matches, or none.
    pub fn determine_type(&mut self, first_line: &str)
        ensures
            final (self).logtype == classify_spec(first_line@),
            final (self).path@ == old(self).path@,
            final (self).outroot@ == old(self).outroot@,
    {
        self.logtype = classify(first_line);
    }

    /// Plan the split of the file's lines under the assigned format,
    /// lending `year` to `Syslog` lines: one planned append per line with
    /// a date, in order, switching output files exactly where the date
    /// changes.  A file with no assigned format yields no plan.
    pub fn process(&self, lines: &Vec<String>, year: i32) -> (r: Option<Vec<WriteOp>>)
        ensures
            match self.logtype {
                None => r is None,
                Some(fmt) => r matches Some(ops) && plan_matches(
                    ops@,
                    writes_of(pairs_of(lines.deep_view(), fmt, year as int)),
                ),
            },
    {
        let fmt = match &self.logtype {
            None => {
                return None;
            },
            Some(f) => *f,
        };
        let ghost lv = lines.deep_view();
        let mut pairs: Vec<(Option<String>, String)> = Vec::new();
        let mut k: usize = 0;
        while k < lines.len()
            invariant
                lv == lines.deep_view(),
                k <= lines.len(),
                pairs.deep_view() == pairs_of(lv.take(k as int), fmt, year as int),
            decreases lines.len() - k,
        {
            let line: &String = &lines[k];
            let date = determine_date(&fmt, line.as_str(), year);
            let ghost old_pairs = pairs.deep_view();
            pairs.push((date, line.clone()));
            k += 1;
            proof {
                assert(lv[k - 1] == lines@[k - 1]@);
                assert(pairs.deep_view() =~= old_pairs.push((date.deep_view(), line@)));
                assert(pairs.deep_view() =~= pairs_of(lv.take(k as int), fmt, year as int));
            }
        }
        proof {
            assert(lv.take(lines@.len() as int) =~= lv);
            assert(pairs.deep_view() =~= pairs_of(lv, fmt, year as int));
        }
        Some(plan_splits(&pairs))
    }
}

/// Process one file's lines entirely: classify from the first line, then
/// parse a date per line and plan the split, lending `year` to `Syslog`
/// lines.  A file whose first line matches no format is skipped: no plan,
/// and its caller must leave the source file untouched.
pub fn one_file(path: String, outroot: String, lines: &Vec<String>, year: i32) -> (r: Option<
    Vec<WriteOp>,
>)
    ensures
        process_result_ok(r, lines.deep_view(), year as int),
{
    let mut proco = FileProcessor::new(path, outroot);
    if lines.len() > 0 {
        let first: &String = &lines[0];
        proco.determine_type(first.as_str());
        proof {
            assert(lines.deep_view()[0] == lines@[0]@);
        }
    }
    proco.process(lines, year)
}

/// Under every format but `Syslog` the lent year is never read: the
/// parsed pairs of a file, and with them its whole split plan, are the
/// same whatever year is lent.
pub proof fn lemma_pairs_ignore_year(lines: Seq<Seq<char>>, fmt: LogFormat, y1: int, y2: int)
    requires
        !(fmt is Syslog),
    ensures
        pairs_of(lines, fmt, y1) == pairs_of(lines, fmt, y2),
{
    assert forall|i: int| 0 <= i < lines.len() implies pairs_of(lines, fmt, y1)[i] == pairs_of(
        lines,
        fmt,
        y2,
    )[i] by {
        crate::parser::lemma_extract_date_ignores_year(fmt, lines[i], y1, y2);
    }
    assert(pairs_of(lines, fmt, y1) =~= pairs_of(lines, fmt, y2));
}

/// Process one file's lines at the present moment: as [`one_file`], with
/// the current UTC year lent to `Syslog` lines.  A file of any other
/// format gets the exact plan of its lines, whatever the clock says; a
/// `Syslog` file gets the plan of its lines under some year, the one the
/// clock gave.
pub fn one_file_now(path: String, outroot: String, lines: &Vec<String>) -> (r: Option<
    Vec<WriteOp>,
>)
    ensures
        exists|y: int| process_result_ok(r, lines.deep_view(), y),
        file_format(lines.deep_view()) is None ==> r is None,
        (file_format(lines.deep_view()) matches Some(fmt) && !(fmt is Syslog))
            ==> process_result_ok(r, lines.deep_view(), 0),
{
    let year = crate::parser::utc_year();
    let r = one_file(path, outroot, lines, year);
    proof {
        assert(process_result_ok(r, lines.deep_view(), year as int));
        match file_format(lines.deep_view()) {
            Some(fmt) => {
                if !(fmt is Syslog) {
                    lemma_pairs_ignore_year(lines.deep_view(), fmt, year as int, 0);
                }
            },
            None => {},
        }
    }
    r
}

/// A line with no substring in the file's date shape reaches no output
/// file: a file's split plan never appends more lines than the file has,
/// and appends exactly as many precisely when every line of the file
/// shows the format's date shape.
pub proof fn lemma_undated_lines_dropped(lines: Seq<Seq<char>>, fmt: LogFormat, year: int)
    ensures
        writes_of(pairs_of(lines, fmt, year)).len() <= lines.len(),
        writes_of(pairs_of(lines, fmt, year)).len() == lines.len() <==> (forall|i: int|
            0 <= i < lines.len() ==> crate::format::detects(fmt, #[trigger] lines[i])),
{
    let pairs = pairs_of(lines, fmt, year);
    crate::splitter::lemma_write_count(pairs);
    assert forall|i: int| 0 <= i < lines.len() implies ((#[trigger] pairs[i]).0 is Some
        == crate::format::detects(fmt, lines[i])) by {
        assert(pairs[i].0 == extract_date(fmt, lines[i], year));
    }
    if writes_of(pairs).len() == pairs.len() {
        assert forall|i: int| 0 <= i < lines.len() implies crate::format::detects(
            fmt,
            #[trigger] lines[i],
        ) by {
            assert(pairs[i].0 is Some);
        }
    }
    if forall|i: int| 0 <= i < lines.len() ==> crate::format::detects(fmt, #[trigger] lines[i]) {
        assert forall|i: int| 0 <= i < pairs.len() implies (#[trigger] pairs[i]).0 is Some by {
            assert(crate::format::detects(fmt, lines[i]));
        }
    }
}

/// The name of the output file of one date: the output prefix, a hyphen,
/// and the `YYYY-MM-DD` date.
pub fn output_file_name(prefix: &str, date: &str) -> (r: String)
    ensures
        r@ == prefix@ + seq!['-'] + date@,
{
    let mut s = String::new();
    s.append(prefix);
    proof {
        reveal_strlit("-");
    }
    s.append("-");
    s.append(date);
    proof {
        assert(s@ =~= prefix@ + seq!['-'] + date@);
    }
    s
}

} // verus!
