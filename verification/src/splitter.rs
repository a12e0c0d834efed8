//! The split writer: turns an ordered stream of (optional date, line)
//! pairs into a plan of appends to per-date output files.
//!
//! A line without a date is dropped.  A dated line is appended to the file
//! of its date; the writer keeps at most one output file open and switches
//! only when the date differs from the one currently open, so the plan
//! also says before which appends the open file changes.

use vstd::prelude::*;

verus! {

/// One planned append: `line` goes to the file of `date`.  When `opens`
/// holds, the writer must first close the file it has open and open the
/// file of `date` for appending; otherwise the file of `date` is already
/// the open one.
pub struct WriteOp {
    /// The `YYYY-MM-DD` date naming the output file.
    pub date: String,
    /// The line to append, without its trailing newline.
    pub line: String,
    /// The date differs from the previous append's, so the writer switches
    /// files here.
    pub opens: bool,
}

/// The appends a stream of (optional date, line) pairs asks for: one per
/// dated pair, in input order; pairs without a date ask for none.
pub open spec fn writes_of(pairs: Seq<(Option<Seq<char>>, Seq<char>)>) -> Seq<
    (Seq<char>, Seq<char>),
>
    decreases pairs.len(),
{
    if pairs.len() == 0 {
        Seq::empty()
    } else {
        let rest = writes_of(pairs.drop_last());
        match pairs.last().0 {
            Some(d) => rest.push((d, pairs.last().1)),
            None => rest,
        }
    }
}

/// Append `j` of a write sequence is the first of its run: it is the very
/// first append, or its date differs from the append before it.
pub open spec fn opens_flag(ws: Seq<(Seq<char>, Seq<char>)>, j: int) -> bool {
    j == 0 || ws[j].0 != ws[j - 1].0
}

/// The lines a sequence of appends puts into the file of date `d`, in
/// order.
pub open spec fn file_lines(ws: Seq<(Seq<char>, Seq<char>)>, d: Seq<char>) -> Seq<Seq<char>>
    decreases ws.len(),
{
    if ws.len() == 0 {
        Seq::empty()
    } else {
        let rest = file_lines(ws.drop_last(), d);
        if ws.last().0 == d {
            rest.push(ws.last().1)
        } else {
            rest
        }
    }
}

/// The lines of the input stream dated `d`, in order.
pub open spec fn dated_lines(pairs: Seq<(Option<Seq<char>>, Seq<char>)>, d: Seq<char>) -> Seq<
    Seq<char>,
>
    decreases pairs.len(),
{
    if pairs.len() == 0 {
        Seq::empty()
    } else {
        let rest = dated_lines(pairs.drop_last(), d);
        if pairs.last().0 == Some(d) {
            rest.push(pairs.last().1)
        } else {
            rest
        }
    }
}

/// The date of the last append of `ws`, the one whose file stays open
/// after `ws` runs; none when nothing was appended.
pub open spec fn last_date(ws: Seq<(Seq<char>, Seq<char>)>) -> Option<Seq<char>> {
    if ws.len() == 0 {
        None
    } else {
        Some(ws.last().0)
    }
}

/// A vector of planned appends carries out exactly the write sequence
/// `ws`: same dates and lines in the same order, and a switch of the open
/// file exactly at the start of each run of equal dates.
pub open spec fn plan_matches(ops: Seq<WriteOp>, ws: Seq<(Seq<char>, Seq<char>)>) -> bool {
    &&& ops.len() == ws.len()
    &&& forall|j: int|
        0 <= j < ws.len() ==> {
            &&& (#[trigger] ops[j]).date@ == ws[j].0
            &&& ops[j].line@ == ws[j].1
            &&& ops[j].opens == opens_flag(ws, j)
        }
}

/// What the split writer does with one pair of the stream.
#[derive(Clone, Copy, Debug, PartialEq, Eq, Structural)]
pub enum LineAction {
    /// The line has no date: drop it, write nothing.
    Skip,
    /// The line's date is the open one: append the line to the open file.
    Append,
    /// The line's date differs: close the open file if any, open the
    /// file of this date for appending, then append the line.
    SwitchTo,
}

/// The date that is open after a pair is handled, given the date open
/// before it.
pub open spec fn next_open(cur: Option<Seq<char>>, date: Option<Seq<char>>) -> Option<Seq<char>> {
    match date {
        None => cur,
        Some(d) => Some(d),
    }
}

/// The action a pair asks for, given the date open before it.
pub open spec fn action_of(cur: Option<Seq<char>>, date: Option<Seq<char>>) -> LineAction {
    match date {
        None => LineAction::Skip,
        Some(d) => if cur == Some(d) {
            LineAction::Append
        } else {
            LineAction::SwitchTo
        },
    }
}

/// The writer's transient state while one file streams through it: the
/// date of the output file currently open, if any.  At most one output
/// file is ever open.
pub struct SplitState {
    /// Date of the open output file; none before the first dated line.
    pub open_date: Option<String>,
}

impl SplitState {
    /// The date this state holds open.
    pub open spec fn date_view(&self) -> Option<Seq<char>> {
        self.open_date.deep_view()
    }

    /// Fresh state: no output file is open.
    pub fn new() -> (s: SplitState)
        ensures
            s.date_view() is None,
    {
        SplitState { open_date: None }
    }

    /// Decide what to do with one line, and move to the state that holds
    /// after the decided action is carried out.
    pub fn step(&mut self, date: &Option<String>) -> (act: LineAction)
        ensures
            act == action_of(old(self).date_view(), date.deep_view()),
            final (self).date_view() == next_open(old(self).date_view(), date.deep_view()),
    {
        match date {
            None => LineAction::Skip,
            Some(d) => {
                let same = match &self.open_date {
                    Some(cur) => cur.eq(d),
                    None => false,
                };
                if same {
                    LineAction::Append
                } else {
                    self.open_date = Some(d.clone());
                    LineAction::SwitchTo
                }
            },
        }
    }
}

/// Plan the whole split of one stream: run the writer's state machine over
/// every pair and record, in order, each append it decides on and whether
/// the open file switches there.
pub fn plan_splits(pairs: &Vec<(Option<String>, String)>) -> (ops: Vec<WriteOp>)
    ensures
        plan_matches(ops@, writes_of(pairs.deep_view())),
{
    let ghost pv = pairs.deep_view();
    let mut ops: Vec<WriteOp> = Vec::new();
    let mut st = SplitState::new();
    let mut k: usize = 0;
    while k < pairs.len()
        invariant
            pv == pairs.deep_view(),
            k <= pairs.len(),
            st.date_view() == last_date(writes_of(pv.take(k as int))),
            plan_matches(ops@, writes_of(pv.take(k as int))),
        decreases pairs.len() - k,
    {
        let p: &(Option<String>, String) = &pairs[k];
        let act = st.step(&p.0);
        proof {
            assert(pv.take(k + 1).drop_last() =~= pv.take(k as int));
            assert(pv.take(k + 1).last() == pv[k as int]);
        }
        match act {
            LineAction::Skip => {},
            LineAction::Append => {
                let d = match &p.0 {
                    Some(d) => d.clone(),
                    None => String::new(),
                };
                ops.push(WriteOp { date: d, line: p.1.clone(), opens: false });
            },
            LineAction::SwitchTo => {
                let d = match &p.0 {
                    Some(d) => d.clone(),
                    None => String::new(),
                };
                ops.push(WriteOp { date: d, line: p.1.clone(), opens: true });
            },
        }
        k += 1;
    }
    proof {
        assert(pv.take(pairs.deep_view().len() as int) =~= pairs.deep_view());
    }
    ops
}

/// No line is invented and none is lost: a stream never writes more lines
/// than it read, and writes exactly as many precisely when every line of
/// the stream carried a date.
pub proof fn lemma_write_count(pairs: Seq<(Option<Seq<char>>, Seq<char>)>)
    ensures
        writes_of(pairs).len() <= pairs.len(),
        writes_of(pairs).len() == pairs.len() <==> (forall|i: int|
            0 <= i < pairs.len() ==> (#[trigger] pairs[i]).0 is Some),
    decreases pairs.len(),
{
    if pairs.len() > 0 {
        let dl = pairs.drop_last();
        lemma_write_count(dl);
        if writes_of(pairs).len() == pairs.len() {
            assert(pairs.last().0 is Some);
            assert(writes_of(dl).len() == dl.len());
            assert forall|i: int| 0 <= i < pairs.len() implies (#[trigger] pairs[i]).0 is Some by {
                if i < pairs.len() - 1 {
                    assert(dl[i] == pairs[i]);
                    assert(dl[i].0 is Some);
                } else {
                    assert(pairs[i] == pairs.last());
                }
            }
        }
        if forall|i: int| 0 <= i < pairs.len() ==> (#[trigger] pairs[i]).0 is Some {
            assert forall|i: int| 0 <= i < dl.len() implies (#[trigger] dl[i]).0 is Some by {
                assert(dl[i] == pairs[i]);
            }
            assert(writes_of(dl).len() == dl.len());
            assert(pairs[pairs.len() - 1].0 is Some);
            assert(writes_of(pairs).len() == pairs.len());
        }
    }
}

/// Each per-date output file receives exactly the input lines of that
/// date, in input order: switching files on every date change loses no
/// line and merges no two dates.
pub proof fn lemma_file_grouping(pairs: Seq<(Option<Seq<char>>, Seq<char>)>, d: Seq<char>)
    ensures
        file_lines(writes_of(pairs), d) == dated_lines(pairs, d),
    decreases pairs.len(),
{
    if pairs.len() > 0 {
        lemma_file_grouping(pairs.drop_last(), d);
        match pairs.last().0 {
            Some(_) => {
                assert(writes_of(pairs).drop_last() =~= writes_of(pairs.drop_last()));
            },
            None => {},
        }
    }
}

/// Exactly the dates that occur in the stream get a file: the file of
/// date `d` receives a line precisely when some line of the stream is
/// dated `d`.
pub proof fn lemma_only_seen_dates(pairs: Seq<(Option<Seq<char>>, Seq<char>)>, d: Seq<char>)
    ensures
        dated_lines(pairs, d).len() > 0 <==> exists|i: int|
            0 <= i < pairs.len() && (#[trigger] pairs[i]).0 == Some(d),
    decreases pairs.len(),
{
    if pairs.len() > 0 {
        lemma_only_seen_dates(pairs.drop_last(), d);
        if pairs.last().0 == Some(d) {
            assert(pairs[pairs.len() - 1].0 == Some(d));
        } else {
            if dated_lines(pairs.drop_last(), d).len() > 0 {
                let i = choose|i: int|
                    0 <= i < pairs.drop_last().len() && (#[trigger] pairs.drop_last()[i]).0
                        == Some(d);
                assert(pairs[i].0 == Some(d));
            }
            if exists|i: int| 0 <= i < pairs.len() && (#[trigger] pairs[i]).0 == Some(d) {
                let i = choose|i: int|
                    0 <= i < pairs.len() && (#[trigger] pairs[i]).0 == Some(d);
                assert(i < pairs.len() - 1);
                assert(pairs.drop_last()[i].0 == Some(d));
            }
        }
    }
}

/// Splitting a concatenation of two streams appends the second stream's
/// writes after the first's.
pub proof fn lemma_writes_concat(
    p1: Seq<(Option<Seq<char>>, Seq<char>)>,
    p2: Seq<(Option<Seq<char>>, Seq<char>)>,
)
    ensures
        writes_of(p1 + p2) == writes_of(p1) + writes_of(p2),
    decreases p2.len(),
{
    if p2.len() == 0 {
        assert(p1 + p2 =~= p1);
        assert(writes_of(p1) + writes_of(p2) =~= writes_of(p1));
    } else {
        lemma_writes_concat(p1, p2.drop_last());
        assert((p1 + p2).drop_last() =~= p1 + p2.drop_last());
        assert((p1 + p2).last() == p2.last());
        match p2.last().0 {
            Some(d) => {
                assert(writes_of(p1) + writes_of(p2) =~= (writes_of(p1) + writes_of(
                    p2.drop_last(),
                )).push((d, p2.last().1)));
            },
            None => {},
        }
    }
}

/// Re-running the writer over a second stream that shares dates with the
/// first appends to the same files: after both runs, each date's file
/// holds the first run's lines of that date followed by the second run's.
pub proof fn lemma_rerun_appends(
    p1: Seq<(Option<Seq<char>>, Seq<char>)>,
    p2: Seq<(Option<Seq<char>>, Seq<char>)>,
    d: Seq<char>,
)
    ensures
        file_lines(writes_of(p1 + p2), d) == file_lines(writes_of(p1), d) + file_lines(
            writes_of(p2),
            d,
        ),
{
    lemma_writes_concat(p1, p2);
    lemma_file_lines_concat(writes_of(p1), writes_of(p2), d);
}

/// Appends carried out one run after another fill each date's file with
/// the first run's lines, then the second's.
pub proof fn lemma_file_lines_concat(
    w1: Seq<(Seq<char>, Seq<char>)>,
    w2: Seq<(Seq<char>, Seq<char>)>,
    d: Seq<char>,
)
    ensures
        file_lines(w1 + w2, d) == file_lines(w1, d) + file_lines(w2, d),
    decreases w2.len(),
{
    if w2.len() == 0 {
        assert(w1 + w2 =~= w1);
        assert(file_lines(w1, d) + file_lines(w2, d) =~= file_lines(w1, d));
    } else {
        lemma_file_lines_concat(w1, w2.drop_last(), d);
        assert((w1 + w2).drop_last() =~= w1 + w2.drop_last());
        assert((w1 + w2).last() == w2.last());
        if w2.last().0 == d {
            assert(file_lines(w1, d) + file_lines(w2, d) =~= (file_lines(w1, d) + file_lines(
                w2.drop_last(),
                d,
            )).push(w2.last().1));
        }
    }
}

} // verus!
