//! Append-only log of the lines exchanged with the child process,
//! with a backward/forward recall position over the lines that were
//! sent to it.

use crate::cursor::{empty_cursor, Cursor, CursorModel};
use vstd::prelude::*;

verus! {

/// One line recorded in the history: a line sent to the child process
/// or a line received from it.
#[derive(Debug)]
pub enum Source {
    ChildInput(Cursor),
    ChildOutput(Cursor),
}

/// Mathematical value of a [`Source`].
#[verifier::ext_equal]
pub ghost enum SourceModel {
    Input(CursorModel),
    Output(CursorModel),
}

impl View for Source {
    type V = SourceModel;

    open spec fn view(&self) -> SourceModel {
        match self {
            Source::ChildInput(c) => SourceModel::Input(c@),
            Source::ChildOutput(c) => SourceModel::Output(c@),
        }
    }
}

/// The line a history entry records, whichever way it travelled.
pub open spec fn source_cursor(sm: SourceModel) -> CursorModel {
    match sm {
        SourceModel::Input(c) => c,
        SourceModel::Output(c) => c,
    }
}

impl Source {
    /// The recorded line.
    pub fn cursor(&self) -> (r: &Cursor)
        ensures
            r@ == source_cursor(self@),
    {
        match self {
            Source::ChildInput(c) => c,
            Source::ChildOutput(c) => c,
        }
    }
}

/// Mathematical value of a [`History`]: the recorded entries, oldest
/// first, and the recall position.
#[verifier::ext_equal]
pub ghost struct HistoryModel {
    pub entries: Seq<SourceModel>,
    pub pos: int,
}

/// The cursors of the entries that were sent to the child, oldest
/// first.
pub open spec fn input_seq(entries: Seq<SourceModel>) -> Seq<CursorModel>
    decreases entries.len(),
{
    if entries.len() == 0 {
        Seq::empty()
    } else {
        (match entries[0] {
            SourceModel::Input(c) => seq![c],
            SourceModel::Output(_) => Seq::empty(),
        }) + input_seq(entries.skip(1))
    }
}

/// What [`History::get_prev`] does to the model: the recall position
/// steps one further into the past, saturating at the number of sent
/// entries.
pub open spec fn spec_prev(h: HistoryModel) -> HistoryModel {
    if h.pos < input_seq(h.entries).len() {
        HistoryModel { pos: h.pos + 1, ..h }
    } else {
        h
    }
}

/// What [`History::get_prev`] returns: the sent entry at the new
/// recall depth, or an empty cursor if nothing was ever sent.
pub open spec fn spec_prev_cursor(h: HistoryModel) -> CursorModel {
    let inputs = input_seq(h.entries);
    if inputs.len() == 0 {
        empty_cursor()
    } else {
        let depth = if h.pos < inputs.len() {
            h.pos + 1
        } else {
            inputs.len() as int
        };
        inputs[inputs.len() - depth]
    }
}

/// What [`History::get_next`] does to the model: the recall position
/// steps one back towards the present, saturating at 0.
pub open spec fn spec_next(h: HistoryModel) -> HistoryModel {
    if h.pos > 0 {
        HistoryModel { pos: h.pos - 1, ..h }
    } else {
        h
    }
}

/// What [`History::get_next`] returns: the sent entry at the new
/// recall depth, or an empty cursor once the depth reaches 0, which
/// means "not recalling".
pub open spec fn spec_next_cursor(h: HistoryModel) -> CursorModel {
    let inputs = input_seq(h.entries);
    let p = if h.pos > 0 {
        h.pos - 1
    } else {
        0
    };
    let k = if p < inputs.len() {
        p
    } else {
        inputs.len() as int
    };
    if k <= 0 {
        empty_cursor()
    } else {
        inputs[inputs.len() - k]
    }
}

/// Append-only record of exchanged lines plus a recall position.
#[derive(Debug)]
pub struct History {
    entries: Vec<Source>,
    pos: usize,
}

impl View for History {
    type V = HistoryModel;

    closed spec fn view(&self) -> HistoryModel {
        HistoryModel {
            entries: self.entries@.map_values(|s: Source| s@),
            pos: self.pos as int,
        }
    }
}

impl History {
    /// A history with no entries, not recalling.
    pub fn new() -> (r: History)
        ensures
            r@.entries == Seq::<SourceModel>::empty(),
            r@.pos == 0,
    {
        let r = History { entries: Vec::new(), pos: 0 };
        proof {
            assert(r@.entries =~= Seq::<SourceModel>::empty());
        }
        r
    }

    /// Appends one entry; the recall position does not move.
    pub fn push(&mut self, value: Source)
        ensures
            final(self)@.entries == old(self)@.entries.push(value@),
            final(self)@.pos == old(self)@.pos,
    {
        self.entries.push(value);
        proof {
            assert(final(self)@.entries =~= old(self)@.entries.push(value@));
        }
    }

    /// How many entries were recorded.
    pub fn len(&self) -> (r: usize)
        ensures
            r == self@.entries.len(),
    {
        self.entries.len()
    }

    /// The `i`-th oldest entry.
    pub fn get(&self, i: usize) -> (r: &Source)
        requires
            i < self@.entries.len(),
        ensures
            r@ == self@.entries[i as int],
    {
        &self.entries[i]
    }

    /// Restartable oldest-first iteration over the entries.
    pub fn values(&self) -> (r: HistoryIterator<'_>)
        ensures
            r.entries() == self@.entries,
            r.index() == 0,
    {
        HistoryIterator { hist: self, idx: 0 }
    }

    /// Sets the recall position back to 0 ("not recalling").
    pub fn reset_recall(&mut self)
        ensures
            final(self)@.entries == old(self)@.entries,
            final(self)@.pos == 0,
    {
        self.pos = 0;
    }

    /// Steps the recall position one further into the past, among the
    /// sent entries only, and returns the line at that depth; an
    /// empty cursor if nothing was ever sent.
    pub fn get_prev(&mut self) -> (r: Cursor)
        ensures
            final(self)@ == spec_prev(old(self)@),
            r@ == spec_prev_cursor(old(self)@),
    {
        let n = self.input_count();
        let depth = if self.pos < n {
            self.pos + 1
        } else {
            n
        };
        let r = if n == 0 {
            Cursor::new()
        } else {
            self.nth_input(n - depth)
        };
        if self.pos < n {
            self.pos = self.pos + 1;
        }
        proof {
            assert(final(self)@ =~= spec_prev(old(self)@));
        }
        r
    }

    /// Steps the recall position one back towards the present and
    /// returns the line at that depth; an empty cursor once the
    /// position reaches 0.
    pub fn get_next(&mut self) -> (r: Cursor)
        ensures
            final(self)@ == spec_next(old(self)@),
            r@ == spec_next_cursor(old(self)@),
    {
        if self.pos > 0 {
            self.pos = self.pos - 1;
        }
        let n = self.input_count();
        let k = if self.pos < n {
            self.pos
        } else {
            n
        };
        let r = if k == 0 {
            Cursor::new()
        } else {
            self.nth_input(n - k)
        };
        proof {
            assert(final(self)@ =~= spec_next(old(self)@));
        }
        r
    }

    /// How many of the entries were sent to the child.
    fn input_count(&self) -> (r: usize)
        ensures
            r == input_seq(self@.entries).len(),
    {
        let ghost s = self@.entries;
        let mut j: usize = 0;
        let mut k: usize = 0;
        while j < self.entries.len()
            invariant
                j <= self.entries@.len(),
                s == self@.entries,
                s.len() == self.entries@.len(),
                k == input_seq(s.take(j as int)).len(),
                k <= j,
            decreases self.entries@.len() - j,
        {
            proof {
                lemma_input_take_step(s, j as int);
            }
            let is_input = match &self.entries[j] {
                Source::ChildInput(_) => true,
                Source::ChildOutput(_) => false,
            };
            if is_input {
                k = k + 1;
            }
            j = j + 1;
        }
        proof {
            assert(s.take(s.len() as int) =~= s);
        }
        k
    }

    /// A copy of the `i`-th oldest sent entry.
    fn nth_input(&self, i: usize) -> (r: Cursor)
        requires
            i < input_seq(self@.entries).len(),
        ensures
            r@ == input_seq(self@.entries)[i as int],
    {
        let ghost s = self@.entries;
        let mut j: usize = 0;
        let mut k: usize = 0;
        while j < self.entries.len()
            invariant
                j <= self.entries@.len(),
                s == self@.entries,
                s.len() == self.entries@.len(),
                i < input_seq(s).len(),
                k == input_seq(s.take(j as int)).len(),
                k <= i,
            decreases self.entries@.len() - j,
        {
            proof {
                lemma_input_take_step(s, j as int);
            }
            let c = match &self.entries[j] {
                Source::ChildInput(c) => Some(c),
                Source::ChildOutput(_) => None,
            };
            if let Some(c) = c {
                if k == i {
                    let r = c.clone();
                    proof {
                        lemma_input_split(s, j + 1);
                        assert(input_seq(s)[i as int] == input_seq(s.take(j + 1))[i as int]);
                    }
                    return r;
                }
                k = k + 1;
            }
            j = j + 1;
        }
        proof {
            assert(s.take(s.len() as int) =~= s);
        }
        vstd::pervasive::unreached()
    }
}

/// Restartable oldest-first walk over a [`History`].
pub struct HistoryIterator<'a> {
    hist: &'a History,
    idx: usize,
}

impl<'a> HistoryIterator<'a> {
    /// The entries being walked.
    pub closed spec fn entries(&self) -> Seq<SourceModel> {
        self.hist@.entries
    }

    /// How many entries were already handed out.
    pub closed spec fn index(&self) -> int {
        self.idx as int
    }

    /// The next entry, oldest first, or `None` at the end.
    pub fn next(&mut self) -> (r: Option<&'a Source>)
        ensures
            final(self).entries() == old(self).entries(),
            match r {
                Some(s) => old(self).index() < old(self).entries().len() && s@ == old(
                    self,
                ).entries()[old(self).index()] && final(self).index() == old(self).index() + 1,
                None => old(self).index() >= old(self).entries().len() && final(self).index()
                    == old(self).index(),
            },
    {
        if self.idx < self.hist.entries.len() {
            let s = &self.hist.entries[self.idx];
            self.idx = self.idx + 1;
            Some(s)
        } else {
            None
        }
    }
}

/// `n` recall steps into the past.
pub open spec fn apply_prev_n(h: HistoryModel, n: nat) -> HistoryModel
    decreases n,
{
    if n == 0 {
        h
    } else {
        spec_prev(apply_prev_n(h, (n - 1) as nat))
    }
}

/// `n` recall steps back towards the present.
pub open spec fn apply_next_n(h: HistoryModel, n: nat) -> HistoryModel
    decreases n,
{
    if n == 0 {
        h
    } else {
        spec_next(apply_next_n(h, (n - 1) as nat))
    }
}

/// Law of recall: starting outside a recall, `get_prev` taken `n`
/// times and then `get_next` taken `n` times, with `n` at most the
/// number of sent entries, puts the recall position back to 0, leaves
/// the entries untouched, and makes the last `get_next` hand back the
/// same cursor a `get_next` before the recall would have: the empty
/// one.
pub proof fn lemma_recall_round_trip(h: HistoryModel, n: nat)
    requires
        h.pos == 0,
        n <= input_seq(h.entries).len(),
    ensures
        apply_next_n(apply_prev_n(h, n), n) == h,
        n > 0 ==> spec_next_cursor(apply_next_n(apply_prev_n(h, n), (n - 1) as nat))
            == spec_next_cursor(h),
{
    lemma_prev_n_pos(h, n);
    let hp = apply_prev_n(h, n);
    lemma_next_n_pos(hp, n);
    assert(apply_next_n(hp, n) =~= h);
    if n > 0 {
        lemma_next_n_pos(hp, (n - 1) as nat);
        assert(apply_next_n(hp, (n - 1) as nat).pos == 1);
        assert(spec_next_cursor(apply_next_n(hp, (n - 1) as nat)) == empty_cursor());
        assert(spec_next_cursor(h) == empty_cursor());
    }
}

/// Stepping into the past `n` times from position `p` with room to
/// spare lands on `p + n` and keeps the entries.
proof fn lemma_prev_n_pos(h: HistoryModel, n: nat)
    requires
        0 <= h.pos,
        h.pos + n <= input_seq(h.entries).len(),
    ensures
        apply_prev_n(h, n).pos == h.pos + n,
        apply_prev_n(h, n).entries == h.entries,
    decreases n,
{
    if n > 0 {
        lemma_prev_n_pos(h, (n - 1) as nat);
    }
}

/// Stepping back towards the present `n` times from position at
/// least `n` lands `n` lower and keeps the entries.
proof fn lemma_next_n_pos(h: HistoryModel, n: nat)
    requires
        n <= h.pos,
    ensures
        apply_next_n(h, n).pos == h.pos - n,
        apply_next_n(h, n).entries == h.entries,
    decreases n,
{
    if n > 0 {
        lemma_next_n_pos(h, (n - 1) as nat);
    }
}

/// Taking one more entry extends the sent-entry sequence exactly when
/// that entry was sent.
proof fn lemma_input_take_step(s: Seq<SourceModel>, j: int)
    requires
        0 <= j < s.len(),
    ensures
        input_seq(s.take(j + 1)) == input_seq(s.take(j)) + (match s[j] {
            SourceModel::Input(c) => seq![c],
            SourceModel::Output(_) => Seq::<CursorModel>::empty(),
        }),
{
    let t = s.take(j + 1);
    lemma_input_split(t, j);
    assert(t.take(j) =~= s.take(j));
    let u = seq![s[j]];
    assert(t.skip(j) =~= u);
    assert(u.len() == 1 && u[0] == s[j]);
    assert(u.skip(1) =~= Seq::<SourceModel>::empty());
    assert(input_seq(u.skip(1)) == Seq::<CursorModel>::empty());
    assert(input_seq(u) =~= (match s[j] {
        SourceModel::Input(c) => seq![c],
        SourceModel::Output(_) => Seq::<CursorModel>::empty(),
    }));
}

/// The sent-entry sequence splits at any position.
proof fn lemma_input_split(s: Seq<SourceModel>, j: int)
    requires
        0 <= j <= s.len(),
    ensures
        input_seq(s) == input_seq(s.take(j)) + input_seq(s.skip(j)),
    decreases j,
{
    if j == 0 {
        assert(s.take(0) =~= Seq::<SourceModel>::empty());
        assert(s.skip(0) =~= s);
        assert(input_seq(s) =~= input_seq(s.take(0)) + input_seq(s.skip(0)));
    } else {
        lemma_input_split(s, j - 1);
        let u = s.skip(j - 1);
        assert(u.len() > 0);
        assert(u[0] == s[j - 1]);
        assert(u.skip(1) =~= s.skip(j));
        assert(input_seq(u) == (match u[0] {
            SourceModel::Input(c) => seq![c],
            SourceModel::Output(_) => Seq::<CursorModel>::empty(),
        }) + input_seq(s.skip(j)));
        lemma_input_take_growth(s, j);
        assert(input_seq(s) =~= input_seq(s.take(j)) + input_seq(s.skip(j)));
    }
}

/// Peeling the split point off the left half of a split.
proof fn lemma_input_take_growth(s: Seq<SourceModel>, j: int)
    requires
        0 < j <= s.len(),
    ensures
        input_seq(s.take(j)) == input_seq(s.take(j - 1)) + (match s[j - 1] {
            SourceModel::Input(c) => seq![c],
            SourceModel::Output(_) => Seq::<CursorModel>::empty(),
        }),
    decreases j,
{
    if j == 1 {
        assert(s.take(0) =~= Seq::<SourceModel>::empty());
        assert(s.take(1) =~= seq![s[0]]);
        assert(seq![s[0]].skip(1) =~= Seq::<SourceModel>::empty());
        assert(input_seq(s.take(j)) =~= input_seq(s.take(j - 1)) + (match s[j - 1] {
            SourceModel::Input(c) => seq![c],
            SourceModel::Output(_) => Seq::<CursorModel>::empty(),
        }));
    } else {
        lemma_input_take_growth(s.skip(1), j - 1);
        let t = s.take(j);
        assert(t.len() > 0);
        assert(t[0] == s[0]);
        assert(t.skip(1) =~= s.skip(1).take(j - 1));
        assert(s.take(j - 1).skip(1) =~= s.skip(1).take(j - 2));
        assert(s.skip(1)[j - 2] == s[j - 1]);
        assert(input_seq(s.take(j)) =~= input_seq(s.take(j - 1)) + (match s[j - 1] {
            SourceModel::Input(c) => seq![c],
            SourceModel::Output(_) => Seq::<CursorModel>::empty(),
        }));
    }
}

} // verus!
