//! Split-buffer model of one line of text with an explicit edit point.
//!
//! The characters left of the edit point sit in `before` in natural
//! order; the characters right of it sit in `after` in reverse order,
//! so that both sides expose the character nearest the edit point at
//! their ends and every edit at the boundary is O(1).

use vstd::prelude::*;

verus! {

/// Mathematical value of a [`Cursor`]: the text on each side of the
/// edit point, both in natural (left-to-right) order.
#[verifier::ext_equal]
pub ghost struct CursorModel {
    pub before: Seq<char>,
    pub after: Seq<char>,
}

/// The model of a cursor with no text at all.
pub open spec fn empty_cursor() -> CursorModel {
    CursorModel { before: Seq::empty(), after: Seq::empty() }
}

/// The whole line a cursor holds, in natural order.
pub open spec fn cursor_text(m: CursorModel) -> Seq<char> {
    m.before + m.after
}

/// The 1-based column of the edit point.
pub open spec fn spec_pos(m: CursorModel) -> int {
    m.before.len() as int + 1
}

/// One line of text split at the edit point.
///
/// Invariant-free: every operation is total. `after` stores its
/// characters in reverse order; the view restores natural order.
#[derive(Debug)]
pub struct Cursor {
    before: Vec<char>,
    after: Vec<char>,
}

impl View for Cursor {
    type V = CursorModel;

    closed spec fn view(&self) -> CursorModel {
        CursorModel { before: self.before@, after: self.after@.reverse() }
    }
}

impl Cursor {
    /// An empty cursor.
    pub fn new() -> (r: Cursor)
        ensures
            r@ == empty_cursor(),
    {
        let r = Cursor { before: Vec::new(), after: Vec::new() };
        proof {
            assert(r@ =~= empty_cursor());
        }
        r
    }

    /// A cursor holding `before` left of the edit point and `after`
    /// right of it, both given in natural order.
    pub fn from(before: String, after: String) -> (r: Cursor)
        ensures
            r@.before == before@,
            r@.after == after@,
    {
        let b = chars_of(before.as_str());
        let a = chars_of(after.as_str());
        let rev = reverse_chars(&a);
        let r = Cursor { before: b, after: rev };
        proof {
            assert(r@.after =~= after@);
        }
        r
    }

    /// The 1-based column of the edit point.
    pub fn pos(&self) -> (r: usize)
        requires
            self@.before.len() < usize::MAX,
        ensures
            r == spec_pos(self@),
    {
        self.before.len() + 1
    }

    /// The 1-based column of the edit point, clamped to what a
    /// terminal coordinate can hold.
    pub fn col(&self) -> (r: u16)
        ensures
            r as int == if spec_pos(self@) > 0xFFFF {
                0xFFFF as int
            } else {
                spec_pos(self@)
            },
    {
        if self.before.len() >= 0xFFFF {
            0xFFFF
        } else {
            (self.before.len() as u16) + 1
        }
    }

    /// Appends `c` left of the edit point.
    pub fn insert(&mut self, c: char)
        ensures
            final(self)@ == spec_insert(old(self)@, c),
    {
        self.before.push(c);
        proof {
            assert(final(self)@ =~= spec_insert(old(self)@, c));
        }
    }

    /// Removes the character just left of the edit point, if any.
    pub fn backspace(&mut self)
        ensures
            final(self)@ == spec_backspace(old(self)@),
    {
        self.before.pop();
        proof {
            assert(final(self)@ =~= spec_backspace(old(self)@));
        }
    }

    /// Removes the character just right of the edit point, if any.
    pub fn delete(&mut self)
        ensures
            final(self)@ == spec_delete(old(self)@),
    {
        self.after.pop();
        proof {
            if old(self).after@.len() > 0 {
                lemma_reverse_drop_last(old(self).after@);
            }
            assert(final(self)@ =~= spec_delete(old(self)@));
        }
    }

    /// Same removal as [`Cursor::delete`], kept under the name the
    /// keymap action uses.
    pub fn delete_pos(&mut self)
        ensures
            final(self)@ == spec_delete(old(self)@),
    {
        self.delete();
    }

    /// Moves the edit point one character left; a no-op at the start.
    pub fn left_char(&mut self)
        ensures
            final(self)@ == spec_left_char(old(self)@),
    {
        if self.before.len() > 0 {
            let c = self.before.pop().unwrap();
            self.after.push(c);
            proof {
                lemma_reverse_push(old(self).after@, c);
                assert(final(self)@ =~= spec_left_char(old(self)@));
            }
        } else {
            proof {
                assert(final(self)@ =~= spec_left_char(old(self)@));
            }
        }
    }

    /// Moves the edit point one character right; a no-op at the end.
    pub fn right_char(&mut self)
        ensures
            final(self)@ == spec_right_char(old(self)@),
    {
        if self.after.len() > 0 {
            let c = self.after.pop().unwrap();
            self.before.push(c);
            proof {
                lemma_reverse_drop_last(old(self).after@);
                assert(old(self)@.after[0] == c);
                assert(final(self)@ =~= spec_right_char(old(self)@));
            }
        } else {
            proof {
                assert(final(self)@ =~= spec_right_char(old(self)@));
            }
        }
    }

    /// Drops everything right of the edit point.
    pub fn clear_after(&mut self)
        ensures
            final(self)@ == spec_clear_after(old(self)@),
    {
        self.after = Vec::new();
        proof {
            assert(final(self)@ =~= spec_clear_after(old(self)@));
        }
    }

    /// Moves all text right of the edit point to its left.
    pub fn right_all(&mut self)
        ensures
            final(self)@ == spec_right_all(old(self)@),
    {
        while self.after.len() > 0
            invariant
                self.before@ + self.after@.reverse() =~= old(self)@.before + old(self)@.after,
            decreases self.after.len(),
        {
            let ghost pre = *self;
            let c = self.after.pop().unwrap();
            self.before.push(c);
            proof {
                lemma_reverse_drop_last(pre.after@);
                assert(self.before@ + self.after@.reverse() =~= pre.before@ + pre.after@.reverse());
            }
        }
        proof {
            assert(self.after@.reverse() =~= Seq::<char>::empty());
            assert(final(self)@ =~= spec_right_all(old(self)@));
        }
    }

    /// Moves all text left of the edit point to its right.
    pub fn left_all(&mut self)
        ensures
            final(self)@ == spec_left_all(old(self)@),
    {
        while self.before.len() > 0
            invariant
                self.before@ + self.after@.reverse() =~= old(self)@.before + old(self)@.after,
            decreases self.before.len(),
        {
            let ghost pre = *self;
            let c = self.before.pop().unwrap();
            self.after.push(c);
            proof {
                lemma_reverse_push(pre.after@, c);
                assert(self.before@ + self.after@.reverse() =~= pre.before@ + pre.after@.reverse());
            }
        }
        proof {
            assert(final(self)@.after =~= old(self)@.before + old(self)@.after);
            assert(final(self)@ =~= spec_left_all(old(self)@));
        }
    }

    /// Moves the edit point left to the nearest word boundary.
    ///
    /// The span between the boundary and the edit point moves
    /// wholesale to the right-hand side. The scan ignores the
    /// character directly left of the edit point, so a boundary
    /// there does not stop the move; with no boundary at all the
    /// edit point lands on the start of the line.
    pub fn left_word(&mut self)
        ensures
            final(self)@ == spec_left_word(old(self)@),
    {
        let m = self.before.len();
        if m == 0 {
            proof {
                assert(final(self)@ =~= spec_left_word(old(self)@));
            }
            return;
        }
        let pos = scan_last_boundary(&self.before, m - 1);
        proof {
            lemma_last_boundary_bounds(old(self).before@, m - 1);
            assert(self.before@ =~= old(self).before@.take(self.before@.len() as int));
            assert(self.after@ =~= old(self).after@ + old(self).before@.skip(
                self.before@.len() as int,
            ).reverse());
        }
        while self.before.len() > pos
            invariant
                pos <= self.before@.len(),
                self.before@.len() <= old(self).before@.len(),
                self.before@ =~= old(self).before@.take(self.before@.len() as int),
                self.after@ =~= old(self).after@ + old(self).before@.skip(
                    self.before@.len() as int,
                ).reverse(),
            decreases self.before.len(),
        {
            let ghost gl = self.before@.len() as int;
            let c = self.before.pop().unwrap();
            self.after.push(c);
            proof {
                assert(c == old(self).before@[gl - 1]);
                assert(self.before@ =~= old(self).before@.take(gl - 1));
                assert(self.after@ =~= old(self).after@ + old(self).before@.skip(
                    gl - 1,
                ).reverse());
            }
        }
        proof {
            lemma_reverse_append(old(self).after@, old(self).before@.skip(pos as int).reverse());
            lemma_reverse_reverse(old(self).before@.skip(pos as int));
            assert(final(self)@ =~= spec_left_word(old(self)@));
        }
    }

    /// Moves the edit point right to the nearest word boundary.
    ///
    /// Leading whitespace is skipped before the scan, and the span up
    /// to and including the boundary moves wholesale to the left-hand
    /// side; with no boundary at all the edit point lands on the end
    /// of the line.
    pub fn right_word(&mut self)
        ensures
            final(self)@ == spec_right_word(old(self)@),
    {
        let n = self.after.len();
        let ghost a = self@.after;
        let mut t: usize = 0;
        while t < n && is_space_char(self.after[n - 1 - t])
            invariant
                t <= n,
                n == self.after@.len(),
                a == self@.after,
                leading_spaces(a) == leading_spaces_from(a, t as int),
            decreases n - t,
        {
            proof {
                assert(a[t as int] == self.after@[n - 1 - t]);
            }
            t = t + 1;
        }
        proof {
            assert(t < n ==> a[t as int] == self.after@[n - 1 - t]);
            assert(leading_spaces(a) == t);
        }
        let mut i: usize = t;
        let mut found = false;
        while i < n && !found
            invariant
                t <= i <= n,
                n == self.after@.len(),
                a == self@.after,
                found ==> i < n && is_boundary(a[i as int]) && first_boundary_from(
                    a,
                    t as int,
                ) == i,
                !found ==> first_boundary_from(a, t as int) == first_boundary_from(a, i as int),
            decreases n - i + (if found {
                0int
            } else {
                1int
            }),
        {
            if is_boundary_char(self.after[n - 1 - i]) {
                proof {
                    assert(a[i as int] == self.after@[n - 1 - i]);
                }
                found = true;
            } else {
                proof {
                    assert(a[i as int] == self.after@[n - 1 - i]);
                }
                i = i + 1;
            }
        }
        let count = if found {
            i + 1
        } else {
            n
        };
        proof {
            if found {
                assert(first_boundary_from(a, t as int) == i);
            } else {
                assert(first_boundary_from(a, t as int) == -1);
            }
        }
        self.move_right_n(count);
        proof {
            assert(final(self)@ =~= spec_right_word(old(self)@));
        }
    }

    /// Moves the first `count` characters of the right-hand side to
    /// the left-hand side.
    fn move_right_n(&mut self, count: usize)
        requires
            count <= old(self)@.after.len(),
        ensures
            final(self)@.before == old(self)@.before + old(self)@.after.take(count as int),
            final(self)@.after == old(self)@.after.skip(count as int),
    {
        let mut moved: usize = 0;
        while moved < count
            invariant
                moved <= count,
                count <= old(self)@.after.len(),
                self.before@ =~= old(self).before@ + old(self)@.after.take(moved as int),
                self.after@ =~= old(self).after@.take((old(self).after@.len() - moved) as int),
            decreases count - moved,
        {
            let ghost pre = *self;
            let c = self.after.pop().unwrap();
            self.before.push(c);
            proof {
                assert(c == old(self)@.after[moved as int]);
            }
            moved = moved + 1;
            proof {
                assert(self.before@ =~= old(self).before@ + old(self)@.after.take(moved as int));
                assert(self.after@ =~= old(self).after@.take(
                    (old(self).after@.len() - moved) as int,
                ));
            }
        }
        proof {
            assert(final(self)@.after =~= old(self)@.after.skip(count as int));
        }
    }

    /// The whole line in natural order.
    pub fn display(&self) -> (r: String)
        ensures
            r@ == cursor_text(self@),
    {
        let mut s = string_with_chars(&self.before);
        let mut i: usize = self.after.len();
        proof {
            assert(s@ + self@.after.take(0) =~= s@);
        }
        while i > 0
            invariant
                i <= self.after.len(),
                s@ =~= self@.before + self@.after.take(self@.after.len() - i),
            decreases i,
        {
            i = i - 1;
            let c = self.after[i];
            string_push(&mut s, c);
            proof {
                assert(self@.after[self@.after.len() - 1 - i] == c);
                assert(s@ =~= self@.before + self@.after.take(self@.after.len() - i));
            }
        }
        proof {
            assert(self@.after.take(self@.after.len() as int) =~= self@.after);
        }
        s
    }
}

impl Clone for Cursor {
    /// An independent copy with the same text and edit point.
    fn clone(&self) -> (r: Self)
        ensures
            r@ == self@,
    {
        let before = clone_chars(&self.before);
        let after = clone_chars(&self.after);
        let r = Cursor { before, after };
        proof {
            assert(r@ =~= self@);
        }
        r
    }
}

impl PartialEq for Cursor {
    fn eq(&self, other: &Cursor) -> (r: bool) {
        let r = chars_eq(&self.before, &other.before) && chars_eq(&self.after, &other.after);
        proof {
            lemma_reverse_reverse(self.after@);
            lemma_reverse_reverse(other.after@);
            if r {
                assert(self@ =~= other@);
            }
        }
        r
    }
}

impl vstd::std_specs::cmp::PartialEqSpecImpl for Cursor {
    open spec fn obeys_eq_spec() -> bool {
        true
    }

    open spec fn eq_spec(&self, other: &Cursor) -> bool {
        self@ == other@
    }
}

/// What [`Cursor::insert`] does to the model.
pub open spec fn spec_insert(m: CursorModel, c: char) -> CursorModel {
    CursorModel { before: m.before.push(c), ..m }
}

/// What [`Cursor::backspace`] does to the model.
pub open spec fn spec_backspace(m: CursorModel) -> CursorModel {
    if m.before.len() == 0 {
        m
    } else {
        CursorModel { before: m.before.drop_last(), ..m }
    }
}

/// What [`Cursor::delete`] does to the model.
pub open spec fn spec_delete(m: CursorModel) -> CursorModel {
    if m.after.len() == 0 {
        m
    } else {
        CursorModel { after: m.after.skip(1), ..m }
    }
}

/// What [`Cursor::left_char`] does to the model.
pub open spec fn spec_left_char(m: CursorModel) -> CursorModel {
    if m.before.len() == 0 {
        m
    } else {
        CursorModel { before: m.before.drop_last(), after: seq![m.before.last()] + m.after }
    }
}

/// What [`Cursor::right_char`] does to the model.
pub open spec fn spec_right_char(m: CursorModel) -> CursorModel {
    if m.after.len() == 0 {
        m
    } else {
        CursorModel { before: m.before.push(m.after[0]), after: m.after.skip(1) }
    }
}

/// Whether `c` is whitespace: the Unicode `White_Space` characters.
pub open spec fn is_space(c: char) -> bool {
    c == '\u{0009}' || c == '\u{000A}' || c == '\u{000B}' || c == '\u{000C}' || c == '\u{000D}'
        || c == '\u{0020}' || c == '\u{0085}' || c == '\u{00A0}' || c == '\u{1680}' || c
        == '\u{2000}' || c == '\u{2001}' || c == '\u{2002}' || c == '\u{2003}' || c == '\u{2004}'
        || c == '\u{2005}' || c == '\u{2006}' || c == '\u{2007}' || c == '\u{2008}' || c
        == '\u{2009}' || c == '\u{200A}' || c == '\u{2028}' || c == '\u{2029}' || c == '\u{202F}'
        || c == '\u{205F}' || c == '\u{3000}'
}

/// Whether `c` ends a word: whitespace or one of the separators
/// `.`, `\`, `/`, `,`.
pub open spec fn is_boundary(c: char) -> bool {
    is_space(c) || c == '.' || c == '\\' || c == '/' || c == ','
}

/// The number of whitespace characters at the front of `a`, counted
/// from position `k` on.
pub open spec fn leading_spaces_from(a: Seq<char>, k: int) -> int
    decreases a.len() - k,
{
    if k < 0 || k >= a.len() || !is_space(a[k]) {
        k
    } else {
        leading_spaces_from(a, k + 1)
    }
}

/// The number of whitespace characters at the front of `a`.
pub open spec fn leading_spaces(a: Seq<char>) -> int {
    leading_spaces_from(a, 0)
}

/// The index of the first boundary character of `a` at position `k`
/// or later, or -1 if there is none.
pub open spec fn first_boundary_from(a: Seq<char>, k: int) -> int
    decreases a.len() - k,
{
    if k < 0 || k >= a.len() {
        -1
    } else if is_boundary(a[k]) {
        k
    } else {
        first_boundary_from(a, k + 1)
    }
}

/// The index of the last boundary character of `b` strictly below
/// position `k`, or -1 if there is none.
pub open spec fn last_boundary_before(b: Seq<char>, k: int) -> int
    decreases k,
{
    if k <= 0 || k > b.len() {
        -1
    } else if is_boundary(b[k - 1]) {
        k - 1
    } else {
        last_boundary_before(b, k - 1)
    }
}

/// What [`Cursor::left_word`] does to the model: the span after the
/// last boundary left of the edit point (the character directly left
/// of it not counted) moves to the right-hand side.
pub open spec fn spec_left_word(m: CursorModel) -> CursorModel {
    if m.before.len() == 0 {
        m
    } else {
        let pos = last_boundary_before(m.before, m.before.len() - 1) + 1;
        CursorModel { before: m.before.take(pos), after: m.before.skip(pos) + m.after }
    }
}

/// What [`Cursor::right_word`] does to the model: after skipping
/// leading whitespace, the span up to and including the first
/// boundary moves to the left-hand side; with no boundary the whole
/// right-hand side moves.
pub open spec fn spec_right_word(m: CursorModel) -> CursorModel {
    let i = first_boundary_from(m.after, leading_spaces(m.after));
    if i == -1 {
        CursorModel { before: m.before + m.after, after: Seq::empty() }
    } else {
        CursorModel { before: m.before + m.after.take(i + 1), after: m.after.skip(i + 1) }
    }
}

/// What [`Cursor::clear_after`] does to the model.
pub open spec fn spec_clear_after(m: CursorModel) -> CursorModel {
    CursorModel { after: Seq::empty(), ..m }
}

/// What [`Cursor::right_all`] does to the model.
pub open spec fn spec_right_all(m: CursorModel) -> CursorModel {
    CursorModel { before: m.before + m.after, after: Seq::empty() }
}

/// What [`Cursor::left_all`] does to the model.
pub open spec fn spec_left_all(m: CursorModel) -> CursorModel {
    CursorModel { before: Seq::empty(), after: m.before + m.after }
}

/// Runtime test for [`is_space`].
pub(crate) fn is_space_char(c: char) -> (r: bool)
    ensures
        r == is_space(c),
{
    c == '\u{0009}' || c == '\u{000A}' || c == '\u{000B}' || c == '\u{000C}' || c == '\u{000D}'
        || c == '\u{0020}' || c == '\u{0085}' || c == '\u{00A0}' || c == '\u{1680}' || c
        == '\u{2000}' || c == '\u{2001}' || c == '\u{2002}' || c == '\u{2003}' || c == '\u{2004}'
        || c == '\u{2005}' || c == '\u{2006}' || c == '\u{2007}' || c == '\u{2008}' || c
        == '\u{2009}' || c == '\u{200A}' || c == '\u{2028}' || c == '\u{2029}' || c == '\u{202F}'
        || c == '\u{205F}' || c == '\u{3000}'
}

/// Runtime test for [`is_boundary`].
fn is_boundary_char(c: char) -> (r: bool)
    ensures
        r == is_boundary(c),
{
    is_space_char(c) || c == '.' || c == '\\' || c == '/' || c == ','
}

/// Finds the position just after the last boundary character of `v`
/// strictly below `end`, or 0 if there is none.
fn scan_last_boundary(v: &Vec<char>, end: usize) -> (r: usize)
    requires
        end <= v@.len(),
    ensures
        r == last_boundary_before(v@, end as int) + 1,
{
    let mut k: usize = end;
    while k > 0
        invariant
            k <= end <= v@.len(),
            last_boundary_before(v@, end as int) == last_boundary_before(v@, k as int),
        decreases k,
    {
        if is_boundary_char(v[k - 1]) {
            return k;
        }
        k = k - 1;
    }
    0
}

/// Movement never changes the line: every movement operation only
/// relocates text between the two sides of the edit point, so the
/// displayed text is preserved.
pub proof fn lemma_moves_preserve_text(m: CursorModel)
    ensures
        cursor_text(spec_left_char(m)) == cursor_text(m),
        cursor_text(spec_right_char(m)) == cursor_text(m),
        cursor_text(spec_left_word(m)) == cursor_text(m),
        cursor_text(spec_right_word(m)) == cursor_text(m),
        cursor_text(spec_left_all(m)) == cursor_text(m),
        cursor_text(spec_right_all(m)) == cursor_text(m),
{
    assert(cursor_text(spec_left_char(m)) =~= cursor_text(m));
    assert(cursor_text(spec_right_char(m)) =~= cursor_text(m));
    if m.before.len() > 0 {
        lemma_last_boundary_bounds(m.before, m.before.len() - 1);
    }
    assert(cursor_text(spec_left_word(m)) =~= cursor_text(m));
    let t = leading_spaces(m.after);
    lemma_leading_spaces_bounds(m.after, 0);
    lemma_first_boundary_bounds(m.after, t);
    assert(cursor_text(spec_right_word(m)) =~= cursor_text(m));
    assert(cursor_text(spec_left_all(m)) =~= cursor_text(m));
    assert(cursor_text(spec_right_all(m)) =~= cursor_text(m));
}

/// The first-boundary scan lands inside the sequence or reports -1.
proof fn lemma_first_boundary_bounds(a: Seq<char>, k: int)
    requires
        0 <= k,
    ensures
        first_boundary_from(a, k) == -1 || k <= first_boundary_from(a, k) < a.len(),
    decreases a.len() - k,
{
    if k < a.len() && !is_boundary(a[k]) {
        lemma_first_boundary_bounds(a, k + 1);
    }
}

/// Laws of single-character movement: moving left then right, or
/// right then left, across a non-empty boundary is the identity.
pub proof fn lemma_char_moves_identity(m: CursorModel)
    ensures
        m.before.len() > 0 ==> spec_right_char(spec_left_char(m)) == m,
        m.after.len() > 0 ==> spec_left_char(spec_right_char(m)) == m,
{
    if m.before.len() > 0 {
        assert(spec_right_char(spec_left_char(m)) =~= m);
    }
    if m.after.len() > 0 {
        assert(spec_left_char(spec_right_char(m)) =~= m);
    }
}

/// Laws of whole-line movement: the edit point sits at column 1 after
/// `left_all` and at column length + 1 after `right_all`; the line is
/// preserved by `left_all` then `right_all`, and on a cursor whose
/// right-hand side is empty that round trip is the identity.
pub proof fn lemma_all_moves(m: CursorModel)
    ensures
        spec_pos(spec_left_all(m)) == 1,
        spec_pos(spec_right_all(m)) == cursor_text(m).len() + 1,
        cursor_text(spec_right_all(spec_left_all(m))) == cursor_text(m),
        m.after.len() == 0 ==> spec_right_all(spec_left_all(m)) == m,
{
    assert(cursor_text(spec_right_all(spec_left_all(m))) =~= cursor_text(m));
    if m.after.len() == 0 {
        assert(spec_right_all(spec_left_all(m)) =~= m);
    }
}

/// Word movement is total: on an empty left-hand side `left_word` is
/// the identity, and on an empty right-hand side so is `right_word`.
pub proof fn lemma_word_moves_empty(m: CursorModel)
    ensures
        m.before.len() == 0 ==> spec_left_word(m) == m,
        m.after.len() == 0 ==> spec_right_word(m) == m,
{
    if m.after.len() == 0 {
        assert(spec_right_word(m) =~= m);
    }
}

/// `right_word` on a right-hand side without any boundary character
/// (whitespace or separator) moves all of it to the left-hand side.
pub proof fn lemma_right_word_no_boundary(m: CursorModel)
    requires
        forall|i: int| 0 <= i < m.after.len() ==> !is_boundary(#[trigger] m.after[i]),
    ensures
        spec_right_word(m).before == m.before + m.after,
        spec_right_word(m).after == Seq::<char>::empty(),
{
    let t = leading_spaces(m.after);
    lemma_leading_spaces_bounds(m.after, 0);
    lemma_first_boundary_none(m.after, t);
}

/// `leading_spaces_from` stays within the sequence.
proof fn lemma_leading_spaces_bounds(a: Seq<char>, k: int)
    requires
        0 <= k <= a.len(),
    ensures
        k <= leading_spaces_from(a, k) <= a.len(),
    decreases a.len() - k,
{
    if k < a.len() && is_space(a[k]) {
        lemma_leading_spaces_bounds(a, k + 1);
    }
}

/// The last-boundary scan stays strictly below its bound.
proof fn lemma_last_boundary_bounds(b: Seq<char>, k: int)
    requires
        0 <= k <= b.len(),
    ensures
        -1 <= last_boundary_before(b, k) < k + 1,
        k > 0 ==> last_boundary_before(b, k) < k,
    decreases k,
{
    if k > 0 && !is_boundary(b[k - 1]) {
        lemma_last_boundary_bounds(b, k - 1);
    }
}

/// With no boundary character from `k` on, the scan finds nothing.
proof fn lemma_first_boundary_none(a: Seq<char>, k: int)
    requires
        forall|i: int| k <= i < a.len() ==> !is_boundary(#[trigger] a[i]),
    ensures
        first_boundary_from(a, k) == -1,
    decreases a.len() - k,
{
    if 0 <= k < a.len() {
        lemma_first_boundary_none(a, k + 1);
    }
}

/// Reversal distributes over concatenation, swapping the halves.
proof fn lemma_reverse_append(x: Seq<char>, y: Seq<char>)
    ensures
        (x + y).reverse() =~= y.reverse() + x.reverse(),
{
}

/// Reversing after dropping the last element drops the first element
/// of the reversal.
proof fn lemma_reverse_drop_last(s: Seq<char>)
    requires
        s.len() > 0,
    ensures
        s.drop_last().reverse() =~= s.reverse().skip(1),
        s.reverse()[0] == s.last(),
{
}

/// Reversing after a push puts the pushed element first.
proof fn lemma_reverse_push(s: Seq<char>, c: char)
    ensures
        s.push(c).reverse() =~= seq![c] + s.reverse(),
{
}

/// Reversing twice gives the sequence back.
proof fn lemma_reverse_reverse(s: Seq<char>)
    ensures
        s.reverse().reverse() =~= s,
{
}

/// The characters of a string slice, in order.
fn chars_of(s: &str) -> (r: Vec<char>)
    ensures
        r@ == s@,
{
    let n = s.unicode_len();
    let mut r: Vec<char> = Vec::new();
    let mut i: usize = 0;
    while i < n
        invariant
            i <= n,
            n == s@.len(),
            r@ =~= s@.take(i as int),
        decreases n - i,
    {
        let c = s.get_char(i);
        r.push(c);
        i = i + 1;
        proof {
            assert(r@ =~= s@.take(i as int));
        }
    }
    proof {
        assert(s@.take(n as int) =~= s@);
    }
    r
}

/// A copy of `v` with the characters in reverse order.
fn reverse_chars(v: &Vec<char>) -> (r: Vec<char>)
    ensures
        r@ == v@.reverse(),
{
    let mut r: Vec<char> = Vec::new();
    let mut i: usize = v.len();
    while i > 0
        invariant
            i <= v@.len(),
            r@ =~= v@.skip(i as int).reverse(),
        decreases i,
    {
        i = i - 1;
        r.push(v[i]);
        proof {
            assert(r@ =~= v@.skip(i as int).reverse());
        }
    }
    proof {
        assert(v@.skip(0) =~= v@);
    }
    r
}

/// An element-by-element copy of `v`.
fn clone_chars(v: &Vec<char>) -> (r: Vec<char>)
    ensures
        r@ == v@,
{
    let mut r: Vec<char> = Vec::new();
    let mut i: usize = 0;
    while i < v.len()
        invariant
            i <= v@.len(),
            r@ =~= v@.take(i as int),
        decreases v@.len() - i,
    {
        r.push(v[i]);
        i = i + 1;
        proof {
            assert(r@ =~= v@.take(i as int));
        }
    }
    proof {
        assert(v@.take(v@.len() as int) =~= v@);
    }
    r
}

/// Whether two character vectors hold the same characters.
fn chars_eq(a: &Vec<char>, b: &Vec<char>) -> (r: bool)
    ensures
        r == (a@ == b@),
{
    if a.len() != b.len() {
        proof {
            assert(a@ != b@);
        }
        return false;
    }
    let mut i: usize = 0;
    while i < a.len()
        invariant
            i <= a@.len(),
            a@.len() == b@.len(),
            forall|j: int| 0 <= j < i ==> a@[j] == b@[j],
        decreases a@.len() - i,
    {
        if a[i] != b[i] {
            return false;
        }
        i = i + 1;
    }
    proof {
        assert(a@ =~= b@);
    }
    true
}

/// A fresh string holding exactly the characters of `v`, in order.
fn string_with_chars(v: &Vec<char>) -> (r: String)
    ensures
        r@ == v@,
{
    let mut s = String::new();
    let mut i: usize = 0;
    while i < v.len()
        invariant
            i <= v@.len(),
            s@ =~= v@.take(i as int),
        decreases v@.len() - i,
    {
        string_push(&mut s, v[i]);
        i = i + 1;
        proof {
            assert(s@ =~= v@.take(i as int));
        }
    }
    proof {
        assert(v@.take(v@.len() as int) =~= v@);
    }
    s
}

/// Relies on `String::push`: appends the given character to the end of
/// the string.
#[verifier::external_body]
pub(crate) fn string_push(s: &mut String, c: char)
    ensures
        final(s)@ == old(s)@.push(c),
{
    s.push(c)
}

} // verus!
