//! One line of the buffer, indexed by grapheme columns.

use crate::text::{
    columns, concat_range, graphemes, graphemes_of, head, lemma_empty_columns, lemma_flatten_add, lemma_single_line_parts, single_line, lemma_head_tail, push_char, segmented, tail, views,
};
use vstd::prelude::*;

verus! {

/// What a cluster shows on screen: a tab becomes four spaces.
pub open spec fn expand(g: Seq<char>) -> Seq<char> {
    if g.len() > 0 && g[0] == '\t' {
        seq![' ', ' ', ' ', ' ']
    } else {
        g
    }
}

/// The visible text of columns `[start, end)` of `s`, both clamped to the text.
pub open spec fn shown(s: Seq<char>, start: int, end: int) -> Seq<char> {
    let e = if end < columns(s) { end } else { columns(s) as int };
    let b = if start < e { start } else { e };
    graphemes_of(s).subrange(b, e).map_values(|g: Seq<char>| expand(g)).flatten()
}

/// The text after inserting `c` at column `at` (appending past the end).
pub open spec fn inserted(s: Seq<char>, at: int, c: char) -> Seq<char> {
    if at >= columns(s) {
        s.push(c)
    } else {
        head(s, at) + seq![c] + tail(s, at)
    }
}

/// The text after removing the cluster at column `at` (unchanged past the end).
pub open spec fn removed(s: Seq<char>, at: int) -> Seq<char> {
    if at >= columns(s) {
        s
    } else {
        head(s, at) + tail(s, at + 1)
    }
}

/// Column `at` clamped to the text.
pub open spec fn clamp_column(s: Seq<char>, at: int) -> int {
    if at < columns(s) {
        at
    } else {
        columns(s) as int
    }
}

/// Past column `k`, the tail is cluster `k` followed by the tail past `k + 1`.
proof fn lemma_tail_step(s: Seq<char>, k: int)
    requires
        0 <= k < columns(s),
    ensures
        tail(s, k) == graphemes_of(s)[k] + tail(s, k + 1),
{
    let g = graphemes_of(s);
    assert(g.skip(k) == seq![g[k]] + g.skip(k + 1));
    lemma_flatten_add(seq![g[k]], g.skip(k + 1));
    seq![g[k]].lemma_flatten_one_element();
}

/// A line of text with its cached grapheme count.
pub struct Row {
    pub string: String,
    len: usize,
}

impl View for Row {
    type V = Seq<char>;

    closed spec fn view(&self) -> Seq<char> {
        self.string@
    }
}

impl Default for Row {
    fn default() -> (r: Row)
        ensures
            r.wf(),
            r@ == Seq::<char>::empty(),
            r.cols() == 0,
    {
        let mut r = Row { string: String::new(), len: 0 };
        r.update_len();
        proof {
            lemma_empty_columns(r@);
        }
        r
    }
}

impl Row {
    /// The cached count agrees with the text, which segments cleanly.
    pub closed spec fn wf(&self) -> bool {
        &&& segmented(self.string@)
        &&& self.len == columns(self.string@)
    }

    /// Number of grapheme columns.
    pub open spec fn cols(&self) -> nat {
        columns(self@)
    }

    pub proof fn lemma_wf(&self)
        requires
            self.wf(),
        ensures
            segmented(self@),
    {
    }

    /// The row's text.
    pub fn text(&self) -> (r: &str)
        ensures
            r@ == self@,
    {
        self.string.as_str()
    }

    /// A row holding `s`.
    pub fn from_str(s: &str) -> (r: Row)
        ensures
            r.wf(),
            r@ == s@,
    {
        let mut r = Row { string: String::from_str(s), len: 0 };
        r.update_len();
        r
    }

    /// A row holding the single character `c`.
    pub fn from_char(c: char) -> (r: Row)
        ensures
            r.wf(),
            r@ == seq![c],
    {
        let mut string = String::new();
        push_char(&mut string, c);
        let mut r = Row { string, len: 0 };
        r.update_len();
        r
    }

    /// The visible text of columns `[start, end)`, tabs expanded.
    pub fn render(&self, start: usize, end: usize) -> (r: String)
        requires
            self.wf(),
        ensures
            r@ == shown(self@, start as int, end as int),
    {
        let gs = graphemes(self.string.as_str());
        let e = if end < gs.len() { end } else { gs.len() };
        let b = if start < e { start } else { e };
        let ghost w = views(gs@).subrange(b as int, e as int).map_values(|g: Seq<char>| expand(g));
        let mut out = String::new();
        let mut k: usize = b;
        while k < e
            invariant
                b <= k <= e <= gs@.len(),
                views(gs@) == graphemes_of(self@),
                forall|j: int| 0 <= j < gs@.len() ==> (#[trigger] gs@[j])@.len() > 0,
                w == views(gs@).subrange(b as int, e as int).map_values(|g: Seq<char>| expand(g)),
                out@ == w.take(k - b).flatten(),
            decreases e - k,
        {
            let g = &gs[k];
            proof {
                assert(w.take(k - b + 1) == w.take(k - b).push(w[k - b]));
                w.take(k - b).lemma_flatten_push(w[k - b]);
                assert(g@.len() > 0);
            }
            let first = g.as_str().get_char(0);
            if first == '\t' {
                proof {
                    reveal_strlit("    ");
                }
                out.append("    ");
            } else {
                out.append(g.as_str());
            }
            k = k + 1;
        }
        assert(w.take(e - b) == w);
        out
    }

    pub fn len(&self) -> (r: usize)
        requires
            self.wf(),
        ensures
            r == self.cols(),
    {
        self.len
    }

    pub fn is_empty(&self) -> (r: bool)
        requires
            self.wf(),
        ensures
            r == (self.cols() == 0),
    {
        self.len == 0
    }

    /// Recomputes the cached grapheme count from the text.
    pub fn update_len(&mut self)
        ensures
            final(self).wf(),
            final(self)@ == old(self)@,
    {
        let gs = graphemes(self.string.as_str());
        self.len = gs.len();
    }

    /// Inserts `c` before column `at`, or appends it when `at` is past the end.
    pub fn insert(&mut self, at: usize, c: char)
        requires
            old(self).wf(),
        ensures
            final(self).wf(),
            final(self)@ == inserted(old(self)@, at as int, c),
            single_line(old(self)@) && c != '\n' ==> single_line(final(self)@),
    {
        proof {
            lemma_head_tail(self@, if at < self.len { at as int } else { self.len as int });
            if at < self.len {
                lemma_single_line_parts(head(self@, at as int), tail(self@, at as int));
                lemma_single_line_parts(head(self@, at as int), seq![c]);
                lemma_single_line_parts(head(self@, at as int) + seq![c], tail(self@, at as int));
            } else {
                lemma_single_line_parts(self@, seq![c]);
            }
        }
        if at >= self.len {
            push_char(&mut self.string, c);
        } else {
            let gs = graphemes(self.string.as_str());
            let mut before = concat_range(&gs, 0, at);
            push_char(&mut before, c);
            let after = concat_range(&gs, at, gs.len());
            before.append(after.as_str());
            self.string = before;
        }
        self.update_len();
    }

    /// Removes the cluster at column `at`; does nothing past the end.
    pub fn delete(&mut self, at: usize)
        requires
            old(self).wf(),
        ensures
            final(self).wf(),
            final(self)@ == removed(old(self)@, at as int),
            single_line(old(self)@) ==> single_line(final(self)@),
    {
        proof {
            if at < self.len {
                let g = graphemes_of(self@);
                lemma_head_tail(self@, at as int);
                lemma_tail_step(self@, at as int);
                lemma_single_line_parts(head(self@, at as int), tail(self@, at as int));
                lemma_single_line_parts(g[at as int], tail(self@, at + 1));
                lemma_single_line_parts(head(self@, at as int), tail(self@, at + 1));
            }
        }
        if at >= self.len {
            return;
        }
        let gs = graphemes(self.string.as_str());
        let mut before = concat_range(&gs, 0, at);
        let after = concat_range(&gs, at + 1, gs.len());
        before.append(after.as_str());
        self.string = before;
        self.update_len();
    }

    /// Keeps columns `[0, at)` and returns a new row with the rest.
    pub fn split(&mut self, at: usize) -> (r: Row)
        requires
            old(self).wf(),
        ensures
            final(self).wf(),
            r.wf(),
            final(self)@ == head(old(self)@, clamp_column(old(self)@, at as int)),
            r@ == tail(old(self)@, clamp_column(old(self)@, at as int)),
            single_line(old(self)@) ==> single_line(final(self)@) && single_line(r@),
    {
        proof {
            let k = clamp_column(self@, at as int);
            lemma_head_tail(self@, k);
            lemma_single_line_parts(head(self@, k), tail(self@, k));
        }
        let gs = graphemes(self.string.as_str());
        let k = if at < gs.len() { at } else { gs.len() };
        let kept = concat_range(&gs, 0, k);
        let new_line = concat_range(&gs, k, gs.len());
        self.string = kept;
        self.update_len();
        Row::from_str(new_line.as_str())
    }
}

/// Splitting a row at any column in `[0, length]` and joining the two parts in order
/// gives back the row's text.
pub proof fn lemma_split_rejoins(r: Row, at: usize)
    requires
        r.wf(),
        at <= r.cols(),
    ensures
        head(r@, clamp_column(r@, at as int)) + tail(r@, clamp_column(r@, at as int)) == r@,
{
    r.lemma_wf();
    lemma_head_tail(r@, at as int);
}

/// Inserting `c` before column `at < length`, when `c` then stands as a cluster of its
/// own, adds exactly one column; deleting at `at` right after restores the text.
pub proof fn lemma_insert_then_delete(r: Row, at: usize, c: char)
    requires
        r.wf(),
        at < r.cols(),
        graphemes_of(inserted(r@, at as int, c)) == graphemes_of(r@).insert(at as int, seq![c]),
    ensures
        columns(inserted(r@, at as int, c)) == r.cols() + 1,
        removed(inserted(r@, at as int, c), at as int) == r@,
{
    r.lemma_wf();
    let g = graphemes_of(r@);
    let s2 = inserted(r@, at as int, c);
    let g2 = graphemes_of(s2);
    assert(g2.take(at as int) == g.take(at as int));
    assert(g2.skip(at + 1) == g.skip(at as int));
    lemma_head_tail(r@, at as int);
}

} // verus!
