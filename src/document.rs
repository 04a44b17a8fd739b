//! The buffer: an ordered sequence of rows with its highlight overlay.

use crate::editor::Position;
use crate::highlight::{cluster_tags, line_text, marker, painted, piece, reset_code, Highlight, Tag, Token};
use crate::row::{clamp_column, expand, inserted, removed, Row};
use crate::text::{
    chars_of, columns, graphemes_of, head, segmented, join_lines, lemma_join_split, lemma_split_join, push_char,
    single_line, split_lines, tail,
};
use vstd::prelude::*;

verus! {

/// A line without its trailing carriage return, if it has one.
pub open spec fn strip_cr(l: Seq<char>) -> Seq<char> {
    if l.len() > 0 && l.last() == '\r' {
        l.drop_last()
    } else {
        l
    }
}

/// The lines of a text: split at `\n` (a `\r` right before a `\n` belongs to the line
/// break), with a final empty piece dropped.
pub open spec fn text_lines(s: Seq<char>) -> Seq<Seq<char>> {
    let parts = split_lines(s);
    let ended = parts.drop_last().map_values(|l: Seq<char>| strip_cr(l));
    if parts.last().len() == 0 { ended } else { ended.push(parts.last()) }
}

/// The overlay's text runs, line by line, joined with `\n`.
pub open spec fn stripped(overlay: Seq<Seq<Token>>) -> Seq<char> {
    join_lines(overlay.map_values(|t: Seq<Token>| line_text(t)))
}

/// The characters of `cur` as a string; with `strip`, without a trailing `\r`.
fn line_string(cur: &Vec<char>, strip: bool) -> (r: String)
    ensures
        strip ==> r@ == strip_cr(cur@),
        !strip ==> r@ == cur@,
{
    let n = if strip && cur.len() > 0 && cur[cur.len() - 1] == '\r' {
        cur.len() - 1
    } else {
        cur.len()
    };
    let mut out = String::new();
    let mut i: usize = 0;
    while i < n
        invariant
            i <= n <= cur@.len(),
            out@ == cur@.take(i as int),
        decreases n - i,
    {
        assert(cur@.take(i + 1) == cur@.take(i as int).push(cur@[i as int]));
        push_char(&mut out, cur[i]);
        i = i + 1;
    }
    assert(strip ==> cur@.take(n as int) == strip_cr(cur@));
    assert(!strip ==> cur@.take(n as int) == cur@);
    out
}

/// The lines after `insert(at, c)`.
pub open spec fn with_char(ls: Seq<Seq<char>>, at: Position, c: char) -> Seq<Seq<char>> {
    if at.y == ls.len() {
        ls.push(seq![c])
    } else {
        ls.update(at.y as int, inserted(ls[at.y as int], at.x as int, c))
    }
}

/// The lines after `insert_nl(at)`.
pub open spec fn with_break(ls: Seq<Seq<char>>, at: Position) -> Seq<Seq<char>> {
    if at.y > ls.len() {
        ls
    } else if at.y == ls.len() {
        ls.push(Seq::<char>::empty())
    } else {
        let l = ls[at.y as int];
        let k = clamp_column(l, at.x as int);
        ls.update(at.y as int, head(l, k)).insert(at.y + 1, tail(l, k))
    }
}

/// The lines after `delete(at)`.
pub open spec fn without(ls: Seq<Seq<char>>, at: Position) -> Seq<Seq<char>> {
    if at.y >= ls.len() {
        ls
    } else if columns(ls[at.y as int]) > 0 {
        ls.update(at.y as int, removed(ls[at.y as int], at.x as int))
    } else {
        ls.remove(at.y as int)
    }
}

/// A text buffer: rows in visual order, an overlay derived from their full text, and an
/// optional display name.
pub struct Document {
    rows: Vec<Row>,
    highlight: Highlight,
    pub filename: Option<String>,
}

impl Default for Document {
    fn default() -> (r: Document)
        ensures
            r.wf(),
            r.lines().len() == 0,
            r.name() is None,
            stripped(r.overlay()) == join_lines(r.lines()),
    {
        let d = Document { rows: Vec::new(), highlight: Highlight::new(String::new()), filename: None };
        assert(d.lines() == Seq::<Seq<char>>::empty());
        proof {
            lemma_overlay_text(d);
        }
        d
    }
}

impl Document {
    /// The text of each row.
    pub closed spec fn lines(&self) -> Seq<Seq<char>> {
        self.rows@.map_values(|r: Row| r@)
    }

    /// The overlay's token lines.
    pub closed spec fn overlay(&self) -> Seq<Seq<Token>> {
        self.highlight.tokens()
    }

    /// The overlay's colourised lines.
    pub closed spec fn colored_lines(&self) -> Seq<Seq<char>> {
        self.highlight.colored_lines()
    }

    /// The display name.
    pub closed spec fn name(&self) -> Option<String> {
        self.filename
    }

    /// Every row is well formed and holds no line break.
    pub closed spec fn rows_ok(&self) -> bool {
        &&& forall|k: int| 0 <= k < self.rows@.len() ==> (#[trigger] self.rows@[k]).wf()
        &&& forall|k: int| 0 <= k < self.rows@.len() ==> single_line(#[trigger] self.rows@[k]@)
    }

    /// The rows are sound and the overlay is current.
    pub closed spec fn wf(&self) -> bool {
        &&& self.rows_ok()
        &&& self.highlight.wf()
        &&& self.highlight.source() == join_lines(self.lines())
    }

    /// The overlay has one token line per row (one, empty, for an empty buffer), and the
    /// text of each is its row's text.
    pub proof fn lemma_overlay(&self)
        requires
            self.wf(),
        ensures
            self.lines().len() > 0 ==> self.overlay().len() == self.lines().len(),
            self.lines().len() == 0 ==> self.overlay().len() == 1,
            forall|k: int| 0 <= k < self.lines().len() ==> line_text(#[trigger] self.overlay()[k])
                == self.lines()[k],
            self.colored_lines().len() == self.overlay().len(),
    {
        if self.lines().len() > 0 {
            assert forall|k: int| 0 <= k < self.lines().len() implies single_line(
                #[trigger] self.lines()[k],
            ) by {
                assert(self.lines()[k] == self.rows@[k]@);
            }
            lemma_split_join(self.lines());
        } else {
            assert(join_lines(self.lines()) == Seq::<char>::empty());
        }
    }

    /// Every line segments cleanly and holds no line break.
    pub proof fn lemma_lines(&self)
        requires
            self.wf(),
        ensures
            forall|k: int| 0 <= k < self.lines().len() ==> segmented(#[trigger] self.lines()[k]),
            forall|k: int| 0 <= k < self.lines().len() ==> single_line(#[trigger] self.lines()[k]),
    {
        assert forall|k: int| 0 <= k < self.lines().len() implies segmented(#[trigger] self.lines()[k]) by {
            self.rows@[k].lemma_wf();
        }
    }

    /// A buffer named `fname` holding the lines of `contents`.
    pub fn open(fname: &str, contents: &str) -> (r: Document)
        ensures
            r.wf(),
            r.lines() == text_lines(contents@),
            stripped(r.overlay()) == join_lines(r.lines()),
            r.name() is Some && r.name()->0@ == fname@,
    {
        let chars = chars_of(contents);
        let mut rows: Vec<Row> = Vec::new();
        let mut cur: Vec<char> = Vec::new();
        let ghost mut raw: Seq<Seq<char>> = Seq::empty();
        let mut i: usize = 0;
        while i < chars.len()
            invariant
                i <= chars@.len(),
                chars@ == contents@,
                raw.push(cur@) == split_lines(chars@.take(i as int)),
                rows@.len() == raw.len(),
                forall|k: int| 0 <= k < rows@.len() ==> (#[trigger] rows@[k])@ == strip_cr(raw[k]),
                forall|k: int| 0 <= k < rows@.len() ==> (#[trigger] rows@[k]).wf(),
                forall|k: int| 0 <= k < rows@.len() ==> single_line(#[trigger] rows@[k]@),
                single_line(cur@),
            decreases chars@.len() - i,
        {
            let c = chars[i];
            proof {
                assert(chars@.take(i + 1).drop_last() == chars@.take(i as int));
                assert(chars@.take(i + 1).last() == c);
            }
            if c == '\n' {
                let line = line_string(&cur, true);
                let row = Row::from_str(line.as_str());
                proof {
                    assert(single_line(strip_cr(cur@))) by {
                        let l = strip_cr(cur@);
                        assert forall|j: int| 0 <= j < l.len() implies l[j] != '\n' by {
                            assert(l[j] == cur@[j]);
                        }
                    }
                    raw = raw.push(cur@);
                }
                rows.push(row);
                cur = Vec::new();
                proof {
                    assert(raw.push(cur@) == raw.drop_last().push(raw.last()).push(
                        Seq::<char>::empty(),
                    ));
                }
            } else {
                cur.push(c);
                proof {
                    assert(single_line(cur@)) by {
                        assert forall|j: int| 0 <= j < cur@.len() implies cur@[j] != '\n' by {
                            if j < cur@.len() - 1 {
                                assert(cur@[j] == cur@.drop_last()[j]);
                            }
                        }
                    }
                }
            }
            i = i + 1;
        }
        assert(chars@.take(chars@.len() as int) == contents@);
        if cur.len() > 0 {
            let line = line_string(&cur, false);
            let row = Row::from_str(line.as_str());
            rows.push(row);
        }
        proof {
            let parts = split_lines(contents@);
            assert(parts.drop_last() == raw);
            assert(parts.last() == cur@);
            assert(rows@.map_values(|r: Row| r@) == text_lines(contents@));
        }
        let mut d = Document {
            rows,
            highlight: Highlight::new(String::new()),
            filename: Some(String::from_str(fname)),
        };
        d.highlight();
        d
    }

    /// The whole text: the rows joined with `\n`.
    fn full_text(&self) -> (r: String)
        ensures
            r@ == join_lines(self.lines()),
    {
        let mut out = String::new();
        let mut i: usize = 0;
        while i < self.rows.len()
            invariant
                i <= self.rows@.len(),
                out@ == join_lines(self.lines().take(i as int)),
            decreases self.rows@.len() - i,
        {
            let ghost ls = self.lines();
            proof {
                assert(ls.take(i + 1).drop_last() == ls.take(i as int));
                assert(ls.take(i + 1).last() == self.rows@[i as int]@);
                if i == 0 {
                    assert(ls.take(1)[0] == self.rows@[0]@);
                }
            }
            if i > 0 {
                push_char(&mut out, '\n');
            }
            out.append(self.rows[i].text());
            i = i + 1;
        }
        assert(self.lines().take(self.rows@.len() as int) == self.lines());
        out
    }

    /// Recomputes the overlay from the whole text.
    pub fn highlight(&mut self)
        ensures
            final(self).lines() == old(self).lines(),
            final(self).name() == old(self).name(),
            old(self).wf() ==> final(self).wf(),
            old(self).rows_ok() ==> final(self).wf(),
            old(self).rows_ok() ==> stripped(final(self).overlay()) == join_lines(final(self).lines()),
    {
        let text = self.full_text();
        self.highlight.parse(text);
        proof {
            if self.rows_ok() {
                lemma_overlay_text(*self);
            }
        }
    }

    /// Columns `[start, end)` of line `index`, colourised (see `painted`).
    pub fn render(&self, index: usize, start: usize, end: usize) -> (r: String)
        requires
            self.wf(),
        ensures
            index < self.overlay().len() ==> r@ == painted(self.overlay()[index as int], start as int, end as int),
            index >= self.overlay().len() ==> r@ == reset_code(),
    {
        self.highlight.render(index, start, end)
    }

    /// A copy of row `index`; with `highlight`, the row of its colourised overlay line.
    /// Past the last row there is none, either way.
    pub fn row(&self, index: usize, highlight: bool) -> (r: Option<Row>)
        requires
            self.wf(),
        ensures
            r is Some <==> index < self.lines().len(),
            !highlight && index < self.lines().len() ==> r->0@ == self.lines()[index as int],
            highlight && index < self.lines().len() ==> r->0@ == self.colored_lines()[index as int],
            r is Some ==> r->0.wf(),
    {
        if index >= self.rows.len() {
            return None;
        }
        if !highlight {
            return Some(Row::from_str(self.rows[index].text()));
        }
        proof {
            self.lemma_overlay();
        }
        match self.highlight.row(index) {
            Some(x) => Some(Row::from_str(x.as_str())),
            None => None,
        }
    }

    pub fn is_empty(&self) -> (r: bool)
        ensures
            r == (self.lines().len() == 0),
    {
        self.rows.len() == 0
    }

    /// Number of columns of row `index`, 0 when there is no such row.
    pub fn row_len(&self, index: usize) -> (r: usize)
        requires
            self.wf(),
        ensures
            index < self.lines().len() ==> r == columns(self.lines()[index as int]),
            index >= self.lines().len() ==> r == 0,
    {
        if index < self.rows.len() {
            self.rows[index].len()
        } else {
            0
        }
    }

    /// The display name, if any.
    pub fn display_name(&self) -> (r: &Option<String>)
        ensures
            *r == self.name(),
    {
        &self.filename
    }

    pub fn len(&self) -> (r: usize)
        ensures
            r == self.lines().len(),
    {
        self.rows.len()
    }

    /// Inserts `c` at `at`: a new one-character row when `at.y` is the row count,
    /// otherwise into row `at.y` at column `at.x`.
    pub fn insert(&mut self, at: &Position, c: char)
        requires
            old(self).wf(),
            at.y <= old(self).lines().len(),
            c != '\n',
        ensures
            final(self).wf(),
            stripped(final(self).overlay()) == join_lines(final(self).lines()),
            final(self).name() == old(self).name(),
            final(self).lines() == with_char(old(self).lines(), *at, c),
    {
        let ghost old_lines = self.lines();
        if at.y == self.rows.len() {
            let row = Row::from_char(c);
            self.rows.push(row);
            proof {
                assert(self.rows@.map_values(|r: Row| r@) == old_lines.push(seq![c]));
            }
        } else {
            let mut row = self.rows.remove(at.y);
            row.insert(at.x, c);
            self.rows.insert(at.y, row);
            proof {
                assert(self.rows@.map_values(|r: Row| r@) == old_lines.update(
                    at.y as int,
                    inserted(old_lines[at.y as int], at.x as int, c),
                ));
            }
        }
        assert(self.rows_ok());
        self.highlight();
    }

    /// Breaks the line at `at`: appends an empty row when `at.y` is the row count, splits
    /// row `at.y` at column `at.x` when it exists, and does nothing past the end.
    pub fn insert_nl(&mut self, at: &Position)
        requires
            old(self).wf(),
        ensures
            final(self).wf(),
            stripped(final(self).overlay()) == join_lines(final(self).lines()),
            final(self).name() == old(self).name(),
            final(self).lines() == with_break(old(self).lines(), *at),
    {
        let ghost old_lines = self.lines();
        if at.y > self.rows.len() {
            proof {
                lemma_overlay_text(*self);
            }
            return;
        }
        if at.y == self.rows.len() {
            self.rows.push(Row::default());
            proof {
                assert(self.rows@.map_values(|r: Row| r@) == old_lines.push(Seq::<char>::empty()));
            }
        } else {
            let mut current_row = self.rows.remove(at.y);
            let new_row = current_row.split(at.x);
            self.rows.insert(at.y, current_row);
            self.rows.insert(at.y + 1, new_row);
            proof {
                let l = old_lines[at.y as int];
                let k = clamp_column(l, at.x as int);
                assert(self.rows@.map_values(|r: Row| r@) == old_lines.update(at.y as int, head(l, k)).insert(
                    at.y + 1,
                    tail(l, k),
                ));
            }
        }
        assert(self.rows_ok());
        self.highlight();
    }

    /// Deletes at `at`: the cluster at column `at.x` of a non-empty row, or the whole row
    /// when it is empty (no merge with its neighbours); nothing past the last row.
    pub fn delete(&mut self, at: &Position)
        requires
            old(self).wf(),
        ensures
            final(self).wf(),
            stripped(final(self).overlay()) == join_lines(final(self).lines()),
            final(self).name() == old(self).name(),
            final(self).lines() == without(old(self).lines(), *at),
    {
        let ghost old_lines = self.lines();
        if at.y >= self.rows.len() {
            proof {
                lemma_overlay_text(*self);
            }
            return;
        }
        let mut row = self.rows.remove(at.y);
        if !row.is_empty() {
            row.delete(at.x);
            self.rows.insert(at.y, row);
            proof {
                assert(self.rows@.map_values(|r: Row| r@) == old_lines.update(
                    at.y as int,
                    removed(old_lines[at.y as int], at.x as int),
                ));
            }
        } else {
            proof {
                assert(self.rows@.map_values(|r: Row| r@) == old_lines.remove(at.y as int));
            }
        }
        assert(self.rows_ok());
        self.highlight();
    }


}

/// Breaking a non-empty line and then deleting at the start of the new line, when that
/// line came out empty, removes exactly that line: the line count is back to what it was.
pub proof fn lemma_break_then_delete(d: Document, at: Position)
    requires
        d.wf(),
        at.y < d.lines().len(),
        columns(d.lines()[at.y as int]) > 0,
        columns(with_break(d.lines(), at)[at.y + 1]) == 0,
    ensures
        without(with_break(d.lines(), at), Position { x: 0, y: (at.y + 1) as usize })
            == with_break(d.lines(), at).remove(at.y + 1),
        without(with_break(d.lines(), at), Position { x: 0, y: (at.y + 1) as usize }).len()
            == d.lines().len(),
{
    assert(d.rows@.len() == d.rows.len());
    assert(d.lines().len() == d.rows@.len());
}

/// Whatever edits led to a sound buffer, the overlay's text runs, line by line and joined
/// with `\n`, are exactly the buffer's full text.
pub proof fn lemma_overlay_text(d: Document)
    requires
        d.wf(),
    ensures
        stripped(d.overlay()) == join_lines(d.lines()),
{
    let src = d.highlight.source();
    assert(d.overlay().map_values(|t: Seq<Token>| line_text(t)) == split_lines(src));
    lemma_join_split(src);
}

/// Rendering a line never cuts a cluster: for any window, the output is, cluster by
/// cluster, an optional colour change followed by one whole cluster of the row (a tab as
/// four spaces), and then a colour reset; the colour changes are escape markers only, so
/// with them removed what is left is the window's clusters.
pub proof fn lemma_render_whole_clusters(d: Document, index: usize, start: usize, end: usize)
    requires
        d.wf(),
        index < d.lines().len(),
    ensures
        ({
            let gs = graphemes_of(d.lines()[index as int]);
            let e = if end < gs.len() { end as int } else { gs.len() as int };
            let b = if (start as int) < e { start as int } else { e };
            exists|codes: Seq<Seq<char>>|
                codes.len() == e - b
                && (forall|j: int| 0 <= j < codes.len() ==> (#[trigger] codes[j]).len() == 0
                    || exists|t: Tag| codes[j] == marker(t))
                && painted(d.overlay()[index as int], start as int, end as int)
                    == Seq::new((e - b) as nat, |j: int| codes[j] + expand(gs[b + j])).flatten()
                    + reset_code()
        }),
{
    d.lemma_overlay();
    let toks = d.overlay()[index as int];
    let gs = graphemes_of(d.lines()[index as int]);
    assert(gs == graphemes_of(line_text(toks)));
    let e = if end < gs.len() { end as int } else { gs.len() as int };
    let b = if (start as int) < e { start as int } else { e };
    let tags = cluster_tags(toks);
    let codes = Seq::new(
        (e - b) as nat,
        |j: int|
            {
                let prev = if b + j == b { Tag::Plain } else { tags[b + j - 1] };
                if tags[b + j] == prev { Seq::<char>::empty() } else { marker(tags[b + j]) }
            },
    );
    let ps = Seq::new((e - b) as nat, |j: int| piece(gs, tags, b + j, b));
    let qs = Seq::new((e - b) as nat, |j: int| codes[j] + expand(gs[b + j]));
    assert(ps =~= qs);
    assert(painted(toks, start as int, end as int) == ps.flatten() + reset_code());
    assert forall|j: int| 0 <= j < codes.len() implies (#[trigger] codes[j]).len() == 0 || exists|
        t: Tag,
    | codes[j] == marker(t) by {
        if codes[j].len() != 0 {
            assert(codes[j] == marker(tags[b + j]));
        }
    }
    assert(codes.len() == e - b && painted(toks, start as int, end as int) == qs.flatten()
        + reset_code());
}

} // verus!
