//! Text primitives: grapheme clusters and the sequence facts the buffer relies on.

use unicode_segmentation::UnicodeSegmentation;
use vstd::prelude::*;

verus! {

/// The extended grapheme clusters of a text, in order.
pub uninterp spec fn graphemes_of(s: Seq<char>) -> Seq<Seq<char>>;

/// The texts held by a vector of strings.
pub open spec fn views(v: Seq<String>) -> Seq<Seq<char>> {
    v.map_values(|g: String| g@)
}

/// The clusters of `s` are non-empty and, joined in order, give `s` back.
pub open spec fn segmented(s: Seq<char>) -> bool {
    &&& graphemes_of(s).flatten() == s
    &&& forall|k: int| 0 <= k < graphemes_of(s).len() ==> (#[trigger] graphemes_of(s)[k]).len() > 0
}

/// Number of grapheme columns of a text.
pub open spec fn columns(s: Seq<char>) -> nat {
    graphemes_of(s).len()
}

/// The text of the first `k` columns.
pub open spec fn head(s: Seq<char>, k: int) -> Seq<char> {
    graphemes_of(s).take(k).flatten()
}

/// The text from column `k` on.
pub open spec fn tail(s: Seq<char>, k: int) -> Seq<char> {
    graphemes_of(s).skip(k).flatten()
}

/// Relies on `UnicodeSegmentation::graphemes(s, true)` of unicode-segmentation: it yields
/// the extended grapheme clusters of `s` as consecutive, non-empty slices covering `s`.
#[verifier::external_body]
pub(crate) fn graphemes(s: &str) -> (r: Vec<String>)
    ensures
        views(r@) == graphemes_of(s@),
        views(r@).flatten() == s@,
        forall|k: int| 0 <= k < r@.len() ==> (#[trigger] r@[k])@.len() > 0,
{
    s.graphemes(true).map(String::from).collect()
}

/// Relies on `String::push`: appends one character.
#[verifier::external_body]
pub(crate) fn push_char(s: &mut String, c: char)
    ensures
        final(s)@ == old(s)@.push(c),
{
    s.push(c)
}

/// Relies on `str::chars`, collected: the characters of `s` in order.
#[verifier::external_body]
pub(crate) fn chars_of(s: &str) -> (r: Vec<char>)
    ensures
        r@ == s@,
{
    s.chars().collect()
}

/// Flattening distributes over concatenation.
pub proof fn lemma_flatten_add(a: Seq<Seq<char>>, b: Seq<Seq<char>>)
    ensures
        (a + b).flatten() == a.flatten() + b.flatten(),
    decreases b.len(),
{
    if b.len() == 0 {
        assert(a + b == a);
        assert(b.flatten() == Seq::<char>::empty());
        assert(a.flatten() + b.flatten() == a.flatten());
    } else {
        let b0 = b.drop_last();
        lemma_flatten_add(a, b0);
        assert(a + b == (a + b0).push(b.last()));
        assert(b == b0.push(b.last()));
        b0.lemma_flatten_push(b.last());
        (a + b0).lemma_flatten_push(b.last());
        assert((a + b).flatten() == (a + b0).flatten() + b.last());
        assert(b.flatten() == b0.flatten() + b.last());
        assert(a.flatten() + b0.flatten() + b.last() == a.flatten() + (b0.flatten() + b.last()));
    }
}

/// A segmented text is its head followed by its tail, at any column.
pub proof fn lemma_head_tail(s: Seq<char>, k: int)
    requires
        segmented(s),
        0 <= k <= columns(s),
    ensures
        head(s, k) + tail(s, k) == s,
{
    let g = graphemes_of(s);
    assert(g.take(k) + g.skip(k) == g);
    lemma_flatten_add(g.take(k), g.skip(k));
}

/// A segmented empty text has no columns.
pub proof fn lemma_empty_columns(s: Seq<char>)
    requires
        segmented(s),
        s.len() == 0,
    ensures
        columns(s) == 0,
{
    let g = graphemes_of(s);
    if g.len() > 0 {
        g.lemma_flatten_and_flatten_alt_are_equivalent();
        g.lemma_flatten_length_ge_single_element_length(0);
        assert(g[0].len() > 0);
    }
}

/// The `\n`-separated pieces of a text; an empty text is one empty piece.
pub open spec fn split_lines(s: Seq<char>) -> Seq<Seq<char>>
    decreases s.len(),
{
    if s.len() == 0 {
        seq![Seq::<char>::empty()]
    } else {
        let rest = split_lines(s.drop_last());
        if s.last() == '\n' {
            rest.push(Seq::<char>::empty())
        } else {
            rest.update(rest.len() - 1, rest.last().push(s.last()))
        }
    }
}

/// Lines joined with `\n` between them.
pub open spec fn join_lines(ls: Seq<Seq<char>>) -> Seq<char>
    decreases ls.len(),
{
    if ls.len() == 0 {
        Seq::<char>::empty()
    } else if ls.len() == 1 {
        ls[0]
    } else {
        join_lines(ls.drop_last()) + seq!['\n'] + ls.last()
    }
}

proof fn lemma_split_lines_len(s: Seq<char>)
    ensures
        split_lines(s).len() >= 1,
    decreases s.len(),
{
    if s.len() > 0 {
        lemma_split_lines_len(s.drop_last());
    }
}

/// Splitting a text into lines and joining them again gives the text back.
pub proof fn lemma_join_split(s: Seq<char>)
    ensures
        join_lines(split_lines(s)) == s,
    decreases s.len(),
{
    if s.len() > 0 {
        let p = s.drop_last();
        let rest = split_lines(p);
        lemma_join_split(p);
        lemma_split_lines_len(p);
        assert(s == p.push(s.last()));
        if s.last() == '\n' {
            let ls = rest.push(Seq::<char>::empty());
            assert(ls.drop_last() == rest);
            assert(join_lines(ls) == p + seq!['\n'] + Seq::<char>::empty());
            assert(p + seq!['\n'] + Seq::<char>::empty() == s);
        } else {
            let ls = rest.update(rest.len() - 1, rest.last().push(s.last()));
            if rest.len() == 1 {
                assert(join_lines(rest) == rest[0]);
                assert(join_lines(ls) == ls[0]);
                assert(ls[0] == rest[0].push(s.last()));
            } else {
                assert(ls.drop_last() == rest.drop_last());
                assert(join_lines(ls) == join_lines(rest.drop_last()) + seq!['\n'] + rest.last().push(s.last()));
                assert(join_lines(rest) == join_lines(rest.drop_last()) + seq!['\n'] + rest.last());
                assert(join_lines(ls) == join_lines(rest).push(s.last()));
            }
        }
    }
}

/// A text with no line break in it.
pub open spec fn single_line(s: Seq<char>) -> bool {
    forall|i: int| 0 <= i < s.len() ==> s[i] != '\n'
}

/// Both parts of a single line are single lines, and joining two gives one.
pub proof fn lemma_single_line_parts(a: Seq<char>, b: Seq<char>)
    ensures
        single_line(a + b) <==> (single_line(a) && single_line(b)),
{
    if single_line(a + b) {
        assert forall|i: int| 0 <= i < a.len() implies a[i] != '\n' by {
            assert(a[i] == (a + b)[i]);
        }
        assert forall|i: int| 0 <= i < b.len() implies b[i] != '\n' by {
            assert(b[i] == (a + b)[a.len() + i]);
        }
    }
}

/// Appending a single line to a text extends its last line.
pub proof fn lemma_split_append(x: Seq<char>, y: Seq<char>)
    requires
        single_line(y),
    ensures
        split_lines(x + y) == split_lines(x).update(
            split_lines(x).len() - 1,
            split_lines(x).last() + y,
        ),
    decreases y.len(),
{
    lemma_split_lines_len(x);
    let sx = split_lines(x);
    if y.len() == 0 {
        assert(x + y == x);
        assert(sx.last() + y == sx.last());
        assert(sx.update(sx.len() - 1, sx.last()) == sx);
    } else {
        let y0 = y.drop_last();
        assert(single_line(y0)) by {
            assert forall|i: int| 0 <= i < y0.len() implies y0[i] != '\n' by {
                assert(y0[i] == y[i]);
            }
        }
        lemma_split_append(x, y0);
        assert((x + y).drop_last() == x + y0);
        assert((x + y).last() == y.last());
        assert(y.last() != '\n');
        assert(sx.last() + y0 + seq![y.last()] == sx.last() + y);
        assert((sx.last() + y0).push(y.last()) == sx.last() + y);
    }
}

/// Joining single lines with `\n` and splitting the result gives the lines back.
pub proof fn lemma_split_join(ls: Seq<Seq<char>>)
    requires
        ls.len() >= 1,
        forall|k: int| 0 <= k < ls.len() ==> single_line(#[trigger] ls[k]),
    ensures
        split_lines(join_lines(ls)) == ls,
    decreases ls.len(),
{
    let e = Seq::<char>::empty();
    if ls.len() == 1 {
        lemma_split_append(e, ls[0]);
        assert(e + ls[0] == ls[0]);
        assert(split_lines(e) == seq![e]);
        assert(e + ls[0] == ls[0]);
        assert(seq![e].update(0, e + ls[0]) == ls);
    } else {
        let p = ls.drop_last();
        lemma_split_join(p);
        let jp = join_lines(p) + seq!['\n'];
        assert(jp.drop_last() == join_lines(p));
        assert(split_lines(jp) == p.push(e));
        lemma_split_append(jp, ls.last());
        assert(join_lines(ls) == jp + ls.last());
        assert(e + ls.last() == ls.last());
        assert(p.push(e).update(p.len() as int, ls.last()) == ls);
    }
}

/// Whether two texts are equal, character by character.
pub fn same_text(a: &str, b: &str) -> (r: bool)
    ensures
        r == (a@ == b@),
{
    let x = chars_of(a);
    let y = chars_of(b);
    if x.len() != y.len() {
        return false;
    }
    let mut i: usize = 0;
    while i < x.len()
        invariant
            x@ == a@,
            y@ == b@,
            x@.len() == y@.len(),
            i <= x@.len(),
            forall|j: int| 0 <= j < i ==> x@[j] == y@[j],
        decreases x.len() - i,
    {
        if x[i] != y[i] {
            return false;
        }
        i = i + 1;
    }
    assert(x@ == y@);
    true
}

/// Concatenating the first `k + 1` pieces adds piece `k`, and stays within the whole.
pub proof fn lemma_take_step(gs: Seq<Seq<char>>, k: int)
    requires
        0 <= k < gs.len(),
    ensures
        gs.take(k + 1).flatten() == gs.take(k).flatten() + gs[k],
        gs.take(k).flatten().len() + gs[k].len() <= gs.flatten().len(),
{
    assert(gs.take(k + 1) == gs.take(k).push(gs[k]));
    gs.take(k).lemma_flatten_push(gs[k]);
    assert(gs == gs.take(k + 1) + gs.skip(k + 1));
    lemma_flatten_add(gs.take(k + 1), gs.skip(k + 1));
}

/// Joins the strings `v[from..to]` into one string.
pub fn concat_range(v: &Vec<String>, from: usize, to: usize) -> (r: String)
    requires
        from <= to <= v@.len(),
    ensures
        r@ == views(v@).subrange(from as int, to as int).flatten(),
{
    let mut out = String::new();
    let mut i: usize = from;
    while i < to
        invariant
            from <= i <= to <= v@.len(),
            out@ == views(v@).subrange(from as int, i as int).flatten(),
        decreases to - i,
    {
        proof {
            let w = views(v@);
            assert(w.subrange(from as int, i + 1) == w.subrange(from as int, i as int).push(w[i as int]));
            w.subrange(from as int, i as int).lemma_flatten_push(w[i as int]);
        }
        out.append(v[i].as_str());
        i = i + 1;
    }
    out
}

} // verus!
