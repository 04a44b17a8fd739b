//! The syntax-highlight overlay: token lists per line, derived from the whole buffer.

use crate::row::expand;
use crate::text::{
    graphemes, graphemes_of, lemma_take_step, same_text, split_lines, views,
};
use synoptic::Highlighter;
use vstd::prelude::*;

verus! {

#[verifier::external_type_specification]
#[verifier::external_body]
pub struct ExHighlighter(synoptic::Highlighter);

/// Relies on synoptic's `languages::rust`, which builds the Rust rule set.
pub assume_specification[ synoptic::languages::rust ]() -> synoptic::Highlighter;

/// One unit of a highlighted line.
pub enum Token {
    /// A colour run of the named kind starts.
    Start(String),
    /// Literal text.
    Text(String),
    /// The current colour run ends.
    End(String),
}

/// Highlight categories; each tag name the tokenizer emits maps to one of them.
#[derive(Clone, Copy, Debug, PartialEq, Eq, Structural)]
pub enum Tag {
    Plain,
    Str,
    Number,
    Keyword,
    Boolean,
    Function,
    Struct,
    Macro,
    Operator,
    Namespace,
    Character,
    Attribute,
    Reference,
}

pub open spec fn tag_of(name: Seq<char>) -> Tag {
    if name == "string"@ {
        Tag::Str
    } else if name == "number"@ {
        Tag::Number
    } else if name == "keyword"@ {
        Tag::Keyword
    } else if name == "boolean"@ {
        Tag::Boolean
    } else if name == "function"@ {
        Tag::Function
    } else if name == "struct"@ {
        Tag::Struct
    } else if name == "macro"@ {
        Tag::Macro
    } else if name == "operator"@ {
        Tag::Operator
    } else if name == "namespace"@ {
        Tag::Namespace
    } else if name == "character"@ {
        Tag::Character
    } else if name == "attribute"@ {
        Tag::Attribute
    } else if name == "reference"@ {
        Tag::Reference
    } else {
        Tag::Plain
    }
}

/// The terminal palette index of each category; plain text has no colour.
pub open spec fn ansi_of(t: Tag) -> Option<u8> {
    match t {
        Tag::Plain => None,
        Tag::Str => Some(2u8),
        Tag::Number => Some(4u8),
        Tag::Keyword => Some(1u8),
        Tag::Boolean => Some(10u8),
        Tag::Function => Some(3u8),
        Tag::Struct => Some(6u8),
        Tag::Macro => Some(6u8),
        Tag::Operator => Some(15u8),
        Tag::Namespace => Some(4u8),
        Tag::Character => Some(6u8),
        Tag::Attribute => Some(4u8),
        Tag::Reference => Some(5u8),
    }
}

impl Tag {
    pub fn from_name(name: &str) -> (r: Tag)
        ensures
            r == tag_of(name@),
    {
        if same_text(name, "string") {
            Tag::Str
        } else if same_text(name, "number") {
            Tag::Number
        } else if same_text(name, "keyword") {
            Tag::Keyword
        } else if same_text(name, "boolean") {
            Tag::Boolean
        } else if same_text(name, "function") {
            Tag::Function
        } else if same_text(name, "struct") {
            Tag::Struct
        } else if same_text(name, "macro") {
            Tag::Macro
        } else if same_text(name, "operator") {
            Tag::Operator
        } else if same_text(name, "namespace") {
            Tag::Namespace
        } else if same_text(name, "character") {
            Tag::Character
        } else if same_text(name, "attribute") {
            Tag::Attribute
        } else if same_text(name, "reference") {
            Tag::Reference
        } else {
            Tag::Plain
        }
    }

    pub fn ansi(&self) -> (r: Option<u8>)
        ensures
            r == ansi_of(*self),
    {
        match self {
            Tag::Plain => None,
            Tag::Str => Some(2),
            Tag::Number => Some(4),
            Tag::Keyword => Some(1),
            Tag::Boolean => Some(10),
            Tag::Function => Some(3),
            Tag::Struct => Some(6),
            Tag::Macro => Some(6),
            Tag::Operator => Some(15),
            Tag::Namespace => Some(4),
            Tag::Character => Some(6),
            Tag::Attribute => Some(4),
            Tag::Reference => Some(5),
        }
    }
}

pub open spec fn digit(d: nat) -> char {
    if d == 0 { '0' } else if d == 1 { '1' } else if d == 2 { '2' } else if d == 3 { '3' }
    else if d == 4 { '4' } else if d == 5 { '5' } else if d == 6 { '6' } else if d == 7 { '7' }
    else if d == 8 { '8' } else { '9' }
}

/// Decimal digits of `n`, without leading zeros.
pub open spec fn decimal(n: nat) -> Seq<char>
    decreases n,
{
    if n < 10 {
        seq![digit(n)]
    } else {
        decimal(n / 10).push(digit(n % 10))
    }
}

/// The digit character for `d < 10`.
pub fn digit_char(d: usize) -> (r: char)
    requires
        d < 10,
    ensures
        r == digit(d as nat),
{
    if d == 0 { '0' } else if d == 1 { '1' } else if d == 2 { '2' } else if d == 3 { '3' }
    else if d == 4 { '4' } else if d == 5 { '5' } else if d == 6 { '6' } else if d == 7 { '7' }
    else if d == 8 { '8' } else { '9' }
}

/// `n` written in decimal.
pub fn decimal_string(n: usize) -> (r: String)
    ensures
        r@ == decimal(n as nat),
    decreases n,
{
    if n < 10 {
        let mut s = String::new();
        crate::text::push_char(&mut s, digit_char(n));
        assert(s@ == seq![digit(n as nat)]);
        s
    } else {
        let mut s = decimal_string(n / 10);
        crate::text::push_char(&mut s, digit_char(n % 10));
        s
    }
}

/// `ESC [38;5;<n>m`: set the foreground to palette entry `n`.
pub open spec fn fg_code(n: u8) -> Seq<char> {
    seq!['\x1b', '[', '3', '8', ';', '5', ';'] + decimal(n as nat) + seq!['m']
}

/// `ESC [39m`: back to the default foreground.
pub open spec fn reset_code() -> Seq<char> {
    seq!['\x1b', '[', '3', '9', 'm']
}

/// The escape that switches to the colour of `t`.
pub open spec fn marker(t: Tag) -> Seq<char> {
    match ansi_of(t) {
        Some(n) => fg_code(n),
        None => reset_code(),
    }
}

/// Relies on termion's `color::AnsiValue::fg_string`: `ESC [38;5;` then `n` in decimal, then `m`.
#[verifier::external_body]
fn ansi_fg(n: u8) -> (r: String)
    ensures
        r@ == fg_code(n),
{
    termion::color::AnsiValue(n).fg_string()
}

/// Relies on termion's `color::Reset::fg_str`: `ESC [39m`.
#[verifier::external_body]
fn reset_fg() -> (r: String)
    ensures
        r@ == reset_code(),
{
    termion::color::Reset.fg_str().to_string()
}

/// The literal text a token carries.
pub open spec fn run_text(t: Token) -> Seq<char> {
    match t {
        Token::Text(s) => s@,
        _ => Seq::<char>::empty(),
    }
}

/// The text of a token line with the colour markers stripped.
pub open spec fn line_text(toks: Seq<Token>) -> Seq<char>
    decreases toks.len(),
{
    if toks.len() == 0 {
        Seq::<char>::empty()
    } else {
        line_text(toks.drop_last()) + run_text(toks.last())
    }
}

/// The category in force after a token line.
pub open spec fn active(toks: Seq<Token>) -> Tag
    decreases toks.len(),
{
    if toks.len() == 0 {
        Tag::Plain
    } else {
        match toks.last() {
            Token::Start(k) => tag_of(k@),
            Token::End(_) => Tag::Plain,
            Token::Text(_) => active(toks.drop_last()),
        }
    }
}

/// The category of each character of `line_text(toks)`.
pub open spec fn char_tags(toks: Seq<Token>) -> Seq<Tag>
    decreases toks.len(),
{
    if toks.len() == 0 {
        Seq::<Tag>::empty()
    } else {
        let p = toks.drop_last();
        match toks.last() {
            Token::Text(s) => char_tags(p) + Seq::new(s@.len(), |_i: int| active(p)),
            _ => char_tags(p),
        }
    }
}

/// What a token contributes to a colourised line.
pub open spec fn token_code(t: Token) -> Seq<char> {
    match t {
        Token::Start(k) => match ansi_of(tag_of(k@)) {
            Some(n) => fg_code(n),
            None => Seq::<char>::empty(),
        },
        Token::Text(s) => s@,
        Token::End(_) => reset_code(),
    }
}

/// A token line as colourised text, before its closing reset.
pub open spec fn colored(toks: Seq<Token>) -> Seq<char>
    decreases toks.len(),
{
    if toks.len() == 0 {
        Seq::<char>::empty()
    } else {
        colored(toks.drop_last()) + token_code(toks.last())
    }
}

/// The category of each grapheme of the line: that of its first character.
pub open spec fn cluster_tags(toks: Seq<Token>) -> Seq<Tag> {
    let gs = graphemes_of(line_text(toks));
    Seq::new(gs.len(), |k: int| char_tags(toks)[gs.take(k).flatten().len() as int])
}

/// Grapheme `k` as painted: a colour change when its category differs from the one before
/// (plain before the first painted grapheme `b`), then its visible text.
pub open spec fn piece(gs: Seq<Seq<char>>, tags: Seq<Tag>, k: int, b: int) -> Seq<char> {
    let prev = if k == b { Tag::Plain } else { tags[k - 1] };
    (if tags[k] == prev { Seq::<char>::empty() } else { marker(tags[k]) }) + expand(gs[k])
}

/// Columns `[start, end)` of a token line, clamped, painted and closed by a colour reset.
pub open spec fn painted(toks: Seq<Token>, start: int, end: int) -> Seq<char> {
    let gs = graphemes_of(line_text(toks));
    let e = if end < gs.len() { end } else { gs.len() as int };
    let b = if start < e { start } else { e };
    Seq::new((e - b) as nat, |j: int| piece(gs, cluster_tags(toks), b + j, b)).flatten()
        + reset_code()
}

pub proof fn lemma_char_tags_len(toks: Seq<Token>)
    ensures
        char_tags(toks).len() == line_text(toks).len(),
    decreases toks.len(),
{
    if toks.len() > 0 {
        lemma_char_tags_len(toks.drop_last());
    }
}

/// Relies on synoptic's `Highlighter::run`: it yields one token list per `\n`-separated
/// line of `code`, and the text tokens of each list spell that line in order (start and
/// end tokens carry only a tag name). Which tag wins where rules overlap is left open.
#[verifier::external_body]
fn run(engine: &Highlighter, code: &str) -> (r: Vec<Vec<Token>>)
    ensures
        r@.len() == split_lines(code@).len(),
        forall|k: int| 0 <= k < r@.len() ==> line_text((#[trigger] r@[k])@) == split_lines(code@)[k],
{
    engine.run(code).into_iter().map(|line| line.into_iter().map(|t| match t {
        synoptic::Token::Start(k) => Token::Start(k),
        synoptic::Token::Text(s) => Token::Text(s),
        synoptic::Token::End(k) => Token::End(k),
    }).collect()).collect()
}

/// The overlay: the tokenizer, its token lines for the current text, and each line
/// colourised.
pub struct Highlight {
    engine: Highlighter,
    contents: Vec<Vec<Token>>,
    lines: Vec<String>,
    source: Ghost<Seq<char>>,
}

impl Highlight {
    /// The text the overlay was computed from.
    pub closed spec fn source(&self) -> Seq<char> {
        self.source@
    }

    /// The token lines.
    pub closed spec fn tokens(&self) -> Seq<Seq<Token>> {
        self.contents@.map_values(|l: Vec<Token>| l@)
    }

    /// The colourised lines.
    pub closed spec fn colored_lines(&self) -> Seq<Seq<char>> {
        views(self.lines@)
    }

    /// One token line per line of the source, spelling it, and each colourised line
    /// derived from its token line.
    pub open spec fn wf(&self) -> bool {
        &&& self.tokens().len() == split_lines(self.source()).len()
        &&& forall|k: int| 0 <= k < self.tokens().len()
            ==> line_text(#[trigger] self.tokens()[k]) == split_lines(self.source())[k]
        &&& self.colored_lines().len() == self.tokens().len()
        &&& forall|k: int| 0 <= k < self.tokens().len()
            ==> #[trigger] self.colored_lines()[k] == colored(self.tokens()[k]) + reset_code()
    }

    /// The overlay of `input`, highlighted as Rust.
    pub fn new(input: String) -> (r: Self)
        ensures
            r.wf(),
            r.source() == input@,
    {
        let engine = synoptic::languages::rust();
        let mut s = Self {
            engine,
            contents: Vec::new(),
            lines: Vec::new(),
            source: Ghost(Seq::<char>::empty()),
        };
        s.parse(input);
        s
    }

    /// Recomputes the whole overlay from `input`.
    pub fn parse(&mut self, input: String)
        ensures
            final(self).wf(),
            final(self).source() == input@,
    {
        self.contents = run(&self.engine, input.as_str());
        self.source = Ghost(input@);
        let mut lines: Vec<String> = Vec::new();
        let mut i: usize = 0;
        while i < self.contents.len()
            invariant
                i <= self.contents@.len(),
                lines@.len() == i,
                forall|k: int| 0 <= k < i ==> (#[trigger] lines@[k])@ == colored(self.contents@[k]@)
                    + reset_code(),
            decreases self.contents@.len() - i,
        {
            let line = self.parse_line(self.contents[i].as_slice());
            lines.push(line);
            i = i + 1;
        }
        self.lines = lines;
        proof {
            assert(self.colored_lines().len() == self.tokens().len());
            assert forall|k: int| 0 <= k < self.tokens().len() implies #[trigger] self.colored_lines()[k]
                == colored(self.tokens()[k]) + reset_code() by {
                assert(self.tokens()[k] == self.contents@[k]@);
                assert(self.colored_lines()[k] == self.lines@[k]@);
            }
        }
    }

    /// The colourised line `index`, if there is one.
    pub fn row(&self, index: usize) -> (r: Option<String>)
        ensures
            index < self.colored_lines().len() ==> r is Some && r->0@ == self.colored_lines()[index as int],
            index >= self.colored_lines().len() ==> r is None,
    {
        if index < self.lines.len() {
            Some(self.lines[index].clone())
        } else {
            None
        }
    }

    /// The number of grapheme columns of line `index` (0 for a missing line).
    pub fn len(&self, index: usize) -> (r: usize)
        ensures
            index < self.tokens().len() ==> r == graphemes_of(line_text(self.tokens()[index as int])).len(),
            index >= self.tokens().len() ==> r == 0,
    {
        if index < self.contents.len() {
            let (text, _tags) = Self::plain(self.contents[index].as_slice());
            proof {
                assert(self.tokens()[index as int] == self.contents@[index as int]@);
            }
            graphemes(text.as_str()).len()
        } else {
            0
        }
    }

    /// Columns `[start, end)` of line `index` (clamped), colourised: a colour change only
    /// where the category changes, tabs as four spaces, whole clusters only, and a closing
    /// colour reset. A missing line renders as the reset alone.
    pub fn render(&self, index: usize, start: usize, end: usize) -> (r: String)
        ensures
            index < self.tokens().len() ==> r@ == painted(
                self.tokens()[index as int],
                start as int,
                end as int,
            ),
            index >= self.tokens().len() ==> r@ == reset_code(),
    {
        if index >= self.contents.len() {
            return reset_fg();
        }
        let (text, tags) = Self::plain(self.contents[index].as_slice());
        let gs = graphemes(text.as_str());
        let total = tags.len();
        let e = if end < gs.len() { end } else { gs.len() };
        let b = if start < e { start } else { e };
        let ghost toks = self.contents@[index as int]@;
        let ghost g = graphemes_of(text@);
        let ghost ct = cluster_tags(toks);
        let ghost w = Seq::new((e - b) as nat, |j: int| piece(g, ct, b + j, b as int));
        proof {
            assert(self.tokens()[index as int] == toks);
            lemma_char_tags_len(toks);
        }
        let mut off: usize = 0;
        let mut k: usize = 0;
        while k < b
            invariant
                k <= b <= e <= gs@.len(),
                views(gs@) == g,
                g.flatten() == text@,
                text@.len() == tags@.len(),
                total == tags@.len(),
                off == g.take(k as int).flatten().len(),
            decreases b - k,
        {
            proof {
                lemma_take_step(g, k as int);
            }
            off = off + gs[k].as_str().unicode_len();
            k = k + 1;
        }
        let mut out = String::new();
        let mut prev = Tag::Plain;
        while k < e
            invariant
                b <= k <= e <= gs@.len(),
                views(gs@) == g,
                g == graphemes_of(line_text(toks)),
                g.flatten() == text@,
                text@ == line_text(toks),
                tags@ == char_tags(toks),
                text@.len() == tags@.len(),
                total == tags@.len(),
                forall|j: int| 0 <= j < gs@.len() ==> (#[trigger] gs@[j])@.len() > 0,
                ct == cluster_tags(toks),
                w == Seq::new((e - b) as nat, |j: int| piece(g, ct, b + j, b as int)),
                off == g.take(k as int).flatten().len(),
                prev == (if k == b { Tag::Plain } else { ct[k - 1] }),
                out@ == w.take(k - b).flatten(),
            decreases e - k,
        {
            proof {
                lemma_take_step(g, k as int);
                assert(gs@[k as int]@ == g[k as int]);
            }
            let t = tags[off];
            assert(t == ct[k as int]);
            if t != prev {
                match t.ansi() {
                    Some(n) => {
                        let code = ansi_fg(n);
                        out.append(code.as_str());
                    },
                    None => {
                        let code = reset_fg();
                        out.append(code.as_str());
                    },
                }
            }
            let first = gs[k].as_str().get_char(0);
            if first == '\t' {
                proof {
                    reveal_strlit("    ");
                }
                out.append("    ");
            } else {
                out.append(gs[k].as_str());
            }
            proof {
                assert(w[k - b] == piece(g, ct, k as int, b as int));
                assert(w.take(k - b + 1) == w.take(k - b).push(w[k - b]));
                w.take(k - b).lemma_flatten_push(w[k - b]);
            }
            prev = t;
            off = off + gs[k].as_str().unicode_len();
            k = k + 1;
        }
        assert(w.take(e - b) == w);
        let code = reset_fg();
        out.append(code.as_str());
        out
    }

    /// The text of a token line and the category of each of its characters.
    fn plain(toks: &[Token]) -> (r: (String, Vec<Tag>))
        ensures
            r.0@ == line_text(toks@),
            r.1@ == char_tags(toks@),
    {
        let mut text = String::new();
        let mut tags: Vec<Tag> = Vec::new();
        let mut cur = Tag::Plain;
        let mut i: usize = 0;
        while i < toks.len()
            invariant
                i <= toks@.len(),
                text@ == line_text(toks@.take(i as int)),
                tags@ == char_tags(toks@.take(i as int)),
                cur == active(toks@.take(i as int)),
            decreases toks@.len() - i,
        {
            let ghost p = toks@.take(i as int);
            proof {
                assert(toks@.take(i + 1).drop_last() == p);
                assert(toks@.take(i + 1).last() == toks@[i as int]);
            }
            match &toks[i] {
                Token::Start(k) => {
                    cur = Tag::from_name(k.as_str());
                },
                Token::Text(s) => {
                    text.append(s.as_str());
                    let n = s.as_str().unicode_len();
                    let mut j: usize = 0;
                    while j < n
                        invariant
                            j <= n,
                            n == s@.len(),
                            cur == active(p),
                            tags@ == char_tags(p) + Seq::new(j as nat, |_i: int| active(p)),
                        decreases n - j,
                    {
                        tags.push(cur);
                        proof {
                            assert(char_tags(p) + Seq::new((j + 1) as nat, |_i: int| active(p))
                                == (char_tags(p) + Seq::new(j as nat, |_i: int| active(p))).push(cur));
                        }
                        j = j + 1;
                    }
                },
                Token::End(_) => {
                    cur = Tag::Plain;
                },
            }
            i = i + 1;
        }
        assert(toks@.take(toks@.len() as int) == toks@);
        (text, tags)
    }

    /// A token line as colourised text: each run in its category's colour, unknown
    /// categories uncoloured, every run end and the line's end resetting the colour.
    pub fn parse_line(&self, c: &[Token]) -> (r: String)
        ensures
            r@ == colored(c@) + reset_code(),
    {
        let mut out = String::new();
        let mut i: usize = 0;
        while i < c.len()
            invariant
                i <= c@.len(),
                out@ == colored(c@.take(i as int)),
            decreases c@.len() - i,
        {
            proof {
                assert(c@.take(i + 1).drop_last() == c@.take(i as int));
                assert(c@.take(i + 1).last() == c@[i as int]);
            }
            match &c[i] {
                Token::Start(k) => {
                    match Tag::from_name(k.as_str()).ansi() {
                        Some(n) => {
                            let code = ansi_fg(n);
                            out.append(code.as_str());
                        },
                        None => {},
                    }
                },
                Token::Text(s) => {
                    out.append(s.as_str());
                },
                Token::End(_) => {
                    let code = reset_fg();
                    out.append(code.as_str());
                },
            }
            i = i + 1;
        }
        assert(c@.take(c@.len() as int) == c@);
        let code = reset_fg();
        out.append(code.as_str());
        out
    }
}

} // verus!
