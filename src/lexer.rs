//! Turns the lines of a configuration into indentation-tagged key/value records.
use vstd::prelude::*;

use crate::text::{
    chars_of, find, find_char, lemma_find_char_bounds, replace_char, replaced, slice, trim,
    trimmed,
};

verus! {

/// One meaningful line: its 1-based number in the text, its count of leading spaces,
/// whether it is a list item (`-`), and the key and value around its first `:`.
pub struct Line {
    pub number: usize,
    pub indent: usize,
    pub dashed: bool,
    pub key: Vec<char>,
    pub value: Vec<char>,
}

pub struct LineView {
    pub number: usize,
    pub indent: usize,
    pub dashed: bool,
    pub key: Seq<char>,
    pub value: Seq<char>,
}

impl View for Line {
    type V = LineView;

    open spec fn view(&self) -> LineView {
        LineView {
            number: self.number,
            indent: self.indent,
            dashed: self.dashed,
            key: self.key@,
            value: self.value@,
        }
    }
}

/// First index at or after `i` that does not hold `c`.
pub open spec fn run_end(s: Seq<char>, c: char, i: int) -> int
    decreases s.len() - i,
{
    if 0 <= i < s.len() && s[i] == c {
        run_end(s, c, i + 1)
    } else {
        i
    }
}

/// The record for the text `raw` of line `number`, or none for a blank line or a
/// comment.
pub open spec fn lex_line(raw: Seq<char>, number: usize) -> Option<LineView> {
    let n = run_end(raw, ' ', 0);
    let body = raw.skip(n);
    if body.len() == 0 || body[0] == '#' {
        None
    } else {
        let dashed = body[0] == '-';
        let entry = if dashed {
            trim(body.skip(1))
        } else {
            body
        };
        let k = find_char(entry, ':', 0);
        Some(
            LineView {
                number,
                indent: n as usize,
                dashed,
                key: entry.take(k),
                value: if k < entry.len() {
                    trim(replace_char(entry.skip(k + 1), ':', ' '))
                } else {
                    Seq::<char>::empty()
                },
            },
        )
    }
}

/// The records of all meaningful lines of `raw`, in order.
pub open spec fn tokens(raw: Seq<Seq<char>>) -> Seq<LineView>
    decreases raw.len(),
{
    if raw.len() == 0 {
        Seq::<LineView>::empty()
    } else {
        let before = tokens(raw.drop_last());
        match lex_line(raw.last(), raw.len() as usize) {
            Some(l) => before.push(l),
            None => before,
        }
    }
}

pub open spec fn texts(raw: Seq<String>) -> Seq<Seq<char>> {
    raw.map_values(|s: String| s@)
}

/// Reads line `number`, whose text is `raw`.
pub fn lex(raw: &Vec<char>, number: usize) -> (r: Option<Line>)
    ensures
        match r {
            Some(l) => lex_line(raw@, number) == Some(l@),
            None => lex_line(raw@, number) is None,
        },
{
    let mut n: usize = 0;
    while n < raw.len() && raw[n] == ' '
        invariant
            n <= raw@.len(),
            run_end(raw@, ' ', n as int) == run_end(raw@, ' ', 0),
        decreases raw@.len() - n,
    {
        n += 1;
    }
    let body = slice(raw, n, raw.len());
    assert(body@ =~= raw@.skip(n as int));
    if body.len() == 0 || body[0] == '#' {
        return None;
    }
    let dashed = body[0] == '-';
    let entry = if dashed {
        let rest = slice(&body, 1, body.len());
        assert(rest@ =~= body@.skip(1));
        trimmed(&rest)
    } else {
        body
    };
    let k = find(&entry, ':', 0);
    proof {
        lemma_find_char_bounds(entry@, ':', 0);
    }
    let key = slice(&entry, 0, k);
    assert(key@ =~= entry@.take(k as int));
    let value = if k < entry.len() {
        let rest = slice(&entry, k + 1, entry.len());
        assert(rest@ =~= entry@.skip(k + 1));
        trimmed(&replaced(&rest, ':', ' '))
    } else {
        Vec::new()
    };
    let line = Line { number, indent: n, dashed, key, value };
    assert(line@.value =~= lex_line(raw@, number).unwrap().value);
    Some(line)
}

/// The record sequence of a configuration, with a cursor on the record at hand.
pub struct Parser {
    pub lines: Vec<Line>,
    pub pos: usize,
}

impl Parser {
    pub open spec fn records(&self) -> Seq<LineView> {
        self.lines@.map_values(|l: Line| l@)
    }

    /// Reads the lines of a configuration; the cursor stands on the first record.
    pub fn new(raw: &Vec<String>) -> (p: Parser)
        ensures
            p.records() == tokens(texts(raw@)),
            p.pos == 0,
    {
        let mut lines: Vec<Line> = Vec::new();
        let mut i: usize = 0;
        assert(texts(raw@).take(0) =~= Seq::<Seq<char>>::empty());
        while i < raw.len()
            invariant
                i <= raw@.len(),
                lines@.map_values(|l: Line| l@) == tokens(texts(raw@).take(i as int)),
            decreases raw@.len() - i,
        {
            let text = chars_of(raw[i].as_str());
            let ghost seen = texts(raw@).take(i as int + 1);
            assert(seen.drop_last() =~= texts(raw@).take(i as int));
            assert(seen.last() == raw@[i as int]@);
            let ghost before = lines@.map_values(|l: Line| l@);
            match lex(&text, i + 1) {
                Some(l) => {
                    lines.push(l);
                    assert(lines@.map_values(|l: Line| l@) =~= before.push(l@));
                },
                None => {},
            }
            i += 1;
        }
        assert(texts(raw@).take(raw@.len() as int) =~= texts(raw@));
        Parser { lines, pos: 0 }
    }

    /// Moves the cursor to the next record; at the end it stays there.
    pub fn accept(&mut self)
        ensures
            final(self).lines == old(self).lines,
            final(self).pos == if old(self).pos < old(self).lines@.len() {
                old(self).pos + 1
            } else {
                old(self).pos as int
            },
    {
        if self.pos < self.lines.len() {
            self.pos = self.pos + 1;
        }
    }
}

} // verus!
