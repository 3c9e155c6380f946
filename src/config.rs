//! The indentation-scoped grammar of a configuration and its parser.
//!
//! A block is the run of records, after a header, whose indentation is greater than
//! the header's. Its keys are read at the indentation of its first record; a record
//! indented less ends the block without being read, and one indented more that no
//! key took, or an unknown key at the block's indentation, is an error.
use vstd::prelude::*;

use crate::lexer::{LineView, Parser, texts, tokens};
use crate::number::{parse_unsigned, unsigned_of};
use crate::session::{
    BackgroundView, DistributionView, Session, SessionBackground, SessionDistribution, SessionRGB,
    SessionSize, SessionView, SessionXYZ, SessionYPB, Triple, constant_of, default_session,
    zero_triple,
};
use crate::text::{has_prefix, same_text, slice, starts_with, string_of, trimmed};
use crate::values::{
    after, distribution_of, format_of, parse_distribution, parse_format, parse_path,
    parse_projection, parse_size, parse_style, path_of, projection_of, size_of, style_of,
};

verus! {

#[derive(PartialEq, Eq, Structural, Clone, Copy, Debug)]
pub enum ParseErrorKind {
    /// A record indented where nothing can stand, or a session not in the first column.
    Indentation,
    /// A key that the block does not know, at the block's indentation.
    UnknownKey,
    /// Neither a real literal nor `normal <mean>,<deviation>`.
    Distribution,
    /// Neither `replace <dir>` nor `append <dir>`.
    Path,
    /// Not an unsigned integer.
    Count,
    /// Not one of `still`, `still_depth`, `moving`, `moving_depth`.
    Style,
    /// Not one of `bmp`, `png`, `protobuf`.
    Format,
    /// Not `<width>,<height>`.
    Size,
    /// Not `perspective <fovy>,<aspect>,<near>,<far>`.
    Projection,
    /// Not `black`, `color` or `image <dir>`.
    Background,
}

/// A rejected configuration: the 1-based number of the offending line and what was
/// wrong with it.
#[derive(PartialEq, Eq, Structural, Clone, Copy, Debug)]
pub struct ParseError {
    pub line: usize,
    pub kind: ParseErrorKind,
}

impl ParseError {
    /// What the parser expected at the offending line.
    pub fn expectation(&self) -> &'static str {
        match self.kind {
            ParseErrorKind::Indentation => "indentation does not match any block",
            ParseErrorKind::UnknownKey => "key not valid in this block",
            ParseErrorKind::Distribution => "constant or normal distribution expected",
            ParseErrorKind::Path => "replace or append expected",
            ParseErrorKind::Count => "unsigned integer expected",
            ParseErrorKind::Style => "still, still_depth, moving or moving_depth expected",
            ParseErrorKind::Format => "bmp, png or protobuf expected",
            ParseErrorKind::Size => "width,height expected",
            ParseErrorKind::Projection => "perspective fovy,aspect,near,far expected",
            ParseErrorKind::Background => "black, color or image expected",
        }
    }
}

pub open spec fn error_at(l: LineView, kind: ParseErrorKind) -> ParseError {
    ParseError { line: l.number, kind }
}

/// The indentation of the record at `i`: the block indentation of a block that begins there.
pub open spec fn indent_at(t: Seq<LineView>, i: nat) -> usize {
    if i < t.len() {
        t[i as int].indent
    } else {
        0
    }
}

/// The record at `i` is outside the block: past the end, not deeper than the parent,
/// or less deep than the block's own keys.
pub open spec fn block_ends(t: Seq<LineView>, i: nat, parent: usize, cur: usize) -> bool {
    i >= t.len() || t[i as int].indent <= parent || t[i as int].indent < cur
}

/// Which of the three one-letter keys `key` is, or -1.
pub open spec fn slot(key: Seq<char>, names: (char, char, char)) -> int {
    if key == seq![names.0] {
        0
    } else if key == seq![names.1] {
        1
    } else if key == seq![names.2] {
        2
    } else {
        -1
    }
}

pub open spec fn set_slot(t: Triple, k: int, d: DistributionView) -> Triple {
    if k == 0 {
        (d, t.1, t.2)
    } else if k == 1 {
        (t.0, d, t.2)
    } else {
        (t.0, t.1, d)
    }
}

/// The rest of a block of three distributions, from record `i`: the triple and the
/// first record after the block.
pub open spec fn triple_entries(
    t: Seq<LineView>,
    i: nat,
    parent: usize,
    cur: usize,
    names: (char, char, char),
    acc: Triple,
) -> Result<(Triple, nat), ParseError>
    decreases t.len() - i,
{
    if block_ends(t, i, parent, cur) {
        Ok((acc, i))
    } else if t[i as int].indent > cur {
        Err(error_at(t[i as int], ParseErrorKind::Indentation))
    } else if slot(t[i as int].key, names) < 0 {
        Err(error_at(t[i as int], ParseErrorKind::UnknownKey))
    } else {
        match distribution_of(t[i as int].value) {
            Some(d) => triple_entries(
                t,
                i + 1,
                parent,
                cur,
                names,
                set_slot(acc, slot(t[i as int].key, names), d),
            ),
            None => Err(error_at(t[i as int], ParseErrorKind::Distribution)),
        }
    }
}

/// A block of three distributions that begins at record `i`, under a header indented `parent`.
pub open spec fn triple_block(t: Seq<LineView>, i: nat, parent: usize, names: (char, char, char)) -> Result<(Triple, nat), ParseError> {
    triple_entries(t, i, parent, indent_at(t, i), names, zero_triple())
}

/// A block parse that succeeds from `i` ends at some `j >= i`, and every record it
/// read is deeper than `parent`.
pub open spec fn stays_inside(t: Seq<LineView>, i: nat, parent: usize, j: nat) -> bool {
    i <= j && (i <= t.len() ==> j <= t.len()) && forall|k: int|
        i <= k < j ==> #[trigger] t[k].indent > parent
}

pub proof fn lemma_triple_inside(
    t: Seq<LineView>,
    i: nat,
    parent: usize,
    cur: usize,
    names: (char, char, char),
    acc: Triple,
)
    ensures
        triple_entries(t, i, parent, cur, names, acc) is Ok ==> stays_inside(
            t,
            i,
            parent,
            triple_entries(t, i, parent, cur, names, acc)->Ok_0.1,
        ),
    decreases t.len() - i,
{
    if !block_ends(t, i, parent, cur) && t[i as int].indent == cur && slot(t[i as int].key, names)
        >= 0 {
        match distribution_of(t[i as int].value) {
            Some(d) => lemma_triple_inside(
                t,
                i + 1,
                parent,
                cur,
                names,
                set_slot(acc, slot(t[i as int].key, names), d),
            ),
            None => {},
        }
    }
}

/// The rest of a block of two sub-blocks of three distributions, keyed `k1` and `k2`.
pub open spec fn pair_entries(
    t: Seq<LineView>,
    i: nat,
    parent: usize,
    cur: usize,
    k1: Seq<char>,
    n1: (char, char, char),
    k2: Seq<char>,
    n2: (char, char, char),
    acc: (Triple, Triple),
) -> Result<((Triple, Triple), nat), ParseError>
    decreases t.len() - i,
    via pair_entries_decreases
{
    if block_ends(t, i, parent, cur) {
        Ok((acc, i))
    } else if t[i as int].indent > cur {
        Err(error_at(t[i as int], ParseErrorKind::Indentation))
    } else if t[i as int].key == k1 {
        match triple_block(t, i + 1, cur, n1) {
            Ok((x, j)) => pair_entries(t, j, parent, cur, k1, n1, k2, n2, (x, acc.1)),
            Err(e) => Err(e),
        }
    } else if t[i as int].key == k2 {
        match triple_block(t, i + 1, cur, n2) {
            Ok((x, j)) => pair_entries(t, j, parent, cur, k1, n1, k2, n2, (acc.0, x)),
            Err(e) => Err(e),
        }
    } else {
        Err(error_at(t[i as int], ParseErrorKind::UnknownKey))
    }
}

#[via_fn]
proof fn pair_entries_decreases(
    t: Seq<LineView>,
    i: nat,
    parent: usize,
    cur: usize,
    k1: Seq<char>,
    n1: (char, char, char),
    k2: Seq<char>,
    n2: (char, char, char),
    acc: (Triple, Triple),
) {
    lemma_triple_inside(t, i + 1, cur, indent_at(t, i + 1), n1, zero_triple());
    lemma_triple_inside(t, i + 1, cur, indent_at(t, i + 1), n2, zero_triple());
}

pub open spec fn pair_block(
    t: Seq<LineView>,
    i: nat,
    parent: usize,
    k1: Seq<char>,
    n1: (char, char, char),
    k2: Seq<char>,
    n2: (char, char, char),
) -> Result<((Triple, Triple), nat), ParseError> {
    pair_entries(t, i, parent, indent_at(t, i), k1, n1, k2, n2, (zero_triple(), zero_triple()))
}

pub proof fn lemma_pair_inside(
    t: Seq<LineView>,
    i: nat,
    parent: usize,
    cur: usize,
    k1: Seq<char>,
    n1: (char, char, char),
    k2: Seq<char>,
    n2: (char, char, char),
    acc: (Triple, Triple),
)
    ensures
        pair_entries(t, i, parent, cur, k1, n1, k2, n2, acc) is Ok ==> stays_inside(
            t,
            i,
            parent,
            pair_entries(t, i, parent, cur, k1, n1, k2, n2, acc)->Ok_0.1,
        ),
    decreases t.len() - i,
{
    if !block_ends(t, i, parent, cur) && t[i as int].indent == cur {
        let n = if t[i as int].key == k1 {
            n1
        } else {
            n2
        };
        if t[i as int].key == k1 || t[i as int].key == k2 {
            lemma_triple_inside(t, i + 1, cur, indent_at(t, i + 1), n, zero_triple());
            match triple_block(t, i + 1, cur, n) {
                Ok((x, j)) => {
                    let next = if t[i as int].key == k1 {
                        (x, acc.1)
                    } else {
                        (acc.0, x)
                    };
                    lemma_pair_inside(t, j, parent, cur, k1, n1, k2, n2, next);
                },
                Err(_) => {},
            }
        }
    }
}

/// Three distributions as the parser builds them.
pub type Dists = (SessionDistribution, SessionDistribution, SessionDistribution);

pub open spec fn dists_view(x: Dists) -> Triple {
    (x.0@, x.1@, x.2@)
}

fn key_slot(key: &Vec<char>, names: (char, char, char)) -> (r: usize)
    ensures
        r <= 3,
        r < 3 ==> r as int == slot(key@, names),
        r == 3 ==> slot(key@, names) < 0,
{
    if key.len() == 1 {
        let c = key[0];
        assert(key@ =~= seq![c]);
        if c == names.0 {
            0
        } else if c == names.1 {
            1
        } else if c == names.2 {
            2
        } else {
            3
        }
    } else {
        3
    }
}

/// Reads a block of three distributions keyed by the letters of `names`, which begins
/// at the cursor under a header indented `parent`.
fn parse_triple(p: &mut Parser, parent: usize, names: (char, char, char)) -> (r: Result<
    Dists,
    ParseError,
>)
    requires
        old(p).pos <= old(p).lines@.len(),
    ensures
        final(p).lines == old(p).lines,
        old(p).pos <= final(p).pos <= final(p).lines@.len(),
        match r {
            Ok(x) => triple_block(old(p).records(), old(p).pos as nat, parent, names) == Ok::<_, ParseError>(
                (dists_view(x), final(p).pos as nat),
            ),
            Err(e) => triple_block(old(p).records(), old(p).pos as nat, parent, names) == Err::<(Triple, nat), ParseError>(e),
        },
{
    let cur: usize = if p.pos < p.lines.len() {
        p.lines[p.pos].indent
    } else {
        0
    };
    let mut a = constant_of("0.0");
    let mut b = constant_of("0.0");
    let mut c = constant_of("0.0");
    let ghost t = p.records();
    let ghost goal = triple_block(t, p.pos as nat, parent, names);
    loop
        invariant
            p.lines == old(p).lines,
            t == p.records(),
            old(p).pos <= p.pos <= p.lines@.len(),
            goal == triple_block(old(p).records(), old(p).pos as nat, parent, names),
            goal == triple_entries(t, p.pos as nat, parent, cur, names, (a@, b@, c@)),
        decreases p.lines@.len() - p.pos,
    {
        if p.pos >= p.lines.len() {
            return Ok((a, b, c));
        }
        let indent = p.lines[p.pos].indent;
        let number = p.lines[p.pos].number;
        if indent <= parent || indent < cur {
            return Ok((a, b, c));
        }
        if indent > cur {
            return Err(ParseError { line: number, kind: ParseErrorKind::Indentation });
        }
        let k = key_slot(&p.lines[p.pos].key, names);
        if k == 3 {
            return Err(ParseError { line: number, kind: ParseErrorKind::UnknownKey });
        }
        match parse_distribution(&p.lines[p.pos].value) {
            Some(d) => {
                if k == 0 {
                    a = d;
                } else if k == 1 {
                    b = d;
                } else {
                    c = d;
                }
            },
            None => {
                return Err(ParseError { line: number, kind: ParseErrorKind::Distribution });
            },
        }
        p.accept();
    }
}

/// Reads a block of two sub-blocks of three distributions, headed `k1` and `k2`.
fn parse_pair(
    p: &mut Parser,
    parent: usize,
    k1: &str,
    n1: (char, char, char),
    k2: &str,
    n2: (char, char, char),
) -> (r: Result<(Dists, Dists), ParseError>)
    requires
        old(p).pos <= old(p).lines@.len(),
    ensures
        final(p).lines == old(p).lines,
        old(p).pos <= final(p).pos <= final(p).lines@.len(),
        match r {
            Ok(x) => pair_block(old(p).records(), old(p).pos as nat, parent, k1@, n1, k2@, n2)
                == Ok::<_, ParseError>(((dists_view(x.0), dists_view(x.1)), final(p).pos as nat)),
            Err(e) => pair_block(old(p).records(), old(p).pos as nat, parent, k1@, n1, k2@, n2)
                == Err::<((Triple, Triple), nat), ParseError>(e),
        },
{
    let cur: usize = if p.pos < p.lines.len() {
        p.lines[p.pos].indent
    } else {
        0
    };
    let mut first = (constant_of("0.0"), constant_of("0.0"), constant_of("0.0"));
    let mut second = (constant_of("0.0"), constant_of("0.0"), constant_of("0.0"));
    let ghost t = p.records();
    let ghost goal = pair_block(t, p.pos as nat, parent, k1@, n1, k2@, n2);
    loop
        invariant
            p.lines == old(p).lines,
            t == p.records(),
            old(p).pos <= p.pos <= p.lines@.len(),
            goal == pair_block(old(p).records(), old(p).pos as nat, parent, k1@, n1, k2@, n2),
            goal == pair_entries(
                t,
                p.pos as nat,
                parent,
                cur,
                k1@,
                n1,
                k2@,
                n2,
                (dists_view(first), dists_view(second)),
            ),
        decreases p.lines@.len() - p.pos,
    {
        if p.pos >= p.lines.len() {
            return Ok((first, second));
        }
        let indent = p.lines[p.pos].indent;
        let number = p.lines[p.pos].number;
        if indent <= parent || indent < cur {
            return Ok((first, second));
        }
        if indent > cur {
            return Err(ParseError { line: number, kind: ParseErrorKind::Indentation });
        }
        let ghost i = p.pos as nat;
        if same_text(&p.lines[p.pos].key, k1) {
            p.accept();
            proof {
                lemma_triple_inside(t, i + 1, cur, indent_at(t, i + 1), n1, zero_triple());
            }
            match parse_triple(p, cur, n1) {
                Ok(x) => {
                    first = x;
                },
                Err(e) => {
                    return Err(e);
                },
            }
        } else if same_text(&p.lines[p.pos].key, k2) {
            p.accept();
            proof {
                lemma_triple_inside(t, i + 1, cur, indent_at(t, i + 1), n2, zero_triple());
            }
            match parse_triple(p, cur, n2) {
                Ok(x) => {
                    second = x;
                },
                Err(e) => {
                    return Err(e);
                },
            }
        } else {
            return Err(ParseError { line: number, kind: ParseErrorKind::UnknownKey });
        }
    }
}

pub open spec fn xyz() -> (char, char, char) {
    ('x', 'y', 'z')
}

pub open spec fn ypb() -> (char, char, char) {
    ('y', 'p', 'b')
}

pub open spec fn rgb() -> (char, char, char) {
    ('r', 'g', 'b')
}

/// The session after a one-line setting `key: v`, or the error it is; none when `key`
/// is not a one-line setting (`background: color` heads a block).
pub open spec fn setting(key: Seq<char>, v: Seq<char>, s: SessionView) -> Option<
    Result<SessionView, ParseErrorKind>,
> {
    if key == "path"@ {
        Some(
            match path_of(v) {
                Some(p) => Ok(SessionView { path: p, ..s }),
                None => Err(ParseErrorKind::Path),
            },
        )
    } else if key == "csv"@ {
        Some(Ok(SessionView { csv: v, ..s }))
    } else if key == "count"@ {
        Some(
            match unsigned_of(v) {
                Some(n) => Ok(SessionView { count: n, ..s }),
                None => Err(ParseErrorKind::Count),
            },
        )
    } else if key == "style"@ {
        Some(
            match style_of(v) {
                Some(x) => Ok(SessionView { style: x, ..s }),
                None => Err(ParseErrorKind::Style),
            },
        )
    } else if key == "format"@ {
        Some(
            match format_of(v) {
                Some(x) => Ok(SessionView { format: x, ..s }),
                None => Err(ParseErrorKind::Format),
            },
        )
    } else if key == "size"@ {
        Some(
            match size_of(v) {
                Some(x) => Ok(SessionView { size: x, ..s }),
                None => Err(ParseErrorKind::Size),
            },
        )
    } else if key == "projection"@ {
        Some(
            match projection_of(v) {
                Some(x) => Ok(SessionView { projection: x, ..s }),
                None => Err(ParseErrorKind::Projection),
            },
        )
    } else if key == "background"@ && v != "color"@ {
        Some(
            if v == "black"@ {
                Ok(SessionView { background: BackgroundView::Color(zero_triple()), ..s })
            } else if has_prefix(v, "image"@) {
                Ok(SessionView { background: BackgroundView::Image(after(v, "image"@)), ..s })
            } else {
                Err(ParseErrorKind::Background)
            },
        )
    } else {
        None
    }
}

/// The session field that a block of three distributions headed `key` sets:
/// 0 to 6 for lefteye, righteye, background, ambient, skin, sclera, iris; else -1.
pub open spec fn triple_field(key: Seq<char>) -> int {
    if key == "lefteye"@ {
        0
    } else if key == "righteye"@ {
        1
    } else if key == "background"@ {
        2
    } else if key == "ambient"@ {
        3
    } else if key == "skin"@ {
        4
    } else if key == "sclera"@ {
        5
    } else if key == "iris"@ {
        6
    } else {
        -1
    }
}

pub open spec fn field_names(f: int) -> (char, char, char) {
    if f <= 1 {
        ypb()
    } else {
        rgb()
    }
}

pub open spec fn put_triple(s: SessionView, f: int, x: Triple) -> SessionView {
    if f == 0 {
        SessionView { lefteye: x, ..s }
    } else if f == 1 {
        SessionView { righteye: x, ..s }
    } else if f == 2 {
        SessionView { background: BackgroundView::Color(x), ..s }
    } else if f == 3 {
        SessionView { ambient_color: x, ..s }
    } else if f == 4 {
        SessionView { skin_color: x, ..s }
    } else if f == 5 {
        SessionView { sclera_color: x, ..s }
    } else {
        SessionView { iris_color: x, ..s }
    }
}

/// The rest of a session block from record `i`, its keys at indentation `cur`.
pub open spec fn session_entries(t: Seq<LineView>, i: nat, cur: usize, acc: SessionView) -> Result<
    (SessionView, nat),
    ParseError,
>
    decreases t.len() - i,
    via session_entries_decreases
{
    if block_ends(t, i, 0, cur) {
        Ok((acc, i))
    } else if t[i as int].indent > cur {
        Err(error_at(t[i as int], ParseErrorKind::Indentation))
    } else {
        let l = t[i as int];
        match setting(l.key, l.value, acc) {
            Some(Ok(s)) => session_entries(t, i + 1, cur, s),
            Some(Err(kind)) => Err(error_at(l, kind)),
            None => if l.key == "head"@ {
                match pair_block(t, i + 1, cur, "pos"@, xyz(), "dir"@, ypb()) {
                    Ok((h, j)) => session_entries(
                        t,
                        j,
                        cur,
                        SessionView { head_pos: h.0, head_dir: h.1, ..acc },
                    ),
                    Err(e) => Err(e),
                }
            } else if l.key == "light"@ {
                match pair_block(t, i + 1, cur, "dir"@, ypb(), "color"@, rgb()) {
                    Ok((h, j)) => session_entries(
                        t,
                        j,
                        cur,
                        SessionView { light_dir: h.0, light_color: h.1, ..acc },
                    ),
                    Err(e) => Err(e),
                }
            } else if triple_field(l.key) >= 0 {
                match triple_block(t, i + 1, cur, field_names(triple_field(l.key))) {
                    Ok((x, j)) => session_entries(
                        t,
                        j,
                        cur,
                        put_triple(acc, triple_field(l.key), x),
                    ),
                    Err(e) => Err(e),
                }
            } else {
                Err(error_at(l, ParseErrorKind::UnknownKey))
            },
        }
    }
}

#[via_fn]
proof fn session_entries_decreases(t: Seq<LineView>, i: nat, cur: usize, acc: SessionView) {
    let c = indent_at(t, i + 1);
    lemma_pair_inside(t, i + 1, cur, c, "pos"@, xyz(), "dir"@, ypb(), (zero_triple(), zero_triple()));
    lemma_pair_inside(t, i + 1, cur, c, "dir"@, ypb(), "color"@, rgb(), (zero_triple(), zero_triple()));
    if 0 <= i < t.len() {
        lemma_triple_inside(t, i + 1, cur, c, field_names(triple_field(t[i as int].key)), zero_triple());
    }
}

pub proof fn lemma_session_inside(t: Seq<LineView>, i: nat, cur: usize, acc: SessionView)
    ensures
        session_entries(t, i, cur, acc) is Ok ==> stays_inside(
            t,
            i,
            0,
            session_entries(t, i, cur, acc)->Ok_0.1,
        ),
    decreases t.len() - i,
{
    if !block_ends(t, i, 0, cur) && t[i as int].indent == cur {
        let l = t[i as int];
        let c = indent_at(t, i + 1);
        match setting(l.key, l.value, acc) {
            Some(Ok(s)) => lemma_session_inside(t, i + 1, cur, s),
            Some(Err(_)) => {},
            None => if l.key == "head"@ {
                lemma_pair_inside(t, i + 1, cur, c, "pos"@, xyz(), "dir"@, ypb(), (zero_triple(), zero_triple()));
                match pair_block(t, i + 1, cur, "pos"@, xyz(), "dir"@, ypb()) {
                    Ok((h, j)) => lemma_session_inside(
                        t,
                        j,
                        cur,
                        SessionView { head_pos: h.0, head_dir: h.1, ..acc },
                    ),
                    Err(_) => {},
                }
            } else if l.key == "light"@ {
                lemma_pair_inside(t, i + 1, cur, c, "dir"@, ypb(), "color"@, rgb(), (zero_triple(), zero_triple()));
                match pair_block(t, i + 1, cur, "dir"@, ypb(), "color"@, rgb()) {
                    Ok((h, j)) => lemma_session_inside(
                        t,
                        j,
                        cur,
                        SessionView { light_dir: h.0, light_color: h.1, ..acc },
                    ),
                    Err(_) => {},
                }
            } else if triple_field(l.key) >= 0 {
                lemma_triple_inside(t, i + 1, cur, c, field_names(triple_field(l.key)), zero_triple());
                match triple_block(t, i + 1, cur, field_names(triple_field(l.key))) {
                    Ok((x, j)) => lemma_session_inside(
                        t,
                        j,
                        cur,
                        put_triple(acc, triple_field(l.key), x),
                    ),
                    Err(_) => {},
                }
            },
        }
    }
}

/// The sessions from record `i` on, after those already read.
pub open spec fn sessions_from(t: Seq<LineView>, i: nat, acc: Seq<SessionView>) -> Result<
    Seq<SessionView>,
    ParseError,
>
    decreases t.len() - i,
    via sessions_from_decreases
{
    if i >= t.len() {
        Ok(acc)
    } else if t[i as int].indent != 0 {
        Err(error_at(t[i as int], ParseErrorKind::Indentation))
    } else {
        match session_entries(t, i + 1, indent_at(t, i + 1), default_session(t[i as int].key)) {
            Ok((s, j)) => sessions_from(t, j, acc.push(s)),
            Err(e) => Err(e),
        }
    }
}

#[via_fn]
proof fn sessions_from_decreases(t: Seq<LineView>, i: nat, acc: Seq<SessionView>) {
    if 0 <= i < t.len() {
        lemma_session_inside(t, i + 1, indent_at(t, i + 1), default_session(t[i as int].key));
    }
}

/// The sessions that the configuration with lines `raw` describes, or the first error
/// in it.
pub open spec fn config_of(raw: Seq<Seq<char>>) -> Result<Seq<SessionView>, ParseError> {
    sessions_from(tokens(raw), 0, Seq::<SessionView>::empty())
}

fn apply_setting(session: &mut Session, key: &Vec<char>, v: &Vec<char>) -> (r: Option<
    Result<(), ParseErrorKind>,
>)
    ensures
        match setting(key@, v@, old(session)@) {
            None => r is None && final(session)@ == old(session)@,
            Some(Ok(s)) => r == Some(Ok::<(), ParseErrorKind>(())) && final(session)@ == s,
            Some(Err(k)) => r == Some(Err::<(), ParseErrorKind>(k)),
        },
{
    if same_text(key, "path") {
        match parse_path(v) {
            Some(p) => {
                session.path = p;
                Some(Ok(()))
            },
            None => Some(Err(ParseErrorKind::Path)),
        }
    } else if same_text(key, "csv") {
        session.csv = string_of(v);
        Some(Ok(()))
    } else if same_text(key, "count") {
        match parse_unsigned(v) {
            Some(n) => {
                session.count = n;
                Some(Ok(()))
            },
            None => Some(Err(ParseErrorKind::Count)),
        }
    } else if same_text(key, "style") {
        match parse_style(v) {
            Some(x) => {
                session.style = x;
                Some(Ok(()))
            },
            None => Some(Err(ParseErrorKind::Style)),
        }
    } else if same_text(key, "format") {
        match parse_format(v) {
            Some(x) => {
                session.format = x;
                Some(Ok(()))
            },
            None => Some(Err(ParseErrorKind::Format)),
        }
    } else if same_text(key, "size") {
        match parse_size(v) {
            Some((x, y)) => {
                session.size = SessionSize { x, y };
                Some(Ok(()))
            },
            None => Some(Err(ParseErrorKind::Size)),
        }
    } else if same_text(key, "projection") {
        match parse_projection(v) {
            Some(x) => {
                session.projection = x;
                Some(Ok(()))
            },
            None => Some(Err(ParseErrorKind::Projection)),
        }
    } else if same_text(key, "background") && !same_text(v, "color") {
        if same_text(v, "black") {
            session.background = SessionBackground::Color(
                SessionRGB { r: constant_of("0.0"), g: constant_of("0.0"), b: constant_of("0.0") },
            );
            Some(Ok(()))
        } else if starts_with(v, "image") {
            let n = "image".unicode_len();
            let rest = slice(v, n, v.len());
            assert(rest@ =~= v@.skip(n as int));
            session.background = SessionBackground::Image(string_of(&trimmed(&rest)));
            Some(Ok(()))
        } else {
            Some(Err(ParseErrorKind::Background))
        }
    } else {
        None
    }
}

fn triple_field_of(key: &Vec<char>) -> (r: usize)
    ensures
        r <= 7,
        r < 7 ==> r as int == triple_field(key@),
        r == 7 ==> triple_field(key@) < 0,
{
    if same_text(key, "lefteye") {
        0
    } else if same_text(key, "righteye") {
        1
    } else if same_text(key, "background") {
        2
    } else if same_text(key, "ambient") {
        3
    } else if same_text(key, "skin") {
        4
    } else if same_text(key, "sclera") {
        5
    } else if same_text(key, "iris") {
        6
    } else {
        7
    }
}

fn names_of(f: usize) -> (r: (char, char, char))
    ensures
        r == field_names(f as int),
{
    if f <= 1 {
        ('y', 'p', 'b')
    } else {
        ('r', 'g', 'b')
    }
}

fn put_triple_exec(session: &mut Session, f: usize, x: Dists)
    requires
        f < 7,
    ensures
        final(session)@ == put_triple(old(session)@, f as int, dists_view(x)),
{
    let (a, b, c) = x;
    if f <= 1 {
        let d = SessionYPB { y: a, p: b, b: c };
        if f == 0 {
            session.lefteye = d;
        } else {
            session.righteye = d;
        }
    } else {
        let d = SessionRGB { r: a, g: b, b: c };
        if f == 2 {
            session.background = SessionBackground::Color(d);
        } else if f == 3 {
            session.ambient_color = d;
        } else if f == 4 {
            session.skin_color = d;
        } else if f == 5 {
            session.sclera_color = d;
        } else {
            session.iris_color = d;
        }
    }
}

/// Reads the block of the session `name`, which begins at the cursor.
fn parse_session(p: &mut Parser, name: String) -> (r: Result<Session, ParseError>)
    requires
        old(p).pos <= old(p).lines@.len(),
    ensures
        final(p).lines == old(p).lines,
        old(p).pos <= final(p).pos <= final(p).lines@.len(),
        match r {
            Ok(s) => session_entries(
                old(p).records(),
                old(p).pos as nat,
                indent_at(old(p).records(), old(p).pos as nat),
                default_session(name@),
            ) == Ok::<_, ParseError>((s@, final(p).pos as nat)),
            Err(e) => session_entries(
                old(p).records(),
                old(p).pos as nat,
                indent_at(old(p).records(), old(p).pos as nat),
                default_session(name@),
            ) == Err::<(SessionView, nat), ParseError>(e),
        },
{
    let cur: usize = if p.pos < p.lines.len() {
        p.lines[p.pos].indent
    } else {
        0
    };
    let ghost t = p.records();
    let ghost goal = session_entries(t, p.pos as nat, cur, default_session(name@));
    let mut session = Session::with_defaults(name);
    loop
        invariant
            p.lines == old(p).lines,
            t == p.records(),
            old(p).pos <= p.pos <= p.lines@.len(),
            cur == indent_at(t, old(p).pos as nat),
            goal == session_entries(t, old(p).pos as nat, cur, default_session(name@)),
            goal == session_entries(t, p.pos as nat, cur, session@),
        decreases p.lines@.len() - p.pos,
    {
        if p.pos >= p.lines.len() {
            return Ok(session);
        }
        let indent = p.lines[p.pos].indent;
        let number = p.lines[p.pos].number;
        if indent == 0 || indent < cur {
            return Ok(session);
        }
        if indent > cur {
            return Err(ParseError { line: number, kind: ParseErrorKind::Indentation });
        }
        let ghost i = p.pos as nat;
        let ghost before = session@;
        let ghost c = indent_at(t, i + 1);
        match apply_setting(&mut session, &p.lines[p.pos].key, &p.lines[p.pos].value) {
            Some(Ok(())) => {
                p.accept();
            },
            Some(Err(kind)) => {
                return Err(ParseError { line: number, kind });
            },
            None => {
                let f = triple_field_of(&p.lines[p.pos].key);
                if same_text(&p.lines[p.pos].key, "head") {
                    p.accept();
                    match parse_pair(p, cur, "pos", ('x', 'y', 'z'), "dir", ('y', 'p', 'b')) {
                        Ok((pos, dir)) => {
                            let (a, b, c) = pos;
                            session.head_pos = SessionXYZ { x: a, y: b, z: c };
                            let (a, b, c) = dir;
                            session.head_dir = SessionYPB { y: a, p: b, b: c };
                        },
                        Err(e) => {
                            return Err(e);
                        },
                    }
                } else if same_text(&p.lines[p.pos].key, "light") {
                    p.accept();
                    match parse_pair(p, cur, "dir", ('y', 'p', 'b'), "color", ('r', 'g', 'b')) {
                        Ok((dir, color)) => {
                            let (a, b, c) = dir;
                            session.light_dir = SessionYPB { y: a, p: b, b: c };
                            let (a, b, c) = color;
                            session.light_color = SessionRGB { r: a, g: b, b: c };
                        },
                        Err(e) => {
                            return Err(e);
                        },
                    }
                } else if f < 7 {
                    p.accept();
                    match parse_triple(p, cur, names_of(f)) {
                        Ok(x) => {
                            put_triple_exec(&mut session, f, x);
                        },
                        Err(e) => {
                            return Err(e);
                        },
                    }
                } else {
                    return Err(ParseError { line: number, kind: ParseErrorKind::UnknownKey });
                }
            },
        }
    }
}

/// Parses a configuration given as its lines: every session it describes, in order,
/// or the first error in it.
pub fn parse_config(lines: &Vec<String>) -> (r: Result<Vec<Session>, ParseError>)
    ensures
        match r {
            Ok(v) => config_of(texts(lines@)) == Ok::<_, ParseError>(
                v@.map_values(|s: Session| s@),
            ),
            Err(e) => config_of(texts(lines@)) == Err::<Seq<SessionView>, ParseError>(e),
        },
{
    let mut p = Parser::new(lines);
    let mut sessions: Vec<Session> = Vec::new();
    let ghost t = p.records();
    assert(sessions@.map_values(|s: Session| s@) =~= Seq::<SessionView>::empty());
    loop
        invariant
            t == p.records(),
            t == tokens(texts(lines@)),
            p.pos <= p.lines@.len(),
            config_of(texts(lines@)) == sessions_from(
                t,
                p.pos as nat,
                sessions@.map_values(|s: Session| s@),
            ),
        decreases p.lines@.len() - p.pos,
    {
        if p.pos >= p.lines.len() {
            return Ok(sessions);
        }
        if p.lines[p.pos].indent != 0 {
            return Err(
                ParseError { line: p.lines[p.pos].number, kind: ParseErrorKind::Indentation },
            );
        }
        let name = string_of(&p.lines[p.pos].key);
        let ghost before = sessions@.map_values(|s: Session| s@);
        p.accept();
        match parse_session(&mut p, name) {
            Ok(s) => {
                sessions.push(s);
                assert(sessions@.map_values(|s: Session| s@) =~= before.push(s@));
            },
            Err(e) => {
                return Err(e);
            },
        }
    }
}

} // verus!
