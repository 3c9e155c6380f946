//! Properties of the configuration grammar, stated over its spec functions.
use vstd::prelude::*;

use crate::config::{
    ParseError, ParseErrorKind, config_of, lemma_pair_inside, lemma_session_inside,
    lemma_triple_inside, pair_entries, session_entries, slot, triple_entries,
};
use crate::lexer::{LineView, lex_line, tokens};
use crate::session::{SessionView, Triple};

verus! {

/// Parsing depends on the text alone: equal texts give equal results, sessions or error.
pub proof fn law_parse_deterministic(a: Seq<Seq<char>>, b: Seq<Seq<char>>)
    requires
        a == b,
    ensures
        config_of(a) == config_of(b),
{
}

/// Every record carries the 1-based number of the line it was read from, and that line
/// reads to exactly this record.
pub proof fn law_records_numbered(raw: Seq<Seq<char>>)
    requires
        raw.len() <= usize::MAX,
    ensures
        forall|k: int|
            0 <= k < tokens(raw).len() ==> {
                let l = #[trigger] tokens(raw)[k];
                1 <= l.number <= raw.len() && lex_line(raw[l.number - 1], l.number) == Some(l)
            },
        forall|k: int, m: int|
            0 <= k < m < tokens(raw).len() ==> #[trigger] tokens(raw)[k].number < #[trigger] tokens(
                raw,
            )[m].number,
    decreases raw.len(),
{
    if raw.len() > 0 {
        let before = raw.drop_last();
        law_records_numbered(before);
        let tb = tokens(before);
        let n = raw.len() as usize;
        assert forall|k: int| 0 <= k < tb.len() implies before[tb[k].number - 1] == raw[tb[k].number
            - 1] by {}
        match lex_line(raw.last(), n) {
            Some(l) => {
                assert(tokens(raw) == tb.push(l));
                assert(l.number == n);
                assert forall|k: int| 0 <= k < tokens(raw).len() implies {
                    let x = #[trigger] tokens(raw)[k];
                    1 <= x.number <= raw.len() && lex_line(raw[x.number - 1], x.number) == Some(x)
                } by {
                    if k < tb.len() {
                        assert(tokens(raw)[k] == tb[k]);
                    }
                }
                assert forall|k: int, m: int|
                    0 <= k < m < tokens(raw).len() implies #[trigger] tokens(raw)[k].number
                    < #[trigger] tokens(raw)[m].number by {
                    assert(tokens(raw)[k] == tb[k]);
                    if m < tb.len() {
                        assert(tokens(raw)[m] == tb[m]);
                    }
                }
            },
            None => {
                assert(tokens(raw) == tb);
            },
        }
    }
}

/// A block of three distributions reads only records deeper than its parent, and stops
/// at the first record that is not, without reading it.
pub proof fn law_triple_block_indentation(
    t: Seq<LineView>,
    i: nat,
    parent: usize,
    cur: usize,
    names: (char, char, char),
    acc: Triple,
)
    requires
        i <= t.len(),
        triple_entries(t, i, parent, cur, names, acc) is Ok,
    ensures
        ({
            let j = triple_entries(t, i, parent, cur, names, acc)->Ok_0.1;
            &&& i <= j <= t.len()
            &&& forall|k: int| i <= k < j ==> #[trigger] t[k].indent > parent
            &&& forall|k: int| i <= k < t.len() && #[trigger] t[k].indent <= parent ==> j <= k
        }),
{
    lemma_triple_inside(t, i, parent, cur, names, acc);
}

/// A block of two sub-blocks reads only records deeper than its parent, and stops at
/// the first record that is not, without reading it.
pub proof fn law_pair_block_indentation(
    t: Seq<LineView>,
    i: nat,
    parent: usize,
    cur: usize,
    k1: Seq<char>,
    n1: (char, char, char),
    k2: Seq<char>,
    n2: (char, char, char),
    acc: (Triple, Triple),
)
    requires
        i <= t.len(),
        pair_entries(t, i, parent, cur, k1, n1, k2, n2, acc) is Ok,
    ensures
        ({
            let j = pair_entries(t, i, parent, cur, k1, n1, k2, n2, acc)->Ok_0.1;
            &&& i <= j <= t.len()
            &&& forall|k: int| i <= k < j ==> #[trigger] t[k].indent > parent
            &&& forall|k: int| i <= k < t.len() && #[trigger] t[k].indent <= parent ==> j <= k
        }),
{
    lemma_pair_inside(t, i, parent, cur, k1, n1, k2, n2, acc);
}

/// A session block reads only indented records, and stops at the next record in the
/// first column without reading it.
pub proof fn law_session_block_indentation(t: Seq<LineView>, i: nat, cur: usize, acc: SessionView)
    requires
        i <= t.len(),
        session_entries(t, i, cur, acc) is Ok,
    ensures
        ({
            let j = session_entries(t, i, cur, acc)->Ok_0.1;
            &&& i <= j <= t.len()
            &&& forall|k: int| i <= k < j ==> #[trigger] t[k].indent > 0
            &&& forall|k: int| i <= k < t.len() && #[trigger] t[k].indent == 0 ==> j <= k
        }),
{
    lemma_session_inside(t, i, cur, acc);
}

/// The keys that a session block knows.
pub open spec fn is_session_key(key: Seq<char>) -> bool {
    key == "path"@ || key == "csv"@ || key == "count"@ || key == "style"@ || key == "format"@ || key
        == "size"@ || key == "projection"@ || key == "head"@ || key == "lefteye"@ || key
        == "righteye"@ || key == "light"@ || key == "background"@ || key == "ambient"@ || key
        == "skin"@ || key == "sclera"@ || key == "iris"@
}

/// An unknown key at the indentation of a block of three distributions fails the
/// parse, naming the key's line.
pub proof fn law_triple_unknown_key(
    t: Seq<LineView>,
    i: nat,
    parent: usize,
    cur: usize,
    names: (char, char, char),
    acc: Triple,
)
    requires
        i < t.len(),
        parent < cur,
        t[i as int].indent == cur,
        slot(t[i as int].key, names) < 0,
    ensures
        triple_entries(t, i, parent, cur, names, acc) == Err::<(Triple, nat), ParseError>(
            ParseError { line: t[i as int].number, kind: ParseErrorKind::UnknownKey },
        ),
{
}

/// An unknown key at the indentation of a block of two sub-blocks fails the parse,
/// naming the key's line.
pub proof fn law_pair_unknown_key(
    t: Seq<LineView>,
    i: nat,
    parent: usize,
    cur: usize,
    k1: Seq<char>,
    n1: (char, char, char),
    k2: Seq<char>,
    n2: (char, char, char),
    acc: (Triple, Triple),
)
    requires
        i < t.len(),
        parent < cur,
        t[i as int].indent == cur,
        t[i as int].key != k1,
        t[i as int].key != k2,
    ensures
        pair_entries(t, i, parent, cur, k1, n1, k2, n2, acc) == Err::<
            ((Triple, Triple), nat),
            ParseError,
        >(ParseError { line: t[i as int].number, kind: ParseErrorKind::UnknownKey }),
{
}

/// An unknown key at the indentation of a session block fails the parse, naming the
/// key's line.
pub proof fn law_session_unknown_key(t: Seq<LineView>, i: nat, cur: usize, acc: SessionView)
    requires
        i < t.len(),
        0 < cur,
        t[i as int].indent == cur,
        !is_session_key(t[i as int].key),
    ensures
        session_entries(t, i, cur, acc) == Err::<(SessionView, nat), ParseError>(
            ParseError { line: t[i as int].number, kind: ParseErrorKind::UnknownKey },
        ),
{
}

} // verus!
