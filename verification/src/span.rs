//! Replacing a region of source text given by 1-based (line, column)
//! positions, with columns counted in characters.
use vstd::prelude::*;

verus! {

broadcast use vstd::string::group_string_axioms;

/// A position in source text: a 1-based line and a 1-based column.
pub type Position = (usize, usize);

/// The position after `c` has been read at `p`: a newline starts the next
/// line, a carriage return stays in the current column, anything else
/// moves one column on.
pub open spec fn advance(p: (int, int), c: char) -> (int, int) {
    if c == '\n' {
        (p.0 + 1, 1)
    } else if c != '\r' {
        (p.0, p.1 + 1)
    } else {
        p
    }
}

/// The position at which character `i` of `s` stands (for `i == s.len()`, the
/// position just past the end).
pub open spec fn position_at(s: Seq<char>, i: int) -> (int, int)
    decreases i,
{
    if i <= 0 || s.len() < i {
        (1, 1)
    } else {
        advance(position_at(s, i - 1), s[i - 1])
    }
}

/// The position as the pair of integers it denotes.
pub open spec fn pos_int(p: Position) -> (int, int) {
    (p.0 as int, p.1 as int)
}

/// Whether a character standing at `p` lies outside the region from `start`
/// up to (not including) `end`.
pub open spec fn outside_span(p: (int, int), start: (int, int), end: (int, int)) -> bool {
    ||| p.0 < start.0
    ||| p.0 > end.0
    ||| (p.0 == start.0 && p.1 < start.1)
    ||| (p.0 == end.0 && p.1 >= end.1)
}

/// What character `i` of `s` contributes to the result: the replacement,
/// where `start` stands there, followed by the character itself when it
/// lies outside the span.
pub open spec fn piece(
    s: Seq<char>,
    i: int,
    start: (int, int),
    end: (int, int),
    replacement: Seq<char>,
) -> Seq<char> {
    let p = position_at(s, i);
    (if p == start {
        replacement
    } else {
        Seq::empty()
    }) + (if outside_span(p, start, end) {
        seq![s[i]]
    } else {
        Seq::empty()
    })
}

/// The contributions of the first `k` characters of `s`.
pub open spec fn replaced_prefix(
    s: Seq<char>,
    k: int,
    start: (int, int),
    end: (int, int),
    replacement: Seq<char>,
) -> Seq<char>
    decreases k,
{
    if k <= 0 || s.len() < k {
        Seq::empty()
    } else {
        replaced_prefix(s, k - 1, start, end, replacement) + piece(s, k - 1, start, end, replacement)
    }
}

/// `s` with the span from `start` to `end` replaced: every character's
/// contribution, then the replacement once more where `start` is the
/// position just past the end of `s`.
pub open spec fn span_replaced(
    s: Seq<char>,
    start: Position,
    end: Position,
    replacement: Seq<char>,
) -> Seq<char> {
    replaced_prefix(s, s.len() as int, pos_int(start), pos_int(end), replacement) + (
    if position_at(s, s.len() as int) == pos_int(start) {
        replacement
    } else {
        Seq::empty()
    })
}

/// Replaces the region between `start` and `end` (1-based line and character
/// column, end exclusive) with `replacement`. A carriage return counts as part
/// of the last column.
pub fn span_replace(source: &str, start: Position, end: Position, replacement: &str) -> (r: String)
    ensures
        r@ == span_replaced(source@, start, end, replacement@),
{
    let ghost s = source@;
    let ghost st = pos_int(start);
    let ghost en = pos_int(end);
    // Only its bound on the length is needed: the counters below cannot
    // overflow.
    let _len = source.unicode_len();
    let mut out = String::new();
    let mut line: u128 = 1;
    let mut column: u128 = 1;
    let start_line = start.0 as u128;
    let start_column = start.1 as u128;
    let end_line = end.0 as u128;
    let end_column = end.1 as u128;
    for c in it: source.chars()
        invariant
            s == source@,
            s.len() <= usize::MAX,
            st == pos_int(start),
            en == pos_int(end),
            start_line == start.0 && start_column == start.1,
            end_line == end.0 && end_column == end.1,
            it.seq() == s,
            it.index() <= s.len(),
            (line as int, column as int) == position_at(s, it.index() as int),
            1 <= line <= it.index() + 1,
            1 <= column <= it.index() + 1,
            out@ == replaced_prefix(s, it.index() as int, st, en, replacement@),
    {
        assert(c == s[it.index() as int]);
        if line == start_line && column == start_column {
            out.append(replacement);
        }
        if line < start_line || line > end_line || (line == start_line && column < start_column)
            || (line == end_line && column >= end_column) {
            out.push(c);
        }
        if c == '\n' {
            line = line + 1;
            column = 1;
        } else if c != '\r' {
            column = column + 1;
        }
    }
    if line == start_line && column == start_column {
        out.append(replacement);
    }
    out
}

/// Whether `s` holds no carriage return.
pub open spec fn no_carriage_return(s: Seq<char>) -> bool {
    forall|i: int| 0 <= i < s.len() ==> s[i] != '\r'
}

/// Whether position `p` comes strictly before position `q`.
pub open spec fn before(p: (int, int), q: (int, int)) -> bool {
    p.0 < q.0 || (p.0 == q.0 && p.1 < q.1)
}

/// Without carriage returns, every character moves the position forward.
proof fn lemma_positions_increase(s: Seq<char>, i: int, j: int)
    requires
        no_carriage_return(s),
        0 <= i < j <= s.len(),
    ensures
        before(position_at(s, i), position_at(s, j)),
    decreases j,
{
    if j > i + 1 {
        lemma_positions_increase(s, i, j - 1);
    }
    assert(s[j - 1] != '\r');
}

/// The contributions of the first `k` characters, where the span runs from
/// character `a` to character `b`.
proof fn lemma_replaced_prefix(
    s: Seq<char>,
    k: int,
    a: int,
    b: int,
    st: (int, int),
    en: (int, int),
    replacement: Seq<char>,
)
    requires
        no_carriage_return(s),
        0 <= a <= b <= s.len(),
        position_at(s, a) == st,
        position_at(s, b) == en,
        0 <= k <= s.len(),
    ensures
        replaced_prefix(s, k, st, en, replacement) == (if k <= a {
            s.subrange(0, k)
        } else if k <= b {
            s.subrange(0, a) + replacement
        } else {
            s.subrange(0, a) + replacement + s.subrange(b, k)
        }),
    decreases k,
{
    if k > 0 {
        let i = k - 1;
        lemma_replaced_prefix(s, i, a, b, st, en, replacement);
        let p = position_at(s, i);
        if i < a {
            lemma_positions_increase(s, i, a);
            assert(s.subrange(0, i).push(s[i]) =~= s.subrange(0, k));
        } else if i == a {
            if a < b {
                lemma_positions_increase(s, a, b);
                assert(piece(s, i, st, en, replacement) =~= replacement);
            } else {
                assert(s.subrange(b, k) =~= seq![s[i]]);
            }
        } else if i < b {
            lemma_positions_increase(s, a, i);
            lemma_positions_increase(s, i, b);
            assert(piece(s, i, st, en, replacement) =~= Seq::<char>::empty());
        } else {
            lemma_positions_increase(s, a, i);
            if i > b {
                lemma_positions_increase(s, b, i);
                assert(s.subrange(b, i).push(s[i]) =~= s.subrange(b, k));
            } else {
                assert(s.subrange(b, k) =~= seq![s[i]]);
            }
            assert(piece(s, i, st, en, replacement) =~= seq![s[i]]);
        }
    }
}

/// Where `start` and `end` are the positions of characters `a <= b` (either
/// may be the position just past the end) of a text without carriage
/// returns, replacing the span keeps the text before `a`, puts the
/// replacement in place of the characters from `a` up to `b`, and keeps the
/// text from `b` on.
pub proof fn span_replace_keeps_outside(
    s: Seq<char>,
    start: Position,
    end: Position,
    replacement: Seq<char>,
    a: int,
    b: int,
)
    requires
        no_carriage_return(s),
        0 <= a <= b <= s.len(),
        position_at(s, a) == pos_int(start),
        position_at(s, b) == pos_int(end),
    ensures
        span_replaced(s, start, end, replacement) == s.subrange(0, a) + replacement + s.subrange(
            b,
            s.len() as int,
        ),
{
    let n = s.len() as int;
    lemma_replaced_prefix(s, n, a, b, pos_int(start), pos_int(end), replacement);
    if a < n {
        lemma_positions_increase(s, a, n);
        if b == n {
            assert(s.subrange(b, n) =~= Seq::<char>::empty());
        }
    } else {
        assert(s.subrange(0, n) =~= s);
        assert(s.subrange(b, n) =~= Seq::<char>::empty());
    }
}

/// The position at `i` depends on the characters before `i` alone.
proof fn lemma_position_prefix(s: Seq<char>, t: Seq<char>, i: int)
    requires
        0 <= i <= s.len(),
        i <= t.len(),
        s.subrange(0, i) == t.subrange(0, i),
    ensures
        position_at(s, i) == position_at(t, i),
    decreases i,
{
    if i > 0 {
        assert(s.subrange(0, i - 1) =~= s.subrange(0, i).subrange(0, i - 1));
        assert(t.subrange(0, i - 1) =~= t.subrange(0, i).subrange(0, i - 1));
        assert(s[i - 1] == s.subrange(0, i)[i - 1]);
        assert(t[i - 1] == t.subrange(0, i)[i - 1]);
        lemma_position_prefix(s, t, i - 1);
    }
}

/// Characters other than newlines and carriage returns each move one column
/// on.
proof fn lemma_position_run(p: Seq<char>, x: Seq<char>, k: int)
    requires
        0 <= k <= x.len(),
        forall|i: int| 0 <= i < x.len() ==> x[i] != '\n' && x[i] != '\r',
    ensures
        position_at(p + x, p.len() + k) == (
            position_at(p, p.len() as int).0,
            position_at(p, p.len() as int).1 + k,
        ),
    decreases k,
{
    let t = p + x;
    if k == 0 {
        assert(t.subrange(0, p.len() as int) =~= p.subrange(0, p.len() as int));
        lemma_position_prefix(t, p, p.len() as int);
    } else {
        lemma_position_run(p, x, k - 1);
        assert(t[p.len() + k - 1] == x[k - 1]);
    }
}

/// Putting the old text back undoes a replacement: where the span runs from
/// character `a` to character `b` of a text without carriage returns, and
/// the replacement holds neither a newline nor a carriage return, replacing
/// the span and then replacing the replacement (from `start` to `start`
/// moved on by its length) with the old text `s[a..b]` gives `s` again.
pub proof fn span_replace_round_trip(
    s: Seq<char>,
    replacement: Seq<char>,
    start: Position,
    end: Position,
    back_end: Position,
    a: int,
    b: int,
)
    requires
        no_carriage_return(s),
        no_carriage_return(replacement),
        !replacement.contains('\n'),
        0 <= a <= b <= s.len(),
        position_at(s, a) == pos_int(start),
        position_at(s, b) == pos_int(end),
        pos_int(back_end) == (start.0 as int, start.1 + replacement.len()),
    ensures
        span_replaced(span_replaced(s, start, end, replacement), start, back_end, s.subrange(a, b))
            == s,
{
    let n = s.len() as int;
    let m = replacement.len() as int;
    span_replace_keeps_outside(s, start, end, replacement, a, b);
    let pre = s.subrange(0, a);
    let s1 = pre + replacement + s.subrange(b, n);
    assert(no_carriage_return(s1)) by {
        assert forall|i: int| 0 <= i < s1.len() implies s1[i] != '\r' by {
            if i < a {
                assert(s1[i] == s[i]);
            } else if i < a + m {
                assert(s1[i] == replacement[i - a]);
            } else {
                assert(s1[i] == s[i - a - m + b]);
            }
        }
    }
    assert forall|i: int| 0 <= i < m implies replacement[i] != '\n' && replacement[i] != '\r' by {
        if replacement[i] == '\n' {
            assert(replacement.contains('\n'));
        }
    }
    assert(s1.subrange(0, a) =~= s.subrange(0, a));
    lemma_position_prefix(s1, s, a);
    assert(pre.subrange(0, a) =~= s.subrange(0, a));
    lemma_position_prefix(pre, s, a);
    lemma_position_run(pre, replacement, m);
    assert(s1.subrange(0, a + m) =~= (pre + replacement).subrange(0, a + m));
    lemma_position_prefix(s1, pre + replacement, a + m);
    span_replace_keeps_outside(s1, start, back_end, s.subrange(a, b), a, a + m);
    assert(s1.subrange(0, a) + s.subrange(a, b) + s1.subrange(a + m, s1.len() as int) =~= s);
}

} // verus!
