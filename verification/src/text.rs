//! Text helpers over `String` and `str`, each against a plain statement of
//! what it computes.
use vstd::prelude::*;

verus! {

broadcast use vstd::string::group_string_axioms;

/// `String::push`: appends one character to the end of the string.
pub assume_specification[ String::push ](s: &mut String, ch: char)
    ensures
        final(s)@ == old(s)@.push(ch),
;

/// The text of `s` as `{:?}` shows a string: in double quotes, with escapes.
pub uninterp spec fn debug_quoted(s: Seq<char>) -> Seq<char>;

/// `<str as Debug>::fmt`, through `format!("{:?}")`: `s` quoted and escaped.
/// The escaping rules are not stated; the result depends on `s` alone.
#[verifier::external_body]
pub(crate) fn debug_text(s: &str) -> (r: String)
    ensures
        r@ == debug_quoted(s@),
{
    format!("{s:?}")
}

/// The characters of `s`, in order.
pub fn chars_of(s: &str) -> (v: Vec<char>)
    ensures
        v@ == s@,
{
    let mut v: Vec<char> = Vec::new();
    for c in it: s.chars()
        invariant
            it.seq() == s@,
            v@ == s@.subrange(0, it.index() as int),
    {
        v.push(c);
        assert(v@ =~= s@.subrange(0, it.index() + 1));
    }
    assert(s@.subrange(0, s@.len() as int) =~= s@);
    v
}

/// The text made of the characters `v[from..to]`.
pub fn text_of(v: &Vec<char>, from: usize, to: usize) -> (r: String)
    requires
        from <= to <= v.len(),
    ensures
        r@ == v@.subrange(from as int, to as int),
{
    let mut r = String::new();
    let mut i = from;
    while i < to
        invariant
            from <= i <= to <= v.len(),
            r@ == v@.subrange(from as int, i as int),
        decreases to - i,
    {
        r.push(v[i]);
        i = i + 1;
        assert(r@ =~= v@.subrange(from as int, i as int));
    }
    r
}

/// Whether `a` and `b` hold the same characters.
pub fn same_text(a: &str, b: &str) -> (r: bool)
    ensures
        r == (a@ == b@),
{
    let x = chars_of(a);
    let y = chars_of(b);
    if x.len() != y.len() {
        return false;
    }
    let mut i: usize = 0;
    while i < x.len()
        invariant
            x@ == a@,
            y@ == b@,
            x.len() == y.len(),
            i <= x.len(),
            forall|j: int| 0 <= j < i ==> x@[j] == y@[j],
        decreases x.len() - i,
    {
        if x[i] != y[i] {
            return false;
        }
        i = i + 1;
    }
    assert(x@ =~= y@);
    true
}

/// Whether `pattern` occurs in `s` starting at index `i`.
pub open spec fn occurs_at(s: Seq<char>, pattern: Seq<char>, i: int) -> bool {
    0 <= i && i + pattern.len() <= s.len() && s.subrange(i, i + pattern.len()) == pattern
}

/// Whether `pattern` occurs in `v` at index `i` (executable).
fn matches_at(v: &Vec<char>, pattern: &Vec<char>, i: usize) -> (r: bool)
    requires
        i <= v.len(),
    ensures
        r == occurs_at(v@, pattern@, i as int),
{
    if pattern.len() > v.len() - i {
        return false;
    }
    let mut j: usize = 0;
    while j < pattern.len()
        invariant
            i + pattern.len() <= v.len(),
            j <= pattern.len(),
            forall|k: int| 0 <= k < j ==> v@[i + k] == pattern@[k],
        decreases pattern.len() - j,
    {
        if v[i + j] != pattern[j] {
            assert(v@.subrange(i as int, i + pattern.len())[j as int] != pattern@[j as int]);
            return false;
        }
        j = j + 1;
    }
    assert(v@.subrange(i as int, i + pattern.len()) =~= pattern@);
    true
}

/// `s` with `prefix` taken off its front, where `s` starts with `prefix`.
pub open spec fn without_prefix(s: Seq<char>, prefix: Seq<char>) -> Option<Seq<char>> {
    if occurs_at(s, prefix, 0) {
        Some(s.subrange(prefix.len() as int, s.len() as int))
    } else {
        None
    }
}

/// `s` without its leading `prefix`, or `None` where `s` does not start with it.
pub fn strip_prefix(s: &str, prefix: &str) -> (r: Option<String>)
    ensures
        r is Some <==> without_prefix(s@, prefix@) is Some,
        r matches Some(t) ==> t@ == without_prefix(s@, prefix@)->0,
{
    let v = chars_of(s);
    let p = chars_of(prefix);
    if matches_at(&v, &p, 0) {
        Some(text_of(&v, p.len(), v.len()))
    } else {
        None
    }
}

/// Whether `pattern` occurs anywhere in `s`.
pub open spec fn occurs_in(s: Seq<char>, pattern: Seq<char>) -> bool {
    exists|i: int| occurs_at(s, pattern, i)
}

/// Whether `needle` occurs in `haystack` (`str::contains` on a string pattern).
pub fn contains_text(haystack: &str, needle: &str) -> (r: bool)
    ensures
        r == occurs_in(haystack@, needle@),
{
    let v = chars_of(haystack);
    let p = chars_of(needle);
    let mut i: usize = 0;
    while i < v.len()
        invariant
            v@ == haystack@,
            p@ == needle@,
            i <= v.len(),
            forall|k: int| 0 <= k < i ==> !occurs_at(v@, p@, k),
        decreases v.len() - i,
    {
        if matches_at(&v, &p, i) {
            return true;
        }
        i = i + 1;
    }
    if matches_at(&v, &p, i) {
        return true;
    }
    assert forall|k: int| !occurs_at(v@, p@, k) by {
        if 0 <= k && k + p@.len() <= v@.len() {
            assert(k <= i);
        }
    }
    false
}

/// Every non-overlapping occurrence of `from` in `s`, taken from the front,
/// replaced by `to`. An empty `from` occurs before every character and at
/// the end.
pub open spec fn replaced(s: Seq<char>, from: Seq<char>, to: Seq<char>) -> Seq<char>
    decreases s.len(),
{
    if from.len() > 0 && occurs_at(s, from, 0) {
        to + replaced(s.subrange(from.len() as int, s.len() as int), from, to)
    } else if s.len() == 0 {
        if from.len() == 0 {
            to
        } else {
            Seq::empty()
        }
    } else {
        (if from.len() == 0 {
            to
        } else {
            Seq::empty()
        }) + seq![s[0]] + replaced(s.drop_first(), from, to)
    }
}

/// `replaced` of the characters of `s` from index `i` on.
proof fn lemma_replaced_step(s: Seq<char>, from: Seq<char>, to: Seq<char>, i: int)
    requires
        0 <= i < s.len(),
    ensures
        s.subrange(i, s.len() as int).drop_first() == s.subrange(i + 1, s.len() as int),
        s.subrange(i, s.len() as int)[0] == s[i],
        occurs_at(s.subrange(i, s.len() as int), from, 0) == occurs_at(s, from, i),
        occurs_at(s, from, i) ==> s.subrange(i, s.len() as int).subrange(
            from.len() as int,
            s.len() - i,
        ) == s.subrange(i + from.len(), s.len() as int),
{
    let t = s.subrange(i, s.len() as int);
    assert(t.drop_first() =~= s.subrange(i + 1, s.len() as int));
    if i + from.len() <= s.len() {
        assert(t.subrange(0, from.len() as int) =~= s.subrange(i, i + from.len()));
        assert(t.subrange(from.len() as int, s.len() - i) =~= s.subrange(
            i + from.len(),
            s.len() as int,
        ));
    }
}

/// `s` with every occurrence of `from` replaced by `to` (`str::replace`).
pub fn replace_all(s: &str, from: &str, to: &str) -> (r: String)
    ensures
        r@ == replaced(s@, from@, to@),
{
    let v = chars_of(s);
    let p = chars_of(from);
    let mut out = String::new();
    let mut i: usize = 0;
    assert(v@.subrange(0, v@.len() as int) =~= v@);
    while i < v.len()
        invariant
            v@ == s@,
            p@ == from@,
            i <= v.len(),
            out@ + replaced(v@.subrange(i as int, v@.len() as int), p@, to@) == replaced(
                v@,
                p@,
                to@,
            ),
        decreases v.len() - i,
    {
        proof {
            lemma_replaced_step(v@, p@, to@, i as int);
        }
        let ghost rest = v@.subrange(i as int, v@.len() as int);
        if p.len() > 0 && matches_at(&v, &p, i) {
            out.append(to);
            i = i + p.len();
            assert(replaced(rest, p@, to@) == to@ + replaced(
                v@.subrange(i as int, v@.len() as int),
                p@,
                to@,
            ));
            assert(out@ + replaced(v@.subrange(i as int, v@.len() as int), p@, to@) =~= replaced(
                v@,
                p@,
                to@,
            ));
        } else {
            if p.len() == 0 {
                out.append(to);
            }
            out.push(v[i]);
            i = i + 1;
            assert(out@ + replaced(v@.subrange(i as int, v@.len() as int), p@, to@) =~= replaced(
                v@,
                p@,
                to@,
            ));
        }
    }
    assert(v@.subrange(i as int, v@.len() as int) =~= Seq::<char>::empty());
    if p.len() == 0 {
        out.append(to);
    }
    assert(out@ =~= replaced(v@, p@, to@));
    out
}

/// `s` split around its first `sep`: the text before it and the text after it.
pub fn split_once(s: &str, sep: char) -> (r: Option<(String, String)>)
    ensures
        r is None <==> !s@.contains(sep),
        r matches Some((a, b)) ==> a@ + seq![sep] + b@ == s@ && !a@.contains(sep),
{
    let v = chars_of(s);
    let mut i: usize = 0;
    while i < v.len()
        invariant
            v@ == s@,
            i <= v.len(),
            forall|k: int| 0 <= k < i ==> v@[k] != sep,
        decreases v.len() - i,
    {
        if v[i] == sep {
            let a = text_of(&v, 0, i);
            let b = text_of(&v, i + 1, v.len());
            assert(a@ + seq![sep] + b@ =~= s@);
            assert(!a@.contains(sep)) by {
                if a@.contains(sep) {
                    let k = choose|k: int| 0 <= k < a@.len() && a@[k] == sep;
                    assert(v@[k] == sep);
                }
            }
            return Some((a, b));
        }
        i = i + 1;
    }
    assert(!s@.contains(sep)) by {
        if s@.contains(sep) {
            let k = choose|k: int| 0 <= k < s@.len() && s@[k] == sep;
            assert(v@[k] == sep);
        }
    }
    None
}

/// A line without the carriage return that ended it, if any.
pub open spec fn strip_cr(line: Seq<char>) -> Seq<char> {
    if line.len() > 0 && line.last() == '\r' {
        line.drop_last()
    } else {
        line
    }
}

/// After reading `s`: the lines finished so far, and the line being read.
pub open spec fn line_state(s: Seq<char>) -> (Seq<Seq<char>>, Seq<char>)
    decreases s.len(),
{
    if s.len() == 0 {
        (Seq::empty(), Seq::empty())
    } else {
        let prev = line_state(s.drop_last());
        if s.last() == '\n' {
            (prev.0.push(strip_cr(prev.1)), Seq::empty())
        } else {
            (prev.0, prev.1.push(s.last()))
        }
    }
}

/// The lines of `s` (`str::lines`): each ends at a newline, which is dropped
/// together with a carriage return just before it; a last line without a
/// newline counts where it is not empty.
pub open spec fn lines_of(s: Seq<char>) -> Seq<Seq<char>> {
    let st = line_state(s);
    if st.1.len() > 0 {
        st.0.push(st.1)
    } else {
        st.0
    }
}

/// The lines of `text`, as `str::lines` gives them.
pub fn split_lines(text: &str) -> (r: Vec<String>)
    ensures
        r.deep_view() == lines_of(text@),
{
    let v = chars_of(text);
    let mut done: Vec<String> = Vec::new();
    let mut cur: Vec<char> = Vec::new();
    let mut i: usize = 0;
    while i < v.len()
        invariant
            v@ == text@,
            i <= v.len(),
            (done.deep_view(), cur@) == line_state(v@.subrange(0, i as int)),
        decreases v.len() - i,
    {
        assert(v@.subrange(0, i + 1).drop_last() =~= v@.subrange(0, i as int));
        if v[i] == '\n' {
            let n = cur.len();
            let line = if n > 0 && cur[n - 1] == '\r' {
                text_of(&cur, 0, n - 1)
            } else {
                text_of(&cur, 0, n)
            };
            assert(line@ =~= strip_cr(cur@));
            done.push(line);
            cur = Vec::new();
            assert(done.deep_view() =~= line_state(v@.subrange(0, i + 1)).0);
        } else {
            cur.push(v[i]);
        }
        i = i + 1;
    }
    assert(v@.subrange(0, i as int) =~= text@);
    if cur.len() > 0 {
        let last = text_of(&cur, 0, cur.len());
        assert(last@ =~= cur@);
        done.push(last);
        assert(done.deep_view() =~= lines_of(text@));
    }
    done
}

/// The decimal digit `d`.
pub open spec fn digit_spec(d: int) -> char {
    seq!['0', '1', '2', '3', '4', '5', '6', '7', '8', '9'][d]
}

/// The decimal digits of `n`, without leading zeros.
pub open spec fn decimal_digits(n: nat) -> Seq<char>
    decreases n,
{
    if n < 10 {
        seq![digit_spec(n as int)]
    } else {
        decimal_digits(n / 10).push(digit_spec((n % 10) as int))
    }
}

/// The character of the decimal digit `d`.
fn digit(d: u64) -> (c: char)
    requires
        d < 10,
    ensures
        c == digit_spec(d as int),
{
    match d {
        0 => '0',
        1 => '1',
        2 => '2',
        3 => '3',
        4 => '4',
        5 => '5',
        6 => '6',
        7 => '7',
        8 => '8',
        _ => '9',
    }
}

/// Appends the decimal digits of `n`.
pub fn push_decimal(out: &mut String, n: u64)
    ensures
        final(out)@ == old(out)@ + decimal_digits(n as nat),
    decreases n,
{
    if n >= 10 {
        push_decimal(out, n / 10);
    }
    out.push(digit(n % 10));
    assert(final(out)@ =~= old(out)@ + decimal_digits(n as nat));
}

/// The decimal rendering of `n`, as `n.to_string()` gives it.
pub fn decimal(n: u64) -> (r: String)
    ensures
        r@ == decimal_digits(n as nat),
{
    let mut r = String::new();
    push_decimal(&mut r, n);
    assert(r@ =~= decimal_digits(n as nat));
    r
}

/// Why text is not an unsigned integer (the kinds of `std::num::ParseIntError`
/// that an unsigned parse can give).
#[derive(Clone, Copy, Debug, PartialEq, Eq, Structural)]
pub enum IntErrorKind {
    /// The text is empty.
    Empty,
    /// The text holds a character that is not a decimal digit.
    InvalidDigit,
    /// The value is larger than the type can hold.
    PosOverflow,
}

/// The message that `std::num::ParseIntError` displays for each kind.
pub open spec fn int_error_text(kind: IntErrorKind) -> Seq<char> {
    match kind {
        IntErrorKind::Empty => "cannot parse integer from empty string"@,
        IntErrorKind::InvalidDigit => "invalid digit found in string"@,
        IntErrorKind::PosOverflow => "number too large to fit in target type"@,
    }
}

impl IntErrorKind {
    /// The message that `std::num::ParseIntError` displays for this kind.
    pub fn message(&self) -> (r: &'static str)
        ensures
            r@ == int_error_text(*self),
    {
        match self {
            IntErrorKind::Empty => "cannot parse integer from empty string",
            IntErrorKind::InvalidDigit => "invalid digit found in string",
            IntErrorKind::PosOverflow => "number too large to fit in target type",
        }
    }
}

/// Whether `c` is a decimal digit.
pub open spec fn is_digit(c: char) -> bool {
    '0' <= c <= '9'
}

/// The value of the decimal digit `c`.
pub open spec fn digit_value(c: char) -> int {
    c as int - '0' as int
}

/// Reads the digits `d` from left to right onto `acc`: the first character
/// that is not a digit is an invalid digit, and a value above `max` is an
/// overflow, whichever comes first.
pub open spec fn read_digits(d: Seq<char>, acc: int, max: int) -> Result<int, IntErrorKind>
    decreases d.len(),
{
    if d.len() == 0 {
        Ok(acc)
    } else if !is_digit(d[0]) {
        Err(IntErrorKind::InvalidDigit)
    } else if acc * 10 + digit_value(d[0]) > max {
        Err(IntErrorKind::PosOverflow)
    } else {
        read_digits(d.drop_first(), acc * 10 + digit_value(d[0]), max)
    }
}

/// `s` read as an unsigned decimal integer of at most `max`, as `str::parse`
/// reads an unsigned integer type: an optional leading `+`, then decimal
/// digits.
pub open spec fn parsed_unsigned(s: Seq<char>, max: int) -> Result<int, IntErrorKind> {
    if s.len() == 0 {
        Err(IntErrorKind::Empty)
    } else if s.len() == 1 && (s[0] == '+' || s[0] == '-') {
        Err(IntErrorKind::InvalidDigit)
    } else if s[0] == '+' {
        read_digits(s.drop_first(), 0, max)
    } else {
        read_digits(s, 0, max)
    }
}

/// `s` read as an unsigned integer of at most `max` (`str::parse::<u32>`,
/// `str::parse::<usize>` and the like, for the matching `max`).
pub fn parse_unsigned(s: &str, max: u64) -> (r: Result<u64, IntErrorKind>)
    ensures
        r matches Ok(v) ==> parsed_unsigned(s@, max as int) == Ok::<int, IntErrorKind>(v as int)
            && v <= max,
        r matches Err(e) ==> parsed_unsigned(s@, max as int) == Err::<int, IntErrorKind>(e),
{
    let v = chars_of(s);
    if v.len() == 0 {
        return Err(IntErrorKind::Empty);
    }
    if v.len() == 1 && (v[0] == '+' || v[0] == '-') {
        return Err(IntErrorKind::InvalidDigit);
    }
    let mut i: usize = if v[0] == '+' {
        1
    } else {
        0
    };
    let ghost digits = v@.subrange(i as int, v@.len() as int);
    assert(digits =~= (if v@[0] == '+' {
        s@.drop_first()
    } else {
        s@
    }));
    assert(read_digits(digits, 0, max as int) == parsed_unsigned(s@, max as int));
    let mut acc: u64 = 0;
    while i < v.len()
        invariant
            v@ == s@,
            i <= v.len(),
            acc <= max,
            read_digits(v@.subrange(i as int, v@.len() as int), acc as int, max as int)
                == parsed_unsigned(s@, max as int),
        decreases v.len() - i,
    {
        let c = v[i];
        let ghost rest = v@.subrange(i as int, v@.len() as int);
        assert(rest[0] == c);
        assert(rest.drop_first() =~= v@.subrange(i + 1, v@.len() as int));
        if !('0' <= c && c <= '9') {
            return Err(IntErrorKind::InvalidDigit);
        }
        let d: u64 = (c as u32 - '0' as u32) as u64;
        assert(d == digit_value(c));
        if (acc as u128) * 10 + (d as u128) > (max as u128) {
            return Err(IntErrorKind::PosOverflow);
        }
        acc = acc * 10 + d;
        i = i + 1;
    }
    assert(v@.subrange(i as int, v@.len() as int) =~= Seq::<char>::empty());
    Ok(acc)
}

/// `parts` joined with `sep` between each two.
pub open spec fn joined(parts: Seq<Seq<char>>, sep: Seq<char>) -> Seq<char>
    decreases parts.len(),
{
    if parts.len() == 0 {
        Seq::empty()
    } else if parts.len() == 1 {
        parts[0]
    } else {
        joined(parts.drop_last(), sep) + sep + parts.last()
    }
}

/// `parts` joined with `sep` (`[String]::join`).
pub fn join_texts(parts: &Vec<String>, sep: &str) -> (r: String)
    ensures
        r@ == joined(parts.deep_view(), sep@),
{
    let mut r = String::new();
    let mut i: usize = 0;
    while i < parts.len()
        invariant
            i <= parts.len(),
            r@ == joined(parts.deep_view().subrange(0, i as int), sep@),
        decreases parts.len() - i,
    {
        let ghost pre = parts.deep_view().subrange(0, i + 1);
        assert(pre.drop_last() =~= parts.deep_view().subrange(0, i as int));
        if i > 0 {
            r.append(sep);
        }
        r.append(parts[i].as_str());
        i = i + 1;
        assert(r@ =~= joined(pre, sep@));
    }
    assert(parts.deep_view().subrange(0, i as int) =~= parts.deep_view());
    r
}

/// Text in which `from` occurs nowhere comes through a replacement of
/// `from` unchanged.
pub proof fn replacing_what_is_absent_changes_nothing(s: Seq<char>, from: Seq<char>, to: Seq<char>)
    requires
        from.len() > 0,
        forall|i: int|
            0 <= i && i + from.len() <= s.len() ==> #[trigger] s.subrange(i, i + from.len()) != from,
    ensures
        replaced(s, from, to) == s,
    decreases s.len(),
{
    if s.len() > 0 {
        let t = s.drop_first();
        assert forall|i: int| 0 <= i && i + from.len() <= t.len() implies #[trigger] t.subrange(
            i,
            i + from.len(),
        ) != from by {
            assert(t.subrange(i, i + from.len()) =~= s.subrange(i + 1, i + 1 + from.len()));
        }
        replacing_what_is_absent_changes_nothing(t, from, to);
        if from.len() <= s.len() {
            assert(s.subrange(0, from.len() as int) != from);
        }
        assert(s =~= seq![s[0]] + t);
    }
}

/// Every occurrence is replaced, and what follows it is replaced on its
/// own: where the first occurrence of `from` in `a + from + b` is the one
/// after `a`, the result is `a`, then `to`, then `b` with its occurrences
/// replaced.
pub proof fn replacing_splits_at_the_first_occurrence(
    a: Seq<char>,
    from: Seq<char>,
    b: Seq<char>,
    to: Seq<char>,
)
    requires
        from.len() > 0,
        forall|i: int|
            0 <= i < a.len() ==> #[trigger] (a + from + b).subrange(i, i + from.len()) != from,
    ensures
        replaced(a + from + b, from, to) == a + to + replaced(b, from, to),
    decreases a.len(),
{
    let s = a + from + b;
    if a.len() == 0 {
        assert(s.subrange(0, from.len() as int) =~= from);
        assert(s.subrange(from.len() as int, s.len() as int) =~= b);
        assert(a + to + replaced(b, from, to) =~= to + replaced(b, from, to));
    } else {
        let a1 = a.drop_first();
        let t = a1 + from + b;
        assert(s.drop_first() =~= t);
        assert forall|i: int| 0 <= i < a1.len() implies #[trigger] t.subrange(i, i + from.len())
            != from by {
            assert(t.subrange(i, i + from.len()) =~= s.subrange(i + 1, i + 1 + from.len()));
        }
        replacing_splits_at_the_first_occurrence(a1, from, b, to);
        assert(s.subrange(0, from.len() as int) != from);
        assert(s[0] == a[0]);
        assert(a + to + replaced(b, from, to) =~= seq![a[0]] + (a1 + to + replaced(b, from, to)));
    }
}

/// The character of a digit is a digit, of that value.
proof fn lemma_digit(d: int)
    requires
        0 <= d < 10,
    ensures
        is_digit(digit_spec(d)),
        digit_value(digit_spec(d)) == d,
{
    let t = seq!['0', '1', '2', '3', '4', '5', '6', '7', '8', '9'];
    assert(t[0] == '0' && t[1] == '1' && t[2] == '2' && t[3] == '3' && t[4] == '4');
    assert(t[5] == '5' && t[6] == '6' && t[7] == '7' && t[8] == '8' && t[9] == '9');
}

/// Reading one more digit multiplies what was read by ten and adds it.
proof fn lemma_read_one_more(s: Seq<char>, c: char, acc: int, v: int, max: int)
    requires
        read_digits(s, acc, max) == Ok::<int, IntErrorKind>(v),
        is_digit(c),
        v * 10 + digit_value(c) <= max,
    ensures
        read_digits(s.push(c), acc, max) == Ok::<int, IntErrorKind>(v * 10 + digit_value(c)),
    decreases s.len(),
{
    let t = s.push(c);
    if s.len() == 0 {
        assert(acc == v);
        assert(t[0] == c);
        assert(t.drop_first() =~= Seq::<char>::empty());
        assert(read_digits(t.drop_first(), acc * 10 + digit_value(c), max) == Ok::<int, IntErrorKind>(
            acc * 10 + digit_value(c),
        ));
    } else {
        assert(t[0] == s[0]);
        assert(t.drop_first() =~= s.drop_first().push(c));
        lemma_read_one_more(s.drop_first(), c, acc * 10 + digit_value(s[0]), v, max);
    }
}

/// The digits of `n` are read back as `n`.
proof fn lemma_read_decimal(n: nat, max: int)
    requires
        n <= max,
    ensures
        read_digits(decimal_digits(n), 0, max) == Ok::<int, IntErrorKind>(n as int),
        decimal_digits(n).len() > 0,
        is_digit(decimal_digits(n)[0]),
    decreases n,
{
    let d = decimal_digits(n);
    if n < 10 {
        lemma_digit(n as int);
        assert(d[0] == digit_spec(n as int));
        assert(d.drop_first() =~= Seq::<char>::empty());
        assert(read_digits(d.drop_first(), 0 * 10 + digit_value(d[0]), max) == Ok::<int, IntErrorKind>(
            n as int,
        ));
    } else {
        let q = (n / 10) as nat;
        let r = (n % 10) as int;
        assert(q * 10 + r == n);
        lemma_read_decimal(q, max);
        lemma_digit(r);
        assert(d == decimal_digits(q).push(digit_spec(r)));
        lemma_read_one_more(decimal_digits(q), digit_spec(r), 0, q as int, max);
        assert(d[0] == decimal_digits(q)[0]);
    }
}

/// The decimal rendering of a number reads back as that number, and starts
/// with a zero only where the number is zero: what `decimal` prints, an
/// unsigned parse gives back.
pub proof fn decimal_reads_back(n: nat, max: int)
    requires
        n <= max,
    ensures
        parsed_unsigned(decimal_digits(n), max) == Ok::<int, IntErrorKind>(n as int),
        decimal_digits(n)[0] == '0' ==> n == 0,
{
    lemma_read_decimal(n, max);
    if n >= 10 {
        lemma_first_digit(n);
    }
}

/// The first digit of a number of two digits or more is not zero.
proof fn lemma_first_digit(n: nat)
    requires
        n >= 10,
    ensures
        decimal_digits(n)[0] != '0',
    decreases n,
{
    if n / 10 >= 10 {
        lemma_first_digit(n / 10);
    } else {
        lemma_digit((n / 10) as int);
    }
    assert(decimal_digits(n)[0] == decimal_digits(n / 10)[0]);
}

} // verus!
