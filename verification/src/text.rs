//! Text primitives used by the parsers of the library, each with a
//! mathematical statement over `Seq<char>`.
use vstd::prelude::*;

verus! {

/// The characters that carry the Unicode `White_Space` property, which is
/// what `char::is_whitespace` tests.
pub open spec fn is_white(c: char) -> bool {
    let u = c as u32;
    ||| 0x9 <= u <= 0xd
    ||| u == 0x20
    ||| u == 0x85
    ||| u == 0xa0
    ||| u == 0x1680
    ||| 0x2000 <= u <= 0x200a
    ||| u == 0x2028
    ||| u == 0x2029
    ||| u == 0x202f
    ||| u == 0x205f
    ||| u == 0x3000
}

/// The classes of characters that the parsers strip or drop.
#[derive(Clone, Copy, Debug, PartialEq, Eq)]
pub enum CharClass {
    /// Unicode white space.
    Whitespace,
    /// A double or a single quotation mark.
    QuoteMark,
    /// A double quotation mark.
    DoubleQuote,
    /// A forward slash.
    Slash,
    /// A backslash or a double quotation mark.
    BackslashOrDoubleQuote,
}

pub open spec fn in_class(cls: CharClass, c: char) -> bool {
    match cls {
        CharClass::Whitespace => is_white(c),
        CharClass::QuoteMark => c == '"' || c == '\'',
        CharClass::DoubleQuote => c == '"',
        CharClass::Slash => c == '/',
        CharClass::BackslashOrDoubleQuote => c == '\\' || c == '"',
    }
}

pub fn is_in_class(cls: CharClass, c: char) -> (r: bool)
    ensures
        r == in_class(cls, c),
{
    match cls {
        CharClass::Whitespace => {
            let u = c as u32;
            (0x9 <= u && u <= 0xd) || u == 0x20 || u == 0x85 || u == 0xa0 || u == 0x1680 || (0x2000
                <= u && u <= 0x200a) || u == 0x2028 || u == 0x2029 || u == 0x202f || u == 0x205f
                || u == 0x3000
        },
        CharClass::QuoteMark => c == '"' || c == '\'',
        CharClass::DoubleQuote => c == '"',
        CharClass::Slash => c == '/',
        CharClass::BackslashOrDoubleQuote => c == '\\' || c == '"',
    }
}

/// `s` with every leading character of class `cls` removed.
pub open spec fn trim_start_class(s: Seq<char>, cls: CharClass) -> Seq<char>
    decreases s.len(),
{
    if s.len() > 0 && in_class(cls, s[0]) {
        trim_start_class(s.drop_first(), cls)
    } else {
        s
    }
}

/// `s` with every trailing character of class `cls` removed.
pub open spec fn trim_end_class(s: Seq<char>, cls: CharClass) -> Seq<char>
    decreases s.len(),
{
    if s.len() > 0 && in_class(cls, s.last()) {
        trim_end_class(s.drop_last(), cls)
    } else {
        s
    }
}

/// Once its trailing characters of class `cls` are removed, a sequence
/// that is left non-empty ends in a character of another class.
pub proof fn lemma_trim_end_class_last(s: Seq<char>, cls: CharClass)
    ensures
        trim_end_class(s, cls).len() > 0 ==> !in_class(cls, trim_end_class(s, cls).last()),
    decreases s.len(),
{
    if s.len() > 0 && in_class(cls, s.last()) {
        lemma_trim_end_class_last(s.drop_last(), cls);
    }
}

/// `s` with the characters of class `cls` removed from both ends.
pub open spec fn trim_class(s: Seq<char>, cls: CharClass) -> Seq<char> {
    trim_end_class(trim_start_class(s, cls), cls)
}

/// What `str::trim` returns.
pub open spec fn trim(s: Seq<char>) -> Seq<char> {
    trim_class(s, CharClass::Whitespace)
}

/// `s` with every character of class `cls` dropped.
pub open spec fn remove_class(s: Seq<char>, cls: CharClass) -> Seq<char>
    decreases s.len(),
{
    if s.len() == 0 {
        s
    } else if in_class(cls, s[0]) {
        remove_class(s.drop_first(), cls)
    } else {
        seq![s[0]] + remove_class(s.drop_first(), cls)
    }
}

/// `p` occurs in `s` at position `i`.
pub open spec fn occurs_at(s: Seq<char>, p: Seq<char>, i: int) -> bool {
    0 <= i && i + p.len() <= s.len() && s.subrange(i, i + p.len()) == p
}

/// `p` occurs somewhere in `s` (what `str::contains` tests).
pub open spec fn contains(s: Seq<char>, p: Seq<char>) -> bool {
    exists|i: int| occurs_at(s, p, i)
}

/// `s` begins with `p`.
pub open spec fn starts_with(s: Seq<char>, p: Seq<char>) -> bool {
    occurs_at(s, p, 0)
}

/// What `s.replace(p, "")` gives: the non-overlapping occurrences of `p`,
/// found from left to right, are deleted.
pub open spec fn remove_all(s: Seq<char>, p: Seq<char>) -> Seq<char>
    decreases s.len(),
{
    if p.len() == 0 || s.len() == 0 {
        s
    } else if starts_with(s, p) {
        remove_all(s.skip(p.len() as int), p)
    } else {
        seq![s[0]] + remove_all(s.drop_first(), p)
    }
}

/// The position of the first `c` in `s`, or `s.len()` where there is none.
pub open spec fn index_of(s: Seq<char>, c: char) -> int
    decreases s.len(),
{
    if s.len() == 0 {
        0
    } else if s[0] == c {
        0
    } else {
        1 + index_of(s.drop_first(), c)
    }
}

pub proof fn lemma_index_of(s: Seq<char>, c: char)
    ensures
        0 <= index_of(s, c) <= s.len(),
        index_of(s, c) < s.len() ==> s[index_of(s, c)] == c,
        forall|j: int| 0 <= j < index_of(s, c) ==> s[j] != c,
    decreases s.len(),
{
    if s.len() > 0 && s[0] != c {
        lemma_index_of(s.drop_first(), c);
        assert forall|j: int| 0 <= j < index_of(s, c) implies s[j] != c by {
            if j > 0 {
                assert(s[j] == s.drop_first()[j - 1]);
            }
        }
    }
}

/// In `a`, then `c`, then `rest`, where `a` holds no `c`, the first `c`
/// stands just after `a`.
pub proof fn lemma_index_of_after(a: Seq<char>, c: char, rest: Seq<char>)
    requires
        !a.contains(c),
    ensures
        index_of(a + seq![c] + rest, c) == a.len(),
    decreases a.len(),
{
    let s = a + seq![c] + rest;
    if a.len() > 0 {
        assert(s.drop_first() =~= a.drop_first() + seq![c] + rest);
        assert(a[0] != c) by {
            if a[0] == c {
                assert(a.contains(c));
            }
        }
        assert(!a.drop_first().contains(c)) by {
            if a.drop_first().contains(c) {
                let k = choose|k: int| 0 <= k < a.drop_first().len() && a.drop_first()[k] == c;
                assert(a[k + 1] == c);
            }
        }
        lemma_index_of_after(a.drop_first(), c, rest);
    } else {
        assert(s[0] == c);
    }
}

/// What `s.split_once(c)` gives.
pub open spec fn split_once(s: Seq<char>, c: char) -> Option<(Seq<char>, Seq<char>)> {
    let i = index_of(s, c);
    if i < s.len() {
        Some((s.take(i), s.skip(i + 1)))
    } else {
        None
    }
}

/// `l` without one trailing carriage return.
pub open spec fn strip_cr(l: Seq<char>) -> Seq<char> {
    if l.len() > 0 && l.last() == '\r' {
        l.drop_last()
    } else {
        l
    }
}

/// What `str::lines` yields: the text is cut after each `\n`, which is
/// dropped together with a `\r` just before it; a last piece without `\n`
/// is kept as it is, and an empty text has no lines.
pub open spec fn lines(s: Seq<char>) -> Seq<Seq<char>>
    decreases s.len(),
{
    if s.len() == 0 {
        seq![]
    } else {
        let i = index_of(s, '\n');
        proof {
            lemma_index_of(s, '\n');
        }
        if i < s.len() {
            seq![strip_cr(s.take(i))] + lines(s.skip(i + 1))
        } else {
            seq![s]
        }
    }
}

pub open spec fn digit_char(d: nat) -> char
    recommends
        d < 10,
{
    if d == 0 {
        '0'
    } else if d == 1 {
        '1'
    } else if d == 2 {
        '2'
    } else if d == 3 {
        '3'
    } else if d == 4 {
        '4'
    } else if d == 5 {
        '5'
    } else if d == 6 {
        '6'
    } else if d == 7 {
        '7'
    } else if d == 8 {
        '8'
    } else {
        '9'
    }
}

/// The decimal digits of `n`, without leading zeros.
pub open spec fn decimal(n: nat) -> Seq<char>
    decreases n,
{
    if n < 10 {
        seq![digit_char(n)]
    } else {
        decimal(n / 10).push(digit_char(n % 10))
    }
}

/// How `Display` writes an integer: an optional minus sign, then the digits.
pub open spec fn signed_decimal(n: int) -> Seq<char> {
    if n < 0 {
        seq!['-'] + decimal((-n) as nat)
    } else {
        decimal(n as nat)
    }
}

pub open spec fn is_ascii_digit(c: char) -> bool {
    '0' <= c && c <= '9'
}

/// The number that a run of ASCII digits spells.
pub open spec fn digits_value(s: Seq<char>) -> nat
    decreases s.len(),
{
    if s.len() == 0 {
        0
    } else {
        digits_value(s.drop_last()) * 10 + ((s.last() as u32 - '0' as u32) as nat)
    }
}

/// `s` without one leading `+`.
pub open spec fn without_plus(s: Seq<char>) -> Seq<char> {
    if s.len() > 0 && s[0] == '+' {
        s.drop_first()
    } else {
        s
    }
}

/// Every character of `d` is an ASCII digit.
pub open spec fn all_ascii_digits(d: Seq<char>) -> bool {
    forall|j: int| 0 <= j < d.len() ==> is_ascii_digit(#[trigger] d[j])
}

/// What `s.parse::<u32>()` accepts: an optional `+`, then at least one
/// ASCII digit, and a value that fits.
pub open spec fn parse_u32(s: Seq<char>) -> Option<u32> {
    let d = without_plus(s);
    if d.len() > 0 && all_ascii_digits(d) && digits_value(d) <= u32::MAX {
        Some(digits_value(d) as u32)
    } else {
        None
    }
}

// ---------------------------------------------------------------------
// Executable counterparts
// ---------------------------------------------------------------------

/// Appends `c` to `s`, through `String::push`.
#[verifier::external_body]
fn string_push(s: &mut String, c: char)
    ensures
        final(s)@ == old(s)@.push(c),
{
    s.push(c);
}

/// The characters of `s`, in order.
pub fn chars_of(s: &str) -> (v: Vec<char>)
    ensures
        v@ == s@,
{
    let mut v: Vec<char> = Vec::new();
    for c in it: s.chars()
        invariant
            v@ == it.seq().take(it.index() as int),
            it.seq() == s@,
    {
        v.push(c);
    }
    v
}

/// The string made of the characters of `v`.
pub fn string_of(v: &Vec<char>) -> (s: String)
    ensures
        s@ == v@,
{
    let mut s = String::new();
    let mut i: usize = 0;
    while i < v.len()
        invariant
            i <= v.len(),
            s@ == v@.take(i as int),
        decreases v.len() - i,
    {
        string_push(&mut s, v[i]);
        assert(v@.take(i + 1) == v@.take(i as int).push(v@[i as int]));
        i = i + 1;
    }
    assert(v@.take(v.len() as int) == v@);
    s
}

/// The characters of `s` from `from` up to `to`.
pub fn sub_vec(s: &Vec<char>, from: usize, to: usize) -> (r: Vec<char>)
    requires
        from <= to <= s.len(),
    ensures
        r@ == s@.subrange(from as int, to as int),
{
    let mut r: Vec<char> = Vec::new();
    let mut i = from;
    while i < to
        invariant
            from <= i <= to <= s.len(),
            r@ == s@.subrange(from as int, i as int),
        decreases to - i,
    {
        r.push(s[i]);
        assert(s@.subrange(from as int, i + 1) == s@.subrange(from as int, i as int).push(
            s@[i as int],
        ));
        i = i + 1;
    }
    r
}

/// Appends the characters of `t` to `v`.
pub fn extend_chars(v: &mut Vec<char>, t: &Vec<char>)
    ensures
        final(v)@ == old(v)@ + t@,
{
    let mut i: usize = 0;
    while i < t.len()
        invariant
            i <= t.len(),
            v@ == old(v)@ + t@.take(i as int),
        decreases t.len() - i,
    {
        v.push(t[i]);
        assert(t@.take(i + 1) == t@.take(i as int).push(t@[i as int]));
        i = i + 1;
    }
    assert(t@.take(t.len() as int) == t@);
}

/// Whether `a` and `b` hold the same characters.
pub fn chars_eq(a: &Vec<char>, b: &Vec<char>) -> (r: bool)
    ensures
        r == (a@ == b@),
{
    if a.len() != b.len() {
        return false;
    }
    let mut i: usize = 0;
    while i < a.len()
        invariant
            i <= a.len() == b.len(),
            a@.take(i as int) == b@.take(i as int),
        decreases a.len() - i,
    {
        if a[i] != b[i] {
            assert(a@[i as int] != b@[i as int]);
            return false;
        }
        assert(a@.take(i + 1) == a@.take(i as int).push(a@[i as int]));
        assert(b@.take(i + 1) == b@.take(i as int).push(b@[i as int]));
        i = i + 1;
    }
    assert(a@.take(a.len() as int) == a@);
    assert(b@.take(b.len() as int) == b@);
    true
}

proof fn lemma_trim_start_skip(s: Seq<char>, cls: CharClass, i: int)
    requires
        0 <= i <= s.len(),
        forall|j: int| 0 <= j < i ==> in_class(cls, #[trigger] s[j]),
    ensures
        trim_start_class(s, cls) == trim_start_class(s.skip(i), cls),
    decreases i,
{
    if i > 0 {
        assert(s.skip(i) == s.drop_first().skip(i - 1));
        lemma_trim_start_skip(s.drop_first(), cls, i - 1);
    } else {
        assert(s.skip(0) == s);
    }
}

proof fn lemma_trim_end_take(s: Seq<char>, cls: CharClass, i: int)
    requires
        0 <= i <= s.len(),
        forall|j: int| i <= j < s.len() ==> in_class(cls, #[trigger] s[j]),
    ensures
        trim_end_class(s, cls) == trim_end_class(s.take(i), cls),
    decreases s.len() - i,
{
    if i < s.len() {
        assert(s.drop_last().take(i) == s.take(i));
        lemma_trim_end_take(s.drop_last(), cls, i);
    } else {
        assert(s.take(i) == s);
    }
}

/// `s` with the characters of class `cls` removed from its start.
pub fn trim_start_vec(s: &Vec<char>, cls: CharClass) -> (r: Vec<char>)
    ensures
        r@ == trim_start_class(s@, cls),
{
    let mut i: usize = 0;
    while i < s.len() && is_in_class(cls, s[i])
        invariant
            i <= s.len(),
            forall|j: int| 0 <= j < i ==> in_class(cls, #[trigger] s@[j]),
        decreases s.len() - i,
    {
        i = i + 1;
    }
    proof {
        lemma_trim_start_skip(s@, cls, i as int);
        assert(s@.skip(i as int) == s@.subrange(i as int, s.len() as int));
    }
    sub_vec(s, i, s.len())
}

/// `s` with the characters of class `cls` removed from its end.
pub fn trim_end_vec(s: &Vec<char>, cls: CharClass) -> (r: Vec<char>)
    ensures
        r@ == trim_end_class(s@, cls),
{
    let mut i: usize = s.len();
    while i > 0 && is_in_class(cls, s[i - 1])
        invariant
            i <= s.len(),
            forall|j: int| i <= j < s.len() ==> in_class(cls, #[trigger] s@[j]),
        decreases i,
    {
        i = i - 1;
    }
    proof {
        lemma_trim_end_take(s@, cls, i as int);
        assert(s@.take(i as int) == s@.subrange(0, i as int));
    }
    sub_vec(s, 0, i)
}

/// `s` with the characters of class `cls` removed from both ends.
pub fn trim_vec(s: &Vec<char>, cls: CharClass) -> (r: Vec<char>)
    ensures
        r@ == trim_class(s@, cls),
{
    let t = trim_start_vec(s, cls);
    trim_end_vec(&t, cls)
}

/// `s` with every character of class `cls` dropped.
pub fn remove_class_vec(s: &Vec<char>, cls: CharClass) -> (r: Vec<char>)
    ensures
        r@ == remove_class(s@, cls),
{
    let mut r: Vec<char> = Vec::new();
    let mut i: usize = 0;
    assert(s@.skip(0) == s@);
    while i < s.len()
        invariant
            i <= s.len(),
            remove_class(s@, cls) == r@ + remove_class(s@.skip(i as int), cls),
        decreases s.len() - i,
    {
        let ghost rest = s@.skip(i as int);
        assert(rest.drop_first() == s@.skip(i + 1));
        if !is_in_class(cls, s[i]) {
            r.push(s[i]);
        }
        i = i + 1;
    }
    assert(s@.skip(s.len() as int) == Seq::<char>::empty());
    r
}

/// Whether `p` occurs in `s` at position `i`.
pub fn occurs_at_vec(s: &Vec<char>, p: &Vec<char>, i: usize) -> (r: bool)
    ensures
        r == occurs_at(s@, p@, i as int),
{
    if i > s.len() || p.len() > s.len() - i {
        return false;
    }
    let mut k: usize = 0;
    while k < p.len()
        invariant
            i + p.len() <= s.len(),
            k <= p.len(),
            forall|j: int| 0 <= j < k ==> s@[i + j] == p@[j],
        decreases p.len() - k,
    {
        if s[i + k] != p[k] {
            assert(s@.subrange(i as int, i + p.len())[k as int] != p@[k as int]);
            return false;
        }
        k = k + 1;
    }
    assert(s@.subrange(i as int, i + p.len()) == p@);
    true
}

/// Whether `p` occurs somewhere in `s`.
pub fn contains_vec(s: &Vec<char>, p: &Vec<char>) -> (r: bool)
    ensures
        r == contains(s@, p@),
{
    if p.len() > s.len() {
        return false;
    }
    let last = s.len() - p.len();
    let mut i: usize = 0;
    while i <= last
        invariant
            last == s.len() - p.len(),
            i <= last + 1,
            forall|j: int| 0 <= j < i ==> !occurs_at(s@, p@, j),
        decreases last + 1 - i,
    {
        if occurs_at_vec(s, p, i) {
            return true;
        }
        if i == last {
            assert forall|j: int| !occurs_at(s@, p@, j) by {
                if 0 <= j && j <= i {
                }
            }
            return false;
        }
        i = i + 1;
    }
    false
}

/// `s` with the non-overlapping occurrences of `p` deleted, left to right.
pub fn remove_all_vec(s: &Vec<char>, p: &Vec<char>) -> (r: Vec<char>)
    ensures
        r@ == remove_all(s@, p@),
{
    if p.len() == 0 {
        return sub_vec(s, 0, s.len());
    }
    let mut r: Vec<char> = Vec::new();
    let mut i: usize = 0;
    assert(s@.skip(0) == s@);
    while i < s.len()
        invariant
            i <= s.len(),
            p@.len() > 0,
            remove_all(s@, p@) == r@ + remove_all(s@.skip(i as int), p@),
        decreases s.len() - i,
    {
        let ghost rest = s@.skip(i as int);
        if occurs_at_vec(s, p, i) {
            assert(rest.subrange(0, p@.len() as int) == s@.subrange(i as int, i + p@.len()));
            assert(rest.skip(p@.len() as int) == s@.skip(i + p@.len()));
            i = i + p.len();
        } else {
            assert(!starts_with(rest, p@)) by {
                if starts_with(rest, p@) {
                    assert(rest.subrange(0, p@.len() as int) == s@.subrange(
                        i as int,
                        i + p@.len(),
                    ));
                }
            }
            assert(rest.drop_first() == s@.skip(i + 1));
            r.push(s[i]);
            i = i + 1;
        }
    }
    assert(s@.skip(i as int).len() == 0);
    r
}

/// `s` without the prefix `p`, where `s` begins with it.
pub fn strip_prefix_vec(s: &Vec<char>, p: &Vec<char>) -> (r: Option<Vec<char>>)
    ensures
        r is Some <==> starts_with(s@, p@),
        r matches Some(t) ==> t@ == s@.skip(p@.len() as int),
{
    if occurs_at_vec(s, p, 0) {
        Some(sub_vec(s, p.len(), s.len()))
    } else {
        None
    }
}

/// The position of the first `c` in `s`, or `s.len()`.
pub fn index_of_vec(s: &Vec<char>, c: char) -> (r: usize)
    ensures
        r == index_of(s@, c),
{
    proof {
        lemma_index_of(s@, c);
    }
    let mut i: usize = 0;
    while i < s.len() && s[i] != c
        invariant
            i <= s.len(),
            forall|j: int| 0 <= j < i ==> s@[j] != c,
        decreases s.len() - i,
    {
        i = i + 1;
    }
    proof {
        if (i as int) < index_of(s@, c) {
            assert(s@[i as int] != c);
        }
        if (i as int) > index_of(s@, c) {
            assert(s@[index_of(s@, c)] != c);
        }
    }
    i
}

/// The parts of `s` before and after its first `c`.
pub fn split_once_vec(s: &Vec<char>, c: char) -> (r: Option<(Vec<char>, Vec<char>)>)
    ensures
        match split_once(s@, c) {
            Some((a, b)) => r matches Some((x, y)) && x@ == a && y@ == b,
            None => r is None,
        },
{
    let i = index_of_vec(s, c);
    if i < s.len() {
        assert(s@.take(i as int) == s@.subrange(0, i as int));
        assert(s@.skip(i + 1) == s@.subrange(i + 1, s.len() as int));
        Some((sub_vec(s, 0, i), sub_vec(s, i + 1, s.len())))
    } else {
        None
    }
}

/// The contents of each vector of `r`.
pub open spec fn views(r: Seq<Vec<char>>) -> Seq<Seq<char>> {
    r.map_values(|v: Vec<char>| v@)
}

/// The lines of `s`, as `str::lines` cuts them.
pub fn lines_vec(s: &Vec<char>) -> (r: Vec<Vec<char>>)
    ensures
        views(r@) == lines(s@),
{
    let mut r: Vec<Vec<char>> = Vec::new();
    let mut start: usize = 0;
    assert(s@.skip(0) == s@);
    while start < s.len()
        invariant
            start <= s.len(),
            lines(s@) == views(r@) + lines(s@.skip(start as int)),
        decreases s.len() - start,
    {
        let ghost rest = s@.skip(start as int);
        let mut end = start;
        while end < s.len() && s[end] != '\n'
            invariant
                start <= end <= s.len(),
                forall|j: int| start <= j < end ==> s@[j] != '\n',
            decreases s.len() - end,
        {
            end = end + 1;
        }
        proof {
            lemma_index_of(rest, '\n');
            let k = index_of(rest, '\n');
            if k < end - start {
                assert(rest[k] == s@[start + k]);
            }
            if k > end - start && end < s.len() {
                assert(rest[end - start] == s@[end as int]);
            }
            if end == s.len() && k < end - start {
                assert(rest[k] == s@[start + k]);
            }
            assert(index_of(rest, '\n') == end - start);
        }
        let mut line = sub_vec(s, start, end);
        let ghost k = end - start;
        assert(rest.take(k) == s@.subrange(start as int, end as int));
        if end < s.len() {
            if line.len() > 0 && line[line.len() - 1] == '\r' {
                line.pop();
            }
            assert(line@ == strip_cr(rest.take(k)));
            assert(lines(rest) == seq![line@] + lines(rest.skip(k + 1)));
            assert(rest.skip(k + 1) == s@.skip(end + 1));
            let ghost before = r@;
            r.push(line);
            assert(views(r@) =~= views(before).push(line@));
            assert(views(r@) + lines(s@.skip(end + 1)) =~= views(before) + lines(rest));
            start = end + 1;
        } else {
            assert(rest.take(k) == rest);
            assert(lines(rest) == seq![rest]);
            let ghost before = r@;
            r.push(line);
            assert(views(r@) =~= views(before).push(rest));
            assert(s@.skip(end as int) =~= Seq::<char>::empty());
            assert(lines(s@.skip(end as int)) == Seq::<Seq<char>>::empty());
            assert(views(r@) + lines(s@.skip(end as int)) =~= views(before) + lines(rest));
            start = end;
        }
    }
    assert(s@.skip(start as int).len() == 0);
    r
}

/// Appends the decimal digits of `n` to `out`.
pub fn push_decimal(out: &mut Vec<char>, n: u64)
    ensures
        final(out)@ == old(out)@ + decimal(n as nat),
    decreases n,
{
    if n >= 10 {
        push_decimal(out, n / 10);
    }
    let d = n % 10;
    let c = if d == 0 {
        '0'
    } else if d == 1 {
        '1'
    } else if d == 2 {
        '2'
    } else if d == 3 {
        '3'
    } else if d == 4 {
        '4'
    } else if d == 5 {
        '5'
    } else if d == 6 {
        '6'
    } else if d == 7 {
        '7'
    } else if d == 8 {
        '8'
    } else {
        '9'
    };
    out.push(c);
}

/// Appends `n` as `Display` writes it to `out`.
pub fn push_signed_decimal(out: &mut Vec<char>, n: i64)
    ensures
        final(out)@ == old(out)@ + signed_decimal(n as int),
{
    if n < 0 {
        out.push('-');
        let m: u64 = if n == i64::MIN {
            9223372036854775808u64
        } else {
            (-n) as u64
        };
        push_decimal(out, m);
    } else {
        push_decimal(out, n as u64);
    }
}

/// Reads the optional `+` and the decimal digits of `s` as a `u32`.
pub fn parse_u32_vec(s: &Vec<char>) -> (r: Option<u32>)
    ensures
        r == parse_u32(s@),
{
    let start: usize = if s.len() > 0 && s[0] == '+' {
        1
    } else {
        0
    };
    let ghost d = without_plus(s@);
    assert(d == s@.skip(start as int));
    if start == s.len() {
        return None;
    }
    let mut value: u64 = 0;
    let mut i = start;
    while i < s.len()
        invariant
            start <= i <= s.len(),
            d == s@.skip(start as int),
            d == without_plus(s@),
            forall|j: int| start <= j < i ==> is_ascii_digit(#[trigger] s@[j]),
            value == digits_value(s@.subrange(start as int, i as int)),
            value <= u32::MAX,
        decreases s.len() - i,
    {
        let c = s[i];
        if !('0' <= c && c <= '9') {
            assert(d[i - start] == c);
            assert(!is_ascii_digit(d[i - start]));
            assert(!all_ascii_digits(d));
            return None;
        }
        let digit = (c as u32 - '0' as u32) as u64;
        let ghost prefix = s@.subrange(start as int, i + 1);
        assert(prefix.drop_last() == s@.subrange(start as int, i as int));
        assert(prefix.last() == c);
        assert(digits_value(prefix) == value * 10 + digit);
        let next = value * 10 + digit;
        if next > 0xffff_ffffu64 {
            proof {
                assert(d.take(i + 1 - start) == prefix);
                if all_ascii_digits(d) {
                    lemma_digits_value_prefix(d, (i + 1 - start) as int);
                }
            }
            return None;
        }
        value = next;
        i = i + 1;
    }
    assert(s@.subrange(start as int, s.len() as int) == d);
    Some(value as u32)
}

proof fn lemma_digits_value_prefix(d: Seq<char>, k: int)
    requires
        0 <= k <= d.len(),
        all_ascii_digits(d),
    ensures
        digits_value(d.take(k)) <= digits_value(d),
    decreases d.len() - k,
{
    if k < d.len() {
        lemma_digits_value_prefix(d, k + 1);
        assert(d.take(k + 1).drop_last() == d.take(k));
    } else {
        assert(d.take(k) == d);
    }
}

/// Lower-cases text the way `str::to_lowercase` does (by the Unicode
/// `Lowercase` mapping, which takes tables to state).
pub uninterp spec fn unicode_lowercase(s: Seq<char>) -> Seq<char>;

/// Whether every character of `s` is ASCII.
pub open spec fn all_ascii(s: Seq<char>) -> bool {
    forall|i: int| 0 <= i < s.len() ==> (#[trigger] s[i] as u32) < 128
}

/// An ASCII upper-case letter as its lower-case letter; any other
/// character as it is.
pub open spec fn ascii_lower_char(c: char) -> char {
    if 'A' <= c && c <= 'Z' {
        ((c as u32) + 32) as char
    } else {
        c
    }
}

/// `s` with its ASCII upper-case letters lowered.
pub open spec fn ascii_lowercase(s: Seq<char>) -> Seq<char> {
    Seq::new(s.len(), |i: int| ascii_lower_char(s[i]))
}

/// Calls `str::to_lowercase`; the result is the Unicode lower-case form of
/// the text, named `unicode_lowercase`. For ASCII text the contract also
/// claims what that form is: in the Unicode Character Database the ASCII
/// letters `A`–`Z` map to `a`–`z` and no other ASCII character has a
/// lower-case mapping, and `char::to_lowercase` documents that a character
/// without one maps to itself. Nothing more is claimed of other text.
#[verifier::external_body]
fn str_to_lowercase(s: &str) -> (r: String)
    ensures
        r@ == unicode_lowercase(s@),
        all_ascii(s@) ==> r@ == ascii_lowercase(s@),
{
    s.to_lowercase()
}

/// Lowering ASCII text gives ASCII text with no upper-case letter, and
/// lowering it again changes nothing; a character keeps being white space
/// or not.
pub proof fn lemma_ascii_lowercase(s: Seq<char>)
    requires
        all_ascii(s),
    ensures
        all_ascii(ascii_lowercase(s)),
        ascii_lowercase(ascii_lowercase(s)) == ascii_lowercase(s),
        forall|i: int|
            0 <= i < s.len() ==> (is_white(#[trigger] ascii_lowercase(s)[i]) <==> is_white(s[i])),
{
    let l = ascii_lowercase(s);
    assert forall|i: int| 0 <= i < l.len() implies (#[trigger] l[i] as u32) < 128 by {
        assert((s[i] as u32) < 128);
    }
    assert(ascii_lowercase(l) =~= l);
}

proof fn lemma_drop_first_ascii(s: Seq<char>)
    requires
        all_ascii(s),
        s.len() > 0,
    ensures
        all_ascii(s.drop_first()),
{
    assert forall|i: int| 0 <= i < s.len() - 1 implies (#[trigger] s.drop_first()[i] as u32)
        < 128 by {
        assert((s[i + 1] as u32) < 128);
    }
}

proof fn lemma_trim_start_ascii(s: Seq<char>, cls: CharClass)
    requires
        all_ascii(s),
    ensures
        all_ascii(trim_start_class(s, cls)),
        trim_start_class(s, cls).len() > 0 ==> !in_class(cls, trim_start_class(s, cls)[0]),
    decreases s.len(),
{
    if s.len() > 0 && in_class(cls, s[0]) {
        lemma_drop_first_ascii(s);
        lemma_trim_start_ascii(s.drop_first(), cls);
    }
}

proof fn lemma_trim_end_prefix(s: Seq<char>, cls: CharClass)
    ensures
        trim_end_class(s, cls).len() <= s.len(),
        forall|i: int| 0 <= i < trim_end_class(s, cls).len() ==> #[trigger] trim_end_class(s, cls)[i] == s[i],
    decreases s.len(),
{
    if s.len() > 0 && in_class(cls, s.last()) {
        lemma_trim_end_prefix(s.drop_last(), cls);
    }
}

/// Trimming keeps ASCII text ASCII, and what is left begins and ends with
/// characters of another class.
pub proof fn lemma_trim_class_ascii(s: Seq<char>, cls: CharClass)
    requires
        all_ascii(s),
    ensures
        all_ascii(trim_class(s, cls)),
        trim_class(s, cls).len() > 0 ==> !in_class(cls, trim_class(s, cls)[0]) && !in_class(
            cls,
            trim_class(s, cls).last(),
        ),
{
    let a = trim_start_class(s, cls);
    lemma_trim_start_ascii(s, cls);
    lemma_trim_end_prefix(a, cls);
    lemma_trim_end_class_last(a, cls);
    let t = trim_end_class(a, cls);
    assert forall|i: int| 0 <= i < t.len() implies (#[trigger] t[i] as u32) < 128 by {
        assert(t[i] == a[i]);
    }
    if t.len() > 0 {
        assert(t[0] == a[0]);
    }
}

/// Text that neither begins nor ends with a character of the class is its
/// own trimming.
pub proof fn lemma_trim_class_unchanged(s: Seq<char>, cls: CharClass)
    requires
        s.len() > 0 ==> !in_class(cls, s[0]) && !in_class(cls, s.last()),
    ensures
        trim_class(s, cls) == s,
{
}

/// Dropping the characters of a class keeps ASCII text ASCII and leaves
/// none of them; text without any is left as it is.
pub proof fn lemma_remove_class_ascii(s: Seq<char>, cls: CharClass)
    ensures
        all_ascii(s) ==> all_ascii(remove_class(s, cls)),
        forall|i: int| 0 <= i < remove_class(s, cls).len() ==> !in_class(cls, #[trigger] remove_class(s, cls)[i]),
        (forall|i: int| 0 <= i < s.len() ==> !in_class(cls, #[trigger] s[i])) ==> remove_class(s, cls) == s,
    decreases s.len(),
{
    if s.len() > 0 {
        let rest = s.drop_first();
        if all_ascii(s) {
            lemma_drop_first_ascii(s);
        }
        lemma_remove_class_ascii(rest, cls);
        if !in_class(cls, s[0]) {
            let r = seq![s[0]] + remove_class(rest, cls);
            assert forall|i: int| 0 <= i < r.len() implies !in_class(cls, #[trigger] r[i]) by {
                if i > 0 {
                    assert(r[i] == remove_class(rest, cls)[i - 1]);
                }
            }
            if all_ascii(s) {
                assert forall|i: int| 0 <= i < r.len() implies (#[trigger] r[i] as u32) < 128 by {
                    if i > 0 {
                        assert(r[i] == remove_class(rest, cls)[i - 1]);
                    } else {
                        assert((s[0] as u32) < 128);
                    }
                }
            }
            if forall|i: int| 0 <= i < s.len() ==> !in_class(cls, #[trigger] s[i]) {
                assert forall|i: int| 0 <= i < rest.len() implies !in_class(cls, #[trigger] rest[i]) by {
                    assert(rest[i] == s[i + 1]);
                }
                assert(r =~= s);
            }
        }
    }
}

/// The Unicode lower-case form of the characters of `v`.
pub fn lowercase_vec(v: &Vec<char>) -> (r: Vec<char>)
    ensures
        r@ == unicode_lowercase(v@),
        all_ascii(v@) ==> r@ == ascii_lowercase(v@),
{
    let s = string_of(v);
    let l = str_to_lowercase(s.as_str());
    chars_of(l.as_str())
}

} // verus!
