//! Character-level text utilities shared by the agent, planner and auth modules.
//!
//! Text is modelled as `Seq<char>` (the view of `String` and `str`).
use vstd::prelude::*;

verus! {

// ---------------------------------------------------------------------------
// Unicode facts taken from std
// ---------------------------------------------------------------------------

/// The full Unicode lowercase mapping of a text, as `str::to_lowercase` computes it.
pub uninterp spec fn unicode_lowercase(s: Seq<char>) -> Seq<char>;

/// The full Unicode uppercase mapping of a text, as `str::to_uppercase` computes it.
pub uninterp spec fn unicode_uppercase(s: Seq<char>) -> Seq<char>;

/// Whether a character has the Unicode `Alphabetic` or `Numeric` property,
/// as `char::is_alphanumeric` decides it.
pub uninterp spec fn unicode_is_alphanumeric(c: char) -> bool;

/// Calls `str::to_lowercase`; the result is the Unicode lowercase mapping of `s`.
#[verifier::external_body]
pub(crate) fn to_lowercase(s: &str) -> (r: String)
    ensures
        r@ == unicode_lowercase(s@),
{
    s.to_lowercase()
}

/// Calls `str::to_uppercase`; the result is the Unicode uppercase mapping of `s`.
#[verifier::external_body]
pub(crate) fn to_uppercase(s: &str) -> (r: String)
    ensures
        r@ == unicode_uppercase(s@),
{
    s.to_uppercase()
}

/// Calls `char::is_alphanumeric`.
#[verifier::external_body]
pub(crate) fn is_alphanumeric(c: char) -> (b: bool)
    ensures
        b == unicode_is_alphanumeric(c),
{
    c.is_alphanumeric()
}

/// Calls `String::push`, which appends one character.
#[verifier::external_body]
pub(crate) fn push_char(s: &mut String, c: char)
    ensures
        final(s)@ == old(s)@.push(c),
{
    s.push(c)
}

// ---------------------------------------------------------------------------
// Whitespace and trimming
// ---------------------------------------------------------------------------

/// The Unicode `White_Space` property, which `char::is_whitespace` and `str::trim` use.
pub open spec fn is_white_space(c: char) -> bool {
    ||| ('\u{9}' <= c && c <= '\u{d}')
    ||| c == ' '
    ||| c == '\u{85}'
    ||| c == '\u{a0}'
    ||| c == '\u{1680}'
    ||| ('\u{2000}' <= c && c <= '\u{200a}')
    ||| c == '\u{2028}'
    ||| c == '\u{2029}'
    ||| c == '\u{202f}'
    ||| c == '\u{205f}'
    ||| c == '\u{3000}'
}

/// Whether `c` is white space.
pub fn is_whitespace(c: char) -> (b: bool)
    ensures
        b == is_white_space(c),
{
    ('\u{9}' <= c && c <= '\u{d}') || c == ' ' || c == '\u{85}' || c == '\u{a0}' || c
        == '\u{1680}' || ('\u{2000}' <= c && c <= '\u{200a}') || c == '\u{2028}' || c
        == '\u{2029}' || c == '\u{202f}' || c == '\u{205f}' || c == '\u{3000}'
}

/// `s` without its leading white space.
pub open spec fn trim_start(s: Seq<char>) -> Seq<char>
    decreases s.len(),
{
    if s.len() > 0 && is_white_space(s[0]) {
        trim_start(s.drop_first())
    } else {
        s
    }
}

/// `s` without its trailing white space.
pub open spec fn trim_end(s: Seq<char>) -> Seq<char>
    decreases s.len(),
{
    if s.len() > 0 && is_white_space(s.last()) {
        trim_end(s.drop_last())
    } else {
        s
    }
}

/// `s` without leading and trailing white space, as `str::trim` gives it.
pub open spec fn trim(s: Seq<char>) -> Seq<char> {
    trim_end(trim_start(s))
}

// ---------------------------------------------------------------------------
// UTF-8 lengths
// ---------------------------------------------------------------------------

/// Number of bytes in the UTF-8 encoding of `c`.
pub open spec fn utf8_char_len(c: char) -> nat {
    if '\u{80}' > c {
        1
    } else if '\u{800}' > c {
        2
    } else if '\u{10000}' > c {
        3
    } else {
        4
    }
}

/// Number of bytes in the UTF-8 encoding of `s` (what `str::len` returns).
pub open spec fn utf8_len(s: Seq<char>) -> nat
    decreases s.len(),
{
    if s.len() == 0 {
        0
    } else {
        utf8_len(s.drop_last()) + utf8_char_len(s.last())
    }
}

/// Number of bytes in the UTF-8 encoding of `c`.
pub fn char_len_utf8(c: char) -> (n: usize)
    ensures
        n == utf8_char_len(c),
{
    if '\u{80}' > c {
        1
    } else if '\u{800}' > c {
        2
    } else if '\u{10000}' > c {
        3
    } else {
        4
    }
}

/// Prefixes of a text have strictly increasing UTF-8 lengths.
pub proof fn lemma_utf8_len_prefix(s: Seq<char>, i: int, j: int)
    requires
        0 <= i < j <= s.len(),
    ensures
        utf8_len(s.take(i)) < utf8_len(s.take(j)),
    decreases j - i,
{
    assert(s.take(j).drop_last() =~= s.take(j - 1));
    if i < j - 1 {
        lemma_utf8_len_prefix(s, i, j - 1);
    }
}

// ---------------------------------------------------------------------------
// Conversions between text and character vectors
// ---------------------------------------------------------------------------

/// The characters of `s`, in order.
pub fn to_chars(s: &str) -> (r: Vec<char>)
    ensures
        r@ == s@,
{
    let mut r: Vec<char> = Vec::new();
    for c in it: s.chars()
        invariant
            it.seq() == s@,
            r@ == it.seq().take(it.index() as int),
    {
        assert(it.seq().take(it.index() + 1) == it.seq().take(it.index() as int).push(c));
        r.push(c);
    }
    assert(s@.take(s@.len() as int) == s@);
    r
}

/// A string made of the characters in `v[from..to]`.
pub fn string_from_range(v: &Vec<char>, from: usize, to: usize) -> (r: String)
    requires
        from <= to <= v.len(),
    ensures
        r@ == v@.subrange(from as int, to as int),
{
    let mut r = String::new();
    let mut i = from;
    while i < to
        invariant
            from <= i <= to <= v.len(),
            r@ == v@.subrange(from as int, i as int),
        decreases to - i,
    {
        assert(v@.subrange(from as int, i + 1) == v@.subrange(from as int, i as int).push(v@[i as int]));
        push_char(&mut r, v[i]);
        i = i + 1;
    }
    r
}

/// A string made of the characters of `v`.
pub fn string_from_chars(v: &Vec<char>) -> (r: String)
    ensures
        r@ == v@,
{
    let r = string_from_range(v, 0, v.len());
    assert(v@.subrange(0, v@.len() as int) == v@);
    r
}

/// Appends `t` to `s`.
pub fn push_str(s: &mut String, t: &str)
    ensures
        final(s)@ == old(s)@ + t@,
{
    let tc = to_chars(t);
    let ghost s0 = s@;
    let mut i: usize = 0;
    while i < tc.len()
        invariant
            i <= tc.len(),
            tc@ == t@,
            s@ == s0 + tc@.take(i as int),
        decreases tc.len() - i,
    {
        assert(tc@.take(i + 1) == tc@.take(i as int).push(tc@[i as int]));
        push_char(s, tc[i]);
        i = i + 1;
    }
    assert(tc@.take(tc.len() as int) == tc@);
}

/// A new string holding `a` followed by `b`.
pub fn concat(a: &str, b: &str) -> (r: String)
    ensures
        r@ == a@ + b@,
{
    let mut r = String::new();
    push_str(&mut r, a);
    assert(Seq::<char>::empty() + a@ == a@);
    push_str(&mut r, b);
    r
}

// ---------------------------------------------------------------------------
// Searching
// ---------------------------------------------------------------------------

/// `p` occurs in `s` at position `i`.
pub open spec fn occurs_at(s: Seq<char>, p: Seq<char>, i: int) -> bool {
    0 <= i && i + p.len() <= s.len() && s.subrange(i, i + p.len()) == p
}

/// `p` occurs somewhere in `s`, as `str::contains` decides it.
pub open spec fn contains_seq(s: Seq<char>, p: Seq<char>) -> bool {
    exists|i: int| occurs_at(s, p, i)
}

/// `s` starts with `p`.
pub open spec fn starts_with(s: Seq<char>, p: Seq<char>) -> bool {
    p.len() <= s.len() && s.take(p.len() as int) == p
}

/// Whether `p` occurs in `s` at position `i`.
pub fn matches_at(s: &Vec<char>, p: &Vec<char>, i: usize) -> (b: bool)
    ensures
        b == occurs_at(s@, p@, i as int),
{
    if i > s.len() || p.len() > s.len() - i {
        return false;
    }
    let mut j: usize = 0;
    while j < p.len()
        invariant
            i + p.len() <= s.len(),
            j <= p.len(),
            forall|k: int| 0 <= k < j ==> s@[i + k] == p@[k],
        decreases p.len() - j,
    {
        if s[i + j] != p[j] {
            assert(s@.subrange(i as int, i + p.len())[j as int] != p@[j as int]);
            return false;
        }
        j = j + 1;
    }
    assert(s@.subrange(i as int, i + p.len()) =~= p@);
    true
}

/// The first position at or after `from` where `p` occurs in `s`.
pub fn find_from(s: &Vec<char>, p: &Vec<char>, from: usize) -> (r: Option<usize>)
    ensures
        match r {
            Some(i) => from <= i && occurs_at(s@, p@, i as int) && forall|k: int|
                from <= k < i ==> !occurs_at(s@, p@, k),
            None => forall|k: int| from <= k ==> !occurs_at(s@, p@, k),
        },
{
    let mut i = from;
    if i > s.len() {
        assert forall|k: int| from <= k implies !occurs_at(s@, p@, k) by {}
        return None;
    }
    while i < s.len()
        invariant
            from <= i <= s.len(),
            forall|k: int| from <= k < i ==> !occurs_at(s@, p@, k),
        decreases s.len() - i,
    {
        if matches_at(s, p, i) {
            return Some(i);
        }
        i = i + 1;
    }
    if matches_at(s, p, i) {
        return Some(i);
    }
    assert forall|k: int| from <= k implies !occurs_at(s@, p@, k) by {
        if k > s.len() {
            assert(!(k + p@.len() <= s@.len()));
        }
    }
    None
}

/// Whether `p` occurs in `s`.
pub fn contains(s: &Vec<char>, p: &str) -> (b: bool)
    ensures
        b == contains_seq(s@, p@),
{
    let pc = to_chars(p);
    match find_from(s, &pc, 0) {
        Some(i) => true,
        None => false,
    }
}

/// Whether `s` starts with `p`.
pub fn has_prefix(s: &Vec<char>, p: &str) -> (b: bool)
    ensures
        b == starts_with(s@, p@),
{
    let pc = to_chars(p);
    let b = matches_at(s, &pc, 0);
    assert(starts_with(s@, p@) ==> s@.subrange(0, p@.len() as int) == s@.take(p@.len() as int));
    b
}

/// Whether the text `s` equals the text `t`.
pub fn str_eq(s: &str, t: &str) -> (b: bool)
    ensures
        b == (s@ == t@),
{
    let a = s.to_owned();
    let b = t.to_owned();
    a == b
}

// ---------------------------------------------------------------------------
// Decimal formatting
// ---------------------------------------------------------------------------

/// The character of a decimal digit.
pub open spec fn digit_char(d: int) -> char {
    if d == 0 {
        '0'
    } else if d == 1 {
        '1'
    } else if d == 2 {
        '2'
    } else if d == 3 {
        '3'
    } else if d == 4 {
        '4'
    } else if d == 5 {
        '5'
    } else if d == 6 {
        '6'
    } else if d == 7 {
        '7'
    } else if d == 8 {
        '8'
    } else {
        '9'
    }
}

/// The decimal representation of `n`, as `{}` formats an unsigned integer.
pub open spec fn decimal(n: nat) -> Seq<char>
    decreases n,
{
    if n < 10 {
        seq![digit_char(n as int)]
    } else {
        decimal(n / 10).push(digit_char((n % 10) as int))
    }
}

fn digit(d: u64) -> (c: char)
    requires
        d < 10,
    ensures
        c == digit_char(d as int),
{
    match d {
        0 => '0',
        1 => '1',
        2 => '2',
        3 => '3',
        4 => '4',
        5 => '5',
        6 => '6',
        7 => '7',
        8 => '8',
        _ => '9',
    }
}

/// Appends the decimal representation of `n` to `s`.
pub fn push_decimal(s: &mut String, n: u64)
    ensures
        final(s)@ == old(s)@ + decimal(n as nat),
    decreases n,
{
    if n >= 10 {
        push_decimal(s, n / 10);
    }
    push_char(s, digit(n % 10));
}

/// The decimal representation of `n`.
pub fn decimal_string(n: u64) -> (r: String)
    ensures
        r@ == decimal(n as nat),
{
    let mut r = String::new();
    push_decimal(&mut r, n);
    assert(Seq::<char>::empty() + decimal(n as nat) == decimal(n as nat));
    r
}

// ---------------------------------------------------------------------------
// Trimming, stripping and replacing on character vectors
// ---------------------------------------------------------------------------

/// The characters `v[a..b]` as a new vector.
pub fn sub_vec(v: &Vec<char>, a: usize, b: usize) -> (r: Vec<char>)
    requires
        a <= b <= v.len(),
    ensures
        r@ == v@.subrange(a as int, b as int),
{
    let mut r: Vec<char> = Vec::new();
    let mut i = a;
    while i < b
        invariant
            a <= i <= b <= v.len(),
            r@ == v@.subrange(a as int, i as int),
        decreases b - i,
    {
        assert(v@.subrange(a as int, i + 1) == v@.subrange(a as int, i as int).push(v@[i as int]));
        r.push(v[i]);
        i = i + 1;
    }
    r
}

proof fn lemma_trim_start_skip(s: Seq<char>, k: int)
    requires
        0 <= k <= s.len(),
        forall|j: int| 0 <= j < k ==> is_white_space(#[trigger] s[j]),
    ensures
        trim_start(s) == trim_start(s.skip(k)),
    decreases k,
{
    if k > 0 {
        assert(s.drop_first() =~= s.skip(1));
        assert forall|j: int| 0 <= j < k - 1 implies is_white_space(#[trigger] s.drop_first()[j]) by {
            assert(s.drop_first()[j] == s[j + 1]);
        }
        lemma_trim_start_skip(s.drop_first(), k - 1);
        assert(s.drop_first().skip(k - 1) =~= s.skip(k));
    } else {
        assert(s.skip(0) =~= s);
    }
}

proof fn lemma_trim_end_take(s: Seq<char>, k: int)
    requires
        0 <= k <= s.len(),
        forall|j: int| k <= j < s.len() ==> is_white_space(#[trigger] s[j]),
    ensures
        trim_end(s) == trim_end(s.take(k)),
    decreases s.len() - k,
{
    if k < s.len() {
        assert(s.drop_last() =~= s.take(s.len() - 1));
        assert forall|j: int| k <= j < s.drop_last().len() implies is_white_space(#[trigger] s.drop_last()[j]) by {
            assert(s.drop_last()[j] == s[j]);
        }
        lemma_trim_end_take(s.drop_last(), k);
        assert(s.drop_last().take(k) =~= s.take(k));
    } else {
        assert(s.take(k) =~= s);
    }
}

/// `v` without leading and trailing white space.
pub fn trim_vec(v: &Vec<char>) -> (r: Vec<char>)
    ensures
        r@ == trim(v@),
{
    let mut a: usize = 0;
    while a < v.len() && is_whitespace(v[a])
        invariant
            a <= v.len(),
            forall|j: int| 0 <= j < a ==> is_white_space(#[trigger] v@[j]),
        decreases v.len() - a,
    {
        a = a + 1;
    }
    proof {
        lemma_trim_start_skip(v@, a as int);
    }
    let mut b: usize = v.len();
    while b > a && is_whitespace(v[b - 1])
        invariant
            a <= b <= v.len(),
            forall|j: int| b <= j < v.len() ==> is_white_space(#[trigger] v@[j]),
        decreases b,
    {
        b = b - 1;
    }
    let ghost t = v@.skip(a as int);
    proof {
        if a < v.len() {
            assert(t[0] == v@[a as int]);
        }
        assert(trim_start(t) == t);
        assert forall|j: int| b - a <= j < t.len() implies is_white_space(#[trigger] t[j]) by {
            assert(t[j] == v@[a + j]);
        }
        lemma_trim_end_take(t, b - a);
        let u = t.take(b - a);
        if b > a {
            assert(u.last() == v@[b - 1]);
        }
        assert(trim_end(u) == u);
        assert(u =~= v@.subrange(a as int, b as int));
    }
    sub_vec(v, a, b)
}

/// `s` ends with `p`.
pub open spec fn ends_with(s: Seq<char>, p: Seq<char>) -> bool {
    p.len() <= s.len() && s.skip(s.len() - p.len()) == p
}

/// `s` with every leading repetition of `p` removed, as `str::trim_start_matches` does.
pub open spec fn trim_start_matches(s: Seq<char>, p: Seq<char>) -> Seq<char>
    decreases s.len(),
{
    if p.len() > 0 && starts_with(s, p) {
        trim_start_matches(s.skip(p.len() as int), p)
    } else {
        s
    }
}

/// `s` with every trailing repetition of `p` removed, as `str::trim_end_matches` does.
pub open spec fn trim_end_matches(s: Seq<char>, p: Seq<char>) -> Seq<char>
    decreases s.len(),
{
    if p.len() > 0 && ends_with(s, p) {
        trim_end_matches(s.take(s.len() - p.len()), p)
    } else {
        s
    }
}

/// `v` with every leading repetition of `p` removed.
pub fn strip_prefixes(v: &Vec<char>, p: &str) -> (r: Vec<char>)
    ensures
        r@ == trim_start_matches(v@, p@),
{
    let pc = to_chars(p);
    let mut a: usize = 0;
    if pc.len() == 0 {
        return sub_vec(v, 0, v.len());
    }
    assert(v@.skip(0) =~= v@);
    while matches_at(v, &pc, a)
        invariant
            a <= v.len(),
            pc@ == p@,
            pc.len() > 0,
            trim_start_matches(v@, p@) == trim_start_matches(v@.skip(a as int), p@),
        decreases v.len() - a,
    {
        assert(v@.skip(a as int).take(pc.len() as int) =~= v@.subrange(a as int, a + pc.len()));
        assert(v@.skip(a as int).skip(pc.len() as int) =~= v@.skip(a + pc.len()));
        a = a + pc.len();
    }
    assert(v@.skip(a as int).take(pc.len() as int) =~= v@.subrange(a as int, a + pc.len()) || pc.len() > v@.skip(a as int).len());
    let r = sub_vec(v, a, v.len());
    assert(r@ =~= v@.skip(a as int));
    r
}

/// `v` with every trailing repetition of `p` removed.
pub fn strip_suffixes(v: &Vec<char>, p: &str) -> (r: Vec<char>)
    ensures
        r@ == trim_end_matches(v@, p@),
{
    let pc = to_chars(p);
    if pc.len() == 0 {
        return sub_vec(v, 0, v.len());
    }
    let mut b: usize = v.len();
    assert(v@.take(v.len() as int) =~= v@);
    while b >= pc.len() && matches_at(v, &pc, b - pc.len())
        invariant
            b <= v.len(),
            pc@ == p@,
            pc.len() > 0,
            trim_end_matches(v@, p@) == trim_end_matches(v@.take(b as int), p@),
        decreases b,
    {
        assert(v@.take(b as int).skip(b - pc.len()) =~= v@.subrange(b - pc.len(), b as int));
        assert(v@.take(b as int).take(b - pc.len()) =~= v@.take(b - pc.len()));
        b = b - pc.len();
    }
    if b >= pc.len() {
        assert(v@.take(b as int).skip(b - pc.len()) =~= v@.subrange(b - pc.len(), b as int));
    }
    let r = sub_vec(v, 0, b);
    assert(r@ =~= v@.take(b as int));
    r
}

/// `s` with its first occurrence of `p` removed (`str::replacen(p, "", 1)` for a
/// non-empty `p`); `s` itself when `p` does not occur.
pub open spec fn remove_first(s: Seq<char>, p: Seq<char>) -> Seq<char> {
    if contains_seq(s, p) {
        let i = choose|i: int| occurs_at(s, p, i) && forall|k: int| 0 <= k < i ==> !occurs_at(s, p, k);
        s.take(i) + s.skip(i + p.len())
    } else {
        s
    }
}

/// `v` with its first occurrence of `p` removed.
pub fn remove_first_vec(v: &Vec<char>, p: &str) -> (r: Vec<char>)
    ensures
        r@ == remove_first(v@, p@),
{
    let pc = to_chars(p);
    match find_from(v, &pc, 0) {
        Some(i) => {
            proof {
                let j = choose|j: int| occurs_at(v@, p@, j) && forall|k: int| 0 <= k < j ==> !occurs_at(v@, p@, k);
                if j < i {
                } else if i < j {
                    assert(!occurs_at(v@, p@, i as int));
                }
                assert(j == i);
            }
            let mut r = sub_vec(v, 0, i);
            let tail = sub_vec(v, i + pc.len(), v.len());
            let ghost r0 = r@;
            let mut k: usize = 0;
            while k < tail.len()
                invariant
                    k <= tail.len(),
                    r@ == r0 + tail@.take(k as int),
                decreases tail.len() - k,
            {
                assert(tail@.take(k + 1) == tail@.take(k as int).push(tail@[k as int]));
                r.push(tail[k]);
                k = k + 1;
            }
            assert(tail@.take(tail.len() as int) == tail@);
            assert(r@ =~= v@.take(i as int) + v@.skip(i + pc.len()));
            r
        },
        None => {
            assert(!contains_seq(v@, p@));
            sub_vec(v, 0, v.len())
        },
    }
}

/// The pieces of `s` between occurrences of `sep`, as `str::split(sep)` yields
/// them (empty pieces included).
pub open spec fn split_char(s: Seq<char>, sep: char) -> Seq<Seq<char>>
    decreases s.len(),
{
    if s.len() == 0 {
        seq![Seq::<char>::empty()]
    } else {
        let p = split_char(s.drop_last(), sep);
        if s.last() == sep {
            p.push(Seq::<char>::empty())
        } else {
            p.update(p.len() - 1, p.last().push(s.last()))
        }
    }
}

/// Splitting gives at least one piece.
pub proof fn lemma_split_char_len(s: Seq<char>, sep: char)
    ensures
        split_char(s, sep).len() >= 1,
    decreases s.len(),
{
    if s.len() > 0 {
        lemma_split_char_len(s.drop_last(), sep);
    }
}

/// The lines of `s` as `str::lines` yields them: split at each `\n`, a `\r`
/// just before a `\n` dropped, and no empty last line after a final `\n`.
pub open spec fn text_lines(s: Seq<char>) -> Seq<Seq<char>> {
    let pieces = split_char(s, '\n');
    let n: int = if s.len() == 0 {
        0
    } else if s.last() == '\n' {
        pieces.len() - 1
    } else {
        pieces.len() as int
    };
    Seq::new(
        n as nat,
        |i: int|
            if i < pieces.len() - 1 && pieces[i].len() > 0 && pieces[i].last() == '\r' {
                pieces[i].drop_last()
            } else {
                pieces[i]
            },
    )
}

/// No character of `s` ends a line (`\n`) or returns the carriage (`\r`).
pub open spec fn single_line(s: Seq<char>) -> bool {
    forall|i: int| 0 <= i < s.len() ==> s[i] != '\n' && s[i] != '\r'
}

/// The lines, each followed by `\n`.
pub open spec fn terminated(lines: Seq<Seq<char>>) -> Seq<char>
    decreases lines.len(),
{
    if lines.len() == 0 {
        Seq::empty()
    } else {
        terminated(lines.drop_last()) + lines.last() + seq!['\n']
    }
}

/// Appending text without the separator extends the last piece.
pub proof fn lemma_split_append_plain(x: Seq<char>, t: Seq<char>, sep: char)
    requires
        forall|i: int| 0 <= i < t.len() ==> t[i] != sep,
    ensures
        split_char(x + t, sep) == split_char(x, sep).update(
            split_char(x, sep).len() - 1,
            split_char(x, sep).last() + t,
        ),
    decreases t.len(),
{
    lemma_split_char_len(x, sep);
    if t.len() == 0 {
        assert(x + t =~= x);
        assert(split_char(x, sep).last() + t =~= split_char(x, sep).last());
        assert(split_char(x, sep).update(split_char(x, sep).len() - 1, split_char(x, sep).last())
            =~= split_char(x, sep));
    } else {
        let t0 = t.drop_last();
        lemma_split_append_plain(x, t0, sep);
        assert((x + t).drop_last() =~= x + t0);
        assert((x + t).last() == t.last());
        assert((split_char(x, sep).last() + t0).push(t.last()) =~= split_char(x, sep).last() + t);
        let p = split_char(x + t0, sep);
        assert(p.len() == split_char(x, sep).len());
        assert(p.last() == split_char(x, sep).last() + t0);
        assert(p.update(p.len() - 1, p.last().push(t.last())) =~= split_char(x, sep).update(
            split_char(x, sep).len() - 1,
            split_char(x, sep).last() + t,
        ));
    }
}

/// Newline-terminated lines without line breaks split back into those lines,
/// then an empty piece.
pub proof fn lemma_split_terminated(lines: Seq<Seq<char>>)
    requires
        forall|k: int| 0 <= k < lines.len() ==> single_line(#[trigger] lines[k]),
    ensures
        split_char(terminated(lines), '\n') == lines.push(Seq::<char>::empty()),
    decreases lines.len(),
{
    if lines.len() == 0 {
        assert(split_char(Seq::<char>::empty(), '\n') =~= seq![Seq::<char>::empty()]);
        assert(lines.push(Seq::<char>::empty()) =~= seq![Seq::<char>::empty()]);
    } else {
        let front = lines.drop_last();
        assert forall|k: int| 0 <= k < front.len() implies single_line(#[trigger] front[k]) by {
            assert(front[k] == lines[k]);
        }
        lemma_split_terminated(front);
        let l = lines.last();
        assert(single_line(lines[lines.len() - 1]));
        lemma_split_append_plain(terminated(front), l, '\n');
        let x = terminated(front) + l;
        assert(split_char(x, '\n') =~= front.push(l));
        assert(terminated(lines) =~= x.push('\n'));
        assert(x.push('\n').drop_last() =~= x);
        assert(split_char(terminated(lines), '\n') =~= front.push(l).push(Seq::<char>::empty()));
        assert(front.push(l) =~= lines);
    }
}

/// Newline-terminated lines without line breaks read back as those lines.
pub proof fn lemma_lines_of_terminated(lines: Seq<Seq<char>>)
    requires
        forall|k: int| 0 <= k < lines.len() ==> single_line(#[trigger] lines[k]),
    ensures
        text_lines(terminated(lines)) == lines,
{
    lemma_split_terminated(lines);
    let s = terminated(lines);
    if lines.len() == 0 {
        assert(text_lines(s) =~= lines);
    } else {
        assert(s.len() > 0 && s.last() == '\n');
        let pieces = split_char(s, '\n');
        assert forall|i: int| 0 <= i < lines.len() implies #[trigger] text_lines(s)[i] == lines[i] by {
            assert(pieces[i] == lines[i]);
            assert(single_line(lines[i]));
            if lines[i].len() > 0 {
                assert(lines[i].last() == lines[i][lines[i].len() - 1]);
            }
        }
        assert(text_lines(s) =~= lines);
    }
}

/// The lines of `text`, as `str::lines` yields them.
pub fn lines_of(text: &str) -> (r: Vec<Vec<char>>)
    ensures
        char_views(r@) == text_lines(text@),
{
    let chars = to_chars(text);
    let pieces = split_on(&chars, '\n');
    proof {
        lemma_split_char_len(text@, '\n');
    }
    let n: usize = if chars.len() == 0 {
        0
    } else if chars[chars.len() - 1] == '\n' {
        pieces.len() - 1
    } else {
        pieces.len()
    };
    let ghost lines = text_lines(text@);
    let mut r: Vec<Vec<char>> = Vec::new();
    let mut i: usize = 0;
    while i < n
        invariant
            i <= n <= pieces.len(),
            n == lines.len(),
            lines == text_lines(text@),
            char_views(pieces@) == split_char(text@, '\n'),
            char_views(r@) == lines.take(i as int),
        decreases n - i,
    {
        let piece = &pieces[i];
        let line: Vec<char> = if i + 1 < pieces.len() && piece.len() > 0 && piece[piece.len() - 1] == '\r' {
            sub_vec(piece, 0, piece.len() - 1)
        } else {
            sub_vec(piece, 0, piece.len())
        };
        assert(char_views(pieces@)[i as int] == piece@);
        assert(line@ =~= lines[i as int]);
        let ghost before = char_views(r@);
        r.push(line);
        assert(char_views(r@) =~= before.push(lines[i as int]));
        assert(lines.take(i + 1) =~= lines.take(i as int).push(lines[i as int]));
        i = i + 1;
    }
    assert(lines.take(n as int) =~= lines);
    r
}

/// The views of a vector of character vectors.
pub open spec fn char_views(v: Seq<Vec<char>>) -> Seq<Seq<char>> {
    v.map_values(|x: Vec<char>| x@)
}

/// Splits `v` at each `sep`.
pub fn split_on(v: &Vec<char>, sep: char) -> (r: Vec<Vec<char>>)
    ensures
        char_views(r@) == split_char(v@, sep),
{
    let mut out: Vec<Vec<char>> = Vec::new();
    let mut cur: Vec<char> = Vec::new();
    let mut i: usize = 0;
    assert(v@.take(0) =~= Seq::<char>::empty());
    assert(char_views(out@).push(cur@) =~= split_char(v@.take(0), sep));
    while i < v.len()
        invariant
            i <= v.len(),
            char_views(out@).push(cur@) == split_char(v@.take(i as int), sep),
        decreases v.len() - i,
    {
        let c = v[i];
        assert(v@.take(i + 1).drop_last() =~= v@.take(i as int));
        assert(v@.take(i + 1).last() == c);
        proof {
            lemma_split_char_len(v@.take(i as int), sep);
        }
        if c == sep {
            let done = cur;
            out.push(done);
            cur = Vec::new();
            assert(char_views(out@).push(cur@) =~= split_char(v@.take(i + 1), sep));
        } else {
            let ghost before = char_views(out@).push(cur@);
            cur.push(c);
            assert(char_views(out@).push(cur@) =~= before.update(before.len() - 1, before.last().push(c)));
        }
        i = i + 1;
    }
    assert(v@.take(v.len() as int) =~= v@);
    out.push(cur);
    out
}

} // verus!
