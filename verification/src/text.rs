//! Character-level building blocks: white space, margins, delimiters and
//! decimal integers.

use vstd::prelude::*;
use vstd::slice::slice_subrange;

verus! {

/// White space as Unicode defines it (the `White_Space` property).
pub open spec fn is_space(c: char) -> bool {
    let u = c as u32;
    ||| 0x09 <= u <= 0x0D
    ||| u == 0x20
    ||| u == 0x85
    ||| u == 0xA0
    ||| u == 0x1680
    ||| 0x2000 <= u <= 0x200A
    ||| u == 0x2028
    ||| u == 0x2029
    ||| u == 0x202F
    ||| u == 0x205F
    ||| u == 0x3000
}

/// The characters that may be taken off both ends of a text.
#[derive(Clone, Copy, Debug, PartialEq, Eq)]
pub enum Margin {
    /// White space.
    Blank,
    /// The single quote that encloses string values.
    Quote,
}

impl Margin {
    /// Whether `c` belongs to this margin.
    pub open spec fn holds(self, c: char) -> bool {
        match self {
            Margin::Blank => is_space(c),
            Margin::Quote => c == '\'',
        }
    }

    /// Decides [`Margin::holds`].
    pub fn test(self, c: char) -> (r: bool)
        ensures
            r == self.holds(c),
    {
        match self {
            Margin::Blank => {
                let u: u32 = c as u32;
                (0x09 <= u && u <= 0x0D) || u == 0x20 || u == 0x85 || u == 0xA0 || u == 0x1680 || (
                0x2000 <= u && u <= 0x200A) || u == 0x2028 || u == 0x2029 || u == 0x202F || u
                    == 0x205F || u == 0x3000
            },
            Margin::Quote => c == '\'',
        }
    }
}

/// How many characters at the start of `s` belong to the margin.
pub open spec fn lead(s: Seq<char>, m: Margin) -> nat
    decreases s.len(),
{
    if s.len() > 0 && m.holds(s[0]) {
        1 + lead(s.drop_first(), m)
    } else {
        0
    }
}

/// How many characters at the end of `s` belong to the margin.
pub open spec fn trail(s: Seq<char>, m: Margin) -> nat
    decreases s.len(),
{
    if s.len() > 0 && m.holds(s.last()) {
        1 + trail(s.drop_last(), m)
    } else {
        0
    }
}

/// `s` without its leading and trailing margin characters.
pub open spec fn strip(s: Seq<char>, m: Margin) -> Seq<char> {
    let rest = s.skip(lead(s, m) as int);
    rest.take(rest.len() - trail(rest, m))
}

/// The leading margin is the longest prefix made of margin characters.
pub proof fn lemma_lead(s: Seq<char>, m: Margin, k: int)
    requires
        0 <= k <= s.len(),
        forall|j: int| 0 <= j < k ==> m.holds(#[trigger] s[j]),
        k == s.len() || !m.holds(s[k]),
    ensures
        lead(s, m) == k,
    decreases k,
{
    if k > 0 {
        let t = s.drop_first();
        assert forall|j: int| 0 <= j < k - 1 implies m.holds(#[trigger] t[j]) by {
            assert(t[j] == s[j + 1]);
        }
        lemma_lead(t, m, k - 1);
    }
}

/// The trailing margin is the longest suffix made of margin characters.
pub proof fn lemma_trail(s: Seq<char>, m: Margin, k: int)
    requires
        0 <= k <= s.len(),
        forall|j: int| s.len() - k <= j < s.len() ==> m.holds(#[trigger] s[j]),
        k == s.len() || !m.holds(s[s.len() - k - 1]),
    ensures
        trail(s, m) == k,
    decreases k,
{
    if k > 0 {
        let t = s.drop_last();
        assert forall|j: int| t.len() - (k - 1) <= j < t.len() implies m.holds(#[trigger] t[j]) by {
            assert(t[j] == s[j]);
        }
        lemma_trail(t, m, k - 1);
    }
}

/// The leading margin holds margin characters only and ends where `s` ends
/// or at a character that is none.
pub proof fn lemma_lead_is_margin(s: Seq<char>, m: Margin)
    ensures
        lead(s, m) <= s.len(),
        forall|j: int| 0 <= j < lead(s, m) ==> m.holds(#[trigger] s[j]),
        lead(s, m) < s.len() ==> !m.holds(s[lead(s, m) as int]),
    decreases s.len(),
{
    if s.len() > 0 && m.holds(s[0]) {
        let t = s.drop_first();
        lemma_lead_is_margin(t, m);
        assert forall|j: int| 0 <= j < lead(s, m) implies m.holds(#[trigger] s[j]) by {
            if j > 0 {
                assert(s[j] == t[j - 1]);
            }
        }
        if lead(s, m) < s.len() {
            assert(s[lead(s, m) as int] == t[lead(t, m) as int]);
        }
    }
}

/// The trailing margin holds margin characters only and starts where `s`
/// starts or behind a character that is none.
pub proof fn lemma_trail_is_margin(s: Seq<char>, m: Margin)
    ensures
        trail(s, m) <= s.len(),
        forall|j: int| s.len() - trail(s, m) <= j < s.len() ==> m.holds(#[trigger] s[j]),
        trail(s, m) < s.len() ==> !m.holds(s[s.len() - trail(s, m) - 1]),
    decreases s.len(),
{
    if s.len() > 0 && m.holds(s.last()) {
        let t = s.drop_last();
        lemma_trail_is_margin(t, m);
        assert forall|j: int| s.len() - trail(s, m) <= j < s.len() implies m.holds(
            #[trigger] s[j],
        ) by {
            if j < s.len() - 1 {
                assert(s[j] == t[j]);
            }
        }
        if trail(s, m) < s.len() {
            assert(s[s.len() - trail(s, m) - 1] == t[t.len() - trail(t, m) - 1]);
        }
    }
}

/// Stripping takes margin characters off both ends, and all of them: `s` is
/// a run of margin characters, then `strip(s, m)`, then a run of margin
/// characters, and `strip(s, m)` neither starts nor ends with one.
pub proof fn lemma_strip(s: Seq<char>, m: Margin)
    ensures
        ({
            let a = lead(s, m) as int;
            let b = a + strip(s, m).len();
            &&& 0 <= a <= b <= s.len()
            &&& strip(s, m) == s.subrange(a, b)
            &&& forall|j: int| 0 <= j < a ==> m.holds(#[trigger] s[j])
            &&& forall|j: int| b <= j < s.len() ==> m.holds(#[trigger] s[j])
            &&& strip(s, m).len() > 0 ==> !m.holds(strip(s, m)[0]) && !m.holds(
                strip(s, m).last(),
            )
        }),
{
    lemma_lead_is_margin(s, m);
    let a = lead(s, m) as int;
    let rest = s.skip(a);
    lemma_trail_is_margin(rest, m);
    let b = a + strip(s, m).len();
    assert(strip(s, m) =~= s.subrange(a, b));
    assert forall|j: int| b <= j < s.len() implies m.holds(#[trigger] s[j]) by {
        assert(s[j] == rest[j - a]);
    }
    if strip(s, m).len() > 0 {
        assert(strip(s, m)[0] == s[a]);
        assert(strip(s, m).last() == rest[rest.len() - trail(rest, m) - 1]);
    }
}

/// The bounds of [`strip`] inside `s`.
pub fn strip_bounds(s: &[char], m: Margin) -> (r: (usize, usize))
    ensures
        r.0 <= r.1 <= s@.len(),
        s@.subrange(r.0 as int, r.1 as int) == strip(s@, m),
{
    let n: usize = s.len();
    let mut lo: usize = 0;
    while lo < n && m.test(s[lo])
        invariant
            n == s@.len(),
            lo <= n,
            forall|j: int| 0 <= j < lo ==> m.holds(#[trigger] s@[j]),
        decreases n - lo,
    {
        lo += 1;
    }
    let mut hi: usize = n;
    while hi > lo && m.test(s[hi - 1])
        invariant
            n == s@.len(),
            lo <= hi <= n,
            forall|j: int| hi <= j < n ==> m.holds(#[trigger] s@[j]),
        decreases hi,
    {
        hi -= 1;
    }
    proof {
        lemma_lead(s@, m, lo as int);
        let rest = s@.skip(lo as int);
        assert forall|j: int| rest.len() - (n - hi) <= j < rest.len() implies m.holds(
            #[trigger] rest[j],
        ) by {
            assert(rest[j] == s@[j + lo]);
        }
        lemma_trail(rest, m, n - hi);
        assert(s@.subrange(lo as int, hi as int) =~= rest.take(rest.len() - (n - hi)));
    }
    (lo, hi)
}

/// Whether the two-character delimiter `"= "` stands at position `i` of `line`.
pub open spec fn delimiter_at(line: Seq<char>, i: int) -> bool {
    0 <= i && i + 1 < line.len() && line[i] == '=' && line[i + 1] == ' '
}

/// The first position at or after `from` where the delimiter stands, or the
/// length of `line` where there is none.
pub open spec fn delimiter_from(line: Seq<char>, from: int) -> int
    decreases line.len() - from,
{
    if from < 0 || from >= line.len() {
        line.len() as int
    } else if delimiter_at(line, from) {
        from
    } else {
        delimiter_from(line, from + 1)
    }
}

/// The position of the first delimiter of `line`, if it has one.
pub open spec fn first_delimiter(line: Seq<char>) -> Option<int> {
    let d = delimiter_from(line, 0);
    if d < line.len() {
        Some(d)
    } else {
        None
    }
}

/// What [`delimiter_from`] finds is a delimiter, and the first one.
pub proof fn lemma_delimiter_from(line: Seq<char>, from: int)
    requires
        0 <= from,
    ensures
        from <= delimiter_from(line, from) || delimiter_from(line, from) == line.len(),
        delimiter_from(line, from) <= line.len(),
        delimiter_from(line, from) < line.len() ==> delimiter_at(
            line,
            delimiter_from(line, from),
        ),
        forall|j: int| from <= j < delimiter_from(line, from) ==> !delimiter_at(line, j),
    decreases line.len() - from,
{
    if from < line.len() && !delimiter_at(line, from) {
        lemma_delimiter_from(line, from + 1);
    }
}

/// The first delimiter is a delimiter with none before it; a line without
/// first delimiter has none at all.
pub proof fn lemma_first_delimiter(line: Seq<char>)
    ensures
        match first_delimiter(line) {
            Some(d) => delimiter_at(line, d) && forall|j: int|
                0 <= j < d ==> !delimiter_at(line, j),
            None => forall|j: int| !delimiter_at(line, j),
        },
{
    lemma_delimiter_from(line, 0);
}

/// Finds the first delimiter of `line`.
pub fn find_delimiter(line: &[char]) -> (r: Option<usize>)
    ensures
        r matches Some(d) ==> first_delimiter(line@) == Some(d as int) && d + 2 <= line@.len(),
        r is None ==> first_delimiter(line@) is None,
{
    let n: usize = line.len();
    let mut i: usize = 0;
    while i < n
        invariant
            n == line@.len(),
            i <= n,
            delimiter_from(line@, 0) == delimiter_from(line@, i as int),
        decreases n - i,
    {
        if line[i] == '=' && i + 1 < n && line[i + 1] == ' ' {
            return Some(i);
        }
        i += 1;
    }
    None
}

/// The position at or after `from` where an inline comment starts: the first
/// `/` that no quoted string encloses, or the length of `v`.  `quoted` says
/// whether position `from` lies inside a quoted string.
pub open spec fn comment_from(v: Seq<char>, from: int, quoted: bool) -> int
    decreases v.len() - from,
{
    if from < 0 || from >= v.len() {
        v.len() as int
    } else if v[from] == '\'' {
        comment_from(v, from + 1, !quoted)
    } else if v[from] == '/' && !quoted {
        from
    } else {
        comment_from(v, from + 1, quoted)
    }
}

/// `v` without its inline comment.
pub open spec fn uncommented(v: Seq<char>) -> Seq<char> {
    v.take(comment_from(v, 0, false))
}

/// How many quotes stand before position `i` of `v`.
pub open spec fn quotes_before(v: Seq<char>, i: int) -> nat
    decreases i,
{
    if i <= 0 {
        0
    } else if v[i - 1] == '\'' {
        quotes_before(v, i - 1) + 1
    } else {
        quotes_before(v, i - 1)
    }
}

/// Whether position `i` of `v` lies inside a quoted string: behind an odd
/// number of quotes.
pub open spec fn is_quoted(v: Seq<char>, i: int) -> bool {
    quotes_before(v, i) % 2 == 1
}

/// From a position whose quoting is known, [`comment_from`] finds the first
/// `/` outside quotes.
pub proof fn lemma_comment_from(v: Seq<char>, from: int, quoted: bool)
    requires
        0 <= from <= v.len(),
        quoted == is_quoted(v, from),
    ensures
        from <= comment_from(v, from, quoted) <= v.len(),
        comment_from(v, from, quoted) < v.len() ==> v[comment_from(v, from, quoted)] == '/'
            && !is_quoted(v, comment_from(v, from, quoted)),
        forall|i: int|
            from <= i < comment_from(v, from, quoted) && #[trigger] v[i] == '/' ==> is_quoted(
                v,
                i,
            ),
    decreases v.len() - from,
{
    if from < v.len() {
        if v[from] == '\'' {
            lemma_comment_from(v, from + 1, !quoted);
        } else if !(v[from] == '/' && !quoted) {
            lemma_comment_from(v, from + 1, quoted);
        }
    }
}

/// A comment starts at the first `/` that stands behind an even number of
/// quotes; a value without such a `/` has no comment.
pub proof fn lemma_uncommented(v: Seq<char>)
    ensures
        ({
            let c = comment_from(v, 0, false);
            &&& 0 <= c <= v.len()
            &&& uncommented(v) == v.take(c)
            &&& c < v.len() ==> v[c] == '/' && !is_quoted(v, c)
            &&& forall|i: int| 0 <= i < c && #[trigger] v[i] == '/' ==> is_quoted(v, i)
        }),
{
    lemma_comment_from(v, 0, false);
}

/// The length of `v` without its inline comment.
pub fn comment_start(v: &[char]) -> (r: usize)
    ensures
        r <= v@.len(),
        v@.take(r as int) == uncommented(v@),
{
    let n: usize = v.len();
    let mut i: usize = 0;
    let mut quoted: bool = false;
    while i < n
        invariant
            n == v@.len(),
            i <= n,
            comment_from(v@, 0, false) == comment_from(v@, i as int, quoted),
        decreases n - i,
    {
        let c: char = v[i];
        if c == '\'' {
            quoted = !quoted;
        } else if c == '/' && !quoted {
            return i;
        }
        i += 1;
    }
    n
}

/// A decimal digit.
pub open spec fn is_digit(c: char) -> bool {
    '0' <= c <= '9'
}

/// Decides [`is_digit`].
pub fn digit(c: char) -> (r: bool)
    ensures
        r == is_digit(c),
{
    '0' <= c && c <= '9'
}

/// The number that a digit stands for.
pub open spec fn digit_value(c: char) -> nat {
    (c as u32 - '0' as u32) as nat
}

/// The digit that stands for `d`, where `d` is below ten.
pub open spec fn digit_char(d: nat) -> char {
    ('0' as u32 + d) as char
}

/// Whether `s` holds digits only.
pub open spec fn all_digits(s: Seq<char>) -> bool {
    forall|i: int| 0 <= i < s.len() ==> is_digit(#[trigger] s[i])
}

/// The number that a sequence of digits writes in base ten.
pub open spec fn decimal_value(s: Seq<char>) -> nat
    decreases s.len(),
{
    if s.len() == 0 {
        0
    } else {
        decimal_value(s.drop_last()) * 10 + digit_value(s.last())
    }
}

/// The unsigned integer that `s` writes: an optional `+`, then at least one
/// digit, the whole no larger than `u64::MAX`.
pub open spec fn unsigned_of(s: Seq<char>) -> Option<u64> {
    let d = if s.len() > 0 && s[0] == '+' {
        s.drop_first()
    } else {
        s
    };
    if d.len() > 0 && all_digits(d) && decimal_value(d) <= u64::MAX {
        Some(decimal_value(d) as u64)
    } else {
        None
    }
}

/// Reading one more digit multiplies by ten and adds the digit.
pub proof fn lemma_decimal_step(s: Seq<char>, i: int)
    requires
        0 <= i < s.len(),
    ensures
        decimal_value(s.take(i + 1)) == decimal_value(s.take(i)) * 10 + digit_value(s[i]),
{
    assert(s.take(i + 1).drop_last() =~= s.take(i));
}

/// A prefix never writes a larger number than the whole.
pub proof fn lemma_decimal_prefix(s: Seq<char>, i: int)
    requires
        0 <= i <= s.len(),
    ensures
        decimal_value(s.take(i)) <= decimal_value(s),
    decreases s.len() - i,
{
    if i < s.len() {
        lemma_decimal_step(s, i);
        lemma_decimal_prefix(s, i + 1);
    } else {
        assert(s.take(i) =~= s);
    }
}

/// Reads an unsigned integer.
pub fn parse_unsigned(s: &[char]) -> (r: Option<u64>)
    ensures
        r == unsigned_of(s@),
{
    let n: usize = s.len();
    let start: usize = if n > 0 && s[0] == '+' {
        1
    } else {
        0
    };
    let d = slice_subrange(s, start, n);
    let m: usize = d.len();
    if m == 0 {
        return None;
    }
    proof {
        if start == 1 {
            assert(d@ =~= s@.drop_first());
        } else {
            assert(d@ =~= s@);
        }
    }
    let mut acc: u64 = 0;
    let mut i: usize = 0;
    while i < m
        invariant
            m == d@.len(),
            m > 0,
            d@ == (if s@.len() > 0 && s@[0] == '+' {
                s@.drop_first()
            } else {
                s@
            }),
            i <= m,
            all_digits(d@.take(i as int)),
            acc == decimal_value(d@.take(i as int)),
        decreases m - i,
    {
        let c: char = d[i];
        if !digit(c) {
            return None;
        }
        assert(all_digits(d@.take(i + 1))) by {
            assert forall|j: int| 0 <= j < i + 1 implies is_digit(#[trigger] d@.take(i + 1)[j]) by {
                if j < i {
                    assert(d@.take(i + 1)[j] == d@.take(i as int)[j]);
                }
            }
        }
        let v: u64 = (c as u32 - '0' as u32) as u64;
        proof {
            lemma_decimal_step(d@, i as int);
            lemma_decimal_prefix(d@, i + 1);
        }
        if acc > (u64::MAX - v) / 10 {
            return None;
        }
        acc = acc * 10 + v;
        i += 1;
    }
    proof {
        assert(d@.take(m as int) =~= d@);
    }
    Some(acc)
}

/// The digits that write `n` in base ten, without leading zeros.
pub open spec fn decimal_text(n: nat) -> Seq<char>
    decreases n,
{
    if n < 10 {
        seq![digit_char(n)]
    } else {
        decimal_text(n / 10).push(digit_char(n % 10))
    }
}

/// What [`decimal_text`] writes is read back as the same number: the digits
/// are digits, there is at least one, and their value is `n`.
pub proof fn lemma_decimal_text(n: nat)
    ensures
        decimal_text(n).len() > 0,
        all_digits(decimal_text(n)),
        decimal_value(decimal_text(n)) == n,
        n <= u64::MAX ==> unsigned_of(decimal_text(n)) == Some(n as u64),
    decreases n,
{
    let t = decimal_text(n);
    if n < 10 {
        assert(t.drop_last() =~= Seq::<char>::empty());
        assert(decimal_value(t.drop_last()) == 0);
    } else {
        lemma_decimal_text(n / 10);
        assert(t.drop_last() =~= decimal_text(n / 10));
        assert forall|i: int| 0 <= i < t.len() implies is_digit(#[trigger] t[i]) by {
            if i < t.len() - 1 {
                assert(t[i] == decimal_text(n / 10)[i]);
            }
        }
    }
}

/// Different numbers are written differently.
pub proof fn lemma_decimal_text_is_injective(a: nat, b: nat)
    requires
        decimal_text(a) == decimal_text(b),
    ensures
        a == b,
{
    lemma_decimal_text(a);
    lemma_decimal_text(b);
}

/// Appends the digits of `n` to `out`.
pub fn push_decimal(out: &mut Vec<char>, n: u64)
    ensures
        final(out)@ == old(out)@ + decimal_text(n as nat),
    decreases n,
{
    if n >= 10 {
        push_decimal(out, n / 10);
    }
    let d: u8 = (n % 10) as u8;
    let c: char = (48u8 + d) as char;
    out.push(c);
}

/// Appends the characters of `lit` to `out`.
pub fn push_str(out: &mut Vec<char>, lit: &str)
    ensures
        final(out)@ == old(out)@ + lit@,
{
    let ghost before = out@;
    for c in it: lit.chars()
        invariant
            it.seq() == lit@,
            out@ == before + it.seq().take(it.index()),
    {
        out.push(c);
    }
}

/// The characters of `s`.
pub fn to_chars(s: &str) -> (v: Vec<char>)
    ensures
        v@ == s@,
{
    let mut v: Vec<char> = Vec::new();
    push_str(&mut v, s);
    v
}

/// Whether two texts hold the same characters.
pub fn same_text(a: &[char], b: &[char]) -> (r: bool)
    ensures
        r == (a@ == b@),
{
    let n: usize = a.len();
    if n != b.len() {
        return false;
    }
    let mut i: usize = 0;
    while i < n
        invariant
            n == a@.len(),
            n == b@.len(),
            i <= n,
            a@.take(i as int) == b@.take(i as int),
        decreases n - i,
    {
        if a[i] != b[i] {
            return false;
        }
        proof {
            assert(a@.take(i + 1) =~= a@.take(i as int).push(a@[i as int]));
            assert(b@.take(i + 1) =~= b@.take(i as int).push(b@[i as int]));
        }
        i += 1;
    }
    proof {
        assert(a@.take(n as int) =~= a@);
        assert(b@.take(n as int) =~= b@);
    }
    true
}

/// Whether `s` reads exactly as `lit`.
pub fn is_text(s: &[char], lit: &str) -> (r: bool)
    ensures
        r == (s@ == lit@),
{
    let l = to_chars(lit);
    same_text(s, l.as_slice())
}

/// Builds the string that holds `chars`, with `String::from_iter`, which
/// collects the characters in their order and nothing else.
#[verifier::external_body]
pub(crate) fn string_of(chars: &[char]) -> (s: String)
    ensures
        s@ == chars@,
{
    String::from_iter(chars)
}

} // verus!
