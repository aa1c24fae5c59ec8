//! Numeric literals.
//!
//! A numeric card is kept as the literal that the header wrote.  The grammar
//! is the one that Rust reads a double-precision number from:
//!
//! ```text
//! Literal ::= Sign? ( 'inf' | 'infinity' | 'nan' | Number )
//! Number  ::= ( Digit+ | Digit+ '.' Digit* | Digit* '.' Digit+ ) Exp?
//! Exp     ::= 'e' Sign? Digit+
//! ```
//!
//! with letters in either case.  Whoever needs the value converts the text;
//! the conversion cannot fail on a [`Number`].

use crate::text::{
    all_digits, digit, is_digit, parse_unsigned, string_of, to_chars, unsigned_of,
};
use vstd::prelude::*;
use vstd::slice::{slice_subrange, slice_to_vec};

verus! {

/// A plus or a minus.
pub open spec fn is_sign(c: char) -> bool {
    c == '+' || c == '-'
}

/// `s` without the sign that it may start with.
pub open spec fn unsigned_part(s: Seq<char>) -> Seq<char> {
    if s.len() > 0 && is_sign(s[0]) {
        s.drop_first()
    } else {
        s
    }
}

/// The position just behind the run of digits that starts at `from`.
pub open spec fn digits_end(s: Seq<char>, from: int) -> int
    decreases s.len() - from,
{
    if 0 <= from < s.len() && is_digit(s[from]) {
        digits_end(s, from + 1)
    } else {
        from
    }
}

/// The lower-case form of an ASCII letter; any other character unchanged.
pub open spec fn lower(c: char) -> char {
    if 'A' <= c <= 'Z' {
        (c as u32 + 32) as char
    } else {
        c
    }
}

/// Whether `s` reads as `word` when the case of ASCII letters is ignored.
pub open spec fn same_ignoring_case(s: Seq<char>, word: Seq<char>) -> bool {
    &&& s.len() == word.len()
    &&& forall|i: int| 0 <= i < s.len() ==> lower(#[trigger] s[i]) == lower(word[i])
}

/// One of the three named values.
pub open spec fn is_named_value(b: Seq<char>) -> bool {
    ||| same_ignoring_case(b, "inf"@)
    ||| same_ignoring_case(b, "infinity"@)
    ||| same_ignoring_case(b, "nan"@)
}

/// An exponent: the letter `e`, an optional sign, at least one digit.
pub open spec fn is_exponent(e: Seq<char>) -> bool {
    &&& e.len() > 0
    &&& (e[0] == 'e' || e[0] == 'E')
    &&& unsigned_part(e.drop_first()).len() > 0
    &&& all_digits(unsigned_part(e.drop_first()))
}

/// A decimal number: digits with at most one point among them, at least one
/// digit in all, then an optional exponent.
pub open spec fn is_decimal(b: Seq<char>) -> bool {
    let i = digits_end(b, 0);
    let pointed = i < b.len() && b[i] == '.';
    let j = if pointed {
        digits_end(b, i + 1)
    } else {
        i
    };
    let digits = if pointed {
        j - 1
    } else {
        j
    };
    digits > 0 && (j == b.len() || is_exponent(b.skip(j)))
}

/// Whether `s` is a numeric literal.
pub open spec fn is_float_literal(s: Seq<char>) -> bool {
    is_named_value(unsigned_part(s)) || is_decimal(unsigned_part(s))
}

/// The run of digits that [`digits_end`] measures holds digits only, stays
/// inside `s`, and stops at a character that is no digit.
pub proof fn lemma_digits_end(s: Seq<char>, from: int)
    requires
        0 <= from <= s.len(),
    ensures
        from <= digits_end(s, from) <= s.len(),
        forall|j: int| from <= j < digits_end(s, from) ==> is_digit(#[trigger] s[j]),
        digits_end(s, from) < s.len() ==> !is_digit(s[digits_end(s, from)]),
    decreases s.len() - from,
{
    if from < s.len() && is_digit(s[from]) {
        lemma_digits_end(s, from + 1);
    }
}

/// A run of digits that stops at a character that is no digit, or at the end
/// of `s`, is the run that [`digits_end`] measures.
pub proof fn lemma_digits_end_is(s: Seq<char>, from: int, k: int)
    requires
        0 <= from <= k <= s.len(),
        forall|x: int| from <= x < k ==> is_digit(#[trigger] s[x]),
        k == s.len() || !is_digit(s[k]),
    ensures
        digits_end(s, from) == k,
    decreases k - from,
{
    if from < k {
        lemma_digits_end_is(s, from + 1, k);
    }
}

/// Whether `b` is a decimal number whose integer part ends at `i` and whose
/// mantissa ends at `j`: digits up to `i`; where `j` lies behind `i`, a
/// point at `i` and digits up to `j`; at least one digit in all; and from
/// `j` on nothing, or an exponent.
pub open spec fn is_decimal_split(b: Seq<char>, i: int, j: int) -> bool {
    &&& 0 <= i <= j <= b.len()
    &&& all_digits(b.subrange(0, i))
    &&& j > i ==> b[i] == '.' && all_digits(b.subrange(i + 1, j))
    &&& (if j > i {
        j - 1
    } else {
        j
    }) > 0
    &&& (j == b.len() || is_exponent(b.skip(j)))
}

/// The decimal numbers are the texts of the grammar: an integer part, an
/// optional point with a fraction behind it, at least one digit in the two,
/// and an optional exponent.
pub proof fn lemma_decimal_grammar(b: Seq<char>)
    ensures
        is_decimal(b) <==> exists|i: int, j: int| is_decimal_split(b, i, j),
{
    lemma_digits_end(b, 0);
    let i = digits_end(b, 0);
    let pointed = i < b.len() && b[i] == '.';
    if pointed {
        lemma_digits_end(b, i + 1);
    }
    let j = if pointed {
        digits_end(b, i + 1)
    } else {
        i
    };
    if is_decimal(b) {
        assert(all_digits(b.subrange(0, i))) by {
            assert forall|x: int| 0 <= x < i implies is_digit(#[trigger] b.subrange(0, i)[x]) by {
                assert(b.subrange(0, i)[x] == b[x]);
            }
        }
        if pointed {
            assert(all_digits(b.subrange(i + 1, j))) by {
                assert forall|x: int| 0 <= x < j - (i + 1) implies is_digit(
                    #[trigger] b.subrange(i + 1, j)[x],
                ) by {
                    assert(b.subrange(i + 1, j)[x] == b[x + i + 1]);
                }
            }
        }
        assert(is_decimal_split(b, i, j));
    }
    if exists|i2: int, j2: int| is_decimal_split(b, i2, j2) {
        let (i2, j2) = choose|i2: int, j2: int| is_decimal_split(b, i2, j2);
        assert(j2 < b.len() ==> b[j2] == 'e' || b[j2] == 'E') by {
            if j2 < b.len() {
                assert(b.skip(j2)[0] == b[j2]);
            }
        }
        assert forall|x: int| 0 <= x < i2 implies is_digit(#[trigger] b[x]) by {
            assert(b.subrange(0, i2)[x] == b[x]);
        }
        lemma_digits_end_is(b, 0, i2);
        if j2 > i2 {
            assert forall|x: int| i2 + 1 <= x < j2 implies is_digit(#[trigger] b[x]) by {
                assert(b.subrange(i2 + 1, j2)[x - (i2 + 1)] == b[x]);
            }
            lemma_digits_end_is(b, i2 + 1, j2);
        }
        assert(is_decimal(b));
    }
}

/// The position just behind the run of digits that starts at `from`.
fn skip_digits(s: &[char], from: usize) -> (r: usize)
    requires
        from <= s@.len(),
    ensures
        r == digits_end(s@, from as int),
        from <= r <= s@.len(),
{
    let n: usize = s.len();
    let mut i: usize = from;
    while i < n && digit(s[i])
        invariant
            n == s@.len(),
            from <= i <= n,
            digits_end(s@, from as int) == digits_end(s@, i as int),
        decreases n - i,
    {
        i += 1;
    }
    i
}

/// Decides [`lower`].
pub fn to_lower(c: char) -> (r: char)
    ensures
        r == lower(c),
{
    if 'A' <= c && c <= 'Z' {
        let u: u8 = c as u8;
        (u + 32) as char
    } else {
        c
    }
}

/// Decides [`same_ignoring_case`].
pub fn matches_ignoring_case(s: &[char], word: &str) -> (r: bool)
    ensures
        r == same_ignoring_case(s@, word@),
{
    let w = to_chars(word);
    let n: usize = s.len();
    if n != w.len() {
        return false;
    }
    let mut i: usize = 0;
    while i < n
        invariant
            n == s@.len(),
            n == w@.len(),
            w@ == word@,
            i <= n,
            forall|j: int| 0 <= j < i ==> lower(#[trigger] s@[j]) == lower(w@[j]),
        decreases n - i,
    {
        if to_lower(s[i]) != to_lower(w[i]) {
            return false;
        }
        i += 1;
    }
    true
}

/// Decides [`is_exponent`].
pub fn exponent(e: &[char]) -> (r: bool)
    ensures
        r == is_exponent(e@),
{
    let n: usize = e.len();
    if n == 0 || !(e[0] == 'e' || e[0] == 'E') {
        return false;
    }
    let start: usize = if n > 1 && (e[1] == '+' || e[1] == '-') {
        2
    } else {
        1
    };
    let end: usize = skip_digits(e, start);
    proof {
        lemma_digits_end(e@, start as int);
        let d = unsigned_part(e@.drop_first());
        assert(d =~= e@.skip(start as int));
        if end == n {
            assert forall|j: int| 0 <= j < d.len() implies is_digit(#[trigger] d[j]) by {
                assert(d[j] == e@[j + start]);
            }
        } else {
            assert(d[end - start] == e@[end as int]);
        }
    }
    start < n && end == n
}

/// Decides [`is_decimal`].
pub fn decimal(b: &[char]) -> (r: bool)
    ensures
        r == is_decimal(b@),
{
    let n: usize = b.len();
    let i: usize = skip_digits(b, 0);
    let pointed: bool = i < n && b[i] == '.';
    let j: usize = if pointed {
        skip_digits(b, i + 1)
    } else {
        i
    };
    let digits: usize = if pointed {
        j - 1
    } else {
        j
    };
    if digits == 0 {
        return false;
    }
    if j == n {
        return true;
    }
    exponent(slice_subrange(b, j, n))
}

/// Decides [`is_float_literal`].
pub fn float_literal(s: &[char]) -> (r: bool)
    ensures
        r == is_float_literal(s@),
{
    let n: usize = s.len();
    let start: usize = if n > 0 && (s[0] == '+' || s[0] == '-') {
        1
    } else {
        0
    };
    let b = slice_subrange(s, start, n);
    assert(b@ =~= unsigned_part(s@));
    matches_ignoring_case(b, "inf") || matches_ignoring_case(b, "infinity")
        || matches_ignoring_case(b, "nan") || decimal(b)
}


/// The literal of the opposite sign: a leading `-` is taken off, a leading
/// `+` becomes `-`, and a literal without a sign gets a `-` in front.
pub open spec fn negated_literal(s: Seq<char>) -> Seq<char> {
    if s.len() > 0 && s[0] == '-' {
        s.drop_first()
    } else if s.len() > 0 && s[0] == '+' {
        seq!['-'] + s.drop_first()
    } else {
        seq!['-'] + s
    }
}

/// A literal without its sign does not start with a sign.
pub proof fn lemma_unsigned_part_has_no_sign(s: Seq<char>)
    requires
        is_float_literal(s),
    ensures
        unsigned_part(s).len() > 0,
        !is_sign(unsigned_part(s)[0]),
{
    let b = unsigned_part(s);
    reveal_strlit("inf");
    reveal_strlit("infinity");
    reveal_strlit("nan");
    if is_decimal(b) {
        lemma_digits_end(b, 0);
    } else {
        assert(lower(b[0]) == 'i' || lower(b[0]) == 'n');
    }
}

/// Changing the sign of a literal gives a literal.
pub proof fn lemma_negated_literal(s: Seq<char>)
    requires
        is_float_literal(s),
    ensures
        is_float_literal(negated_literal(s)),
        unsigned_part(negated_literal(s)) == unsigned_part(s),
{
    lemma_unsigned_part_has_no_sign(s);
    let b = unsigned_part(s);
    let t = negated_literal(s);
    if s[0] == '-' {
        assert(t == b);
    } else {
        assert(t.drop_first() =~= b);
    }
}

/// The literals that stand for absent parameters.
pub proof fn lemma_default_literals()
    ensures
        is_float_literal("0.0"@),
        is_float_literal("1.0"@),
        is_float_literal("90.0"@),
{
    reveal_strlit("0.0");
    reveal_strlit("1.0");
    reveal_strlit("90.0");
    reveal_with_fuel(digits_end, 4);
    assert(is_decimal("0.0"@));
    assert(is_decimal("1.0"@));
    assert(is_decimal("90.0"@));
}

/// A numeric literal, as a header card wrote it.
#[derive(Debug, PartialEq, Eq)]
pub struct Number {
    text: Vec<char>,
}

impl View for Number {
    type V = Seq<char>;

    closed spec fn view(&self) -> Seq<char> {
        self.text@
    }
}

impl Clone for Number {
    fn clone(&self) -> (r: Self)
        ensures
            r@ == self@,
    {
        proof {
            use_type_invariant(self);
        }
        Number { text: slice_to_vec(self.text.as_slice()) }
    }
}

impl Number {
    #[verifier::type_invariant]
    spec fn well_formed(&self) -> bool {
        is_float_literal(self.text@)
    }

    /// The number that `text` writes, if it is a literal.
    pub fn new(text: &str) -> (r: Option<Number>)
        ensures
            match r {
                Some(n) => n@ == text@ && is_float_literal(text@),
                None => !is_float_literal(text@),
            },
    {
        let chars = to_chars(text);
        Number::from_chars(chars.as_slice())
    }

    /// The number that `text` writes, if it is a literal.
    pub fn from_chars(text: &[char]) -> (r: Option<Number>)
        ensures
            match r {
                Some(n) => n@ == text@ && is_float_literal(text@),
                None => !is_float_literal(text@),
            },
    {
        if float_literal(text) {
            Some(Number { text: slice_to_vec(text) })
        } else {
            None
        }
    }

    /// The number that a literal known to be one writes.
    pub(crate) fn literal(text: &str) -> (r: Number)
        requires
            is_float_literal(text@),
        ensures
            r@ == text@,
    {
        Number { text: to_chars(text) }
    }

    /// The literal.
    pub fn text(&self) -> (r: String)
        ensures
            r@ == self@,
            is_float_literal(self@),
    {
        proof {
            use_type_invariant(self);
        }
        string_of(self.text.as_slice())
    }

    /// The characters of the literal.
    pub fn chars(&self) -> (r: &[char])
        ensures
            r@ == self@,
            is_float_literal(self@),
    {
        proof {
            use_type_invariant(self);
        }
        self.text.as_slice()
    }

    /// The number of the opposite sign.
    pub fn negated(&self) -> (r: Number)
        ensures
            r@ == negated_literal(self@),
    {
        proof {
            use_type_invariant(self);
            lemma_negated_literal(self.text@);
        }
        let n: usize = self.text.len();
        let mut out: Vec<char> = Vec::new();
        let mut from: usize = 0;
        if n > 0 && self.text[0] == '-' {
            from = 1;
        } else if n > 0 && self.text[0] == '+' {
            from = 1;
            out.push('-');
        } else {
            out.push('-');
        }
        let ghost head = out@;
        let mut i: usize = from;
        while i < n
            invariant
                n == self.text@.len(),
                from <= i <= n,
                out@ == head + self.text@.subrange(from as int, i as int),
            decreases n - i,
        {
            out.push(self.text[i]);
            i += 1;
        }
        assert(out@ =~= negated_literal(self.text@));
        Number { text: out }
    }

    /// The unsigned integer that the literal writes, if it writes one.
    pub fn to_unsigned(&self) -> (r: Option<u64>)
        ensures
            r == unsigned_of(self@),
    {
        parse_unsigned(self.text.as_slice())
    }
}


/// An angle, in degrees.
#[derive(Debug, PartialEq, Eq)]
pub struct Degrees {
    /// The number of degrees.
    pub value: Number,
}

impl View for Degrees {
    type V = Seq<char>;

    open spec fn view(&self) -> Seq<char> {
        self.value@
    }
}

/// The literals of a list of numbers.
pub open spec fn literals(numbers: Seq<Number>) -> Seq<Seq<char>> {
    Seq::new(numbers.len(), |i: int| numbers[i]@)
}

} // verus!
