//! The polynomial distortion of a header, after the SIP convention.
//!
//! For the SIP convention, see
//! "The SIP convention for Representing Distortion in FITS Image Headers" by David L. Shupe et al.
//! in the proceedings of ADASS XIV (2005).
//!
//! A header describes up to four polynomials in two variables: `A` and `B`
//! correct pixel coordinates, `AP` and `BP` undo the correction.  The
//! polynomial of tag `T` has the order that the card `T_ORDER` gives, and
//! for each pair `(i, j)` with `i + j` no larger than the order the
//! coefficient that the card `T_i_j` gives, zero where the card is absent.

use crate::error::{outcome, Error, ErrorView};
use crate::header::{HeaderView, WCSHeader};
use crate::number::{is_float_literal, lemma_default_literals, literals, Number};
use crate::text::{
    decimal_text, is_digit, lemma_decimal_text, lemma_decimal_text_is_injective, push_decimal,
    push_str, to_chars, unsigned_of,
};
use vstd::prelude::*;

verus! {

/// The pairs of row `i` of the triangle of order `n`: `(i, 0)` to
/// `(i, n - i)`.
pub open spec fn sip_row(n: nat, i: nat) -> Seq<(nat, nat)> {
    Seq::new((n - i + 1) as nat, |j: int| (i, j as nat))
}

/// The pairs of the first `rows` rows of the triangle of order `n`.
pub open spec fn sip_rows(n: nat, rows: nat) -> Seq<(nat, nat)>
    decreases rows,
{
    if rows == 0 {
        Seq::empty()
    } else {
        sip_rows(n, (rows - 1) as nat) + sip_row(n, (rows - 1) as nat)
    }
}

/// The pairs `(i, j)` with `i + j <= n`, in the order in which the
/// coefficients of a polynomial of order `n` are kept: by `i`, then by `j`.
pub open spec fn sip_indices(n: nat) -> Seq<(nat, nat)> {
    sip_rows(n, n + 1)
}

/// Where the pair `(i, j)` stands among the pairs of a triangle of order
/// `n`: behind the rows before row `i`, at place `j` of its row.
pub open spec fn sip_position(n: nat, i: nat, j: nat) -> int {
    (sip_rows(n, i).len() + j) as int
}

/// The keyword of the card that gives the order of the polynomial `tag`.
pub open spec fn order_key(tag: Seq<char>) -> Seq<char> {
    tag + "_ORDER"@
}

/// The keyword of the card that gives coefficient `(i, j)` of the
/// polynomial `tag`.
pub open spec fn coeff_key(tag: Seq<char>, i: nat, j: nat) -> Seq<char> {
    tag + "_"@ + decimal_text(i) + "_"@ + decimal_text(j)
}

/// The coefficients of the polynomial `tag` at the pairs `indices`, each
/// zero where the header has no card for it.
pub open spec fn coeffs_at(h: HeaderView, tag: Seq<char>, indices: Seq<(nat, nat)>) -> Seq<
    Seq<char>,
> {
    Seq::new(
        indices.len(),
        |k: int| h.number_or(coeff_key(tag, indices[k].0, indices[k].1), "0.0"@),
    )
}

/// Each coefficient has a card of its own: the keywords of two different
/// pairs differ.
pub proof fn lemma_coeff_keys_differ(tag: Seq<char>, i: nat, j: nat, i2: nat, j2: nat)
    requires
        coeff_key(tag, i, j) == coeff_key(tag, i2, j2),
    ensures
        i == i2,
        j == j2,
{
    reveal_strlit("_");
    let a = decimal_text(i);
    let b = decimal_text(j);
    let a2 = decimal_text(i2);
    let b2 = decimal_text(j2);
    lemma_decimal_text(i);
    lemma_decimal_text(i2);
    let start = tag.len() + 1;
    let rest = coeff_key(tag, i, j).skip(start as int);
    assert(rest =~= a + seq!['_'] + b);
    assert(rest =~= a2 + seq!['_'] + b2);
    assert(!is_digit('_'));
    if a.len() < a2.len() {
        assert(rest[a.len() as int] == '_');
        assert(rest[a.len() as int] == a2[a.len() as int]);
    } else if a2.len() < a.len() {
        assert(rest[a2.len() as int] == '_');
        assert(rest[a2.len() as int] == a[a2.len() as int]);
    }
    assert(a =~= rest.take(a.len() as int));
    assert(a2 =~= rest.take(a.len() as int));
    assert(b =~= rest.skip((a.len() + 1) as int));
    assert(b2 =~= rest.skip((a.len() + 1) as int));
    lemma_decimal_text_is_injective(i, i2);
    lemma_decimal_text_is_injective(j, j2);
}

/// The first `rows` rows hold `rows * (2 n + 3 - rows) / 2` pairs.
pub proof fn lemma_sip_rows_len(n: nat, rows: nat)
    requires
        rows <= n + 1,
    ensures
        2 * sip_rows(n, rows).len() == rows * (2 * n + 3 - rows),
    decreases rows,
{
    if rows > 0 {
        let r = (rows - 1) as nat;
        lemma_sip_rows_len(n, r);
        assert(sip_rows(n, rows).len() == sip_rows(n, r).len() + (n - r + 1));
        assert(r * (2 * n + 3 - r) + 2 * (n - r + 1) == rows * (2 * n + 3 - rows))
            by (nonlinear_arith)
            requires
                rows == r + 1,
        ;
    } else {
        assert(rows * (2 * n + 3 - rows) == 0) by (nonlinear_arith)
            requires
                rows == 0,
        ;
    }
}

/// A polynomial of order `n` has `(n + 1)(n + 2) / 2` coefficients.
pub proof fn lemma_sip_indices_len(n: nat)
    ensures
        sip_indices(n).len() == (n + 1) * (n + 2) / 2,
{
    lemma_sip_rows_len(n, n + 1);
    assert((n + 1) * (2 * n + 3 - (n + 1)) == (n + 1) * (n + 2)) by (nonlinear_arith);
}

/// Rows are kept one after the other: the first `rows` rows start with the
/// first `i` rows, and row `i` follows them.
pub proof fn lemma_sip_rows_prefix(n: nat, i: nat, j: nat, rows: nat)
    requires
        i < rows,
        i + j <= n,
    ensures
        sip_position(n, i, j) < sip_rows(n, rows).len(),
        sip_rows(n, rows)[sip_position(n, i, j)] == (i, j),
    decreases rows,
{
    if rows - 1 > i {
        lemma_sip_rows_prefix(n, i, j, (rows - 1) as nat);
    } else {
        assert(sip_row(n, i)[j as int] == (i, j));
    }
}

/// The pairs that are kept are the pairs `(i, j)` with `i + j <= n`: each
/// pair kept is one, and each such pair is kept, behind the rows before
/// row `i`.
pub proof fn lemma_sip_indices_are_the_triangle(n: nat)
    ensures
        forall|k: int|
            0 <= k < sip_indices(n).len() ==> (#[trigger] sip_indices(n)[k]).0 + sip_indices(
                n,
            )[k].1 <= n,
        forall|i: nat, j: nat|
            i + j <= n ==> 0 <= #[trigger] sip_position(n, i, j) < sip_indices(n).len()
                && sip_indices(n)[sip_position(n, i, j)] == (i, j),
{
    assert forall|k: int| 0 <= k < sip_indices(n).len() implies (#[trigger] sip_indices(n)[k]).0
        + sip_indices(n)[k].1 <= n by {
        lemma_sip_rows_within(n, n + 1, k);
    }
    assert forall|i: nat, j: nat| i + j <= n implies 0 <= #[trigger] sip_position(n, i, j)
        < sip_indices(n).len() && sip_indices(n)[sip_position(n, i, j)] == (i, j) by {
        lemma_sip_rows_prefix(n, i, j, n + 1);
    }
}

/// Each pair of the first `rows` rows lies in the triangle.
pub proof fn lemma_sip_rows_within(n: nat, rows: nat, k: int)
    requires
        rows <= n + 1,
        0 <= k < sip_rows(n, rows).len(),
    ensures
        sip_rows(n, rows)[k].0 + sip_rows(n, rows)[k].1 <= n,
        sip_rows(n, rows)[k].0 < rows,
    decreases rows,
{
    if rows > 0 {
        let before = sip_rows(n, (rows - 1) as nat);
        if k < before.len() {
            lemma_sip_rows_within(n, (rows - 1) as nat, k);
        } else {
            assert(sip_rows(n, rows)[k] == sip_row(n, (rows - 1) as nat)[k - before.len()]);
        }
    }
}

/// The coefficients of a polynomial: its order, and the coefficients in
/// the order of [`sip_indices`].
#[derive(Debug, PartialEq, Eq)]
pub struct SipCoeff {
    /// The order that the header declares.
    pub order: u64,
    /// The coefficients.
    pub coeffs: Vec<Number>,
}

/// The mathematical content of a [`SipCoeff`].
pub struct SipCoeffView {
    pub order: nat,
    pub coeffs: Seq<Seq<char>>,
}

impl View for SipCoeff {
    type V = SipCoeffView;

    open spec fn view(&self) -> SipCoeffView {
        SipCoeffView { order: self.order as nat, coeffs: literals(self.coeffs@) }
    }
}

/// The polynomials of the two axes.
#[derive(Debug, PartialEq, Eq)]
pub struct SipAB {
    /// The polynomial of the first axis.
    pub a: SipCoeff,
    /// The polynomial of the second axis.
    pub b: SipCoeff,
}

/// The mathematical content of a [`SipAB`].
pub struct SipABView {
    pub a: SipCoeffView,
    pub b: SipCoeffView,
}

impl View for SipAB {
    type V = SipABView;

    open spec fn view(&self) -> SipABView {
        SipABView { a: self.a@, b: self.b@ }
    }
}

/// The distortion of an image.
#[derive(Debug, PartialEq, Eq)]
pub struct Sip {
    /// The polynomials `A` and `B`.
    pub ab_proj: SipAB,
    /// The polynomials `AP` and `BP`, where the header gives both.
    pub ab_deproj: Option<SipAB>,
    /// The length of the first axis, positive.
    pub naxis1: u64,
    /// The length of the second axis, positive.
    pub naxis2: u64,
}

/// The mathematical content of a [`Sip`].
pub struct SipView {
    pub ab_proj: SipABView,
    pub ab_deproj: Option<SipABView>,
    pub naxis1: u64,
    pub naxis2: u64,
}

impl View for Sip {
    type V = SipView;

    open spec fn view(&self) -> SipView {
        SipView {
            ab_proj: self.ab_proj@,
            ab_deproj: match self.ab_deproj {
                Some(ab) => Some(ab@),
                None => None,
            },
            naxis1: self.naxis1,
            naxis2: self.naxis2,
        }
    }
}

/// The polynomial `tag` of a header: none where the header declares no
/// order; a failure where the order is no unsigned integer.
pub open spec fn resolved_sip_coeffs(h: HeaderView, tag: Seq<char>) -> Result<
    Option<SipCoeffView>,
    ErrorView,
> {
    match h.number(order_key(tag)) {
        None => Ok(None),
        Some(literal) => match unsigned_of(literal) {
            Some(n) => Ok(
                Some(
                    SipCoeffView {
                        order: n as nat,
                        coeffs: coeffs_at(h, tag, sip_indices(n as nat)),
                    },
                ),
            ),
            None => Err(ErrorView::NumericParseFailure),
        },
    }
}

/// The distortion of a header.
///
/// The polynomials `A` and `B` and the two axis lengths are needed; the
/// inverse polynomials are kept where the header gives both `AP` and `BP`,
/// and dropped where it gives only one.  The first failure met, in the
/// order `A`, `B`, `AP`, `BP`, `NAXIS1`, `NAXIS2`, is the one returned.
pub open spec fn resolved_sip(h: HeaderView) -> Result<SipView, ErrorView> {
    match resolved_sip_coeffs(h, "A"@) {
        Err(e) => Err(e),
        Ok(None) => Err(ErrorView::MandatoryWCSKeywordsMissing("A_ORDER"@)),
        Ok(Some(a)) => match resolved_sip_coeffs(h, "B"@) {
            Err(e) => Err(e),
            Ok(None) => Err(ErrorView::MandatoryWCSKeywordsMissing("B_ORDER"@)),
            Ok(Some(b)) => match resolved_sip_coeffs(h, "AP"@) {
                Err(e) => Err(e),
                Ok(ap) => match resolved_sip_coeffs(h, "BP"@) {
                    Err(e) => Err(e),
                    Ok(bp) => if h.naxisn(1) is None {
                        Err(ErrorView::MandatoryWCSKeywordsMissing("NAXIS1"@))
                    } else if h.naxisn(2) is None {
                        Err(ErrorView::MandatoryWCSKeywordsMissing("NAXIS2"@))
                    } else {
                        Ok(
                            SipView {
                                ab_proj: SipABView { a, b },
                                ab_deproj: if ap is Some && bp is Some {
                                    Some(SipABView { a: ap->Some_0, b: bp->Some_0 })
                                } else {
                                    None
                                },
                                naxis1: h.naxis1,
                                naxis2: h.naxis2,
                            },
                        )
                    },
                },
            },
        },
    }
}

/// The two forward polynomials are needed together: a header that lacks
/// the order of `A` or the order of `B` has no distortion, and the failure
/// names the first order that is missing.
pub proof fn lemma_forward_polynomials_are_mandatory(h: HeaderView)
    requires
        h.number(order_key("A"@)) is None || h.number(order_key("B"@)) is None,
    ensures
        resolved_sip(h) is Err,
        h.number(order_key("A"@)) is None ==> resolved_sip(h)->Err_0
            == ErrorView::MandatoryWCSKeywordsMissing("A_ORDER"@),
        resolved_sip_coeffs(h, "A"@) matches Ok(Some(_)) ==> resolved_sip(h)->Err_0
            == ErrorView::MandatoryWCSKeywordsMissing("B_ORDER"@),
{
}

/// The inverse polynomials come both or not at all: a distortion has them
/// exactly where the header declares the orders of both `AP` and `BP`.
pub proof fn lemma_inverse_polynomials_come_together(h: HeaderView)
    requires
        resolved_sip(h) is Ok,
    ensures
        resolved_sip(h)->Ok_0.ab_deproj is Some <==> (h.number(order_key("AP"@)) is Some
            && h.number(order_key("BP"@)) is Some),
{
}

/// The number of coefficients of a polynomial follows from its order.
pub proof fn lemma_coefficient_count(h: HeaderView, tag: Seq<char>)
    requires
        resolved_sip_coeffs(h, tag) matches Ok(Some(_)),
    ensures
        ({
            let grid = resolved_sip_coeffs(h, tag)->Ok_0->Some_0;
            grid.coeffs.len() == (grid.order + 1) * (grid.order + 2) / 2
        }),
{
    let grid = resolved_sip_coeffs(h, tag)->Ok_0->Some_0;
    lemma_sip_indices_len(grid.order);
}

/// The keyword of the order of the polynomial `tag`.
fn order_key_chars(tag: &str) -> (key: Vec<char>)
    ensures
        key@ == order_key(tag@),
{
    let mut key = to_chars(tag);
    push_str(&mut key, "_ORDER");
    key
}

/// The keyword of coefficient `(i, j)` of the polynomial `tag`.
fn coeff_key_chars(tag: &str, i: u64, j: u64) -> (key: Vec<char>)
    ensures
        key@ == coeff_key(tag@, i as nat, j as nat),
{
    let mut key = to_chars(tag);
    push_str(&mut key, "_");
    push_decimal(&mut key, i);
    push_str(&mut key, "_");
    push_decimal(&mut key, j);
    key
}

/// Appends the coefficients of row `i` of the polynomial `tag` of order `n`.
fn push_row(header: &WCSHeader, tag: &str, n: u64, i: u64, coeffs: &mut Vec<Number>)
    requires
        i <= n,
    ensures
        literals(final(coeffs)@) == literals(old(coeffs)@) + coeffs_at(
            header@,
            tag@,
            sip_row(n as nat, i as nat),
        ),
{
    proof {
        lemma_default_literals();
    }
    let ghost before = literals(coeffs@);
    let ghost row = coeffs_at(header@, tag@, sip_row(n as nat, i as nat));
    let width: u64 = n - i;
    let mut j: u64 = 0;
    assert(literals(coeffs@) =~= before + row.take(0));
    loop
        invariant_except_break
            j <= width,
            literals(coeffs@) == before + row.take(j as int),
        invariant
            width == n - i,
            is_float_literal("0.0"@),
            row == coeffs_at(header@, tag@, sip_row(n as nat, i as nat)),
        ensures
            literals(coeffs@) == before + row,
        decreases width - j,
    {
        let key = coeff_key_chars(tag, i, j);
        let c = header.number_or(key.as_slice(), Number::literal("0.0"));
        let ghost previous = coeffs@;
        coeffs.push(c);
        proof {
            assert(sip_row(n as nat, i as nat)[j as int] == (i as nat, j as nat));
            assert(literals(coeffs@) =~= literals(previous).push(c@));
            assert(row.take(j + 1) =~= row.take(j as int).push(c@));
            assert(literals(coeffs@) =~= before + row.take(j + 1));
        }
        if j == width {
            proof {
                assert(row.take(j + 1) =~= row);
            }
            break;
        }
        j += 1;
    }
}

/// The mathematical content of what reading one polynomial returns.
pub open spec fn grid_outcome(r: Result<Option<SipCoeff>, Error>) -> Result<
    Option<SipCoeffView>,
    ErrorView,
> {
    match r {
        Ok(Some(grid)) => Ok(Some(grid@)),
        Ok(None) => Ok(None),
        Err(e) => Err(e@),
    }
}

/// Reads the polynomial `id` of a header: its order from the card
/// `id_ORDER`, then one coefficient for each pair of [`sip_indices`].
pub fn retrieve_sip_coeffs(header: &WCSHeader, id: &str) -> (r: Result<Option<SipCoeff>, Error>)
    ensures
        grid_outcome(r) == resolved_sip_coeffs(header@, id@),
{
    let kw_order = order_key_chars(id);
    let n: u64 = match header.number(kw_order.as_slice()) {
        None => {
            return Ok(None);
        },
        Some(literal) => match literal.to_unsigned() {
            Some(n) => n,
            None => {
                return Err(Error::NumericParseFailure);
            },
        },
    };
    let mut coeffs: Vec<Number> = Vec::new();
    let mut i: u64 = 0;
    assert(literals(coeffs@) =~= coeffs_at(header@, id@, sip_rows(n as nat, 0)));
    loop
        invariant_except_break
            i <= n,
            literals(coeffs@) == coeffs_at(header@, id@, sip_rows(n as nat, i as nat)),
        ensures
            literals(coeffs@) == coeffs_at(header@, id@, sip_indices(n as nat)),
        decreases n - i,
    {
        push_row(header, id, n, i, &mut coeffs);
        proof {
            let done = sip_rows(n as nat, i as nat);
            let row = sip_row(n as nat, i as nat);
            assert(sip_rows(n as nat, (i + 1) as nat) == done + row);
            assert(coeffs_at(header@, id@, done + row) =~= coeffs_at(header@, id@, done)
                + coeffs_at(header@, id@, row));
        }
        if i == n {
            break;
        }
        i += 1;
    }
    Ok(Some(SipCoeff { order: n, coeffs }))
}

/// Resolves the distortion of a header.
pub fn parse_sip(header: &WCSHeader) -> (r: Result<Sip, Error>)
    ensures
        outcome(r) == resolved_sip(header@),
{
    // proj SIP coefficients
    let a_coeffs = match retrieve_sip_coeffs(header, "A") {
        Err(e) => {
            return Err(e);
        },
        Ok(None) => {
            return Err(Error::MandatoryWCSKeywordsMissing("A_ORDER"));
        },
        Ok(Some(a)) => a,
    };
    let b_coeffs = match retrieve_sip_coeffs(header, "B") {
        Err(e) => {
            return Err(e);
        },
        Ok(None) => {
            return Err(Error::MandatoryWCSKeywordsMissing("B_ORDER"));
        },
        Ok(Some(b)) => b,
    };
    let ap_coeffs = match retrieve_sip_coeffs(header, "AP") {
        Err(e) => {
            return Err(e);
        },
        Ok(ap) => ap,
    };
    let bp_coeffs = match retrieve_sip_coeffs(header, "BP") {
        Err(e) => {
            return Err(e);
        },
        Ok(bp) => bp,
    };
    let ab_proj = SipAB { a: a_coeffs, b: b_coeffs };
    let ab_deproj = match (ap_coeffs, bp_coeffs) {
        (Some(ap_coeffs), Some(bp_coeffs)) => Some(SipAB { a: ap_coeffs, b: bp_coeffs }),
        _ => None,
    };
    let naxis1 = match header.get_naxisn(1) {
        Some(n) => n,
        None => {
            return Err(Error::MandatoryWCSKeywordsMissing("NAXIS1"));
        },
    };
    let naxis2 = match header.get_naxisn(2) {
        Some(n) => n,
        None => {
            return Err(Error::MandatoryWCSKeywordsMissing("NAXIS2"));
        },
    };
    Ok(Sip { ab_proj, ab_deproj, naxis1, naxis2 })
}

} // verus!
