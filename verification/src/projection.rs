//! The sky projection of a header.
//!
//! A projection is chosen by its three-letter code and described by the
//! parameters that the numbered cards `PV_0` to `PV_20` give.  Zenithal,
//! cylindrical, pseudo-cylindrical and conic projections are supported;
//! Bonne, polyconic and cubic projections are not.
//!
//! Parameters are kept as the header wrote them, angles in degrees; an
//! absent parameter stands as the literal of its default.

use crate::error::{outcome, Error, ErrorView};
use crate::header::{HeaderView, WCSHeader};
use crate::number::{
    is_float_literal, lemma_default_literals, literals, negated_literal, Degrees, Number,
};
use crate::text::{
    decimal_text, is_text, lemma_decimal_text_is_injective, push_decimal, push_str, string_of,
    to_chars,
};
use mapproj::conic::cod::Cod;
use mapproj::conic::coe::Coe;
use mapproj::conic::coo::Coo;
use mapproj::conic::cop::Cop;
use mapproj::zenithal::zpn::Zpn;
use mapproj::CanonicalProjection;
use vstd::prelude::*;

verus! {

/// The number of `PV` cards that a zenithal polynomial may take: `PV_0` to
/// `PV_20`.
pub const ZPN_MAX_COEFFS: u64 = 21;

/// A projection centred on the vernal point, with its parameters.
#[derive(Debug, PartialEq, Eq)]
pub enum WCSCanonicalProjection {
    /// Zenithal perspective, seen from the distance `mu` (in spherical
    /// radii) and tilted by `gamma`.
    Azp { mu: Number, gamma: Degrees },
    /// Slant zenithal perspective, seen from the distance `mu` (in spherical
    /// radii) in the direction `(phi_c, theta_c)`.
    Szp { mu: Number, phi_c: Degrees, theta_c: Degrees },
    /// Gnomonic.
    Tan,
    /// Stereographic.
    Stg,
    /// Orthographic.
    Sin,
    /// Slant orthographic.  `xi` is the opposite of the first parameter card,
    /// `eta` the second; both are plain ratios.
    SinSlant { xi: Number, eta: Number },
    /// Zenithal equidistant.
    Arc,
    /// Zenithal polynomial: the coefficients from the constant one upwards.
    Zpn { coeffs: Vec<Number> },
    /// Zenithal equal area.
    Zea,
    /// Airy, with the latitude `theta_b` at which the error is least.
    Air { theta_b: Degrees },
    /// North celestial pole orthographic.
    Ncp,
    /// Cylindrical perspective: `mu` and `lambda` in spherical radii.
    Cyp { mu: Number, lambda: Number },
    /// Cylindrical equal area: `lambda` in spherical radii.
    Cea { lambda: Number },
    /// Plate carree.
    Car,
    /// Mercator.
    Mer,
    /// Sanson-Flamsteed.
    Sfl,
    /// Parabolic.
    Par,
    /// Mollweide.
    Mol,
    /// Hammer-Aitoff.
    Ait,
    /// Conic perspective.
    Cop { theta_a: Degrees, eta: Degrees },
    /// Conic equal area.
    Coe { theta_a: Degrees, eta: Degrees },
    /// Conic equidistant.
    Cod { theta_a: Degrees, eta: Degrees },
    /// Conic orthomorphic.
    Coo { theta_a: Degrees, eta: Degrees },
}

/// The mathematical content of a [`WCSCanonicalProjection`].
pub enum ProjectionView {
    Azp { mu: Seq<char>, gamma: Seq<char> },
    Szp { mu: Seq<char>, phi_c: Seq<char>, theta_c: Seq<char> },
    Tan,
    Stg,
    Sin,
    SinSlant { xi: Seq<char>, eta: Seq<char> },
    Arc,
    Zpn { coeffs: Seq<Seq<char>> },
    Zea,
    Air { theta_b: Seq<char> },
    Ncp,
    Cyp { mu: Seq<char>, lambda: Seq<char> },
    Cea { lambda: Seq<char> },
    Car,
    Mer,
    Sfl,
    Par,
    Mol,
    Ait,
    Cop { theta_a: Seq<char>, eta: Seq<char> },
    Coe { theta_a: Seq<char>, eta: Seq<char> },
    Cod { theta_a: Seq<char>, eta: Seq<char> },
    Coo { theta_a: Seq<char>, eta: Seq<char> },
}

impl View for WCSCanonicalProjection {
    type V = ProjectionView;

    open spec fn view(&self) -> ProjectionView {
        match self {
            WCSCanonicalProjection::Azp { mu, gamma } => ProjectionView::Azp {
                mu: mu@,
                gamma: gamma@,
            },
            WCSCanonicalProjection::Szp { mu, phi_c, theta_c } => ProjectionView::Szp {
                mu: mu@,
                phi_c: phi_c@,
                theta_c: theta_c@,
            },
            WCSCanonicalProjection::Tan => ProjectionView::Tan,
            WCSCanonicalProjection::Stg => ProjectionView::Stg,
            WCSCanonicalProjection::Sin => ProjectionView::Sin,
            WCSCanonicalProjection::SinSlant { xi, eta } => ProjectionView::SinSlant {
                xi: xi@,
                eta: eta@,
            },
            WCSCanonicalProjection::Arc => ProjectionView::Arc,
            WCSCanonicalProjection::Zpn { coeffs } => ProjectionView::Zpn {
                coeffs: literals(coeffs@),
            },
            WCSCanonicalProjection::Zea => ProjectionView::Zea,
            WCSCanonicalProjection::Air { theta_b } => ProjectionView::Air { theta_b: theta_b@ },
            WCSCanonicalProjection::Ncp => ProjectionView::Ncp,
            WCSCanonicalProjection::Cyp { mu, lambda } => ProjectionView::Cyp {
                mu: mu@,
                lambda: lambda@,
            },
            WCSCanonicalProjection::Cea { lambda } => ProjectionView::Cea { lambda: lambda@ },
            WCSCanonicalProjection::Car => ProjectionView::Car,
            WCSCanonicalProjection::Mer => ProjectionView::Mer,
            WCSCanonicalProjection::Sfl => ProjectionView::Sfl,
            WCSCanonicalProjection::Par => ProjectionView::Par,
            WCSCanonicalProjection::Mol => ProjectionView::Mol,
            WCSCanonicalProjection::Ait => ProjectionView::Ait,
            WCSCanonicalProjection::Cop { theta_a, eta } => ProjectionView::Cop {
                theta_a: theta_a@,
                eta: eta@,
            },
            WCSCanonicalProjection::Coe { theta_a, eta } => ProjectionView::Coe {
                theta_a: theta_a@,
                eta: eta@,
            },
            WCSCanonicalProjection::Cod { theta_a, eta } => ProjectionView::Cod {
                theta_a: theta_a@,
                eta: eta@,
            },
            WCSCanonicalProjection::Coo { theta_a, eta } => ProjectionView::Coo {
                theta_a: theta_a@,
                eta: eta@,
            },
        }
    }
}

/// The keyword of parameter card `i`.
pub open spec fn pv_key(i: nat) -> Seq<char> {
    "PV_"@ + decimal_text(i)
}

/// Each parameter has a card of its own: the keywords of two different
/// parameters differ.
pub proof fn lemma_pv_keys_differ(i: nat, i2: nat)
    requires
        pv_key(i) == pv_key(i2),
    ensures
        i == i2,
{
    let start = "PV_"@.len() as int;
    assert(pv_key(i).skip(start) =~= decimal_text(i));
    assert(pv_key(i2).skip(start) =~= decimal_text(i2));
    lemma_decimal_text_is_injective(i, i2);
}

/// Parameter `i` of a header, or `default` where the header has no card for
/// it.
pub open spec fn pv_or(h: HeaderView, i: nat, default: Seq<char>) -> Seq<char> {
    h.number_or(pv_key(i), default)
}

/// The keyword of parameter card `i`.
fn pv_key_chars(i: u64) -> (key: Vec<char>)
    ensures
        key@ == pv_key(i as nat),
{
    let mut key: Vec<char> = Vec::new();
    push_str(&mut key, "PV_");
    push_decimal(&mut key, i);
    key
}

/// Reads parameter `i`, or `default` where the header has no card for it.
fn parse_pv(header: &WCSHeader, i: u64, default: &str) -> (r: Number)
    requires
        is_float_literal(default@),
    ensures
        r@ == pv_or(header@, i as nat, default@),
{
    header.number_or(pv_key_chars(i).as_slice(), Number::literal(default))
}


/// The zenithal perspective projection of a header: `mu` from `PV_1`,
/// `gamma` from `PV_2`, each zero where absent.
pub open spec fn resolved_azp(h: HeaderView) -> ProjectionView {
    ProjectionView::Azp { mu: pv_or(h, 1, "0.0"@), gamma: pv_or(h, 2, "0.0"@) }
}

/// The slant zenithal perspective projection of a header: `mu` from `PV_1`
/// and `phi_c` from `PV_2`, each zero where absent; `theta_c` from `PV_3`,
/// ninety degrees where absent.
pub open spec fn resolved_szp(h: HeaderView) -> ProjectionView {
    ProjectionView::Szp {
        mu: pv_or(h, 1, "0.0"@),
        phi_c: pv_or(h, 2, "0.0"@),
        theta_c: pv_or(h, 3, "90.0"@),
    }
}

/// The slant orthographic projection of a header: `xi` the opposite of
/// `PV_1`, `eta` from `PV_2`, the cards each zero where absent.
pub open spec fn resolved_sin_slant(h: HeaderView) -> ProjectionView {
    ProjectionView::SinSlant {
        xi: negated_literal(pv_or(h, 1, "0.0"@)),
        eta: pv_or(h, 2, "0.0"@),
    }
}

/// How many coefficients a zenithal polynomial has when only the cards
/// below `n` count: one more than the highest card present, none where no
/// card is present.
pub open spec fn zpn_len(h: HeaderView, n: nat) -> nat
    decreases n,
{
    if n == 0 {
        0
    } else if h.number(pv_key((n - 1) as nat)) is Some {
        n
    } else {
        zpn_len(h, (n - 1) as nat)
    }
}

/// The zenithal polynomial projection of a header: the cards `PV_0` up to
/// the highest one present, an absent card among them standing for zero.
pub open spec fn resolved_zpn(h: HeaderView) -> ProjectionView {
    ProjectionView::Zpn {
        coeffs: Seq::new(
            zpn_len(h, ZPN_MAX_COEFFS as nat),
            |i: int| pv_or(h, i as nat, "0.0"@),
        ),
    }
}

/// The Airy projection of a header: `theta_b` from `PV_1`, ninety degrees
/// where absent.
pub open spec fn resolved_air(h: HeaderView) -> ProjectionView {
    ProjectionView::Air { theta_b: pv_or(h, 1, "90.0"@) }
}

/// The cylindrical perspective projection of a header: `mu` from `PV_1`,
/// `lambda` from `PV_2`, each one where absent.
pub open spec fn resolved_cyp(h: HeaderView) -> ProjectionView {
    ProjectionView::Cyp { mu: pv_or(h, 1, "1.0"@), lambda: pv_or(h, 2, "1.0"@) }
}

/// The cylindrical equal area projection of a header: `lambda` from `PV_1`,
/// one where absent.
pub open spec fn resolved_cea(h: HeaderView) -> ProjectionView {
    ProjectionView::Cea { lambda: pv_or(h, 1, "1.0"@) }
}

/// Why a conic projection without first angle fails.
pub open spec fn no_theta_a() -> Seq<char> {
    "PV_1 = theta_a must be defined as it has no default value"@
}

/// The two angles of a conic projection: `theta_a` from `PV_1`, which has
/// no default, so that its absence is a failure that cites the projection's
/// `name`; `eta` from `PV_2`, zero where absent.
pub open spec fn conic_angles(h: HeaderView, name: Seq<char>) -> Result<
    (Seq<char>, Seq<char>),
    ErrorView,
> {
    match h.number(pv_key(1)) {
        Some(theta_a) => Ok((theta_a, pv_or(h, 2, "0.0"@))),
        None => Err(ErrorView::InitProjection(name, no_theta_a())),
    }
}

/// The full name that `mapproj` gives the conic perspective projection.
pub open spec fn cop_name() -> Seq<char> {
    "Conic perspective"@
}

/// The full name that `mapproj` gives the conic equal area projection.
pub open spec fn coe_name() -> Seq<char> {
    "Conic Equal Area"@
}

/// The full name that `mapproj` gives the conic equidistant projection.
pub open spec fn cod_name() -> Seq<char> {
    "Conic Equidistant"@
}

/// The full name that `mapproj` gives the conic orthomorphic projection.
pub open spec fn coo_name() -> Seq<char> {
    "Conic Orthomorphic"@
}

/// The full name that `mapproj` gives the zenithal polynomial projection,
/// spelt as it is there.
pub open spec fn zpn_name() -> Seq<char> {
    "Zenithal polynomlial"@
}

/// The conic perspective projection of a header.
pub open spec fn resolved_cop(h: HeaderView) -> Result<ProjectionView, ErrorView> {
    match conic_angles(h, cop_name()) {
        Ok((theta_a, eta)) => Ok(ProjectionView::Cop { theta_a, eta }),
        Err(e) => Err(e),
    }
}

/// The conic equal area projection of a header.
pub open spec fn resolved_coe(h: HeaderView) -> Result<ProjectionView, ErrorView> {
    match conic_angles(h, coe_name()) {
        Ok((theta_a, eta)) => Ok(ProjectionView::Coe { theta_a, eta }),
        Err(e) => Err(e),
    }
}

/// The conic equidistant projection of a header.
pub open spec fn resolved_cod(h: HeaderView) -> Result<ProjectionView, ErrorView> {
    match conic_angles(h, cod_name()) {
        Ok((theta_a, eta)) => Ok(ProjectionView::Cod { theta_a, eta }),
        Err(e) => Err(e),
    }
}

/// The conic orthomorphic projection of a header.
pub open spec fn resolved_coo(h: HeaderView) -> Result<ProjectionView, ErrorView> {
    match conic_angles(h, coo_name()) {
        Ok((theta_a, eta)) => Ok(ProjectionView::Coo { theta_a, eta }),
        Err(e) => Err(e),
    }
}

/// The name of the conic perspective projection: the constant `NAME` that
/// `mapproj` gives `Cop`.
#[verifier::external_body]
fn name_of_cop() -> (name: &'static str)
    ensures
        name@ == cop_name(),
{
    Cop::NAME
}

/// The name of the conic equal area projection: the constant `NAME` that
/// `mapproj` gives `Coe`.
#[verifier::external_body]
fn name_of_coe() -> (name: &'static str)
    ensures
        name@ == coe_name(),
{
    Coe::NAME
}

/// The name of the conic equidistant projection: the constant `NAME` that
/// `mapproj` gives `Cod`.
#[verifier::external_body]
fn name_of_cod() -> (name: &'static str)
    ensures
        name@ == cod_name(),
{
    Cod::NAME
}

/// The name of the conic orthomorphic projection: the constant `NAME` that
/// `mapproj` gives `Coo`.
#[verifier::external_body]
fn name_of_coo() -> (name: &'static str)
    ensures
        name@ == coo_name(),
{
    Coo::NAME
}

/// The name of the zenithal polynomial projection: the constant `NAME` that
/// `mapproj` gives `Zpn`, spelt as it is there.
#[verifier::external_body]
fn name_of_zpn() -> (name: &'static str)
    ensures
        name@ == zpn_name(),
{
    Zpn::NAME
}

/// Reads the two angles of a conic projection.
fn parse_conic_angles(header: &WCSHeader, name: &'static str) -> (r: Result<
    (Degrees, Degrees),
    Error,
>)
    ensures
        outcome(r) == conic_angles(header@, name@),
{
    proof {
        lemma_default_literals();
    }
    // theta_a given in deg, has no default value
    match header.number(pv_key_chars(1).as_slice()) {
        Some(theta_a) => {
            // eta given in deg, default value: 0
            let eta = parse_pv(header, 2, "0.0");
            Ok((Degrees { value: theta_a }, Degrees { value: eta }))
        },
        None => Err(
            Error::InitProjection(
                name,
                "PV_1 = theta_a must be defined as it has no default value",
            ),
        ),
    }
}

impl WCSCanonicalProjection {
    /// Reads the zenithal perspective projection.
    pub fn parse_azp(header: &WCSHeader) -> (r: WCSCanonicalProjection)
        ensures
            r@ == resolved_azp(header@),
    {
        proof {
            lemma_default_literals();
        }
        // mu given in spherical radii, default value: 0.0
        let mu = parse_pv(header, 1, "0.0");
        // gamma given in deg, default value: 0.0
        let gamma = parse_pv(header, 2, "0.0");
        WCSCanonicalProjection::Azp { mu, gamma: Degrees { value: gamma } }
    }

    /// Reads the slant zenithal perspective projection.
    pub fn parse_szp(header: &WCSHeader) -> (r: WCSCanonicalProjection)
        ensures
            r@ == resolved_szp(header@),
    {
        proof {
            lemma_default_literals();
        }
        // mu given in spherical radii, default value: 0.0
        let mu = parse_pv(header, 1, "0.0");
        // phi_c given in deg, default value: 0.0
        let phi_c = parse_pv(header, 2, "0.0");
        // theta_c given in deg, default value: 90.0
        let theta_c = parse_pv(header, 3, "90.0");
        WCSCanonicalProjection::Szp {
            mu,
            phi_c: Degrees { value: phi_c },
            theta_c: Degrees { value: theta_c },
        }
    }

    /// Reads the slant orthographic projection.
    pub fn parse_sin_slant(header: &WCSHeader) -> (r: WCSCanonicalProjection)
        ensures
            r@ == resolved_sin_slant(header@),
    {
        proof {
            lemma_default_literals();
        }
        // xi dimensionless, default value: 0.0
        let xi = parse_pv(header, 1, "0.0");
        // eta dimensionless, default value: 0.0
        let eta = parse_pv(header, 2, "0.0");
        WCSCanonicalProjection::SinSlant { xi: xi.negated(), eta }
    }

    /// Reads the zenithal polynomial projection.  Whether its polynomial is
    /// one that a projection can have is decided afterwards, see
    /// [`WCSCanonicalProjection::with_polynomial_check`].
    pub fn parse_zpn(header: &WCSHeader) -> (r: WCSCanonicalProjection)
        ensures
            r@ == resolved_zpn(header@),
    {
        proof {
            lemma_default_literals();
        }
        let mut n: u64 = ZPN_MAX_COEFFS;
        while n > 0 && header.number(pv_key_chars(n - 1).as_slice()).is_none()
            invariant
                n <= ZPN_MAX_COEFFS,
                zpn_len(header@, ZPN_MAX_COEFFS as nat) == zpn_len(header@, n as nat),
            decreases n,
        {
            n -= 1;
        }
        let mut coeffs: Vec<Number> = Vec::new();
        let mut i: u64 = 0;
        while i < n
            invariant
                i <= n,
                n == zpn_len(header@, ZPN_MAX_COEFFS as nat),
                is_float_literal("0.0"@),
                coeffs@.len() == i,
                forall|j: int|
                    0 <= j < i ==> (#[trigger] coeffs@[j])@ == pv_or(header@, j as nat, "0.0"@),
            decreases n - i,
        {
            coeffs.push(parse_pv(header, i, "0.0"));
            i += 1;
        }
        assert(literals(coeffs@) =~= resolved_zpn(header@)->Zpn_coeffs);
        WCSCanonicalProjection::Zpn { coeffs }
    }

    /// Reads the Airy projection.
    pub fn parse_air(header: &WCSHeader) -> (r: WCSCanonicalProjection)
        ensures
            r@ == resolved_air(header@),
    {
        proof {
            lemma_default_literals();
        }
        // theta_b in deg, default value: 90.0
        let theta_b = parse_pv(header, 1, "90.0");
        WCSCanonicalProjection::Air { theta_b: Degrees { value: theta_b } }
    }

    /// Reads the cylindrical perspective projection.
    pub fn parse_cyp(header: &WCSHeader) -> (r: WCSCanonicalProjection)
        ensures
            r@ == resolved_cyp(header@),
    {
        proof {
            lemma_default_literals();
        }
        // mu given in spherical radii, default value: 1.0
        let mu = parse_pv(header, 1, "1.0");
        // lambda given in spherical radii, default value: 1.0
        let lambda = parse_pv(header, 2, "1.0");
        WCSCanonicalProjection::Cyp { mu, lambda }
    }

    /// Reads the cylindrical equal area projection.
    pub fn parse_cea(header: &WCSHeader) -> (r: WCSCanonicalProjection)
        ensures
            r@ == resolved_cea(header@),
    {
        proof {
            lemma_default_literals();
        }
        // lambda given in spherical radii, default value: 1.0
        let lambda = parse_pv(header, 1, "1.0");
        WCSCanonicalProjection::Cea { lambda }
    }

    /// Reads the conic perspective projection.
    pub fn parse_cop(header: &WCSHeader) -> (r: Result<WCSCanonicalProjection, Error>)
        ensures
            outcome(r) == resolved_cop(header@),
    {
        match parse_conic_angles(header, name_of_cop()) {
            Ok((theta_a, eta)) => Ok(WCSCanonicalProjection::Cop { theta_a, eta }),
            Err(e) => Err(e),
        }
    }

    /// Reads the conic equal area projection.
    pub fn parse_coe(header: &WCSHeader) -> (r: Result<WCSCanonicalProjection, Error>)
        ensures
            outcome(r) == resolved_coe(header@),
    {
        match parse_conic_angles(header, name_of_coe()) {
            Ok((theta_a, eta)) => Ok(WCSCanonicalProjection::Coe { theta_a, eta }),
            Err(e) => Err(e),
        }
    }

    /// Reads the conic equidistant projection.
    pub fn parse_cod(header: &WCSHeader) -> (r: Result<WCSCanonicalProjection, Error>)
        ensures
            outcome(r) == resolved_cod(header@),
    {
        match parse_conic_angles(header, name_of_cod()) {
            Ok((theta_a, eta)) => Ok(WCSCanonicalProjection::Cod { theta_a, eta }),
            Err(e) => Err(e),
        }
    }

    /// Reads the conic orthomorphic projection.
    pub fn parse_coo(header: &WCSHeader) -> (r: Result<WCSCanonicalProjection, Error>)
        ensures
            outcome(r) == resolved_coo(header@),
    {
        match parse_conic_angles(header, name_of_coo()) {
            Ok((theta_a, eta)) => Ok(WCSCanonicalProjection::Coo { theta_a, eta }),
            Err(e) => Err(e),
        }
    }
}


/// The projection that the code `code` and the parameter cards of `h`
/// describe.  The code `SIN` stands for the slant orthographic projection
/// where the header has one of its two parameters, and for the plain one
/// where it has neither.  A code outside the table is a failure.
pub open spec fn resolved_params(h: HeaderView, code: Seq<char>) -> Result<
    ProjectionView,
    ErrorView,
> {
    if code == "AZP"@ {
        Ok(resolved_azp(h))
    } else if code == "SZP"@ {
        Ok(resolved_szp(h))
    } else if code == "TAN"@ {
        Ok(ProjectionView::Tan)
    } else if code == "STG"@ {
        Ok(ProjectionView::Stg)
    } else if code == "SIN"@ {
        if h.number(pv_key(1)) is Some || h.number(pv_key(2)) is Some {
            Ok(resolved_sin_slant(h))
        } else {
            Ok(ProjectionView::Sin)
        }
    } else if code == "ARC"@ {
        Ok(ProjectionView::Arc)
    } else if code == "ZPN"@ {
        Ok(resolved_zpn(h))
    } else if code == "ZEA"@ {
        Ok(ProjectionView::Zea)
    } else if code == "AIR"@ {
        Ok(resolved_air(h))
    } else if code == "NCP"@ {
        Ok(ProjectionView::Ncp)
    } else if code == "CYP"@ {
        Ok(resolved_cyp(h))
    } else if code == "CEA"@ {
        Ok(resolved_cea(h))
    } else if code == "CAR"@ {
        Ok(ProjectionView::Car)
    } else if code == "MER"@ {
        Ok(ProjectionView::Mer)
    } else if code == "SFL"@ {
        Ok(ProjectionView::Sfl)
    } else if code == "PAR"@ {
        Ok(ProjectionView::Par)
    } else if code == "MOL"@ {
        Ok(ProjectionView::Mol)
    } else if code == "AIT"@ {
        Ok(ProjectionView::Ait)
    } else if code == "COP"@ {
        resolved_cop(h)
    } else if code == "COE"@ {
        resolved_coe(h)
    } else if code == "COD"@ {
        resolved_cod(h)
    } else if code == "COO"@ {
        resolved_coo(h)
    } else {
        Err(ErrorView::UnsupportedProjection(code))
    }
}

/// Why a zenithal polynomial may fail.
pub open spec fn negative_polynomial() -> Seq<char> {
    "negative polynomial in [0, pi]"@
}

/// What the resolution of a projection ends in, once it is known whether the
/// polynomial of a zenithal polynomial projection stays non-negative from 0
/// to pi: a polynomial that does not is a failure; nothing else is.
pub open spec fn checked_polynomial(p: ProjectionView, nonnegative: bool) -> Result<
    ProjectionView,
    ErrorView,
> {
    if p is Zpn && !nonnegative {
        Err(ErrorView::InitProjection(zpn_name(), negative_polynomial()))
    } else {
        Ok(p)
    }
}

impl WCSCanonicalProjection {
    /// Resolves the projection of code `code` from the parameter cards of
    /// `header`.
    ///
    /// An absent parameter takes its default; a conic projection without
    /// first angle fails, and so does a code outside the supported set.
    pub fn parse_internal_proj_params(header: &WCSHeader, code: &str) -> (r: Result<
        WCSCanonicalProjection,
        Error,
    >)
        ensures
            outcome(r) == resolved_params(header@, code@),
    {
        let chars = to_chars(code);
        let c = chars.as_slice();
        if is_text(c, "AZP") {
            Ok(WCSCanonicalProjection::parse_azp(header))
        } else if is_text(c, "SZP") {
            Ok(WCSCanonicalProjection::parse_szp(header))
        } else if is_text(c, "TAN") {
            Ok(WCSCanonicalProjection::Tan)
        } else if is_text(c, "STG") {
            Ok(WCSCanonicalProjection::Stg)
        } else if is_text(c, "SIN") {
            if header.number(pv_key_chars(1).as_slice()).is_some() || header.number(
                pv_key_chars(2).as_slice(),
            ).is_some() {
                Ok(WCSCanonicalProjection::parse_sin_slant(header))
            } else {
                Ok(WCSCanonicalProjection::Sin)
            }
        } else if is_text(c, "ARC") {
            Ok(WCSCanonicalProjection::Arc)
        } else if is_text(c, "ZPN") {
            Ok(WCSCanonicalProjection::parse_zpn(header))
        } else if is_text(c, "ZEA") {
            Ok(WCSCanonicalProjection::Zea)
        } else if is_text(c, "AIR") {
            Ok(WCSCanonicalProjection::parse_air(header))
        } else if is_text(c, "NCP") {
            Ok(WCSCanonicalProjection::Ncp)
        } else if is_text(c, "CYP") {
            Ok(WCSCanonicalProjection::parse_cyp(header))
        } else if is_text(c, "CEA") {
            Ok(WCSCanonicalProjection::parse_cea(header))
        } else if is_text(c, "CAR") {
            Ok(WCSCanonicalProjection::Car)
        } else if is_text(c, "MER") {
            Ok(WCSCanonicalProjection::Mer)
        } else if is_text(c, "SFL") {
            Ok(WCSCanonicalProjection::Sfl)
        } else if is_text(c, "PAR") {
            Ok(WCSCanonicalProjection::Par)
        } else if is_text(c, "MOL") {
            Ok(WCSCanonicalProjection::Mol)
        } else if is_text(c, "AIT") {
            Ok(WCSCanonicalProjection::Ait)
        } else if is_text(c, "COP") {
            WCSCanonicalProjection::parse_cop(header)
        } else if is_text(c, "COE") {
            WCSCanonicalProjection::parse_coe(header)
        } else if is_text(c, "COD") {
            WCSCanonicalProjection::parse_cod(header)
        } else if is_text(c, "COO") {
            WCSCanonicalProjection::parse_coo(header)
        } else {
            Err(Error::UnsupportedProjection(string_of(c)))
        }
    }

    /// Ends the resolution of a projection whose polynomial, if it has one,
    /// has been examined: `nonnegative` says whether it stays non-negative
    /// from 0 to pi.  Only a zenithal polynomial projection can fail here.
    pub fn with_polynomial_check(self, nonnegative: bool) -> (r: Result<
        WCSCanonicalProjection,
        Error,
    >)
        ensures
            outcome(r) == checked_polynomial(self@, nonnegative),
            r matches Ok(p) ==> p == self,
    {
        let failed: bool = match &self {
            WCSCanonicalProjection::Zpn { .. } => !nonnegative,
            _ => false,
        };
        if failed {
            Err(Error::InitProjection(name_of_zpn(), "negative polynomial in [0, pi]"))
        } else {
            Ok(self)
        }
    }
}

/// A projection and the sky position of its centre.
#[derive(Debug, PartialEq, Eq)]
pub struct ProjectionDescriptor {
    /// The projection and its parameters.
    pub proj: WCSCanonicalProjection,
    /// The longitude of the centre.
    pub crval1: Degrees,
    /// The latitude of the centre.
    pub crval2: Degrees,
}

/// The mathematical content of a [`ProjectionDescriptor`].
pub struct ProjectionDescriptorView {
    pub proj: ProjectionView,
    pub crval1: Seq<char>,
    pub crval2: Seq<char>,
}

impl View for ProjectionDescriptor {
    type V = ProjectionDescriptorView;

    open spec fn view(&self) -> ProjectionDescriptorView {
        ProjectionDescriptorView {
            proj: self.proj@,
            crval1: self.crval1@,
            crval2: self.crval2@,
        }
    }
}

/// The projection `proj` centred where the header says: at the reference
/// values `CRVAL1` and `CRVAL2`, each zero where absent.
pub open spec fn centred(h: HeaderView, proj: ProjectionView) -> ProjectionDescriptorView {
    ProjectionDescriptorView {
        proj,
        crval1: h.number_or("CRVAL1"@, "0.0"@),
        crval2: h.number_or("CRVAL2"@, "0.0"@),
    }
}

/// The projection of code `code`, centred where the header says.
pub open spec fn resolved_projection(h: HeaderView, code: Seq<char>) -> Result<
    ProjectionDescriptorView,
    ErrorView,
> {
    match resolved_params(h, code) {
        Ok(proj) => Ok(centred(h, proj)),
        Err(e) => Err(e),
    }
}

impl ProjectionDescriptor {
    /// Centres a projection where the header says.
    pub fn new(header: &WCSHeader, proj: WCSCanonicalProjection) -> (r: ProjectionDescriptor)
        ensures
            r@ == centred(header@, proj@),
    {
        proof {
            lemma_default_literals();
        }
        let crval1 = header.number_or(to_chars("CRVAL1").as_slice(), Number::literal("0.0"));
        let crval2 = header.number_or(to_chars("CRVAL2").as_slice(), Number::literal("0.0"));
        ProjectionDescriptor {
            proj,
            crval1: Degrees { value: crval1 },
            crval2: Degrees { value: crval2 },
        }
    }
}

impl WCSCanonicalProjection {
    /// Resolves the projection of code `code` and its centre.
    pub fn parse_proj(header: &WCSHeader, code: &str) -> (r: Result<ProjectionDescriptor, Error>)
        ensures
            outcome(r) == resolved_projection(header@, code@),
    {
        match WCSCanonicalProjection::parse_internal_proj_params(header, code) {
            Ok(proj) => Ok(ProjectionDescriptor::new(header, proj)),
            Err(e) => Err(e),
        }
    }
}

/// The letters of the supported codes; no two codes are the same.
pub proof fn lemma_code_letters()
    ensures
        "AZP"@ == seq!['A', 'Z', 'P'],
        "SZP"@ == seq!['S', 'Z', 'P'],
        "TAN"@ == seq!['T', 'A', 'N'],
        "STG"@ == seq!['S', 'T', 'G'],
        "SIN"@ == seq!['S', 'I', 'N'],
        "ARC"@ == seq!['A', 'R', 'C'],
        "ZPN"@ == seq!['Z', 'P', 'N'],
        "ZEA"@ == seq!['Z', 'E', 'A'],
        "AIR"@ == seq!['A', 'I', 'R'],
        "NCP"@ == seq!['N', 'C', 'P'],
        "CYP"@ == seq!['C', 'Y', 'P'],
        "CEA"@ == seq!['C', 'E', 'A'],
        "CAR"@ == seq!['C', 'A', 'R'],
        "MER"@ == seq!['M', 'E', 'R'],
        "SFL"@ == seq!['S', 'F', 'L'],
        "PAR"@ == seq!['P', 'A', 'R'],
        "MOL"@ == seq!['M', 'O', 'L'],
        "AIT"@ == seq!['A', 'I', 'T'],
        "COP"@ == seq!['C', 'O', 'P'],
        "COE"@ == seq!['C', 'O', 'E'],
        "COD"@ == seq!['C', 'O', 'D'],
        "COO"@ == seq!['C', 'O', 'O'],
{
    reveal_strlit("AZP");
    reveal_strlit("SZP");
    reveal_strlit("TAN");
    reveal_strlit("STG");
    reveal_strlit("SIN");
    reveal_strlit("ARC");
    reveal_strlit("ZPN");
    reveal_strlit("ZEA");
    reveal_strlit("AIR");
    reveal_strlit("NCP");
    reveal_strlit("CYP");
    reveal_strlit("CEA");
    reveal_strlit("CAR");
    reveal_strlit("MER");
    reveal_strlit("SFL");
    reveal_strlit("PAR");
    reveal_strlit("MOL");
    reveal_strlit("AIT");
    reveal_strlit("COP");
    reveal_strlit("COE");
    reveal_strlit("COD");
    reveal_strlit("COO");
    assert("AZP"@ =~= seq!['A', 'Z', 'P']);
    assert("SZP"@ =~= seq!['S', 'Z', 'P']);
    assert("TAN"@ =~= seq!['T', 'A', 'N']);
    assert("STG"@ =~= seq!['S', 'T', 'G']);
    assert("SIN"@ =~= seq!['S', 'I', 'N']);
    assert("ARC"@ =~= seq!['A', 'R', 'C']);
    assert("ZPN"@ =~= seq!['Z', 'P', 'N']);
    assert("ZEA"@ =~= seq!['Z', 'E', 'A']);
    assert("AIR"@ =~= seq!['A', 'I', 'R']);
    assert("NCP"@ =~= seq!['N', 'C', 'P']);
    assert("CYP"@ =~= seq!['C', 'Y', 'P']);
    assert("CEA"@ =~= seq!['C', 'E', 'A']);
    assert("CAR"@ =~= seq!['C', 'A', 'R']);
    assert("MER"@ =~= seq!['M', 'E', 'R']);
    assert("SFL"@ =~= seq!['S', 'F', 'L']);
    assert("PAR"@ =~= seq!['P', 'A', 'R']);
    assert("MOL"@ =~= seq!['M', 'O', 'L']);
    assert("AIT"@ =~= seq!['A', 'I', 'T']);
    assert("COP"@ =~= seq!['C', 'O', 'P']);
    assert("COE"@ =~= seq!['C', 'O', 'E']);
    assert("COD"@ =~= seq!['C', 'O', 'D']);
    assert("COO"@ =~= seq!['C', 'O', 'O']);
}

/// A conic projection needs its first angle: without the card `PV_1` the
/// resolution of each of the four conic codes fails, and the failure says
/// that `theta_a` has no default.
pub proof fn lemma_conic_needs_theta_a(h: HeaderView, code: Seq<char>)
    requires
        code == "COP"@ || code == "COE"@ || code == "COD"@ || code == "COO"@,
        h.number(pv_key(1)) is None,
    ensures
        resolved_params(h, code) matches Err(ErrorView::InitProjection(_, reason))
            && reason == no_theta_a(),
{
    lemma_code_letters();
}

/// A zenithal polynomial ends at the highest card present: no card from
/// its length on is in the header, and unless it is empty its last
/// coefficient is a card of the header.
pub proof fn lemma_zpn_len(h: HeaderView, n: nat)
    ensures
        zpn_len(h, n) <= n,
        zpn_len(h, n) > 0 ==> h.number(pv_key((zpn_len(h, n) - 1) as nat)) is Some,
        forall|k: nat| zpn_len(h, n) <= k < n ==> h.number(#[trigger] pv_key(k)) is None,
    decreases n,
{
    if n > 0 && h.number(pv_key((n - 1) as nat)) is None {
        lemma_zpn_len(h, (n - 1) as nat);
    }
}

} // verus!
