use mapproj::CanonicalProjection;
use wcs::error::Error;
use wcs::header::WCSHeader;
use wcs::number::{Degrees, Number};
use wcs::projection::{ProjectionDescriptor, WCSCanonicalProjection};

fn header(cards: &[&str]) -> WCSHeader {
    let mut s = String::new();
    for c in cards {
        assert!(c.chars().count() <= 80);
        s.push_str(&format!("{:<80}", c));
    }
    WCSHeader::new(&s).unwrap()
}

fn n(text: &str) -> Number {
    Number::new(text).unwrap()
}

fn deg(text: &str) -> Degrees {
    Degrees { value: n(text) }
}

fn params(cards: &[&str], code: &str) -> Result<WCSCanonicalProjection, Error> {
    WCSCanonicalProjection::parse_internal_proj_params(&header(cards), code)
}

fn radians(degrees: &Degrees) -> f64 {
    degrees.value.text().parse::<f64>().unwrap().to_radians()
}

const NO_THETA_A: &str = "PV_1 = theta_a must be defined as it has no default value";

#[test]
fn azp_defaults_to_zero() {
    match params(&[], "AZP").unwrap() {
        WCSCanonicalProjection::Azp { mu, gamma } => {
            assert_eq!(mu.text().parse::<f64>().unwrap(), 0.0);
            assert_eq!(radians(&gamma), 0.0);
        },
        other => panic!("{:?}", other),
    }
    assert_eq!(
        params(&[], "AZP"),
        Ok(WCSCanonicalProjection::Azp { mu: n("0.0"), gamma: deg("0.0") })
    );
}

#[test]
fn azp_takes_its_tilt_in_degrees() {
    match params(&["PV_2    = 90"], "AZP").unwrap() {
        WCSCanonicalProjection::Azp { mu, gamma } => {
            assert_eq!(mu, n("0.0"));
            assert_eq!(gamma, deg("90"));
            assert_eq!(radians(&gamma), std::f64::consts::FRAC_PI_2);
        },
        other => panic!("{:?}", other),
    }
    assert_eq!(
        params(&["PV_1    = 2.5", "PV_2    = 30.0"], "AZP"),
        Ok(WCSCanonicalProjection::Azp { mu: n("2.5"), gamma: deg("30.0") })
    );
}

#[test]
fn szp_defaults() {
    assert_eq!(
        params(&[], "SZP"),
        Ok(WCSCanonicalProjection::Szp { mu: n("0.0"), phi_c: deg("0.0"), theta_c: deg("90.0") })
    );
    assert_eq!(
        params(&["PV_1    = 2", "PV_2    = 180", "PV_3    = 45"], "SZP"),
        Ok(WCSCanonicalProjection::Szp { mu: n("2"), phi_c: deg("180"), theta_c: deg("45") })
    );
    assert_eq!(
        params(&["PV_3    = 45"], "SZP"),
        Ok(WCSCanonicalProjection::Szp { mu: n("0.0"), phi_c: deg("0.0"), theta_c: deg("45") })
    );
}

#[test]
fn projections_without_parameters() {
    let cases = [
        ("TAN", WCSCanonicalProjection::Tan),
        ("STG", WCSCanonicalProjection::Stg),
        ("SIN", WCSCanonicalProjection::Sin),
        ("ARC", WCSCanonicalProjection::Arc),
        ("ZEA", WCSCanonicalProjection::Zea),
        ("NCP", WCSCanonicalProjection::Ncp),
        ("CAR", WCSCanonicalProjection::Car),
        ("MER", WCSCanonicalProjection::Mer),
        ("SFL", WCSCanonicalProjection::Sfl),
        ("PAR", WCSCanonicalProjection::Par),
        ("MOL", WCSCanonicalProjection::Mol),
        ("AIT", WCSCanonicalProjection::Ait),
    ];
    for (code, expected) in cases {
        assert_eq!(params(&[], code), Ok(expected), "{}", code);
    }
    // parameter cards do not matter to them, SIN apart
    let cards = ["PV_0    = 1", "PV_1    = 2", "PV_2    = 3", "PV_3    = 4"];
    assert_eq!(params(&cards, "TAN"), Ok(WCSCanonicalProjection::Tan));
    assert_eq!(params(&cards, "AIT"), Ok(WCSCanonicalProjection::Ait));
    assert_eq!(params(&cards, "NCP"), Ok(WCSCanonicalProjection::Ncp));
}

#[test]
fn sin_is_slant_with_a_parameter() {
    assert_eq!(params(&["PV_3    = 1"], "SIN"), Ok(WCSCanonicalProjection::Sin));
    assert_eq!(
        params(&["PV_1    = 0.5", "PV_2    = 0.25"], "SIN"),
        Ok(WCSCanonicalProjection::SinSlant { xi: n("-0.5"), eta: n("0.25") })
    );
    assert_eq!(
        params(&["PV_1    = -0.5"], "SIN"),
        Ok(WCSCanonicalProjection::SinSlant { xi: n("0.5"), eta: n("0.0") })
    );
    assert_eq!(
        params(&["PV_2    = 0.25"], "SIN"),
        Ok(WCSCanonicalProjection::SinSlant { xi: n("-0.0"), eta: n("0.25") })
    );
}

#[test]
fn zpn_keeps_the_cards_up_to_the_highest_present() {
    match params(&["PV_0    = 1.0", "PV_1    = 2.0"], "ZPN").unwrap() {
        WCSCanonicalProjection::Zpn { coeffs } => {
            let values: Vec<f64> = coeffs.iter().map(|c| c.text().parse().unwrap()).collect();
            assert_eq!(values, vec![1.0, 2.0]);
            assert_eq!(coeffs, vec![n("1.0"), n("2.0")]);
        },
        other => panic!("{:?}", other),
    }
}

#[test]
fn zpn_fills_interior_gaps_with_zero() {
    assert_eq!(
        params(&["PV_1    = 2.0", "PV_4    = 5.0"], "ZPN"),
        Ok(WCSCanonicalProjection::Zpn {
            coeffs: vec![n("0.0"), n("2.0"), n("0.0"), n("0.0"), n("5.0")]
        })
    );
    assert_eq!(
        params(&["PV_3    = 5.0", "PV_1    = x", "PV_5    = 'y'"], "ZPN"),
        Ok(WCSCanonicalProjection::Zpn { coeffs: vec![n("0.0"), n("0.0"), n("0.0"), n("5.0")] })
    );
}

#[test]
fn zpn_without_cards_is_empty() {
    assert_eq!(params(&[], "ZPN"), Ok(WCSCanonicalProjection::Zpn { coeffs: vec![] }));
    assert_eq!(
        params(&["PV_21   = 1.0", "PV_100  = 1.0"], "ZPN"),
        Ok(WCSCanonicalProjection::Zpn { coeffs: vec![] })
    );
}

#[test]
fn zpn_takes_up_to_twenty_one_cards() {
    let cards: Vec<String> = (0..=22).map(|i| format!("PV_{:<5}= {}.5", i, i)).collect();
    let refs: Vec<&str> = cards.iter().map(|s| s.as_str()).collect();
    let expected: Vec<Number> = (0..=20).map(|i| n(&format!("{}.5", i))).collect();
    assert_eq!(params(&refs, "ZPN"), Ok(WCSCanonicalProjection::Zpn { coeffs: expected }));
    let mut expected: Vec<Number> = (0..=20).map(|_| n("0.0")).collect();
    expected[20] = n("7");
    assert_eq!(
        params(&["PV_20   = 7"], "ZPN"),
        Ok(WCSCanonicalProjection::Zpn { coeffs: expected })
    );
}

#[test]
fn negative_polynomial_fails_zpn() {
    let proj = params(&["PV_0    = -1.0"], "ZPN").unwrap();
    assert_eq!(
        proj.with_polynomial_check(false),
        Err(Error::InitProjection("Zenithal polynomlial", "negative polynomial in [0, pi]"))
    );
    let proj = params(&["PV_1    = 1.0"], "ZPN").unwrap();
    assert_eq!(
        proj.with_polynomial_check(true),
        Ok(WCSCanonicalProjection::Zpn { coeffs: vec![n("0.0"), n("1.0")] })
    );
    // no other projection has a polynomial to fail on
    assert_eq!(
        WCSCanonicalProjection::Tan.with_polynomial_check(false),
        Ok(WCSCanonicalProjection::Tan)
    );
    assert_eq!(
        params(&[], "AZP").unwrap().with_polynomial_check(false),
        Ok(WCSCanonicalProjection::Azp { mu: n("0.0"), gamma: deg("0.0") })
    );
}

#[test]
fn air_defaults_to_ninety_degrees() {
    assert_eq!(params(&[], "AIR"), Ok(WCSCanonicalProjection::Air { theta_b: deg("90.0") }));
    assert_eq!(
        params(&["PV_1    = 45"], "AIR"),
        Ok(WCSCanonicalProjection::Air { theta_b: deg("45") })
    );
}

#[test]
fn cylindrical_defaults_to_one() {
    assert_eq!(
        params(&[], "CYP"),
        Ok(WCSCanonicalProjection::Cyp { mu: n("1.0"), lambda: n("1.0") })
    );
    assert_eq!(
        params(&["PV_1    = 0.5", "PV_2    = 2"], "CYP"),
        Ok(WCSCanonicalProjection::Cyp { mu: n("0.5"), lambda: n("2") })
    );
    assert_eq!(params(&[], "CEA"), Ok(WCSCanonicalProjection::Cea { lambda: n("1.0") }));
    assert_eq!(
        params(&["PV_1    = 0.5", "PV_2    = 2"], "CEA"),
        Ok(WCSCanonicalProjection::Cea { lambda: n("0.5") })
    );
}

#[test]
fn conic_without_first_angle_fails() {
    let names = [
        ("COP", "Conic perspective"),
        ("COE", "Conic Equal Area"),
        ("COD", "Conic Equidistant"),
        ("COO", "Conic Orthomorphic"),
    ];
    for (code, name) in names {
        assert_eq!(params(&[], code), Err(Error::InitProjection(name, NO_THETA_A)), "{}", code);
        assert_eq!(
            params(&["PV_2    = 10", "PV_0    = 3"], code),
            Err(Error::InitProjection(name, NO_THETA_A)),
            "{}",
            code
        );
        assert_eq!(
            params(&["PV_1    = 'x'"], code),
            Err(Error::InitProjection(name, NO_THETA_A)),
            "{}",
            code
        );
    }
}

#[test]
fn conic_names_are_those_of_mapproj() {
    assert_eq!(
        params(&[], "COP"),
        Err(Error::InitProjection(mapproj::conic::cop::Cop::NAME, NO_THETA_A))
    );
    assert_eq!(
        params(&[], "COE"),
        Err(Error::InitProjection(mapproj::conic::coe::Coe::NAME, NO_THETA_A))
    );
    assert_eq!(
        params(&[], "COD"),
        Err(Error::InitProjection(mapproj::conic::cod::Cod::NAME, NO_THETA_A))
    );
    assert_eq!(
        params(&[], "COO"),
        Err(Error::InitProjection(mapproj::conic::coo::Coo::NAME, NO_THETA_A))
    );
    assert_eq!(
        WCSCanonicalProjection::Zpn { coeffs: vec![] }.with_polynomial_check(false),
        Err(Error::InitProjection(
            mapproj::zenithal::zpn::Zpn::NAME,
            "negative polynomial in [0, pi]"
        ))
    );
}

#[test]
fn conic_second_angle_defaults_to_zero() {
    assert_eq!(
        params(&["PV_1    = 45"], "COP"),
        Ok(WCSCanonicalProjection::Cop { theta_a: deg("45"), eta: deg("0.0") })
    );
    assert_eq!(
        params(&["PV_1    = 45", "PV_2    = 25"], "COE"),
        Ok(WCSCanonicalProjection::Coe { theta_a: deg("45"), eta: deg("25") })
    );
    assert_eq!(
        params(&["PV_1    = -45.5", "PV_2    = 25"], "COD"),
        Ok(WCSCanonicalProjection::Cod { theta_a: deg("-45.5"), eta: deg("25") })
    );
    assert_eq!(
        params(&["PV_1    = 1e1"], "COO"),
        Ok(WCSCanonicalProjection::Coo { theta_a: deg("1e1"), eta: deg("0.0") })
    );
}

#[test]
fn unsupported_codes_are_reported() {
    for code in ["BON", "PCO", "TSC", "CSC", "QSC", "HPX", "XPH", "", "tan", "TAN ", "TANG", "TA"] {
        assert_eq!(
            params(&["PV_1    = 45"], code),
            Err(Error::UnsupportedProjection(code.to_string())),
            "{:?}",
            code
        );
        assert_eq!(
            WCSCanonicalProjection::parse_proj(&header(&["CRVAL1  = 1"]), code),
            Err(Error::UnsupportedProjection(code.to_string())),
            "{:?}",
            code
        );
    }
}

#[test]
fn centre_defaults_to_the_origin() {
    assert_eq!(
        WCSCanonicalProjection::parse_proj(&header(&[]), "TAN"),
        Ok(ProjectionDescriptor {
            proj: WCSCanonicalProjection::Tan,
            crval1: deg("0.0"),
            crval2: deg("0.0")
        })
    );
}

#[test]
fn centre_is_read_from_the_reference_values() {
    let h = header(&["CRVAL1  = 83.633", "CRVAL2  = -22.0145", "PV_1    = 30"]);
    assert_eq!(
        WCSCanonicalProjection::parse_proj(&h, "AIR"),
        Ok(ProjectionDescriptor {
            proj: WCSCanonicalProjection::Air { theta_b: deg("30") },
            crval1: deg("83.633"),
            crval2: deg("-22.0145")
        })
    );
    let h = header(&["CRVAL2  = 5"]);
    assert_eq!(
        WCSCanonicalProjection::parse_proj(&h, "MOL"),
        Ok(ProjectionDescriptor {
            proj: WCSCanonicalProjection::Mol,
            crval1: deg("0.0"),
            crval2: deg("5")
        })
    );
}

#[test]
fn failure_of_the_projection_is_the_failure_of_the_whole() {
    let h = header(&["CRVAL1  = 83.633", "CRVAL2  = -22.0145"]);
    assert_eq!(
        WCSCanonicalProjection::parse_proj(&h, "COP"),
        Err(Error::InitProjection("Conic perspective", NO_THETA_A))
    );
}

#[test]
fn each_projection_has_its_reader() {
    let cards = ["PV_0    = 10", "PV_1    = 11", "PV_2    = 12", "PV_3    = 13"];
    let h = header(&cards);
    assert_eq!(Ok(WCSCanonicalProjection::parse_azp(&h)), params(&cards, "AZP"));
    assert_eq!(Ok(WCSCanonicalProjection::parse_szp(&h)), params(&cards, "SZP"));
    assert_eq!(Ok(WCSCanonicalProjection::parse_sin_slant(&h)), params(&cards, "SIN"));
    assert_eq!(Ok(WCSCanonicalProjection::parse_zpn(&h)), params(&cards, "ZPN"));
    assert_eq!(Ok(WCSCanonicalProjection::parse_air(&h)), params(&cards, "AIR"));
    assert_eq!(Ok(WCSCanonicalProjection::parse_cyp(&h)), params(&cards, "CYP"));
    assert_eq!(Ok(WCSCanonicalProjection::parse_cea(&h)), params(&cards, "CEA"));
    assert_eq!(WCSCanonicalProjection::parse_cop(&h), params(&cards, "COP"));
    assert_eq!(WCSCanonicalProjection::parse_coe(&h), params(&cards, "COE"));
    assert_eq!(WCSCanonicalProjection::parse_cod(&h), params(&cards, "COD"));
    assert_eq!(WCSCanonicalProjection::parse_coo(&h), params(&cards, "COO"));
    assert_eq!(
        WCSCanonicalProjection::parse_szp(&h),
        WCSCanonicalProjection::Szp { mu: n("11"), phi_c: deg("12"), theta_c: deg("13") }
    );
    let h = header(&[]);
    assert_eq!(WCSCanonicalProjection::parse_cop(&h), params(&[], "COP"));
    assert_eq!(WCSCanonicalProjection::parse_coe(&h), params(&[], "COE"));
    assert_eq!(WCSCanonicalProjection::parse_cod(&h), params(&[], "COD"));
    assert_eq!(WCSCanonicalProjection::parse_coo(&h), params(&[], "COO"));
}

#[test]
fn slant_reader_defaults_to_zero() {
    assert_eq!(
        WCSCanonicalProjection::parse_sin_slant(&header(&[])),
        WCSCanonicalProjection::SinSlant { xi: n("-0.0"), eta: n("0.0") }
    );
    let xi: f64 = "-0.0".parse().unwrap();
    assert_eq!(xi.to_bits(), (-0.0f64).to_bits());
}

#[test]
fn any_projection_can_be_centred() {
    let h = header(&["CRVAL1  = 10.5", "CRVAL2  = -20.5"]);
    assert_eq!(
        ProjectionDescriptor::new(&h, WCSCanonicalProjection::Sin),
        ProjectionDescriptor {
            proj: WCSCanonicalProjection::Sin,
            crval1: deg("10.5"),
            crval2: deg("-20.5")
        }
    );
    assert_eq!(
        Ok(ProjectionDescriptor::new(&h, WCSCanonicalProjection::parse_azp(&h))),
        WCSCanonicalProjection::parse_proj(&h, "AZP")
    );
}
