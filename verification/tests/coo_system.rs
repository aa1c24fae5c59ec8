use wcs::coo_system::{CooSystem, RadeSys};
use wcs::error::Error;
use wcs::header::WCSHeader;
use wcs::number::Number;

fn header(cards: &[&str]) -> WCSHeader {
    let mut s = String::new();
    for c in cards {
        assert!(c.chars().count() <= 80);
        s.push_str(&format!("{:<80}", c));
    }
    WCSHeader::new(&s).unwrap()
}

fn custom(radesys: RadeSys, equinox: &str) -> CooSystem {
    CooSystem::CUSTOM { radesys, equinox: Number::new(equinox).unwrap() }
}

#[test]
fn custom_frame_dominates_the_type_code() {
    let h = header(&["RADESYS = 'ICRS'", "EQUINOX = 2000.0", "CTYPE1  = 'GLON-TAN'"]);
    let frame = CooSystem::parse(&h).unwrap();
    assert_eq!(frame, custom(RadeSys::ICRS, "2000.0"));
    assert_ne!(frame, CooSystem::GALACTIC);
    match frame {
        CooSystem::CUSTOM { radesys, equinox } => {
            assert_eq!(radesys, RadeSys::ICRS);
            assert_eq!(equinox.text().parse::<f64>().unwrap(), 2000.0);
        },
        _ => unreachable!(),
    }
}

#[test]
fn custom_frame_needs_no_type_code() {
    let h = header(&["RADESYS = 'FK4'", "EQUINOX = 1950"]);
    assert_eq!(CooSystem::parse(&h), Ok(custom(RadeSys::Fk4, "1950")));
}

#[test]
fn frame_follows_the_first_letter_without_radesys_and_equinox() {
    let h = header(&["CTYPE1  = 'GLON-TAN'", "CTYPE2  = 'GLAT-TAN'"]);
    assert_eq!(CooSystem::parse(&h), Ok(CooSystem::GALACTIC));
    let h = header(&["CTYPE1  = 'RA---TAN'", "CTYPE2  = 'DEC--TAN'"]);
    assert_eq!(CooSystem::parse(&h), Ok(CooSystem::EQUATORIAL));
}

#[test]
fn each_letter_has_its_frame() {
    let cases = [
        ("GLON-CAR", CooSystem::GALACTIC),
        ("ELON-CAR", CooSystem::ECLIPTIC),
        ("HLON-CAR", CooSystem::HELIOECLIPTIC),
        ("SLON-CAR", CooSystem::SUPERGALACTIC),
        ("RA---CAR", CooSystem::EQUATORIAL),
        ("DEC--CAR", CooSystem::EQUATORIAL),
        ("glon-car", CooSystem::EQUATORIAL),
        ("X", CooSystem::EQUATORIAL),
        ("\u{e9}LON", CooSystem::EQUATORIAL),
    ];
    for (code, expected) in cases {
        let h = header(&[&format!("CTYPE1  = '{}'", code), "CTYPE2  = 'GLAT-CAR'"]);
        assert_eq!(CooSystem::parse(&h), Ok(expected), "{:?}", code);
    }
}

#[test]
fn only_the_first_type_code_counts() {
    let h = header(&["CTYPE2  = 'GLAT-TAN'"]);
    assert_eq!(CooSystem::parse(&h), Err(Error::MandatoryWCSKeywordsMissing("CTYPE")));
}

#[test]
fn radesys_without_equinox_falls_through() {
    let h = header(&["RADESYS = 'ICRS'", "CTYPE1  = 'GLON-TAN'"]);
    assert_eq!(CooSystem::parse(&h), Ok(CooSystem::GALACTIC));
    let h = header(&["RADESYS = 'ICRS'", "EQUINOX = 'J2000'", "CTYPE1  = 'ELON-TAN'"]);
    assert_eq!(CooSystem::parse(&h), Ok(CooSystem::ECLIPTIC));
}

#[test]
fn equinox_without_radesys_falls_through() {
    let h = header(&["EQUINOX = 2000.0", "CTYPE1  = 'SLON-TAN'"]);
    assert_eq!(CooSystem::parse(&h), Ok(CooSystem::SUPERGALACTIC));
}

#[test]
fn unknown_radesys_falls_through() {
    let h = header(&["RADESYS = 'B1950'", "EQUINOX = 1950.0", "CTYPE1  = 'RA---TAN'"]);
    assert_eq!(CooSystem::parse(&h), Ok(CooSystem::EQUATORIAL));
    let h = header(&["RADESYS = 'B1950'", "EQUINOX = 1950.0"]);
    assert_eq!(CooSystem::parse(&h), Err(Error::MandatoryWCSKeywordsMissing("CTYPE")));
}

#[test]
fn nothing_to_go_by_is_a_missing_type_code() {
    let h = header(&["NAXIS1  = 5"]);
    assert_eq!(CooSystem::parse(&h), Err(Error::MandatoryWCSKeywordsMissing("CTYPE")));
}

#[test]
fn each_code_has_its_family() {
    let cases = [
        ("ICRS", RadeSys::ICRS),
        ("FK5", RadeSys::Fk5),
        ("FK4", RadeSys::Fk4),
        ("FK4-NO-E", RadeSys::Fk4NoE),
        ("GAPPT", RadeSys::GAPPT),
    ];
    for (code, family) in cases {
        let h = header(&[&format!("RADESYS = '{}'", code), "EQUINOX = 2000.0"]);
        assert_eq!(RadeSys::parse(&h), Ok(family));
        assert_eq!(CooSystem::parse(&h), Ok(custom(family, "2000.0")));
        // padded inside its quotes, and without quotes
        let h = header(&[&format!("RADESYS = '{:<8}'", code)]);
        assert_eq!(RadeSys::parse(&h), Ok(family));
        let h = header(&[&format!("RADESYS = {}", code)]);
        assert_eq!(RadeSys::parse(&h), Ok(family));
    }
}

#[test]
fn unknown_radesys_is_reported_with_its_value() {
    for code in ["icrs", "FK6", "FK4-NO-", "ICRS2", "FK", "I C R S"] {
        let h = header(&[&format!("RADESYS = '{}'", code)]);
        assert_eq!(RadeSys::parse(&h), Err(Error::UnrecognizedRadeSys(code.to_string())));
    }
}

#[test]
fn absent_radesys_is_a_missing_keyword() {
    let h = header(&["EQUINOX = 2000.0"]);
    assert_eq!(RadeSys::parse(&h), Err(Error::MandatoryWCSKeywordsMissing("RADESYS")));
    let h = header(&["RADESYS = '        '"]);
    assert_eq!(RadeSys::parse(&h), Err(Error::MandatoryWCSKeywordsMissing("RADESYS")));
}
