//! The celestial reference frame of a header.
//!
//! A header that gives both an equinox and a known frame family names a
//! custom frame.  Any other header is read by the first letter of the type
//! code of its first axis.

use crate::error::{outcome, Error, ErrorView};
use crate::header::{HeaderView, WCSHeader};
use crate::number::Number;
use crate::text::{is_text, to_chars};
use vstd::prelude::*;

verus! {

/// The family of an equatorial frame.
#[derive(Clone, Copy, Debug, PartialEq, Eq, Structural)]
pub enum RadeSys {
    /// International Celestial Reference System
    ICRS,
    /// mean place, new (IAU 1984) system
    Fk5,
    /// mean place, old (Bessell-Newcomb) system
    Fk4,
    /// mean place, old system but without e-terms
    Fk4NoE,
    /// geocentric apparent place, IAU 1984 system
    GAPPT,
}

impl View for RadeSys {
    type V = RadeSys;

    open spec fn view(&self) -> RadeSys {
        *self
    }
}

/// The frame family that a code names.
pub open spec fn radesys_of(code: Seq<char>) -> Option<RadeSys> {
    if code == "ICRS"@ {
        Some(RadeSys::ICRS)
    } else if code == "FK5"@ {
        Some(RadeSys::Fk5)
    } else if code == "FK4"@ {
        Some(RadeSys::Fk4)
    } else if code == "FK4-NO-E"@ {
        Some(RadeSys::Fk4NoE)
    } else if code == "GAPPT"@ {
        Some(RadeSys::GAPPT)
    } else {
        None
    }
}

/// The frame family of a header: the one that its code names; a failure
/// where the header gives no code, or one that names no family.
pub open spec fn resolved_radesys(h: HeaderView) -> Result<RadeSys, ErrorView> {
    if h.radesys.len() == 0 {
        Err(ErrorView::MandatoryWCSKeywordsMissing("RADESYS"@))
    } else {
        match radesys_of(h.radesys) {
            Some(family) => Ok(family),
            None => Err(ErrorView::UnrecognizedRadeSys(h.radesys)),
        }
    }
}

impl RadeSys {
    /// Reads the frame family of a header.
    pub fn parse(header: &WCSHeader) -> (r: Result<RadeSys, Error>)
        ensures
            outcome(r) == resolved_radesys(header@),
    {
        let radesys = match header.get_radesys() {
            Ok(code) => code,
            Err(e) => {
                return Err(e);
            },
        };
        let code = to_chars(radesys.as_str());
        if is_text(code.as_slice(), "ICRS") {
            Ok(RadeSys::ICRS)
        } else if is_text(code.as_slice(), "FK5") {
            Ok(RadeSys::Fk5)
        } else if is_text(code.as_slice(), "FK4") {
            Ok(RadeSys::Fk4)
        } else if is_text(code.as_slice(), "FK4-NO-E") {
            Ok(RadeSys::Fk4NoE)
        } else if is_text(code.as_slice(), "GAPPT") {
            Ok(RadeSys::GAPPT)
        } else {
            Err(Error::UnrecognizedRadeSys(radesys))
        }
    }
}

/// A celestial reference frame.
#[derive(Debug, PartialEq, Eq)]
pub enum CooSystem {
    EQUATORIAL,
    GALACTIC,
    ECLIPTIC,
    HELIOECLIPTIC,
    SUPERGALACTIC,
    /// An equatorial frame of the given family and equinox.
    CUSTOM { radesys: RadeSys, equinox: Number },
}

/// The mathematical content of a [`CooSystem`].
pub enum CooSystemView {
    EQUATORIAL,
    GALACTIC,
    ECLIPTIC,
    HELIOECLIPTIC,
    SUPERGALACTIC,
    CUSTOM { radesys: RadeSys, equinox: Seq<char> },
}

impl View for CooSystem {
    type V = CooSystemView;

    open spec fn view(&self) -> CooSystemView {
        match self {
            CooSystem::EQUATORIAL => CooSystemView::EQUATORIAL,
            CooSystem::GALACTIC => CooSystemView::GALACTIC,
            CooSystem::ECLIPTIC => CooSystemView::ECLIPTIC,
            CooSystem::HELIOECLIPTIC => CooSystemView::HELIOECLIPTIC,
            CooSystem::SUPERGALACTIC => CooSystemView::SUPERGALACTIC,
            CooSystem::CUSTOM { radesys, equinox } => CooSystemView::CUSTOM {
                radesys: *radesys,
                equinox: equinox@,
            },
        }
    }
}

/// The frame that the first letter of a type code stands for.
pub open spec fn frame_of_letter(letter: char) -> CooSystemView {
    if letter == 'G' {
        CooSystemView::GALACTIC
    } else if letter == 'E' {
        CooSystemView::ECLIPTIC
    } else if letter == 'H' {
        CooSystemView::HELIOECLIPTIC
    } else if letter == 'S' {
        CooSystemView::SUPERGALACTIC
    } else {
        CooSystemView::EQUATORIAL
    }
}

/// The frame of a header.
///
/// With an `EQUINOX` card and a frame family, the custom frame of both.
/// Otherwise the frame of the first letter of the first type code; a failure
/// where the header has no first type code.  A header with only one of
/// equinox and family is read by the letter, as if it had neither.
pub open spec fn resolved_coo_system(h: HeaderView) -> Result<CooSystemView, ErrorView> {
    if h.number("EQUINOX"@) is Some && resolved_radesys(h) is Ok {
        Ok(
            CooSystemView::CUSTOM {
                radesys: resolved_radesys(h)->Ok_0,
                equinox: h.number("EQUINOX"@)->Some_0,
            },
        )
    } else if h.ctype1.len() == 0 {
        Err(ErrorView::MandatoryWCSKeywordsMissing("CTYPE"@))
    } else {
        Ok(frame_of_letter(h.ctype1[0]))
    }
}

/// A custom frame goes before the letter of the type code: a header with an
/// equinox and a known frame family resolves to the custom frame of both,
/// whatever its type codes are.
pub proof fn lemma_custom_frame_dominates(h: HeaderView)
    requires
        h.number("EQUINOX"@) is Some,
        h.radesys.len() > 0,
        radesys_of(h.radesys) is Some,
    ensures
        resolved_coo_system(h) matches Ok(frame) && frame == (CooSystemView::CUSTOM {
            radesys: radesys_of(h.radesys)->Some_0,
            equinox: h.cards["EQUINOX"@],
        }),
{
}

/// Without an equinox, or without a known frame family, the first letter
/// of the first type code decides, whatever else the header holds.
pub proof fn lemma_frame_follows_letter(h: HeaderView)
    requires
        h.number("EQUINOX"@) is None || resolved_radesys(h) is Err,
        h.ctype1.len() > 0,
    ensures
        resolved_coo_system(h) == Ok::<CooSystemView, ErrorView>(frame_of_letter(h.ctype1[0])),
{
}

impl CooSystem {
    /// Resolves the frame of a header.
    pub fn parse(header: &WCSHeader) -> (r: Result<CooSystem, Error>)
        ensures
            outcome(r) == resolved_coo_system(header@),
    {
        let key = to_chars("EQUINOX");
        let equinox = header.number(key.as_slice());
        let radesys = RadeSys::parse(header);
        match (radesys, equinox) {
            (Ok(radesys), Some(equinox)) => Ok(CooSystem::CUSTOM { radesys, equinox }),
            _ => {
                let ctype1 = match header.get_ctype(1) {
                    Ok(code) => code,
                    Err(e) => {
                        return Err(e);
                    },
                };
                let letter: char = ctype1.as_str().get_char(0);
                if letter == 'G' {
                    Ok(CooSystem::GALACTIC)
                } else if letter == 'E' {
                    Ok(CooSystem::ECLIPTIC)
                } else if letter == 'H' {
                    Ok(CooSystem::HELIOECLIPTIC)
                } else if letter == 'S' {
                    Ok(CooSystem::SUPERGALACTIC)
                } else {
                    Ok(CooSystem::EQUATORIAL)
                }
            },
        }
    }
}

} // verus!
