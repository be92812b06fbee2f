//! The table of notable transponder codes: emergencies and special
//! purpose flights, each with a description and a display colour class.

use vstd::prelude::*;

verus! {

/// Colour class a dashboard gives a squawk code.
#[derive(Clone, Copy, PartialEq, Eq, Debug)]
pub enum TransponderCodeColor {
    Default,
    Green,
    Yellow,
    Orange,
    Red,
    Blue,
}

/// The description and colour of the notable transponder codes; every
/// other code carries no entry.
pub open spec fn spec_transponder_description(squawk: i32) -> Option<(
    Seq<char>,
    TransponderCodeColor,
)> {
    if squawk == 7500 {
        Some(("Aircraft Hijacking"@, TransponderCodeColor::Red))
    } else if squawk == 7600 {
        Some(("Radio Communication Failure"@, TransponderCodeColor::Red))
    } else if squawk == 7700 {
        Some(("General Emergency"@, TransponderCodeColor::Red))
    } else if squawk == 20 {
        Some(("Hubschrauber-Rettungsflüge"@, TransponderCodeColor::Blue))
    } else if squawk == 23 {
        Some(("Einsatzflüge der Bundespolizei"@, TransponderCodeColor::Blue))
    } else if squawk == 24 {
        Some(
            (
                "Militärische Flüge im Nachttiefflugsystem, die Geländefolgeflüge durchführen"@,
                TransponderCodeColor::Orange,
            ),
        )
    } else if squawk == 25 {
        Some(("Absetzluftfahrzeug"@, TransponderCodeColor::Green))
    } else if squawk == 27 {
        Some(("Kunstflüge"@, TransponderCodeColor::Green))
    } else if squawk == 30 {
        Some(("Absetzluftfahrzeug"@, TransponderCodeColor::Green))
    } else if squawk == 31 {
        Some(("Open Skies"@, TransponderCodeColor::Orange))
    } else if squawk == 32 {
        Some(
            (
                "VFR-Flüge von zivilen Luftfahrzeugen in der Identifizierungszone"@,
                TransponderCodeColor::Yellow,
            ),
        )
    } else if squawk == 33 {
        Some(
            (
                "VFR-Flüge von militärischen Luftfahrzeugen zwischen GND und FL 100"@,
                TransponderCodeColor::Yellow,
            ),
        )
    } else if squawk == 34 {
        Some(("SAR"@, TransponderCodeColor::Blue))
    } else if squawk == 35 {
        Some(("VFR / IFR Wechselverfahren"@, TransponderCodeColor::Green))
    } else if squawk == 36 {
        Some(("Einsatzflüge der Polizei"@, TransponderCodeColor::Blue))
    } else if squawk == 37 {
        Some(("Einsatzflüge der Polizei mit Restlichtverstärker"@, TransponderCodeColor::Blue))
    } else if squawk == 1000 {
        Some(("IFR / Mode S Transponder Code"@, TransponderCodeColor::Green))
    } else if squawk == 2000 {
        Some(("Militärische Flüge im Nachttiefflugsystem"@, TransponderCodeColor::Orange))
    } else if squawk == 7000 {
        Some(("VFR-Flüge ziviler Luftfahrzeuge"@, TransponderCodeColor::Default))
    } else {
        None
    }
}

/// The description and colour of one transponder code, if it is notable.
pub fn get_transponder_description(squawk: i32) -> (r: Option<(
    &'static str,
    TransponderCodeColor,
)>)
    ensures
        match (r, spec_transponder_description(squawk)) {
            (Some(d), Some(sd)) => d.0@ == sd.0 && d.1 == sd.1,
            (None, None) => true,
            _ => false,
        },
{
    match squawk {
        7500 => Some(("Aircraft Hijacking", TransponderCodeColor::Red)),
        7600 => Some(("Radio Communication Failure", TransponderCodeColor::Red)),
        7700 => Some(("General Emergency", TransponderCodeColor::Red)),
        20 => Some(("Hubschrauber-Rettungsflüge", TransponderCodeColor::Blue)),
        23 => Some(("Einsatzflüge der Bundespolizei", TransponderCodeColor::Blue)),
        24 => Some(
            (
                "Militärische Flüge im Nachttiefflugsystem, die Geländefolgeflüge durchführen",
                TransponderCodeColor::Orange,
            ),
        ),
        25 => Some(("Absetzluftfahrzeug", TransponderCodeColor::Green)),
        27 => Some(("Kunstflüge", TransponderCodeColor::Green)),
        30 => Some(("Absetzluftfahrzeug", TransponderCodeColor::Green)),
        31 => Some(("Open Skies", TransponderCodeColor::Orange)),
        32 => Some(
            (
                "VFR-Flüge von zivilen Luftfahrzeugen in der Identifizierungszone",
                TransponderCodeColor::Yellow,
            ),
        ),
        33 => Some(
            (
                "VFR-Flüge von militärischen Luftfahrzeugen zwischen GND und FL 100",
                TransponderCodeColor::Yellow,
            ),
        ),
        34 => Some(("SAR", TransponderCodeColor::Blue)),
        35 => Some(("VFR / IFR Wechselverfahren", TransponderCodeColor::Green)),
        36 => Some(("Einsatzflüge der Polizei", TransponderCodeColor::Blue)),
        37 => Some(("Einsatzflüge der Polizei mit Restlichtverstärker", TransponderCodeColor::Blue)),
        1000 => Some(("IFR / Mode S Transponder Code", TransponderCodeColor::Green)),
        2000 => Some(("Militärische Flüge im Nachttiefflugsystem", TransponderCodeColor::Orange)),
        7000 => Some(("VFR-Flüge ziviler Luftfahrzeuge", TransponderCodeColor::Default)),
        _ => None,
    }
}

/// The notable transponder codes, in the order the table lists them.
pub open spec fn spec_transponder_code_list() -> Seq<i32> {
    seq![
        7500,
        7600,
        7700,
        20,
        23,
        24,
        25,
        27,
        30,
        31,
        32,
        33,
        34,
        35,
        36,
        37,
        1000,
        2000,
        7000,
    ]
}

/// Every notable transponder code with its description and colour, one
/// entry per code.
pub fn get_transponder_codes() -> (r: Vec<(i32, &'static str, TransponderCodeColor)>)
    ensures
        r@.len() == spec_transponder_code_list().len(),
        forall|j: int|
            0 <= j < r@.len() ==> {
                let e = #[trigger] r@[j];
                &&& e.0 == spec_transponder_code_list()[j]
                &&& spec_transponder_description(e.0) matches Some(sd) && e.1@ == sd.0 && e.2
                    == sd.1
            },
{
    let mut r: Vec<(i32, &'static str, TransponderCodeColor)> = Vec::new();
    push_code(&mut r, 7500);
    push_code(&mut r, 7600);
    push_code(&mut r, 7700);
    push_code(&mut r, 20);
    push_code(&mut r, 23);
    push_code(&mut r, 24);
    push_code(&mut r, 25);
    push_code(&mut r, 27);
    push_code(&mut r, 30);
    push_code(&mut r, 31);
    push_code(&mut r, 32);
    push_code(&mut r, 33);
    push_code(&mut r, 34);
    push_code(&mut r, 35);
    push_code(&mut r, 36);
    push_code(&mut r, 37);
    push_code(&mut r, 1000);
    push_code(&mut r, 2000);
    push_code(&mut r, 7000);
    r
}

/// Appends one notable code's entry to the table under construction.
fn push_code(r: &mut Vec<(i32, &'static str, TransponderCodeColor)>, squawk: i32)
    requires
        spec_transponder_description(squawk) is Some,
    ensures
        final(r)@.len() == old(r)@.len() + 1,
        forall|j: int| 0 <= j < old(r)@.len() ==> final(r)@[j] == old(r)@[j],
        ({
            let e = final(r)@.last();
            spec_transponder_description(e.0) matches Some(sd) && e.0 == squawk && e.1@ == sd.0
                && e.2 == sd.1
        }),
{
    let d = get_transponder_description(squawk);
    match d {
        Some(p) => {
            r.push((squawk, p.0, p.1));
        },
        None => {
            proof {
                // the caller names only notable codes
                assert(false);
            }
        },
    }
}

} // verus!
