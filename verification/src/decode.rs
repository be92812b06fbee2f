//! The wire-message decoder: one SBS-1 text line in, one typed update
//! request out, or a silent rejection.
//!
//! A line is accepted only when it is printable ASCII, non-empty, shorter
//! than 255 characters, and splits on commas into exactly 22 fields. The
//! transmission type and the four date/time fields must parse, or the whole
//! line is dropped; every other field degrades to absent on a failed parse.

use vstd::prelude::*;

use crate::datetime::{chrono_hms_of, chrono_ymd_of, parse_date_ymd, parse_time_hms};
use crate::parse::{parse_fixed4, parse_i32, parse_usize};
use crate::parse::{spec_parse_fixed4, spec_parse_i32, spec_parse_usize};
use crate::sbs::{SbsDate, SbsMessage, SbsMessageView, SbsTime};

verus! {

/// Printable ASCII: space through tilde. Control characters and
/// anything beyond ASCII disqualify a line.
pub open spec fn is_printable_char(c: char) -> bool {
    32 <= (c as int) && (c as int) <= 126
}

pub open spec fn all_printable(s: Seq<char>) -> bool {
    forall|i: int| 0 <= i < s.len() ==> is_printable_char(#[trigger] s[i])
}

/// The fields of a line, split on every comma; one more field than there
/// are commas, so never empty.
pub open spec fn split_commas(s: Seq<char>) -> Seq<Seq<char>>
    decreases s.len(),
{
    if s.len() == 0 {
        seq![Seq::<char>::empty()]
    } else if s.last() == ',' {
        split_commas(s.drop_last()).push(Seq::<char>::empty())
    } else {
        let r = split_commas(s.drop_last());
        r.update(r.len() - 1, r.last().push(s.last()))
    }
}

pub proof fn lemma_split_commas_nonempty(s: Seq<char>)
    ensures
        split_commas(s).len() >= 1,
    decreases s.len(),
{
    if s.len() > 0 {
        lemma_split_commas_nonempty(s.drop_last());
    }
}

fn check_printable(s: &str) -> (r: bool)
    ensures
        r == all_printable(s@),
{
    let n = s.unicode_len();
    let mut i: usize = 0;
    while i < n
        invariant
            0 <= i <= n == s@.len(),
            forall|j: int| 0 <= j < i ==> is_printable_char(#[trigger] s@[j]),
        decreases n - i,
    {
        let c = s.get_char(i);
        let cv: u32 = c as u32;
        if cv < 32 || cv > 126 {
            return false;
        }
        i = i + 1;
    }
    true
}

/// Splits a line into its comma-separated fields.
pub fn split_fields(s: &str) -> (r: Vec<String>)
    ensures
        r.deep_view() == split_commas(s@),
{
    let n = s.unicode_len();
    let mut fields: Vec<String> = Vec::new();
    let mut start: usize = 0;
    let mut i: usize = 0;
    proof {
        assert(s@.subrange(0, 0) =~= Seq::<char>::empty());
        assert(split_commas(s@.subrange(0, 0)) =~~= fields.deep_view().push(
            s@.subrange(0, 0),
        ));
    }
    while i < n
        invariant
            start <= i <= n == s@.len(),
            split_commas(s@.subrange(0, i as int)) == fields.deep_view().push(
                s@.subrange(start as int, i as int),
            ),
        decreases n - i,
    {
        let ghost p = s@.subrange(0, i as int);
        let ghost p2 = s@.subrange(0, i + 1);
        let ghost cur = s@.subrange(start as int, i as int);
        let c = s.get_char(i);
        proof {
            assert(p2.drop_last() =~= p);
            assert(p2.last() == s@[i as int]);
        }
        if c == ',' {
            let ghost prev_dv = fields.deep_view();
            let f = s.substring_char(start, i).to_owned();
            fields.push(f);
            proof {
                assert(fields.deep_view() =~~= prev_dv.push(cur));
                assert(split_commas(p2) =~~= fields.deep_view().push(Seq::<char>::empty()));
                assert(s@.subrange(i + 1, i + 1) =~= Seq::<char>::empty());
            }
            start = i + 1;
        } else {
            proof {
                lemma_split_commas_nonempty(p);
                assert(split_commas(p2) =~~= fields.deep_view().push(cur.push(s@[i as int])));
                assert(cur.push(s@[i as int]) =~= s@.subrange(start as int, i + 1));
            }
        }
        i = i + 1;
    }
    let ghost prev_dv = fields.deep_view();
    let f = s.substring_char(start, n).to_owned();
    fields.push(f);
    proof {
        assert(s@.subrange(0, n as int) =~= s@);
        assert(fields.deep_view() =~~= prev_dv.push(s@.subrange(start as int, n as int)));
        assert(fields.deep_view() =~~= split_commas(s@));
    }
    fields
}

pub open spec fn date_of_parts(p: (i32, u32, u32)) -> SbsDate {
    SbsDate { year: p.0, month: p.1, day: p.2 }
}

pub open spec fn time_of_parts(p: (u32, u32, u32, u32)) -> SbsTime {
    SbsTime { hour: p.0, minute: p.1, second: p.2, nanosecond: p.3 }
}

/// A flag field: true exactly when the text reads as the number one;
/// anything unreadable counts as false.
pub open spec fn spec_flag(f: Seq<char>) -> Option<bool> {
    Some(spec_parse_usize(f) == Some(1usize))
}

/// The decoded form of a line, if the line is acceptable: the update
/// request that the line demands, with one entry per wire field.
pub open spec fn spec_decode(line: Seq<char>) -> Option<SbsMessageView> {
    if !(all_printable(line) && 0 < line.len() < 255) {
        None
    } else {
        let fs = split_commas(line);
        if fs.len() != 22 {
            None
        } else {
            let tt = spec_parse_usize(fs[1]);
            let gd = chrono_ymd_of(fs[6]);
            let gt = chrono_hms_of(fs[7]);
            let ld = chrono_ymd_of(fs[8]);
            let lt = chrono_hms_of(fs[9]);
            if tt is Some && gd is Some && gt is Some && ld is Some && lt is Some {
                Some(
                    SbsMessageView {
                        message_type: fs[0],
                        transmission_type: tt.unwrap(),
                        session_id: Some(fs[2]),
                        aircraft_id: Some(fs[3]),
                        hex_ident: fs[4],
                        flight_id: Some(fs[5]),
                        generated_date: date_of_parts(gd.unwrap()),
                        generated_time: time_of_parts(gt.unwrap()),
                        logged_date: date_of_parts(ld.unwrap()),
                        logged_time: time_of_parts(lt.unwrap()),
                        call_sign: Some(fs[10]),
                        altitude: spec_parse_fixed4(fs[11]),
                        ground_speed: spec_parse_fixed4(fs[12]),
                        track: spec_parse_fixed4(fs[13]),
                        latitude: spec_parse_fixed4(fs[14]),
                        longitude: spec_parse_fixed4(fs[15]),
                        vertical_rate: spec_parse_fixed4(fs[16]),
                        squawk: spec_parse_i32(fs[17]),
                        alert: spec_flag(fs[18]),
                        emergency: spec_flag(fs[19]),
                        spi: spec_flag(fs[20]),
                        is_on_ground: spec_flag(fs[21]),
                    },
                )
            } else {
                None
            }
        }
    }
}

fn parse_flag(s: &str) -> (r: bool)
    ensures
        Some(r) == spec_flag(s@),
{
    match parse_usize(s) {
        Some(v) => v == 1,
        None => false,
    }
}

/// Decodes one SBS-1 line into an update request, or rejects it.
pub fn decode_message_sbs(message: &str) -> (r: Option<SbsMessage>)
    ensures
        r matches Some(m) ==> spec_decode(message@) == Some(m@),
        r is None <==> spec_decode(message@) is None,
{
    if !check_printable(message) {
        return None;
    }
    let n = message.unicode_len();
    if n == 0 || n >= 255 {
        return None;
    }
    let fields = split_fields(message);
    if fields.len() != 22 {
        return None;
    }
    let transmission_type = match parse_usize(fields[1].as_str()) {
        Some(v) => v,
        None => {
            return None;
        },
    };
    let generated_date = match parse_date_ymd(fields[6].as_str()) {
        Some(d) => d,
        None => {
            return None;
        },
    };
    let generated_time = match parse_time_hms(fields[7].as_str()) {
        Some(t) => t,
        None => {
            return None;
        },
    };
    let logged_date = match parse_date_ymd(fields[8].as_str()) {
        Some(d) => d,
        None => {
            return None;
        },
    };
    let logged_time = match parse_time_hms(fields[9].as_str()) {
        Some(t) => t,
        None => {
            return None;
        },
    };
    let alert = parse_flag(fields[18].as_str());
    let emergency = parse_flag(fields[19].as_str());
    let spi = parse_flag(fields[20].as_str());
    let on_ground = parse_flag(fields[21].as_str());
    let m = SbsMessage::new(
        fields[0].clone(),
        transmission_type,
        Some(fields[2].clone()),
        Some(fields[3].clone()),
        fields[4].clone(),
        Some(fields[5].clone()),
        generated_date,
        generated_time,
        logged_date,
        logged_time,
        Some(fields[10].clone()),
        parse_fixed4(fields[11].as_str()),
        parse_fixed4(fields[12].as_str()),
        parse_fixed4(fields[13].as_str()),
        parse_fixed4(fields[14].as_str()),
        parse_fixed4(fields[15].as_str()),
        parse_fixed4(fields[16].as_str()),
        parse_i32(fields[17].as_str()),
        Some(alert),
        Some(emergency),
        Some(spi),
        Some(on_ground),
    );
    proof {
        assert(m@ =~= spec_decode(message@).unwrap());
    }
    Some(m)
}

} // verus!
