//! Typed form of one decoded SBS-1 message: the update request that the
//! decoder produces and the track store consumes.
//!
//! Calendar dates and wall-clock times are held as plain integer fields;
//! angles, speeds and coordinates are held as fixed-point integers scaled by
//! 10_000 (four decimal places), so that `53.55` degrees is stored as
//! `535_500`.

use vstd::prelude::*;

verus! {

/// Scale factor of the fixed-point numeric fields: values carry four
/// decimal places.
pub const FIXED4_SCALE: i64 = 10_000;

/// A calendar date, as chrono reports it: year, month (1 to 12) and
/// day of month (1 to 31).
#[derive(Clone, Copy, PartialEq, Eq, Structural, Debug)]
pub struct SbsDate {
    pub year: i32,
    pub month: u32,
    pub day: u32,
}

/// A wall-clock time of day: hour (0 to 23), minute and second (0 to 59),
/// and nanoseconds past the second (up to 1_999_999_999, the excess over
/// 999_999_999 standing for a leap second).
#[derive(Clone, Copy, PartialEq, Eq, Structural, Debug)]
pub struct SbsTime {
    pub hour: u32,
    pub minute: u32,
    pub second: u32,
    pub nanosecond: u32,
}

/// One decoded SBS-1 message. Field meanings follow the 22-field wire
/// layout: identification strings, the transponder address that keys the
/// track table, the two date/time pairs, and the optional payload fields.
#[derive(Debug, PartialEq)]
pub struct SbsMessage {
    pub message_type: String,
    pub transmission_type: usize,
    pub session_id: Option<String>,
    pub aircraft_id: Option<String>,
    pub hex_ident: String,
    pub flight_id: Option<String>,
    pub generated_date: SbsDate,
    pub generated_time: SbsTime,
    pub logged_date: SbsDate,
    pub logged_time: SbsTime,
    pub call_sign: Option<String>,
    pub altitude: Option<i64>,
    pub ground_speed: Option<i64>,
    pub track: Option<i64>,
    pub latitude: Option<i64>,
    pub longitude: Option<i64>,
    pub vertical_rate: Option<i64>,
    pub squawk: Option<i32>,
    pub alert: Option<bool>,
    pub emergency: Option<bool>,
    pub spi: Option<bool>,
    pub is_on_ground: Option<bool>,
}

/// The mathematical value of an `SbsMessage`: strings become character
/// sequences, everything else is carried as is.
#[verifier::ext_equal]
pub struct SbsMessageView {
    pub message_type: Seq<char>,
    pub transmission_type: usize,
    pub session_id: Option<Seq<char>>,
    pub aircraft_id: Option<Seq<char>>,
    pub hex_ident: Seq<char>,
    pub flight_id: Option<Seq<char>>,
    pub generated_date: SbsDate,
    pub generated_time: SbsTime,
    pub logged_date: SbsDate,
    pub logged_time: SbsTime,
    pub call_sign: Option<Seq<char>>,
    pub altitude: Option<i64>,
    pub ground_speed: Option<i64>,
    pub track: Option<i64>,
    pub latitude: Option<i64>,
    pub longitude: Option<i64>,
    pub vertical_rate: Option<i64>,
    pub squawk: Option<i32>,
    pub alert: Option<bool>,
    pub emergency: Option<bool>,
    pub spi: Option<bool>,
    pub is_on_ground: Option<bool>,
}

impl View for SbsMessage {
    type V = SbsMessageView;

    open spec fn view(&self) -> SbsMessageView {
        SbsMessageView {
            message_type: self.message_type@,
            transmission_type: self.transmission_type,
            session_id: self.session_id.deep_view(),
            aircraft_id: self.aircraft_id.deep_view(),
            hex_ident: self.hex_ident@,
            flight_id: self.flight_id.deep_view(),
            generated_date: self.generated_date,
            generated_time: self.generated_time,
            logged_date: self.logged_date,
            logged_time: self.logged_time,
            call_sign: self.call_sign.deep_view(),
            altitude: self.altitude,
            ground_speed: self.ground_speed,
            track: self.track,
            latitude: self.latitude,
            longitude: self.longitude,
            vertical_rate: self.vertical_rate,
            squawk: self.squawk,
            alert: self.alert,
            emergency: self.emergency,
            spi: self.spi,
            is_on_ground: self.is_on_ground,
        }
    }
}

impl SbsMessage {
    /// Builds a message record from its fields, in wire order.
    #[allow(clippy::too_many_arguments)]
    pub fn new(
        message_type: String,
        transmission_type: usize,
        session_id: Option<String>,
        aircraft_id: Option<String>,
        hex_ident: String,
        flight_id: Option<String>,
        generated_date: SbsDate,
        generated_time: SbsTime,
        logged_date: SbsDate,
        logged_time: SbsTime,
        call_sign: Option<String>,
        altitude: Option<i64>,
        ground_speed: Option<i64>,
        track: Option<i64>,
        latitude: Option<i64>,
        longitude: Option<i64>,
        vertical_rate: Option<i64>,
        squawk: Option<i32>,
        alert: Option<bool>,
        emergency: Option<bool>,
        spi: Option<bool>,
        is_on_ground: Option<bool>,
    ) -> (m: SbsMessage)
        ensures
            m@ == (SbsMessageView {
                message_type: message_type@,
                transmission_type: transmission_type,
                session_id: session_id.deep_view(),
                aircraft_id: aircraft_id.deep_view(),
                hex_ident: hex_ident@,
                flight_id: flight_id.deep_view(),
                generated_date: generated_date,
                generated_time: generated_time,
                logged_date: logged_date,
                logged_time: logged_time,
                call_sign: call_sign.deep_view(),
                altitude: altitude,
                ground_speed: ground_speed,
                track: track,
                latitude: latitude,
                longitude: longitude,
                vertical_rate: vertical_rate,
                squawk: squawk,
                alert: alert,
                emergency: emergency,
                spi: spi,
                is_on_ground: is_on_ground,
            }),
    {
        SbsMessage {
            message_type,
            transmission_type,
            session_id,
            aircraft_id,
            hex_ident,
            flight_id,
            generated_date,
            generated_time,
            logged_date,
            logged_time,
            call_sign,
            altitude,
            ground_speed,
            track,
            latitude,
            longitude,
            vertical_rate,
            squawk,
            alert,
            emergency,
            spi,
            is_on_ground,
        }
    }
}

} // verus!
