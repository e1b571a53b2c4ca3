//! Forecasts: the query sent to the forecast service for one location, and
//! how its reply becomes a `Weather`.

use vstd::prelude::*;

use crate::failure::{decimal, decimal_text, ErrorKind, Failure};
use crate::location::Location;

verus! {

/// The current conditions at a location, with the units that the forecast
/// service reported them in.
///
/// Values are IEEE-754 double-precision bit patterns, carried unchanged.
#[derive(Debug)]
pub struct Weather {
    pub temperature: u64,
    pub temperature_unit: String,
    pub rain: u64,
    pub rain_unit: String,
}

/// The units part of a forecast reply.
#[derive(Debug)]
pub struct CurrentUnits {
    pub temperature_2m: String,
    pub rain: String,
}

/// The values part of a forecast reply, as IEEE-754 double-precision bit
/// patterns.
#[derive(Debug)]
pub struct CurrentValues {
    pub temperature_2m: u64,
    pub rain: u64,
}

/// The decoded body of a forecast reply.
#[derive(Debug)]
pub struct Forecast {
    pub current_units: CurrentUnits,
    pub current: CurrentValues,
}

/// The parameters of the request to the forecast service, in the order they
/// are sent.
#[derive(Debug)]
pub struct ForecastQuery {
    pub latitude: u64,
    pub longitude: u64,
    pub current: String,
}

/// The fields of current conditions that a forecast request asks for.
pub open spec fn current_fields() -> Seq<char> {
    "temperature_2m,rain"@
}

/// The context under which a failure to get the weather at a location is
/// reported.
pub open spec fn forecast_context(qualified_name: Seq<char>) -> Seq<char> {
    "fetching weather for "@ + qualified_name
}

/// The message for a forecast reply whose status is not success.
pub open spec fn forecast_status_message(status: u16) -> Seq<char> {
    "forecast api returned status "@ + decimal(status as nat)
}

/// `w` is the weather that a forecast reply reports: its values and their
/// units, passed through unchanged.
pub open spec fn weather_of(fc: Forecast, w: Weather) -> bool {
    &&& w.temperature == fc.current.temperature_2m
    &&& w.temperature_unit@ == fc.current_units.temperature_2m@
    &&& w.rain == fc.current.rain
    &&& w.rain_unit@ == fc.current_units.rain@
}

fn forecast_context_text(loc: &Location) -> (r: String)
    ensures
        r@ == forecast_context(loc.qualified_name@),
{
    String::from_str("fetching weather for ").concat(loc.qualified_name.as_str())
}

/// The forecast request for a location: its coordinates, and the current
/// temperature and rainfall.
pub fn forecast_query(loc: &Location) -> (r: ForecastQuery)
    ensures
        r.latitude == loc.latitude,
        r.longitude == loc.longitude,
        r.current@ == current_fields(),
{
    ForecastQuery {
        latitude: loc.latitude,
        longitude: loc.longitude,
        current: String::from_str("temperature_2m,rain"),
    }
}

/// The failure for a forecast request that could not be made, or got no
/// reply; `cause` says why.
pub fn forecast_unreachable(loc: &Location, cause: String) -> (f: Failure)
    ensures
        f.kind == ErrorKind::Upstream,
        f.lines() == seq![forecast_context(loc.qualified_name@), cause@],
{
    let ghost c = cause@;
    let f = Failure::new(ErrorKind::Upstream, cause).context(forecast_context_text(loc));
    assert(f.lines() =~= seq![forecast_context(loc.qualified_name@), c]);
    f
}

/// Checks the status of a forecast reply: only success lets the reply's body
/// be read.
pub fn forecast_status(loc: &Location, status: u16) -> (r: Result<(), Failure>)
    ensures
        r is Ok <==> status == 200,
        status != 200 ==> (r matches Err(f) && f.kind == ErrorKind::Upstream && f.lines() == seq![
            forecast_context(loc.qualified_name@),
            forecast_status_message(status),
        ]),
{
    if status == 200 {
        Ok(())
    } else {
        let message = String::from_str("forecast api returned status ");
        let message = message.concat(decimal_text(status as u32).as_str());
        let f = Failure::new(ErrorKind::Upstream, message).context(forecast_context_text(loc));
        assert(f.lines() =~= seq![
            forecast_context(loc.qualified_name@),
            forecast_status_message(status),
        ]);
        Err(f)
    }
}

/// Turns the decoded body of a successful forecast reply into the weather at
/// the location. A body that did not decode is a failure carrying the
/// decoder's message.
pub fn forecast_result(loc: &Location, body: Result<Forecast, String>) -> (r: Result<
    Weather,
    Failure,
>)
    ensures
        body matches Err(m) ==> (r matches Err(f) && f.kind == ErrorKind::Upstream && f.lines()
            == seq![forecast_context(loc.qualified_name@), m@]),
        body matches Ok(fc) ==> (r matches Ok(w) && weather_of(fc, w)),
{
    match body {
        Err(m) => Err(forecast_unreachable(loc, m)),
        Ok(fc) => Ok(
            Weather {
                temperature: fc.current.temperature_2m,
                temperature_unit: fc.current_units.temperature_2m,
                rain: fc.current.rain,
                rain_unit: fc.current_units.rain,
            },
        ),
    }
}

} // verus!
