use weather_fanout::aggregate::{FanIn, Verdict};
use weather_fanout::failure::{ErrorKind, Failure};
use weather_fanout::location::{search_results, search_status, Location, PlaceRecord};
use weather_fanout::query::{accept_request, QueryParams, RawQuery};
use weather_fanout::response::respond;
use weather_fanout::weather::{
    forecast_query, forecast_result, forecast_status, forecast_unreachable, CurrentUnits,
    CurrentValues, Forecast, Weather,
};

fn location(name: &str, population: Option<u32>) -> Location {
    Location {
        name: name.to_string(),
        qualified_name: format!("{name}, Somewhere"),
        population,
        latitude: 1.5f64.to_bits(),
        longitude: 2.5f64.to_bits(),
    }
}

fn weather(t: f64) -> Weather {
    Weather {
        temperature: t.to_bits(),
        temperature_unit: "°C".to_string(),
        rain: 0.0f64.to_bits(),
        rain_unit: "mm".to_string(),
    }
}

fn forecast(t: f64, r: f64) -> Forecast {
    Forecast {
        current_units: CurrentUnits { temperature_2m: "°F".to_string(), rain: "inch".to_string() },
        current: CurrentValues { temperature_2m: t.to_bits(), rain: r.to_bits() },
    }
}

fn upstream(msg: &str) -> Failure {
    Failure::new(ErrorKind::Upstream, msg.to_string())
}

#[test]
fn empty_join_is_complete_at_once() {
    let j = FanIn::new(vec![]);
    assert_eq!(j.len(), 0);
    assert!(j.is_complete());
    assert!(j.finish().is_empty());
}

#[test]
fn results_follow_location_order_not_arrival() {
    let mut j = FanIn::new(vec![location("a", Some(3)), location("b", Some(2)), location("c", None)]);
    assert!(matches!(j.accept(2, Ok(weather(3.0))), Verdict::Pending));
    assert!(matches!(j.accept(0, Ok(weather(1.0))), Verdict::Pending));
    assert!(!j.is_complete());
    assert!(matches!(j.accept(1, Ok(weather(2.0))), Verdict::Complete));
    assert!(j.is_complete());
    let items = j.finish();
    let names: Vec<&str> = items.iter().map(|i| i.location.name.as_str()).collect();
    assert_eq!(names, vec!["a", "b", "c"]);
    let temps: Vec<f64> = items.iter().map(|i| f64::from_bits(i.weather.temperature)).collect();
    assert_eq!(temps, vec![1.0, 2.0, 3.0]);
}

#[test]
fn same_outcomes_in_any_order_give_same_result() {
    let orders: [[usize; 3]; 3] = [[0, 1, 2], [2, 1, 0], [1, 2, 0]];
    let mut seen: Vec<Vec<f64>> = Vec::new();
    for order in orders {
        let mut j = FanIn::new(vec![location("a", Some(3)), location("b", Some(2)), location("c", None)]);
        for i in order {
            j.accept(i, Ok(weather(i as f64 * 10.0)));
        }
        assert!(j.is_complete());
        let items = j.finish();
        seen.push(items.iter().map(|i| f64::from_bits(i.weather.temperature)).collect());
    }
    assert_eq!(seen[0], vec![0.0, 10.0, 20.0]);
    assert_eq!(seen[0], seen[1]);
    assert_eq!(seen[1], seen[2]);
}

#[test]
fn second_fetch_failing_fails_the_aggregate() {
    // The first location succeeds, then the second fails.
    let mut j = FanIn::new(vec![location("a", Some(2)), location("b", Some(1))]);
    assert!(matches!(j.accept(0, Ok(weather(1.0))), Verdict::Pending));
    match j.accept(1, Err(upstream("forecast api returned status 500"))) {
        Verdict::Failed(f) => assert_eq!(f.chain, vec!["forecast api returned status 500".to_string()]),
        other => panic!("expected a failure, got {other:?}"),
    }
    assert!(!j.is_complete());

    // The second fails before the first has reported.
    let mut j = FanIn::new(vec![location("a", Some(2)), location("b", Some(1))]);
    assert!(matches!(j.accept(1, Err(upstream("boom"))), Verdict::Failed(_)));
    assert!(matches!(j.accept(0, Ok(weather(1.0))), Verdict::Discarded));
    assert!(!j.is_complete());
}

#[test]
fn later_failures_are_discarded() {
    let mut j = FanIn::new(vec![location("a", None), location("b", None), location("c", None)]);
    assert!(matches!(j.accept(2, Err(upstream("first"))), Verdict::Failed(_)));
    assert!(matches!(j.accept(0, Err(upstream("second"))), Verdict::Discarded));
    assert!(matches!(j.accept(1, Ok(weather(0.0))), Verdict::Discarded));
}

#[test]
fn forecast_query_fields() {
    let l = location("a", None);
    let q = forecast_query(&l);
    assert_eq!(f64::from_bits(q.latitude), 1.5);
    assert_eq!(f64::from_bits(q.longitude), 2.5);
    assert_eq!(q.current, "temperature_2m,rain");
}

#[test]
fn forecast_failures_name_the_location() {
    let l = location("Portland", None);
    assert!(forecast_status(&l, 200).is_ok());
    let f = forecast_status(&l, 404).unwrap_err();
    assert_eq!(f.kind, ErrorKind::Upstream);
    assert_eq!(
        f.chain,
        vec![
            "fetching weather for Portland, Somewhere".to_string(),
            "forecast api returned status 404".to_string()
        ]
    );
    let f = forecast_unreachable(&l, "dns failure".to_string());
    assert_eq!(
        f.chain,
        vec!["fetching weather for Portland, Somewhere".to_string(), "dns failure".to_string()]
    );
    let f = forecast_result(&l, Err("expected value".to_string())).unwrap_err();
    assert_eq!(f.kind, ErrorKind::Upstream);
    assert_eq!(
        f.chain,
        vec!["fetching weather for Portland, Somewhere".to_string(), "expected value".to_string()]
    );
}

#[test]
fn forecast_units_pass_through() {
    let l = location("a", None);
    let w = forecast_result(&l, Ok(forecast(51.3, 0.25))).unwrap();
    assert_eq!(f64::from_bits(w.temperature), 51.3);
    assert_eq!(w.temperature_unit, "°F");
    assert_eq!(f64::from_bits(w.rain), 0.25);
    assert_eq!(w.rain_unit, "inch");
}

fn portland(population: u32, admin1: &str, admin2: &str) -> PlaceRecord {
    PlaceRecord {
        name: "Portland".to_string(),
        latitude: 45.0f64.to_bits(),
        longitude: (-100.0f64).to_bits(),
        population: Some(population),
        admin1: admin1.to_string(),
        admin2: Some(admin2.to_string()),
        admin3: None,
        admin4: None,
    }
}

#[test]
fn portland_end_to_end() {
    let raw = RawQuery::Decoded(QueryParams { city: "Portland".to_string(), count: Some(2) });
    let q = accept_request(&"GET".to_string(), raw).unwrap();
    assert_eq!(q.count, 2);
    assert!(search_status(200).is_ok());
    let records = vec![
        portland(68000, "Maine", "Cumberland County"),
        portland(650000, "Oregon", "Multnomah County"),
    ];
    let locations = search_results(Ok(records)).unwrap();
    assert_eq!(locations.len(), 2);
    let mut weathers = Vec::new();
    for l in &locations {
        assert!(forecast_status(l, 200).is_ok());
        weathers.push(forecast_result(l, Ok(forecast(60.0, 0.0))).unwrap());
    }
    let mut j = FanIn::new(locations);
    let w1 = weathers.pop().unwrap();
    let w0 = weathers.pop().unwrap();
    assert!(matches!(j.accept(1, Ok(w1)), Verdict::Pending));
    assert!(matches!(j.accept(0, Ok(w0)), Verdict::Complete));
    let items = j.finish();
    assert_eq!(items.len(), 2);
    assert_eq!(items[0].location.population, Some(650000));
    assert_eq!(items[0].location.qualified_name, "Multnomah County, Oregon");
    assert_eq!(items[1].location.population, Some(68000));
    let reply = respond(Ok("[...]".to_string()));
    assert_eq!(reply.status, 200);
}
