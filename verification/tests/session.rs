use std::time::{SystemTime, UNIX_EPOCH};

use rwt::forecast::{forecast_warning_text, ForecastData};
use rwt::location::Pos;
use rwt::session::{Session, WeatherAction};

fn place() -> Pos {
    Pos {
        is_valid: true,
        lat: String::from("40.712"),
        lon: String::from("-74.0061"),
        county: String::from("NYC061"),
    }
}

fn padded(prefix_len: usize, body: &str) -> Vec<u8> {
    let mut v = vec![b'.'; prefix_len];
    v.extend_from_slice(body.as_bytes());
    v
}

fn point_payload() -> Vec<u8> {
    padded(
        1700,
        "\"forecast\": \"https://api/f\",\n\"forecastHourly\": \"https://api/h\",\n\"x\": 1\n",
    )
}

fn clock_now() -> i128 {
    SystemTime::now().duration_since(UNIX_EPOCH).unwrap().as_nanos() as i128
}

const MINUTE: i128 = 60_000_000_000;

fn fetch_url(a: WeatherAction) -> Option<String> {
    match a {
        WeatherAction::FetchForecast { url } => Some(url),
        WeatherAction::FetchAlerts { url } => Some(url),
        WeatherAction::FetchStations { url } => Some(url),
        _ => None,
    }
}

#[test]
fn new_session_starts_empty() {
    let s = Session::new(place());
    assert_eq!(s.forecast.length(), 0);
    assert_eq!(s.alerts.length(), 0);
    assert_eq!(s.stations.length(), 0);
    assert_eq!(s.unit, "us");
    assert!(s.point.is_empty());
    assert_eq!(s.point_url, "https://api.weather.gov/points/40.712,-74.0061");
}

#[test]
fn forecast_fetched_from_point_link_with_unit() {
    let mut s = Session::new(place());
    s.set_point(point_payload());
    let a = s.step('F', 0);
    assert!(matches!(&a, WeatherAction::FetchForecast { .. }));
    assert_eq!(fetch_url(a), Some(String::from("https://api/f?units=us")));
    assert_eq!(s.choose_unit("m"), "UNIT TYPE : Metric\n");
    assert_eq!(fetch_url(s.step('f', 0)), Some(String::from("https://api/f?units=si")));
}

#[test]
fn forecast_link_out_of_reach_is_unreadable() {
    let mut s = Session::new(place());
    s.set_point(padded(20, "\"forecast\": \"https://api/f\",\n"));
    assert!(matches!(s.step('F', 0), WeatherAction::Unreadable));
}

#[test]
fn fresh_forecast_is_shown_and_old_one_fetched() {
    let mut s = Session::new(place());
    s.set_point(point_payload());
    s.forecast.set(vec![ForecastData::new()]);
    let now = clock_now();
    assert!(matches!(s.step('F', now), WeatherAction::ShowForecast));
    assert!(matches!(s.step('F', now + 20 * MINUTE), WeatherAction::FetchForecast { .. }));
}

#[test]
fn alerts_fetched_for_county() {
    let mut s = Session::new(place());
    let a = s.step('A', 0);
    assert_eq!(
        fetch_url(a),
        Some(String::from("https://api.weather.gov/alerts/active/zone/NYC061"))
    );
    assert!(s.alerts_arrived(&b"no alerts here".to_vec()));
    let now = clock_now();
    // an empty alert list is fetched again
    assert!(matches!(s.step('a', now), WeatherAction::FetchAlerts { .. }));
    assert!(!s.alerts_arrived(&b"abc".to_vec()));
}

#[test]
fn new_place_drops_everything_fetched() {
    let mut s = Session::new(place());
    s.set_point(point_payload());
    s.forecast.set(vec![ForecastData::new()]);
    s.alerts.add(rwt::alerts::AlertData::new());
    assert!(matches!(s.step('L', clock_now()), WeatherAction::AskZip));
    assert_eq!(s.forecast.length(), 0);
    assert_eq!(s.alerts.length(), 0);
    assert_eq!(s.stations.length(), 0);
    assert!(s.point.is_empty());
    assert_eq!(s.unit, "us");
}

#[test]
fn new_unit_drops_forecast_only() {
    let mut s = Session::new(place());
    s.set_point(point_payload());
    s.forecast.set(vec![ForecastData::new()]);
    s.alerts.add(rwt::alerts::AlertData::new());
    assert!(matches!(s.step('u', clock_now()), WeatherAction::AskUnit));
    assert_eq!(s.forecast.length(), 0);
    assert_eq!(s.alerts.length(), 1);
    assert_eq!(s.point, point_payload());
}

#[test]
fn stations_fetched_from_point_address() {
    let mut s = Session::new(place());
    s.set_point(point_payload());
    let a = s.step('O', 0);
    assert_eq!(
        fetch_url(a),
        Some(String::from("https://api.weather.gov/points/40.712,-74.0061"))
    );
    assert!(s.point.is_empty());
    assert!(!s.stations_arrived(&b"ab".to_vec()));
}

#[test]
fn quit_and_other_letters() {
    let mut s = Session::new(place());
    assert!(matches!(s.step('Q', 0), WeatherAction::Quit));
    assert!(matches!(s.step('q', 0), WeatherAction::Quit));
    assert!(matches!(s.step('z', 0), WeatherAction::Nothing));
    assert_eq!(s.unit, "us");
}

#[test]
fn prompt_warns_for_invalid_place() {
    let menu = "Please select an option\n[A]lerts\n[F]orecast\n[L]ocaton\n[O]bservations\n[Q]uit\n[U]nits\n[]> ";
    let s = Session::new(place());
    assert_eq!(s.prompt_text(), menu);
    let mut bad = place();
    bad.is_valid = false;
    let t = Session::new(bad);
    assert_eq!(
        t.prompt_text(),
        format!(
            "WARNING : Location is not valid, attampting to get weather will fail catastrophically!!!\n{menu}"
        )
    );
}

#[test]
fn point_read_gives_county_and_location() {
    let mut s = Session::new(place());
    let body = "\"city\": \"Springfield\",\n\"state\": \"IL\",\n}}}}}}\"county\": \"https://api.weather.gov/zones/county/ILC167\",\n";
    s.set_point(padded(body.len() + 4, body));
    let text = s.read_point().unwrap();
    assert_eq!(text, "#LOCATION#\ncity: Springfield\nstate: IL\n");
    assert_eq!(s.place.county, "ILC167");
    assert_eq!(s.county_line(), "county : ILC167\n");
}

#[test]
fn relocate_changes_point_address() {
    let mut s = Session::new(place());
    let mut p = place();
    p.lat = String::from("41.881");
    p.lon = String::from("-87.6271");
    s.relocate(p);
    assert_eq!(s.point_url, "https://api.weather.gov/points/41.881,-87.6271");
}

#[test]
fn short_forecast_payload_warns() {
    assert_eq!(
        forecast_warning_text(&b"tiny".to_vec()),
        "ERROR : Forcast data may be invalid\nERROR : Log Option unavalible... No log will be made...\n"
    );
    assert_eq!(forecast_warning_text(&vec![b' '; 10000]), "");
    let mut s = Session::new(place());
    let text = s.forecast_arrived(&b"number\": 1,".to_vec()).unwrap();
    assert!(text.starts_with("ERROR : Forcast data may be invalid\n"));
    assert_eq!(s.forecast.length(), 0);
}

#[test]
fn alerts_fetched_again_after_five_minutes() {
    let mut s = Session::new(place());
    s.alerts.add(rwt::alerts::AlertData::new());
    let now = clock_now();
    assert!(matches!(s.step('A', now), WeatherAction::ShowAlerts));
    assert!(matches!(s.step('A', now + 6 * MINUTE), WeatherAction::FetchAlerts { .. }));
}
