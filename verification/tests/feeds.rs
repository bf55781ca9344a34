use rwt::alerts::{alert_listing, parse_alerts, try_parse_alerts, AlertData};
use rwt::forecast::{forecast_listing, parse_forcast, try_parse_forcast, ForecastData};
use rwt::observations::{
    observation_report_text, parse_observation_stations, station_list_url, try_station_list_url,
    try_observation_report, try_parse_observation_stations, ObservationData,
};

/// Appends `tag`, then filler so that the first field starts `offset` bytes
/// after the tag's first byte.
fn tag(buf: &mut Vec<u8>, tag: &str, offset: usize) {
    buf.extend_from_slice(tag.as_bytes());
    for _ in tag.len()..offset {
        buf.push(b'x');
    }
}

/// Appends a field and its stop byte.
fn value(buf: &mut Vec<u8>, v: &str, stop: u8) {
    buf.extend_from_slice(v.as_bytes());
    buf.push(stop);
}

/// Appends filler so that the next field starts `offset` bytes after the stop
/// byte just written.
fn gap(buf: &mut Vec<u8>, offset: usize) {
    for _ in 1..offset {
        buf.push(b'x');
    }
}

fn forecast_payload() -> Vec<u8> {
    let mut b = b"{ periods: ".to_vec();
    for (num, name, t, precip, speed, dir, short, long) in [
        ("1", "Tonight", "45", "20", "5 mph", "NW", "Clear", "Clear skies."),
        ("2", "Monday", "60", "0", "10 mph", "S", "Sunny", "Sunny all day."),
    ] {
        tag(&mut b, "number", 8);
        value(&mut b, num, b',');
        gap(&mut b, 27);
        value(&mut b, name, b'"');
        b.push(b' ');
        tag(&mut b, "temper", 13);
        value(&mut b, t, b',');
        gap(&mut b, 38);
        value(&mut b, "F", b'"');
        b.push(b' ');
        tag(&mut b, "value\"", 7);
        value(&mut b, precip, 10);
        gap(&mut b, 50);
        value(&mut b, speed, b'"');
        gap(&mut b, 37);
        value(&mut b, dir, b'"');
        b.push(b' ');
        tag(&mut b, "shortF", 17);
        value(&mut b, short, b'"');
        gap(&mut b, 40);
        value(&mut b, long, b'"');
        b.push(b' ');
    }
    while b.len() < 10000 {
        b.push(b' ');
    }
    b
}

#[test]
fn forecast_periods_parsed() {
    let data = forecast_payload();
    let f = parse_forcast(&data);
    assert_eq!(f.len(), 2);
    assert_eq!(f[0].number, b"1".to_vec());
    assert_eq!(f[0].name, b"Tonight".to_vec());
    assert_eq!(f[0].temp, b"45".to_vec());
    assert_eq!(f[0].temp_unit, b"F".to_vec());
    assert_eq!(f[0].precip_chance, b"20".to_vec());
    assert_eq!(f[0].wind_speed, b"5 mph".to_vec());
    assert_eq!(f[0].wind_dir, b"NW".to_vec());
    assert_eq!(f[0].short_forecast, b"Clear".to_vec());
    assert_eq!(f[0].detailed_forcast, b"Clear skies.".to_vec());
    assert_eq!(f[1].name, b"Monday".to_vec());
    assert_eq!(f[1].precip_chance, b"0".to_vec());
}

#[test]
fn forecast_short_payload_gives_nothing() {
    let data = b"number\": 1,".to_vec();
    assert_eq!(parse_forcast(&data).len(), 0);
}

#[test]
fn forecast_reading_without_forecast_is_refused() {
    let mut b = b"{ ".to_vec();
    tag(&mut b, "temper", 13);
    value(&mut b, "45", b',');
    gap(&mut b, 38);
    value(&mut b, "F", b'"');
    while b.len() < 10000 {
        b.push(b' ');
    }
    assert!(try_parse_forcast(&b).is_none());
}

#[test]
fn forecast_texts() {
    let data = forecast_payload();
    let f = parse_forcast(&data);
    assert_eq!(f[0].simple_text(), "1 | Tonight | 45F | 20% | 5 mph - NW | Clear\n");
    assert_eq!(
        f[0].detailed_text(),
        "1 | Tonight\n Temperature : 45F | Precipitation Chance20% | Wind Info 5 mph - NW\nForecast : Clear skies.\n"
    );
    assert_eq!(
        forecast_listing(&f, "2"),
        "1 | Tonight | 45F | 20% | 5 mph - NW | Clear\n\n2 | Monday\n Temperature : 60F | Precipitation Chance0% | Wind Info 10 mph - S\nForecast : Sunny all day.\n\n"
    );
    let empty = ForecastData::new();
    assert_eq!(empty.simple_text(), " |  |  | % |  -  | \n");
}

fn alert_payload() -> Vec<u8> {
    let mut b = b"{\"features\": [".to_vec();
    for (urg, ev, sender, name, head, desc, instr) in [
        ("Severe", "Flood Warning", "w-nws@noaa.gov", "NWS Chicago", "FLOOD\\nWARNING", "Rain\\\\n fell", "Move up"),
        ("Minor", "Wind Advisory", "w-nws@noaa.gov", "NWS Boston", "WIND", "Gusts", "Hold on"),
    ] {
        tag(&mut b, "urgenc", 11);
        value(&mut b, urg, b'"');
        gap(&mut b, 29);
        value(&mut b, ev, b'"');
        gap(&mut b, 30);
        value(&mut b, sender, b'"');
        gap(&mut b, 34);
        value(&mut b, name, b'"');
        gap(&mut b, 32);
        value(&mut b, head, b'"');
        gap(&mut b, 35);
        value(&mut b, desc, b'"');
        gap(&mut b, 35);
        value(&mut b, instr, b'"');
        b.push(b' ');
    }
    b.extend_from_slice(b"]}      ");
    b
}

#[test]
fn alerts_parsed() {
    let data = alert_payload();
    let a = parse_alerts(&data);
    assert_eq!(a.len(), 2);
    assert_eq!(a[0].number, 0);
    assert_eq!(a[1].number, 1);
    assert_eq!(a[0].urgency.iter().collect::<String>(), "Severe");
    assert_eq!(a[0].event.iter().collect::<String>(), "Flood Warning");
    assert_eq!(a[0].sender.iter().collect::<String>(), "w-nws@noaa.gov");
    assert_eq!(a[0].sender_name.iter().collect::<String>(), "NWS Chicago");
    assert_eq!(a[1].instruction.iter().collect::<String>(), "Hold on");
}

#[test]
fn alerts_too_short_refused() {
    assert!(try_parse_alerts(&b"abc".to_vec()).is_none());
    assert_eq!(parse_alerts(&b"no alerts here".to_vec()).len(), 0);
}

#[test]
fn alert_field_without_end_refused() {
    let mut b = b"{ ".to_vec();
    tag(&mut b, "urgenc", 11);
    b.extend_from_slice(b"Severe and no quote after it at all........");
    assert!(try_parse_alerts(&b).is_none());
}

#[test]
fn alert_texts() {
    let data = alert_payload();
    let a = parse_alerts(&data);
    assert_eq!(a[1].simple_text(), "1 | Wind Advisory - Minor | NWS Boston\n");
    let rule = "#".repeat(80);
    assert_eq!(
        a[0].detailed_text(),
        format!("{rule}\nFLOOD\nWARNING\nRain\n fell\nMove up\n{rule}\n")
    );
    assert_eq!(
        alert_listing(&a, "S"),
        "0 | Flood Warning - Severe | NWS Chicago\n1 | Wind Advisory - Minor | NWS Boston\n"
    );
    assert_eq!(alert_listing(&a, "1"), format!("{rule}\nWIND\nGusts\nHold on\n{rule}\n"));
    assert_eq!(alert_listing(&a, "7"), "");
    assert_eq!(alert_listing(&a, "x"), "");
    let empty = AlertData::new();
    assert_eq!(empty.simple_text(), "0 |  -  | \n");
}

fn stations_payload() -> Vec<u8> {
    let mut b = b"{ \"features\": [".to_vec();
    for (id, name) in [("KNYC", "Central Park"), ("KLGA", "LaGuardia Airport")] {
        tag(&mut b, "ier", 7);
        value(&mut b, id, b'"');
        gap(&mut b, 28);
        value(&mut b, name, b'"');
        b.push(b' ');
    }
    b.extend_from_slice(b"]}");
    b
}

#[test]
fn stations_parsed() {
    let s = parse_observation_stations(&stations_payload());
    assert_eq!(s.len(), 2);
    assert_eq!(s[0].id.iter().collect::<String>(), "KNYC");
    assert_eq!(s[0].name.iter().collect::<String>(), "Central Park");
    assert_eq!(s[1].id.iter().collect::<String>(), "KLGA");
    assert_eq!(s[1].observation_url(), "https://api.weather.gov/stations/KLGA/observations/latest");
    assert!(try_parse_observation_stations(&b"ab".to_vec()).is_none());
    let o = ObservationData::new();
    assert!(o.id.is_empty() && o.name.is_empty());
}

#[test]
fn station_link_found() {
    let data = b"....\"observationStations\": \"https://api/stations\",\n".to_vec();
    assert_eq!(station_list_url(&data, 0), "https://api/stations");
    // from position 40 the search finds the `ons` that ends the link itself,
    // and the text after it runs past the end
    assert_eq!(try_station_list_url(&data, 40), None);
    assert_eq!(try_station_list_url(&data, 48), Some(String::new()));
}

fn report_payload() -> Vec<u8> {
    let mut b = b"{ \"rawMessage\": \"KNYC 121651Z\",\n".to_vec();
    for (name, unit, val) in [("temperature", "degC", "12.5"), ("windSpeed", "km_h-1", "null")] {
        b.extend_from_slice(format!("\"{name}\": {{").as_bytes());
        b.extend_from_slice(b"\"unitCode\": \"wmoUnit:");
        value(&mut b, unit, b'"');
        gap(&mut b, 24);
        value(&mut b, val, b',');
        b.extend_from_slice(b"\n}, ");
    }
    b.extend_from_slice(b"\"base\": {\"a\": 1}, \"temperature2\": {\"unitCode\": \"wmoUnit:x\"}\n}\n");
    b
}

#[test]
fn observation_report_read() {
    let data = report_payload();
    assert_eq!(
        observation_report_text(&data),
        "KNYC 121651Z\ntemperature : 12.5 degC\nwindSpeed : null km_h-1\n"
    );
}

#[test]
fn observation_report_without_message_is_empty() {
    assert_eq!(observation_report_text(&b"{ \"x\": 1 }".to_vec()), "");
    assert!(try_observation_report(&b"ab".to_vec()).is_none());
}
