use rwt::cache::Cache;
use rwt::location::{
    alerts_url, find_between_in_data, find_county, forecast_url, get_option, input_to_zip,
    points_url, printlocal_text, try_find_between_in_data, try_find_county, try_find_zip,
    try_get_option, try_zip_to_gps, zip_to_gps, Pos,
};

fn table(text: &str) -> Cache<u8> {
    let mut c: Cache<u8> = Cache::new(1);
    c.get_mut_data_pointer().extend_from_slice(text.as_bytes());
    c.set_length();
    c
}

const TABLE: &str = "zip,lat,long\n12345,40.712,  ,-74.0060,NY\n60601,41.880,  ,-87.6270,IL\n";

#[test]
fn zip_scanner_takes_first_five_characters() {
    assert_eq!(input_to_zip("12345"), [b'1', b'2', b'3', b'4', b'5']);
    assert_eq!(input_to_zip("98765-4321"), [b'9', b'8', b'7', b'6', b'5']);
    assert_eq!(input_to_zip("123"), [0, 0, 0, 0, 0]);
    assert_eq!(input_to_zip(""), [0, 0, 0, 0, 0]);
}

#[test]
fn zip_found_in_table() {
    let c = table(TABLE);
    assert_eq!(try_find_zip("12345", &c), Some(Some(13)));
    let p = zip_to_gps("12345", &c);
    assert!(p.is_valid);
    assert_eq!(p.lat, "40.712");
    // an eighth longitude character `0` reads as `1`
    assert_eq!(p.lon, "-74.0061");
    assert_eq!(p.county, "");
    let q = zip_to_gps("60601", &c);
    assert_eq!(q.lat, "41.881");
    assert_eq!(q.lon, "-87.6271");
}

#[test]
fn zip_missing_gives_invalid_place() {
    let c = table(TABLE);
    assert_eq!(try_find_zip("99999", &c), Some(None));
    let p = zip_to_gps("99999", &c);
    assert!(!p.is_valid());
    assert_eq!(p.lat, "");
    assert_eq!(p.lon, "");
}

#[test]
fn zip_line_cut_short_is_refused() {
    let c = table("zip,lat,long\n12345,40.7");
    assert!(try_zip_to_gps("12345", &c).is_none());
}

#[test]
fn zip_input_with_few_characters_is_refused() {
    let c = table(TABLE);
    // five bytes but three characters
    assert!(try_zip_to_gps("ééa", &c).is_none());
}

#[test]
fn latitude_zero_becomes_one() {
    let c = table("zip,lat,long\n54321,40.710,  ,-74.0065,NY\n");
    let p = zip_to_gps("54321", &c);
    assert_eq!(p.lat, "40.711");
    assert_eq!(p.lon, "-74.0065");
}

fn padded(prefix_len: usize, body: &str) -> Vec<u8> {
    let mut v = vec![b'.'; prefix_len];
    v.extend_from_slice(body.as_bytes());
    v
}

#[test]
fn between_finds_link() {
    let data = padded(20, "\"forecast\": \"https://api/f\",\n\"forecastHourly\": \"https://api/h\",\n");
    assert_eq!(find_between_in_data("forecast", b'"', &data, 0), "https://api/f");
    assert_eq!(find_between_in_data("forecastHourly", b'"', &data, 0), "https://api/h");
    assert_eq!(find_between_in_data("missing", b'"', &data, 0), "");
}

#[test]
fn between_short_payload_is_error_text() {
    assert_eq!(find_between_in_data("x", b'"', &b"short".to_vec(), 0), "ERROR : NO DATA");
}

#[test]
fn between_start_past_end_is_refused() {
    let data = padded(20, "\"forecast\": \"u\"");
    assert_eq!(try_find_between_in_data("forecast", b'"', &data, 500), None);
}

#[test]
fn get_option_picks_links() {
    let data = padded(
        1700,
        "\"forecast\": \"https://api/f\",\n\"forecastHourly\": \"https://api/h\",\n\"x\": 1\n",
    );
    assert_eq!(get_option(1, &data), "https://api/f");
    assert_eq!(get_option(2, &data), "https://api/h");
    assert_eq!(try_get_option(3, &data), Some(String::from("/f\",")));
}

#[test]
fn county_code_read() {
    let body = "\"county\": \"https://api.weather.gov/zones/county/NYC061\",\n";
    let data = padded(body.len() + 4, body);
    assert_eq!(find_county(&data), "NYC061");
}

#[test]
fn county_missing_is_spaces() {
    let data = padded(40, "nothing here at all");
    assert_eq!(find_county(&data), "      ");
    assert_eq!(find_county(&b"tiny".to_vec()), "ERROR : NO DATA");
}

#[test]
fn county_cut_short_is_refused() {
    let body = "\"county\": \"https://api.weather.gov/zones/county/NY";
    let data = padded(body.len() + 4, body);
    assert_eq!(try_find_county(&data), None);
}

#[test]
fn location_text_prints_city_and_state() {
    let body = "\"city\": \"Springfield\",\n\"state\": \"IL\",\n}}}}}}";
    let data = padded(body.len(), body);
    assert_eq!(printlocal_text(&data), "#LOCATION#\ncity: Springfield\nstate: IL\n");
    assert_eq!(printlocal_text(&b"short".to_vec()), "#LOCATION#\nERROR : NO DATA FOR LOCATION...\n");
}

#[test]
fn urls_are_built() {
    let p = Pos {
        is_valid: true,
        lat: String::from("40.712"),
        lon: String::from("-74.0061"),
        county: String::from("NYC061"),
    };
    assert_eq!(points_url(&p), "https://api.weather.gov/points/40.712,-74.0061");
    assert_eq!(alerts_url("NYC061"), "https://api.weather.gov/alerts/active/zone/NYC061");
    assert_eq!(forecast_url("https://api/f", "si"), "https://api/f?units=si");
    assert_eq!(p.display_text(), "Latitude : 40.712 | Longitude : -74.0061");
}

#[test]
fn typed_zip_finds_same_place_as_argument() {
    let c = table(TABLE);
    let line = rwt::text::strip_line_end("12345\n");
    assert_eq!(line, "12345");
    assert_eq!(rwt::text::strip_line_end("12345\r\n"), "12345");
    let typed = zip_to_gps(&line, &c);
    let arg = zip_to_gps("12345", &c);
    assert_eq!(typed.lat, arg.lat);
    assert_eq!(typed.lon, arg.lon);
    assert_eq!(typed.is_valid, arg.is_valid);
}
