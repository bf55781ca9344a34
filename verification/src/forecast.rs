use vstd::prelude::*;

use crate::scan::{field, lemma_first_stop, matches_at, read_field, window_is};
use crate::text::{
    bytes_as_chars, push_bytes_as_chars, push_str_chars, string_from_chars, trim,
    trim_chars,
};

verus! {

/// Forecast payloads shorter than this are taken as invalid and give no forecast.
pub const FORECAST_MIN_BYTES: usize = 10000;

/// One period of a forecast, each field as the bytes read from the payload.
pub struct ForecastData {
    pub number: Vec<u8>,
    pub name: Vec<u8>,
    pub temp: Vec<u8>,
    pub temp_unit: Vec<u8>,
    pub precip_chance: Vec<u8>,
    pub wind_speed: Vec<u8>,
    pub wind_dir: Vec<u8>,
    pub short_forecast: Vec<u8>,
    pub detailed_forcast: Vec<u8>,
}

/// The contents of a `ForecastData`.
pub struct ForecastView {
    pub number: Seq<u8>,
    pub name: Seq<u8>,
    pub temp: Seq<u8>,
    pub temp_unit: Seq<u8>,
    pub precip_chance: Seq<u8>,
    pub wind_speed: Seq<u8>,
    pub wind_dir: Seq<u8>,
    pub short_forecast: Seq<u8>,
    pub detailed_forcast: Seq<u8>,
}

impl View for ForecastData {
    type V = ForecastView;

    open spec fn view(&self) -> ForecastView {
        ForecastView {
            number: self.number@,
            name: self.name@,
            temp: self.temp@,
            temp_unit: self.temp_unit@,
            precip_chance: self.precip_chance@,
            wind_speed: self.wind_speed@,
            wind_dir: self.wind_dir@,
            short_forecast: self.short_forecast@,
            detailed_forcast: self.detailed_forcast@,
        }
    }
}

/// The contents of each forecast in a list.
pub open spec fn forecast_views(v: Seq<ForecastData>) -> Seq<ForecastView> {
    v.map_values(|f: ForecastData| f@)
}

/// A forecast with the given number and name and every other field empty.
pub open spec fn started_forecast(number: Seq<u8>, name: Seq<u8>) -> ForecastView {
    ForecastView {
        number,
        name,
        temp: Seq::empty(),
        temp_unit: Seq::empty(),
        precip_chance: Seq::empty(),
        wind_speed: Seq::empty(),
        wind_dir: Seq::empty(),
        short_forecast: Seq::empty(),
        detailed_forcast: Seq::empty(),
    }
}

/// `f` with `temp` and `unit` appended to its temperature fields.
pub open spec fn with_temperature(f: ForecastView, temp: Seq<u8>, unit: Seq<u8>) -> ForecastView {
    ForecastView { temp: f.temp + temp, temp_unit: f.temp_unit + unit, ..f }
}

/// `f` with precipitation and wind readings appended.
pub open spec fn with_weather(
    f: ForecastView,
    precip: Seq<u8>,
    speed: Seq<u8>,
    dir: Seq<u8>,
) -> ForecastView {
    ForecastView {
        precip_chance: f.precip_chance + precip,
        wind_speed: f.wind_speed + speed,
        wind_dir: f.wind_dir + dir,
        ..f
    }
}

/// `f` with the summaries appended.
pub open spec fn with_summary(f: ForecastView, short: Seq<u8>, detailed: Seq<u8>) -> ForecastView {
    ForecastView {
        short_forecast: f.short_forecast + short,
        detailed_forcast: f.detailed_forcast + detailed,
        ..f
    }
}

/// `number`
pub open spec fn number_tag() -> Seq<u8> {
    seq![110u8, 117, 109, 98, 101, 114]
}

/// `temper`
pub open spec fn temperature_tag() -> Seq<u8> {
    seq![116u8, 101, 109, 112, 101, 114]
}

/// `value"`
pub open spec fn value_tag() -> Seq<u8> {
    seq![118u8, 97, 108, 117, 101, 34]
}

/// `shortF`
pub open spec fn short_tag() -> Seq<u8> {
    seq![115u8, 104, 111, 114, 116, 70]
}

/// Applies `g` to the last forecast of `acc`; an empty list stays empty, but
/// only when nothing is to be written (writing into no forecast fails).
pub open spec fn update_last(
    acc: Seq<ForecastView>,
    nothing_written: bool,
    updated: ForecastView,
) -> Option<Seq<ForecastView>> {
    if acc.len() == 0 {
        if nothing_written {
            Some(acc)
        } else {
            None
        }
    } else {
        Some(acc.update(acc.len() - 1, updated))
    }
}

/// The scan of a forecast payload from position `index`, given the forecasts
/// found so far and whether the current forecast still waits for its
/// temperature. The scan moves one byte at a time and ends exactly when it
/// reaches the position six bytes before the end; at each position it looks
/// for one of four six-byte tags:
/// - `number`: a new forecast, whose number runs from 8 bytes after the tag to
///   the next `,`, and whose name starts 27 bytes after that comma and runs to
///   the next `"`;
/// - `temper` (only while the temperature is awaited): the temperature, from 13
///   bytes after the tag to the next `,`, and the unit, from 38 bytes after that
///   comma to the next `"`;
/// - `value"` (once the temperature was read): the precipitation chance, from 7
///   bytes after the tag to the next line feed, the wind speed, from 50 bytes
///   after that to the next `"`, and the wind direction, from 37 bytes after
///   that to the next `"`;
/// - `shortF`: the short forecast, from 17 bytes after the tag to the next `"`,
///   and the detailed forecast, from 40 bytes after that to the next `"`.
/// The readings are appended to the fields of the last forecast, and the scan
/// goes on one byte after the last `"` or separator read.
/// None when the payload does not allow the scan to go through: a field with no
/// terminator, a tag window running past the end, or readings with no forecast
/// to hold them.
pub open spec fn forecast_scan(
    d: Seq<u8>,
    index: int,
    acc: Seq<ForecastView>,
    temp_pending: bool,
) -> Option<Seq<ForecastView>>
    decreases d.len() - index,
{
    if index == d.len() - 6 {
        Some(acc)
    } else if index < 0 || index + 6 > d.len() {
        None
    } else if window_is(d, index, number_tag()) {
        proof {
            lemma_first_stop(d, index + 8, 44u8);
        }
        match field(d, index + 8, 44u8) {
            None => None,
            Some((number, e1)) => {
                proof {
                    lemma_first_stop(d, e1 + 27, 34u8);
                }
                match field(d, e1 + 27, 34u8) {
                    None => None,
                    Some((name, e2)) => forecast_scan(
                        d,
                        e2 + 1,
                        acc.push(started_forecast(number, name)),
                        true,
                    ),
                }
            },
        }
    } else if window_is(d, index, temperature_tag()) && temp_pending {
        proof {
            lemma_first_stop(d, index + 13, 44u8);
        }
        match field(d, index + 13, 44u8) {
            None => None,
            Some((temp, e1)) => {
                proof {
                    lemma_first_stop(d, e1 + 38, 34u8);
                }
                match field(d, e1 + 38, 34u8) {
                    None => None,
                    Some((unit, e2)) => match update_last(
                        acc,
                        temp.len() == 0 && unit.len() == 0,
                        with_temperature(acc.last(), temp, unit),
                    ) {
                        None => None,
                        Some(next) => forecast_scan(d, e2 + 1, next, false),
                    },
                }
            },
        }
    } else if window_is(d, index, value_tag()) && !temp_pending {
        proof {
            lemma_first_stop(d, index + 7, 10u8);
        }
        match field(d, index + 7, 10u8) {
            None => None,
            Some((precip, e1)) => {
                proof {
                    lemma_first_stop(d, e1 + 50, 34u8);
                }
                match field(d, e1 + 50, 34u8) {
                    None => None,
                    Some((speed, e2)) => {
                        proof {
                            lemma_first_stop(d, e2 + 37, 34u8);
                        }
                        match field(d, e2 + 37, 34u8) {
                            None => None,
                            Some((dir, e3)) => match update_last(
                                acc,
                                precip.len() == 0 && speed.len() == 0 && dir.len() == 0,
                                with_weather(acc.last(), precip, speed, dir),
                            ) {
                                None => None,
                                Some(next) => forecast_scan(d, e3 + 1, next, temp_pending),
                            },
                        }
                    },
                }
            },
        }
    } else if window_is(d, index, short_tag()) {
        proof {
            lemma_first_stop(d, index + 17, 34u8);
        }
        match field(d, index + 17, 34u8) {
            None => None,
            Some((short, e1)) => {
                proof {
                    lemma_first_stop(d, e1 + 40, 34u8);
                }
                match field(d, e1 + 40, 34u8) {
                    None => None,
                    Some((detailed, e2)) => match update_last(
                        acc,
                        short.len() == 0 && detailed.len() == 0,
                        with_summary(acc.last(), short, detailed),
                    ) {
                        None => None,
                        Some(next) => forecast_scan(d, e2 + 1, next, temp_pending),
                    },
                }
            },
        }
    } else {
        forecast_scan(d, index + 1, acc, temp_pending)
    }
}

/// The forecasts a payload holds: none for a payload shorter than
/// `FORECAST_MIN_BYTES`, else what the scan from the start gives.
pub open spec fn forecast_parse(d: Seq<u8>) -> Option<Seq<ForecastView>> {
    if d.len() < FORECAST_MIN_BYTES {
        Some(Seq::empty())
    } else {
        forecast_scan(d, 0, Seq::empty(), true)
    }
}

/// Reads two fields: the first from `index + off1` up to `stop1`, the second
/// from `off2` after that up to `stop2`.
fn read_two(d: &Vec<u8>, index: usize, off1: usize, stop1: u8, off2: usize, stop2: u8) -> (r: Option<
    (Vec<u8>, Vec<u8>, usize),
>)
    requires
        off2 > 0,
    ensures
        match field(d@, index + off1, stop1) {
            None => r is None,
            Some((a, e1)) => match field(d@, e1 + off2, stop2) {
                None => r is None,
                Some((b, e2)) => r matches Some((x, y, e)) && x@ == a && y@ == b && e == e2
                    && index + off1 <= e1 < e2 < d@.len(),
            },
        },
{
    proof {
        lemma_first_stop(d@, index + off1, stop1);
    }
    match read_field(d, index, off1, stop1) {
        None => None,
        Some((a, e1)) => {
            proof {
                lemma_first_stop(d@, e1 + off2, stop2);
            }
            match read_field(d, e1, off2, stop2) {
                None => None,
                Some((b, e2)) => Some((a, b, e2)),
            }
        },
    }
}

/// Puts `f` in place of the last forecast.
fn replace_last(v: &mut Vec<ForecastData>, f: ForecastData)
    requires
        old(v)@.len() > 0,
    ensures
        forecast_views(final(v)@) == forecast_views(old(v)@).update(old(v)@.len() - 1, f@),
{
    let ghost before = forecast_views(v@);
    v.pop();
    v.push(f);
    assert(forecast_views(v@) =~= before.update(before.len() - 1, f@));
}

/// The forecasts a payload holds, or None where the payload does not allow the
/// scan to go through (see `forecast_scan`).
pub fn try_parse_forcast(data: &Vec<u8>) -> (r: Option<Vec<ForecastData>>)
    ensures
        match forecast_parse(data@) {
            None => r is None,
            Some(views) => r matches Some(v) && forecast_views(v@) == views,
        },
{
    let mut forecasts: Vec<ForecastData> = Vec::new();
    if data.len() < FORECAST_MIN_BYTES {
        assert(forecast_views(forecasts@) =~= Seq::<ForecastView>::empty());
        return Some(forecasts);
    }
    let n = data.len();
    let mut index: usize = 0;
    let mut temp_pending = true;
    assert(forecast_views(forecasts@) =~= Seq::<ForecastView>::empty());
    loop
        invariant
            n == data@.len(),
            n >= FORECAST_MIN_BYTES,
            index <= n,
            forecast_parse(data@) == forecast_scan(
                data@,
                index as int,
                forecast_views(forecasts@),
                temp_pending,
            ),
        decreases n - index,
    {
        let ghost acc = forecast_views(forecasts@);
        if index == n - 6 {
            return Some(forecasts);
        }
        if index > n - 6 {
            return None;
        }
        if matches_at(data, index, &[110u8, 117, 109, 98, 101, 114]) {
            assert(window_is(data@, index as int, number_tag()));
            match read_two(data, index, 8, 44, 27, 34) {
                None => return None,
                Some((number, name, e2)) => {
                    let f = ForecastData {
                        number,
                        name,
                        temp: Vec::new(),
                        temp_unit: Vec::new(),
                        precip_chance: Vec::new(),
                        wind_speed: Vec::new(),
                        wind_dir: Vec::new(),
                        short_forecast: Vec::new(),
                        detailed_forcast: Vec::new(),
                    };
                    assert(f@ == started_forecast(f.number@, f.name@));
                    forecasts.push(f);
                    assert(forecast_views(forecasts@) =~= acc.push(f@));
                    temp_pending = true;
                    index = e2 + 1;
                },
            }
        } else if temp_pending && matches_at(data, index, &[116u8, 101, 109, 112, 101, 114]) {
            assert(window_is(data@, index as int, temperature_tag()));
            match read_two(data, index, 13, 44, 38, 34) {
                None => return None,
                Some((mut temp, mut unit, e2)) => {
                    let k = forecasts.len();
                    if k == 0 {
                        if temp.len() > 0 || unit.len() > 0 {
                            return None;
                        }
                    } else {
                        let mut f = forecasts.pop().unwrap();
                        assert(f@ == acc.last());
                        let ghost (t, u) = (temp@, unit@);
                        f.temp.append(&mut temp);
                        f.temp_unit.append(&mut unit);
                        assert(f@ == with_temperature(acc.last(), t, u));
                        forecasts.push(f);
                        assert(forecast_views(forecasts@) =~= acc.update(acc.len() - 1, f@));
                    }
                    temp_pending = false;
                    index = e2 + 1;
                },
            }
        } else if !temp_pending && matches_at(data, index, &[118u8, 97, 108, 117, 101, 34]) {
            assert(window_is(data@, index as int, value_tag()));
            match read_two(data, index, 7, 10, 50, 34) {
                None => return None,
                Some((mut precip, mut speed, e2)) => {
                    proof {
                        lemma_first_stop(data@, e2 + 37, 34u8);
                    }
                    match read_field(data, e2, 37, 34) {
                        None => return None,
                        Some((mut dir, e3)) => {
                            let k = forecasts.len();
                            if k == 0 {
                                if precip.len() > 0 || speed.len() > 0 || dir.len() > 0 {
                                    return None;
                                }
                            } else {
                                let mut f = forecasts.pop().unwrap();
                                assert(f@ == acc.last());
                                let ghost (p, s, w) = (precip@, speed@, dir@);
                                f.precip_chance.append(&mut precip);
                                f.wind_speed.append(&mut speed);
                                f.wind_dir.append(&mut dir);
                                assert(f@ == with_weather(acc.last(), p, s, w));
                                forecasts.push(f);
                                assert(forecast_views(forecasts@) =~= acc.update(
                                    acc.len() - 1,
                                    f@,
                                ));
                            }
                            index = e3 + 1;
                        },
                    }
                },
            }
        } else if matches_at(data, index, &[115u8, 104, 111, 114, 116, 70]) {
            assert(window_is(data@, index as int, short_tag()));
            assert(!window_is(data@, index as int, number_tag()));
            match read_two(data, index, 17, 34, 40, 34) {
                None => return None,
                Some((mut short, mut detailed, e2)) => {
                    let k = forecasts.len();
                    if k == 0 {
                        if short.len() > 0 || detailed.len() > 0 {
                            return None;
                        }
                    } else {
                        let mut f = forecasts.pop().unwrap();
                        assert(f@ == acc.last());
                        let ghost (a, b) = (short@, detailed@);
                        f.short_forecast.append(&mut short);
                        f.detailed_forcast.append(&mut detailed);
                        assert(f@ == with_summary(acc.last(), a, b));
                        forecasts.push(f);
                        assert(forecast_views(forecasts@) =~= acc.update(acc.len() - 1, f@));
                    }
                    index = e2 + 1;
                },
            }
        } else {
            index = index + 1;
        }
    }
}

/// The error lines printed for a forecast payload shorter than
/// `FORECAST_MIN_BYTES` (none for a longer one).
pub open spec fn forecast_warning(d: Seq<u8>) -> Seq<char> {
    if d.len() < FORECAST_MIN_BYTES {
        "ERROR : Forcast data may be invalid\n"@ + "ERROR : Log Option unavalible... No log will be made...\n"@
    } else {
        Seq::empty()
    }
}

/// The error lines printed for a forecast payload (see `forecast_warning`).
pub fn forecast_warning_text(data: &Vec<u8>) -> (s: String)
    ensures
        s@ == forecast_warning(data@),
{
    let mut out: Vec<char> = Vec::new();
    if data.len() < FORECAST_MIN_BYTES {
        push_str_chars(&mut out, "ERROR : Forcast data may be invalid\n");
        push_str_chars(&mut out, "ERROR : Log Option unavalible... No log will be made...\n");
    }
    assert(out@ =~= forecast_warning(data@));
    string_from_chars(&out)
}

/// The forecasts a payload holds (see `forecast_parse`).
pub fn parse_forcast(data: &Vec<u8>) -> (r: Vec<ForecastData>)
    requires
        forecast_parse(data@) is Some,
    ensures
        forecast_views(r@) == forecast_parse(data@).unwrap(),
{
    match try_parse_forcast(data) {
        Some(v) => v,
        None => Vec::new(),
    }
}

/// The one-line summary of a forecast: number, name, temperature and unit,
/// precipitation chance, wind speed and direction, and the short forecast.
pub open spec fn simple_text(f: ForecastView) -> Seq<char> {
    bytes_as_chars(f.number) + " | "@ + bytes_as_chars(f.name) + " | "@ + bytes_as_chars(f.temp)
        + bytes_as_chars(f.temp_unit) + " | "@ + bytes_as_chars(f.precip_chance) + "% | "@
        + bytes_as_chars(f.wind_speed) + " - "@ + bytes_as_chars(f.wind_dir) + " | "@
        + bytes_as_chars(f.short_forecast) + "\n"@
}

/// The detailed view of a forecast over three lines.
pub open spec fn detailed_text(f: ForecastView) -> Seq<char> {
    bytes_as_chars(f.number) + " | "@ + bytes_as_chars(f.name) + "\n"@ + " Temperature : "@
        + bytes_as_chars(f.temp) + bytes_as_chars(f.temp_unit) + " | Precipitation Chance"@
        + bytes_as_chars(f.precip_chance) + "% | Wind Info "@ + bytes_as_chars(f.wind_speed)
        + " - "@ + bytes_as_chars(f.wind_dir) + "\n"@ + "Forecast : "@ + bytes_as_chars(
        f.detailed_forcast,
    ) + "\n"@
}

/// Whether a forecast is the one picked by `detail`: its number, trimmed, is
/// `detail`.
pub open spec fn is_picked(f: ForecastView, detail: Seq<char>) -> bool {
    trim(bytes_as_chars(f.number)) == detail
}

/// One typed text picks forecasts of one number only: when it picks two
/// forecasts, their numbers, without surrounding white space, are the same
/// text, and that text is what was typed.
pub proof fn law_pick_is_by_whole_number(f1: ForecastView, f2: ForecastView, detail: Seq<char>)
    requires
        is_picked(f1, detail),
        is_picked(f2, detail),
    ensures
        trim(bytes_as_chars(f1.number)) == trim(bytes_as_chars(f2.number)),
        trim(bytes_as_chars(f1.number)) == detail,
{
}

/// Typing a forecast's number, as the listing shows it without surrounding
/// white space, picks that forecast for the detailed view.
pub proof fn law_shown_number_picks_forecast(f: ForecastView)
    ensures
        is_picked(f, trim(bytes_as_chars(f.number))),
{
}

/// The text of a forecast listing: each forecast in its one-line form, except
/// the one picked by `detail`, which is shown in detail between empty lines.
pub open spec fn listing_text(fs: Seq<ForecastView>, detail: Seq<char>) -> Seq<char>
    decreases fs.len(),
{
    if fs.len() == 0 {
        Seq::empty()
    } else {
        let f = fs.last();
        listing_text(fs.drop_last(), detail) + if is_picked(f, detail) {
            "\n"@ + detailed_text(f) + "\n"@
        } else {
            simple_text(f)
        }
    }
}

impl ForecastData {
    /// A forecast with every field empty.
    pub fn new() -> (f: ForecastData)
        ensures
            f@ == started_forecast(Seq::empty(), Seq::empty()),
    {
        let f = ForecastData {
            number: Vec::new(),
            name: Vec::new(),
            temp: Vec::new(),
            temp_unit: Vec::new(),
            precip_chance: Vec::new(),
            wind_speed: Vec::new(),
            wind_dir: Vec::new(),
            short_forecast: Vec::new(),
            detailed_forcast: Vec::new(),
        };
        assert(f@ =~= started_forecast(Seq::empty(), Seq::empty()));
        f
    }

    fn push_simple(&self, out: &mut Vec<char>)
        ensures
            final(out)@ == old(out)@ + simple_text(self@),
    {
        let ghost start = out@;
        push_bytes_as_chars(out, &self.number);
        push_str_chars(out, " | ");
        push_bytes_as_chars(out, &self.name);
        push_str_chars(out, " | ");
        push_bytes_as_chars(out, &self.temp);
        push_bytes_as_chars(out, &self.temp_unit);
        push_str_chars(out, " | ");
        push_bytes_as_chars(out, &self.precip_chance);
        push_str_chars(out, "% | ");
        push_bytes_as_chars(out, &self.wind_speed);
        push_str_chars(out, " - ");
        push_bytes_as_chars(out, &self.wind_dir);
        push_str_chars(out, " | ");
        push_bytes_as_chars(out, &self.short_forecast);
        push_str_chars(out, "\n");
        assert(out@ =~= start + simple_text(self@));
    }

    fn push_detailed(&self, out: &mut Vec<char>)
        ensures
            final(out)@ == old(out)@ + detailed_text(self@),
    {
        let ghost start = out@;
        push_bytes_as_chars(out, &self.number);
        push_str_chars(out, " | ");
        push_bytes_as_chars(out, &self.name);
        push_str_chars(out, "\n");
        push_str_chars(out, " Temperature : ");
        push_bytes_as_chars(out, &self.temp);
        push_bytes_as_chars(out, &self.temp_unit);
        push_str_chars(out, " | Precipitation Chance");
        push_bytes_as_chars(out, &self.precip_chance);
        push_str_chars(out, "% | Wind Info ");
        push_bytes_as_chars(out, &self.wind_speed);
        push_str_chars(out, " - ");
        push_bytes_as_chars(out, &self.wind_dir);
        push_str_chars(out, "\n");
        push_str_chars(out, "Forecast : ");
        push_bytes_as_chars(out, &self.detailed_forcast);
        push_str_chars(out, "\n");
        assert(out@ =~= start + detailed_text(self@));
    }

    /// What the one-line display of this forecast prints.
    pub fn simple_text(&self) -> (s: String)
        ensures
            s@ == simple_text(self@),
    {
        let mut out: Vec<char> = Vec::new();
        self.push_simple(&mut out);
        assert(out@ =~= simple_text(self@));
        string_from_chars(&out)
    }

    /// What the detailed display of this forecast prints.
    pub fn detailed_text(&self) -> (s: String)
        ensures
            s@ == detailed_text(self@),
    {
        let mut out: Vec<char> = Vec::new();
        self.push_detailed(&mut out);
        assert(out@ =~= detailed_text(self@));
        string_from_chars(&out)
    }

    /// Whether `detail` picks this forecast (its trimmed number equals `detail`).
    pub fn is_picked(&self, detail: &str) -> (r: bool)
        ensures
            r == is_picked(self@, detail@),
    {
        let mut num: Vec<char> = Vec::new();
        push_bytes_as_chars(&mut num, &self.number);
        assert(num@ =~= bytes_as_chars(self.number@));
        let t = trim_chars(&num);
        let d = crate::text::str_chars(detail);
        chars_equal(&t, &d)
    }
}

/// Whether two character lists are equal.
pub fn chars_equal(a: &Vec<char>, b: &Vec<char>) -> (r: bool)
    ensures
        r == (a@ == b@),
{
    if a.len() != b.len() {
        return false;
    }
    let n = a.len();
    for i in 0..n
        invariant
            n == a@.len(),
            n == b@.len(),
            forall|j: int| 0 <= j < i ==> a@[j] == b@[j],
    {
        if a[i] != b[i] {
            return false;
        }
    }
    assert(a@ =~= b@);
    true
}

/// The text of a forecast listing for the choice `detail` (see `listing_text`).
pub fn forecast_listing(data: &Vec<ForecastData>, detail: &str) -> (s: String)
    ensures
        s@ == listing_text(forecast_views(data@), detail@),
{
    let mut out: Vec<char> = Vec::new();
    let ghost fs = forecast_views(data@);
    for i in 0..data.len()
        invariant
            fs == forecast_views(data@),
            out@ == listing_text(fs.take(i as int), detail@),
    {
        let ghost before = out@;
        let d = &data[i];
        if d.is_picked(detail) {
            push_str_chars(&mut out, "\n");
            d.push_detailed(&mut out);
            push_str_chars(&mut out, "\n");
        } else {
            d.push_simple(&mut out);
        }
        assert(fs.take(i + 1).drop_last() =~= fs.take(i as int));
        assert(fs.take(i + 1).last() == d@);
        assert(out@ =~= listing_text(fs.take(i + 1), detail@));
    }
    assert(fs.take(data@.len() as int) =~= fs);
    string_from_chars(&out)
}

} // verus!
