use vstd::prelude::*;

use crate::scan::{
    byte_lists, field, field_chain, lemma_field_chain, lemma_first_stop, matches_at, read_chain,
    read_field, window_is,
};
use crate::text::{
    ascii_upper, bytes_as_chars, push_bytes_as_chars, push_chars, push_str_chars, str_chars,
    string_from_chars, to_ascii_upper, trim, trim_chars,
};

verus! {

/// An observation station: its identifier and its name.
pub struct ObservationData {
    pub id: Vec<char>,
    pub name: Vec<char>,
}

/// The contents of an `ObservationData`.
pub struct StationView {
    pub id: Seq<char>,
    pub name: Seq<char>,
}

impl View for ObservationData {
    type V = StationView;

    open spec fn view(&self) -> StationView {
        StationView { id: self.id@, name: self.name@ }
    }
}

/// The contents of each station in a list.
pub open spec fn station_views(v: Seq<ObservationData>) -> Seq<StationView> {
    v.map_values(|o: ObservationData| o@)
}

/// `ons`
pub open spec fn stations_tag() -> Seq<u8> {
    seq![111u8, 110, 115]
}

/// `ier`
pub open spec fn identifier_tag() -> Seq<u8> {
    seq![105u8, 101, 114]
}

/// The first position from `i` up to (not including) `end` where the bytes
/// spell `pat`.
pub open spec fn tag_search(d: Seq<u8>, pat: Seq<u8>, i: int, end: int) -> Option<int>
    decreases end - i,
{
    if i >= end {
        None
    } else if window_is(d, i, pat) {
        Some(i)
    } else {
        tag_search(d, pat, i + 1, end)
    }
}

/// The station list link in a point payload: the text from 7 bytes after the
/// first `ons` at or after `skip` up to the next `"` (empty when there is no
/// `ons` before the last three bytes). None for a payload shorter than three
/// bytes, or when the link has no closing `"`.
pub open spec fn stations_link(d: Seq<u8>, skip: int) -> Option<Seq<char>> {
    if d.len() < 3 {
        None
    } else {
        match tag_search(d, stations_tag(), skip, d.len() - 3) {
            None => Some(Seq::empty()),
            Some(i) => match field(d, i + 7, 34u8) {
                None => None,
                Some((bytes, e)) => Some(bytes_as_chars(bytes)),
            },
        }
    }
}

/// The station list link in a point payload, or None where that is none (see
/// `stations_link`).
pub fn try_station_list_url(data: &Vec<u8>, skip: usize) -> (r: Option<String>)
    ensures
        match stations_link(data@, skip as int) {
            None => r is None,
            Some(t) => r matches Some(s) && s@ == t,
        },
{
    let n = data.len();
    if n < 3 {
        return None;
    }
    let end = n - 3;
    let mut index = skip;
    while index < end
        invariant
            n == data@.len(),
            n >= 3,
            end == n - 3,
            tag_search(data@, stations_tag(), skip as int, end as int) == tag_search(
                data@,
                stations_tag(),
                index as int,
                end as int,
            ),
        decreases end - index,
    {
        if matches_at(data, index, &[111u8, 110, 115]) {
            assert(window_is(data@, index as int, stations_tag()));
            proof {
                lemma_first_stop(data@, index + 7, 34u8);
            }
            match read_field(data, index, 7, 34) {
                None => return None,
                Some((bytes, e)) => {
                    let mut out: Vec<char> = Vec::new();
                    push_bytes_as_chars(&mut out, &bytes);
                    assert(out@ =~= bytes_as_chars(bytes@));
                    return Some(string_from_chars(&out));
                },
            }
        }
        index = index + 1;
    }
    Some(string_from_chars(&Vec::new()))
}

/// The station list link in a point payload (see `stations_link`).
pub fn station_list_url(data: &Vec<u8>, skip: usize) -> (r: String)
    requires
        stations_link(data@, skip as int) is Some,
    ensures
        r@ == stations_link(data@, skip as int).unwrap(),
{
    match try_station_list_url(data, skip) {
        Some(s) => s,
        None => string_from_chars(&Vec::new()),
    }
}

/// Where the identifier and the name of a station start: 7 bytes after the
/// tag, and 28 bytes after the `"` that closes the identifier.
pub open spec fn station_offsets() -> Seq<usize> {
    seq![7usize, 28]
}

/// The scan of a station list payload from `index`: it stops once fewer than
/// four bytes are left from `index`; where the bytes spell `ier` it reads a
/// station (identifier and name, each up to a `"`) and goes on one byte after
/// the name; elsewhere it moves one byte on. None when a field has no closing
/// `"`.
pub open spec fn station_scan(d: Seq<u8>, index: int, acc: Seq<StationView>) -> Option<
    Seq<StationView>,
>
    decreases d.len() - index,
{
    if index >= d.len() - 3 || index < 0 {
        Some(acc)
    } else if window_is(d, index, identifier_tag()) {
        proof {
            lemma_field_chain(d, index, station_offsets(), 34u8);
        }
        match field_chain(d, index, station_offsets(), 34u8) {
            None => None,
            Some((fs, end)) => station_scan(
                d,
                end + 1,
                acc.push(StationView { id: bytes_as_chars(fs[0]), name: bytes_as_chars(fs[1]) }),
            ),
        }
    } else {
        station_scan(d, index + 1, acc)
    }
}

/// The stations a station list payload holds; None for a payload shorter than
/// three bytes (no scan is possible there).
pub open spec fn station_parse(d: Seq<u8>) -> Option<Seq<StationView>> {
    if d.len() < 3 {
        None
    } else {
        station_scan(d, 0, Seq::empty())
    }
}

/// The stations a station list payload holds, or None where that is none (see
/// `station_parse`).
pub fn try_parse_observation_stations(data: &Vec<u8>) -> (r: Option<Vec<ObservationData>>)
    ensures
        match station_parse(data@) {
            None => r is None,
            Some(views) => r matches Some(v) && station_views(v@) == views,
        },
{
    let n = data.len();
    if n < 3 {
        return None;
    }
    let mut output: Vec<ObservationData> = Vec::new();
    let mut index: usize = 0;
    let offs: [usize; 2] = [7, 28];
    assert(offs@ =~= station_offsets());
    assert(station_views(output@) =~= Seq::<StationView>::empty());
    loop
        invariant
            n == data@.len(),
            n >= 3,
            offs@ == station_offsets(),
            station_parse(data@) == station_scan(data@, index as int, station_views(output@)),
        decreases n - index,
    {
        let ghost acc = station_views(output@);
        if index >= n - 3 {
            return Some(output);
        }
        if matches_at(data, index, &[105u8, 101, 114]) {
            assert(window_is(data@, index as int, identifier_tag()));
            match read_chain(data, index, &offs, 34) {
                None => return None,
                Some((fields, end)) => {
                    let mut id: Vec<char> = Vec::new();
                    push_bytes_as_chars(&mut id, &fields[0]);
                    let mut name: Vec<char> = Vec::new();
                    push_bytes_as_chars(&mut name, &fields[1]);
                    let o = ObservationData { id, name };
                    assert(o@ =~= StationView {
                        id: bytes_as_chars(byte_lists(fields@)[0]),
                        name: bytes_as_chars(byte_lists(fields@)[1]),
                    });
                    output.push(o);
                    assert(station_views(output@) =~= acc.push(o@));
                    index = end + 1;
                },
            }
        } else {
            index = index + 1;
        }
    }
}

/// The stations a station list payload holds (see `station_parse`).
pub fn parse_observation_stations(data: &Vec<u8>) -> (r: Vec<ObservationData>)
    requires
        station_parse(data@) is Some,
    ensures
        station_views(r@) == station_parse(data@).unwrap(),
{
    match try_parse_observation_stations(data) {
        Some(v) => v,
        None => Vec::new(),
    }
}

/// The address of the latest observation of a station.
pub open spec fn observation_link(id: Seq<char>) -> Seq<char> {
    "https://api.weather.gov/stations/"@ + id + "/observations/latest"@
}

impl ObservationData {
    /// A station with empty identifier and name.
    pub fn new() -> (o: ObservationData)
        ensures
            o@.id == Seq::<char>::empty(),
            o@.name == Seq::<char>::empty(),
    {
        ObservationData { id: Vec::new(), name: Vec::new() }
    }

    /// The address of this station's latest observation.
    pub fn observation_url(&self) -> (r: String)
        ensures
            r@ == observation_link(self.id@),
    {
        let mut out: Vec<char> = Vec::new();
        push_str_chars(&mut out, "https://api.weather.gov/stations/");
        push_chars(&mut out, &self.id);
        push_str_chars(&mut out, "/observations/latest");
        assert(out@ =~= observation_link(self.id@));
        string_from_chars(&out)
    }
}

/// How a station is listed: `<ID: `, identifier, ` | `, name, ` >` and a space.
pub open spec fn station_entry(o: StationView) -> Seq<char> {
    "<ID: "@ + o.id + " | "@ + o.name + " >"@ + " "@
}

/// Characters a listed line may reach before a line break starts the next entry.
pub const LINE_LIMIT: usize = 60;

/// The listing of `obs` and the count it ends with, starting from the running
/// count `count`: before each entry, a count of at least `LINE_LIMIT` starts a
/// new line and resets to 0; each entry adds the lengths of identifier and name
/// plus 12.
pub open spec fn station_listing(obs: Seq<StationView>, count: int) -> (Seq<char>, int)
    decreases obs.len(),
{
    if obs.len() == 0 {
        (Seq::empty(), count)
    } else {
        let (t, c) = station_listing(obs.drop_last(), count);
        let o = obs.last();
        let (t2, c2) = if c >= LINE_LIMIT {
            (t + seq!['\n'], 0)
        } else {
            (t, c)
        };
        (t2 + station_entry(o), c2 + o.id.len() + o.name.len() + 12)
    }
}

/// The identifier a user typed: the input trimmed, in ASCII upper case.
pub open spec fn typed_id(input: Seq<char>) -> Seq<char> {
    trim(input).map_values(|c: char| ascii_upper(c))
}

/// The first station in `obs` from position `i` whose identifier is `id`.
pub open spec fn station_with(obs: Seq<StationView>, id: Seq<char>, i: int) -> Option<int>
    decreases obs.len() - i,
{
    if i >= obs.len() || i < 0 {
        None
    } else if obs[i].id == id {
        Some(i)
    } else {
        station_with(obs, id, i + 1)
    }
}

/// The state of the station menu between two inputs: whether a station was
/// shown since the last listing request, and the running length of the
/// current listing line.
pub struct ObservationMenu {
    pub station_found: bool,
    pub count: usize,
}

/// What the station menu does for one input.
pub enum ObservationAction {
    /// Leave the menu.
    Back,
    /// Show the latest observation of the station at `station`, if any, then
    /// print `listing`.
    Show { station: Option<usize>, listing: String },
}

/// Whether `s` is `c` in upper or lower case (a single character).
pub open spec fn is_letter_command(s: Seq<char>, upper: char, lower: char) -> bool {
    s == seq![upper] || s == seq![lower]
}

/// Whether every station's identifier and name are short enough for the
/// running line count not to overflow.
pub open spec fn stations_fit(obs: Seq<StationView>) -> bool {
    forall|i: int|
        #![trigger obs[i]]
        0 <= i < obs.len() ==> obs[i].id.len() + obs[i].name.len() + 72 <= usize::MAX
}

/// One step of the station menu for `input`: `B`/`b` leaves; `S`/`s` asks for
/// the listing again; an input whose trimmed, upper-cased form is a station
/// identifier shows that station; when no station was shown since the last
/// listing request, the listing is printed (continuing the running line
/// count), followed by a line break.
pub open spec fn menu_step(
    found: bool,
    count: int,
    obs: Seq<StationView>,
    input: Seq<char>,
) -> (bool, int, Option<(Option<int>, Seq<char>)>) {
    let found0 = if is_letter_command(input, 'S', 's') {
        false
    } else {
        found
    };
    if is_letter_command(input, 'B', 'b') {
        (found0, count, None)
    } else {
        let station = station_with(obs, typed_id(input), 0);
        let found1 = found0 || station is Some;
        if found1 {
            (found1, count, Some((station, seq!['\n'])))
        } else {
            let (t, c) = station_listing(obs, count);
            (found1, c, Some((station, t + seq!['\n'])))
        }
    }
}

proof fn lemma_station_with_finds(obs: Seq<StationView>, id: Seq<char>, i: int, k: int)
    requires
        0 <= i <= k < obs.len(),
        obs[k].id == id,
    ensures
        station_with(obs, id, i) matches Some(j) && i <= j <= k && obs[j].id == id,
    decreases k - i,
{
    if obs[i].id != id {
        lemma_station_with_finds(obs, id, i + 1, k);
    }
}

/// Typing a station identifier that the listing shows (in upper case, with
/// no white space around it, and other than the back command) brings up a
/// station with that identifier: the first one listed.
pub proof fn law_listed_id_selects_station(found: bool, count: int, obs: Seq<StationView>, k: int)
    requires
        0 <= k < obs.len(),
        obs[k].id.len() > 0,
        !crate::text::is_white_space(obs[k].id[0]),
        !crate::text::is_white_space(obs[k].id.last()),
        forall|i: int| 0 <= i < obs[k].id.len() ==> !('a' <= #[trigger] obs[k].id[i] && obs[k].id[i] <= 'z'),
        !is_letter_command(obs[k].id, 'B', 'b'),
    ensures
        ({
            let (f, c, act) = menu_step(found, count, obs, obs[k].id);
            &&& f
            &&& act matches Some((Some(j), text)) && j <= k && obs[j].id == obs[k].id
        }),
{
    let id = obs[k].id;
    assert(crate::text::trim_start(id) == id);
    assert(crate::text::trim_end(id) == id);
    assert(typed_id(id) =~= id);
    lemma_station_with_finds(obs, id, 0, k);
}

impl ObservationMenu {
    /// The menu before its first input.
    pub fn new() -> (m: ObservationMenu)
        ensures
            !m.station_found,
            m.count == 0,
    {
        ObservationMenu { station_found: false, count: 0 }
    }

    /// Runs one step of the station menu for `input` (see `menu_step`).
    pub fn step(&mut self, observations: &Vec<ObservationData>, input: &str) -> (r: ObservationAction)
        requires
            stations_fit(station_views(observations@)),
        ensures
            ({
                let (f, c, act) = menu_step(
                    old(self).station_found,
                    old(self).count as int,
                    station_views(observations@),
                    input@,
                );
                &&& final(self).station_found == f
                &&& final(self).count == c
                &&& match act {
                    None => r is Back,
                    Some((station, text)) => r matches ObservationAction::Show {
                        station: st,
                        listing,
                    } && listing@ == text && (match station {
                        None => st is None,
                        Some(k) => st matches Some(j) && j == k,
                    }),
                }
            }),
    {
        let ghost obs = station_views(observations@);
        if crate::alerts::is_single(input, 'S') || crate::alerts::is_single(input, 's') {
            self.station_found = false;
        }
        if crate::alerts::is_single(input, 'B') || crate::alerts::is_single(input, 'b') {
            return ObservationAction::Back;
        }
        let chars = str_chars(input);
        let trimmed = trim_chars(&chars);
        let mut buf: Vec<char> = Vec::new();
        for i in 0..trimmed.len()
            invariant
                buf@ == trimmed@.take(i as int).map_values(|c: char| ascii_upper(c)),
        {
            buf.push(to_ascii_upper(trimmed[i]));
            assert(trimmed@.take(i + 1).map_values(|c: char| ascii_upper(c)) =~= buf@);
        }
        assert(trimmed@.take(trimmed@.len() as int) =~= trimmed@);
        assert(buf@ == typed_id(input@));
        let mut station: Option<usize> = None;
        let mut k: usize = 0;
        while k < observations.len() && station.is_none()
            invariant
                k <= observations@.len(),
                obs == station_views(observations@),
                buf@ == typed_id(input@),
                station is None ==> station_with(obs, buf@, 0) == station_with(obs, buf@, k as int),
                station matches Some(j) ==> station_with(obs, buf@, 0) == Some(j as int),
            decreases observations@.len() - k + if station is None {
                1int
            } else {
                0int
            },
        {
            if crate::forecast::chars_equal(&buf, &observations[k].id) {
                station = Some(k);
            } else {
                k = k + 1;
            }
        }
        if station.is_some() {
            self.station_found = true;
        }
        let mut out: Vec<char> = Vec::new();
        if !self.station_found {
            let ghost start_count = self.count as int;
            let mut count = self.count;
            for i in 0..observations.len()
                invariant
                    obs == station_views(observations@),
                    stations_fit(obs),
                    0 <= start_count,
                    (out@, count as int) == station_listing(obs.take(i as int), start_count),
            {
                let ghost sub = obs.take(i + 1);
                assert(sub.drop_last() =~= obs.take(i as int));
                assert(sub.last() == obs[i as int]);
                let o = &observations[i];
                assert(o.id@.len() + o.name@.len() + 72 <= usize::MAX) by {
                    assert(obs[i as int] == o@);
                }
                if count >= LINE_LIMIT {
                    count = 0;
                    out.push('\n');
                }
                push_str_chars(&mut out, "<ID: ");
                push_chars(&mut out, &o.id);
                push_str_chars(&mut out, " | ");
                push_chars(&mut out, &o.name);
                push_str_chars(&mut out, " >");
                push_str_chars(&mut out, " ");
                count = count + o.id.len() + o.name.len() + 12;
                assert(out@ =~= station_listing(sub, start_count).0);
            }
            assert(obs.take(observations@.len() as int) =~= obs);
            self.count = count;
        }
        out.push('\n');
        ObservationAction::Show { station, listing: string_from_chars(&out) }
    }
}

/// `age`
pub open spec fn message_tag() -> Seq<u8> {
    seq![97u8, 103, 101]
}

/// `: {`
pub open spec fn object_tag() -> Seq<u8> {
    seq![58u8, 32, 123]
}

/// `it:`
pub open spec fn unit_tag() -> Seq<u8> {
    seq![105u8, 116, 58]
}

/// `base`
pub open spec fn base_name() -> Seq<u8> {
    seq![98u8, 97, 115, 101]
}

/// The last `"` at or before position `j`, walking back; None when the walk
/// would go below position 0.
pub open spec fn quote_before(d: Seq<u8>, j: int) -> Option<int>
    decreases j + 1,
{
    if j < 0 || j >= d.len() {
        None
    } else if d[j] == 34 {
        Some(j)
    } else {
        quote_before(d, j - 1)
    }
}

/// The first position at or after `from` that holds a comma or a line feed.
pub open spec fn value_end(d: Seq<u8>, from: int) -> Option<int>
    decreases d.len() - from,
{
    if from < 0 || from >= d.len() {
        None
    } else if d[from] == 44 || d[from] == 10 {
        Some(from)
    } else {
        value_end(d, from + 1)
    }
}

/// The reading of a property, searched from `i`: at the first `it:` before the
/// last six bytes, the unit runs from 3 bytes after the tag to the next `"`,
/// and the value from 24 bytes after that `"` to the next comma or line feed;
/// the text is the value, a space, the unit and a line break, with the position
/// where the value ended. With no `it:`, the text is empty and the position is
/// where the search stopped. None when a field runs past the end.
pub open spec fn property_reading(d: Seq<u8>, i: int) -> Option<(Seq<char>, int)>
    decreases d.len() - i,
{
    if i >= d.len() - 6 {
        Some((Seq::empty(), i))
    } else if i < 0 {
        None
    } else if window_is(d, i, unit_tag()) {
        match field(d, i + 3, 34u8) {
            None => None,
            Some((unit, e1)) => match value_end(d, e1 + 24) {
                None => None,
                Some(e2) => Some(
                    (
                        bytes_as_chars(d.subrange(e1 + 24, e2)) + seq![' '] + bytes_as_chars(unit)
                            + seq!['\n'],
                        e2,
                    ),
                ),
            },
        }
    } else {
        property_reading(d, i + 1)
    }
}

/// One round of the property scan at position `index`.
pub enum ScanStep {
    /// The scan ends here (past the last three bytes, or at the `base` property).
    Finish,
    /// The scan reads outside the payload.
    Fail,
    /// The round prints the text and the next round starts at the position.
    Continue(Seq<char>, int),
}

/// One round of the property scan at position `index`. At each `: {` before
/// the last three bytes, the property name is the text between the last `"`
/// two or more bytes before the tag and the byte before the tag's colon; the
/// name `base` ends the whole report. Otherwise the round prints the name,
/// ` : ` and the property's reading found from that `"` (see
/// `property_reading`), and the next round starts one byte after where the
/// reading ended. Anywhere else the next round starts one byte on.
pub open spec fn scan_step(d: Seq<u8>, index: int) -> ScanStep {
    if index >= d.len() - 3 {
        ScanStep::Finish
    } else if index < 0 {
        ScanStep::Fail
    } else if window_is(d, index, object_tag()) {
        if index < 2 {
            ScanStep::Fail
        } else {
            match quote_before(d, index - 2) {
                None => ScanStep::Fail,
                Some(q) => {
                    let name = d.subrange(q + 1, index - 1);
                    if name == base_name() {
                        ScanStep::Finish
                    } else if d.len() < 6 {
                        ScanStep::Fail
                    } else {
                        match property_reading(d, q) {
                            None => ScanStep::Fail,
                            Some((reading, next)) => ScanStep::Continue(
                                bytes_as_chars(name) + " : "@ + reading,
                                next + 1,
                            ),
                        }
                    }
                },
            }
        }
    } else {
        ScanStep::Continue(Seq::empty(), index + 1)
    }
}

/// What the property scan prints from position `index` in at most `rounds`
/// rounds (see `scan_step`); None when it reads outside the payload or needs
/// more rounds.
pub open spec fn property_scan(d: Seq<u8>, index: int, rounds: nat) -> Option<Seq<char>>
    decreases rounds,
{
    if rounds == 0 {
        None
    } else {
        match scan_step(d, index) {
            ScanStep::Finish => Some(Seq::empty()),
            ScanStep::Fail => None,
            ScanStep::Continue(text, next) => match property_scan(d, next, (rounds - 1) as nat) {
                None => None,
                Some(rest) => Some(text + rest),
            },
        }
    }
}

/// Whether the property scan from `h` ends well within `k` continuing rounds.
pub open spec fn finishes_in(d: Seq<u8>, h: int, k: nat) -> bool {
    property_scan(d, h, k + 1) is Some
}

/// Where the round at `h` sends the scan when it continues.
pub open spec fn next_head(d: Seq<u8>, h: int) -> int {
    match scan_step(d, h) {
        ScanStep::Continue(_, next) => next,
        _ => h,
    }
}

/// Whether `m` is the fewest continuing rounds in which the scan from `h` ends.
pub open spec fn is_min_rounds(d: Seq<u8>, h: int, m: nat) -> bool {
    finishes_in(d, h, m) && forall|j: nat| j < m ==> !#[trigger] finishes_in(d, h, j)
}

/// The positions at which the first `n` rounds from `h` start.
pub open spec fn round_heads(d: Seq<u8>, h: int, n: nat) -> Seq<int>
    decreases n,
{
    if n == 0 {
        Seq::empty()
    } else {
        seq![h] + round_heads(d, next_head(d, h), (n - 1) as nat)
    }
}

proof fn lemma_scan_more_rounds(d: Seq<u8>, h: int, r1: nat, r2: nat)
    requires
        property_scan(d, h, r1) is Some,
        r1 <= r2,
    ensures
        property_scan(d, h, r2) == property_scan(d, h, r1),
    decreases r1,
{
    if let ScanStep::Continue(t, next) = scan_step(d, h) {
        lemma_scan_more_rounds(d, next, (r1 - 1) as nat, (r2 - 1) as nat);
    }
}

proof fn lemma_min_exists(d: Seq<u8>, h: int, k: nat)
    requires
        finishes_in(d, h, k),
    ensures
        exists|m: nat| m <= k && #[trigger] is_min_rounds(d, h, m),
    decreases k,
{
    if exists|j: nat| j < k && #[trigger] finishes_in(d, h, j) {
        let j = choose|j: nat| j < k && #[trigger] finishes_in(d, h, j);
        lemma_min_exists(d, h, j);
        let m = choose|m: nat| m <= j && #[trigger] is_min_rounds(d, h, m);
        assert(m <= k && is_min_rounds(d, h, m));
    } else {
        assert(is_min_rounds(d, h, k));
    }
}

proof fn lemma_min_unique(d: Seq<u8>, h: int, m1: nat, m2: nat)
    requires
        is_min_rounds(d, h, m1),
        is_min_rounds(d, h, m2),
    ensures
        m1 == m2,
{
    if m1 < m2 {
        assert(!finishes_in(d, h, m1));
    } else if m2 < m1 {
        assert(!finishes_in(d, h, m2));
    }
}

/// A continuing round shifts the count of rounds by one.
proof fn lemma_continue_shift(d: Seq<u8>, h: int, m: nat)
    requires
        scan_step(d, h) is Continue,
        is_min_rounds(d, h, m),
    ensures
        m >= 1,
        is_min_rounds(d, next_head(d, h), (m - 1) as nat),
{
    let next = next_head(d, h);
    assert forall|k: nat| #[trigger] finishes_in(d, h, k) <==> (k >= 1 && finishes_in(d, next, (k - 1) as nat)) by {
        assert(property_scan(d, next, 0) is None);
    }
    assert(m >= 1) by {
        if m == 0 {
            assert(finishes_in(d, h, 0));
        }
    }
    assert forall|j: nat| j < (m - 1) as nat implies !#[trigger] finishes_in(d, next, j) by {
        assert(!finishes_in(d, h, j + 1));
    }
    assert(finishes_in(d, h, m));
}

proof fn lemma_round_heads(d: Seq<u8>, h: int, m: nat)
    requires
        is_min_rounds(d, h, m),
    ensures
        round_heads(d, h, m).len() == m,
        forall|j: int|
            0 <= j < m ==> 0 <= #[trigger] round_heads(d, h, m)[j] < d.len() - 3
                && is_min_rounds(d, round_heads(d, h, m)[j], (m - j) as nat),
    decreases m,
{
    if m > 0 {
        match scan_step(d, h) {
            ScanStep::Finish => {
                assert(finishes_in(d, h, 0));
            },
            ScanStep::Fail => {},
            ScanStep::Continue(t, next) => {
                lemma_continue_shift(d, h, m);
                lemma_round_heads(d, next, (m - 1) as nat);
                let hs = round_heads(d, h, m);
                let rest = round_heads(d, next, (m - 1) as nat);
                assert(hs == seq![h] + rest);
                assert forall|j: int| 0 <= j < m implies 0 <= #[trigger] hs[j] < d.len() - 3
                    && is_min_rounds(d, hs[j], (m - j) as nat) by {
                    if j > 0 {
                        assert(hs[j] == rest[j - 1]);
                    }
                }
            },
        }
    }
}

/// A property scan that ends does so within fewer rounds than the payload has
/// bytes: each round starts at a position inside the payload, and no position
/// comes back (the scan from a position always needs the same count of
/// rounds). So the rounds that `observation_report` gives the scan never cut
/// short a scan that ends.
pub proof fn law_scan_rounds_suffice(d: Seq<u8>, h: int, r: nat)
    requires
        property_scan(d, h, r) is Some,
    ensures
        property_scan(d, h, (d.len() + 1) as nat) == property_scan(d, h, r),
{
    assert(r >= 1);
    assert(finishes_in(d, h, (r - 1) as nat));
    lemma_min_exists(d, h, (r - 1) as nat);
    let m = choose|m: nat| m <= (r - 1) as nat && #[trigger] is_min_rounds(d, h, m);
    lemma_round_heads(d, h, m);
    let hs = round_heads(d, h, m);
    if m > 0 {
        assert(hs.no_duplicates()) by {
            assert forall|a: int, b: int| 0 <= a < hs.len() && 0 <= b < hs.len() && a != b implies hs[a]
                != hs[b] by {
                if hs[a] == hs[b] {
                    lemma_min_unique(d, hs[a], (m - a) as nat, (m - b) as nat);
                }
            }
        }
        hs.unique_seq_to_set();
        assert(0 <= hs[0] < d.len() - 3);
        vstd::set_lib::lemma_int_range(0, d.len() - 3);
        assert(hs.to_set().subset_of(vstd::set_lib::set_int_range(0, d.len() - 3)));
        vstd::set_lib::lemma_len_subset(hs.to_set(), vstd::set_lib::set_int_range(0, d.len() - 3));
    }
    assert(m + 1 <= d.len() + 1);
    lemma_scan_more_rounds(d, h, m + 1, r);
    lemma_scan_more_rounds(d, h, m + 1, (d.len() + 1) as nat);
}

/// What the detailed display of a station prints for its latest-observation
/// payload: nothing when there is no `age` before the last three bytes;
/// otherwise the message that starts 7 bytes after the first `age` and runs
/// to the next `"`, a line break, and the property scan from that `"`, given
/// one round more than the payload has bytes. None for a payload shorter than
/// three bytes, or where the message or the scan has no end within those
/// rounds.
pub open spec fn observation_report(d: Seq<u8>) -> Option<Seq<char>> {
    if d.len() < 3 {
        None
    } else {
        match tag_search(d, message_tag(), 0, d.len() - 3) {
            None => Some(Seq::empty()),
            Some(i) => match field(d, i + 7, 34u8) {
                None => None,
                Some((message, e)) => match property_scan(d, e, (d.len() + 1) as nat) {
                    None => None,
                    Some(rest) => Some(bytes_as_chars(message) + seq!['\n'] + rest),
                },
            },
        }
    }
}

/// The first position from `from` up to (not including) `end` where the bytes
/// spell `pat` (see `tag_search`).
pub fn first_tag(data: &Vec<u8>, pat: &[u8], from: usize, end: usize) -> (r: Option<usize>)
    requires
        end + pat@.len() <= data@.len(),
    ensures
        match tag_search(data@, pat@, from as int, end as int) {
            None => r is None,
            Some(i) => r matches Some(x) && x == i && window_is(data@, i, pat@) && from <= i < end,
        },
{
    let mut index = from;
    while index < end
        invariant
            end + pat@.len() <= data@.len(),
            from <= index,
            tag_search(data@, pat@, from as int, end as int) == tag_search(
                data@,
                pat@,
                index as int,
                end as int,
            ),
        decreases end - index,
    {
        if matches_at(data, index, pat) {
            return Some(index);
        }
        index = index + 1;
    }
    None
}

fn find_quote_before(d: &Vec<u8>, j: usize) -> (r: Option<usize>)
    requires
        j < d@.len(),
    ensures
        match quote_before(d@, j as int) {
            None => r is None,
            Some(q) => r matches Some(x) && x == q,
        },
{
    let mut k = j;
    loop
        invariant
            k <= j < d@.len(),
            quote_before(d@, j as int) == quote_before(d@, k as int),
        decreases k,
    {
        if d[k] == 34 {
            return Some(k);
        }
        if k == 0 {
            assert(quote_before(d@, -1) is None);
            return None;
        }
        k = k - 1;
    }
}

fn find_value_end(d: &Vec<u8>, from: usize) -> (r: Option<usize>)
    ensures
        match value_end(d@, from as int) {
            None => r is None,
            Some(e) => r matches Some(x) && x == e,
        },
{
    let n = d.len();
    let mut k = from;
    while k < n
        invariant
            n == d@.len(),
            from <= k,
            value_end(d@, from as int) == value_end(d@, k as int),
        decreases n - k,
    {
        if d[k] == 44 || d[k] == 10 {
            return Some(k);
        }
        k = k + 1;
    }
    None
}

/// A property's value ends at the first comma or line feed at or after where
/// it starts: the end holds one of the two, and no byte before it does. When
/// neither follows, there is no end.
pub proof fn law_value_ends_at_first_comma_or_line_feed(d: Seq<u8>, from: int)
    requires
        0 <= from,
    ensures
        value_end(d, from) matches Some(e) ==> from <= e < d.len() && (d[e] == 44 || d[e] == 10)
            && forall|j: int| from <= j < e ==> #[trigger] d[j] != 44 && d[j] != 10,
        value_end(d, from) is None ==> forall|j: int|
            from <= j < d.len() ==> #[trigger] d[j] != 44 && d[j] != 10,
    decreases d.len() - from,
{
    if from < d.len() && !(d[from] == 44 || d[from] == 10) {
        law_value_ends_at_first_comma_or_line_feed(d, from + 1);
    }
}

/// `t` is a value, a space, a unit and a line break, where the value holds no
/// line break and no comma.
pub open spec fn value_and_unit(t: Seq<char>) -> bool {
    exists|v: Seq<char>, u: Seq<char>|
        t == v + seq![' '] + u + seq!['\n'] && !v.contains('\n') && !v.contains(',')
}

/// The reading of a property is its value, a space, its unit and a line
/// break, where the value holds no line break and no comma: a value never runs
/// on past the end of its line.
pub proof fn law_property_value_stays_on_its_line(d: Seq<u8>, i: int)
    ensures
        match property_reading(d, i) {
            Some((t, e)) => t.len() > 0 ==> value_and_unit(t),
            None => true,
        },
    decreases d.len() - i,
{
    if i >= d.len() - 6 || i < 0 {
    } else if window_is(d, i, unit_tag()) {
        if let Some((unit, e1)) = field(d, i + 3, 34u8) {
            if e1 + 24 >= 0 {
                law_value_ends_at_first_comma_or_line_feed(d, e1 + 24);
            }
            if let Some(e2) = value_end(d, e1 + 24) {
                lemma_value_end(d, e1 + 24);
                let v = bytes_as_chars(d.subrange(e1 + 24, e2));
                let u = bytes_as_chars(unit);
                assert forall|k: int| 0 <= k < v.len() implies v[k] != '\n' && v[k] != ',' by {
                    assert(v[k] == d[e1 + 24 + k] as char);
                    assert(d[e1 + 24 + k] != 44 && d[e1 + 24 + k] != 10);
                }
                assert(property_reading(d, i).unwrap().0 == v + seq![' '] + u + seq!['\n']);
            }
        }
    } else {
        law_property_value_stays_on_its_line(d, i + 1);
    }
}

proof fn lemma_value_end(d: Seq<u8>, from: int)
    ensures
        value_end(d, from) matches Some(e) ==> 0 <= from <= e < d.len(),
    decreases d.len() - from,
{
    if 0 <= from < d.len() && !(d[from] == 44 || d[from] == 10) {
        lemma_value_end(d, from + 1);
    }
}

proof fn lemma_quote_before(d: Seq<u8>, j: int)
    ensures
        quote_before(d, j) matches Some(q) ==> 0 <= q <= j < d.len() && d[q] == 34,
    decreases j + 1,
{
    if 0 <= j < d.len() && d[j] != 34 {
        lemma_quote_before(d, j - 1);
    }
}

/// Appends the property reading found from `i` (see `property_reading`).
fn push_reading(d: &Vec<u8>, i: usize, out: &mut Vec<char>) -> (r: Option<usize>)
    requires
        d@.len() >= 6,
        i < d@.len(),
    ensures
        match property_reading(d@, i as int) {
            None => r is None,
            Some((text, next)) => r matches Some(x) && x == next && final(out)@ == old(out)@ + text
                && i <= next < d@.len(),
        },
{
    let n = d.len();
    let end = n - 6;
    let mut k = i;
    while k < end
        invariant
            n == d@.len(),
            end == n - 6,
            i <= k,
            i < n,
            k == i || k <= end,
            out@ == old(out)@,
            property_reading(d@, i as int) == property_reading(d@, k as int),
        decreases end - k,
    {
        if matches_at(d, k, &[105u8, 116, 58]) {
            assert(window_is(d@, k as int, unit_tag()));
            proof {
                lemma_first_stop(d@, k + 3, 34u8);
            }
            match read_field(d, k, 3, 34) {
                None => return None,
                Some((unit, e1)) => {
                    proof {
                        lemma_value_end(d@, e1 + 24);
                    }
                    let from = match e1.checked_add(24) {
                        Some(f) => f,
                        None => return None,
                    };
                    match find_value_end(d, from) {
                        None => return None,
                        Some(e2) => {
                            let ghost start = out@;
                            let mut j = from;
                            while j < e2
                                invariant
                                    from <= j <= e2 < d@.len(),
                                    out@ == start + bytes_as_chars(d@.subrange(from as int, j as int)),
                                decreases e2 - j,
                            {
                                out.push(d[j] as char);
                                assert(bytes_as_chars(d@.subrange(from as int, j + 1)) =~= bytes_as_chars(
                                    d@.subrange(from as int, j as int),
                                ).push(d@[j as int] as char));
                                j = j + 1;
                            }
                            out.push(' ');
                            push_bytes_as_chars(out, &unit);
                            out.push('\n');
                            assert(out@ =~= start + (bytes_as_chars(
                                d@.subrange(from as int, e2 as int),
                            ) + seq![' '] + bytes_as_chars(unit@) + seq!['\n']));
                            return Some(e2);
                        },
                    }
                },
            }
        }
        k = k + 1;
    }
    Some(k)
}

/// What the detailed display of a station prints for its latest-observation
/// payload, or None where that is none (see `observation_report`).
pub fn try_observation_report(data: &Vec<u8>) -> (r: Option<String>)
    ensures
        match observation_report(data@) {
            None => r is None,
            Some(t) => r matches Some(s) && s@ == t,
        },
{
    let n = data.len();
    if n < 3 {
        return None;
    }
    let end = n - 3;
    let index = match first_tag(data, &[97u8, 103, 101], 0, end) {
        None => return Some(string_from_chars(&Vec::new())),
        Some(i) => i,
    };
    proof {
        lemma_first_stop(data@, index + 7, 34u8);
    }
    let (message, e) = match read_field(data, index, 7, 34) {
        None => return None,
        Some(x) => x,
    };
    let mut out: Vec<char> = Vec::new();
    push_bytes_as_chars(&mut out, &message);
    out.push('\n');
    let ghost head = out@;
    assert(head =~= bytes_as_chars(message@) + seq!['\n']);
    let ghost total = property_scan(data@, e as int, (n + 1) as nat);
    assert(observation_report(data@) == match total {
        None => None,
        Some(t) => Some(head + t),
    });
    let mut i = e;
    let mut rounds: usize = n;
    loop
        invariant
            n == data@.len(),
            n >= 3,
            rounds <= n,
            total == property_scan(data@, e as int, (n + 1) as nat),
            observation_report(data@) == match total {
                None => None,
                Some(t) => Some(head + t),
            },
            match total {
                None => property_scan(data@, i as int, (rounds + 1) as nat) is None,
                Some(t) => property_scan(data@, i as int, (rounds + 1) as nat) matches Some(rest)
                    && t == out@.skip(head.len() as int) + rest,
            },
            head.len() <= out@.len(),
            out@.take(head.len() as int) == head,
        decreases rounds,
    {
        let ghost o0 = out@;
        if i >= n - 3 {
            assert(out@ =~= head + out@.skip(head.len() as int));
            return Some(string_from_chars(&out));
        }
        if matches_at(data, i, &[58u8, 32, 123]) {
            assert(window_is(data@, i as int, object_tag()));
            if i < 2 {
                return None;
            }
            proof {
                lemma_quote_before(data@, i - 2);
            }
            let q = match find_quote_before(data, i - 2) {
                None => return None,
                Some(q) => q,
            };
            let mut name: Vec<u8> = Vec::new();
            let mut j = q + 1;
            while j < i - 1
                invariant
                    q + 1 <= j <= i - 1,
                    i < data@.len(),
                    name@ == data@.subrange(q + 1, j as int),
                decreases i - 1 - j,
            {
                name.push(data[j]);
                assert(data@.subrange(q + 1, j + 1) =~= data@.subrange(q + 1, j as int).push(
                    data@[j as int],
                ));
                j = j + 1;
            }
            if name.len() == 4 && name[0] == 98 && name[1] == 97 && name[2] == 115 && name[3]
                == 101 {
                assert(name@ =~= base_name());
                assert(out@ =~= head + out@.skip(head.len() as int));
                return Some(string_from_chars(&out));
            }
            assert(name@ != base_name());
            if n < 6 {
                return None;
            }
            push_bytes_as_chars(&mut out, &name);
            push_str_chars(&mut out, " : ");
            let ghost o1 = out@;
            let next = match push_reading(data, q, &mut out) {
                None => return None,
                Some(x) => x,
            };
            if rounds == 0 {
                assert(property_scan(data@, next + 1, 0) is None);
                return None;
            }
            rounds = rounds - 1;
            i = next + 1;
            let ghost text = property_reading(data@, q as int).unwrap().0;
            assert(out@ == o1 + text);
            assert(o1 =~= o0 + bytes_as_chars(name@) + " : "@);
            assert(out@.skip(head.len() as int) =~= o0.skip(head.len() as int) + (bytes_as_chars(
                name@,
            ) + " : "@ + text));
            assert(out@.take(head.len() as int) =~= head);
        } else {
            if rounds == 0 {
                assert(property_scan(data@, i + 1, 0) is None);
                return None;
            }
            rounds = rounds - 1;
            i = i + 1;
        }
    }
}

/// What the detailed display of a station prints for its latest-observation
/// payload (see `observation_report`).
pub fn observation_report_text(data: &Vec<u8>) -> (r: String)
    requires
        observation_report(data@) is Some,
    ensures
        r@ == observation_report(data@).unwrap(),
{
    match try_observation_report(data) {
        Some(s) => s,
        None => string_from_chars(&Vec::new()),
    }
}

} // verus!
