use vstd::prelude::*;

use crate::cache::Cache;
use crate::text::{
    byte_char, bytes_as_chars, law_typed_line_is_argument, push_bytes_as_chars, push_str_chars,
    str_chars, string_from_chars, trim, trim_chars, without_line_end, law_trim_is_trimmed_piece,
    no_edge_space, trimmed_piece,
};

verus! {

broadcast use vstd::array::group_array_axioms;

/// A place found for a ZIP code.
pub struct Pos {
    pub is_valid: bool,
    pub lat: String,
    pub lon: String,
    pub county: String,
}

/// The contents of a `Pos`.
pub struct PosView {
    pub is_valid: bool,
    pub lat: Seq<char>,
    pub lon: Seq<char>,
    pub county: Seq<char>,
}

impl View for Pos {
    type V = PosView;

    open spec fn view(&self) -> PosView {
        PosView { is_valid: self.is_valid, lat: self.lat@, lon: self.lon@, county: self.county@ }
    }
}

/// Whether `input_to_zip` can read `input`: either it is shorter than five
/// bytes (`str::len` counts UTF-8 bytes), or it has at least five characters.
pub open spec fn zip_input_ok(input: &str) -> bool {
    input.len() < 5 || input@.len() >= 5
}

/// The ZIP code scanner for `input`: all zero for an input shorter than five
/// bytes, else its first five characters, each cut down to its low byte.
pub open spec fn zip_scanner(input: &str) -> Seq<u8> {
    if input.len() < 5 {
        seq![0u8, 0, 0, 0, 0]
    } else {
        Seq::new(5, |i: int| input@[i] as u8)
    }
}

/// The five bytes a ZIP code is matched by (see `zip_scanner`).
pub fn input_to_zip(input: &str) -> (r: [u8; 5])
    requires
        zip_input_ok(input),
    ensures
        r@ == zip_scanner(input),
{
    if input.len() < 5 {
        let r: [u8; 5] = [0, 0, 0, 0, 0];
        assert(r@ =~= zip_scanner(input));
        return r;
    }
    let r: [u8; 5] = [
        #[verifier::truncate]
        (input.get_char(0) as u8),
        #[verifier::truncate]
        (input.get_char(1) as u8),
        #[verifier::truncate]
        (input.get_char(2) as u8),
        #[verifier::truncate]
        (input.get_char(3) as u8),
        #[verifier::truncate]
        (input.get_char(4) as u8),
    ];
    assert(r@ =~= zip_scanner(input));
    r
}

/// The first line of the ZIP table that belongs to `zip`, searching positions
/// `i` up to (not including) `end`: the five bytes at `i` are `zip`, the byte
/// before is a line feed and the byte after is a comma. The outer None is a
/// read past the end of `d` on the way: the search reads the five bytes at each
/// position, the byte before them when they match, and the byte after them when
/// that is a line feed too.
pub open spec fn zip_search(zip: Seq<u8>, d: Seq<u8>, i: int, end: int) -> Option<Option<int>>
    decreases end - i,
{
    if i >= end {
        Some(None)
    } else if i < 1 || i + 5 > d.len() {
        None
    } else if d.subrange(i, i + 5) == zip && d[i - 1] == 10 {
        if i + 5 >= d.len() {
            None
        } else if d[i + 5] == 44 {
            Some(Some(i))
        } else {
            zip_search(zip, d, i + 1, end)
        }
    } else {
        zip_search(zip, d, i + 1, end)
    }
}

/// `c` replaced by `1` when it is `0`.
pub open spec fn bump_zero(c: char) -> char {
    if c == '0' {
        '1'
    } else {
        c
    }
}

/// The characters of a latitude field (nine wide) or longitude field (eleven
/// wide) when the line at `at` was found: the bytes read, padded with spaces.
pub open spec fn padded(d: Seq<u8>, from: int, count: int, width: int) -> Seq<char> {
    bytes_as_chars(d.subrange(from, from + count)) + Seq::new((width - count) as nat, |i: int| ' ')
}

/// The place for a ZIP line found at `found` (or for no line): the latitude is
/// the six bytes from `found + 6`, the longitude the eight bytes from
/// `found + 16`; a sixth latitude character `0` and an eighth longitude
/// character `0` become `1`; both are trimmed. The place is valid when the
/// first latitude character is not a space. None when the line ends before
/// the longitude does.
pub open spec fn place_at(d: Seq<u8>, found: Option<int>) -> Option<PosView> {
    match found {
        None => Some(
            PosView {
                is_valid: false,
                lat: trim(Seq::new(9, |i: int| ' ')),
                lon: trim(Seq::new(11, |i: int| ' ')),
                county: Seq::empty(),
            },
        ),
        Some(i) => if i + 24 > d.len() {
            None
        } else {
            let lat = padded(d, i + 6, 6, 9);
            let lon = padded(d, i + 16, 8, 11);
            Some(
                PosView {
                    is_valid: lat[0] != ' ',
                    lat: trim(lat.update(5, bump_zero(lat[5]))),
                    lon: trim(lon.update(7, bump_zero(lon[7]))),
                    county: Seq::empty(),
                },
            )
        },
    }
}

/// The place the ZIP table `d`, of recorded length `len`, gives for `zip`; None
/// where the lookup would read past the end of the table.
pub open spec fn zip_place(zip: &str, d: Seq<u8>, len: int) -> Option<PosView> {
    if !zip_input_ok(zip) || len < 5 {
        None
    } else {
        match zip_search(zip_scanner(zip), d, 10, len - 5) {
            None => None,
            Some(found) => place_at(d, found),
        }
    }
}

/// A place read from the ZIP table has its latitude and longitude text with no
/// white space at either end, whichever ZIP code and table it comes from (the
/// table holds a space before each longitude).
pub proof fn law_place_has_no_edge_space(zip: &str, d: Seq<u8>, len: int)
    ensures
        zip_place(zip, d, len) matches Some(p) ==> no_edge_space(p.lat) && no_edge_space(p.lon),
{
    law_trim_is_trimmed_piece(Seq::new(9, |i: int| ' '));
    law_trim_is_trimmed_piece(Seq::new(11, |i: int| ' '));
    if zip_input_ok(zip) && len >= 5 {
        if let Some(Some(i)) = zip_search(zip_scanner(zip), d, 10, len - 5) {
            if i + 24 <= d.len() {
                law_found_place_is_trimmed(d, i);
            }
        }
    }
}

/// The latitude and longitude of the table line at `i` are the nine and
/// eleven characters read there (a last `0` read as `1`) with white space, and
/// only white space, taken off both ends.
pub proof fn law_found_place_is_trimmed(d: Seq<u8>, i: int)
    requires
        i + 24 <= d.len(),
    ensures
        place_at(d, Some(i)) matches Some(p) && trimmed_piece(
            p.lat,
            padded(d, i + 6, 6, 9).update(5, bump_zero(padded(d, i + 6, 6, 9)[5])),
        ) && trimmed_piece(
            p.lon,
            padded(d, i + 16, 8, 11).update(7, bump_zero(padded(d, i + 16, 8, 11)[7])),
        ),
{
    let lat = padded(d, i + 6, 6, 9);
    let lon = padded(d, i + 16, 8, 11);
    law_trim_is_trimmed_piece(lat.update(5, bump_zero(lat[5])));
    law_trim_is_trimmed_piece(lon.update(7, bump_zero(lon[7])));
}

/// A ZIP code typed at the terminal finds the same place as the same ZIP code
/// given as a program argument: the typed line `arg` followed by `\n`, with its
/// line ending taken off, is looked up exactly as `arg` is, when `arg` holds no
/// `\n` and does not end in `\r`.
pub proof fn law_typed_zip_is_argument(typed: &str, line: &str, arg: &str, d: Seq<u8>, len: int)
    requires
        !arg@.contains('\n'),
        arg@.len() > 0 ==> arg@.last() != '\r',
        typed@ == arg@ + seq!['\n'],
        line@ == without_line_end(typed@),
    ensures
        zip_place(line, d, len) == zip_place(arg, d, len),
{
    law_typed_line_is_argument(arg@);
    assert(line@ == arg@);
    assert(line.len() == arg.len());
    assert(zip_input_ok(line) == zip_input_ok(arg));
    assert(zip_scanner(line) =~= zip_scanner(arg));
}

/// Where the line for `zip` starts in the ZIP table, as `zip_search` gives it
/// from position 10 up to five bytes before the recorded length.
pub open spec fn zip_line(zip: &str, d: Seq<u8>, len: int) -> Option<Option<int>> {
    if !zip_input_ok(zip) || len < 5 {
        None
    } else {
        zip_search(zip_scanner(zip), d, 10, len - 5)
    }
}

/// The position of the ZIP table line for `zip`, or None inside when there is
/// none; the outer None where the search would read past the end of the table.
pub fn try_find_zip(zip: &str, cache: &Cache<u8>) -> (r: Option<Option<usize>>)
    ensures
        match zip_line(zip, cache.items(), cache.recorded_length() as int) {
            None => r is None,
            Some(None) => r == Some(None::<usize>),
            Some(Some(i)) => r matches Some(Some(j)) && j == i,
        },
{
    let n = zip.len();
    if n >= 5 && zip.unicode_len() < 5 {
        return None;
    }
    let scanner = input_to_zip(zip);
    let len = cache.length();
    if len < 5 {
        return None;
    }
    let data = cache.get_data_pointer();
    let dn = data.len();
    let end = len - 5;
    let ghost z = zip_scanner(zip);
    let mut i: usize = 10;
    while i < end
        invariant
            10 <= i,
            end == len - 5,
            len == cache.recorded_length(),
            dn == data@.len(),
            data@ == cache.items(),
            scanner@ == z,
            z == zip_scanner(zip),
            zip_input_ok(zip),
            zip_line(zip, cache.items(), len as int) == zip_search(z, data@, i as int, end as int),
        decreases end - i,
    {
        if i + 5 > dn {
            return None;
        }
        let mut same = true;
        let mut k: usize = 0;
        while k < 5
            invariant
                k <= 5,
                i + 5 <= dn,
                dn == data@.len(),
                scanner@ == z,
                z.len() == 5,
                same == (forall|j: int| 0 <= j < k ==> data@[i + j] == z[j]),
            decreases 5 - k,
        {
            if data[i + k] != scanner[k] {
                same = false;
            }
            k = k + 1;
        }
        assert(same == (data@.subrange(i as int, i + 5) == z)) by {
            if same {
                assert(data@.subrange(i as int, i + 5) =~= z);
            }
            if data@.subrange(i as int, i + 5) == z {
                assert forall|j: int| 0 <= j < 5 implies data@[i + j] == z[j] by {
                    assert(data@.subrange(i as int, i + 5)[j] == data@[i + j]);
                }
            }
        }
        if same && data[i - 1] == 10 {
            if i + 5 >= dn {
                return None;
            }
            if data[i + 5] == 44 {
                return Some(Some(i));
            }
        }
        i = i + 1;
    }
    Some(None)
}

/// Reads `count` bytes from `from` as characters and pads them with spaces to
/// `width`.
fn padded_field(d: &Vec<u8>, from: usize, count: usize, width: usize) -> (r: Vec<char>)
    requires
        from + count <= d@.len(),
        count <= width,
    ensures
        r@ == padded(d@, from as int, count as int, width as int),
{
    let dn = d.len();
    let mut r: Vec<char> = Vec::new();
    let mut j: usize = 0;
    while j < count
        invariant
            j <= count,
            dn == d@.len(),
            from + count <= d@.len(),
            r@ == bytes_as_chars(d@.subrange(from as int, from + j)),
        decreases count - j,
    {
        r.push(d[from + j] as char);
        assert(d@.subrange(from as int, from + j + 1) =~= d@.subrange(from as int, from + j).push(
            d@[from + j],
        ));
        assert(r@ =~= bytes_as_chars(d@.subrange(from as int, from + j + 1)));
        j = j + 1;
    }
    let ghost read = r@;
    while j < width
        invariant
            count <= j <= width,
            r@ == read + Seq::new((j - count) as nat, |i: int| ' '),
        decreases width - j,
    {
        r.push(' ');
        assert(r@ =~= read + Seq::new((j + 1 - count) as nat, |i: int| ' '));
        j = j + 1;
    }
    r
}

/// The place the ZIP table in `cache` gives for `zip`, or None where the
/// lookup would read past the end of the table (see `zip_place`).
pub fn try_zip_to_gps(zip: &str, cache: &Cache<u8>) -> (r: Option<Pos>)
    ensures
        match zip_place(zip, cache.items(), cache.recorded_length() as int) {
            None => r is None,
            Some(p) => r matches Some(q) && q@ == p,
        },
{
    let found = match try_find_zip(zip, cache) {
        None => return None,
        Some(f) => f,
    };
    let data = cache.get_data_pointer();
    let ghost d = data@;
    let mut lat: Vec<char>;
    let mut lon: Vec<char>;
    match found {
        None => {
            lat = padded_field(data, 0, 0, 9);
            lon = padded_field(data, 0, 0, 11);
            assert(lat@ =~= Seq::new(9, |i: int| ' '));
            assert(lon@ =~= Seq::new(11, |i: int| ' '));
        },
        Some(i) => {
            if i > data.len() || data.len() - i < 24 {
                return None;
            }
            lat = padded_field(data, i + 6, 6, 9);
            lon = padded_field(data, i + 16, 8, 11);
        },
    }
    let ghost lat0 = lat@;
    let ghost lon0 = lon@;
    let valid = lat[0] != ' ';
    if lat[5] == '0' {
        lat.set(5, '1');
    }
    if lon[7] == '0' {
        lon.set(7, '1');
    }
    assert(lat@ =~= lat0.update(5, bump_zero(lat0[5])));
    assert(lon@ =~= lon0.update(7, bump_zero(lon0[7])));
    let p = Pos {
        is_valid: valid,
        lat: string_from_chars(&trim_chars(&lat)),
        lon: string_from_chars(&trim_chars(&lon)),
        county: string_from_chars(&Vec::new()),
    };
    Some(p)
}

/// The place the ZIP table in `cache` gives for `zip` (see `zip_place`).
pub fn zip_to_gps(zip: &str, cache: &Cache<u8>) -> (r: Pos)
    requires
        zip_place(zip, cache.items(), cache.recorded_length() as int) is Some,
    ensures
        r@ == zip_place(zip, cache.items(), cache.recorded_length() as int).unwrap(),
{
    match try_zip_to_gps(zip, cache) {
        Some(p) => p,
        None => Pos {
            is_valid: false,
            lat: string_from_chars(&Vec::new()),
            lon: string_from_chars(&Vec::new()),
            county: string_from_chars(&Vec::new()),
        },
    }
}

/// Whether the bytes at `at` spell `pat` (false when they run past the end).
pub open spec fn spells(d: Seq<u8>, at: int, pat: Seq<u8>) -> bool {
    crate::scan::window_is(d, at, pat)
}

/// `city`
pub open spec fn city_tag() -> Seq<u8> {
    seq![99u8, 105, 116, 121]
}

/// `state`
pub open spec fn state_tag() -> Seq<u8> {
    seq![115u8, 116, 97, 116, 101]
}

/// What the location scan prints from position `i` up to `end`. `city` and
/// `state` switch on the printing of the city and of the state; while one is
/// on, each byte other than `"` is printed (twice when both are on) and a comma
/// prints a line break and switches the city off, or, for the state, ends the
/// scan.
pub open spec fn local_scan(d: Seq<u8>, i: int, end: int, city: bool, state: bool) -> Seq<char>
    decreases end - i,
{
    if i >= end || i < 0 || i >= d.len() {
        Seq::empty()
    } else {
        let c1 = city || spells(d, i, city_tag());
        let s1 = state || spells(d, i, state_tag());
        let b = d[i];
        let shown: Seq<char> = if b != 34 {
            seq![byte_char(b)]
        } else {
            Seq::empty()
        };
        let city_out: Seq<char> = if !c1 {
            Seq::empty()
        } else if b == 44 {
            seq!['\n']
        } else {
            shown
        };
        let c2 = c1 && b != 44;
        if !s1 {
            city_out + local_scan(d, i + 1, end, c2, false)
        } else if b == 44 {
            city_out + seq!['\n']
        } else {
            city_out + shown + local_scan(d, i + 1, end, c2, true)
        }
    }
}

/// What the location display prints for the point payload `d`: a heading,
/// then an error line for a payload of ten bytes or less, else the city and
/// state found in the second half of the payload (see `local_scan`).
pub open spec fn local_text(d: Seq<u8>) -> Seq<char> {
    "#LOCATION#\n"@ + if d.len() <= 10 {
        "ERROR : NO DATA FOR LOCATION...\n"@
    } else {
        local_scan(d, (d.len() / 2) as int, d.len() - 5, false, false)
    }
}

/// What the location display prints for the point payload `data` (see
/// `local_text`).
pub fn printlocal_text(data: &Vec<u8>) -> (s: String)
    ensures
        s@ == local_text(data@),
{
    let mut out: Vec<char> = Vec::new();
    push_str_chars(&mut out, "#LOCATION#\n");
    let n = data.len();
    if n <= 10 {
        push_str_chars(&mut out, "ERROR : NO DATA FOR LOCATION...\n");
        return string_from_chars(&out);
    }
    let ghost head = out@;
    assert(head =~= "#LOCATION#\n"@);
    let ghost total = local_scan(data@, (n / 2) as int, (n - 5) as int, false, false);
    let mut city = false;
    let mut state = false;
    let mut i = n / 2;
    let end = n - 5;
    while i < end
        invariant
            n == data@.len(),
            end == n - 5,
            n > 10,
            head == "#LOCATION#\n"@,
            total == local_scan(data@, (n / 2) as int, (n - 5) as int, false, false),
            head + total == out@ + local_scan(data@, i as int, end as int, city, state),
        decreases end - i,
    {
        let ghost (c0, s0, o0) = (city, state, out@);
        if matches_city(data, i) {
            city = true;
        }
        if matches_state(data, i) {
            state = true;
        }
        let b = data[i];
        if city {
            if b == 44 {
                city = false;
                out.push('\n');
            } else if b != 34 {
                out.push(b as char);
            }
        }
        if state {
            if b == 44 {
                out.push('\n');
                assert(out@ =~= o0 + local_scan(data@, i as int, end as int, c0, s0));
                assert(head + total =~= out@);
                return string_from_chars(&out);
            } else if b != 34 {
                out.push(b as char);
            }
        }
        i = i + 1;
        assert(head + total =~= out@ + local_scan(data@, i as int, end as int, city, state));
    }
    assert(head + total =~= out@);
    string_from_chars(&out)
}

fn matches_city(data: &Vec<u8>, i: usize) -> (r: bool)
    requires
        i + 5 < data@.len(),
    ensures
        r == spells(data@, i as int, city_tag()),
{
    let r = crate::scan::matches_at(data, i, &[99u8, 105, 116, 121]);
    assert(seq![99u8, 105, 116, 121] =~= city_tag());
    r
}

fn matches_state(data: &Vec<u8>, i: usize) -> (r: bool)
    requires
        i + 5 < data@.len(),
    ensures
        r == spells(data@, i as int, state_tag()),
{
    crate::scan::matches_at(data, i, &[115u8, 116, 97, 116, 101])
}

/// The characters of `s`, each cut down to its low byte.
pub open spec fn low_bytes(s: Seq<char>) -> Seq<u8> {
    s.map_values(|c: char| c as u8)
}

/// The search for `pat` in `d`, one position at a time from `i`, ending when
/// `i` reaches `end` (that position itself is not tried). Some(None) when it
/// ends without a match; the outer None when it reads past the end of `d`
/// (which happens when it starts beyond `end`).
pub open spec fn between_search(d: Seq<u8>, pat: Seq<u8>, i: int, end: int) -> Option<Option<int>>
    decreases d.len() - i,
{
    if i == end {
        Some(None)
    } else if i < 0 || i + pat.len() > d.len() {
        None
    } else if d.subrange(i, i + pat.len()) == pat {
        Some(Some(i))
    } else {
        proof {
            if i == d.len() {
                assert(d.subrange(i, i + pat.len()) =~= pat);
            }
        }
        between_search(d, pat, i + 1, end)
    }
}

/// The text after the first match of `find` (each character cut down to its
/// low byte) at or after `skip`: it starts four bytes after the match and runs
/// to the next `stop`. An error text for a payload of ten bytes or less, the
/// empty text when there is no match, and None where the search reads past the
/// end of the payload or no `stop` follows.
pub open spec fn between(find: Seq<char>, stop: u8, d: Seq<u8>, skip: int) -> Option<Seq<char>> {
    let pat = low_bytes(find);
    if d.len() <= 10 {
        Some("ERROR : NO DATA"@)
    } else if pat.len() > d.len() {
        None
    } else {
        match between_search(d, pat, skip, d.len() - pat.len()) {
            None => None,
            Some(None) => Some(Seq::empty()),
            Some(Some(i)) => match crate::scan::field(d, i + pat.len() + 4, stop) {
                None => None,
                Some((bytes, e)) => Some(bytes_as_chars(bytes)),
            },
        }
    }
}

/// The text `between(string, stop_byte, data, skip_into)`, or None where that
/// is none.
pub fn try_find_between_in_data(string: &str, stop_byte: u8, data: &Vec<u8>, skip_into: usize) -> (r: Option<String>)
    ensures
        match between(string@, stop_byte, data@, skip_into as int) {
            None => r is None,
            Some(t) => r matches Some(s) && s@ == t,
        },
{
    let chars = str_chars(string);
    let mut scan_match: Vec<u8> = Vec::new();
    for i in 0..chars.len()
        invariant
            chars@ == string@,
            scan_match@ == low_bytes(chars@.take(i as int)),
    {
        scan_match.push(#[verifier::truncate] (chars[i] as u8));
        assert(low_bytes(chars@.take(i + 1)) =~= low_bytes(chars@.take(i as int)).push(
            chars@[i as int] as u8,
        ));
    }
    assert(chars@.take(chars@.len() as int) =~= chars@);
    let ghost pat = low_bytes(string@);
    let n = data.len();
    let m = scan_match.len();
    if n <= 10 {
        let mut out: Vec<char> = Vec::new();
        push_str_chars(&mut out, "ERROR : NO DATA");
        assert(out@ =~= "ERROR : NO DATA"@);
        return Some(string_from_chars(&out));
    }
    if m > n {
        return None;
    }
    let end = n - m;
    let mut index = skip_into;
    loop
        invariant
            n == data@.len(),
            m == scan_match@.len(),
            scan_match@ == pat,
            pat == low_bytes(string@),
            n > 10,
            m <= n,
            end == n - m,
            between_search(data@, pat, skip_into as int, end as int) == between_search(
                data@,
                pat,
                index as int,
                end as int,
            ),
        decreases n - index,
    {
        if index == end {
            assert(between(string@, stop_byte, data@, skip_into as int) == Some(Seq::<char>::empty()));
            return Some(string_from_chars(&Vec::new()));
        }
        if index > n - m {
            return None;
        }
        if crate::scan::matches_at(data, index, scan_match.as_slice()) {
            proof {
                crate::scan::lemma_first_stop(data@, index + m + 4, stop_byte);
            }
            match crate::scan::read_field(data, index + m, 4, stop_byte) {
                None => return None,
                Some((bytes, e)) => {
                    let mut out: Vec<char> = Vec::new();
                    push_bytes_as_chars(&mut out, &bytes);
                    assert(out@ =~= bytes_as_chars(bytes@));
                    return Some(string_from_chars(&out));
                },
            }
        }
        index = index + 1;
    }
}

/// The text `between(string, stop_byte, data, skip_into)`.
pub fn find_between_in_data(string: &str, stop_byte: u8, data: &Vec<u8>, skip_into: usize) -> (r: String)
    requires
        between(string@, stop_byte, data@, skip_into as int) is Some,
    ensures
        r@ == between(string@, stop_byte, data@, skip_into as int).unwrap(),
{
    match try_find_between_in_data(string, stop_byte, data, skip_into) {
        Some(s) => s,
        None => string_from_chars(&Vec::new()),
    }
}

/// Where `get_option` starts its search in a point payload.
pub const OPTION_SKIP: usize = 1700;

/// What `get_option` looks for: option 1 the forecast link (`forecast`, up to a
/// `"`), option 2 the hourly forecast link (`forecastHourly`, up to a `"`), any
/// other the text after `/` up to a line feed.
pub open spec fn option_target(option: u8) -> (Seq<char>, u8) {
    if option == 1 {
        ("forecast"@, 34u8)
    } else if option == 2 {
        ("forecastHourly"@, 34u8)
    } else {
        ("/"@, 10u8)
    }
}

/// The link `option` picks from a point payload: `between` with the option's
/// target, from position `OPTION_SKIP`.
pub open spec fn option_link(option: u8, d: Seq<u8>) -> Option<Seq<char>> {
    between(option_target(option).0, option_target(option).1, d, OPTION_SKIP as int)
}

/// The link `option` picks from a point payload, or None where that is none.
pub fn try_get_option(option: u8, data: &Vec<u8>) -> (r: Option<String>)
    ensures
        match option_link(option, data@) {
            None => r is None,
            Some(t) => r matches Some(s) && s@ == t,
        },
{
    if option == 1 {
        try_find_between_in_data("forecast", 34, data, OPTION_SKIP)
    } else if option == 2 {
        try_find_between_in_data("forecastHourly", 34, data, OPTION_SKIP)
    } else {
        try_find_between_in_data("/", 10, data, OPTION_SKIP)
    }
}

/// The link `option` picks from a point payload (see `option_link`).
pub fn get_option(option: u8, data: &Vec<u8>) -> (r: String)
    requires
        option_link(option, data@) is Some,
    ensures
        r@ == option_link(option, data@).unwrap(),
{
    match try_get_option(option, data) {
        Some(s) => s,
        None => string_from_chars(&Vec::new()),
    }
}

/// `county`
pub open spec fn county_tag() -> Seq<u8> {
    seq![99u8, 111, 117, 110, 116, 121]
}

/// The first position from `i` up to (not including) `end` where the bytes
/// spell `county`.
pub open spec fn county_search(d: Seq<u8>, i: int, end: int) -> Option<int>
    decreases end - i,
{
    if i >= end {
        None
    } else if spells(d, i, county_tag()) {
        Some(i)
    } else {
        county_search(d, i + 1, end)
    }
}

/// The county code in a point payload: the six bytes that start 47 bytes after
/// the first `county` in the second half of the payload (six spaces when there
/// is none). An error text for a payload of ten bytes or less; None when the
/// code runs past the end of the payload.
pub open spec fn county_code(d: Seq<u8>) -> Option<Seq<char>> {
    if d.len() <= 10 {
        Some("ERROR : NO DATA"@)
    } else {
        match county_search(d, (d.len() / 2) as int, d.len() - 6) {
            None => Some(Seq::new(6, |i: int| ' ')),
            Some(i) => if i + 53 > d.len() {
                None
            } else {
                Some(bytes_as_chars(d.subrange(i + 47, i + 53)))
            },
        }
    }
}

proof fn lemma_county_search_agrees(d1: Seq<u8>, d2: Seq<u8>, lo: int, i: int, end: int)
    requires
        d1.len() == d2.len(),
        0 <= lo <= i,
        end + 6 <= d1.len(),
        forall|j: int| lo <= j < d1.len() ==> d1[j] == d2[j],
    ensures
        county_search(d1, i, end) == county_search(d2, i, end),
        county_search(d1, i, end) matches Some(k) ==> i <= k < end,
    decreases end - i,
{
    if i < end {
        assert(d1.subrange(i, i + 6) =~= d2.subrange(i, i + 6));
        lemma_county_search_agrees(d1, d2, lo, i + 1, end);
    }
}

/// The county code is looked for only in the second half of the payload: two
/// payloads of one length that agree from their middle on give the same county
/// code, whatever their first halves hold (a `county` there is not read).
pub proof fn law_county_read_from_second_half(d1: Seq<u8>, d2: Seq<u8>)
    requires
        d1.len() == d2.len(),
        d1.subrange((d1.len() / 2) as int, d1.len() as int) == d2.subrange(
            (d2.len() / 2) as int,
            d2.len() as int,
        ),
    ensures
        county_code(d1) == county_code(d2),
{
    let n = d1.len();
    let lo = n / 2;
    if n > 10 {
        assert forall|j: int| lo <= j < n implies d1[j] == d2[j] by {
            assert(d1[j] == d1.subrange(lo as int, n as int)[j - lo]);
            assert(d2[j] == d2.subrange(lo as int, n as int)[j - lo]);
        }
        lemma_county_search_agrees(d1, d2, lo as int, lo as int, n - 6);
        if let Some(k) = county_search(d1, lo as int, n - 6) {
            if k + 53 <= n {
                assert(d1.subrange(k + 47, k + 53) =~= d2.subrange(k + 47, k + 53));
            }
        }
    }
}

proof fn lemma_county_search_first(d: Seq<u8>, i: int, end: int)
    ensures
        county_search(d, i, end) matches Some(k) ==> i <= k < end && spells(d, k, county_tag())
            && forall|j: int| i <= j < k ==> !#[trigger] spells(d, j, county_tag()),
        county_search(d, i, end) is None ==> forall|j: int|
            i <= j < end ==> !#[trigger] spells(d, j, county_tag()),
    decreases end - i,
{
    if i < end && !spells(d, i, county_tag()) {
        lemma_county_search_first(d, i + 1, end);
    }
}

/// The county code is read at the first `county` that starts in the second
/// half of the payload (before its last six bytes): the six bytes 47 after it.
/// With no such `county`, it is six spaces.
pub proof fn law_county_is_first_in_second_half(d: Seq<u8>)
    requires
        d.len() > 10,
    ensures
        (forall|j: int| d.len() / 2 <= j < d.len() - 6 ==> !#[trigger] spells(d, j, county_tag()))
            ==> county_code(d) == Some(Seq::new(6, |i: int| ' ')),
        forall|k: int|
            #![trigger spells(d, k, county_tag())]
            d.len() / 2 <= k < d.len() - 6 && k + 53 <= d.len() && spells(d, k, county_tag())
                && (forall|j: int| d.len() / 2 <= j < k ==> !#[trigger] spells(d, j, county_tag()))
                ==> county_code(d) == Some(bytes_as_chars(d.subrange(k + 47, k + 53))),
{
    lemma_county_search_first(d, (d.len() / 2) as int, d.len() - 6);
}

/// The county code in a point payload, or None where that is none.
pub fn try_find_county(data: &Vec<u8>) -> (r: Option<String>)
    ensures
        match county_code(data@) {
            None => r is None,
            Some(t) => r matches Some(s) && s@ == t,
        },
{
    let n = data.len();
    if n <= 10 {
        let mut out: Vec<char> = Vec::new();
        push_str_chars(&mut out, "ERROR : NO DATA");
        assert(out@ =~= "ERROR : NO DATA"@);
        return Some(string_from_chars(&out));
    }
    let mut index = n / 2;
    let end = n - 6;
    while index < end
        invariant
            n == data@.len(),
            n > 10,
            end == n - 6,
            county_search(data@, (n / 2) as int, end as int) == county_search(
                data@,
                index as int,
                end as int,
            ),
        decreases end - index,
    {
        if crate::scan::matches_at(data, index, &[99u8, 111, 117, 110, 116, 121]) {
            assert(spells(data@, index as int, county_tag()));
            if index > n || n - index < 53 {
                return None;
            }
            let out = padded_field(data, index + 47, 6, 6);
            assert(out@ =~= bytes_as_chars(data@.subrange(index + 47, index + 53)));
            return Some(string_from_chars(&out));
        }
        index = index + 1;
    }
    let out = padded_field(data, 0, 0, 6);
    assert(out@ =~= Seq::new(6, |i: int| ' '));
    Some(string_from_chars(&out))
}

/// The county code in a point payload (see `county_code`).
pub fn find_county(data: &Vec<u8>) -> (r: String)
    requires
        county_code(data@) is Some,
    ensures
        r@ == county_code(data@).unwrap(),
{
    match try_find_county(data) {
        Some(s) => s,
        None => string_from_chars(&Vec::new()),
    }
}

/// The weather service's point lookup for a latitude and longitude.
pub const BASEURL: &'static str = "https://api.weather.gov/points/";

/// The weather service's active alerts for a zone.
pub const ALERTURL: &'static str = "https://api.weather.gov/alerts/active/zone/";

/// The point lookup address for a place: `BASEURL`, the latitude, a comma and
/// the longitude.
pub fn points_url(p: &Pos) -> (r: String)
    ensures
        r@ == BASEURL@ + p.lat@ + ","@ + p.lon@,
{
    let mut out: Vec<char> = Vec::new();
    push_str_chars(&mut out, BASEURL);
    push_str_chars(&mut out, p.lat.as_str());
    push_str_chars(&mut out, ",");
    push_str_chars(&mut out, p.lon.as_str());
    assert(out@ =~= BASEURL@ + p.lat@ + ","@ + p.lon@);
    string_from_chars(&out)
}

/// The active alerts address for a county: `ALERTURL` followed by the county.
pub fn alerts_url(county: &str) -> (r: String)
    ensures
        r@ == ALERTURL@ + county@,
{
    let mut out: Vec<char> = Vec::new();
    push_str_chars(&mut out, ALERTURL);
    push_str_chars(&mut out, county);
    assert(out@ =~= ALERTURL@ + county@);
    string_from_chars(&out)
}

/// A forecast address with its units: the link, `?units=` and the unit.
pub fn forecast_url(link: &str, unit: &str) -> (r: String)
    ensures
        r@ == link@ + "?units="@ + unit@,
{
    let mut out: Vec<char> = Vec::new();
    push_str_chars(&mut out, link);
    push_str_chars(&mut out, "?units=");
    push_str_chars(&mut out, unit);
    assert(out@ =~= link@ + "?units="@ + unit@);
    string_from_chars(&out)
}

impl Pos {
    /// Whether the ZIP code was found.
    pub fn is_valid(&self) -> (r: bool)
        ensures
            r == self.is_valid,
    {
        self.is_valid
    }

    /// The place as text: `Latitude : ` and the latitude, then
    /// ` | Longitude : ` and the longitude.
    pub fn display_text(&self) -> (r: String)
        ensures
            r@ == "Latitude : "@ + self.lat@ + " | Longitude : "@ + self.lon@,
    {
        let mut out: Vec<char> = Vec::new();
        push_str_chars(&mut out, "Latitude : ");
        push_str_chars(&mut out, self.lat.as_str());
        push_str_chars(&mut out, " | Longitude : ");
        push_str_chars(&mut out, self.lon.as_str());
        assert(out@ =~= "Latitude : "@ + self.lat@ + " | Longitude : "@ + self.lon@);
        string_from_chars(&out)
    }
}

} // verus!
