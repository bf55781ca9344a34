use vstd::prelude::*;

use crate::scan::{byte_lists, field_chain, lemma_field_chain, matches_at, read_chain, window_is};
use crate::text::{
    bytes_as_chars, decimal, parsed_u8, parse_u8, push_bytes_as_chars, push_chars, push_decimal,
    push_str_chars, string_from_chars,
};

verus! {

/// One weather alert, each text field as the characters read from the payload.
pub struct AlertData {
    pub number: u8,
    pub urgency: Vec<char>,
    pub event: Vec<char>,
    pub sender: Vec<char>,
    pub sender_name: Vec<char>,
    pub headline: Vec<char>,
    pub description: Vec<char>,
    pub instruction: Vec<char>,
}

/// The contents of an `AlertData`.
pub struct AlertView {
    pub number: u8,
    pub urgency: Seq<char>,
    pub event: Seq<char>,
    pub sender: Seq<char>,
    pub sender_name: Seq<char>,
    pub headline: Seq<char>,
    pub description: Seq<char>,
    pub instruction: Seq<char>,
}

impl View for AlertData {
    type V = AlertView;

    open spec fn view(&self) -> AlertView {
        AlertView {
            number: self.number,
            urgency: self.urgency@,
            event: self.event@,
            sender: self.sender@,
            sender_name: self.sender_name@,
            headline: self.headline@,
            description: self.description@,
            instruction: self.instruction@,
        }
    }
}

/// The contents of each alert in a list.
pub open spec fn alert_views(v: Seq<AlertData>) -> Seq<AlertView> {
    v.map_values(|a: AlertData| a@)
}

/// `urgenc`
pub open spec fn urgency_tag() -> Seq<u8> {
    seq![117u8, 114, 103, 101, 110, 99]
}

/// Where each alert field starts, counted from the end of the field before it
/// (the first from the tag): urgency, event, sender, sender name, headline,
/// description, instruction.
pub open spec fn alert_offsets() -> Seq<usize> {
    seq![11usize, 29, 30, 34, 32, 35, 35]
}

/// The alert numbered `n` made of the seven fields read.
pub open spec fn alert_of(n: u8, fs: Seq<Seq<u8>>) -> AlertView {
    AlertView {
        number: n,
        urgency: bytes_as_chars(fs[0]),
        event: bytes_as_chars(fs[1]),
        sender: bytes_as_chars(fs[2]),
        sender_name: bytes_as_chars(fs[3]),
        headline: bytes_as_chars(fs[4]),
        description: bytes_as_chars(fs[5]),
        instruction: bytes_as_chars(fs[6]),
    }
}

/// The scan of an alert payload from `index`, given the alerts found so far.
/// The scan stops once fewer than seven bytes are left from `index`; at each
/// position where the bytes spell `urgenc` it reads the seven fields of an
/// alert (each up to a `"`, at the offsets of `alert_offsets`), numbers the
/// alert by its position in the list (modulo 256), and goes on one byte after
/// the last field; elsewhere it moves one byte on. None when a field has no
/// closing `"`.
pub open spec fn alert_scan(d: Seq<u8>, index: int, acc: Seq<AlertView>) -> Option<
    Seq<AlertView>,
>
    decreases d.len() - index,
{
    if index >= d.len() - 6 || index < 0 {
        Some(acc)
    } else if window_is(d, index, urgency_tag()) {
        proof {
            lemma_field_chain(d, index, alert_offsets(), 34u8);
        }
        match field_chain(d, index, alert_offsets(), 34u8) {
            None => None,
            Some((fs, end)) => alert_scan(
                d,
                end + 1,
                acc.push(alert_of((acc.len() % 256) as u8, fs)),
            ),
        }
    } else {
        alert_scan(d, index + 1, acc)
    }
}

/// The alerts an alert payload holds; none for a payload shorter than six
/// bytes (no scan is possible there).
pub open spec fn alert_parse(d: Seq<u8>) -> Option<Seq<AlertView>> {
    if d.len() < 6 {
        None
    } else {
        alert_scan(d, 0, Seq::empty())
    }
}

proof fn lemma_scan_numbers(d: Seq<u8>, index: int, acc: Seq<AlertView>)
    requires
        forall|i: int| 0 <= i < acc.len() ==> #[trigger] acc[i].number == (i % 256) as u8,
    ensures
        alert_scan(d, index, acc) matches Some(v) ==> acc.len() <= v.len() && forall|i: int|
            0 <= i < v.len() ==> #[trigger] v[i].number == (i % 256) as u8,
    decreases d.len() - index,
{
    if index >= d.len() - 6 || index < 0 {
    } else if window_is(d, index, urgency_tag()) {
        lemma_field_chain(d, index, alert_offsets(), 34u8);
        if let Some((fs, end)) = field_chain(d, index, alert_offsets(), 34u8) {
            let next = acc.push(alert_of((acc.len() % 256) as u8, fs));
            assert forall|i: int| 0 <= i < next.len() implies #[trigger] next[i].number == (i % 256) as u8 by {
                if i < acc.len() {
                    assert(next[i] == acc[i]);
                }
            }
            lemma_scan_numbers(d, end + 1, next);
        }
    } else {
        lemma_scan_numbers(d, index + 1, acc);
    }
}

/// The alerts of a payload are numbered by their place in the list (modulo
/// 256), so the alert shown with a number is the one at that place.
pub proof fn law_alerts_numbered_in_order(d: Seq<u8>)
    requires
        alert_parse(d) is Some,
    ensures
        forall|i: int|
            0 <= i < alert_parse(d).unwrap().len() ==> #[trigger] alert_parse(d).unwrap()[i].number
                == (i % 256) as u8,
{
    lemma_scan_numbers(d, 0, Seq::empty());
}

fn bytes_to_chars(v: &Vec<u8>) -> (r: Vec<char>)
    ensures
        r@ == bytes_as_chars(v@),
{
    let mut r: Vec<char> = Vec::new();
    push_bytes_as_chars(&mut r, v);
    assert(r@ =~= bytes_as_chars(v@));
    r
}

/// The alerts a payload holds, or None where the payload does not allow the
/// scan to go through (see `alert_parse`).
pub fn try_parse_alerts(data: &Vec<u8>) -> (r: Option<Vec<AlertData>>)
    ensures
        match alert_parse(data@) {
            None => r is None,
            Some(views) => r matches Some(v) && alert_views(v@) == views,
        },
{
    let n = data.len();
    if n < 6 {
        return None;
    }
    let mut output: Vec<AlertData> = Vec::new();
    let mut index: usize = 0;
    let offs: [usize; 7] = [11, 29, 30, 34, 32, 35, 35];
    assert(offs@ =~= alert_offsets());
    assert(alert_views(output@) =~= Seq::<AlertView>::empty());
    loop
        invariant
            n == data@.len(),
            n >= 6,
            offs@ == alert_offsets(),
            alert_parse(data@) == alert_scan(data@, index as int, alert_views(output@)),
        decreases n - index,
    {
        let ghost acc = alert_views(output@);
        if index >= n - 6 {
            return Some(output);
        }
        if matches_at(data, index, &[117u8, 114, 103, 101, 110, 99]) {
            assert(window_is(data@, index as int, urgency_tag()));
            match read_chain(data, index, &offs, 34) {
                None => return None,
                Some((fields, end)) => {
                    let number = (output.len() % 256) as u8;
                    let a = AlertData {
                        number,
                        urgency: bytes_to_chars(&fields[0]),
                        event: bytes_to_chars(&fields[1]),
                        sender: bytes_to_chars(&fields[2]),
                        sender_name: bytes_to_chars(&fields[3]),
                        headline: bytes_to_chars(&fields[4]),
                        description: bytes_to_chars(&fields[5]),
                        instruction: bytes_to_chars(&fields[6]),
                    };
                    assert(a@ == alert_of((acc.len() % 256) as u8, byte_lists(fields@)));
                    output.push(a);
                    assert(alert_views(output@) =~= acc.push(a@));
                    index = end + 1;
                },
            }
        } else {
            index = index + 1;
        }
    }
}

/// The alerts an alert payload holds (see `alert_parse`).
pub fn parse_alerts(data: &Vec<u8>) -> (r: Vec<AlertData>)
    requires
        alert_parse(data@) is Some,
    ensures
        alert_views(r@) == alert_parse(data@).unwrap(),
{
    match try_parse_alerts(data) {
        Some(v) => v,
        None => Vec::new(),
    }
}

/// The text of `s` with `\n` escapes turned into line breaks: a backslash is
/// dropped and remembered; an `n` right after a remembered backslash becomes a
/// line break; any other character is kept and clears the memory. `flag` is
/// the memory at the start; the second result is the memory at the end.
pub open spec fn unescape(s: Seq<char>, flag: bool) -> (Seq<char>, bool)
    decreases s.len(),
{
    if s.len() == 0 {
        (Seq::empty(), flag)
    } else {
        let (out, f) = unescape(s.drop_last(), flag);
        let c = s.last();
        if c == 'n' && f {
            (out.push('\n'), false)
        } else if c == '\\' {
            (out, true)
        } else {
            (out.push(c), false)
        }
    }
}

/// An alert numbered 0 with every text field empty.
pub open spec fn empty_alert() -> AlertView {
    AlertView {
        number: 0,
        urgency: Seq::empty(),
        event: Seq::empty(),
        sender: Seq::empty(),
        sender_name: Seq::empty(),
        headline: Seq::empty(),
        description: Seq::empty(),
        instruction: Seq::empty(),
    }
}

/// A rule of 80 `#`.
pub open spec fn rule() -> Seq<char> {
    Seq::new(80, |i: int| '#')
}

/// What the detailed display of an alert prints: a rule, the headline, the
/// description and the instruction with their escapes resolved (the memory of
/// a trailing backslash carries from one field to the next), and a rule.
pub open spec fn alert_detailed_text(a: AlertView) -> Seq<char> {
    let (h, f1) = unescape(a.headline, false);
    let (d, f2) = unescape(a.description, f1);
    let (i, f3) = unescape(a.instruction, f2);
    rule() + seq!['\n'] + h + seq!['\n'] + d + seq!['\n'] + i + seq!['\n'] + rule() + seq!['\n']
}

/// What the one-line display of an alert prints: number, event, urgency and
/// sender name.
pub open spec fn alert_simple_text(a: AlertView) -> Seq<char> {
    decimal(a.number) + " | "@ + a.event + " - "@ + a.urgency + " | "@ + a.sender_name + "\n"@
}

/// What one alert shows for the choice `detail`: when `detail` reads as a
/// number, the detailed view of the alert with that number (nothing for the
/// others); otherwise the one-line view when `detail` is `S` or `s`.
pub open spec fn alert_entry_text(a: AlertView, detail: Seq<char>) -> Seq<char> {
    match parsed_u8(detail) {
        Some(num) => if a.number == num {
            alert_detailed_text(a)
        } else {
            Seq::empty()
        },
        None => if detail == seq!['S'] || detail == seq!['s'] {
            alert_simple_text(a)
        } else {
            Seq::empty()
        },
    }
}

/// The text an alert listing shows for the choice `detail`.
pub open spec fn alert_listing_text(alerts: Seq<AlertView>, detail: Seq<char>) -> Seq<char>
    decreases alerts.len(),
{
    if alerts.len() == 0 {
        Seq::empty()
    } else {
        alert_listing_text(alerts.drop_last(), detail) + alert_entry_text(alerts.last(), detail)
    }
}

/// Every alert's one-line view, in order.
pub open spec fn one_line_views(alerts: Seq<AlertView>) -> Seq<char>
    decreases alerts.len(),
{
    if alerts.len() == 0 {
        Seq::empty()
    } else {
        one_line_views(alerts.drop_last()) + alert_simple_text(alerts.last())
    }
}

/// `s` lists the alerts as `S` does: each alert's one-line view, in order.
pub proof fn law_lower_s_lists_like_upper_s(alerts: Seq<AlertView>)
    ensures
        alert_listing_text(alerts, seq!['s']) == one_line_views(alerts),
        alert_listing_text(alerts, seq!['S']) == one_line_views(alerts),
    decreases alerts.len(),
{
    assert(crate::text::unsigned_digits(seq!['s']) =~= seq!['s']);
    assert(crate::text::unsigned_digits(seq!['S']) =~= seq!['S']);
    assert(!crate::text::is_digit(seq!['s'][0]));
    assert(!crate::text::is_digit(seq!['S'][0]));
    assert(parsed_u8(seq!['s']) is None);
    assert(parsed_u8(seq!['S']) is None);
    if alerts.len() > 0 {
        law_lower_s_lists_like_upper_s(alerts.drop_last());
    }
}

/// Typing the number the one-line view shows for an alert brings up that
/// alert's detailed view.
pub proof fn law_shown_number_selects_alert(a: AlertView)
    ensures
        alert_entry_text(a, decimal(a.number)) == alert_detailed_text(a),
{
    crate::text::law_decimal_reads_back(a.number);
}

fn push_unescaped(out: &mut Vec<char>, s: &Vec<char>, flag: bool) -> (r: bool)
    ensures
        final(out)@ == old(out)@ + unescape(s@, flag).0,
        r == unescape(s@, flag).1,
{
    let ghost start = out@;
    let mut f = flag;
    for i in 0..s.len()
        invariant
            out@ == start + unescape(s@.take(i as int), flag).0,
            f == unescape(s@.take(i as int), flag).1,
    {
        let c = s[i];
        assert(s@.take(i + 1).drop_last() =~= s@.take(i as int));
        if c == 'n' && f {
            out.push('\n');
            f = false;
        } else if c == '\\' {
            f = true;
        } else {
            out.push(c);
            f = false;
        }
        assert(out@ =~= start + unescape(s@.take(i + 1), flag).0);
    }
    assert(s@.take(s@.len() as int) =~= s@);
    f
}

fn push_rule(out: &mut Vec<char>)
    ensures
        final(out)@ == old(out)@ + rule(),
{
    let ghost start = out@;
    for i in 0..80usize
        invariant
            out@ == start + Seq::new(i as nat, |j: int| '#'),
    {
        out.push('#');
        assert(out@ =~= start + Seq::new((i + 1) as nat, |j: int| '#'));
    }
    assert(out@ =~= start + rule());
}

/// Whether `s` is the single character `c`.
pub fn is_single(s: &str, c: char) -> (r: bool)
    ensures
        r == (s@ == seq![c]),
{
    let n = s.unicode_len();
    if n != 1 {
        assert(s@.len() != 1);
        return false;
    }
    let r = s.get_char(0) == c;
    assert(r ==> s@ =~= seq![c]);
    r
}

impl AlertData {
    /// An alert numbered 0 with every text field empty.
    pub fn new() -> (a: AlertData)
        ensures
            a@ == empty_alert(),
    {
        let a = AlertData {
            number: 0,
            urgency: Vec::new(),
            event: Vec::new(),
            sender: Vec::new(),
            sender_name: Vec::new(),
            headline: Vec::new(),
            description: Vec::new(),
            instruction: Vec::new(),
        };
        assert(a@ =~= empty_alert());
        a
    }

    fn push_detailed(&self, out: &mut Vec<char>)
        ensures
            final(out)@ == old(out)@ + alert_detailed_text(self@),
    {
        let ghost start = out@;
        push_rule(out);
        out.push('\n');
        let f1 = push_unescaped(out, &self.headline, false);
        out.push('\n');
        let f2 = push_unescaped(out, &self.description, f1);
        out.push('\n');
        let _f3 = push_unescaped(out, &self.instruction, f2);
        out.push('\n');
        push_rule(out);
        out.push('\n');
        assert(out@ =~= start + alert_detailed_text(self@));
    }

    fn push_simple(&self, out: &mut Vec<char>)
        ensures
            final(out)@ == old(out)@ + alert_simple_text(self@),
    {
        let ghost start = out@;
        push_decimal(out, self.number);
        push_str_chars(out, " | ");
        push_chars(out, &self.event);
        push_str_chars(out, " - ");
        push_chars(out, &self.urgency);
        push_str_chars(out, " | ");
        push_chars(out, &self.sender_name);
        push_str_chars(out, "\n");
        assert(out@ =~= start + alert_simple_text(self@));
    }

    /// What the detailed display of this alert prints.
    pub fn detailed_text(&self) -> (s: String)
        ensures
            s@ == alert_detailed_text(self@),
    {
        let mut out: Vec<char> = Vec::new();
        self.push_detailed(&mut out);
        assert(out@ =~= alert_detailed_text(self@));
        string_from_chars(&out)
    }

    /// What the one-line display of this alert prints.
    pub fn simple_text(&self) -> (s: String)
        ensures
            s@ == alert_simple_text(self@),
    {
        let mut out: Vec<char> = Vec::new();
        self.push_simple(&mut out);
        assert(out@ =~= alert_simple_text(self@));
        string_from_chars(&out)
    }
}

/// The text an alert listing shows for the choice `detail` (see
/// `alert_listing_text`).
pub fn alert_listing(alerts: &Vec<AlertData>, detail: &str) -> (s: String)
    ensures
        s@ == alert_listing_text(alert_views(alerts@), detail@),
{
    let picked = parse_u8(detail);
    let simple = is_single(detail, 'S') || is_single(detail, 's');
    let mut out: Vec<char> = Vec::new();
    let ghost all = alert_views(alerts@);
    for i in 0..alerts.len()
        invariant
            all == alert_views(alerts@),
            picked == parsed_u8(detail@),
            simple == (detail@ == seq!['S'] || detail@ == seq!['s']),
            out@ == alert_listing_text(all.take(i as int), detail@),
    {
        let a = &alerts[i];
        match picked {
            Some(num) => {
                if a.number == num {
                    a.push_detailed(&mut out);
                }
            },
            None => {
                if simple {
                    a.push_simple(&mut out);
                }
            },
        }
        assert(all.take(i + 1).drop_last() =~= all.take(i as int));
        assert(all.take(i + 1).last() == a@);
        assert(out@ =~= alert_listing_text(all.take(i + 1), detail@));
    }
    assert(all.take(alerts@.len() as int) =~= all);
    string_from_chars(&out)
}

} // verus!
