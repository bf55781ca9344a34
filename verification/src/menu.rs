use vstd::prelude::*;

use crate::alerts::is_single;
use crate::text::{push_str_chars, str_chars, string_from_chars};

verus! {

/// What a character typed at the main menu asks for.
pub enum MenuChoice {
    Alerts,
    Forecast,
    Location,
    Observations,
    Quit,
    Units,
    Nothing,
}

/// The main menu's reading of a typed character (either case).
pub open spec fn menu_choice_of(c: char) -> MenuChoice {
    if c == 'F' || c == 'f' {
        MenuChoice::Forecast
    } else if c == 'A' || c == 'a' {
        MenuChoice::Alerts
    } else if c == 'L' || c == 'l' {
        MenuChoice::Location
    } else if c == 'O' || c == 'o' {
        MenuChoice::Observations
    } else if c == 'U' || c == 'u' {
        MenuChoice::Units
    } else if c == 'Q' || c == 'q' {
        MenuChoice::Quit
    } else {
        MenuChoice::Nothing
    }
}

/// What a character typed at the main menu asks for.
pub fn menu_choice(c: char) -> (r: MenuChoice)
    ensures
        r == menu_choice_of(c),
{
    if c == 'F' || c == 'f' {
        MenuChoice::Forecast
    } else if c == 'A' || c == 'a' {
        MenuChoice::Alerts
    } else if c == 'L' || c == 'l' {
        MenuChoice::Location
    } else if c == 'O' || c == 'o' {
        MenuChoice::Observations
    } else if c == 'U' || c == 'u' {
        MenuChoice::Units
    } else if c == 'Q' || c == 'q' {
        MenuChoice::Quit
    } else {
        MenuChoice::Nothing
    }
}

/// Whether a submenu input asks to go back (`B` or `b`).
pub fn is_back_command(s: &str) -> (r: bool)
    ensures
        r == (s@ == seq!['B'] || s@ == seq!['b']),
{
    is_single(s, 'B') || is_single(s, 'b')
}

/// Whether a submenu input asks for the short listing (`S` or `s`).
pub fn is_simple_command(s: &str) -> (r: bool)
    ensures
        r == (s@ == seq!['S'] || s@ == seq!['s']),
{
    is_single(s, 'S') || is_single(s, 's')
}

/// The unit system, and the confirmation lines, after the unit menu reads
/// `input` with `current` in force: each leading `I`/`i` picks `us`
/// (imperial), each leading `M`/`m` picks `si` (metric); the first other
/// character ends the reading.
pub open spec fn unit_selection_of(input: Seq<char>, current: Seq<char>) -> (Seq<char>, Seq<char>)
    decreases input.len(),
{
    if input.len() == 0 {
        (current, Seq::empty())
    } else {
        let c = input[0];
        if c == 'I' || c == 'i' {
            let (u, t) = unit_selection_of(input.drop_first(), "us"@);
            (u, "UNIT TYPE : Imperial\n"@ + t)
        } else if c == 'M' || c == 'm' {
            let (u, t) = unit_selection_of(input.drop_first(), "si"@);
            (u, "UNIT TYPE : Metric\n"@ + t)
        } else {
            (current, Seq::empty())
        }
    }
}

proof fn lemma_unit_choices(input: Seq<char>, current: Seq<char>)
    ensures
        ({
            let u = unit_selection_of(input, current).0;
            u == current || u == "us"@ || u == "si"@
        }),
    decreases input.len(),
{
    if input.len() > 0 {
        lemma_unit_choices(input.drop_first(), "us"@);
        lemma_unit_choices(input.drop_first(), "si"@);
    }
}

/// The unit menu leaves the unit system as it was, or sets it to `us` or
/// `si`: no input can select anything else.
pub proof fn law_unit_is_known(input: Seq<char>, current: Seq<char>)
    requires
        current == "us"@ || current == "si"@,
    ensures
        unit_selection_of(input, current).0 == "us"@ || unit_selection_of(input, current).0 == "si"@,
{
    lemma_unit_choices(input, current);
}

/// The unit system and the confirmation text for the unit menu input `input`
/// (see `unit_selection_of`).
pub fn unit_selection(input: &str, current: &str) -> (r: (String, String))
    ensures
        r.0@ == unit_selection_of(input@, current@).0,
        r.1@ == unit_selection_of(input@, current@).1,
{
    let chars = str_chars(input);
    let mut unit: Vec<char> = str_chars(current);
    let mut text: Vec<char> = Vec::new();
    let ghost total = unit_selection_of(input@, current@);
    let mut i: usize = 0;
    let mut stopped = false;
    assert(input@.skip(0) =~= input@);
    assert(text@ + unit_selection_of(input@, current@).1 =~= unit_selection_of(input@, current@).1);
    while i < chars.len() && !stopped
        invariant
            chars@ == input@,
            i <= chars@.len(),
            stopped ==> i < chars@.len() && unit_selection_of(input@.skip(i as int), unit@) == (
                unit@,
                Seq::<char>::empty(),
            ),
            total == unit_selection_of(input@, current@),
            total.0 == unit_selection_of(input@.skip(i as int), unit@).0,
            total.1 == text@ + unit_selection_of(input@.skip(i as int), unit@).1,
        decreases chars@.len() - i + if stopped {
            0int
        } else {
            1int
        },
    {
        let c = chars[i];
        let ghost t0 = text@;
        assert(input@.skip(i as int).drop_first() =~= input@.skip(i + 1));
        if c == 'I' || c == 'i' {
            unit = str_chars("us");
            push_str_chars(&mut text, "UNIT TYPE : Imperial\n");
        } else if c == 'M' || c == 'm' {
            unit = str_chars("si");
            push_str_chars(&mut text, "UNIT TYPE : Metric\n");
        } else {
            stopped = true;
        }
        if !stopped {
            i = i + 1;
        }
    }
    if !stopped {
        assert(input@.skip(i as int) =~= Seq::<char>::empty());
    }
    assert(text@ =~= text@ + Seq::<char>::empty());
    (string_from_chars(&unit), string_from_chars(&text))
}

} // verus!
