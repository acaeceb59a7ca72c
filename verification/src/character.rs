//! The in-memory character sheet: three core attributes and twelve
//! abilities, every stat defaulting to 1.

use vstd::prelude::*;
use vstd::string::*;
use crate::strutil::{push_char, spec_dec, u64_to_string};

verus! {

/// A character sheet.  All stats default to 1; the typical range is 1-5 but
/// no cap is enforced.
#[derive(Debug, Clone)]
pub struct Character {
    pub name: String,
    // Core attributes
    pub physical: u32,
    pub social: u32,
    pub mental: u32,
    // Talents (innate abilities)
    pub athletics: u32,
    pub awareness: u32,
    pub brawl: u32,
    pub streetwise: u32,
    // Skills (trained abilities)
    pub combat: u32,
    pub stealth: u32,
    pub survival: u32,
    pub performance: u32,
    // Knowledges (academic abilities)
    pub academics: u32,
    pub science: u32,
    pub investigation: u32,
    pub occult: u32,
}

/// The text that renders a stat as filled dots followed by the numeric
/// value in parentheses.
pub open spec fn spec_dots(value: nat) -> Seq<char> {
    Seq::new(value, |i: int| '\u{25CF}') + seq![' ', '('] + spec_dec(value) + seq![')']
}

impl Character {
    /// Creates a character with the given name and every stat at 1.
    pub fn new(name: String) -> (c: Character)
        ensures
            c.name == name,
            c.physical == 1 && c.social == 1 && c.mental == 1,
            c.athletics == 1 && c.awareness == 1 && c.brawl == 1 && c.streetwise == 1,
            c.combat == 1 && c.stealth == 1 && c.survival == 1 && c.performance == 1,
            c.academics == 1 && c.science == 1 && c.investigation == 1 && c.occult == 1,
    {
        Character {
            name,
            physical: 1,
            social: 1,
            mental: 1,
            athletics: 1,
            awareness: 1,
            brawl: 1,
            streetwise: 1,
            combat: 1,
            stealth: 1,
            survival: 1,
            performance: 1,
            academics: 1,
            science: 1,
            investigation: 1,
            occult: 1,
        }
    }

    /// Formats a stat value as a row of dots with the numeric value.
    pub fn format_dots(&self, value: u32) -> (r: String)
        ensures
            r@ == spec_dots(value as nat),
    {
        let mut s = String::new();
        let mut i: u32 = 0;
        while i < value
            invariant
                i <= value,
                s@ =~= Seq::new(i as nat, |k: int| '\u{25CF}'),
            decreases value - i,
        {
            push_char(&mut s, '\u{25CF}');
            assert(s@ =~= Seq::new((i + 1) as nat, |k: int| '\u{25CF}'));
            i = i + 1;
        }
        push_char(&mut s, ' ');
        push_char(&mut s, '(');
        let digits = u64_to_string(value as u64);
        s.append(digits.as_str());
        push_char(&mut s, ')');
        assert(s@ =~= spec_dots(value as nat));
        s
    }
}

} // verus!
