//! Inbound update requests and their validation: pure structural checks
//! on a request, performed before any storage access, reporting the first
//! violation found.

use vstd::prelude::*;
use vstd::string::*;
use vstd::utf8::encode_utf8;
use crate::encode::{escape_into, spec_escape};
use crate::strutil::{push_char, spec_dec, spec_dec_signed, u64_to_string, i32_to_string};

verus! {

/// One entry of a request's list-of-items field.
#[derive(Debug, Clone)]
pub struct ControlItem {
    pub num: i32,
    pub name: String,
    pub item_type: String,
    pub info: String,
}

/// An inbound request to update the `controls` field of a character's
/// document.
#[derive(Debug)]
pub struct UpdateControlsRequest {
    pub character_name: String,
    pub game: String,
    pub controls: Vec<ControlItem>,
}

/// The structured body returned to a caller when a request fails.
#[derive(Debug)]
pub struct ErrorResponse {
    pub success: bool,
    pub error: String,
}

/// The number of bytes of the UTF-8 encoding of a character sequence; the
/// length that the validation bounds are measured in.
pub open spec fn byte_len(s: Seq<char>) -> nat {
    encode_utf8(s).len()
}

/// A character with the Unicode `White_Space` property, as `str::trim`
/// removes it.
pub open spec fn is_space_char(c: char) -> bool {
    let u = c as u32;
    u == 0x20 || (0x09 <= u && u <= 0x0D) || u == 0x85 || u == 0xA0 || u == 0x1680 || (0x2000
        <= u && u <= 0x200A) || u == 0x2028 || u == 0x2029 || u == 0x202F || u == 0x205F || u
        == 0x3000
}

/// True when the sequence is empty or all whitespace: exactly when trimming
/// leaves nothing.
pub open spec fn spec_is_blank(s: Seq<char>) -> bool {
    forall|i: int| 0 <= i < s.len() ==> is_space_char(s[i])
}

/// True when the sequence is empty or all whitespace.
pub fn is_blank(s: &str) -> (r: bool)
    ensures
        r == spec_is_blank(s@),
{
    let len = s.unicode_len();
    let mut i: usize = 0;
    while i < len
        invariant
            len == s@.len(),
            i <= len,
            forall|j: int| 0 <= j < i ==> is_space_char(s@[j]),
        decreases len - i,
    {
        let c = s.get_char(i);
        let u = c as u32;
        let space = u == 0x20 || (0x09 <= u && u <= 0x0D) || u == 0x85 || u == 0xA0 || u
            == 0x1680 || (0x2000 <= u && u <= 0x200A) || u == 0x2028 || u == 0x2029 || u
            == 0x202F || u == 0x205F || u == 0x3000;
        if !space {
            return false;
        }
        i = i + 1;
    }
    true
}

/// The first violation in a single item, as the message validation reports.
pub open spec fn item_error(c: ControlItem) -> Option<Seq<char>> {
    if spec_is_blank(c.name@) {
        Some("Control name cannot be empty"@)
    } else if byte_len(c.name@) > 200 {
        Some("Control name too long (max 200)"@)
    } else if spec_is_blank(c.item_type@) {
        Some("Control type cannot be empty"@)
    } else if byte_len(c.info@) > 1000 {
        Some("Control info too long (max 1000)"@)
    } else {
        None
    }
}

/// The prefix naming the 1-based position of a failing item.
pub open spec fn control_prefix(i: int) -> Seq<char> {
    "Control "@ + spec_dec((i + 1) as nat) + ": "@
}

/// The first violation among the items at positions `i` and later, with its
/// position prefix.
pub open spec fn items_error_from(cs: Seq<ControlItem>, i: int) -> Option<Seq<char>>
    decreases cs.len() - i,
{
    if i < 0 || i >= cs.len() {
        None
    } else if item_error(cs[i]) is Some {
        Some(control_prefix(i) + item_error(cs[i]).unwrap())
    } else {
        items_error_from(cs, i + 1)
    }
}

/// The first violation in a whole request, in the order the checks run:
/// character name, game name, list length, then each item in turn.
pub open spec fn request_error(r: UpdateControlsRequest) -> Option<Seq<char>> {
    if spec_is_blank(r.character_name@) {
        Some("Character name cannot be empty"@)
    } else if byte_len(r.character_name@) > 100 {
        Some("Character name exceeds maximum length (100)"@)
    } else if spec_is_blank(r.game@) {
        Some("Game name cannot be empty"@)
    } else if byte_len(r.game@) > 100 {
        Some("Game name exceeds maximum length (100)"@)
    } else if r.controls@.len() > 100 {
        Some("Too many controls (maximum 100)"@)
    } else {
        items_error_from(r.controls@, 0)
    }
}

/// The compact JSON object that one item serializes to, fields in
/// declaration order.
pub open spec fn spec_control_json(c: ControlItem) -> Seq<char> {
    "{\"num\":"@ + spec_dec_signed(c.num as int) + ",\"name\":\""@ + spec_escape(c.name@)
        + "\",\"type\":\""@ + spec_escape(c.item_type@) + "\",\"info\":\""@ + spec_escape(c.info@)
        + "\"}"@
}

/// The comma-separated serializations of a sequence of items.
pub open spec fn spec_controls_items(cs: Seq<ControlItem>) -> Seq<char>
    decreases cs.len(),
{
    if cs.len() == 0 {
        Seq::empty()
    } else if cs.len() == 1 {
        spec_control_json(cs[0])
    } else {
        spec_controls_items(cs.drop_last()) + seq![','] + spec_control_json(cs.last())
    }
}

/// The compact JSON array that a list of items serializes to.
pub open spec fn spec_controls_json(cs: Seq<ControlItem>) -> Seq<char> {
    seq!['['] + spec_controls_items(cs) + seq![']']
}

fn control_json_into(out: &mut String, c: &ControlItem)
    ensures
        final(out)@ == old(out)@ + spec_control_json(*c),
{
    out.append("{\"num\":");
    let numtxt = i32_to_string(c.num);
    out.append(numtxt.as_str());
    out.append(",\"name\":\"");
    escape_into(out, c.name.as_str());
    out.append("\",\"type\":\"");
    escape_into(out, c.item_type.as_str());
    out.append("\",\"info\":\"");
    escape_into(out, c.info.as_str());
    out.append("\"}");
    assert(out@ =~= old(out)@ + spec_control_json(*c));
}

/// Serializes a list of items to the compact JSON array text that is merged
/// into a character's document under the `controls` key.
pub fn controls_to_json(cs: &Vec<ControlItem>) -> (r: String)
    ensures
        r@ == spec_controls_json(cs@),
{
    let mut out = String::new();
    push_char(&mut out, '[');
    let n = cs.len();
    let mut i: usize = 0;
    while i < n
        invariant
            n == cs@.len(),
            i <= n,
            out@ == seq!['['] + spec_controls_items(cs@.take(i as int)),
        decreases n - i,
    {
        if i > 0 {
            push_char(&mut out, ',');
        }
        control_json_into(&mut out, &cs[i]);
        proof {
            if i == 0 {
                assert(cs@.take(1)[0] == cs@[0]);
                assert(out@ =~= seq!['['] + spec_controls_items(cs@.take(1)));
            } else {
                assert(cs@.take(i + 1).drop_last() =~= cs@.take(i as int));
                assert(cs@.take(i + 1).last() == cs@[i as int]);
                assert(out@ =~= seq!['['] + spec_controls_items(cs@.take(i + 1)));
            }
        }
        i = i + 1;
    }
    push_char(&mut out, ']');
    proof {
        assert(cs@.take(n as int) =~= cs@);
        assert(out@ =~= spec_controls_json(cs@));
    }
    out
}

impl ControlItem {
    /// Checks a single item against the validation bounds, reporting the first
    /// violation.
    pub fn validate(&self) -> (r: Result<(), String>)
        ensures
            match r {
                Ok(()) => item_error(*self) is None,
                Err(m) => item_error(*self) == Some(m@),
            },
    {
        if is_blank(self.name.as_str()) {
            return Err("Control name cannot be empty".to_owned());
        }
        if self.name.as_str().as_bytes().len() > 200 {
            return Err("Control name too long (max 200)".to_owned());
        }
        if is_blank(self.item_type.as_str()) {
            return Err("Control type cannot be empty".to_owned());
        }
        if self.info.as_str().as_bytes().len() > 1000 {
            return Err("Control info too long (max 1000)".to_owned());
        }
        Ok(())
    }
}

impl UpdateControlsRequest {
    /// Checks the request against every validation rule, reporting the
    /// first violation; no storage is touched either way.
    pub fn validate(&self) -> (r: Result<(), String>)
        ensures
            match r {
                Ok(()) => request_error(*self) is None,
                Err(m) => request_error(*self) == Some(m@),
            },
    {
        if is_blank(self.character_name.as_str()) {
            return Err("Character name cannot be empty".to_owned());
        }
        if self.character_name.as_str().as_bytes().len() > 100 {
            return Err("Character name exceeds maximum length (100)".to_owned());
        }
        if is_blank(self.game.as_str()) {
            return Err("Game name cannot be empty".to_owned());
        }
        if self.game.as_str().as_bytes().len() > 100 {
            return Err("Game name exceeds maximum length (100)".to_owned());
        }
        if self.controls.len() > 100 {
            return Err("Too many controls (maximum 100)".to_owned());
        }
        let n = self.controls.len();
        let mut i: usize = 0;
        while i < n
            invariant
                n == self.controls@.len(),
                n <= 100,
                i <= n,
                !spec_is_blank(self.character_name@),
                byte_len(self.character_name@) <= 100,
                !spec_is_blank(self.game@),
                byte_len(self.game@) <= 100,
                items_error_from(self.controls@, 0) == items_error_from(self.controls@, i as int),
            decreases n - i,
        {
            let item = &self.controls[i];
            match item.validate() {
                Ok(()) => {},
                Err(e) => {
                    let mut m = "Control ".to_owned();
                    let digits = u64_to_string((i as u64) + 1);
                    m.append(digits.as_str());
                    m.append(": ");
                    m.append(e.as_str());
                    proof {
                        assert(m@ =~= control_prefix(i as int) + item_error(
                            self.controls@[i as int],
                        ).unwrap());
                    }
                    return Err(m);
                },
            }
            i = i + 1;
        }
        Ok(())
    }
}

} // verus!
