//! Text values, and the fraktur letter mapping used by bare (unquoted) text
//! literals: each ASCII letter has a fraktur counterpart, and a bare run of
//! fraktur letters denotes a text literal.

use vstd::prelude::*;
use vstd::string::StrSliceExecFns;

verus! {

/// The fraktur counterpart of an ASCII letter, if `chr` is one.
pub open spec fn spec_to_fraktur(chr: char) -> Option<char> {
    match chr {
        'A' => Some('𝔄'),
        'B' => Some('𝔅'),
        'C' => Some('ℭ'),
        'D' => Some('𝔇'),
        'E' => Some('𝔈'),
        'F' => Some('𝔉'),
        'G' => Some('𝔊'),
        'H' => Some('ℌ'),
        'I' => Some('ℑ'),
        'J' => Some('𝔍'),
        'K' => Some('𝔎'),
        'L' => Some('𝔏'),
        'M' => Some('𝔐'),
        'N' => Some('𝔑'),
        'O' => Some('𝔒'),
        'P' => Some('𝔓'),
        'Q' => Some('𝔔'),
        'R' => Some('ℜ'),
        'S' => Some('𝔖'),
        'T' => Some('𝔗'),
        'U' => Some('𝔘'),
        'V' => Some('𝔙'),
        'W' => Some('𝔚'),
        'X' => Some('𝔛'),
        'Y' => Some('𝔜'),
        'Z' => Some('ℨ'),
        'a' => Some('𝔞'),
        'b' => Some('𝔟'),
        'c' => Some('𝔠'),
        'd' => Some('𝔡'),
        'e' => Some('𝔢'),
        'f' => Some('𝔣'),
        'g' => Some('𝔤'),
        'h' => Some('𝔥'),
        'i' => Some('𝔦'),
        'j' => Some('𝔧'),
        'k' => Some('𝔨'),
        'l' => Some('𝔩'),
        'm' => Some('𝔪'),
        'n' => Some('𝔫'),
        'o' => Some('𝔬'),
        'p' => Some('𝔭'),
        'q' => Some('𝔮'),
        'r' => Some('𝔯'),
        's' => Some('𝔰'),
        't' => Some('𝔱'),
        'u' => Some('𝔲'),
        'v' => Some('𝔳'),
        'w' => Some('𝔴'),
        'x' => Some('𝔵'),
        'y' => Some('𝔶'),
        'z' => Some('𝔷'),
        _ => None,
    }
}

/// The ASCII counterpart of a fraktur letter, if `chr` is one.
pub open spec fn spec_from_fraktur(chr: char) -> Option<char> {
    match chr {
        '𝔄' => Some('A'),
        '𝔅' => Some('B'),
        'ℭ' => Some('C'),
        '𝔇' => Some('D'),
        '𝔈' => Some('E'),
        '𝔉' => Some('F'),
        '𝔊' => Some('G'),
        'ℌ' => Some('H'),
        'ℑ' => Some('I'),
        '𝔍' => Some('J'),
        '𝔎' => Some('K'),
        '𝔏' => Some('L'),
        '𝔐' => Some('M'),
        '𝔑' => Some('N'),
        '𝔒' => Some('O'),
        '𝔓' => Some('P'),
        '𝔔' => Some('Q'),
        'ℜ' => Some('R'),
        '𝔖' => Some('S'),
        '𝔗' => Some('T'),
        '𝔘' => Some('U'),
        '𝔙' => Some('V'),
        '𝔚' => Some('W'),
        '𝔛' => Some('X'),
        '𝔜' => Some('Y'),
        'ℨ' => Some('Z'),
        '𝔞' => Some('a'),
        '𝔟' => Some('b'),
        '𝔠' => Some('c'),
        '𝔡' => Some('d'),
        '𝔢' => Some('e'),
        '𝔣' => Some('f'),
        '𝔤' => Some('g'),
        '𝔥' => Some('h'),
        '𝔦' => Some('i'),
        '𝔧' => Some('j'),
        '𝔨' => Some('k'),
        '𝔩' => Some('l'),
        '𝔪' => Some('m'),
        '𝔫' => Some('n'),
        '𝔬' => Some('o'),
        '𝔭' => Some('p'),
        '𝔮' => Some('q'),
        '𝔯' => Some('r'),
        '𝔰' => Some('s'),
        '𝔱' => Some('t'),
        '𝔲' => Some('u'),
        '𝔳' => Some('v'),
        '𝔴' => Some('w'),
        '𝔵' => Some('x'),
        '𝔶' => Some('y'),
        '𝔷' => Some('z'),
        _ => None,
    }
}

/// Whether `chr` is a fraktur letter (upper or lower case).
pub open spec fn spec_is_fraktur(chr: char) -> bool {
    spec_from_fraktur(chr) is Some
}

/// Whether `chr` is a fraktur letter.
pub fn is_fraktur(chr: char) -> (r: bool)
    ensures
        r == spec_is_fraktur(chr),
{
    from_fraktur(chr).is_some()
}

/// Map an ASCII letter to its fraktur counterpart.
pub fn to_fraktur(chr: char) -> (r: Option<char>)
    ensures
        r == spec_to_fraktur(chr),
{
    match chr {
        'A' => Some('𝔄'),
        'B' => Some('𝔅'),
        'C' => Some('ℭ'),
        'D' => Some('𝔇'),
        'E' => Some('𝔈'),
        'F' => Some('𝔉'),
        'G' => Some('𝔊'),
        'H' => Some('ℌ'),
        'I' => Some('ℑ'),
        'J' => Some('𝔍'),
        'K' => Some('𝔎'),
        'L' => Some('𝔏'),
        'M' => Some('𝔐'),
        'N' => Some('𝔑'),
        'O' => Some('𝔒'),
        'P' => Some('𝔓'),
        'Q' => Some('𝔔'),
        'R' => Some('ℜ'),
        'S' => Some('𝔖'),
        'T' => Some('𝔗'),
        'U' => Some('𝔘'),
        'V' => Some('𝔙'),
        'W' => Some('𝔚'),
        'X' => Some('𝔛'),
        'Y' => Some('𝔜'),
        'Z' => Some('ℨ'),
        'a' => Some('𝔞'),
        'b' => Some('𝔟'),
        'c' => Some('𝔠'),
        'd' => Some('𝔡'),
        'e' => Some('𝔢'),
        'f' => Some('𝔣'),
        'g' => Some('𝔤'),
        'h' => Some('𝔥'),
        'i' => Some('𝔦'),
        'j' => Some('𝔧'),
        'k' => Some('𝔨'),
        'l' => Some('𝔩'),
        'm' => Some('𝔪'),
        'n' => Some('𝔫'),
        'o' => Some('𝔬'),
        'p' => Some('𝔭'),
        'q' => Some('𝔮'),
        'r' => Some('𝔯'),
        's' => Some('𝔰'),
        't' => Some('𝔱'),
        'u' => Some('𝔲'),
        'v' => Some('𝔳'),
        'w' => Some('𝔴'),
        'x' => Some('𝔵'),
        'y' => Some('𝔶'),
        'z' => Some('𝔷'),
        _ => None,
    }
}

/// Map a fraktur letter back to its ASCII counterpart.
pub fn from_fraktur(chr: char) -> (r: Option<char>)
    ensures
        r == spec_from_fraktur(chr),
{
    match chr {
        '𝔄' => Some('A'),
        '𝔅' => Some('B'),
        'ℭ' => Some('C'),
        '𝔇' => Some('D'),
        '𝔈' => Some('E'),
        '𝔉' => Some('F'),
        '𝔊' => Some('G'),
        'ℌ' => Some('H'),
        'ℑ' => Some('I'),
        '𝔍' => Some('J'),
        '𝔎' => Some('K'),
        '𝔏' => Some('L'),
        '𝔐' => Some('M'),
        '𝔑' => Some('N'),
        '𝔒' => Some('O'),
        '𝔓' => Some('P'),
        '𝔔' => Some('Q'),
        'ℜ' => Some('R'),
        '𝔖' => Some('S'),
        '𝔗' => Some('T'),
        '𝔘' => Some('U'),
        '𝔙' => Some('V'),
        '𝔚' => Some('W'),
        '𝔛' => Some('X'),
        '𝔜' => Some('Y'),
        'ℨ' => Some('Z'),
        '𝔞' => Some('a'),
        '𝔟' => Some('b'),
        '𝔠' => Some('c'),
        '𝔡' => Some('d'),
        '𝔢' => Some('e'),
        '𝔣' => Some('f'),
        '𝔤' => Some('g'),
        '𝔥' => Some('h'),
        '𝔦' => Some('i'),
        '𝔧' => Some('j'),
        '𝔨' => Some('k'),
        '𝔩' => Some('l'),
        '𝔪' => Some('m'),
        '𝔫' => Some('n'),
        '𝔬' => Some('o'),
        '𝔭' => Some('p'),
        '𝔮' => Some('q'),
        '𝔯' => Some('r'),
        '𝔰' => Some('s'),
        '𝔱' => Some('t'),
        '𝔲' => Some('u'),
        '𝔳' => Some('v'),
        '𝔴' => Some('w'),
        '𝔵' => Some('x'),
        '𝔶' => Some('y'),
        '𝔷' => Some('z'),
        _ => None,
    }
}

/// Compare two string slices character for character.
pub fn str_eq(a: &str, b: &str) -> (r: bool)
    ensures
        r == (a@ == b@),
{
    let alen = a.unicode_len();
    let blen = b.unicode_len();
    if alen != blen {
        return false;
    }
    let mut i: usize = 0;
    while i < alen
        invariant
            alen == a@.len(),
            blen == b@.len(),
            alen == blen,
            i <= alen,
            forall|j: int| 0 <= j < i as int ==> a@[j] == b@[j],
        decreases alen - i,
    {
        if a.get_char(i) != b.get_char(i) {
            return false;
        }
        i = i + 1;
    }
    proof {
        assert(a@ =~= b@);
    }
    true
}

/// A text value: an immutable sequence of characters.
#[derive(PartialEq, Eq, Debug, Hash)]
pub struct Text {
    chars: String,
}

impl View for Text {
    type V = Seq<char>;

    closed spec fn view(&self) -> Seq<char> {
        self.chars@
    }
}

/// Where a character sits relative to a text of length `len`: non-negative
/// indices count from the front, negative indices from the back.
pub open spec fn spec_char_at(s: Seq<char>, index: int) -> Option<char> {
    let j = if index < 0 { index + s.len() } else { index };
    if 0 <= j < s.len() {
        Some(s[j])
    } else {
        None
    }
}

impl Text {
    /// Build a text value from a string.
    pub fn new(text: String) -> (r: Self)
        ensures
            r@ == text@,
    {
        Text { chars: text }
    }

    /// Build a text value from a run of fraktur letters. The letters are kept
    /// as written; no translation to ASCII is performed.
    pub fn new_fraktur(text: String) -> (r: Self)
        ensures
            r@ == text@,
    {
        Self::new(text)
    }

    /// Whether the text holds no characters.
    pub fn is_empty(&self) -> (r: bool)
        ensures
            r == (self@.len() == 0),
    {
        self.chars.as_str().unicode_len() == 0
    }

    /// The text's characters as a string slice.
    pub fn as_str(&self) -> (r: &str)
        ensures
            r@ == self@,
    {
        self.chars.as_str()
    }

    /// The character at `index`; negative indices count from the back.
    pub fn char_at(&self, index: isize) -> (r: Option<char>)
        ensures
            r == spec_char_at(self@, index as int),
    {
        let n = self.chars.as_str().unicode_len();
        if 0 <= index {
            let i = index as usize;
            if i < n {
                Some(self.chars.as_str().get_char(i))
            } else {
                None
            }
        } else {
            // index <= -1, so -(index + 1) is representable; it is the
            // distance from the last character.
            let back = (-(index + 1)) as usize;
            if back < n {
                Some(self.chars.as_str().get_char(n - 1 - back))
            } else {
                None
            }
        }
    }

    /// Compare two texts character for character.
    pub fn eq_text(&self, other: &Text) -> (r: bool)
        ensures
            r == (self@ == other@),
    {
        self.chars == other.chars
    }
}

impl Clone for Text {
    /// A clone is equal to the original.
    fn clone(&self) -> (r: Self)
        ensures
            r == *self,
    {
        Text { chars: self.chars.clone() }
    }
}

} // verus!
