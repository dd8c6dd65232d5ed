//! The reserved keys of the attribute-value shorthand.

use vstd::prelude::*;
use vstd::string::StrSliceExecFns;

verus! {

/// The ten reserved keys. A single-entry object whose key is one of them is
/// read as a shorthand for the value it wraps.
#[derive(Clone, Copy, Debug, PartialEq, Eq, Structural)]
pub enum AttributeTag {
    N,
    S,
    L,
    M,
    B,
    Bool,
    Null,
    Ns,
    Ss,
    Bs,
}

/// The reserved key that a text spells, if it spells one: `N`, `S`, `L`, `M`,
/// `B`, `BOOL`, `NULL`, `NS`, `SS` or `BS`, letter for letter.
pub open spec fn attribute_tag(key: Seq<char>) -> Option<AttributeTag> {
    if key == seq!['N'] {
        Some(AttributeTag::N)
    } else if key == seq!['S'] {
        Some(AttributeTag::S)
    } else if key == seq!['L'] {
        Some(AttributeTag::L)
    } else if key == seq!['M'] {
        Some(AttributeTag::M)
    } else if key == seq!['B'] {
        Some(AttributeTag::B)
    } else if key == seq!['B', 'O', 'O', 'L'] {
        Some(AttributeTag::Bool)
    } else if key == seq!['N', 'U', 'L', 'L'] {
        Some(AttributeTag::Null)
    } else if key == seq!['N', 'S'] {
        Some(AttributeTag::Ns)
    } else if key == seq!['S', 'S'] {
        Some(AttributeTag::Ss)
    } else if key == seq!['B', 'S'] {
        Some(AttributeTag::Bs)
    } else {
        None
    }
}

impl AttributeTag {
    /// Tells which reserved key `key` is, if any.
    pub fn from_key(key: &str) -> (tag: Option<AttributeTag>)
        ensures
            tag == attribute_tag(key@),
    {
        let n: usize = key.unicode_len();
        if n == 1 {
            let c: char = key.get_char(0);
            assert(key@ =~= seq![c]);
            if c == 'N' {
                Some(AttributeTag::N)
            } else if c == 'S' {
                Some(AttributeTag::S)
            } else if c == 'L' {
                Some(AttributeTag::L)
            } else if c == 'M' {
                Some(AttributeTag::M)
            } else if c == 'B' {
                Some(AttributeTag::B)
            } else {
                assert(seq![c][0] == c);
                None
            }
        } else if n == 2 {
            let c0: char = key.get_char(0);
            let c1: char = key.get_char(1);
            assert(key@ =~= seq![c0, c1]);
            if c1 != 'S' {
                assert(seq![c0, c1][1] == c1);
                None
            } else if c0 == 'N' {
                Some(AttributeTag::Ns)
            } else if c0 == 'S' {
                Some(AttributeTag::Ss)
            } else if c0 == 'B' {
                Some(AttributeTag::Bs)
            } else {
                assert(seq![c0, c1][0] == c0);
                None
            }
        } else if n == 4 {
            let c0: char = key.get_char(0);
            let c1: char = key.get_char(1);
            let c2: char = key.get_char(2);
            let c3: char = key.get_char(3);
            assert(key@ =~= seq![c0, c1, c2, c3]);
            if c0 == 'B' && c1 == 'O' && c2 == 'O' && c3 == 'L' {
                Some(AttributeTag::Bool)
            } else if c0 == 'N' && c1 == 'U' && c2 == 'L' && c3 == 'L' {
                Some(AttributeTag::Null)
            } else {
                proof {
                    let s = seq![c0, c1, c2, c3];
                    assert(s[0] == c0 && s[1] == c1 && s[2] == c2 && s[3] == c3);
                }
                None
            }
        } else {
            assert(seq!['N'].len() == 1 && seq!['S'].len() == 1 && seq!['L'].len() == 1);
            assert(seq!['M'].len() == 1 && seq!['B'].len() == 1);
            assert(seq!['N', 'S'].len() == 2 && seq!['S', 'S'].len() == 2);
            assert(seq!['B', 'S'].len() == 2);
            assert(seq!['B', 'O', 'O', 'L'].len() == 4 && seq!['N', 'U', 'L', 'L'].len() == 4);
            None
        }
    }
}

} // verus!
