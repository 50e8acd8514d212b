//! Small text predicates and conversions shared by the other modules.

use vstd::prelude::*;
use vstd::string::*;

verus! {

/// Whether `c` has the Unicode property `White_Space`: the controls from
/// tab to carriage return, the space, next line, the no-break space, the
/// ogham space mark, the spaces from en quad to hair space, the line and
/// paragraph separators, the narrow no-break space, the medium mathematical
/// space and the ideographic space.
pub open spec fn white_space(c: char) -> bool {
    let code = c as u32;
    ||| 0x09 <= code <= 0x0D
    ||| code == 0x20
    ||| code == 0x85
    ||| code == 0xA0
    ||| code == 0x1680
    ||| 0x2000 <= code <= 0x200A
    ||| code == 0x2028
    ||| code == 0x2029
    ||| code == 0x202F
    ||| code == 0x205F
    ||| code == 0x3000
}

/// The lower-case form of a text, as the standard library computes it.
pub uninterp spec fn lowercase_of(s: Seq<char>) -> Seq<char>;

/// A text is blank when it holds nothing but white space; the empty text is
/// blank.
pub open spec fn blank(s: Seq<char>) -> bool {
    forall|i: int| 0 <= i < s.len() ==> white_space(#[trigger] s[i])
}

/// Calls `char::is_whitespace`, which tells whether a character has the
/// Unicode property `White_Space`. Nothing is proved of it: the contract
/// claims that it answers as the list above does.
#[verifier::external_body]
fn is_white_space(c: char) -> (r: bool)
    ensures
        r == white_space(c),
{
    c.is_whitespace()
}

/// Calls `str::to_lowercase`. Nothing is proved of it: the contract only
/// gives the answer its name.
#[verifier::external_body]
pub(crate) fn lowercase(s: &str) -> (r: String)
    ensures
        r@ == lowercase_of(s@),
{
    s.to_lowercase()
}

/// Whether two texts are the same, character by character.
pub fn same_text(a: &str, b: &str) -> (r: bool)
    ensures
        r == (a@ == b@),
{
    let left = a.to_owned();
    let right = b.to_owned();
    left == right
}

/// Decides whether a text is blank, that is, whether trimming it would leave
/// nothing.
pub fn is_blank(s: &str) -> (r: bool)
    ensures
        r == blank(s@),
{
    let mut all: bool = true;
    for c in it: s.chars()
        invariant
            it.seq() == s@,
            all == blank(s@.take(it.index() as int)),
    {
        let ghost i: int = it.index() as int;
        let ghost before: bool = all;
        all = all && is_white_space(c);
        proof {
            let shorter = s@.take(i);
            let longer = s@.take(i + 1);
            assert(longer[i] == c);
            if all {
                assert forall|j: int| 0 <= j < longer.len() implies white_space(
                    #[trigger] longer[j],
                ) by {
                    if j < i {
                        assert(shorter[j] == longer[j]);
                    }
                }
            } else if before {
                assert(!white_space(longer[i]));
            } else {
                let j = choose|j: int| 0 <= j < shorter.len() && !white_space(shorter[j]);
                assert(longer[j] == shorter[j]);
            }
        }
    }
    proof {
        assert(s@.take(s@.len() as int) == s@);
    }
    all
}

} // verus!
