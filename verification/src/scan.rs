//! Character-scanning helpers shared by the cell parsers: the whitespace
//! alphabet, trimming, and first-occurrence searches.

use vstd::prelude::*;
use vstd::string::StrSliceExecFns;

verus! {

/// The full-width solidus that separates the two parts of a phase cell.
pub open spec fn is_phase_sep(c: char) -> bool {
    c == '\u{FF0F}'
}

/// A whitespace character: the closed list of code points with the Unicode
/// White_Space property.
pub open spec fn is_space(c: char) -> bool {
    ||| c == '\u{0009}'
    ||| c == '\u{000A}'
    ||| c == '\u{000B}'
    ||| c == '\u{000C}'
    ||| c == '\u{000D}'
    ||| c == '\u{0020}'
    ||| c == '\u{0085}'
    ||| c == '\u{00A0}'
    ||| c == '\u{1680}'
    ||| c == '\u{2000}'
    ||| c == '\u{2001}'
    ||| c == '\u{2002}'
    ||| c == '\u{2003}'
    ||| c == '\u{2004}'
    ||| c == '\u{2005}'
    ||| c == '\u{2006}'
    ||| c == '\u{2007}'
    ||| c == '\u{2008}'
    ||| c == '\u{2009}'
    ||| c == '\u{200A}'
    ||| c == '\u{2028}'
    ||| c == '\u{2029}'
    ||| c == '\u{202F}'
    ||| c == '\u{205F}'
    ||| c == '\u{3000}'
}

pub fn is_space_char(c: char) -> (r: bool)
    ensures
        r == is_space(c),
{
    c == '\u{0009}' || c == '\u{000A}' || c == '\u{000B}' || c == '\u{000C}' || c == '\u{000D}'
        || c == '\u{0020}' || c == '\u{0085}' || c == '\u{00A0}' || c == '\u{1680}'
        || c == '\u{2000}' || c == '\u{2001}' || c == '\u{2002}' || c == '\u{2003}'
        || c == '\u{2004}' || c == '\u{2005}' || c == '\u{2006}' || c == '\u{2007}'
        || c == '\u{2008}' || c == '\u{2009}' || c == '\u{200A}' || c == '\u{2028}'
        || c == '\u{2029}' || c == '\u{202F}' || c == '\u{205F}' || c == '\u{3000}'
}

/// The string without its leading whitespace.
pub open spec fn trim_front(s: Seq<char>) -> Seq<char>
    decreases s.len(),
{
    if s.len() > 0 && is_space(s[0]) {
        trim_front(s.drop_first())
    } else {
        s
    }
}

/// The string without its trailing whitespace.
pub open spec fn trim_back(s: Seq<char>) -> Seq<char>
    decreases s.len(),
{
    if s.len() > 0 && is_space(s.last()) {
        trim_back(s.drop_last())
    } else {
        s
    }
}

/// The string without surrounding whitespace.
pub open spec fn trim(s: Seq<char>) -> Seq<char> {
    trim_back(trim_front(s))
}

/// Returns the slice of `s` without surrounding whitespace.
pub fn trimmed<'a>(s: &'a str) -> (r: &'a str)
    ensures
        r@ == trim(s@),
{
    let len = s.unicode_len();
    let mut a: usize = 0;
    proof {
        assert(s@.skip(0) =~= s@);
    }
    while a < len && is_space_char(s.get_char(a))
        invariant
            a <= len,
            len == s@.len(),
            trim_front(s@) == trim_front(s@.skip(a as int)),
        decreases len - a,
    {
        proof {
            assert(s@.skip(a as int)[0] == s@[a as int]);
            assert(s@.skip(a as int).drop_first() =~= s@.skip(a as int + 1));
        }
        a = a + 1;
    }
    proof {
        if a < len {
            assert(s@.skip(a as int)[0] == s@[a as int]);
        }
        assert(trim_front(s@) == s@.skip(a as int));
        assert(s@.skip(a as int) =~= s@.subrange(a as int, len as int));
    }
    let mut b: usize = len;
    while b > a && is_space_char(s.get_char(b - 1))
        invariant
            a <= b <= len,
            len == s@.len(),
            trim_front(s@) == s@.subrange(a as int, len as int),
            trim_back(s@.subrange(a as int, len as int)) == trim_back(
                s@.subrange(a as int, b as int),
            ),
        decreases b,
    {
        proof {
            assert(s@.subrange(a as int, b as int).last() == s@[b as int - 1]);
            assert(s@.subrange(a as int, b as int).drop_last() =~= s@.subrange(
                a as int,
                b as int - 1,
            ));
        }
        b = b - 1;
    }
    proof {
        if b > a {
            assert(s@.subrange(a as int, b as int).last() == s@[b as int - 1]);
        }
        assert(trim_back(s@.subrange(a as int, b as int)) == s@.subrange(a as int, b as int));
    }
    s.substring_char(a, b)
}

/// The index of the first phase separator in the string, or -1 if none.
pub open spec fn find_sep(s: Seq<char>) -> int
    decreases s.len(),
{
    if s.len() == 0 {
        -1
    } else if is_phase_sep(s[0]) {
        0
    } else {
        if find_sep(s.drop_first()) < 0 {
            -1
        } else {
            find_sep(s.drop_first()) + 1
        }
    }
}

pub proof fn lemma_find_sep(s: Seq<char>)
    ensures
        find_sep(s) < 0 ==> forall|j: int| 0 <= j < s.len() ==> !is_phase_sep(#[trigger] s[j]),
        find_sep(s) >= 0 ==> {
            &&& find_sep(s) < s.len()
            &&& is_phase_sep(s[find_sep(s)])
            &&& forall|j: int| 0 <= j < find_sep(s) ==> !is_phase_sep(#[trigger] s[j])
        },
    decreases s.len(),
{
    if s.len() > 0 && !is_phase_sep(s[0]) {
        let t = s.drop_first();
        lemma_find_sep(t);
        if find_sep(t) < 0 {
            assert forall|j: int| 0 <= j < s.len() implies !is_phase_sep(#[trigger] s[j]) by {
                if j > 0 {
                    assert(t[j - 1] == s[j]);
                }
            }
        } else {
            assert(s[find_sep(s)] == t[find_sep(t)]);
            assert forall|j: int| 0 <= j < find_sep(s) implies !is_phase_sep(#[trigger] s[j]) by {
                if j > 0 {
                    assert(t[j - 1] == s[j]);
                }
            }
        }
    }
}

/// Returns the index of the first phase separator, if any.
pub fn find_sep_in(s: &str) -> (r: Option<usize>)
    ensures
        r matches Some(i) ==> find_sep(s@) == i as int,
        r is None ==> find_sep(s@) < 0,
{
    let len = s.unicode_len();
    let mut i: usize = 0;
    while i < len
        invariant
            i <= len,
            len == s@.len(),
            forall|j: int| 0 <= j < i ==> !is_phase_sep(#[trigger] s@[j]),
        decreases len - i,
    {
        let c = s.get_char(i);
        if c == '\u{FF0F}' {
            proof {
                lemma_find_sep(s@);
            }
            return Some(i);
        }
        i = i + 1;
    }
    proof {
        lemma_find_sep(s@);
    }
    None
}

/// The index of the first whitespace character in the string, or -1 if none.
pub open spec fn find_space(s: Seq<char>) -> int
    decreases s.len(),
{
    if s.len() == 0 {
        -1
    } else if is_space(s[0]) {
        0
    } else {
        if find_space(s.drop_first()) < 0 {
            -1
        } else {
            find_space(s.drop_first()) + 1
        }
    }
}

pub proof fn lemma_find_space(s: Seq<char>)
    ensures
        find_space(s) < 0 ==> forall|j: int| 0 <= j < s.len() ==> !is_space(#[trigger] s[j]),
        find_space(s) >= 0 ==> {
            &&& find_space(s) < s.len()
            &&& is_space(s[find_space(s)])
            &&& forall|j: int| 0 <= j < find_space(s) ==> !is_space(#[trigger] s[j])
        },
    decreases s.len(),
{
    if s.len() > 0 && !is_space(s[0]) {
        let t = s.drop_first();
        lemma_find_space(t);
        if find_space(t) < 0 {
            assert forall|j: int| 0 <= j < s.len() implies !is_space(#[trigger] s[j]) by {
                if j > 0 {
                    assert(t[j - 1] == s[j]);
                }
            }
        } else {
            assert(s[find_space(s)] == t[find_space(t)]);
            assert forall|j: int| 0 <= j < find_space(s) implies !is_space(#[trigger] s[j]) by {
                if j > 0 {
                    assert(t[j - 1] == s[j]);
                }
            }
        }
    }
}

/// Returns the index of the first whitespace character, if any.
pub fn find_space_in(s: &str) -> (r: Option<usize>)
    ensures
        r matches Some(i) ==> find_space(s@) == i as int,
        r is None ==> find_space(s@) < 0,
{
    let len = s.unicode_len();
    let mut i: usize = 0;
    while i < len
        invariant
            i <= len,
            len == s@.len(),
            forall|j: int| 0 <= j < i ==> !is_space(#[trigger] s@[j]),
        decreases len - i,
    {
        let c = s.get_char(i);
        if is_space_char(c) {
            proof {
                lemma_find_space(s@);
            }
            return Some(i);
        }
        i = i + 1;
    }
    proof {
        lemma_find_space(s@);
    }
    None
}

} // verus!
