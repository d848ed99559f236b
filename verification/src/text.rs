//! Character-level helpers shared by the parsing components: control-character
//! classification, ASCII case folding, and case-insensitive substring search.

use vstd::prelude::*;

verus! {

/// Code points in the Unicode `Cc` (control) category.
pub open spec fn is_control_char(c: char) -> bool {
    (c as u32) < 0x20 || (0x7f <= (c as u32) && (c as u32) <= 0x9f)
}

/// The code point of `c` with an ASCII capital letter folded to lower case.
pub open spec fn lower_code(c: char) -> u32 {
    if 'A' <= c && c <= 'Z' {
        ((c as u32) + 32) as u32
    } else {
        c as u32
    }
}

/// `pat` occurs at offset `i` of `hay`, compared ASCII-case-insensitively.
pub open spec fn matches_ci_at(hay: Seq<char>, pat: Seq<char>, i: int) -> bool {
    forall|j: int| 0 <= j < pat.len() ==> lower_code(hay[i + j]) == lower_code(pat[j])
}

/// `hay` contains `pat` as a substring, compared ASCII-case-insensitively.
pub open spec fn contains_ci(hay: Seq<char>, pat: Seq<char>) -> bool {
    exists|i: int| 0 <= i && i + pat.len() <= hay.len() && matches_ci_at(hay, pat, i)
}

/// Executable control-character test, matching `is_control_char`.
pub fn is_control(c: char) -> (r: bool)
    ensures
        r == is_control_char(c),
{
    let code: u32 = c as u32;
    code < 0x20 || (0x7f <= code && code <= 0x9f)
}

/// Executable ASCII case folding, matching `lower_code`.
pub fn lower_code_of(c: char) -> (r: u32)
    ensures
        r == lower_code(c),
{
    let code: u32 = c as u32;
    if 65 <= code && code <= 90 {
        code + 32
    } else {
        code
    }
}

/// Case-insensitive substring search over strings.
pub fn contains_ci_str(hay: &str, pat: &str) -> (r: bool)
    ensures
        r == contains_ci(hay@, pat@),
{
    let n = hay.unicode_len();
    let m = pat.unicode_len();
    if m > n {
        return false;
    }
    let mut i: usize = 0;
    while i <= n - m
        invariant
            m <= n == hay@.len(),
            m == pat@.len(),
            i <= n - m + 1,
            forall|k: int| 0 <= k < i ==> !matches_ci_at(hay@, pat@, k),
        decreases n - m - i + 1,
    {
        let mut j: usize = 0;
        let mut hit = true;
        while j < m
            invariant
                m <= n == hay@.len(),
                m == pat@.len(),
                i + m <= n,
                j <= m,
                hit ==> forall|l: int| 0 <= l < j ==> lower_code(hay@[i + l]) == lower_code(
                    pat@[l],
                ),
                !hit ==> !matches_ci_at(hay@, pat@, i as int),
            decreases m - j,
        {
            if lower_code_of(hay.get_char(i + j)) != lower_code_of(pat.get_char(j)) {
                assert(!matches_ci_at(hay@, pat@, i as int));
                hit = false;
                j = m;
            } else {
                j = j + 1;
            }
        }
        if hit {
            assert(matches_ci_at(hay@, pat@, i as int));
            return true;
        }
        i = i + 1;
    }
    assert(forall|k: int| 0 <= k && k + pat@.len() <= hay@.len() ==> !matches_ci_at(
        hay@,
        pat@,
        k,
    ));
    false
}

} // verus!
