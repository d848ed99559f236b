//! The prompt detector: a case-insensitive heuristic, run per newly
//! processed output fragment, that flags when the child process is likely
//! waiting for interactive input, and when the awaited input is a secret
//! that should be masked. False positives are acceptable; detection never
//! alters buffered content.

use vstd::prelude::*;
use crate::text::{contains_ci, contains_ci_str};

verus! {

/// Whitespace as trimmed from the edges of a fragment.
pub open spec fn is_space_char(c: char) -> bool {
    c == ' ' || c == '\t' || c == '\r' || c == '\n'
}

/// The last non-whitespace character of the fragment is `c`.
pub open spec fn last_nonspace_is(s: Seq<char>, c: char) -> bool {
    exists|i: int|
        0 <= i < s.len() && s[i] == c && (forall|j: int| i < j < s.len() ==> is_space_char(s[j]))
}

/// The trimmed fragment ends with a prompt-like terminator.
pub open spec fn ends_prompt_like(s: Seq<char>) -> bool {
    last_nonspace_is(s, ':') || last_nonspace_is(s, '?')
}

/// The fragment contains one of the fixed phrases that announce a request
/// for input: password words (with a localized equivalent), a sudo marker,
/// or a confirmation marker.
pub open spec fn has_prompt_phrase(s: Seq<char>) -> bool {
    ||| contains_ci(s, "password"@)
    ||| contains_ci(s, "passphrase"@)
    ||| contains_ci(s, "senha"@)
    ||| contains_ci(s, "[sudo]"@)
    ||| contains_ci(s, "[y/n]"@)
    ||| contains_ci(s, "[s/n]"@)
}

/// The fragment contains a word that announces a secret.
pub open spec fn has_secret_phrase(s: Seq<char>) -> bool {
    ||| contains_ci(s, "password"@)
    ||| contains_ci(s, "passphrase"@)
    ||| contains_ci(s, "senha"@)
}

/// Interactive input is likely expected after this fragment.
pub open spec fn prompt_detected(s: Seq<char>) -> bool {
    has_prompt_phrase(s) || ends_prompt_like(s)
}

/// The expected input is likely a secret: a secret word is named and the
/// trimmed fragment ends with a colon.
pub open spec fn secret_detected(s: Seq<char>) -> bool {
    has_secret_phrase(s) && last_nonspace_is(s, ':')
}

/// Executable test: the last non-whitespace character of `s` equals `c`.
fn last_nonspace_is_char(s: &str, c: char) -> (r: bool)
    requires
        !is_space_char(c),
    ensures
        r == last_nonspace_is(s@, c),
{
    let n = s.unicode_len();
    let mut i = n;
    while i > 0
        invariant
            i <= n,
            n == s@.len(),
            !is_space_char(c),
            forall|j: int| i <= j < s@.len() ==> is_space_char(s@[j]),
        decreases i,
    {
        let ch = s.get_char(i - 1);
        if !(ch == ' ' || ch == '\t' || ch == '\r' || ch == '\n') {
            if ch == c {
                assert(last_nonspace_is(s@, c)) by {
                    assert(s@[i - 1] == c);
                }
                return true;
            } else {
                proof {
                    if last_nonspace_is(s@, c) {
                        let w = choose|w: int|
                            0 <= w < s@.len() && s@[w] == c && (forall|j: int|
                                w < j < s@.len() ==> is_space_char(s@[j]));
                        assert(w != i - 1);
                        if w < i - 1 {
                            assert(is_space_char(s@[i - 1]));
                        } else {
                            assert(is_space_char(s@[w]));
                            assert(!is_space_char(c));
                        }
                        assert(false);
                    }
                }
                return false;
            }
        }
        i = i - 1;
    }
    assert(!last_nonspace_is(s@, c)) by {
        assert forall|k: int| 0 <= k < s@.len() implies is_space_char(s@[k]) by {}
    }
    false
}

/// Flag interactive input expected: a fixed phrase occurs, or the trimmed
/// fragment ends with a colon or a question mark.
pub fn detect_prompt(s: &str) -> (r: bool)
    ensures
        r == prompt_detected(s@),
{
    contains_ci_str(s, "password") || contains_ci_str(s, "passphrase") || contains_ci_str(
        s,
        "senha",
    ) || contains_ci_str(s, "[sudo]") || contains_ci_str(s, "[y/n]") || contains_ci_str(
        s,
        "[s/n]",
    ) || last_nonspace_is_char(s, ':') || last_nonspace_is_char(s, '?')
}

/// Flag input that should be masked as a secret.
pub fn detect_secret(s: &str) -> (r: bool)
    ensures
        r == secret_detected(s@),
{
    (contains_ci_str(s, "password") || contains_ci_str(s, "passphrase") || contains_ci_str(
        s,
        "senha",
    )) && last_nonspace_is_char(s, ':')
}

} // verus!
