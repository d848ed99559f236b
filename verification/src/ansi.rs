//! The control-sequence interpreter, in its two modes.
//!
//! Stripping mode removes every complete control sequence of the form
//! `ESC [ <parameters> <final-letter>` (and drops stray escape characters),
//! returning plain text; it is idempotent. Styling mode recognizes only
//! Select-Graphic-Rendition sequences `ESC [ <params> m` and cuts the input
//! into styled spans, threading a running style across the single input
//! string only.

use vstd::prelude::*;
use vstd::string::StrSliceExecFns;
use vstd::string::StringExecFns;

verus! {

/// The escape character that introduces a control sequence.
pub open spec fn esc() -> char {
    '\x1b'
}

/// Parameter characters of a control sequence: digits and the separator.
pub open spec fn is_param_char(c: char) -> bool {
    ('0' <= c && c <= '9') || c == ';'
}

/// A final letter closes a control sequence in stripping mode.
pub open spec fn is_final_letter(c: char) -> bool {
    ('A' <= c && c <= 'Z') || ('a' <= c && c <= 'z')
}

/// First index at or after `i` that does not hold a parameter character.
pub open spec fn param_end(s: Seq<char>, i: int) -> int
    decreases s.len() - i when 0 <= i <= s.len()
{
    if i < s.len() && is_param_char(s[i]) {
        param_end(s, i + 1)
    } else {
        i
    }
}

pub proof fn lemma_param_end_bounds(s: Seq<char>, i: int)
    requires
        0 <= i <= s.len(),
    ensures
        i <= param_end(s, i) <= s.len(),
    decreases s.len() - i,
{
    if i < s.len() && is_param_char(s[i]) {
        lemma_param_end_bounds(s, i + 1);
    }
}

/// A complete control sequence `ESC [ <parameters> <final-letter>` starts at `i`.
pub open spec fn csi_at(s: Seq<char>, i: int) -> bool {
    &&& 0 <= i < s.len()
    &&& s[i] == esc()
    &&& i + 1 < s.len()
    &&& s[i + 1] == '['
    &&& param_end(s, i + 2) < s.len()
    &&& is_final_letter(s[param_end(s, i + 2)])
}

/// Stripping mode, from index `i` on.
pub open spec fn strip_from(s: Seq<char>, i: int) -> Seq<char>
    decreases s.len() - i when 0 <= i <= s.len() via strip_from_decreases
{
    if i >= s.len() {
        Seq::empty()
    } else if s[i] == esc() {
        if csi_at(s, i) {
            strip_from(s, param_end(s, i + 2) + 1)
        } else {
            strip_from(s, i + 1)
        }
    } else {
        seq![s[i]] + strip_from(s, i + 1)
    }
}

#[via_fn]
proof fn strip_from_decreases(s: Seq<char>, i: int) {
    if 0 <= i < s.len() && s[i] == esc() && csi_at(s, i) {
        lemma_param_end_bounds(s, i + 2);
    }
}

/// Stripping mode: the input with every control sequence removed.
pub open spec fn strip_ansi(s: Seq<char>) -> Seq<char> {
    strip_from(s, 0)
}

/// Stripping leaves no escape character in its result.
pub proof fn lemma_strip_no_esc(s: Seq<char>, i: int)
    requires
        0 <= i <= s.len(),
    ensures
        forall|j: int|
            0 <= j < strip_from(s, i).len() ==> strip_from(s, i)[j] != esc(),
    decreases s.len() - i,
{
    if i >= s.len() {
    } else if s[i] == esc() {
        if csi_at(s, i) {
            lemma_param_end_bounds(s, i + 2);
            let next = param_end(s, i + 2) + 1;
            lemma_strip_no_esc(s, next);
            assert forall|j: int| 0 <= j < strip_from(s, i).len() implies strip_from(s, i)[j]
                != esc() by {
                assert(strip_from(s, i)[j] == strip_from(s, next)[j]);
            }
        } else {
            lemma_strip_no_esc(s, i + 1);
            assert forall|j: int| 0 <= j < strip_from(s, i).len() implies strip_from(s, i)[j]
                != esc() by {
                assert(strip_from(s, i)[j] == strip_from(s, i + 1)[j]);
            }
        }
    } else {
        lemma_strip_no_esc(s, i + 1);
        assert forall|j: int| 0 <= j < strip_from(s, i).len() implies strip_from(s, i)[j]
            != esc() by {
            if j > 0 {
                assert(strip_from(s, i)[j] == strip_from(s, i + 1)[j - 1]);
            }
        }
    }
}

/// Stripping is the identity on text without escape characters.
pub proof fn lemma_strip_plain(s: Seq<char>, i: int)
    requires
        0 <= i <= s.len(),
        forall|j: int| i <= j < s.len() ==> s[j] != esc(),
    ensures
        strip_from(s, i) == s.subrange(i, s.len() as int),
    decreases s.len() - i,
{
    if i >= s.len() {
        assert(strip_from(s, i) =~= s.subrange(i, s.len() as int));
    } else {
        lemma_strip_plain(s, i + 1);
        assert(strip_from(s, i) =~= s.subrange(i, s.len() as int));
    }
}

/// Stripping mode is idempotent: stripping a stripped text changes nothing.
pub proof fn lemma_strip_idempotent(s: Seq<char>)
    ensures
        strip_ansi(strip_ansi(s)) == strip_ansi(s),
{
    let r = strip_ansi(s);
    lemma_strip_no_esc(s, 0);
    lemma_strip_plain(r, 0);
    assert(r.subrange(0, r.len() as int) =~= r);
}

fn is_param_char_exec(c: char) -> (r: bool)
    ensures
        r == is_param_char(c),
{
    ('0' <= c && c <= '9') || c == ';'
}

fn is_final_letter_exec(c: char) -> (r: bool)
    ensures
        r == is_final_letter(c),
{
    ('A' <= c && c <= 'Z') || ('a' <= c && c <= 'z')
}

/// Scan the parameter run that starts at `i`, returning its end.
fn scan_params(s: &str, i: usize, n: usize) -> (e: usize)
    requires
        i <= n,
        n == s@.len(),
    ensures
        e == param_end(s@, i as int),
        i <= e <= n,
{
    let mut j = i;
    while j < n && is_param_char_exec(s.get_char(j))
        invariant
            i <= j <= n,
            n == s@.len(),
            param_end(s@, i as int) == param_end(s@, j as int),
        decreases n - j,
    {
        j = j + 1;
    }
    j
}

/// Stripping mode over strings: remove every control sequence.
pub fn strip_str(s: &str) -> (r: String)
    ensures
        r@ == strip_ansi(s@),
{
    let n = s.unicode_len();
    let mut r = String::new();
    let mut i: usize = 0;
    while i < n
        invariant
            i <= n,
            n == s@.len(),
            strip_ansi(s@) == r@ + strip_from(s@, i as int),
        decreases n - i,
    {
        let c = s.get_char(i);
        if c == '\x1b' {
            if i + 1 < n && s.get_char(i + 1) == '[' {
                let j = scan_params(s, i + 2, n);
                if j < n && is_final_letter_exec(s.get_char(j)) {
                    assert(csi_at(s@, i as int));
                    i = j + 1;
                } else {
                    assert(!csi_at(s@, i as int));
                    i = i + 1;
                }
            } else {
                assert(!csi_at(s@, i as int));
                i = i + 1;
            }
        } else {
            let piece = s.substring_char(i, i + 1);
            r.append(piece);
            proof {
                assert(s@.subrange(i as int, i + 1) =~= seq![s@[i as int]]);
                assert(r@ + strip_from(s@, i + 1) =~= strip_ansi(s@));
            }
            i = i + 1;
        }
    }
    proof {
        assert(r@ + strip_from(s@, n as int) =~= r@);
    }
    r
}

/// The sixteen foreground colors of the fixed palette.
#[derive(Clone, Copy, Debug, PartialEq, Eq)]
pub enum Color {
    Black,
    Red,
    Green,
    Yellow,
    Blue,
    Magenta,
    Cyan,
    White,
    BrightBlack,
    BrightRed,
    BrightGreen,
    BrightYellow,
    BrightBlue,
    BrightMagenta,
    BrightCyan,
    BrightWhite,
}

/// The running graphic-rendition state.
#[derive(Clone, Copy, Debug, PartialEq, Eq)]
pub struct Style {
    pub fg: Option<Color>,
    pub bg: Option<Color>,
    pub bold: bool,
}

/// The state at the start of every styling call: no colors, not bold.
pub open spec fn default_style() -> Style {
    Style { fg: None, bg: None, bold: false }
}

/// Executable counterpart of `default_style`.
pub fn plain_style() -> (r: Style)
    ensures
        r == default_style(),
{
    Style { fg: None, bg: None, bold: false }
}

pub open spec fn is_color_digit(c: char) -> bool {
    '0' <= c && c <= '7'
}

/// The palette for codes 30-37.
pub open spec fn basic_color(c: char) -> Color {
    if c == '0' {
        Color::Black
    } else if c == '1' {
        Color::Red
    } else if c == '2' {
        Color::Green
    } else if c == '3' {
        Color::Yellow
    } else if c == '4' {
        Color::Blue
    } else if c == '5' {
        Color::Magenta
    } else if c == '6' {
        Color::Cyan
    } else {
        Color::White
    }
}

/// The palette for codes 90-97.
pub open spec fn bright_color(c: char) -> Color {
    if c == '0' {
        Color::BrightBlack
    } else if c == '1' {
        Color::BrightRed
    } else if c == '2' {
        Color::BrightGreen
    } else if c == '3' {
        Color::BrightYellow
    } else if c == '4' {
        Color::BrightBlue
    } else if c == '5' {
        Color::BrightMagenta
    } else if c == '6' {
        Color::BrightCyan
    } else {
        Color::BrightWhite
    }
}

/// One parameter token applied to the running style. `0` clears all style,
/// `1` sets bold, `30`-`37` and `90`-`97` pick a foreground color; `40`-`47`
/// are recognized but set no visible background; anything else is ignored.
pub open spec fn apply_code(st: Style, tok: Seq<char>) -> Style {
    if tok.len() == 1 && tok[0] == '0' {
        default_style()
    } else if tok.len() == 1 && tok[0] == '1' {
        Style { fg: st.fg, bg: st.bg, bold: true }
    } else if tok.len() == 2 && tok[0] == '3' && is_color_digit(tok[1]) {
        Style { fg: Some(basic_color(tok[1])), bg: st.bg, bold: st.bold }
    } else if tok.len() == 2 && tok[0] == '9' && is_color_digit(tok[1]) {
        Style { fg: Some(bright_color(tok[1])), bg: st.bg, bold: st.bold }
    } else {
        st
    }
}

/// First index at or after `i` holding the token separator `;`, else the end.
pub open spec fn semi_end(p: Seq<char>, i: int) -> int
    decreases p.len() - i when 0 <= i <= p.len()
{
    if i < p.len() && p[i] != ';' {
        semi_end(p, i + 1)
    } else {
        i
    }
}

pub proof fn lemma_semi_end_bounds(p: Seq<char>, i: int)
    requires
        0 <= i <= p.len(),
    ensures
        i <= semi_end(p, i) <= p.len(),
    decreases p.len() - i,
{
    if i < p.len() && p[i] != ';' {
        lemma_semi_end_bounds(p, i + 1);
    }
}

/// The tokens of a parameter list, applied in order from position `i`.
pub open spec fn apply_tokens(st: Style, p: Seq<char>, i: int) -> Style
    decreases p.len() - i when 0 <= i <= p.len() via apply_tokens_decreases
{
    let k = semi_end(p, i);
    let st2 = apply_code(st, p.subrange(i, k));
    if k >= p.len() {
        st2
    } else {
        apply_tokens(st2, p, k + 1)
    }
}

#[via_fn]
proof fn apply_tokens_decreases(st: Style, p: Seq<char>, i: int) {
    if 0 <= i <= p.len() {
        lemma_semi_end_bounds(p, i);
    }
}

/// A whole parameter list applied to the running style: an empty list clears
/// all style, otherwise its tokens apply in order.
pub open spec fn apply_param_string(st: Style, p: Seq<char>) -> Style {
    if p.len() == 0 {
        default_style()
    } else {
        apply_tokens(st, p, 0)
    }
}

/// A Select-Graphic-Rendition sequence `ESC [ <params> m` starts at `i`.
pub open spec fn sgr_at(s: Seq<char>, i: int) -> bool {
    &&& 0 <= i < s.len()
    &&& s[i] == esc()
    &&& i + 1 < s.len()
    &&& s[i + 1] == '['
    &&& param_end(s, i + 2) < s.len()
    &&& s[param_end(s, i + 2)] == 'm'
}

/// Mathematical model of one styled span.
pub ghost struct SpanView {
    pub text: Seq<char>,
    pub fg: Option<Color>,
    pub bg: Option<Color>,
    pub bold: bool,
}

pub open spec fn span_of(text: Seq<char>, st: Style) -> SpanView {
    SpanView { text, fg: st.fg, bg: st.bg, bold: st.bold }
}

/// Styling mode from index `i` on: `st` is the running style and `pending`
/// the text gathered since the last span boundary. A new boundary opens at
/// every recognized sequence; spans with empty text are omitted.
pub open spec fn spans_from(s: Seq<char>, i: int, st: Style, pending: Seq<char>) -> Seq<
    SpanView,
>
    decreases s.len() - i when 0 <= i <= s.len() via spans_from_decreases
{
    if i >= s.len() {
        if pending.len() > 0 {
            seq![span_of(pending, st)]
        } else {
            Seq::empty()
        }
    } else if sgr_at(s, i) {
        let e = param_end(s, i + 2);
        let st2 = apply_param_string(st, s.subrange(i + 2, e));
        let rest = spans_from(s, e + 1, st2, Seq::empty());
        if pending.len() > 0 {
            seq![span_of(pending, st)] + rest
        } else {
            rest
        }
    } else {
        spans_from(s, i + 1, st, pending.push(s[i]))
    }
}

#[via_fn]
proof fn spans_from_decreases(s: Seq<char>, i: int, st: Style, pending: Seq<char>) {
    if 0 <= i < s.len() && sgr_at(s, i) {
        lemma_param_end_bounds(s, i + 2);
    }
}

/// Styling mode: the spans of one input string, starting from default style.
pub open spec fn style_spans(s: Seq<char>) -> Seq<SpanView> {
    spans_from(s, 0, default_style(), Seq::empty())
}

/// One styled span: a run of text with the style in force when it was cut.
#[derive(Debug, PartialEq, Eq)]
pub struct Span {
    pub text: String,
    pub fg: Option<Color>,
    pub bg: Option<Color>,
    pub bold: bool,
}

impl View for Span {
    type V = SpanView;

    open spec fn view(&self) -> SpanView {
        SpanView { text: self.text@, fg: self.fg, bg: self.bg, bold: self.bold }
    }
}

/// The models of a vector of spans.
pub open spec fn spans_view(v: Seq<Span>) -> Seq<SpanView> {
    v.map_values(|sp: Span| sp@)
}

/// One parameter token `s[a..b]` applied to the running style.
fn apply_code_str(s: &str, a: usize, b: usize, st: Style) -> (r: Style)
    requires
        a <= b <= s@.len(),
    ensures
        r == apply_code(st, s@.subrange(a as int, b as int)),
{
    if b - a == 1 {
        let c = s.get_char(a);
        if c == '0' {
            plain_style()
        } else if c == '1' {
            Style { fg: st.fg, bg: st.bg, bold: true }
        } else {
            st
        }
    } else if b - a == 2 {
        let c0 = s.get_char(a);
        let c1 = s.get_char(a + 1);
        if c0 == '3' && '0' <= c1 && c1 <= '7' {
            let fg = if c1 == '0' {
                Color::Black
            } else if c1 == '1' {
                Color::Red
            } else if c1 == '2' {
                Color::Green
            } else if c1 == '3' {
                Color::Yellow
            } else if c1 == '4' {
                Color::Blue
            } else if c1 == '5' {
                Color::Magenta
            } else if c1 == '6' {
                Color::Cyan
            } else {
                Color::White
            };
            Style { fg: Some(fg), bg: st.bg, bold: st.bold }
        } else if c0 == '9' && '0' <= c1 && c1 <= '7' {
            let fg = if c1 == '0' {
                Color::BrightBlack
            } else if c1 == '1' {
                Color::BrightRed
            } else if c1 == '2' {
                Color::BrightGreen
            } else if c1 == '3' {
                Color::BrightYellow
            } else if c1 == '4' {
                Color::BrightBlue
            } else if c1 == '5' {
                Color::BrightMagenta
            } else if c1 == '6' {
                Color::BrightCyan
            } else {
                Color::BrightWhite
            };
            Style { fg: Some(fg), bg: st.bg, bold: st.bold }
        } else {
            st
        }
    } else {
        st
    }
}

/// The parameter list `s[lo..hi]` applied to the running style.
fn apply_params_str(s: &str, lo: usize, hi: usize, st: Style) -> (r: Style)
    requires
        lo <= hi <= s@.len(),
    ensures
        r == apply_param_string(st, s@.subrange(lo as int, hi as int)),
{
    let ghost p = s@.subrange(lo as int, hi as int);
    let m = hi - lo;
    if m == 0 {
        return plain_style();
    }
    let mut cur = st;
    let mut rel: usize = 0;
    let mut finished = false;
    while !finished
        invariant
            lo <= hi <= s@.len(),
            p == s@.subrange(lo as int, hi as int),
            m == hi - lo,
            m == p.len(),
            m > 0,
            rel <= m,
            !finished ==> apply_tokens(st, p, 0) == apply_tokens(cur, p, rel as int),
            finished ==> apply_tokens(st, p, 0) == cur,
        decreases m - rel + (if finished { 0int } else { 1int }),
    {
        let mut k = rel;
        while k < m && s.get_char(lo + k) != ';'
            invariant
                lo <= hi <= s@.len(),
                p == s@.subrange(lo as int, hi as int),
                m == hi - lo,
                m == p.len(),
                rel <= k <= m,
                semi_end(p, rel as int) == semi_end(p, k as int),
            decreases m - k,
        {
            assert(p[k as int] == s@[lo + k]);
            k = k + 1;
        }
        proof {
            if k < m {
                assert(p[k as int] == s@[lo + k]);
            }
            assert(semi_end(p, k as int) == k);
            assert(s@.subrange((lo + rel) as int, (lo + k) as int) =~= p.subrange(
                rel as int,
                k as int,
            ));
        }
        cur = apply_code_str(s, lo + rel, lo + k, cur);
        if k == m {
            finished = true;
        } else {
            rel = k + 1;
        }
    }
    cur
}

/// Styling mode over strings: cut the input into styled spans. Only
/// Select-Graphic-Rendition sequences are recognized; all other text,
/// escape characters included, stays in the span texts.
pub fn parse_ansi(s: &str) -> (r: Vec<Span>)
    ensures
        spans_view(r@) == style_spans(s@),
{
    let n = s.unicode_len();
    let mut out: Vec<Span> = Vec::new();
    let mut st = plain_style();
    let mut start: usize = 0;
    let mut i: usize = 0;
    proof {
        assert(s@.subrange(0, 0) =~= Seq::<char>::empty());
        assert(spans_view(out@) =~= Seq::<SpanView>::empty());
        assert(spans_view(out@) + spans_from(s@, 0, st, s@.subrange(0, 0)) =~= style_spans(
            s@,
        ));
    }
    while i < n
        invariant
            start <= i <= n,
            n == s@.len(),
            style_spans(s@) == spans_view(out@) + spans_from(
                s@,
                i as int,
                st,
                s@.subrange(start as int, i as int),
            ),
        decreases n - i,
    {
        let c = s.get_char(i);
        let mut recognized = false;
        if c == '\x1b' && i + 1 < n {
            if s.get_char(i + 1) == '[' {
                let j = scan_params(s, i + 2, n);
                if j < n && s.get_char(j) == 'm' {
                    recognized = true;
                    assert(sgr_at(s@, i as int));
                    let ghost pend = s@.subrange(start as int, i as int);
                    let ghost st0 = st;
                    if i > start {
                        let piece = s.substring_char(start, i);
                        out.push(
                            Span { text: piece.to_owned(), fg: st.fg, bg: st.bg, bold: st.bold },
                        );
                        proof {
                            assert(spans_view(out@) =~= spans_view(out@.drop_last()) + seq![
                                span_of(pend, st0),
                            ]);
                        }
                    }
                    st = apply_params_str(s, i + 2, j, st);
                    i = j + 1;
                    start = i;
                    proof {
                        assert(s@.subrange(start as int, i as int) =~= Seq::<char>::empty());
                        assert(spans_view(out@) + spans_from(
                            s@,
                            i as int,
                            st,
                            s@.subrange(start as int, i as int),
                        ) =~= style_spans(s@));
                    }
                }
            }
        }
        if !recognized {
            assert(!sgr_at(s@, i as int));
            proof {
                assert(s@.subrange(start as int, i + 1) =~= s@.subrange(
                    start as int,
                    i as int,
                ).push(s@[i as int]));
            }
            i = i + 1;
        }
    }
    if i > start {
        let piece = s.substring_char(start, i);
        let ghost pend = s@.subrange(start as int, i as int);
        let ghost st0 = st;
        out.push(Span { text: piece.to_owned(), fg: st.fg, bg: st.bg, bold: st.bold });
        proof {
            assert(spans_view(out@) =~= spans_view(out@.drop_last()) + seq![
                span_of(pend, st0),
            ]);
            assert(spans_view(out@.drop_last()) + spans_from(s@, n as int, st0, pend) =~= spans_view(
                out@,
            ));
        }
    } else {
        proof {
            assert(spans_view(out@) + spans_from(
                s@,
                n as int,
                st,
                s@.subrange(start as int, i as int),
            ) =~= spans_view(out@));
        }
    }
    out
}

} // verus!
