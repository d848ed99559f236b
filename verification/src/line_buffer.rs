//! The line buffer: a finalized, append-only history of committed lines plus
//! one mutable current line with a column cursor.
//!
//! Per character: a newline commits the current line to the history and
//! resets the cursor; a carriage return resets the cursor without committing;
//! any other character first clears the current line when the cursor sits at
//! column zero on a non-empty line (whole-line overwrite, as used by
//! carriage-return progress redraws), then is appended.

use vstd::prelude::*;

verus! {

/// Mathematical model of a line buffer.
pub ghost struct LineBufferView {
    pub history: Seq<Seq<char>>,
    pub current: Seq<char>,
    pub cursor: nat,
}

/// One character applied to the model.
pub open spec fn lb_step(m: LineBufferView, c: char) -> LineBufferView {
    if c == '\n' {
        LineBufferView {
            history: m.history.push(m.current),
            current: Seq::empty(),
            cursor: 0,
        }
    } else if c == '\r' {
        LineBufferView { history: m.history, current: m.current, cursor: 0 }
    } else {
        let base: Seq<char> = if m.cursor == 0 && m.current.len() > 0 {
            Seq::empty()
        } else {
            m.current
        };
        LineBufferView { history: m.history, current: base.push(c), cursor: m.cursor + 1 }
    }
}

/// A whole text fragment applied to the model, character by character.
pub open spec fn lb_process(m: LineBufferView, s: Seq<char>) -> LineBufferView
    decreases s.len(),
{
    if s.len() == 0 {
        m
    } else {
        lb_process(lb_step(m, s[0]), s.skip(1))
    }
}

/// The model of an empty buffer.
pub open spec fn lb_empty() -> LineBufferView {
    LineBufferView { history: Seq::empty(), current: Seq::empty(), cursor: 0 }
}

/// Number of newline characters in a fragment.
pub open spec fn newline_count(s: Seq<char>) -> nat
    decreases s.len(),
{
    if s.len() == 0 {
        0
    } else {
        (if s[0] == '\n' {
            1nat
        } else {
            0nat
        }) + newline_count(s.skip(1))
    }
}

/// Concatenation of a sequence of fragments.
pub open spec fn concat_fragments(cs: Seq<Seq<char>>) -> Seq<char>
    decreases cs.len(),
{
    if cs.len() == 0 {
        Seq::empty()
    } else {
        cs[0] + concat_fragments(cs.skip(1))
    }
}

/// A sequence of fragments applied to the model, in order.
pub open spec fn lb_process_fragments(m: LineBufferView, cs: Seq<Seq<char>>) -> LineBufferView
    decreases cs.len(),
{
    if cs.len() == 0 {
        m
    } else {
        lb_process_fragments(lb_process(m, cs[0]), cs.skip(1))
    }
}

/// The cursor is either at column zero or just past the appended text.
pub open spec fn lb_wf(m: LineBufferView) -> bool {
    m.cursor == 0 || m.cursor == m.current.len()
}

/// Processing a concatenation equals processing the parts in order.
pub proof fn lemma_process_concat(m: LineBufferView, a: Seq<char>, b: Seq<char>)
    ensures
        lb_process(m, a + b) == lb_process(lb_process(m, a), b),
    decreases a.len(),
{
    if a.len() == 0 {
        assert(a + b =~= b);
    } else {
        assert((a + b)[0] == a[0]);
        assert((a + b).skip(1) =~= a.skip(1) + b);
        lemma_process_concat(lb_step(m, a[0]), a.skip(1), b);
    }
}

/// Processing one more character extends the processed prefix.
pub proof fn lemma_process_push(m: LineBufferView, s: Seq<char>, c: char)
    ensures
        lb_process(m, s.push(c)) == lb_step(lb_process(m, s), c),
{
    assert(s.push(c) =~= s + seq![c]);
    lemma_process_concat(m, s, seq![c]);
    let m2 = lb_process(m, s);
    assert(seq![c][0] == c);
    assert(lb_process(m2, seq![c]) == lb_process(lb_step(m2, c), seq![c].skip(1)));
    assert(lb_process(lb_step(m2, c), seq![c].skip(1)) == lb_step(m2, c));
}

/// Processing a fragment adds exactly one finalized line per newline in it.
pub proof fn lemma_finalized_count(m: LineBufferView, s: Seq<char>)
    ensures
        lb_process(m, s).history.len() == m.history.len() + newline_count(s),
    decreases s.len(),
{
    if s.len() > 0 {
        lemma_finalized_count(lb_step(m, s[0]), s.skip(1));
    }
}

/// The finalized history is append-only: what a fragment adds never disturbs
/// the lines already committed.
pub proof fn lemma_history_append_only(m: LineBufferView, s: Seq<char>)
    ensures
        lb_process(m, s).history.len() >= m.history.len(),
        forall|i: int|
            0 <= i < m.history.len() ==> lb_process(m, s).history[i] == m.history[i],
    decreases s.len(),
{
    if s.len() > 0 {
        let m1 = lb_step(m, s[0]);
        lemma_history_append_only(m1, s.skip(1));
        assert forall|i: int| 0 <= i < m.history.len() implies lb_process(m, s).history[i]
            == m.history[i] by {
            assert(m1.history[i] == m.history[i]);
            assert(lb_process(m1, s.skip(1)).history[i] == m1.history[i]);
        }
    }
}

/// How a byte stream is cut into fragments does not matter: feeding the
/// fragments one by one leaves the same state as feeding the whole stream.
pub proof fn lemma_fragmentation_irrelevant(m: LineBufferView, cs: Seq<Seq<char>>)
    ensures
        lb_process_fragments(m, cs) == lb_process(m, concat_fragments(cs)),
    decreases cs.len(),
{
    if cs.len() == 0 {
    } else {
        lemma_process_concat(m, cs[0], concat_fragments(cs.skip(1)));
        lemma_fragmentation_irrelevant(lb_process(m, cs[0]), cs.skip(1));
    }
}

/// For any chunking of a stream, the number of finalized lines produced
/// equals the number of newline characters in the logical stream.
pub proof fn lemma_finalized_lines_chunk_independent(cs: Seq<Seq<char>>)
    ensures
        lb_process_fragments(lb_empty(), cs).history.len() == newline_count(
            concat_fragments(cs),
        ),
{
    lemma_fragmentation_irrelevant(lb_empty(), cs);
    lemma_finalized_count(lb_empty(), concat_fragments(cs));
}

/// The executable line buffer.
pub struct LineBuffer {
    history: Vec<Vec<char>>,
    current: Vec<char>,
    cursor: usize,
}

impl View for LineBuffer {
    type V = LineBufferView;

    closed spec fn view(&self) -> LineBufferView {
        LineBufferView {
            history: self.history@.map_values(|line: Vec<char>| line@),
            current: self.current@,
            cursor: self.cursor as nat,
        }
    }
}

impl LineBuffer {
    /// An empty buffer: no history, empty current line, cursor at zero.
    pub fn new() -> (r: LineBuffer)
        ensures
            r@ == lb_empty(),
            lb_wf(r@),
    {
        let r = LineBuffer { history: Vec::new(), current: Vec::new(), cursor: 0 };
        proof {
            assert(r@.history =~= lb_empty().history);
            assert(r@ == lb_empty());
        }
        r
    }

    /// Discard all buffered state, returning to the empty model.
    pub fn reset(&mut self)
        ensures
            final(self)@ == lb_empty(),
            lb_wf(final(self)@),
    {
        self.history = Vec::new();
        self.current = Vec::new();
        self.cursor = 0;
        proof {
            assert(self@.history =~= lb_empty().history);
            assert(self@ == lb_empty());
        }
    }

    /// Apply one character to the buffer.
    fn step_char(&mut self, c: char)
        requires
            lb_wf(old(self)@),
        ensures
            final(self)@ == lb_step(old(self)@, c),
            lb_wf(final(self)@),
    {
        if c == '\n' {
            let line = self.current.split_off(0);
            self.history.push(line);
            self.cursor = 0;
            proof {
                assert(line@ =~= old(self).current@);
                assert(self.current@ =~= Seq::<char>::empty());
                assert(self@.history =~= lb_step(old(self)@, c).history);
                assert(self@ == lb_step(old(self)@, c));
            }
        } else if c == '\r' {
            self.cursor = 0;
            proof {
                assert(self@ == lb_step(old(self)@, c));
            }
        } else {
            if self.cursor == 0 && self.current.len() > 0 {
                self.current.clear();
            }
            self.current.push(c);
            self.cursor = self.current.len();
            proof {
                assert(self@.current =~= lb_step(old(self)@, c).current);
                assert(self@ == lb_step(old(self)@, c));
            }
        }
    }

    /// Consume one decoded text fragment, character by character.
    pub fn feed(&mut self, text: &str)
        requires
            lb_wf(old(self)@),
        ensures
            final(self)@ == lb_process(old(self)@, text@),
            lb_wf(final(self)@),
    {
        let n = text.unicode_len();
        let mut i: usize = 0;
        while i < n
            invariant
                n == text@.len(),
                i <= n,
                self@ == lb_process(old(self)@, text@.take(i as int)),
                lb_wf(self@),
            decreases n - i,
        {
            let c = text.get_char(i);
            proof {
                assert(text@.take(i + 1) =~= text@.take(i as int).push(text@[i as int]));
                lemma_process_push(old(self)@, text@.take(i as int), text@[i as int]);
            }
            self.step_char(c);
            i = i + 1;
        }
        proof {
            assert(text@.take(n as int) =~= text@);
        }
    }

    /// Number of finalized lines.
    pub fn line_count(&self) -> (n: usize)
        ensures
            n == self@.history.len(),
    {
        self.history.len()
    }

    /// The finalized line at index `i`, as characters.
    pub fn line_at(&self, i: usize) -> (line: &Vec<char>)
        requires
            i < self@.history.len(),
        ensures
            line@ == self@.history[i as int],
    {
        &self.history[i]
    }

    /// The mutable current line, as characters.
    pub fn current_line(&self) -> (line: &Vec<char>)
        ensures
            line@ == self@.current,
    {
        &self.current
    }

    /// The column cursor.
    pub fn cursor_col(&self) -> (col: usize)
        ensures
            col == self@.cursor,
    {
        self.cursor
    }
}

} // verus!
