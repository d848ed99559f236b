//! The input router: accumulates user keystrokes into a pending buffer,
//! filtering control characters out of generic text events while accepting
//! structured backspace events. Submission is the only write path: it hands
//! back the whole buffer with a line terminator appended and clears the
//! buffer atomically; partial buffers are never handed out.

use vstd::prelude::*;
use vstd::string::StrSliceExecFns;
use vstd::string::StringExecFns;
use crate::text::{is_control, is_control_char};

verus! {

/// The text of a generic keystroke event with its control characters removed.
pub open spec fn filter_printable(s: Seq<char>) -> Seq<char>
    decreases s.len(),
{
    if s.len() == 0 {
        Seq::empty()
    } else {
        filter_printable(s.drop_last()) + (if is_control_char(s.last()) {
            Seq::<char>::empty()
        } else {
            seq![s.last()]
        })
    }
}

/// The pending, not yet submitted user input.
pub struct InputRouter {
    pending: String,
}

impl View for InputRouter {
    type V = Seq<char>;

    closed spec fn view(&self) -> Seq<char> {
        self.pending@
    }
}

impl InputRouter {
    /// An empty buffer.
    pub fn new() -> (r: InputRouter)
        ensures
            r@ == Seq::<char>::empty(),
    {
        InputRouter { pending: String::new() }
    }

    /// Discard any pending input.
    pub fn reset(&mut self)
        ensures
            final(self)@ == Seq::<char>::empty(),
    {
        self.pending = String::new();
    }

    /// Append a text event, dropping its control characters.
    pub fn push_text(&mut self, text: &str)
        ensures
            final(self)@ == old(self)@ + filter_printable(text@),
    {
        let n = text.unicode_len();
        let mut i: usize = 0;
        proof {
            assert(self@ =~= old(self)@ + filter_printable(text@.take(0)));
        }
        while i < n
            invariant
                i <= n,
                n == text@.len(),
                self@ == old(self)@ + filter_printable(text@.take(i as int)),
            decreases n - i,
        {
            let c = text.get_char(i);
            proof {
                assert(text@.take(i + 1).drop_last() =~= text@.take(i as int));
                assert(text@.take(i + 1).last() == text@[i as int]);
            }
            if !is_control(c) {
                let piece = text.substring_char(i, i + 1);
                self.pending.append(piece);
                proof {
                    assert(piece@ =~= seq![text@[i as int]]);
                    assert(self@ =~= old(self)@ + filter_printable(text@.take(i + 1)));
                }
            } else {
                proof {
                    assert(self@ =~= old(self)@ + filter_printable(text@.take(i + 1)));
                }
            }
            i = i + 1;
        }
        proof {
            assert(text@.take(n as int) =~= text@);
        }
    }

    /// Remove the last pending character, if any.
    pub fn backspace(&mut self)
        ensures
            old(self)@.len() > 0 ==> final(self)@ == old(self)@.drop_last(),
            old(self)@.len() == 0 ==> final(self)@ == old(self)@,
    {
        let n = self.pending.as_str().unicode_len();
        if n > 0 {
            let shorter = self.pending.as_str().substring_char(0, n - 1).to_owned();
            self.pending = shorter;
            proof {
                assert(self@ =~= old(self)@.drop_last());
            }
        }
    }

    /// The pending input.
    pub fn pending_text(&self) -> (r: &str)
        ensures
            r@ == self@,
    {
        self.pending.as_str()
    }

    /// Submit: hand back the whole pending buffer with a line terminator
    /// appended, and clear the buffer.
    pub fn take_line(&mut self) -> (line: String)
        ensures
            line@ == old(self)@ + seq!['\n'],
            final(self)@ == Seq::<char>::empty(),
    {
        let mut line = self.pending.clone();
        self.pending = String::new();
        line.append("\n");
        proof {
            reveal_strlit("\n");
            assert("\n"@ =~= seq!['\n']);
        }
        line
    }
}

} // verus!
