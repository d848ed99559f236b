//! The consumer-side session state: the line buffer, the prompt-detector
//! flags, the pending user input, and the session's life cycle. The consumer
//! loop drains the output channel and hands each message to `apply_message`;
//! keystrokes go through the input methods; the surrounding program performs
//! the actual pseudoterminal writes with what `take_submission` hands back.

use vstd::prelude::*;
use vstd::utf8::{decode_utf8, valid_utf8};
use crate::input::{filter_printable, InputRouter};
use crate::line_buffer::{lb_empty, lb_process, lb_wf, LineBuffer, LineBufferView};
use crate::prompt::{detect_prompt, detect_secret, prompt_detected, secret_detected};
use crate::reader::{MsgView, OutMsg};

verus! {

/// What `String::from_utf8_lossy` returns for a byte sequence.
pub uninterp spec fn lossy_of(bytes: Seq<u8>) -> Seq<char>;

/// Relies on `String::from_utf8_lossy`: decodes UTF-8, replacing invalid
/// sequences with the replacement character instead of rejecting them; a
/// valid UTF-8 encoding decodes to exactly its scalar values.
#[verifier::external_body]
fn decode_lossy(bytes: &Vec<u8>) -> (r: String)
    ensures
        r@ == lossy_of(bytes@),
        valid_utf8(bytes@) ==> r@ == decode_utf8(bytes@),
{
    String::from_utf8_lossy(bytes).into_owned()
}

/// The life cycle of a session.
#[derive(Clone, Copy, Debug, PartialEq, Eq, Structural)]
pub enum SessionState {
    NotStarted,
    Running,
    Finished,
}

/// Mathematical model of the consumer-side state.
pub ghost struct ConsoleView {
    pub buffer: LineBufferView,
    pub pending_input: Seq<char>,
    pub password_mode: bool,
    pub input_expected: bool,
    pub state: SessionState,
}

/// One decoded output fragment applied to the model: the fragment runs
/// through the line buffer, and the detector flags latch on when their
/// heuristic fires. Detection never alters buffered content.
pub open spec fn output_step(v: ConsoleView, text: Seq<char>) -> ConsoleView {
    ConsoleView {
        buffer: lb_process(v.buffer, text),
        pending_input: v.pending_input,
        password_mode: v.password_mode || secret_detected(text),
        input_expected: v.input_expected || prompt_detected(text),
        state: v.state,
    }
}

/// The model of a console that has not started a session.
pub open spec fn console_empty() -> ConsoleView {
    ConsoleView {
        buffer: lb_empty(),
        pending_input: Seq::empty(),
        password_mode: false,
        input_expected: false,
        state: SessionState::NotStarted,
    }
}

/// The line buffer's cursor is well formed.
pub open spec fn console_wf(v: ConsoleView) -> bool {
    lb_wf(v.buffer)
}

/// The model right after a session starts.
pub open spec fn session_start() -> ConsoleView {
    ConsoleView { state: SessionState::Running, ..console_empty() }
}

/// A sequence of output chunks applied to the model, in channel order.
pub open spec fn apply_outputs(v: ConsoleView, chunks: Seq<Seq<u8>>) -> ConsoleView
    decreases chunks.len(),
{
    if chunks.len() == 0 {
        v
    } else {
        apply_outputs(output_step(v, lossy_of(chunks[0])), chunks.skip(1))
    }
}

/// Applying output chunks drives the line buffer exactly as feeding it the
/// decoded fragments one by one; the detector flags touch nothing buffered.
proof fn lemma_apply_outputs_buffer(v: ConsoleView, chunks: Seq<Seq<u8>>)
    ensures
        apply_outputs(v, chunks).buffer == crate::line_buffer::lb_process_fragments(
            v.buffer,
            chunks.map_values(|b: Seq<u8>| lossy_of(b)),
        ),
    decreases chunks.len(),
{
    let decoded = chunks.map_values(|b: Seq<u8>| lossy_of(b));
    if chunks.len() == 0 {
    } else {
        let v1 = output_step(v, lossy_of(chunks[0]));
        lemma_apply_outputs_buffer(v1, chunks.skip(1));
        assert(chunks.skip(1).map_values(|b: Seq<u8>| lossy_of(b)) =~= decoded.skip(1));
        assert(decoded[0] == lossy_of(chunks[0]));
    }
}

/// For any chunking of the child's byte stream into output messages, the
/// number of finalized lines produced in a fresh session equals the number
/// of newline characters in the decoded logical stream — independent of
/// where the chunk boundaries fall.
pub proof fn lemma_finalized_lines_of_session(chunks: Seq<Seq<u8>>)
    ensures
        apply_outputs(session_start(), chunks).buffer.history.len()
            == crate::line_buffer::newline_count(
            crate::line_buffer::concat_fragments(chunks.map_values(|b: Seq<u8>| lossy_of(b))),
        ),
{
    let decoded = chunks.map_values(|b: Seq<u8>| lossy_of(b));
    lemma_apply_outputs_buffer(session_start(), chunks);
    crate::line_buffer::lemma_finalized_lines_chunk_independent(decoded);
}

/// The consumer-side session state.
pub struct TopgradeApp {
    buffer: LineBuffer,
    router: InputRouter,
    password_mode: bool,
    input_expected: bool,
    state: SessionState,
}

impl View for TopgradeApp {
    type V = ConsoleView;

    closed spec fn view(&self) -> ConsoleView {
        ConsoleView {
            buffer: self.buffer@,
            pending_input: self.router@,
            password_mode: self.password_mode,
            input_expected: self.input_expected,
            state: self.state,
        }
    }
}

impl TopgradeApp {
    /// A console with no session.
    pub fn new() -> (r: TopgradeApp)
        ensures
            r@ == console_empty(),
            console_wf(r@),
    {
        TopgradeApp {
            buffer: LineBuffer::new(),
            router: InputRouter::new(),
            password_mode: false,
            input_expected: false,
            state: SessionState::NotStarted,
        }
    }

    /// Start a session: clear every buffer and flag and mark the session
    /// running. Starting over an existing session discards its state; the
    /// old reader detects the broken stream and exits on its own.
    pub fn begin_session(&mut self)
        ensures
            final(self)@ == (ConsoleView { state: SessionState::Running, ..console_empty() }),
            console_wf(final(self)@),
    {
        self.buffer.reset();
        self.router.reset();
        self.password_mode = false;
        self.input_expected = false;
        self.state = SessionState::Running;
    }

    /// Consume one decoded output fragment: run the prompt detector, then
    /// feed the line buffer character by character.
    pub fn process_output(&mut self, text: &str)
        requires
            console_wf(old(self)@),
        ensures
            final(self)@ == output_step(old(self)@, text@),
            console_wf(final(self)@),
    {
        if detect_secret(text) {
            self.password_mode = true;
        }
        if detect_prompt(text) {
            self.input_expected = true;
        }
        self.buffer.feed(text);
    }

    /// Apply one channel message: an output chunk is decoded lossily and
    /// processed; the termination message marks the session finished.
    pub fn apply_message(&mut self, msg: OutMsg)
        requires
            console_wf(old(self)@),
        ensures
            console_wf(final(self)@),
            (msg@ matches MsgView::Output(b) ==> final(self)@ == output_step(
                old(self)@,
                lossy_of(b),
            )),
            (msg@ is Exit ==> final(self)@ == (ConsoleView {
                state: SessionState::Finished,
                ..old(self)@
            })),
    {
        match msg {
            OutMsg::Output(bytes) => {
                let text = decode_lossy(&bytes);
                self.process_output(text.as_str());
            },
            OutMsg::Exit => {
                self.state = SessionState::Finished;
            },
        }
    }

    /// Append a text keystroke event to the pending input, dropping control
    /// characters.
    pub fn push_input_text(&mut self, text: &str)
        ensures
            final(self)@ == (ConsoleView {
                pending_input: old(self)@.pending_input + filter_printable(text@),
                ..old(self)@
            }),
    {
        self.router.push_text(text);
    }

    /// Remove the last pending input character, if any.
    pub fn input_backspace(&mut self)
        ensures
            old(self)@.pending_input.len() > 0 ==> final(self)@ == (ConsoleView {
                pending_input: old(self)@.pending_input.drop_last(),
                ..old(self)@
            }),
            old(self)@.pending_input.len() == 0 ==> final(self)@ == old(self)@,
    {
        self.router.backspace();
    }

    /// Submit the pending input: hand back the whole buffer with a line
    /// terminator appended, clear it, and leave password mode
    /// unconditionally. The caller writes the returned line, in one call, to
    /// the child's input stream.
    pub fn take_submission(&mut self) -> (line: String)
        ensures
            line@ == old(self)@.pending_input + seq!['\n'],
            final(self)@ == (ConsoleView {
                pending_input: Seq::<char>::empty(),
                password_mode: false,
                ..old(self)@
            }),
    {
        let line = self.router.take_line();
        self.password_mode = false;
        line
    }

    /// The finalized and current lines.
    pub fn lines(&self) -> (r: &LineBuffer)
        ensures
            r@ == self@.buffer,
    {
        &self.buffer
    }

    /// The pending, not yet submitted user input.
    pub fn pending_input(&self) -> (r: &str)
        ensures
            r@ == self@.pending_input,
    {
        self.router.pending_text()
    }

    /// The session is running.
    pub fn is_running(&self) -> (r: bool)
        ensures
            r == (self@.state is Running),
    {
        self.state == SessionState::Running
    }

    /// The session ran and its termination message has been applied.
    pub fn is_finished(&self) -> (r: bool)
        ensures
            r == (self@.state is Finished),
    {
        self.state == SessionState::Finished
    }

    /// Pending input should be masked as a secret.
    pub fn password_mode(&self) -> (r: bool)
        ensures
            r == self@.password_mode,
    {
        self.password_mode
    }

    /// Interactive input is likely expected.
    pub fn input_expected(&self) -> (r: bool)
        ensures
            r == self@.input_expected,
    {
        self.input_expected
    }
}

} // verus!
