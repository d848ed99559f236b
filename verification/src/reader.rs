//! The output reader's state machine. A dedicated worker performs blocking
//! reads from the pseudoterminal and hands each result to `step`, forwarding
//! the returned message through an ordered channel. Each non-empty read
//! yields one output message; the first empty read, end-of-stream or error
//! yields exactly one termination message, after which the worker exits
//! permanently and never retries.

use vstd::prelude::*;

verus! {

/// The result of one blocking read, as a plain value.
pub enum ReadEvent {
    /// Bytes were read. An empty read means end-of-stream.
    Data(Vec<u8>),
    /// The stream is closed.
    Eof,
    /// The read failed.
    Failed,
}

/// A message forwarded to the consumer.
pub enum OutMsg {
    /// One ordered, non-empty chunk of child output.
    Output(Vec<u8>),
    /// The single termination message of the session.
    Exit,
}

/// Model of a read result.
pub ghost enum EventView {
    Data(Seq<u8>),
    Eof,
    Failed,
}

/// Model of a forwarded message.
pub ghost enum MsgView {
    Output(Seq<u8>),
    Exit,
}

impl View for ReadEvent {
    type V = EventView;

    open spec fn view(&self) -> EventView {
        match self {
            ReadEvent::Data(b) => EventView::Data(b@),
            ReadEvent::Eof => EventView::Eof,
            ReadEvent::Failed => EventView::Failed,
        }
    }
}

impl View for OutMsg {
    type V = MsgView;

    open spec fn view(&self) -> MsgView {
        match self {
            OutMsg::Output(b) => MsgView::Output(b@),
            OutMsg::Exit => MsgView::Exit,
        }
    }
}

/// A read result that ends the session: an empty read, end-of-stream, or an
/// error.
pub open spec fn is_terminal(ev: EventView) -> bool {
    match ev {
        EventView::Data(b) => b.len() == 0,
        EventView::Eof => true,
        EventView::Failed => true,
    }
}

/// The message emitted for one read result while the reader is still live.
pub open spec fn msg_for(ev: EventView) -> MsgView {
    match ev {
        EventView::Data(b) => if b.len() == 0 {
            MsgView::Exit
        } else {
            MsgView::Output(b)
        },
        EventView::Eof => MsgView::Exit,
        EventView::Failed => MsgView::Exit,
    }
}

/// The whole message sequence a live reader emits for a sequence of read
/// results: one output per non-empty read up to the first terminal result,
/// then exactly one termination message.
pub open spec fn run_msgs(events: Seq<EventView>) -> Seq<MsgView>
    decreases events.len(),
{
    if events.len() == 0 {
        Seq::empty()
    } else if is_terminal(events[0]) {
        seq![MsgView::Exit]
    } else {
        seq![msg_for(events[0])] + run_msgs(events.skip(1))
    }
}

/// Some read result in the sequence ends the session.
pub open spec fn has_terminal(events: Seq<EventView>) -> bool {
    exists|i: int| 0 <= i < events.len() && is_terminal(events[i])
}

/// The termination message is emitted exactly once, strictly after every
/// output message, and exactly when some read result ended the session.
pub proof fn lemma_exit_strictly_after_outputs(events: Seq<EventView>)
    ensures
        forall|i: int|
            0 <= i < run_msgs(events).len() && run_msgs(events)[i] is Exit ==> i == run_msgs(
                events,
            ).len() - 1,
        has_terminal(events) <==> (run_msgs(events).len() > 0 && run_msgs(events).last()
            is Exit),
    decreases events.len(),
{
    let msgs = run_msgs(events);
    if events.len() == 0 {
        assert(!has_terminal(events));
    } else if is_terminal(events[0]) {
        assert(has_terminal(events));
    } else {
        let rest = events.skip(1);
        lemma_exit_strictly_after_outputs(rest);
        let sub = run_msgs(rest);
        assert(msgs[0] == msg_for(events[0]));
        assert(!(msg_for(events[0]) is Exit));
        assert forall|i: int| 0 <= i < msgs.len() && msgs[i] is Exit implies i == msgs.len()
            - 1 by {
            assert(i > 0);
            assert(msgs[i] == sub[i - 1]);
        }
        if has_terminal(events) {
            let w = choose|w: int| 0 <= w < events.len() && is_terminal(events[w]);
            assert(w > 0);
            assert(rest[w - 1] == events[w]);
            assert(has_terminal(rest));
            assert(sub.len() > 0 && sub.last() is Exit);
            assert(msgs.last() == sub.last());
        }
        if msgs.len() > 0 && msgs.last() is Exit {
            assert(sub.len() > 0);
            assert(msgs.last() == sub.last());
            assert(has_terminal(rest));
            let w = choose|w: int| 0 <= w < rest.len() && is_terminal(rest[w]);
            assert(events[w + 1] == rest[w]);
            assert(has_terminal(events));
        }
    }
}

/// The executable reader state: live until the first terminal read result.
pub struct OutputReader {
    done: bool,
}

impl View for OutputReader {
    type V = bool;

    /// True once the reader has emitted its termination message.
    closed spec fn view(&self) -> bool {
        self.done
    }
}

pub open spec fn msg_opt_view(m: Option<OutMsg>) -> Option<MsgView> {
    match m {
        Option::None => Option::None,
        Option::Some(x) => Option::Some(x@),
    }
}

impl OutputReader {
    /// A live reader for a fresh session.
    pub fn new() -> (r: OutputReader)
        ensures
            r@ == false,
    {
        OutputReader { done: false }
    }

    /// Process one read result. A live reader forwards one message per
    /// result; a finished reader forwards nothing ever after.
    pub fn step(&mut self, ev: ReadEvent) -> (m: Option<OutMsg>)
        ensures
            final(self)@ == (old(self)@ || is_terminal(ev@)),
            msg_opt_view(m) == (if old(self)@ {
                Option::<MsgView>::None
            } else {
                Option::Some(msg_for(ev@))
            }),
    {
        if self.done {
            return None;
        }
        match ev {
            ReadEvent::Data(b) => {
                if b.len() > 0 {
                    Some(OutMsg::Output(b))
                } else {
                    self.done = true;
                    Some(OutMsg::Exit)
                }
            },
            ReadEvent::Eof => {
                self.done = true;
                Some(OutMsg::Exit)
            },
            ReadEvent::Failed => {
                self.done = true;
                Some(OutMsg::Exit)
            },
        }
    }

    /// Whether the termination message has been emitted.
    pub fn is_done(&self) -> (r: bool)
        ensures
            r == self@,
    {
        self.done
    }
}

} // verus!
