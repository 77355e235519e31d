//! The output agent: the single owner of the outbound message stream.
//!
//! Every outbound byte goes through one agent, one whole message per task,
//! in submission order; nothing else may touch the stream. The agent accepts
//! tasks until it is shut down, and shutdown is terminal.

use vstd::prelude::*;

use crate::service_util::ErrorMessage;

verus! {

/// A sink for whole outbound messages.
///
/// `written()` is the abstract trace: every message written so far, whole
/// and in order. Implementations append to it and never otherwise change it.
pub trait MessageWriter {
    spec fn written(&self) -> Seq<Seq<char>>;

    /// Writes one whole message after those already written.
    fn write_message(&mut self, msg: &str)
        ensures
            final(self).written() == old(self).written().push(msg@),
    ;
}

/// A writer that keeps the messages in memory, for tests and loopbacks.
pub struct BufferWriter {
    pub messages: Vec<String>,
}

impl BufferWriter {
    /// A writer with nothing written yet.
    pub fn new() -> (r: BufferWriter)
        ensures
            r.written() == Seq::<Seq<char>>::empty(),
    {
        let r = BufferWriter { messages: Vec::new() };
        proof {
            assert(r.written() =~= Seq::<Seq<char>>::empty());
        }
        r
    }
}

impl MessageWriter for BufferWriter {
    open spec fn written(&self) -> Seq<Seq<char>> {
        self.messages@.map(|i: int, s: String| s@)
    }

    fn write_message(&mut self, msg: &str) {
        self.messages.push(String::from_str(msg));
        proof {
            assert(self.written() =~= old(self).written().push(msg@));
        }
    }
}

/// The concatenation of the messages, in order: the raw outbound stream.
pub open spec fn spec_concat_messages(msgs: Seq<Seq<char>>) -> Seq<char>
    decreases msgs.len(),
{
    if msgs.len() == 0 {
        Seq::empty()
    } else {
        spec_concat_messages(msgs.drop_last()) + msgs.last()
    }
}

/// The output stream is a concatenation of whole messages: writing one more
/// message appends exactly its text, so two messages' bytes never interleave.
pub proof fn lemma_output_stream_is_concatenation(msgs: Seq<Seq<char>>, m: Seq<char>)
    ensures
        spec_concat_messages(msgs.push(m)) == spec_concat_messages(msgs) + m,
{
    assert(msgs.push(m).drop_last() =~= msgs);
}

/// The owner of the outbound stream: performs whole-message write tasks in
/// submission order until shut down.
pub struct OutputAgent<W: MessageWriter> {
    pub writer: W,
    pub shutdown_flag: bool,
}

impl<W: MessageWriter> OutputAgent<W> {
    /// The messages the agent has written, in submission order.
    pub open spec fn spec_written(&self) -> Seq<Seq<char>> {
        self.writer.written()
    }

    /// Whether the agent has been shut down.
    pub open spec fn spec_is_shutdown(&self) -> bool {
        self.shutdown_flag
    }

    /// Starts an agent owning the writer the provider makes.
    pub fn start_with_provider<F: FnOnce() -> W>(provider: F) -> (r: OutputAgent<W>)
        requires
            call_requires(provider, ()),
        ensures
            !r.spec_is_shutdown(),
            exists|w: W| call_ensures(provider, (), w) && r.spec_written() == w.written(),
    {
        let writer = provider();
        let agent = OutputAgent { writer, shutdown_flag: false };
        proof {
            assert(call_ensures(provider, (), agent.writer) && agent.spec_written()
                == agent.writer.written());
        }
        agent
    }

    /// Starts an agent owning the given writer.
    pub fn start_with_writer(writer: W) -> (r: OutputAgent<W>)
        ensures
            !r.spec_is_shutdown(),
            r.spec_written() == writer.written(),
    {
        OutputAgent { writer, shutdown_flag: false }
    }

    /// Whether the agent has been shut down.
    pub fn is_shutdown(&self) -> (r: bool)
        ensures
            r == self.spec_is_shutdown(),
    {
        self.shutdown_flag
    }

    /// Submits one whole message: written at once unless the agent is shut
    /// down, in which case the task is rejected and nothing changes.
    pub fn try_submit_task(&mut self, message: &str) -> (r: Result<(), ErrorMessage>)
        ensures
            old(self).spec_is_shutdown() ==> r is Err && *final(self) == *old(self),
            !old(self).spec_is_shutdown() ==> r is Ok && !final(self).spec_is_shutdown()
                && final(self).spec_written() == old(self).spec_written().push(message@),
    {
        if self.shutdown_flag {
            Err(ErrorMessage::create(String::from_str("Output agent is shutdown!")))
        } else {
            self.writer.write_message(message);
            Ok(())
        }
    }

    /// Shuts the agent down. Idempotent: every task accepted before this
    /// call has been written, and no further task will be accepted.
    pub fn shutdown_and_join(&mut self)
        ensures
            final(self).spec_is_shutdown(),
            final(self).spec_written() == old(self).spec_written(),
    {
        self.shutdown_flag = true;
    }
}

} // verus!
