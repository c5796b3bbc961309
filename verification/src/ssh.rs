//! The result of running a command over an SSH channel: the bytes the
//! command wrote and its exit status, collected from the channel's messages.
use vstd::prelude::*;
use vstd::utf8::{decode_utf8, valid_utf8};

verus! {

/// A message that an SSH channel delivers.
#[derive(Debug, PartialEq, Eq)]
pub enum ChannelEvent {
    /// Bytes the remote command wrote.
    Data(Vec<u8>),
    /// The remote command's exit status.
    ExitStatus(u32),
    /// Any other channel message (end of file, window change, ...).
    Other,
}

/// The mathematical value of a `ChannelEvent`.
pub enum ChannelEventModel {
    Data(Seq<u8>),
    ExitStatus(u32),
    Other,
}

impl View for ChannelEvent {
    type V = ChannelEventModel;

    open spec fn view(&self) -> ChannelEventModel {
        match self {
            ChannelEvent::Data(d) => ChannelEventModel::Data(d@),
            ChannelEvent::ExitStatus(s) => ChannelEventModel::ExitStatus(*s),
            ChannelEvent::Other => ChannelEventModel::Other,
        }
    }
}

/// The output and exit status of a remote command.
#[derive(Debug, PartialEq, Eq)]
pub struct CommandResult {
    pub output: Vec<u8>,
    pub code: Option<u32>,
}

/// The output and exit status after one more channel message.
pub open spec fn record_step(state: (Seq<u8>, Option<u32>), event: ChannelEventModel) -> (
    Seq<u8>,
    Option<u32>,
) {
    match event {
        ChannelEventModel::Data(d) => (state.0 + d, state.1),
        ChannelEventModel::ExitStatus(s) => (state.0, Some(s)),
        ChannelEventModel::Other => state,
    }
}

/// The output and exit status after a whole run of channel messages,
/// starting from nothing.
pub open spec fn replay(events: Seq<ChannelEventModel>) -> (Seq<u8>, Option<u32>)
    decreases events.len(),
{
    if events.len() == 0 {
        (seq![], None)
    } else {
        record_step(replay(events.drop_last()), events.last())
    }
}

pub open spec fn is_data(e: ChannelEventModel) -> bool {
    e is Data
}

pub open spec fn is_exit_status(e: ChannelEventModel) -> bool {
    e is ExitStatus
}

/// The payloads of the data messages among `events`, in order.
pub open spec fn data_chunks(events: Seq<ChannelEventModel>) -> Seq<Seq<u8>> {
    events.filter(|e: ChannelEventModel| is_data(e)).map_values(|e: ChannelEventModel| e->Data_0)
}

/// The exit status carried by the last exit-status message among `events`.
pub open spec fn last_exit_status(events: Seq<ChannelEventModel>) -> Option<u32> {
    let statuses = events.filter(|e: ChannelEventModel| is_exit_status(e));
    if statuses.len() == 0 {
        None
    } else {
        Some(statuses.last()->ExitStatus_0)
    }
}

/// Law: a data message appends exactly its bytes to the output and leaves
/// the exit status alone; an exit-status message replaces the status and
/// leaves the output alone; any other message changes nothing.
pub proof fn law_record_effect(output: Seq<u8>, code: Option<u32>, d: Seq<u8>, status: u32)
    ensures
        record_step((output, code), ChannelEventModel::Data(d)).0.len() == (output.len() + d.len()) as int,
        record_step((output, code), ChannelEventModel::Data(d)).0.subrange(0, output.len() as int)
            == output,
        record_step((output, code), ChannelEventModel::Data(d)).0.subrange(
            output.len() as int,
            (output.len() + d.len()) as int,
        ) == d,
        record_step((output, code), ChannelEventModel::Data(d)).1 == code,
        record_step((output, code), ChannelEventModel::ExitStatus(status)) == (output, Some(status)),
        record_step((output, code), ChannelEventModel::Other) == (output, code),
{
    let r = record_step((output, code), ChannelEventModel::Data(d)).0;
    assert(r.subrange(0, output.len() as int) =~= output);
    assert(r.subrange(output.len() as int, (output.len() + d.len()) as int) =~= d);
}

/// Law: the result of a run of channel messages holds the bytes of every
/// data message, concatenated in the order they came, and the status of the
/// last exit-status message (none where there was none).
pub proof fn law_replay_collects(events: Seq<ChannelEventModel>)
    ensures
        replay(events).0 == data_chunks(events).flatten(),
        replay(events).1 == last_exit_status(events),
    decreases events.len(),
{
    broadcast use Seq::lemma_filter_push, Seq::lemma_flatten_push;

    let pd = |e: ChannelEventModel| is_data(e);
    let px = |e: ChannelEventModel| is_exit_status(e);
    if events.len() == 0 {
        assert(events.filter(pd) =~= Seq::<ChannelEventModel>::empty()) by {
            reveal(Seq::filter);
        }
        assert(events.filter(px) =~= Seq::<ChannelEventModel>::empty()) by {
            reveal(Seq::filter);
        }
        assert(data_chunks(events) =~= Seq::<Seq<u8>>::empty());
    } else {
        let init = events.drop_last();
        let e = events.last();
        law_replay_collects(init);
        assert(init.push(e) =~= events);
        assert(events.filter(pd) == if pd(e) { init.filter(pd).push(e) } else { init.filter(pd) });
        assert(events.filter(px) == if px(e) { init.filter(px).push(e) } else { init.filter(px) });
        if pd(e) {
            assert(data_chunks(events) =~= data_chunks(init).push(e->Data_0));
        } else {
            assert(data_chunks(events) =~= data_chunks(init));
        }
    }
}

/// The characters of `bytes` decoded as UTF-8, with each invalid sequence
/// replaced by U+FFFD (`String::from_utf8_lossy`).
pub uninterp spec fn utf8_lossy(bytes: Seq<u8>) -> Seq<char>;

/// Decodes bytes as UTF-8, replacing invalid sequences
/// (`String::from_utf8_lossy`). Its documentation says that valid UTF-8
/// comes back unchanged; that is stated. For other input the result is
/// named `utf8_lossy` and not spelled out.
#[verifier::external_body]
fn decode_lossy(bytes: &[u8]) -> (s: String)
    ensures
        s@ == utf8_lossy(bytes@),
        valid_utf8(bytes@) ==> s@ == decode_utf8(bytes@),
{
    String::from_utf8_lossy(bytes).into_owned()
}

impl CommandResult {
    /// A result with no output and no exit status yet.
    pub fn new() -> (r: CommandResult)
        ensures
            r.output@ == Seq::<u8>::empty(),
            r.code == None::<u32>,
    {
        CommandResult { output: Vec::new(), code: None }
    }

    /// Takes one channel message into account: data is appended to the
    /// output, an exit status replaces the recorded one, anything else is
    /// ignored.
    pub fn record(&mut self, event: ChannelEvent)
        ensures
            (final(self).output@, final(self).code) == record_step(
                (old(self).output@, old(self).code),
                event@,
            ),
    {
        match event {
            ChannelEvent::Data(data) => {
                let mut i: usize = 0;
                let ghost start = self.output@;
                while i < data.len()
                    invariant
                        i <= data.len(),
                        self.output@ == start + data@.take(i as int),
                        self.code == old(self).code,
                        start == old(self).output@,
                    decreases data.len() - i,
                {
                    self.output.push(data[i]);
                    i = i + 1;
                    assert(start + data@.take(i as int) =~= (start + data@.take(i - 1)).push(data@[i - 1]));
                }
                assert(data@.take(data.len() as int) =~= data@);
            },
            ChannelEvent::ExitStatus(status) => {
                self.code = Some(status);
            },
            ChannelEvent::Other => {},
        }
    }

    /// The output as text, invalid UTF-8 replaced.
    pub fn output(&self) -> (s: String)
        ensures
            s@ == utf8_lossy(self.output@),
            valid_utf8(self.output@) ==> s@ == decode_utf8(self.output@),
    {
        decode_lossy(self.output.as_slice())
    }

    /// Whether the command exited with status 0.
    pub fn success(&self) -> (r: bool)
        ensures
            r == (self.code == Some(0u32)),
    {
        match self.code {
            Some(c) => c == 0,
            None => false,
        }
    }
}

} // verus!
