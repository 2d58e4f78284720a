//! The decisions of a client connection: which length prefixes are read,
//! which commands are served, what each asks the broker to do, and which
//! subscriptions are dropped when the connection ends. The socket, the
//! command decoder and the topics themselves are driven around it.

use vstd::prelude::*;
use bytes::Bytes;
use crate::bufs::{bytes_as_slice, bytes_view};
use crate::codec::{be_u32_value, read_u32_be};
use crate::text::{string_byte_len, utf8_len};
use crate::dmap::{conn_lists, conn_lists_get, conn_lists_insert, conn_lists_new, conn_lists_remove, ConnListMap};
use crate::command::{Action, ClientCommand};
use crate::message::SubAck;
use crate::text::str_to_string;
use crate::vectored_io::{lossy_text_of, utf8_lossy};

verus! {

/// Why a connection is closed.
#[derive(Debug, Clone, Copy, PartialEq, Eq, Structural)]
pub enum CloseReason {
    /// The announced command length exceeds the message size limit.
    Oversized,
    /// The announced command length is zero.
    Empty,
    /// The command could not be decoded.
    Malformed,
    /// The topic name is empty, longer than 256 bytes or holds a forbidden
    /// character.
    InvalidTopic,
    /// A published payload exceeds the message size limit.
    OversizedPayload,
    /// The client asked to quit.
    Quit,
}

/// What a length prefix allows.
#[derive(Debug, Clone, Copy, PartialEq, Eq, Structural)]
pub enum LengthCheck {
    /// Read a command of this many bytes.
    Read(usize),
    /// Close the connection.
    Close(CloseReason),
}

/// What a command asks of the broker.
#[derive(Debug)]
pub enum SessionStep {
    /// Close the connection.
    Close(CloseReason),
    /// Publish the payload to the topic, if the topic exists.
    Publish { topic: String, payload: Bytes, ttl_ms: u64 },
    /// Acknowledge the subscription, then subscribe (see
    /// `ClientSession::subscribed`).
    Subscribe { topic: String },
    /// Unsubscribe from the topic, if it exists.
    Unsubscribe { topic: String },
    /// Nothing to do for this command.
    Skip,
}

/// The length a big-endian 4-byte prefix announces.
pub open spec fn announced(prefix: Seq<u8>) -> int {
    be_u32_value(prefix[0], prefix[1], prefix[2], prefix[3])
}

/// The verdict on an announced length under a size limit.
pub open spec fn length_verdict(len: int, max: usize) -> LengthCheck {
    if len > max {
        LengthCheck::Close(CloseReason::Oversized)
    } else if len == 0 {
        LengthCheck::Close(CloseReason::Empty)
    } else {
        LengthCheck::Read(len as usize)
    }
}

/// A topic name the broker serves: 1 to 256 bytes, without `/`, NUL, line
/// feed or carriage return.
pub open spec fn topic_acceptable(bytes_len: nat, chars: Seq<char>) -> bool {
    &&& 0 < bytes_len <= 256
    &&& !chars.contains('/')
    &&& !chars.contains('\0')
    &&& !chars.contains('\n')
    &&& !chars.contains('\r')
}

/// Whether a topic name is served.
pub fn topic_name_ok(topic: &String) -> (r: bool)
    ensures
        r == topic_acceptable(utf8_len(topic@), topic@),
{
    let n = string_byte_len(topic);
    if n == 0 || n > 256 {
        return false;
    }
    let t = topic.as_str();
    let k = t.unicode_len();
    let mut i: usize = 0;
    while i < k
        invariant
            k == t@.len(),
            t@ == topic@,
            i <= k,
            forall|j: int| 0 <= j < i ==> {
                let c = #[trigger] t@[j];
                c != '/' && c != '\0' && c != '\n' && c != '\r'
            },
        decreases k - i,
    {
        let c = t.get_char(i);
        if c == '/' || c == '\0' || c == '\n' || c == '\r' {
            proof {
                assert(t@[i as int] == c);
            }
            return false;
        }
        i = i + 1;
    }
    true
}

/// What a decoded command asks of the broker under a message size limit:
/// an unacceptable topic name, or a published payload over the limit,
/// closes the connection; otherwise the action decides.
pub open spec fn step_for(c: ClientCommand, limit: usize, r: SessionStep) -> bool {
    if !topic_acceptable(utf8_len(c.topic@), c.topic@) {
        r == SessionStep::Close(CloseReason::InvalidTopic)
    } else {
        match c.action {
            Action::Pub => if bytes_view(c.payload).len() > limit {
                r == SessionStep::Close(CloseReason::OversizedPayload)
            } else {
                r == (SessionStep::Publish { topic: c.topic, payload: c.payload, ttl_ms: c.ttl_ms })
            },
            Action::Sub => r == (SessionStep::Subscribe { topic: c.topic }),
            Action::Unsub => r == (SessionStep::Unsubscribe { topic: c.topic }),
            Action::Quit => r == SessionStep::Close(CloseReason::Quit),
        }
    }
}

/// The state of one client connection: the message size limit and the
/// topics it subscribed to, in order.
#[derive(Debug)]
pub struct ClientSession {
    max_message_size: usize,
    subscriptions: Vec<String>,
}

impl ClientSession {
    /// The message size limit.
    pub closed spec fn limit(&self) -> usize {
        self.max_message_size
    }

    /// The topics subscribed to so far, in order.
    pub closed spec fn subscribed_topics(&self) -> Seq<Seq<char>> {
        self.subscriptions@.map_values(|s: String| s@)
    }

    /// A fresh connection under a message size limit.
    pub fn new(max_message_size: usize) -> (s: ClientSession)
        ensures
            s.limit() == max_message_size,
            s.subscribed_topics() == Seq::<Seq<char>>::empty(),
    {
        let s = ClientSession { max_message_size, subscriptions: Vec::new() };
        proof {
            assert(s.subscribed_topics() =~= Seq::<Seq<char>>::empty());
        }
        s
    }

    /// The verdict on a 4-byte big-endian length prefix.
    pub fn on_length(&self, prefix: &[u8; 4]) -> (r: LengthCheck)
        ensures
            r == length_verdict(announced(prefix@), self.limit()),
    {
        let len = read_u32_be(prefix, 0);
        proof {
            assert(prefix@.subrange(0, 4) =~= prefix@);
        }
        if len as usize > self.max_message_size {
            LengthCheck::Close(CloseReason::Oversized)
        } else if len == 0 {
            LengthCheck::Close(CloseReason::Empty)
        } else {
            LengthCheck::Read(len as usize)
        }
    }

    /// What a decoded command (`None`: it did not decode) asks; a command
    /// that did not decode closes the connection.
    pub fn on_command(&self, cmd: Option<ClientCommand>) -> (r: SessionStep)
        ensures
            match cmd {
                None => r == SessionStep::Close(CloseReason::Malformed),
                Some(c) => step_for(c, self.limit(), r),
            },
    {
        match cmd {
            None => SessionStep::Close(CloseReason::Malformed),
            Some(c) => {
                if !topic_name_ok(&c.topic) {
                    return SessionStep::Close(CloseReason::InvalidTopic);
                }
                match c.action {
                    Action::Pub => {
                        if bytes_as_slice(&c.payload).len() > self.max_message_size {
                            SessionStep::Close(CloseReason::OversizedPayload)
                        } else {
                            SessionStep::Publish { topic: c.topic, payload: c.payload, ttl_ms: c.ttl_ms }
                        }
                    },
                    Action::Sub => SessionStep::Subscribe { topic: c.topic },
                    Action::Unsub => SessionStep::Unsubscribe { topic: c.topic },
                    Action::Quit => SessionStep::Close(CloseReason::Quit),
                }
            },
        }
    }
}

/// What a command asks of the pooled server, where commands are neither
/// size- nor topic-checked: a command refused by the rate limit, or one that
/// did not decode, is skipped.
pub open spec fn pooled_step_for(cmd: Option<ClientCommand>, admitted: bool, r: SessionStep) -> bool {
    if !admitted {
        r == SessionStep::Skip
    } else {
        match cmd {
            None => r == SessionStep::Skip,
            Some(c) => match c.action {
                Action::Pub => r == (SessionStep::Publish { topic: c.topic, payload: c.payload, ttl_ms: c.ttl_ms }),
                Action::Sub => r == (SessionStep::Subscribe { topic: c.topic }),
                Action::Unsub => r == (SessionStep::Unsubscribe { topic: c.topic }),
                Action::Quit => r == SessionStep::Close(CloseReason::Quit),
            },
        }
    }
}

impl ClientSession {
    /// What a command asks of the pooled server; `admitted` is the rate
    /// limit's verdict on it.
    pub fn on_command_pooled(&self, cmd: Option<ClientCommand>, admitted: bool) -> (r: SessionStep)
        ensures
            pooled_step_for(cmd, admitted, r),
    {
        if !admitted {
            return SessionStep::Skip;
        }
        match cmd {
            None => SessionStep::Skip,
            Some(c) => match c.action {
                Action::Pub => SessionStep::Publish { topic: c.topic, payload: c.payload, ttl_ms: c.ttl_ms },
                Action::Sub => SessionStep::Subscribe { topic: c.topic },
                Action::Unsub => SessionStep::Unsubscribe { topic: c.topic },
                Action::Quit => SessionStep::Close(CloseReason::Quit),
            },
        }
    }

    /// Records that the subscription to `topic` took effect (its
    /// acknowledgement went out).
    pub fn subscribed(&mut self, topic: String)
        ensures
            final(self).subscribed_topics() == old(self).subscribed_topics().push(topic@),
            final(self).limit() == old(self).limit(),
    {
        self.subscriptions.push(topic);
        proof {
            assert(self.subscribed_topics() =~= old(self).subscribed_topics().push(topic@));
        }
    }

    /// The topics to unsubscribe from when the connection ends, in the
    /// order they were subscribed.
    pub fn finish(self) -> (r: Vec<String>)
        ensures
            r@.map_values(|s: String| s@) == self.subscribed_topics(),
    {
        self.subscriptions
    }
}

/// The acknowledgement of a subscription.
pub fn sub_ack(topic: String) -> (a: SubAck)
    ensures
        a.topic == topic,
        a.info@ == "subscribed"@,
{
    SubAck { topic, info: str_to_string("subscribed") }
}

/// Whether one more connection is accepted while `active` are open.
pub fn admits_connection(active: usize, max_connections: usize) -> (r: bool)
    ensures
        r == (active < max_connections),
{
    active < max_connections
}

/// A command of the raw benchmark protocol: `P`, a topic length byte, the
/// topic and the payload; or `S`, a topic length byte and the topic.
#[derive(Debug)]
pub enum RawCommand {
    Publish { topic: String, payload: Vec<u8> },
    Subscribe { topic: String },
    /// Anything else, which is ignored.
    Ignored,
}

/// What the raw protocol reads in a buffer: its first byte chooses; the
/// buffer must hold more than two bytes and the whole topic. Topic bytes
/// are decoded leniently as UTF-8.
pub open spec fn raw_command_ok(b: Seq<u8>, r: RawCommand) -> bool {
    if b.len() > 2 && b.len() >= 2 + b[1] && (b[0] == 0x50u8 || b[0] == 0x53u8) {
        let tl = b[1] as int;
        if b[0] == 0x50u8 {
            r matches RawCommand::Publish { topic, payload }
                && topic@ == lossy_text_of(b.subrange(2, 2 + tl)) && payload@ == b.subrange(2 + tl, b.len() as int)
        } else {
            r matches RawCommand::Subscribe { topic } && topic@ == lossy_text_of(b.subrange(2, 2 + tl))
        }
    } else {
        r matches RawCommand::Ignored
    }
}

/// Reads a raw benchmark command.
pub fn parse_raw_command(buf: &[u8]) -> (r: RawCommand)
    ensures
        raw_command_ok(buf@, r),
{
    let n = buf.len();
    if n <= 2 {
        return RawCommand::Ignored;
    }
    let tl = buf[1] as usize;
    if n < 2 + tl || (buf[0] != 0x50u8 && buf[0] != 0x53u8) {
        return RawCommand::Ignored;
    }
    let topic = utf8_lossy(slice_range(buf, 2, 2 + tl));
    if buf[0] == 0x50u8 {
        let payload = vstd::slice::slice_to_vec(slice_range(buf, 2 + tl, n));
        RawCommand::Publish { topic, payload }
    } else {
        RawCommand::Subscribe { topic }
    }
}

/// The bytes of `b` from `lo` up to `hi`.
fn slice_range(b: &[u8], lo: usize, hi: usize) -> (r: &[u8])
    requires
        lo <= hi <= b@.len(),
    ensures
        r@ == b@.subrange(lo as int, hi as int),
{
    vstd::slice::slice_subrange(b, lo, hi)
}

/// The connections subscribed to each topic of the raw benchmark server,
/// in subscription order.
#[derive(Debug)]
pub struct FanoutTable {
    topics: ConnListMap,
}

/// The subscribers of a topic in a table view.
pub open spec fn subscribers_in(m: Map<Seq<char>, Seq<usize>>, t: Seq<char>) -> Seq<usize> {
    if m.contains_key(t) { m[t] } else { Seq::empty() }
}

impl FanoutTable {
    /// Each topic's subscribers.
    pub closed spec fn view(&self) -> Map<Seq<char>, Seq<usize>> {
        conn_lists(self.topics)
    }

    /// No subscriptions.
    pub fn new() -> (f: FanoutTable)
        ensures
            f.view() == Map::<Seq<char>, Seq<usize>>::empty(),
    {
        let f = FanoutTable { topics: conn_lists_new() };
        proof {
            assert(f.view() =~= Map::<Seq<char>, Seq<usize>>::empty());
        }
        f
    }

    /// Adds connection `conn` to the subscribers of `topic`.
    pub fn subscribe(&mut self, topic: String, conn: usize)
        ensures
            final(self).view() == old(self).view().insert(topic@, subscribers_in(old(self).view(), topic@).push(conn)),
    {
        let mut v = match conn_lists_remove(&mut self.topics, topic.as_str()) {
            Some(v) => v,
            None => Vec::new(),
        };
        v.push(conn);
        conn_lists_insert(&mut self.topics, topic, v);
        proof {
            assert(self.view() =~= old(self).view().insert(topic@, subscribers_in(old(self).view(), topic@).push(conn)));
        }
    }

    /// The connections a message published on `topic` by `sender` goes
    /// to: the topic's subscribers other than the sender, in order.
    pub fn targets(&self, topic: &str, sender: usize) -> (r: Vec<usize>)
        ensures
            r@ == subscribers_in(self.view(), topic@).filter(|c: usize| c != sender),
    {
        let mut r: Vec<usize> = Vec::new();
        match conn_lists_get(&self.topics, topic) {
            None => {
                proof {
                    reveal(Seq::filter);
                    assert(Seq::<usize>::empty().filter(|c: usize| c != sender) =~= Seq::<usize>::empty());
                }
                r
            },
            Some(subs) => {
                let mut i: usize = 0;
                while i < subs.len()
                    invariant
                        i <= subs@.len(),
                        r@ == subs@.subrange(0, i as int).filter(|c: usize| c != sender),
                    decreases subs@.len() - i,
                {
                    proof {
                        let a = subs@.subrange(0, i as int);
                        let b = subs@.subrange(0, i + 1);
                        assert(b.drop_last() =~= a);
                        reveal(Seq::filter);
                    }
                    if subs[i] != sender {
                        r.push(subs[i]);
                    }
                    i = i + 1;
                }
                proof {
                    assert(subs@.subrange(0, subs@.len() as int) =~= subs@);
                }
                r
            },
        }
    }

    /// Removes connection `conn` from the subscribers of `topic`, if the
    /// topic is known.
    pub fn unsubscribe(&mut self, topic: &str, conn: usize)
        ensures
            final(self).view() == (if old(self).view().contains_key(topic@) {
                old(self).view().insert(topic@, old(self).view()[topic@].filter(|c: usize| c != conn))
            } else {
                old(self).view()
            }),
    {
        match conn_lists_remove(&mut self.topics, topic) {
            None => {},
            Some(subs) => {
                let kept = self.targets_of(&subs, conn);
                conn_lists_insert(&mut self.topics, str_to_string(topic), kept);
                proof {
                    assert(self.view() =~= old(self).view().insert(topic@, old(self).view()[topic@].filter(|c: usize| c != conn)));
                }
            },
        }
    }

    /// The entries of `subs` other than `conn`, in order.
    fn targets_of(&self, subs: &Vec<usize>, conn: usize) -> (r: Vec<usize>)
        ensures
            r@ == subs@.filter(|c: usize| c != conn),
    {
        let mut r: Vec<usize> = Vec::new();
        let mut i: usize = 0;
        while i < subs.len()
            invariant
                i <= subs@.len(),
                r@ == subs@.subrange(0, i as int).filter(|c: usize| c != conn),
            decreases subs@.len() - i,
        {
            proof {
                let a = subs@.subrange(0, i as int);
                let b = subs@.subrange(0, i + 1);
                assert(b.drop_last() =~= a);
                reveal(Seq::filter);
            }
            if subs[i] != conn {
                r.push(subs[i]);
            }
            i = i + 1;
        }
        proof {
            assert(subs@.subrange(0, subs@.len() as int) =~= subs@);
        }
        r
    }
}


/// What a client frames, the broker reads: the prefix of a length-prefixed
/// command of 1 to `max` bytes asks for exactly that many bytes, and an
/// empty or over-long one closes the connection.
pub proof fn lemma_prefix_roundtrip(body: Seq<u8>, max: usize)
    requires
        body.len() <= u32::MAX,
    ensures
        ({
            let prefix = crate::codec::be_u32_bytes(body.len() as u32);
            length_verdict(announced(prefix), max) == (if body.len() > max {
                LengthCheck::Close(CloseReason::Oversized)
            } else if body.len() == 0 {
                LengthCheck::Close(CloseReason::Empty)
            } else {
                LengthCheck::Read(body.len() as usize)
            })
        }),
{
    crate::codec::lemma_be_u32_roundtrip(body.len() as u32);
}
} // verus!
