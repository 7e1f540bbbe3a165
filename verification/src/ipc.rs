//! Messages of the local control channel and their fixed 1025-byte frames.

use vstd::prelude::*;
use vstd::string::*;

verus! {

/// What a control message asks for or answers with.
#[derive(Copy, Clone, Debug, PartialEq, Eq, Structural)]
pub enum IPCMsgType {
    Status,
    Statistic,
    Quit,
    Okay,
    Error,
    Any,
}

/// A control message: its kind and 1024 bytes of payload, text first and
/// zeros after it.
pub struct IPCMsg {
    pub typ: IPCMsgType,
    pub msg: [u8; 1024],
}

/// The byte that stands for a kind at the head of a frame.
pub open spec fn tag_of(typ: IPCMsgType) -> u8 {
    match typ {
        IPCMsgType::Status => 1,
        IPCMsgType::Statistic => 2,
        IPCMsgType::Quit => 3,
        IPCMsgType::Okay => 4,
        IPCMsgType::Error => 5,
        IPCMsgType::Any => 6,
    }
}

/// The kind that a frame's leading byte stands for. Only the four requests
/// have a byte of their own; every other byte reads as `Any`.
pub open spec fn kind_of(tag: u8) -> IPCMsgType {
    if tag == 1 {
        IPCMsgType::Status
    } else if tag == 2 {
        IPCMsgType::Statistic
    } else if tag == 3 {
        IPCMsgType::Quit
    } else if tag == 4 {
        IPCMsgType::Okay
    } else {
        IPCMsgType::Any
    }
}

/// The kind that a command word of the control utility stands for.
pub open spec fn command_kind(word: Seq<char>) -> IPCMsgType {
    if word == "ok"@ {
        IPCMsgType::Okay
    } else if word == "status"@ {
        IPCMsgType::Status
    } else if word == "statistic"@ {
        IPCMsgType::Statistic
    } else if word == "quit"@ {
        IPCMsgType::Quit
    } else {
        IPCMsgType::Any
    }
}

/// `text` followed by zeros up to 1024 bytes.
pub open spec fn padded(text: Seq<u8>) -> Seq<u8>
    recommends
        text.len() <= 1024,
{
    text + Seq::new((1024 - text.len()) as nat, |i: int| 0u8)
}

/// The frame of a message: the kind's byte, then the payload.
pub open spec fn framed(typ: IPCMsgType, payload: Seq<u8>) -> Seq<u8> {
    seq![tag_of(typ)] + payload
}

/// Whether `n` is where the text of `payload` ends: at the first zero byte,
/// or at the end where there is none.
pub open spec fn text_ends_at(payload: Seq<u8>, n: int) -> bool {
    &&& 0 <= n <= payload.len()
    &&& forall|j: int| 0 <= j < n ==> payload[j] != 0
    &&& n < payload.len() ==> payload[n] == 0
}

/// The numeric value of a kind on the wire.
pub fn to_val(msg: &IPCMsgType) -> (tag: u8)
    ensures
        tag == tag_of(*msg),
{
    match msg {
        IPCMsgType::Status => 1,
        IPCMsgType::Statistic => 2,
        IPCMsgType::Quit => 3,
        IPCMsgType::Okay => 4,
        IPCMsgType::Error => 5,
        IPCMsgType::Any => 6,
    }
}

impl IPCMsgType {
    /// Reads a kind from the leading byte of a frame.
    pub fn from_val(tag: u8) -> (typ: IPCMsgType)
        ensures
            typ == kind_of(tag),
    {
        match tag {
            1 => IPCMsgType::Status,
            2 => IPCMsgType::Statistic,
            3 => IPCMsgType::Quit,
            4 => IPCMsgType::Okay,
            _ => IPCMsgType::Any,
        }
    }

    /// Reads a kind from a command word: `ok`, `status`, `statistic` and
    /// `quit` name their kinds, any other word is `Any`.
    pub fn from_command(word: &str) -> (typ: IPCMsgType)
        ensures
            typ == command_kind(word@),
    {
        let given = word.to_owned();
        if given == "ok".to_owned() {
            IPCMsgType::Okay
        } else if given == "status".to_owned() {
            IPCMsgType::Status
        } else if given == "statistic".to_owned() {
            IPCMsgType::Statistic
        } else if given == "quit".to_owned() {
            IPCMsgType::Quit
        } else {
            IPCMsgType::Any
        }
    }
}

impl IPCMsg {
    /// A message of the given kind with an all-zero payload.
    pub fn new(typ: IPCMsgType) -> (m: IPCMsg)
        ensures
            m.typ == typ,
            m.msg@ == padded(Seq::<u8>::empty()),
    {
        let m = IPCMsg { typ, msg: [0u8; 1024] };
        assert(m.msg@ =~= padded(Seq::<u8>::empty()));
        m
    }

    /// Sets the payload to the bytes of `msg`, zero-padded, and returns their
    /// number. An empty text is refused and leaves the message as it was.
    pub fn create_payload(&mut self, msg: &str) -> (outcome: Result<usize, String>)
        requires
            msg.spec_bytes().len() <= 1024,
        ensures
            msg.spec_bytes().len() == 0 ==> outcome is Err && outcome->Err_0@
                == "Can't send empty message!"@ && *final(self) == *old(self),
            msg.spec_bytes().len() > 0 ==> outcome == Ok::<usize, String>(
                msg.spec_bytes().len() as usize,
            ) && final(self).typ == old(self).typ && final(self).msg@ == padded(msg.spec_bytes()),
    {
        let bytes = msg.as_bytes();
        if bytes.len() == 0 {
            return Err("Can't send empty message!".to_owned());
        }
        let mut ret = [0u8; 1024];
        let mut i: usize = 0;
        while i < bytes.len()
            invariant
                i <= bytes@.len() <= 1024,
                forall|j: int| 0 <= j < i ==> ret@[j] == bytes@[j],
                forall|j: int| i <= j < 1024 ==> ret@[j] == 0,
            decreases bytes@.len() - i,
        {
            ret[i] = bytes[i];
            i = i + 1;
        }
        assert(ret@ =~= padded(bytes@));
        self.msg = ret;
        Ok(i)
    }

    /// The request that a command word of the control utility stands for:
    /// the word's kind, with the word itself as payload. There is none for a
    /// word that cannot be a payload, being empty or longer than 1024 bytes.
    pub fn request(word: &str) -> (request: Option<IPCMsg>)
        ensures
            !(0 < word.spec_bytes().len() <= 1024) ==> request is None,
            0 < word.spec_bytes().len() <= 1024 ==> request is Some && request->Some_0.typ
                == command_kind(word@) && request->Some_0.msg@ == padded(word.spec_bytes()),
    {
        let size = word.as_bytes().len();
        if size == 0 || size > 1024 {
            return None;
        }
        let mut msg = IPCMsg::new(IPCMsgType::from_command(word));
        match msg.create_payload(word) {
            Ok(_) => Some(msg),
            Err(_) => None,
        }
    }

    /// The 1025 bytes that carry the message.
    pub fn to_frame(&self) -> (frame: [u8; 1025])
        ensures
            frame@ == framed(self.typ, self.msg@),
    {
        let mut frame = [0u8; 1025];
        frame[0] = to_val(&self.typ);
        let mut i: usize = 0;
        while i < 1024
            invariant
                i <= 1024,
                frame@[0] == tag_of(self.typ),
                forall|j: int| 0 <= j < i ==> frame@[j + 1] == self.msg@[j],
            decreases 1024 - i,
        {
            frame[i + 1] = self.msg[i];
            i = i + 1;
        }
        assert(frame@ =~= framed(self.typ, self.msg@));
        frame
    }

    /// The message that 1025 received bytes carry.
    pub fn from_frame(frame: &[u8; 1025]) -> (m: IPCMsg)
        ensures
            m.typ == kind_of(frame@[0]),
            m.msg@ == frame@.subrange(1, 1025),
    {
        let mut msg = [0u8; 1024];
        let mut i: usize = 0;
        while i < 1024
            invariant
                i <= 1024,
                forall|j: int| 0 <= j < i ==> msg@[j] == frame@[j + 1],
            decreases 1024 - i,
        {
            msg[i] = frame[i + 1];
            i = i + 1;
        }
        assert(msg@ =~= frame@.subrange(1, 1025));
        IPCMsg { typ: IPCMsgType::from_val(frame[0]), msg }
    }

    /// The text of the payload: its bytes up to the first zero byte, or all
    /// 1024 where none is zero.
    pub fn text(&self) -> (text: Vec<u8>)
        ensures
            text_ends_at(self.msg@, text@.len() as int),
            text@ == self.msg@.subrange(0, text@.len() as int),
    {
        let mut text: Vec<u8> = Vec::new();
        let mut i: usize = 0;
        while i < 1024 && self.msg[i] != 0
            invariant
                i <= 1024,
                text@.len() == i,
                text@ == self.msg@.subrange(0, i as int),
                forall|j: int| 0 <= j < i ==> self.msg@[j] != 0,
            decreases 1024 - i,
        {
            text.push(self.msg[i]);
            assert(text@ =~= self.msg@.subrange(0, i + 1));
            i = i + 1;
        }
        text
    }
}

/// A kind survives the frame unless it is one that has no byte of its own to
/// be read back from.
pub proof fn lemma_kind_survives_frame(typ: IPCMsgType)
    ensures
        kind_of(tag_of(typ)) == (if typ == IPCMsgType::Error {
            IPCMsgType::Any
        } else {
            typ
        }),
{
}

/// A text of at most 1024 bytes, set as payload, framed and read back from
/// the frame, still leads the payload; what follows it is zeros.
pub proof fn lemma_payload_survives_frame(typ: IPCMsgType, text: Seq<u8>)
    requires
        text.len() <= 1024,
    ensures
        framed(typ, padded(text)).len() == 1025,
        framed(typ, padded(text)).subrange(1, 1025) == padded(text),
        padded(text).subrange(0, text.len() as int) == text,
        forall|j: int| text.len() <= j < 1024 ==> padded(text)[j] == 0,
{
    let frame = framed(typ, padded(text));
    assert(frame.subrange(1, 1025) =~= padded(text));
    assert(padded(text).subrange(0, text.len() as int) =~= text);
}

/// A text without a zero byte is read back whole: it ends exactly where it
/// was padded.
pub proof fn lemma_text_of_padded(text: Seq<u8>)
    requires
        text.len() <= 1024,
        forall|j: int| 0 <= j < text.len() ==> text[j] != 0,
    ensures
        text_ends_at(padded(text), text.len() as int),
{
}

/// The end of a payload's text is unique.
pub proof fn lemma_text_end_unique(payload: Seq<u8>, n: int, m: int)
    requires
        text_ends_at(payload, n),
        text_ends_at(payload, m),
    ensures
        n == m,
{
    if n < m {
        assert(payload[n] == 0);
    } else if m < n {
        assert(payload[m] == 0);
    }
}

} // verus!
