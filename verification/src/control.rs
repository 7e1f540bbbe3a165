//! The answers of the control channel.

use crate::ipc::{padded, IPCMsg, IPCMsgType};
use crate::stats::{row_text, StatView, Statistic};
use crate::table::{after_reports, StatsTable};
use vstd::prelude::*;
use vstd::string::*;
use vstd::utf8::{encode_utf8, is_ascii_chars_encode_utf8};

verus! {

/// An answer, and whether the daemon is to shut down once it is written.
pub struct Reply {
    pub msg: IPCMsg,
    pub quit: bool,
}

/// The status lines of all peers, in table order, judged at `now`.
pub open spec fn table_text(rows: Seq<StatView>, now: u64) -> Seq<char>
    decreases rows.len(),
{
    if rows.len() == 0 {
        Seq::empty()
    } else {
        table_text(rows.drop_last(), now) + row_text(rows.last(), now)
    }
}

/// The kind of the answer to a request: the four requests are answered in
/// kind, anything else as `Any`.
pub open spec fn reply_kind(request: IPCMsgType) -> IPCMsgType {
    match request {
        IPCMsgType::Okay => IPCMsgType::Okay,
        IPCMsgType::Status => IPCMsgType::Status,
        IPCMsgType::Statistic => IPCMsgType::Statistic,
        IPCMsgType::Quit => IPCMsgType::Quit,
        _ => IPCMsgType::Any,
    }
}

/// The text of the answer to a request.
pub open spec fn reply_text(request: IPCMsgType, rows: Seq<StatView>, now: u64) -> Seq<char> {
    match request {
        IPCMsgType::Okay => "Ok"@,
        IPCMsgType::Status => "Running"@,
        IPCMsgType::Statistic => if rows.len() == 0 {
            "Building statistics..."@
        } else {
            table_text(rows, now)
        },
        IPCMsgType::Quit => "Server shutting down"@,
        _ => "Placeholder"@,
    }
}

/// Whether a text can be a payload: it has at least one byte and at most
/// 1024.
pub open spec fn fits(text: Seq<char>) -> bool {
    0 < encode_utf8(text).len() <= 1024
}

/// The status lines of all peers, in table order, judged at `now`.
pub fn statistics_text(table: &StatsTable, now: u64) -> (text: String)
    ensures
        text@ == table_text(table@, now),
{
    let mut text = String::new();
    let mut i: usize = 0;
    while i < table.rows.len()
        invariant
            i <= table.rows@.len(),
            text@ == table_text(table@.take(i as int), now),
        decreases table.rows@.len() - i,
    {
        let line = table.rows[i].render(now);
        text.append(line.as_str());
        proof {
            let upto = table@.take(i + 1);
            assert(upto.drop_last() =~= table@.take(i as int));
            assert(upto.last() == table@[i as int]);
        }
        i = i + 1;
    }
    assert(table@.take(i as int) =~= table@);
    text
}

/// The text of the answer to a request.
pub fn answer_text(request: IPCMsgType, table: &StatsTable, now: u64) -> (text: String)
    ensures
        text@ == reply_text(request, table@, now),
{
    match request {
        IPCMsgType::Okay => "Ok".to_owned(),
        IPCMsgType::Status => "Running".to_owned(),
        IPCMsgType::Statistic => {
            if table.len() == 0 {
                "Building statistics...".to_owned()
            } else {
                statistics_text(table, now)
            }
        },
        IPCMsgType::Quit => "Server shutting down".to_owned(),
        _ => "Placeholder".to_owned(),
    }
}

/// Answers a request: the answer's kind and text follow the request, the text
/// zero-padded as payload, and only a request to quit asks for the shutdown.
/// There is no answer where the text cannot be a payload, which is so when
/// the status lines of the peers take more than 1024 bytes together.
pub fn respond(request: IPCMsgType, table: &StatsTable, now: u64) -> (reply: Option<Reply>)
    ensures
        !fits(reply_text(request, table@, now)) ==> reply is None,
        fits(reply_text(request, table@, now)) ==> reply is Some && reply->Some_0.msg.typ
            == reply_kind(request) && reply->Some_0.msg.msg@ == padded(
            encode_utf8(reply_text(request, table@, now)),
        ) && reply->Some_0.quit == (request == IPCMsgType::Quit),
{
    let text = answer_text(request, table, now);
    let size = text.as_str().as_bytes().len();
    if size == 0 || size > 1024 {
        return None;
    }
    let typ = match request {
        IPCMsgType::Okay => IPCMsgType::Okay,
        IPCMsgType::Status => IPCMsgType::Status,
        IPCMsgType::Statistic => IPCMsgType::Statistic,
        IPCMsgType::Quit => IPCMsgType::Quit,
        _ => IPCMsgType::Any,
    };
    let quit = match request {
        IPCMsgType::Quit => true,
        _ => false,
    };
    let mut msg = IPCMsg::new(typ);
    match msg.create_payload(text.as_str()) {
        Ok(_) => Some(Reply { msg, quit }),
        Err(_) => None,
    }
}

/// Serves one request on the replica: first takes in every record that the
/// reactor has passed on since the last request, oldest first, then answers
/// from the replica as it then stands. The answer thus reflects every event
/// that was passed on before the request was served.
pub fn serve(
    replica: &mut StatsTable,
    reports: &Vec<Statistic>,
    request: IPCMsgType,
    now: u64,
) -> (reply: Option<Reply>)
    ensures
        final(replica).port == old(replica).port,
        final(replica)@ == after_reports(
            old(replica)@,
            Seq::new(reports@.len(), |i: int| reports@[i]@),
        ),
        !fits(reply_text(request, final(replica)@, now)) ==> reply is None,
        fits(reply_text(request, final(replica)@, now)) ==> reply is Some
            && reply->Some_0.msg.typ == reply_kind(request) && reply->Some_0.msg.msg@ == padded(
            encode_utf8(reply_text(request, final(replica)@, now)),
        ) && reply->Some_0.quit == (request == IPCMsgType::Quit),
{
    replica.merge_all(reports);
    respond(request, replica, now)
}

/// Every request is answered, but for a request for statistics over a table
/// that has records: the fixed answers are short enough to be payloads.
pub proof fn lemma_fixed_answers_fit(request: IPCMsgType, rows: Seq<StatView>, now: u64)
    requires
        request != IPCMsgType::Statistic || rows.len() == 0,
    ensures
        fits(reply_text(request, rows, now)),
{
    reveal_strlit("Ok");
    reveal_strlit("Running");
    reveal_strlit("Building statistics...");
    reveal_strlit("Server shutting down");
    reveal_strlit("Placeholder");
    is_ascii_chars_encode_utf8("Ok"@);
    is_ascii_chars_encode_utf8("Running"@);
    is_ascii_chars_encode_utf8("Building statistics..."@);
    is_ascii_chars_encode_utf8("Server shutting down"@);
    is_ascii_chars_encode_utf8("Placeholder"@);
}

} // verus!
