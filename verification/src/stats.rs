//! What is counted for one peer, and whether the peer is still alive.

use crate::clock::unix_seconds;
use crate::server::{server_text, Server, ServerView};
use crate::text::{decimal, decimal_string};
use vstd::prelude::*;
use vstd::string::*;

verus! {

/// Seconds without a beat after which a peer counts as offline.
pub const GRACE_SECONDS: u64 = 60;

/// The counters of one peer and the timestamp of its latest beat; 0 stands
/// for "no beat yet".
#[derive(Debug)]
pub struct Statistic {
    pub send_beats: u64,
    pub recv_beats: u64,
    pub server: Server,
    pub timestamp: u64,
}

/// What a peer's record is.
pub struct StatView {
    pub send_beats: u64,
    pub recv_beats: u64,
    pub server: ServerView,
    pub timestamp: u64,
}

/// Whether a peer is heard of, and how recently.
#[derive(Debug, Clone, Copy, PartialEq, Eq, Structural)]
pub enum Liveness {
    Unknown,
    Online,
    Offline,
}

/// A counter after one more event: one higher, and held at the largest value
/// once that is reached, so that it never falls.
pub open spec fn bumped(n: u64) -> u64 {
    if n < u64::MAX {
        (n + 1) as u64
    } else {
        n
    }
}

/// The later of two timestamps.
pub open spec fn later(a: u64, b: u64) -> u64 {
    if a >= b {
        a
    } else {
        b
    }
}

/// Whether a peer last heard at `timestamp` is offline at `now`: a beat was
/// accepted, and it is more than the grace interval old.
pub open spec fn offline_at(timestamp: u64, now: u64) -> bool {
    timestamp != 0 && now - timestamp > GRACE_SECONDS
}

/// The liveness of a peer last heard at `timestamp`, judged at `now`.
pub open spec fn liveness_at(timestamp: u64, now: u64) -> Liveness {
    if timestamp == 0 {
        Liveness::Unknown
    } else if now - timestamp > GRACE_SECONDS {
        Liveness::Offline
    } else {
        Liveness::Online
    }
}

/// The words that close a status line.
pub open spec fn liveness_text(timestamp: u64, now: u64) -> Seq<char> {
    if offline_at(timestamp, now) {
        " OFFLINE: "@
    } else {
        " ONLINE"@
    }
}

/// The status line of a peer, judged at `now`.
pub open spec fn row_text(stat: StatView, now: u64) -> Seq<char> {
    "Tx: "@ + decimal(stat.send_beats as nat) + " Rx: "@ + decimal(stat.recv_beats as nat)
        + " Host: "@ + server_text(stat.server) + liveness_text(stat.timestamp, now) + "\n"@
}

/// The record of a peer that has just been heard for the first time.
pub open spec fn first_heard(address: Seq<char>, port: u16, timestamp: u64) -> StatView {
    StatView {
        send_beats: 0,
        recv_beats: 1,
        server: ServerView { address, port, key: Seq::empty() },
        timestamp,
    }
}

/// A record after one more accepted beat: one more received, and the
/// liveness clock moved forward where the beat is newer.
pub open spec fn heard(stat: StatView, timestamp: u64) -> StatView {
    StatView {
        recv_beats: bumped(stat.recv_beats),
        timestamp: later(stat.timestamp, timestamp),
        ..stat
    }
}

/// A record after one more beat was sent to the peer.
pub open spec fn sent(stat: StatView) -> StatView {
    StatView { send_beats: bumped(stat.send_beats), ..stat }
}

impl View for Statistic {
    type V = StatView;

    open spec fn view(&self) -> StatView {
        StatView {
            send_beats: self.send_beats,
            recv_beats: self.recv_beats,
            server: self.server@,
            timestamp: self.timestamp,
        }
    }
}

impl Clone for Statistic {
    fn clone(&self) -> (copy: Statistic)
        ensures
            copy@ == self@,
    {
        Statistic {
            send_beats: self.send_beats,
            recv_beats: self.recv_beats,
            server: self.server.clone(),
            timestamp: self.timestamp,
        }
    }
}

impl Statistic {
    /// The record of a configured peer before any beat.
    pub fn new(s: &Server) -> (stat: Statistic)
        ensures
            stat@ == (StatView { send_beats: 0, recv_beats: 0, server: s@, timestamp: 0 }),
    {
        Statistic { send_beats: 0, recv_beats: 0, server: s.clone(), timestamp: 0 }
    }

    /// Counts one beat sent.
    pub fn incr_send(&mut self)
        ensures
            final(self)@ == sent(old(self)@),
    {
        if self.send_beats < u64::MAX {
            self.send_beats = self.send_beats + 1;
        }
    }

    /// Counts one beat received.
    pub fn incr_recv(&mut self)
        ensures
            final(self)@ == (StatView { recv_beats: bumped(old(self)@.recv_beats), ..old(self)@ }),
    {
        if self.recv_beats < u64::MAX {
            self.recv_beats = self.recv_beats + 1;
        }
    }

    /// Moves the liveness clock to `timestamp`, unless that would turn it
    /// back: an older value leaves it where it is.
    pub fn set_timestamp(&mut self, timestamp: u64)
        ensures
            final(self)@ == (StatView {
                timestamp: later(old(self)@.timestamp, timestamp),
                ..old(self)@
            }),
    {
        if timestamp > self.timestamp {
            self.timestamp = timestamp;
        }
    }

    /// Whether the peer is offline at `now`.
    pub fn is_offline(&self, now: u64) -> (gone: bool)
        ensures
            gone == offline_at(self.timestamp, now),
    {
        self.timestamp != 0 && now > self.timestamp && now - self.timestamp > GRACE_SECONDS
    }

    /// The peer's liveness at `now`.
    pub fn liveness(&self, now: u64) -> (state: Liveness)
        ensures
            state == liveness_at(self.timestamp, now),
    {
        if self.timestamp == 0 {
            Liveness::Unknown
        } else if now > self.timestamp && now - self.timestamp > GRACE_SECONDS {
            Liveness::Offline
        } else {
            Liveness::Online
        }
    }

    /// The peer's status line, judged at `now`.
    pub fn render(&self, now: u64) -> (text: String)
        ensures
            text@ == row_text(self@, now),
    {
        let mut text = "Tx: ".to_owned();
        let tx = decimal_string(self.send_beats);
        text.append(tx.as_str());
        text.append(" Rx: ");
        let rx = decimal_string(self.recv_beats);
        text.append(rx.as_str());
        text.append(" Host: ");
        let host = self.server.to_string();
        text.append(host.as_str());
        if self.is_offline(now) {
            text.append(" OFFLINE: ");
        } else {
            text.append(" ONLINE");
        }
        text.append("\n");
        text
    }

    /// The peer's status line, judged at the clock's present reading,
    /// whatever that is.
    pub fn to_string(&self) -> (text: String)
        ensures
            exists|now: u64| text@ == #[trigger] row_text(self@, now),
    {
        let now = unix_seconds();
        self.render(now)
    }
}

} // verus!
