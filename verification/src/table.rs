//! The table of peers: one record each, in the order in which the peers
//! became known.

use crate::beat::{decoded, verifies, Beat, BeatError};
use crate::server::{Server, ServerView};
use crate::stats::{first_heard, heard, offline_at, sent, StatView, Statistic};
use vstd::prelude::*;
use vstd::string::*;

verus! {

/// The records of all peers, and the port that peers first seen on the wire
/// are listed with.
pub struct StatsTable {
    pub rows: Vec<Statistic>,
    pub port: u16,
}

/// Something that happens to the table.
pub enum StatEvent {
    /// A beat went out to the peer at this position.
    Sent { peer: int },
    /// A beat from this address was accepted.
    Received { address: Seq<char>, timestamp: u64 },
}

/// Whether `i` is the first record with the given address.
pub open spec fn first_at(rows: Seq<StatView>, address: Seq<char>, i: int) -> bool {
    &&& 0 <= i < rows.len()
    &&& rows[i].server.address == address
    &&& forall|j: int| 0 <= j < i ==> rows[j].server.address != address
}

/// Whether some record has the given address.
pub open spec fn knows(rows: Seq<StatView>, address: Seq<char>) -> bool {
    exists|i: int| first_at(rows, address, i)
}

/// Where a beat from `address` is counted: at the first record with that
/// address, or, where there is none, at the end of the table.
pub open spec fn landing(rows: Seq<StatView>, address: Seq<char>) -> int {
    if knows(rows, address) {
        choose|i: int| first_at(rows, address, i)
    } else {
        rows.len() as int
    }
}

/// The table after a beat from `address` was accepted: the first record with
/// that address has heard it, or, where there is none, a new last record
/// starts with it.
pub open spec fn after_received(
    rows: Seq<StatView>,
    address: Seq<char>,
    port: u16,
    timestamp: u64,
) -> Seq<StatView> {
    if knows(rows, address) {
        let i = landing(rows, address);
        rows.update(i, heard(rows[i], timestamp))
    } else {
        rows.push(first_heard(address, port, timestamp))
    }
}

/// The table after a beat went out to the peer at `peer`; a position outside
/// the table changes nothing.
pub open spec fn after_sent(rows: Seq<StatView>, peer: int) -> Seq<StatView> {
    if 0 <= peer < rows.len() {
        rows.update(peer, sent(rows[peer]))
    } else {
        rows
    }
}

/// The table after one event.
pub open spec fn step(rows: Seq<StatView>, port: u16, event: StatEvent) -> Seq<StatView> {
    match event {
        StatEvent::Sent { peer } => after_sent(rows, peer),
        StatEvent::Received { address, timestamp } => after_received(
            rows,
            address,
            port,
            timestamp,
        ),
    }
}

/// The table after a sequence of events, taken in order.
pub open spec fn run(rows: Seq<StatView>, port: u16, events: Seq<StatEvent>) -> Seq<StatView>
    decreases events.len(),
{
    if events.len() == 0 {
        rows
    } else {
        run(step(rows, port, events[0]), port, events.drop_first())
    }
}

/// Whether `after` continues `before`: every peer is still in its place, and
/// none of its counters, nor its liveness clock, has fallen.
pub open spec fn continues(before: Seq<StatView>, after: Seq<StatView>) -> bool {
    &&& before.len() <= after.len()
    &&& forall|i: int|
        0 <= i < before.len() ==> {
            &&& (#[trigger] after[i]).server == before[i].server
            &&& after[i].send_beats >= before[i].send_beats
            &&& after[i].recv_beats >= before[i].recv_beats
            &&& after[i].timestamp >= before[i].timestamp
        }
}

/// The positions at which `flags` holds, in rising order.
pub open spec fn positions(flags: Seq<bool>) -> Seq<usize>
    decreases flags.len(),
{
    if flags.len() == 0 {
        Seq::empty()
    } else if flags.last() {
        positions(flags.drop_last()).push((flags.len() - 1) as usize)
    } else {
        positions(flags.drop_last())
    }
}

/// For each record, whether its peer is offline at `now`.
pub open spec fn offline_flags(rows: Seq<StatView>, now: u64) -> Seq<bool> {
    Seq::new(rows.len(), |i: int| offline_at(rows[i].timestamp, now))
}

/// The record that a configured peer starts with.
pub open spec fn unheard(server: ServerView) -> StatView {
    StatView { send_beats: 0, recv_beats: 0, server, timestamp: 0 }
}

/// The table after the replica took in a reported record: the first record
/// of the same peer takes the reported counters and moves its liveness clock
/// forward to the reported one, or, where there is none, the report becomes a
/// new last record.
pub open spec fn after_report(rows: Seq<StatView>, report: StatView) -> Seq<StatView> {
    if exists|i: int| same_peer_first_at(rows, report.server, i) {
        let i = choose|i: int| same_peer_first_at(rows, report.server, i);
        rows.update(
            i,
            StatView {
                send_beats: report.send_beats,
                recv_beats: report.recv_beats,
                server: rows[i].server,
                timestamp: crate::stats::later(rows[i].timestamp, report.timestamp),
            },
        )
    } else {
        rows.push(report)
    }
}

/// Whether `i` is the first record of the given peer.
pub open spec fn same_peer_first_at(rows: Seq<StatView>, server: ServerView, i: int) -> bool {
    &&& 0 <= i < rows.len()
    &&& rows[i].server == server
    &&& forall|j: int| 0 <= j < i ==> rows[j].server != server
}

/// The table after a sequence of reports, taken in order.
pub open spec fn after_reports(rows: Seq<StatView>, reports: Seq<StatView>) -> Seq<StatView>
    decreases reports.len(),
{
    if reports.len() == 0 {
        rows
    } else {
        after_reports(after_report(rows, reports[0]), reports.drop_first())
    }
}

impl View for StatsTable {
    type V = Seq<StatView>;

    open spec fn view(&self) -> Seq<StatView> {
        Seq::new(self.rows@.len(), |i: int| self.rows@[i]@)
    }
}

impl StatsTable {
    /// An empty table.
    pub fn new(port: u16) -> (table: StatsTable)
        ensures
            table.port == port,
            table@ == Seq::<StatView>::empty(),
    {
        let table = StatsTable { rows: Vec::new(), port };
        assert(table@ =~= Seq::<StatView>::empty());
        table
    }

    /// A table with one unheard record for each configured peer, in the
    /// order of the configuration.
    pub fn from_servers(servers: &Vec<Server>, port: u16) -> (table: StatsTable)
        ensures
            table.port == port,
            table@ == Seq::new(servers@.len(), |i: int| unheard(servers@[i]@)),
    {
        let mut rows: Vec<Statistic> = Vec::new();
        let mut i: usize = 0;
        while i < servers.len()
            invariant
                i <= servers@.len(),
                rows@.len() == i,
                forall|j: int| 0 <= j < i ==> (#[trigger] rows@[j])@ == unheard(servers@[j]@),
            decreases servers@.len() - i,
        {
            rows.push(Statistic::new(&servers[i]));
            i = i + 1;
        }
        let table = StatsTable { rows, port };
        assert(table@ =~= Seq::new(servers@.len(), |i: int| unheard(servers@[i]@)));
        table
    }

    /// The number of records.
    pub fn len(&self) -> (n: usize)
        ensures
            n == self@.len(),
    {
        self.rows.len()
    }

    /// Counts a beat sent to the peer at `peer_index`.
    pub fn record_sent(&mut self, peer_index: usize)
        requires
            peer_index < old(self)@.len(),
        ensures
            final(self).port == old(self).port,
            final(self)@ == step(
                old(self)@,
                old(self).port,
                StatEvent::Sent { peer: peer_index as int },
            ),
    {
        self.rows[peer_index].incr_send();
        assert(self@ =~= after_sent(old(self)@, peer_index as int));
    }

    /// The position of the first record with the given address.
    pub fn find(&self, address: &str) -> (found: Option<usize>)
        ensures
            knows(self@, address@) ==> found is Some && found->Some_0 == landing(self@, address@),
            !knows(self@, address@) ==> found is None,
    {
        let wanted = address.to_owned();
        let mut i: usize = 0;
        while i < self.rows.len()
            invariant
                i <= self.rows@.len(),
                wanted@ == address@,
                forall|j: int| 0 <= j < i ==> self@[j].server.address != address@,
            decreases self.rows@.len() - i,
        {
            if self.rows[i].server.address == wanted {
                proof {
                    lemma_first_unique(self@, address@, i as int);
                }
                return Some(i);
            }
            i = i + 1;
        }
        assert forall|k: int| !first_at(self@, address@, k) by {
            if 0 <= k < self@.len() {
                assert(self@[k].server.address != address@);
            }
        }
        None
    }

    /// Counts an accepted beat from `source`, and returns the position of
    /// the record that counted it.
    pub fn record_received(&mut self, source: &str, timestamp: u64) -> (at: usize)
        ensures
            final(self).port == old(self).port,
            final(self)@ == step(
                old(self)@,
                old(self).port,
                StatEvent::Received { address: source@, timestamp },
            ),
            at == landing(old(self)@, source@),
    {
        match self.find(source) {
            Some(i) => {
                assert(first_at(self@, source@, landing(self@, source@)));
                self.rows[i].incr_recv();
                self.rows[i].set_timestamp(timestamp);
                assert(self@ =~= old(self)@.update(i as int, heard(old(self)@[i as int], timestamp)));
                i
            },
            None => {
                let at = self.rows.len();
                let fresh = Statistic {
                    send_beats: 0,
                    recv_beats: 1,
                    server: Server::new(source, self.port, ""),
                    timestamp,
                };
                proof {
                    reveal_strlit("");
                }
                assert(fresh@.server.key =~= Seq::<char>::empty());
                self.rows.push(fresh);
                assert(self@ =~= old(self)@.push(first_heard(source@, self.port, timestamp)));
                at
            },
        }
    }

    /// Takes a beat that the listener decoded: one that verifies under `key`
    /// is counted for `source`, any other is refused and leaves the table as
    /// it was.
    pub fn accept_beat(&mut self, key: &str, source: &str, beat: &Beat) -> (outcome: Result<
        usize,
        BeatError,
    >)
        ensures
            final(self).port == old(self).port,
            verifies(beat@, key.spec_bytes()) ==> outcome is Ok && outcome->Ok_0 == landing(
                old(self)@,
                source@,
            ) && final(self)@ == step(
                old(self)@,
                old(self).port,
                StatEvent::Received { address: source@, timestamp: beat.timestamp },
            ),
            !verifies(beat@, key.spec_bytes()) ==> outcome == Err::<usize, BeatError>(
                BeatError::WrongChecksum,
            ) && final(self)@ == old(self)@,
    {
        match beat.verify_beat(key) {
            Ok(_) => {
                let at = self.record_received(source, beat.timestamp);
                Ok(at)
            },
            Err(e) => Err(e),
        }
    }

    /// Takes a received datagram: one of 72 bytes whose beat verifies under
    /// `key` is counted for `source`; any other is refused, with the reason,
    /// and leaves the table as it was.
    pub fn accept(&mut self, key: &str, source: &str, datagram: &[u8]) -> (outcome: Result<
        usize,
        BeatError,
    >)
        ensures
            final(self).port == old(self).port,
            datagram@.len() != 72 ==> outcome == Err::<usize, BeatError>(BeatError::WrongSize)
                && final(self)@ == old(self)@,
            datagram@.len() == 72 && !verifies(decoded(datagram@), key.spec_bytes()) ==> outcome
                == Err::<usize, BeatError>(BeatError::WrongChecksum) && final(self)@ == old(
                self,
            )@,
            datagram@.len() == 72 && verifies(decoded(datagram@), key.spec_bytes()) ==> outcome
                is Ok && outcome->Ok_0 == landing(old(self)@, source@) && final(self)@ == step(
                old(self)@,
                old(self).port,
                StatEvent::Received {
                    address: source@,
                    timestamp: decoded(datagram@).timestamp,
                },
            ),
    {
        match Beat::decode(datagram) {
            Ok(beat) => self.accept_beat(key, source, &beat),
            Err(e) => Err(e),
        }
    }

    /// The records, in the order in which the peers became known.
    pub fn snapshot(&self) -> (rows: Vec<Statistic>)
        ensures
            rows@.len() == self@.len(),
            forall|i: int| 0 <= i < rows@.len() ==> (#[trigger] rows@[i])@ == self@[i],
    {
        let mut rows: Vec<Statistic> = Vec::new();
        let mut i: usize = 0;
        while i < self.rows.len()
            invariant
                i <= self.rows@.len(),
                rows@.len() == i,
                forall|j: int| 0 <= j < i ==> (#[trigger] rows@[j])@ == self@[j],
            decreases self.rows@.len() - i,
        {
            rows.push(self.rows[i].clone());
            i = i + 1;
        }
        rows
    }

    /// The positions of the peers that are offline at `now`, in rising
    /// order.
    pub fn offline_peers(&self, now: u64) -> (gone: Vec<usize>)
        ensures
            gone@ == positions(offline_flags(self@, now)),
    {
        let mut gone: Vec<usize> = Vec::new();
        let mut i: usize = 0;
        while i < self.rows.len()
            invariant
                i <= self.rows@.len(),
                gone@ == positions(offline_flags(self@, now).take(i as int)),
            decreases self.rows@.len() - i,
        {
            let ghost flags = offline_flags(self@, now);
            assert(flags.take(i + 1).drop_last() =~= flags.take(i as int));
            if self.rows[i].is_offline(now) {
                gone.push(i);
            }
            i = i + 1;
        }
        assert(offline_flags(self@, now).take(i as int) =~= offline_flags(self@, now));
        gone
    }

    /// Takes in a reported record, as the replica behind the control channel
    /// does with each record that the reactor passes on.
    pub fn merge(&mut self, report: &Statistic)
        ensures
            final(self).port == old(self).port,
            final(self)@ == after_report(old(self)@, report@),
    {
        let mut i: usize = 0;
        while i < self.rows.len()
            invariant
                i <= self.rows@.len(),
                *self == *old(self),
                forall|j: int| 0 <= j < i ==> self@[j].server != report@.server,
            decreases self.rows@.len() - i,
        {
            if self.rows[i].server == report.server {
                assert(same_peer_first_at(self@, report@.server, i as int));
                assert forall|k: int| same_peer_first_at(self@, report@.server, k) implies k
                    == i by {
                    if k < i {
                        assert(self@[k].server != report@.server);
                    }
                }
                self.rows[i].send_beats = report.send_beats;
                self.rows[i].recv_beats = report.recv_beats;
                self.rows[i].set_timestamp(report.timestamp);
                assert(self@ =~= after_report(old(self)@, report@));
                return ;
            }
            i = i + 1;
        }
        assert forall|k: int| !same_peer_first_at(self@, report@.server, k) by {
            if 0 <= k < self@.len() {
                assert(self@[k].server != report@.server);
            }
        }
        self.rows.push(report.clone());
        assert(self@ =~= old(self)@.push(report@));
    }

    /// Takes in a run of reported records, oldest first.
    pub fn merge_all(&mut self, reports: &Vec<Statistic>)
        ensures
            final(self).port == old(self).port,
            final(self)@ == after_reports(
                old(self)@,
                Seq::new(reports@.len(), |i: int| reports@[i]@),
            ),
    {
        let ghost all = Seq::new(reports@.len(), |i: int| reports@[i]@);
        assert(all.skip(0) =~= all);
        let mut i: usize = 0;
        while i < reports.len()
            invariant
                i <= reports@.len(),
                self.port == old(self).port,
                all == Seq::new(reports@.len(), |i: int| reports@[i]@),
                after_reports(self@, all.skip(i as int)) == after_reports(old(self)@, all),
            decreases reports@.len() - i,
        {
            let ghost before = self@;
            self.merge(&reports[i]);
            proof {
                let rest = all.skip(i as int);
                assert(rest[0] == reports@[i as int]@);
                assert(rest.drop_first() =~= all.skip(i + 1));
            }
            i = i + 1;
        }
        assert(all.skip(i as int) =~= Seq::<StatView>::empty());
    }
}

/// What `positions` lists: every position at which the flag holds, no other,
/// each once and in rising order.
pub proof fn lemma_positions(flags: Seq<bool>)
    requires
        flags.len() <= usize::MAX,
    ensures
        positions(flags).len() <= flags.len(),
        forall|k: int|
            0 <= k < positions(flags).len() ==> 0 <= #[trigger] positions(flags)[k] < flags.len()
                && flags[positions(flags)[k] as int],
        forall|k: int, l: int|
            0 <= k < l < positions(flags).len() ==> positions(flags)[k] < positions(flags)[l],
        forall|i: int|
            0 <= i < flags.len() && #[trigger] flags[i] ==> positions(flags).contains(i as usize),
    decreases flags.len(),
{
    if flags.len() > 0 {
        let front = flags.drop_last();
        let last = (flags.len() - 1) as usize;
        lemma_positions(front);
        let before = positions(front);
        let all = positions(flags);
        assert forall|i: int| 0 <= i < flags.len() && #[trigger] flags[i] implies all.contains(
            i as usize,
        ) by {
            if i < front.len() {
                assert(front[i]);
                let k = choose|k: int| 0 <= k < before.len() && before[k] == i as usize;
                assert(all[k] == i as usize);
            } else {
                assert(all[all.len() - 1] == last);
            }
        }
    }
}

/// There is only one first record for an address.
pub proof fn lemma_first_unique(rows: Seq<StatView>, address: Seq<char>, i: int)
    requires
        first_at(rows, address, i),
    ensures
        knows(rows, address),
        landing(rows, address) == i,
{
    let k = choose|k: int| first_at(rows, address, k);
    assert(first_at(rows, address, k));
    if k < i {
        assert(rows[k].server.address != address);
    } else if i < k {
        assert(rows[i].server.address != address);
    }
}

/// After a beat from an address was accepted, the table has a record for
/// that address at the place where the beat was counted.
pub proof fn lemma_received_lands(
    rows: Seq<StatView>,
    address: Seq<char>,
    port: u16,
    timestamp: u64,
)
    ensures
        ({
            let after = after_received(rows, address, port, timestamp);
            let at = landing(rows, address);
            &&& 0 <= at < after.len()
            &&& after[at].server.address == address
            &&& knows(after, address)
        }),
{
    let after = after_received(rows, address, port, timestamp);
    let at = landing(rows, address);
    if knows(rows, address) {
        assert(first_at(rows, address, at));
        assert(first_at(after, address, at));
    } else {
        assert forall|j: int| 0 <= j < rows.len() implies rows[j].server.address != address by {
            lemma_absent(rows, address, j);
        }
        assert(first_at(after, address, at));
    }
}

/// Where no record has an address, no record has it.
proof fn lemma_absent(rows: Seq<StatView>, address: Seq<char>, j: int)
    requires
        !knows(rows, address),
        0 <= j < rows.len(),
    ensures
        rows[j].server.address != address,
    decreases j,
{
    if rows[j].server.address == address {
        if forall|k: int| 0 <= k < j ==> rows[k].server.address != address {
            assert(first_at(rows, address, j));
        } else {
            let k = choose|k: int| 0 <= k < j && rows[k].server.address == address;
            lemma_absent(rows, address, k);
        }
    }
}

/// A report that is not behind the record it lands on lets no counter fall:
/// every peer keeps its place, counters and liveness clock. Reports that the
/// reactor passes on in order are of this kind.
pub proof fn lemma_report_continues(rows: Seq<StatView>, report: StatView)
    requires
        forall|i: int|
            same_peer_first_at(rows, report.server, i) ==> report.send_beats
                >= rows[i].send_beats && report.recv_beats >= rows[i].recv_beats,
    ensures
        continues(rows, after_report(rows, report)),
{
    if exists|i: int| same_peer_first_at(rows, report.server, i) {
        let k = choose|k: int| same_peer_first_at(rows, report.server, k);
        assert(same_peer_first_at(rows, report.server, k));
    }
}

/// One event leaves every peer in its place and lets no counter fall.
pub proof fn lemma_step_continues(rows: Seq<StatView>, port: u16, event: StatEvent)
    ensures
        continues(rows, step(rows, port, event)),
{
    match event {
        StatEvent::Sent { peer } => {},
        StatEvent::Received { address, timestamp } => {
            if knows(rows, address) {
                assert(first_at(rows, address, landing(rows, address)));
            }
        },
    }
}

/// Continuing is transitive.
pub proof fn lemma_continues_trans(a: Seq<StatView>, b: Seq<StatView>, c: Seq<StatView>)
    requires
        continues(a, b),
        continues(b, c),
    ensures
        continues(a, c),
{
    assert forall|i: int| 0 <= i < a.len() implies {
        &&& (#[trigger] c[i]).server == a[i].server
        &&& c[i].send_beats >= a[i].send_beats
        &&& c[i].recv_beats >= a[i].recv_beats
        &&& c[i].timestamp >= a[i].timestamp
    } by {
        assert(b[i].server == a[i].server);
        assert(c[i].server == b[i].server);
    }
}

/// Whatever happens, and in whatever order: every peer keeps its place, and
/// neither its count of beats sent, nor its count of beats received, nor its
/// liveness clock ever falls.
pub proof fn lemma_run_continues(rows: Seq<StatView>, port: u16, events: Seq<StatEvent>)
    ensures
        continues(rows, run(rows, port, events)),
    decreases events.len(),
{
    if events.len() > 0 {
        let next = step(rows, port, events[0]);
        lemma_step_continues(rows, port, events[0]);
        lemma_run_continues(next, port, events.drop_first());
        lemma_continues_trans(rows, next, run(next, port, events.drop_first()));
    }
}

} // verus!
