use flatlined::server::Server;
use flatlined::stats::{Liveness, Statistic};
use flatlined::clock::seconds_counted;
use flatlined::text::decimal_string;

#[test]
fn decimal_notation() {
    assert_eq!(decimal_string(0), "0");
    assert_eq!(decimal_string(7), "7");
    assert_eq!(decimal_string(10), "10");
    assert_eq!(decimal_string(1337), "1337");
    assert_eq!(decimal_string(1_000_000), "1000000");
    assert_eq!(decimal_string(u64::MAX), "18446744073709551615");
    for n in [9u64, 99, 100, 101, 65535, 1_700_000_000] {
        assert_eq!(decimal_string(n), n.to_string());
    }
}

#[test]
fn server_is_shown_as_address_and_port() {
    assert_eq!(Server::new("10.0.0.1", 8888, "foo").to_string(), "10.0.0.1:8888");
    assert_eq!(Server::new("example.org", 1, "").to_string(), "example.org:1");
    assert_eq!(Server::new("::1", 65535, "k").to_string(), "::1:65535");
}

#[test]
fn servers_compare_by_all_three_parts() {
    let a = Server::new("10.0.0.1", 8888, "foo");
    assert!(a == Server::new("10.0.0.1", 8888, "foo"));
    assert!(a != Server::new("10.0.0.2", 8888, "foo"));
    assert!(a != Server::new("10.0.0.1", 8889, "foo"));
    assert!(a != Server::new("10.0.0.1", 8888, "bar"));
    let b = a.clone();
    assert!(a == b);
    assert_eq!(b.address, "10.0.0.1");
    assert_eq!(b.port, 8888);
    assert_eq!(b.key, "foo");
}

#[test]
fn new_record_is_blank() {
    let s = Server::new("10.0.0.1", 8888, "foo");
    let stat = Statistic::new(&s);
    assert_eq!(stat.send_beats, 0);
    assert_eq!(stat.recv_beats, 0);
    assert_eq!(stat.timestamp, 0);
    assert!(stat.server == s);
}

#[test]
fn counters_count() {
    let mut stat = Statistic::new(&Server::new("h", 1, "k"));
    stat.incr_send();
    stat.incr_send();
    stat.incr_recv();
    assert_eq!(stat.send_beats, 2);
    assert_eq!(stat.recv_beats, 1);
    assert_eq!(stat.timestamp, 0);
}

#[test]
fn counters_stop_at_the_top() {
    let mut stat = Statistic::new(&Server::new("h", 1, "k"));
    stat.send_beats = u64::MAX - 1;
    stat.recv_beats = u64::MAX;
    stat.incr_send();
    assert_eq!(stat.send_beats, u64::MAX);
    stat.incr_send();
    assert_eq!(stat.send_beats, u64::MAX);
    stat.incr_recv();
    assert_eq!(stat.recv_beats, u64::MAX);
}

#[test]
fn liveness_clock_does_not_turn_back() {
    let mut stat = Statistic::new(&Server::new("h", 1, "k"));
    stat.set_timestamp(100);
    assert_eq!(stat.timestamp, 100);
    stat.set_timestamp(50);
    assert_eq!(stat.timestamp, 100);
    stat.set_timestamp(100);
    assert_eq!(stat.timestamp, 100);
    stat.set_timestamp(101);
    assert_eq!(stat.timestamp, 101);
    assert_eq!(stat.send_beats, 0);
    assert_eq!(stat.recv_beats, 0);
}

#[test]
fn offline_after_more_than_sixty_seconds() {
    let mut stat = Statistic::new(&Server::new("h", 1, "k"));
    assert!(!stat.is_offline(1_000_000));
    assert_eq!(stat.liveness(1_000_000), Liveness::Unknown);
    stat.set_timestamp(1000);
    assert!(!stat.is_offline(1000));
    assert!(!stat.is_offline(1060));
    assert!(stat.is_offline(1061));
    assert!(stat.is_offline(1120));
    assert!(!stat.is_offline(999));
    assert!(!stat.is_offline(0));
    assert_eq!(stat.liveness(1060), Liveness::Online);
    assert_eq!(stat.liveness(1061), Liveness::Offline);
    assert_eq!(stat.liveness(5), Liveness::Online);
}

#[test]
fn status_line_is_exact() {
    let mut stat = Statistic::new(&Server::new("10.0.0.1", 1337, ""));
    assert_eq!(stat.render(5000), "Tx: 0 Rx: 0 Host: 10.0.0.1:1337 ONLINE\n");
    stat.incr_recv();
    stat.incr_recv();
    stat.set_timestamp(5000);
    assert_eq!(stat.render(5000), "Tx: 0 Rx: 2 Host: 10.0.0.1:1337 ONLINE\n");
    assert_eq!(stat.render(5060), "Tx: 0 Rx: 2 Host: 10.0.0.1:1337 ONLINE\n");
    assert_eq!(stat.render(5061), "Tx: 0 Rx: 2 Host: 10.0.0.1:1337 OFFLINE: \n");
    stat.send_beats = 12;
    assert_eq!(stat.render(5120), "Tx: 12 Rx: 2 Host: 10.0.0.1:1337 OFFLINE: \n");
}

#[test]
fn status_line_at_the_present_time() {
    let mut stat = Statistic::new(&Server::new("10.0.0.2", 9999, "bar"));
    stat.incr_recv();
    stat.set_timestamp(1);
    assert_eq!(stat.to_string(), "Tx: 0 Rx: 1 Host: 10.0.0.2:9999 OFFLINE: \n");
    let fresh = Statistic::new(&Server::new("10.0.0.2", 9999, "bar"));
    assert_eq!(fresh.to_string(), "Tx: 0 Rx: 0 Host: 10.0.0.2:9999 ONLINE\n");
}

#[test]
fn clone_keeps_the_record() {
    let mut stat = Statistic::new(&Server::new("10.0.0.2", 9999, "bar"));
    stat.incr_send();
    stat.set_timestamp(44);
    let copy = stat.clone();
    assert_eq!(copy.send_beats, 1);
    assert_eq!(copy.recv_beats, 0);
    assert_eq!(copy.timestamp, 44);
    assert!(copy.server == stat.server);
}

#[test]
fn reading_before_the_epoch_counts_as_zero() {
    assert_eq!(seconds_counted(None), 0);
    assert_eq!(seconds_counted(Some(0)), 0);
    assert_eq!(seconds_counted(Some(1_700_000_000)), 1_700_000_000);
    assert_eq!(seconds_counted(Some(u64::MAX)), u64::MAX);
}
