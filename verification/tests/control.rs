use flatlined::control::{answer_text, respond, serve, statistics_text};
use flatlined::flatconf::{FlatConf, Mode};
use flatlined::ipc::{IPCMsg, IPCMsgType};
use flatlined::server::Server;
use flatlined::table::StatsTable;

fn payload_text(msg: &IPCMsg) -> String {
    String::from_utf8(msg.text()).unwrap()
}

#[test]
fn status_is_answered_with_running() {
    let request = IPCMsg::from_frame(&IPCMsg::new(IPCMsgType::Status).to_frame());
    let reply = respond(request.typ, &StatsTable::new(1337), 0).unwrap();
    assert_eq!(reply.msg.typ, IPCMsgType::Status);
    assert!(!reply.quit);
    let frame = reply.msg.to_frame();
    assert_eq!(frame[0], 1);
    assert_eq!(&frame[1..8], b"Running");
    assert!(frame[8..].iter().all(|b| *b == 0));
}

#[test]
fn ok_is_answered_with_ok() {
    let reply = respond(IPCMsgType::Okay, &StatsTable::new(1337), 0).unwrap();
    assert_eq!(reply.msg.typ, IPCMsgType::Okay);
    assert_eq!(payload_text(&reply.msg), "Ok");
    assert!(!reply.quit);
}

#[test]
fn other_kinds_are_answered_with_the_placeholder() {
    for kind in [IPCMsgType::Any, IPCMsgType::Error] {
        let reply = respond(kind, &StatsTable::new(1337), 0).unwrap();
        assert_eq!(reply.msg.typ, IPCMsgType::Any);
        assert_eq!(payload_text(&reply.msg), "Placeholder");
        assert!(!reply.quit);
    }
}

#[test]
fn quit_is_answered_and_asks_for_the_shutdown() {
    let mut frame = [0u8; 1025];
    frame[0] = 3;
    let request = IPCMsg::from_frame(&frame);
    let reply = respond(request.typ, &StatsTable::new(1337), 0).unwrap();
    assert_eq!(reply.msg.typ, IPCMsgType::Quit);
    assert_eq!(reply.msg.to_frame()[0], 3);
    assert_eq!(payload_text(&reply.msg), "Server shutting down");
    assert!(reply.quit);
}

#[test]
fn statistics_before_and_after_two_beats() {
    let mut table = StatsTable::new(1337);
    let mut frame = [0u8; 1025];
    frame[0] = 2;
    let request = IPCMsg::from_frame(&frame);
    let reply = respond(request.typ, &table, 5000).unwrap();
    assert_eq!(reply.msg.typ, IPCMsgType::Statistic);
    assert_eq!(payload_text(&reply.msg), "Building statistics...");

    table.record_received("10.0.0.1", 4990);
    table.record_received("10.0.0.1", 4995);
    let reply = respond(request.typ, &table, 5000).unwrap();
    assert_eq!(reply.msg.typ, IPCMsgType::Statistic);
    let expected = "Tx: 0 Rx: 2 Host: 10.0.0.1:1337 ONLINE\n";
    assert_eq!(&reply.msg.msg[..expected.len()], expected.as_bytes());
    assert!(reply.msg.msg[expected.len()..].iter().all(|b| *b == 0));
    assert!(!reply.quit);
}

#[test]
fn peer_silent_for_two_minutes_is_shown_offline() {
    let now = 1_700_000_000u64;
    let mut table = StatsTable::new(1337);
    table.record_received("10.0.0.2", now - 120);
    let reply = respond(IPCMsgType::Statistic, &table, now).unwrap();
    assert_eq!(payload_text(&reply.msg), "Tx: 0 Rx: 1 Host: 10.0.0.2:1337 OFFLINE: \n");
    let line = statistics_text(&table, now);
    assert!(line.ends_with(" OFFLINE: \n"));
}

#[test]
fn statistics_list_the_peers_in_table_order() {
    let servers = vec![Server::new("10.0.0.1", 8888, "foo"), Server::new("10.0.0.2", 9999, "bar")];
    let mut table = StatsTable::from_servers(&servers, 1337);
    table.record_sent(0);
    table.record_sent(0);
    table.record_sent(1);
    assert_eq!(
        statistics_text(&table, 77),
        "Tx: 2 Rx: 0 Host: 10.0.0.1:8888 ONLINE\nTx: 1 Rx: 0 Host: 10.0.0.2:9999 ONLINE\n"
    );
    assert_eq!(answer_text(IPCMsgType::Statistic, &table, 77), statistics_text(&table, 77));
    assert_eq!(statistics_text(&StatsTable::new(1), 77), "");
}

#[test]
fn answer_texts_are_exact() {
    let table = StatsTable::new(1337);
    assert_eq!(answer_text(IPCMsgType::Okay, &table, 0), "Ok");
    assert_eq!(answer_text(IPCMsgType::Status, &table, 0), "Running");
    assert_eq!(answer_text(IPCMsgType::Statistic, &table, 0), "Building statistics...");
    assert_eq!(answer_text(IPCMsgType::Quit, &table, 0), "Server shutting down");
    assert_eq!(answer_text(IPCMsgType::Error, &table, 0), "Placeholder");
    assert_eq!(answer_text(IPCMsgType::Any, &table, 0), "Placeholder");
}

#[test]
fn statistics_that_do_not_fit_have_no_answer() {
    let mut table = StatsTable::new(1337);
    for i in 0..24 {
        table.record_received(&format!("10.0.0.{}", i), 1);
    }
    let text = statistics_text(&table, 2);
    assert!(text.len() <= 1024);
    let reply = respond(IPCMsgType::Statistic, &table, 2).unwrap();
    assert_eq!(payload_text(&reply.msg), text);
    for i in 24..40 {
        table.record_received(&format!("10.0.0.{}", i), 1);
    }
    assert!(statistics_text(&table, 2).len() > 1024);
    assert!(respond(IPCMsgType::Statistic, &table, 2).is_none());
    assert!(respond(IPCMsgType::Status, &table, 2).is_some());
}

fn conf(server: Option<Vec<Server>>, socket: Option<String>) -> FlatConf {
    FlatConf {
        port: 1337,
        logfile: "flat.log".to_string(),
        socket,
        key: "secret".to_string(),
        verbose: true,
        server,
        command: None,
    }
}

#[test]
fn peers_select_the_client_mode() {
    let peers = vec![Server::new("10.0.0.1", 8888, "foo"), Server::new("10.0.0.2", 9999, "bar")];
    let client = conf(Some(peers), None);
    assert_eq!(client.mode(), Mode::Client);
    let listed = client.servers();
    assert_eq!(listed.len(), 2);
    assert_eq!(listed[0].address, "10.0.0.1");
    assert_eq!(listed[0].port, 8888);
    assert_eq!(listed[0].key, "foo");
    assert_eq!(listed[1].address, "10.0.0.2");
    assert_eq!(listed[1].port, 9999);
    assert_eq!(listed[1].key, "bar");
}

#[test]
fn no_peers_select_the_server_mode() {
    assert_eq!(conf(None, None).mode(), Mode::Server);
    assert_eq!(conf(Some(Vec::new()), None).mode(), Mode::Server);
    assert!(conf(None, None).servers().is_empty());
    assert!(conf(Some(Vec::new()), None).servers().is_empty());
}

#[test]
fn socket_path_has_a_default() {
    assert_eq!(conf(None, None).socket_path(), "/var/run/flatlined.sock");
    assert_eq!(conf(None, Some("flat.sock".to_string())).socket_path(), "flat.sock");
}

#[test]
fn answer_reflects_the_reports_taken_in_with_the_request() {
    let mut reactor = StatsTable::new(1337);
    let mut replica = StatsTable::new(1337);
    let first = serve(&mut replica, &Vec::new(), IPCMsgType::Statistic, 5000).unwrap();
    assert_eq!(payload_text(&first.msg), "Building statistics...");

    let mut reports = Vec::new();
    for stamp in [4990u64, 4995] {
        let at = reactor.record_received("10.0.0.1", stamp);
        reports.push(reactor.rows[at].clone());
    }
    let second = serve(&mut replica, &reports, IPCMsgType::Statistic, 5000).unwrap();
    assert_eq!(payload_text(&second.msg), "Tx: 0 Rx: 2 Host: 10.0.0.1:1337 ONLINE\n");
    assert_eq!(replica.len(), 1);
    assert_eq!(replica.rows[0].recv_beats, 2);

    let third = serve(&mut replica, &Vec::new(), IPCMsgType::Quit, 5000).unwrap();
    assert!(third.quit);
    assert_eq!(replica.rows[0].recv_beats, 2);
}
