use flatlined::ipc::{to_val, IPCMsg, IPCMsgType};
use quickcheck::quickcheck;

fn payload_leads(input: Vec<u8>) -> bool {
    if input.is_empty() {
        return true;
    }

    let mut msg = IPCMsg {
        typ: IPCMsgType::Status,
        msg: [0u8; 1024],
    };

    let mut string_input = String::from("");
    let mut ret = true;

    match String::from_utf8(input) {
        Ok(v) => string_input = v,
        Err(_) => ret = false,
    };

    if !ret {
        return true;
    }

    match msg.create_payload(&string_input) {
        Ok(_) => (),
        Err(_) => ret = false,
    };

    if !ret {
        return true;
    }

    std::str::from_utf8(&msg.msg[..string_input.len()]).unwrap() == string_input
}

#[test]
fn msg_qc_test() {
    quickcheck(payload_leads as fn(Vec<u8>) -> bool);
}

#[test]
fn payload_is_text_then_zeros() {
    let mut msg = IPCMsg::new(IPCMsgType::Status);
    let payload = "test payload";
    assert_eq!(msg.create_payload(payload), Ok(12));
    assert_eq!(msg.typ, IPCMsgType::Status);
    assert_eq!(&msg.msg[..12], payload.as_bytes());
    assert!(msg.msg[12..].iter().all(|b| *b == 0));
}

#[test]
fn shorter_payload_clears_the_longer_one() {
    let mut msg = IPCMsg::new(IPCMsgType::Okay);
    msg.create_payload("a long first text").unwrap();
    assert_eq!(msg.create_payload("hi"), Ok(2));
    assert_eq!(&msg.msg[..2], b"hi");
    assert!(msg.msg[2..].iter().all(|b| *b == 0));
}

#[test]
fn full_payload_fits() {
    let text = "x".repeat(1024);
    let mut msg = IPCMsg::new(IPCMsgType::Statistic);
    assert_eq!(msg.create_payload(&text), Ok(1024));
    assert_eq!(&msg.msg[..], text.as_bytes());
    assert_eq!(msg.text(), text.as_bytes().to_vec());
}

#[test]
fn payload_counts_bytes_not_characters() {
    let mut msg = IPCMsg::new(IPCMsgType::Status);
    assert_eq!(msg.create_payload("häßlich"), Ok(9));
    assert_eq!(&msg.msg[..9], "häßlich".as_bytes());
    assert_eq!(msg.msg[9], 0);
}

#[test]
fn empty_payload_is_refused_and_changes_nothing() {
    let mut msg = IPCMsg::new(IPCMsgType::Quit);
    msg.create_payload("before").unwrap();
    let kept = msg.msg;
    assert_eq!(msg.create_payload(""), Err("Can't send empty message!".to_string()));
    assert_eq!(msg.typ, IPCMsgType::Quit);
    assert_eq!(msg.msg, kept);
}

#[test]
fn kinds_have_their_bytes() {
    assert_eq!(to_val(&IPCMsgType::Status), 1);
    assert_eq!(to_val(&IPCMsgType::Statistic), 2);
    assert_eq!(to_val(&IPCMsgType::Quit), 3);
    assert_eq!(to_val(&IPCMsgType::Okay), 4);
    assert_eq!(to_val(&IPCMsgType::Error), 5);
    assert_eq!(to_val(&IPCMsgType::Any), 6);
}

#[test]
fn bytes_read_as_kinds() {
    assert_eq!(IPCMsgType::from_val(1), IPCMsgType::Status);
    assert_eq!(IPCMsgType::from_val(2), IPCMsgType::Statistic);
    assert_eq!(IPCMsgType::from_val(3), IPCMsgType::Quit);
    assert_eq!(IPCMsgType::from_val(4), IPCMsgType::Okay);
    assert_eq!(IPCMsgType::from_val(0), IPCMsgType::Any);
    assert_eq!(IPCMsgType::from_val(5), IPCMsgType::Any);
    assert_eq!(IPCMsgType::from_val(6), IPCMsgType::Any);
    assert_eq!(IPCMsgType::from_val(255), IPCMsgType::Any);
}

#[test]
fn command_words_name_kinds() {
    assert_eq!(IPCMsgType::from_command("ok"), IPCMsgType::Okay);
    assert_eq!(IPCMsgType::from_command("status"), IPCMsgType::Status);
    assert_eq!(IPCMsgType::from_command("statistic"), IPCMsgType::Statistic);
    assert_eq!(IPCMsgType::from_command("quit"), IPCMsgType::Quit);
    assert_eq!(IPCMsgType::from_command("any"), IPCMsgType::Any);
    assert_eq!(IPCMsgType::from_command(""), IPCMsgType::Any);
    assert_eq!(IPCMsgType::from_command("OK"), IPCMsgType::Any);
    assert_eq!(IPCMsgType::from_command("quit "), IPCMsgType::Any);
}

#[test]
fn frame_is_tag_then_payload() {
    let mut msg = IPCMsg::new(IPCMsgType::Statistic);
    msg.create_payload("abc").unwrap();
    let frame = msg.to_frame();
    assert_eq!(frame.len(), 1025);
    assert_eq!(frame[0], 2);
    assert_eq!(&frame[1..4], b"abc");
    assert!(frame[4..].iter().all(|b| *b == 0));
}

#[test]
fn frame_round_trip_keeps_kind_and_payload() {
    for s in ["x", "test payload", "Tx: 0 Rx: 2 Host: 10.0.0.1:1337 ONLINE\n"] {
        for typ in [
            IPCMsgType::Status,
            IPCMsgType::Statistic,
            IPCMsgType::Quit,
            IPCMsgType::Okay,
            IPCMsgType::Any,
        ] {
            let mut msg = IPCMsg::new(typ);
            msg.create_payload(s).unwrap();
            let back = IPCMsg::from_frame(&msg.to_frame());
            assert_eq!(back.typ, typ);
            assert_eq!(back.msg, msg.msg);
            assert_eq!(&back.msg[..s.len()], s.as_bytes());
            assert_eq!(back.text(), s.as_bytes().to_vec());
        }
    }
}

#[test]
fn error_kind_reads_back_as_any() {
    let msg = IPCMsg::new(IPCMsgType::Error);
    let frame = msg.to_frame();
    assert_eq!(frame[0], 5);
    assert_eq!(IPCMsg::from_frame(&frame).typ, IPCMsgType::Any);
}

#[test]
fn received_frame_is_read_by_position() {
    let mut frame = [0u8; 1025];
    frame[0] = 3;
    frame[1] = b'q';
    frame[1024] = 9;
    let msg = IPCMsg::from_frame(&frame);
    assert_eq!(msg.typ, IPCMsgType::Quit);
    assert_eq!(msg.msg[0], b'q');
    assert_eq!(msg.msg[1], 0);
    assert_eq!(msg.msg[1023], 9);
    assert_eq!(msg.text(), vec![b'q']);
}

#[test]
fn text_of_empty_payload_is_empty() {
    let msg = IPCMsg::new(IPCMsgType::Status);
    assert!(msg.msg.iter().all(|b| *b == 0));
    assert_eq!(msg.text(), Vec::<u8>::new());
}

#[test]
fn request_carries_the_command_word() {
    let msg = IPCMsg::request("statistic").unwrap();
    assert_eq!(msg.typ, IPCMsgType::Statistic);
    assert_eq!(msg.text(), b"statistic".to_vec());
    let frame = msg.to_frame();
    assert_eq!(frame[0], 2);
    assert_eq!(&frame[1..10], b"statistic");
    let other = IPCMsg::request("reload").unwrap();
    assert_eq!(other.typ, IPCMsgType::Any);
    assert_eq!(other.text(), b"reload".to_vec());
    assert_eq!(IPCMsg::request("ok").unwrap().typ, IPCMsgType::Okay);
    assert!(IPCMsg::request("").is_none());
    assert!(IPCMsg::request(&"q".repeat(1025)).is_none());
    assert!(IPCMsg::request(&"q".repeat(1024)).is_some());
}
