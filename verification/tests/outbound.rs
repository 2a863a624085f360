use bomberust::{
    decode_envelope, CommandKind, ConnectionState, Direction, Envelope, JoinMsg, JoinedMsg,
    KeyHandler, Mailbox, MoveMsg, Msg, PlayerMsg, RtpBuf, SerializedEvent,
};

/// Drain the handler's mailbox and decode the one frame inside it.
fn decode_deposit(kh: &mut KeyHandler) -> Envelope {
    let frame = kh.send_buf.drain().expect("a frame should be pending");
    let mut buf = RtpBuf::new();
    let frames = buf.feed(&frame);
    assert_eq!(frames.len(), 1);
    decode_envelope(&frames[0]).expect("the deposited frame should decode")
}

#[test]
fn clean_string_strips_crlf() {
    assert_eq!(KeyHandler::clean_string("abc\r\n".to_string()), "abc");
    assert_eq!(KeyHandler::clean_string("abc\n".to_string()), "abc");
    assert_eq!(KeyHandler::clean_string("abc".to_string()), "abc");
    assert_eq!(KeyHandler::clean_string("\n".to_string()), "");
    assert_eq!(KeyHandler::clean_string("".to_string()), "");
}

#[test]
fn commands_become_frames() {
    let mut kh = KeyHandler::new(Mailbox::new());
    kh.handle_command("c");
    assert_eq!(decode_deposit(&mut kh), Envelope::Command(CommandKind::Create));
    kh.handle_command("l");
    assert_eq!(decode_deposit(&mut kh), Envelope::Command(CommandKind::Leave));
    kh.handle_command("g");
    assert_eq!(decode_deposit(&mut kh), Envelope::Command(CommandKind::Launch));
    kh.handle_command(" ");
    assert_eq!(decode_deposit(&mut kh), Envelope::Command(CommandKind::Bomb));
}

#[test]
fn join_command_parses_its_room() {
    let mut kh = KeyHandler::new(Mailbox::new());
    kh.handle_command("j 42");
    assert_eq!(decode_deposit(&mut kh), Envelope::Join { room: 42 });
    kh.handle_command("j");
    assert_eq!(decode_deposit(&mut kh), Envelope::Join { room: 0 });
    kh.handle_command("j abc");
    assert_eq!(decode_deposit(&mut kh), Envelope::Join { room: 0 });
}

#[test]
fn unknown_commands_deposit_nothing() {
    let mut kh = KeyHandler::new(Mailbox::new());
    kh.handle_command("zzz");
    assert!(kh.send_buf.drain().is_none());
}

#[test]
fn name_submission_becomes_a_player_info_frame() {
    let mut kh = KeyHandler::new(Mailbox::new());
    kh.submit_name("Ada".to_string());
    assert_eq!(decode_deposit(&mut kh), Envelope::PlayerInfo { name: "Ada".to_string() });
}

#[test]
fn mailbox_keeps_only_the_last_intent() {
    let mut kh = KeyHandler::new(Mailbox::new());
    kh.handle_command("c");
    kh.handle_command(" ");
    // The create command was overwritten before anyone drained it.
    assert_eq!(decode_deposit(&mut kh), Envelope::Command(CommandKind::Bomb));
    assert!(kh.send_buf.drain().is_none());
}

#[test]
fn send_rtp_frames_and_drains_the_payload() {
    let mut kh = KeyHandler::new(Mailbox::new());
    let mut payload = vec![1u8, 2, 3];
    kh.send_rtp(&mut payload);
    assert!(payload.is_empty());
    let frame = kh.send_buf.drain().unwrap();
    assert_eq!(frame, vec![0, 3, 1, 2, 3]);
}

#[test]
fn send_rtp_refuses_an_oversized_payload() {
    let mut kh = KeyHandler::new(Mailbox::new());
    let mut payload = vec![0u8; 65536];
    kh.send_rtp(&mut payload);
    assert_eq!(payload.len(), 65536);
    assert!(kh.send_buf.drain().is_none());
}

#[test]
fn typed_messages_serialize_with_their_tag() {
    let bytes = Msg::new("create".to_string()).to_vec();
    assert_eq!(decode_envelope(&bytes), Ok(Envelope::Command(CommandKind::Create)));

    let bytes = PlayerMsg::new("Zoé".to_string()).to_vec();
    assert_eq!(decode_envelope(&bytes), Ok(Envelope::PlayerInfo { name: "Zoé".to_string() }));

    let bytes = JoinMsg::new(9).to_vec();
    assert_eq!(decode_envelope(&bytes), Ok(Envelope::Join { room: 9 }));

    let bytes = MoveMsg::new(Direction::West).to_vec();
    assert_eq!(decode_envelope(&bytes), Ok(Envelope::Move(Direction::West)));

    let bytes = JoinedMsg::new(3, true).to_vec();
    assert_eq!(decode_envelope(&bytes), Ok(Envelope::Joined { room: 3, success: true }));
}

#[test]
fn connection_state_labels() {
    assert_eq!(ConnectionState::Connecting.label(), "Connecting");
    assert_eq!(ConnectionState::Connected.label(), "Connected");
    assert_eq!(ConnectionState::Disconnected.label(), "Disconnected");
}

#[test]
fn oversized_name_is_refused() {
    let mut kh = KeyHandler::new(Mailbox::new());
    kh.submit_name("x".repeat(70000));
    assert!(kh.send_buf.drain().is_none());
}

#[test]
fn plus_prefixed_room_number_parses() {
    let mut kh = KeyHandler::new(Mailbox::new());
    kh.handle_command("j +7");
    assert_eq!(decode_deposit(&mut kh), Envelope::Join { room: 7 });
    kh.handle_command("j +");
    assert_eq!(decode_deposit(&mut kh), Envelope::Join { room: 0 });
    kh.handle_command("j ++7");
    assert_eq!(decode_deposit(&mut kh), Envelope::Join { room: 0 });
}

#[test]
fn overflowing_room_number_falls_back_to_zero() {
    let mut kh = KeyHandler::new(Mailbox::new());
    kh.handle_command("j 18446744073709551616");
    assert_eq!(decode_deposit(&mut kh), Envelope::Join { room: 0 });
    kh.handle_command("j 18446744073709551615");
    assert_eq!(decode_deposit(&mut kh), Envelope::Join { room: u64::MAX });
}
