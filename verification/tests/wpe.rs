use rocoknight::wpe::interceptor::{open_for, RunStep, RECV_RETRY_MS};
use rocoknight::wpe::packet::{HEADER_LEN, PACKET_MAGIC};
use rocoknight::wpe::windivert::WinDivertHandle;
use rocoknight::wpe::{
    GamePacket, PacketAction, PacketHandler, PacketInjector, PacketInterceptor, WpeError,
};

struct Fixed(u8);

impl PacketHandler for Fixed {
    fn handle_outbound(&self, _packet: &GamePacket) -> PacketAction {
        match self.0 {
            0 => PacketAction::Forward,
            1 => PacketAction::Drop,
            2 => PacketAction::Modified(GamePacket::build_pet_escape()),
            _ => PacketAction::Inject(GamePacket::build_pet_escape()),
        }
    }

    fn handle_inbound(&self, _packet: &GamePacket) -> PacketAction {
        PacketAction::Forward
    }
}

fn sample_bytes() -> Vec<u8> {
    vec![
        0x27, 0x95, 0x0B, 0x00, 0x00, 0x00, 0x03, 0x00, 0x15, 0xCD, 0x5B, 0x07, 0x00, 0x00, 0x00,
        0x00, 0xAA, 0xBB,
    ]
}

#[test]
fn binary_packet_is_read_little_endian() {
    match GamePacket::parse(&sample_bytes()).expect("a binary packet") {
        GamePacket::Binary { magic, length, command, qq_num, data } => {
            assert_eq!(magic, 0x9527);
            assert_eq!(magic, PACKET_MAGIC);
            assert_eq!(length, 11);
            assert_eq!(command, 3);
            assert_eq!(qq_num, 123_456_789);
            assert_eq!(data, vec![0xAA, 0xBB]);
        }
        GamePacket::Text(_) => panic!("the bytes begin with the magic"),
    }
}

#[test]
fn binary_packet_is_written_little_endian() {
    let packet = GamePacket::Binary {
        magic: 0x9527,
        length: 11,
        command: 3,
        qq_num: 123_456_789,
        data: vec![0xAA, 0xBB],
    };
    assert_eq!(packet.build().expect("building never fails"), sample_bytes());
    let wide = GamePacket::Binary {
        magic: 0x0102,
        length: 0x0304_0506,
        command: 0x0708,
        qq_num: 0x090A_0B0C_0D0E_0F10,
        data: vec![],
    };
    assert_eq!(
        wide.build().unwrap(),
        vec![
            0x02, 0x01, 0x06, 0x05, 0x04, 0x03, 0x08, 0x07, 0x10, 0x0F, 0x0E, 0x0D, 0x0C, 0x0B,
            0x0A, 0x09,
        ]
    );
}

#[test]
fn binary_packet_survives_a_round_trip() {
    let packet = GamePacket::build_map_jump(u64::MAX, 0xBEEF);
    let bytes = packet.build().unwrap();
    assert_eq!(bytes.len(), HEADER_LEN + 11);
    match GamePacket::parse(&bytes).unwrap() {
        GamePacket::Binary { magic, length, command, qq_num, data } => {
            assert_eq!(magic, 0x9527);
            assert_eq!(length, 0x0B);
            assert_eq!(command, 3);
            assert_eq!(qq_num, u64::MAX);
            assert_eq!(data, vec![0, 0, 0, 0, 0, 0, 0, 2, 0, 0xEF, 0xBE]);
        }
        GamePacket::Text(_) => panic!("a binary packet was written"),
    }
}

#[test]
fn text_packet_survives_a_round_trip() {
    let bytes = GamePacket::build_pet_escape().build().unwrap();
    assert_eq!(bytes, "System_宠物逃跑".as_bytes().to_vec());
    match GamePacket::parse(&bytes).unwrap() {
        GamePacket::Text(text) => assert_eq!(text, "System_宠物逃跑"),
        GamePacket::Binary { .. } => panic!("a text packet was written"),
    }
}

#[test]
fn text_packet_replaces_invalid_bytes() {
    match GamePacket::parse(&[0x61, 0xFF]).unwrap() {
        GamePacket::Text(text) => assert_eq!(text, "a\u{FFFD}"),
        GamePacket::Binary { .. } => panic!("the bytes do not begin with the magic"),
    }
}

#[test]
fn short_packets_are_refused() {
    match GamePacket::parse(&[0x27]) {
        Err(WpeError::PacketParse(message)) => assert_eq!(message, "Packet too short"),
        _ => panic!("one byte is no packet"),
    }
    assert!(matches!(GamePacket::parse(&[]), Err(WpeError::PacketParse(_))));
    match GamePacket::parse(&sample_bytes()[..15]) {
        Err(WpeError::PacketParse(message)) => assert_eq!(message, "Binary packet too short"),
        _ => panic!("the header is cut"),
    }
    assert!(GamePacket::parse(&sample_bytes()[..16]).is_ok());
}

#[test]
fn requests_have_their_commands() {
    match GamePacket::build_pet_storage(5, 3) {
        GamePacket::Binary { magic, length, command, qq_num, data } => {
            assert_eq!((magic, length, command, qq_num), (0x9527, 0x0B, 0x0014, 5));
            assert_eq!(data, vec![0, 0, 0, 0, 0, 0, 0, 1, 0, 3]);
        }
        _ => panic!("a binary packet"),
    }
    match GamePacket::build_home_training(6, 4) {
        GamePacket::Binary { magic, length, command, qq_num, data } => {
            assert_eq!((magic, length, command, qq_num), (0x9527, 0x0B, 0x0052, 6));
            assert_eq!(data, vec![0, 0, 0, 0, 0, 0, 0, 1, 0, 4]);
        }
        _ => panic!("a binary packet"),
    }
    match GamePacket::build_map_jump(7, 0x0102) {
        GamePacket::Binary { command, data, .. } => {
            assert_eq!(command, 0x0003);
            assert_eq!(data, vec![0, 0, 0, 0, 0, 0, 0, 2, 0, 0x02, 0x01]);
        }
        _ => panic!("a binary packet"),
    }
}

#[test]
fn errors_have_their_texts() {
    assert_eq!(WpeError::WinDivert("x".to_string()).message(), "WinDivert error: x");
    assert_eq!(WpeError::PacketParse("y".to_string()).message(), "Packet parse error: y");
    assert_eq!(WpeError::PacketBuild("z".to_string()).message(), "Packet build error: z");
    assert_eq!(WpeError::NotRunning.message(), "Not running");
    let io = std::io::Error::new(std::io::ErrorKind::Other, "disk");
    assert_eq!(WpeError::Io(io).message(), "IO error: disk");
}

#[test]
fn handle_sends_only_while_open() {
    let mut handle = WinDivertHandle::open(42).expect("opening never fails");
    assert!(handle.send(b"abc").is_ok());
    assert!(matches!(handle.recv(), Err(WpeError::NotRunning)));
    handle.close();
    assert!(matches!(handle.send(b"abc"), Err(WpeError::NotRunning)));
    assert!(matches!(handle.recv(), Err(WpeError::NotRunning)));
}

#[test]
fn injector_builds_and_sends() {
    let injector = PacketInjector::new(42).expect("opening never fails");
    assert!(injector.inject(GamePacket::build_pet_escape()).is_ok());
    assert!(injector.inject(GamePacket::build_map_jump(1, 2)).is_ok());
}

#[test]
fn interceptor_shows_packets_to_its_handlers() {
    let mut interceptor: PacketInterceptor<Fixed> = PacketInterceptor::new(42).unwrap();
    assert!(interceptor.running());
    assert!(interceptor.process_packet(&sample_bytes()).is_ok());
    interceptor.register_handler(Fixed(0));
    interceptor.register_handler(Fixed(1));
    interceptor.register_handler(Fixed(2));
    assert!(interceptor.process_packet(&sample_bytes()).is_ok());
    assert!(interceptor.process_packet(b"text").is_ok());
    match interceptor.process_packet(&[0x27]) {
        Err(WpeError::PacketParse(message)) => assert_eq!(message, "Packet too short"),
        _ => panic!("one byte is no packet"),
    }
    assert!(open_for(&interceptor).is_ok());
}

#[test]
fn receive_loop_ends_when_stopped_or_closed() {
    let mut interceptor: PacketInterceptor<Fixed> = PacketInterceptor::new(42).unwrap();
    interceptor.register_handler(Fixed(3));
    assert!(matches!(interceptor.run_step(Ok(sample_bytes())), RunStep::Continue));
    assert!(matches!(interceptor.run_step(Ok(vec![1])), RunStep::Continue));
    assert!(matches!(interceptor.run_step(Err(WpeError::NotRunning)), RunStep::Stop));
    assert!(matches!(
        interceptor.run_step(Err(WpeError::WinDivert("busy".to_string()))),
        RunStep::Retry(RECV_RETRY_MS)
    ));
    assert_eq!(RECV_RETRY_MS, 100);
    interceptor.stop();
    assert!(!interceptor.running());
    assert!(matches!(interceptor.run_step(Ok(sample_bytes())), RunStep::Stop));
}
