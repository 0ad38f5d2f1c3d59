use handmade_async::addr::SockAddr;
use handmade_async::client::{report, Greeter, SentBytes, Upload};
use handmade_async::flags::{set_non_blocking, FlagTable};
use handmade_async::spinner::Spinner;
use handmade_async::tcp::{ConnectAction, TcpStream, WriteAction};
use handmade_async::text::decimal_text;
use nix::fcntl::OFlag;

#[test]
fn addresses_are_read() {
    let local = SockAddr { octets: (127, 0, 0, 1), port: 3333 };
    assert_eq!(SockAddr::parse("127.0.0.1:3333"), Some(local));
    assert_eq!(
        SockAddr::parse("1.2.3.4:65535"),
        Some(SockAddr { octets: (1, 2, 3, 4), port: 65535 })
    );
    for (octets, port) in [((0, 0, 0, 0), 0), ((255, 10, 99, 100), 80), ((8, 8, 4, 4), 65535)] {
        let (a, b, c, d): (u8, u8, u8, u8) = octets;
        let text = format!("{a}.{b}.{c}.{d}:{port}");
        assert_eq!(SockAddr::parse(&text), Some(SockAddr { octets, port }));
    }
    assert_eq!(SockAddr::parse("127.0.0.1"), None);
    assert_eq!(SockAddr::parse("localhost:3333"), None);
    assert_eq!(SockAddr::parse("127.0.0.1:65536"), None);
    assert_eq!(SockAddr::parse(""), None);
    assert_eq!(SockAddr::from_parts(Some(((127, 0, 0, 1), 3333))), Some(local));
    assert_eq!(SockAddr::from_parts(None), None);
}

#[test]
fn connecting_is_pending_once_and_then_ready() {
    assert!(TcpStream::connect("sock", "nowhere").is_none());

    let mut connect = TcpStream::connect("sock", "127.0.0.1:3333").unwrap();
    assert!(!connect.connecting);
    match connect.poll() {
        ConnectAction::Begin(addr) => {
            assert_eq!(addr, SockAddr { octets: (127, 0, 0, 1), port: 3333 })
        }
        ConnectAction::Done(_) => panic!("the first poll is pending"),
    }
    assert!(connect.connecting);
    assert_eq!(connect.sock, Some("sock"));
    match connect.poll() {
        ConnectAction::Done(stream) => assert_eq!(stream.sock, "sock"),
        ConnectAction::Begin(_) => panic!("the second poll is ready"),
    }
    assert_eq!(connect.sock, None);
}

#[test]
fn a_verbose_client_tells_of_its_steps() {
    let mut connect = TcpStream::connect("sock", "127.0.0.1:3333").unwrap();
    assert_eq!(connect.poll().line(), "tcp stream: connecting...");
    assert_eq!(connect.poll().line(), "tcp stream: connected");
    assert_eq!(WriteAction::Done(7).line(), None);
    assert_eq!(WriteAction::Register.line(), Some("tcp stream: not ready for send..."));
    assert_eq!(WriteAction::Wait.line(), Some("tcp stream: not ready for send..."));
}

#[test]
fn a_failed_send_registers_each_time() {
    let stream = TcpStream { sock: "sock" };
    let mut write = stream.write(b"hello");
    assert_eq!(*write.sock, "sock");
    assert_eq!(write.data, b"hello");
    assert!(matches!(write.poll(None), WriteAction::Register));
    assert!(matches!(write.poll(None), WriteAction::Register));
    assert!(matches!(write.poll(Some(3)), WriteAction::Done(3)));
    write.registered = true;
    assert!(matches!(write.poll(None), WriteAction::Wait));
}

#[test]
fn non_blocking_is_added_to_known_flags() {
    let non_block = OFlag::O_NONBLOCK.bits();
    let target = FlagTable::target();
    assert_eq!(target, FlagTable { known: OFlag::all().bits(), non_block });
    assert_eq!(set_non_blocking(0, &target), non_block);
    assert_eq!(set_non_blocking(OFlag::O_RDWR.bits(), &target), OFlag::O_RDWR.bits() | non_block);
    for raw in [0, 1, 2, 0o2002, -1, i32::MAX, i32::MIN, 0x5555_5555] {
        let expected = (OFlag::from_bits_truncate(raw) | OFlag::O_NONBLOCK).bits();
        assert_eq!(set_non_blocking(raw, &target), expected);
        assert_eq!(set_non_blocking(expected, &target), expected);
    }
    let small = FlagTable { known: 0b1111, non_block: 0b1000 };
    assert_eq!(set_non_blocking(0b11_0101, &small), 0b1101);
}

#[test]
fn the_greeter_writes_ten_greetings() {
    let mut greeter = Greeter::new();
    for _ in 0..10 {
        assert_eq!(greeter.next(), Some("hello\r\n".as_bytes().to_vec()));
    }
    assert_eq!(greeter.next(), None);
    assert_eq!(greeter.next(), None);
    assert_eq!(report(7), "wrote 7 bytes to the socket");
    assert_eq!(report(1024), "wrote 1024 bytes to the socket");
}

#[test]
fn the_upload_repeats_its_block() {
    let mut upload = Upload::new();
    let mut sent = SentBytes::new();
    assert_eq!(upload.pending(), vec![42u8; 1024 * 1024]);

    upload.wrote(1000, &mut sent);
    assert_eq!(upload.pending().len(), 1024 * 1024 - 1000);
    upload.wrote(0, &mut sent);
    assert_eq!(upload.pending().len(), 1024 * 1024 - 1000);
    assert_eq!(sent.get(), 1000);

    upload.wrote(1024 * 1024 - 1000, &mut sent);
    assert_eq!(upload.pending().len(), 1024 * 1024);
    assert_eq!(sent.get(), 1024 * 1024);
    upload.wrote(1024 * 1024, &mut sent);
    upload.wrote(5, &mut sent);
    assert_eq!(upload.pending().len(), 1024 * 1024 - 5);
    assert_eq!(sent.get(), 2 * 1024 * 1024 + 5);

    sent.count(10);
    assert_eq!(sent.get(), 2 * 1024 * 1024 + 15);
}

#[test]
fn the_spinner_turns_round() {
    let mut spinner = Spinner::new();
    assert_eq!(Spinner::new().frame(0).pause, 100_000_000);
    assert_eq!(spinner.frame(0).text, "\r- 0");
    assert_eq!(spinner.frame(9).text, "\r\\ 9");
    assert_eq!(spinner.frame(10).text, "\r| 10");
    assert_eq!(spinner.frame(1048576).text, "\r/ 1048576");
    assert_eq!(spinner.frame(1048576).text, "\r- 1048576");
}

#[test]
fn decimals_match_the_usual_form() {
    for n in [0usize, 1, 9, 10, 99, 100, 1005, 65536, usize::MAX] {
        assert_eq!(decimal_text(n), format!("{n}"));
    }
}
