use gigabyte_kbd_backlight::client::{connect_error, read_response, request_line, Outcome};
use gigabyte_kbd_backlight::error::{Error, IoFailure, IoKind};
use gigabyte_kbd_backlight::protocol::Request;

fn failure(kind: IoKind, message: &str) -> IoFailure {
    IoFailure { kind, message: message.to_string() }
}

#[test]
fn connect_error_tells_the_kinds_apart() {
    assert_eq!(connect_error(failure(IoKind::ConnectionRefused, "Connection refused (os error 111)")), Error::DaemonNotRunning);
    assert_eq!(connect_error(failure(IoKind::NotFound, "No such file or directory (os error 2)")), Error::DaemonNotRunning);
    assert_eq!(connect_error(failure(IoKind::PermissionDenied, "Permission denied (os error 13)")), Error::Permission);
    assert_eq!(connect_error(failure(IoKind::WouldBlock, "busy")), Error::Io("busy".to_string()));
    assert_eq!(connect_error(failure(IoKind::Other, "boom")), Error::Io("boom".to_string()));
}

#[test]
fn an_io_failure_becomes_an_io_error() {
    assert_eq!(Error::from(failure(IoKind::Other, "boom")), Error::Io("boom".to_string()));
    assert_eq!(Error::from(failure(IoKind::PermissionDenied, "no")), Error::Io("no".to_string()));
    assert_eq!(Error::from(failure(IoKind::NotFound, "")), Error::Io(String::new()));
}

#[test]
fn request_line_ends_with_a_line_feed() {
    assert_eq!(request_line(&Request::On), "ON\n");
    assert_eq!(request_line(&Request::Off), "OFF\n");
    assert_eq!(request_line(&Request::SetColor { r: 1, g: 20, b: 255 }), "COLOR 1 20 255\n");
    assert_eq!(request_line(&Request::Brightness(12)), "BRIGHTNESS 12\n");
    assert_eq!(request_line(&Request::AdjustBrightness(-9)), "ADJUST -9\n");
}

#[test]
fn what_the_client_sends_the_daemon_reads() {
    for request in [
        Request::On,
        Request::Off,
        Request::SetColor { r: 0, g: 128, b: 255 },
        Request::Brightness(9),
        Request::AdjustBrightness(-128),
    ] {
        assert_eq!(Request::parse(&request_line(&request)), Ok(request));
    }
}

#[test]
fn read_response_shows_a_failure() {
    assert_eq!(read_response("ERR unknown command: FOO\n"), Outcome::Failed("unknown command: FOO".to_string()));
    assert_eq!(
        read_response("ERR invalid brightness level: 12 (expected 0-9)\n"),
        Outcome::Failed("invalid brightness level: 12 (expected 0-9)".to_string())
    );
    assert_eq!(read_response("ERR"), Outcome::Failed("ERR".to_string()));
    assert_eq!(read_response("ERR OK"), Outcome::Failed("OK".to_string()));
}

#[test]
fn read_response_shows_a_success_unless_it_says_nothing() {
    assert_eq!(read_response("OK backlight on\n"), Outcome::Done(Some("backlight on".to_string())));
    assert_eq!(read_response("OK brightness 6/9\n"), Outcome::Done(Some("brightness 6/9".to_string())));
    assert_eq!(read_response("OK\n"), Outcome::Done(None));
    assert_eq!(read_response("OK \n"), Outcome::Done(None));
    assert_eq!(read_response("OK OK\n"), Outcome::Done(None));
    assert_eq!(read_response(""), Outcome::Done(None));
    assert_eq!(read_response("\n"), Outcome::Done(None));
    assert_eq!(read_response("done\n"), Outcome::Done(Some("done".to_string())));
    assert_eq!(read_response("OK  two\n"), Outcome::Done(Some(" two".to_string())));
}
