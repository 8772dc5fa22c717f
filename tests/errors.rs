use net::error::{Error, ErrorKind, ErrorSeverity, Failure};
use net::event::Event;
use net::logging::LogLevel;
use net::transport::{IpAddress, PeerAddress, TransportProtocol};

#[test]
fn failure_levels() {
    assert_eq!(LogLevel::Error, Failure::BindFailure.level());
    assert_eq!(LogLevel::Warning, Failure::Unsupported.level());
    assert_eq!(LogLevel::Warning, Failure::NotConnected.level());
    assert_eq!(LogLevel::Warning, Failure::NotRunning.level());
    assert_eq!(LogLevel::Info, Failure::EncodeTooLarge.level());
    assert_eq!(LogLevel::Info, Failure::DecodeMalformed.level());
    assert_eq!(LogLevel::Warning, Failure::SendFailure.level());
    assert_eq!(LogLevel::Error, Failure::HostCallback.level());
}

#[test]
fn failure_as_error() {
    let e = Error::from_failure(Failure::NotConnected);
    assert_eq!(ErrorKind::Network, e.kind);
    assert_eq!(ErrorSeverity::Medium, e.severity);
    assert_eq!("not connected", e.message);
    assert_eq!(LogLevel::Warning, LogLevel::from(e.severity));
    let e = Error::from_failure(Failure::BindFailure);
    assert_eq!(LogLevel::Error, LogLevel::from(e.severity));
    assert_eq!(ErrorKind::Io, Failure::SendFailure.kind());
}

#[test]
fn severity_to_level() {
    assert_eq!(LogLevel::Debug, LogLevel::from(ErrorSeverity::Low));
    assert_eq!(LogLevel::Info, LogLevel::from(ErrorSeverity::MediumLow));
    assert_eq!(LogLevel::Info, LogLevel::from(ErrorSeverity::Other));
    assert_eq!(LogLevel::Warning, LogLevel::from(ErrorSeverity::Medium));
    assert_eq!(LogLevel::Error, LogLevel::from(ErrorSeverity::MediumHigh));
    assert_eq!(LogLevel::Error, LogLevel::from(ErrorSeverity::High));
    assert_eq!(3, LogLevel::Error.code());
    assert_eq!(0, LogLevel::Debug.code());
}

#[test]
fn error_new_keeps_fields() {
    let e = Error::new(ErrorKind::Io, ErrorSeverity::MediumLow, "rx error");
    assert_eq!(ErrorKind::Io, e.kind);
    assert_eq!(ErrorSeverity::MediumLow, e.severity);
    assert_eq!("rx error", e.message);
}

#[test]
fn event_codes() {
    let a = PeerAddress { ip: IpAddress::V6(1), port: 9 };
    assert_eq!(0, Event::Exiting.code());
    assert_eq!(1, Event::Started(TransportProtocol::Tcp, a).code());
    assert_eq!(2, Event::Stopped(TransportProtocol::Udp, a).code());
    assert_eq!(100, Event::Connected(TransportProtocol::Tcp, a, true).code());
    assert_eq!(101, Event::Disconnected(TransportProtocol::Tcp, a).code());
    let e = Error::from_failure(Failure::HostCallback);
    assert_eq!(200, Event::Error(e).code());
}

#[test]
fn codec_error_as_error() {
    let e = Error::from_codec_error(&net::codec::error::CodecError::new("malformed envelope"));
    assert_eq!(ErrorKind::Other, e.kind);
    assert_eq!(ErrorSeverity::Medium, e.severity);
    assert_eq!("codec error: message codec error: malformed envelope", e.message);
}

#[test]
fn error_text() {
    let e = Error::new(ErrorKind::Mailbox, ErrorSeverity::MediumHigh, "actor error");
    assert_eq!("error (Mailbox, severity: MediumHigh): actor error", e.to_string());
    assert_eq!("Udp", TransportProtocol::Udp.name());
    assert_eq!("Unsupported", TransportProtocol::Unsupported.name());
}
