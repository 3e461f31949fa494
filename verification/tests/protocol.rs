use fileserver::error::FileServerError;
use fileserver::protocol::{command_of_byte, route_command, CommandType, Dispatch, HandlerRegistry};

#[test]
fn command_bytes_map_to_commands() {
    assert_eq!(command_of_byte(1), Some(CommandType::Download));
    assert_eq!(command_of_byte(2), Some(CommandType::Upload));
    assert_eq!(command_of_byte(3), Some(CommandType::Statistics));
    assert_eq!(command_of_byte(0), None);
    assert_eq!(command_of_byte(4), None);
    assert_eq!(command_of_byte(255), None);
}

#[test]
fn registry_starts_empty_and_registers() {
    let mut reg = HandlerRegistry::new();
    assert!(!reg.has_handler(CommandType::Download));
    assert!(!reg.has_handler(CommandType::Upload));
    assert!(!reg.has_handler(CommandType::Statistics));
    reg.register(CommandType::Download);
    assert!(reg.has_handler(CommandType::Download));
    assert!(!reg.has_handler(CommandType::Statistics));
    reg.register(CommandType::Statistics);
    assert!(reg.has_handler(CommandType::Statistics));
}

#[test]
fn download_byte_routes_to_worker() {
    let mut reg = HandlerRegistry::new();
    reg.register(CommandType::Download);
    reg.register(CommandType::Statistics);
    assert!(matches!(route_command(Some(1), &reg), Dispatch::SpawnDownload));
}

#[test]
fn statistics_byte_routes_to_subscription() {
    let mut reg = HandlerRegistry::new();
    reg.register(CommandType::Download);
    reg.register(CommandType::Statistics);
    assert!(matches!(route_command(Some(3), &reg), Dispatch::RegisterSubscriber));
}

#[test]
fn upload_byte_is_fatal() {
    let mut reg = HandlerRegistry::new();
    reg.register(CommandType::Download);
    reg.register(CommandType::Statistics);
    assert!(matches!(route_command(Some(2), &reg), Dispatch::FatalUnimplemented));
}

#[test]
fn unrecognized_byte_is_rejected() {
    let mut reg = HandlerRegistry::new();
    reg.register(CommandType::Download);
    reg.register(CommandType::Statistics);
    match route_command(Some(9), &reg) {
        Dispatch::Reject(FileServerError::FailedToParseCommand(reason)) => {
            assert_eq!(reason, "unrecognized command byte");
        }
        other => panic!("expected a command rejection, got {:?}", other),
    }
}

#[test]
fn failed_read_is_rejected() {
    let reg = HandlerRegistry::new();
    match route_command(None, &reg) {
        Dispatch::Reject(FileServerError::FailedToParseCommand(reason)) => {
            assert_eq!(reason, "could not read command byte");
        }
        other => panic!("expected a command rejection, got {:?}", other),
    }
}

#[test]
fn recognized_command_without_handler_is_rejected() {
    let reg = HandlerRegistry::new();
    match route_command(Some(1), &reg) {
        Dispatch::Reject(FileServerError::FailedToParseCommand(reason)) => {
            assert_eq!(reason, "unsupported command type");
        }
        other => panic!("expected a command rejection, got {:?}", other),
    }
}

#[test]
fn error_messages_are_never_empty() {
    let errors = vec![
        FileServerError::FailedToInitFTPServer(String::from("bind refused")),
        FileServerError::FailedToParseRequest(String::from("file name not found")),
        FileServerError::FailedToParseCommand(String::from("")),
        FileServerError::ServerReadError(String::from("")),
    ];
    for e in errors {
        assert!(!e.message().is_empty());
    }
    assert_eq!(
        FileServerError::FailedToParseRequest(String::from("file name not found")).message(),
        "Could not parse filename in request: file name not found"
    );
    assert_eq!(
        FileServerError::ServerReadError(String::from("gone")).message(),
        "Client read deadline"
    );
}
