use s2_cli::error::{
    decimal_text, s2_status, ClientFailure, RequestStatus, S2CliError, ServiceError,
    ServiceErrorContext, BUG_HELP, HELP,
};

fn status(code: &str, message: &str) -> RequestStatus {
    RequestStatus::new(code.to_string(), message.to_string())
}

#[test]
fn service_error_text_has_operation_and_entity() {
    let error = ServiceError::new(
        "basin".to_string(),
        "list".to_string(),
        status("NotFound", "no such basin"),
    )
    .with_plural();
    assert_eq!(error.to_text(), "Failed to list basins : \nNotFound: \nno such basin");
}

#[test]
fn service_error_text_without_plural_or_extra() {
    let error = ServiceError::new(
        "stream".to_string(),
        "create".to_string(),
        status("AlreadyExists", "taken"),
    );
    assert_eq!(error.to_text(), "Failed to create stream : \nAlreadyExists: \ntaken");
    assert_eq!(error.context(), None);
}

#[test]
fn service_error_with_extra_text() {
    let error = ServiceError::new(
        "stream".to_string(),
        "delete".to_string(),
        status("Internal", "boom"),
    )
    .with_extra("in basin my-basin".to_string());
    assert_eq!(
        error.to_text(),
        "Failed to delete stream in basin my-basin: \nInternal: \nboom"
    );
}

#[test]
fn plural_after_operation_ending_in_s_is_es() {
    let error = ServiceError::new(
        "basin".to_string(),
        "process".to_string(),
        status("Internal", "x"),
    )
    .with_plural();
    assert_eq!(error.to_text(), "Failed to process basines : \nInternal: \nx");
}

#[test]
fn plural_of_empty_operation_is_s() {
    let error =
        ServiceError::new("basin".to_string(), String::new(), status("Internal", "x")).with_plural();
    assert_eq!(error.to_text(), "Failed to  basins : \nInternal: \nx");
}

#[test]
fn session_errors_name_the_session() {
    let append = ServiceError::in_session(ServiceErrorContext::AppendSession, status("Aborted", "fenced"));
    assert_eq!(append.context(), Some(ServiceErrorContext::AppendSession));
    assert_eq!(append.to_text(), "Failed to append to stream : \nAborted: \nfenced");
    let read = ServiceError::in_session(ServiceErrorContext::ReadSession, status("NotFound", "gone"));
    assert_eq!(read.context(), Some(ServiceErrorContext::ReadSession));
    assert_eq!(read.to_text(), "Failed to read from stream : \nNotFound: \ngone");
    assert_eq!(read.status(), &status("NotFound", "gone"));
}

#[test]
fn request_status_from_service_failure_keeps_code_and_message() {
    let failure = ClientFailure::Service {
        code: "PermissionDenied".to_string(),
        message: "token expired".to_string(),
    };
    let converted = RequestStatus::from(failure);
    assert_eq!(converted.status, "PermissionDenied");
    assert_eq!(converted.message, "token expired");
    assert_eq!(converted.to_text(), "PermissionDenied: \ntoken expired");
}

#[test]
fn request_status_from_other_failure_has_empty_code() {
    let failure = ClientFailure::Other { text: "missing append output".to_string() };
    let converted = RequestStatus::from(failure);
    assert_eq!(converted.status, "");
    assert_eq!(converted.message, "missing append output");
    assert_eq!(converted.to_text(), ": \nmissing append output");
}

#[test]
fn request_status_default_is_empty() {
    let empty = RequestStatus::default();
    assert_eq!(empty.status, "");
    assert_eq!(empty.message, "");
}

#[test]
fn s2_status_is_code_or_description() {
    let service = ClientFailure::Service {
        code: "Unavailable".to_string(),
        message: "try later".to_string(),
    };
    assert_eq!(s2_status(&service), "Unavailable");
    let other = ClientFailure::Other { text: "bad response".to_string() };
    assert_eq!(s2_status(&other), "bad response");
}

#[test]
fn cli_error_texts() {
    assert_eq!(S2CliError::Config("no file".to_string()).to_text(), "no file");
    assert_eq!(S2CliError::ConvertError("bad basin".to_string()).to_text(), "bad basin");
    assert_eq!(
        S2CliError::RecordReaderInit("denied".to_string()).to_text(),
        "Failed to initialize a `Record Reader`! denied"
    );
    assert_eq!(
        S2CliError::RecordRead("eof".to_string()).to_text(),
        "Failed to read records: eof"
    );
    assert_eq!(
        S2CliError::RecordWrite("disk full".to_string()).to_text(),
        "Failed to write records: disk full"
    );
    assert_eq!(
        S2CliError::RecordTooLarge { size: 2_000_000, limit: 1_048_576 }.to_text(),
        "Failed to batch records: a record of 2000000 metered bytes exceeds the 1048576 that a batch may hold"
    );
    assert_eq!(S2CliError::Aborted.to_text(), "Aborted");
    let wrapped = S2CliError::from_service(ServiceError::in_session(
        ServiceErrorContext::ReadSession,
        status("NotFound", "gone"),
    ));
    assert_eq!(wrapped.to_text(), "Failed to read from stream : \nNotFound: \ngone");
}

#[test]
fn cli_error_help_texts() {
    assert_eq!(
        S2CliError::ConvertError("x".to_string()).help(),
        Some("Are you trying to operate on an invalid basin?")
    );
    assert_eq!(
        S2CliError::HostEndpoints("x".to_string()).help(),
        Some("Are you overriding `S2_CLOUD`, `S2_CELL`, or `S2_BASIN_ZONE`?")
    );
    assert_eq!(S2CliError::BasinService("x".to_string()).help(), Some(HELP));
    assert_eq!(S2CliError::StreamService("x".to_string()).help(), Some(HELP));
    assert_eq!(S2CliError::InvalidConfig("x".to_string()).help(), Some(BUG_HELP));
    assert_eq!(S2CliError::RecordWrite("x".to_string()).help(), None);
    assert_eq!(S2CliError::Aborted.help(), None);
}

#[test]
fn only_cancellation_exits_with_zero() {
    assert!(S2CliError::Aborted.is_aborted());
    assert_eq!(S2CliError::Aborted.exit_code(), 0);
    let failure = S2CliError::RecordWrite("disk full".to_string());
    assert!(!failure.is_aborted());
    assert_eq!(failure.exit_code(), 1);
    assert_eq!(S2CliError::RecordTooLarge { size: 9, limit: 8 }.exit_code(), 1);
}

#[test]
fn numbers_are_written_in_decimal() {
    assert_eq!(decimal_text(0), "0");
    assert_eq!(decimal_text(7), "7");
    assert_eq!(decimal_text(10), "10");
    assert_eq!(decimal_text(1_048_576), "1048576");
    assert_eq!(decimal_text(9_876_543_210), "9876543210");
    assert_eq!(decimal_text(u64::MAX), "18446744073709551615");
}
