use fileserver::error::FileServerError;
use fileserver::request::extract_file_name;

#[test]
fn plain_request_yields_its_filename() {
    let got = extract_file_name(b"filename=a_file_name|").unwrap();
    assert_eq!(got, b"a_file_name".to_vec());
}

#[test]
fn bytes_before_the_marker_are_ignored() {
    let got = extract_file_name(b"xx filename=notes.txt|").unwrap();
    assert_eq!(got, b"notes.txt".to_vec());
}

#[test]
fn bytes_after_the_terminator_are_ignored() {
    let got = extract_file_name(b"filename=data.bin|trailing junk").unwrap();
    assert_eq!(got, b"data.bin".to_vec());
}

#[test]
fn name_capture_is_greedy_up_to_the_terminator() {
    // the capture runs from the leftmost marker to the terminator, so a
    // second marker inside it belongs to the name
    let got = extract_file_name(b"filename=filename=a|").unwrap();
    assert_eq!(got, b"filename=a".to_vec());
}

#[test]
fn empty_capture_retries_at_later_positions() {
    // "filename=|" matches nothing at position 0 (the name must be
    // nonempty), but a full match starts later in the buffer
    let got = extract_file_name(b"filename=|filename=a|").unwrap();
    assert_eq!(got, b"a".to_vec());
}

// A download body that does not match `filename=<name>|`
// yields an error response.
#[test]
fn unmatched_body_yields_an_error() {
    let cases: Vec<&[u8]> = vec![
        b"garbage|",
        b"filename=|",
        b"filename=unterminated",
        b"FILENAME=caps.txt|",
        b"",
        b"|",
    ];
    for body in cases {
        match extract_file_name(body) {
            Err(FileServerError::FailedToParseRequest(reason)) => {
                assert_eq!(reason, "file name not found");
            }
            other => panic!("expected a parse failure for {:?}, got {:?}", body, other),
        }
    }
}

#[test]
fn error_text_reported_to_the_client_is_nonempty() {
    let err = extract_file_name(b"nonsense").unwrap_err();
    assert!(!err.message().is_empty());
}
