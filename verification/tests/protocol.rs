use animus_wire::error::ProtocolError;
use animus_wire::protocol::{Action, Command, Outcome, Report};

fn every_action() -> Vec<Action> {
    vec![
        Action::Query,
        Action::Name,
        Action::Version,
        Action::Status,
        Action::ListStructures,
        Action::ListOutputs,
        Action::ListInputs,
        Action::ReportInputs,
        Action::Wake,
        Action::Save,
        Action::Sleep,
        Action::Terminate,
        Action::Ignore,
        Action::ConnectTract(vec![]),
        Action::ConnectTract(vec![1, 2, 3, 255]),
    ]
}

#[test]
fn round_trip_command_every_action() {
    for action in every_action() {
        let cmd = Command::new("animus-1", action);
        let bytes = cmd.encode().unwrap();
        let decoded = Command::decode(&bytes).unwrap();
        assert_eq!(decoded, cmd);
    }
}

#[test]
fn round_trip_command_unicode_name() {
    let cmd = Command::new("animus \u{263a} \u{4e16}\u{754c}", Action::Wake);
    let bytes = cmd.encode().unwrap();
    assert_eq!(Command::decode(&bytes).unwrap(), cmd);
}

#[test]
fn round_trip_command_empty_name() {
    let cmd = Command::new("", Action::Terminate);
    let bytes = cmd.encode().unwrap();
    assert_eq!(bytes, vec![0x00, 0x00, 11]);
    assert_eq!(Command::decode(&bytes).unwrap(), cmd);
}

#[test]
fn round_trip_report_every_outcome() {
    let outcomes = vec![
        Outcome::Success,
        Outcome::Fail,
        Outcome::Return(String::from("version 1.2.3")),
        Outcome::Return(String::new()),
    ];
    for outcome in outcomes {
        for action in every_action() {
            let report = Report::new("animus-1", action, outcome.clone());
            let bytes = report.encode().unwrap();
            let decoded = Report::decode(&bytes).unwrap();
            assert_eq!(decoded, report);
        }
    }
}

#[test]
fn sentinel_fields() {
    let c = Command::ignore();
    assert_eq!(c.name, "");
    assert_eq!(c.action, Action::Ignore);
}

#[test]
fn garbage_decodes_to_sentinel() {
    assert_eq!(Command::decode_or_ignore(&[0xde, 0xad, 0xbe, 0xef]), Command::ignore());
    assert_eq!(Command::decode_or_ignore(&[]), Command::ignore());
    let valid = Command::new("x", Action::Status).encode().unwrap();
    assert_eq!(
        Command::decode_or_ignore(&valid),
        Command::new("x", Action::Status)
    );
}

#[test]
fn command_tag_rejection() {
    // An empty name followed by a discriminant past the variant set.
    assert_eq!(Command::decode(&[0x00, 0x00, 14]).unwrap_err(), ProtocolError::Decode);
    assert_eq!(Command::decode(&[0x00, 0x00, 200]).unwrap_err(), ProtocolError::Decode);
}

#[test]
fn report_outcome_tag_rejection() {
    // Name "x", action Status, then an outcome discriminant past the set.
    assert_eq!(
        Report::decode(&[0x00, 0x01, b'x', 3, 3]).unwrap_err(),
        ProtocolError::Decode
    );
    assert_eq!(
        Report::decode(&[0x00, 0x01, b'x', 3, 200]).unwrap_err(),
        ProtocolError::Decode
    );
}

#[test]
fn truncation_fails_decode() {
    for action in every_action() {
        let cmd = Command::new("animus-1", action);
        let mut bytes = cmd.encode().unwrap();
        bytes.pop();
        assert_eq!(Command::decode(&bytes).unwrap_err(), ProtocolError::Decode);
    }
}

#[test]
fn report_truncation_fails_decode() {
    let report = Report::new("n", Action::Version, Outcome::Return(String::from("v9")));
    let mut bytes = report.encode().unwrap();
    bytes.pop();
    assert_eq!(Report::decode(&bytes).unwrap_err(), ProtocolError::Decode);
}

#[test]
fn trailing_bytes_fail_decode() {
    let mut bytes = Command::new("a", Action::Sleep).encode().unwrap();
    bytes.push(0);
    assert_eq!(Command::decode(&bytes).unwrap_err(), ProtocolError::Decode);
}

#[test]
fn invalid_utf8_name_fails_decode() {
    // A 1-byte name whose body 0xFF is not valid UTF-8, then the Ignore tag.
    assert_eq!(
        Command::decode(&[0x00, 0x01, 0xff, 12]).unwrap_err(),
        ProtocolError::Decode
    );
}

#[test]
fn length_prefix_is_big_endian() {
    // 0x00 0x05 read big-endian announces exactly the 5 text bytes.
    let bytes = [0x00, 0x05, b'h', b'e', b'l', b'l', b'o', 8];
    let cmd = Command::decode(&bytes).unwrap();
    assert_eq!(cmd.name, "hello");
    assert_eq!(cmd.name.chars().count(), 5);
    assert_eq!(cmd.action, Action::Wake);
    // Encoding writes the same big-endian layout byte for byte.
    assert_eq!(cmd.encode().unwrap(), bytes.to_vec());
    // The little-endian reading of the same length would be 0x0500 and
    // must not be accepted.
    let little = [0x05, 0x00, b'h', b'e', b'l', b'l', b'o', 8];
    assert_eq!(Command::decode(&little).unwrap_err(), ProtocolError::Decode);
}

#[test]
fn connect_tract_exact_bytes() {
    let cmd = Command::new("a", Action::ConnectTract(vec![9, 8]));
    let bytes = cmd.encode().unwrap();
    assert_eq!(bytes, vec![0x00, 0x01, b'a', 13, 0x00, 0x02, 9, 8]);
    assert_eq!(Command::decode(&bytes).unwrap(), cmd);
}

#[test]
fn report_exact_bytes() {
    let report = Report::new("n", Action::Status, Outcome::Return(String::from("ok")));
    let bytes = report.encode().unwrap();
    assert_eq!(bytes, vec![0x00, 0x01, b'n', 3, 2, 0x00, 0x02, b'o', b'k']);
    assert_eq!(Report::decode(&bytes).unwrap(), report);
}

#[test]
fn oversize_fields_fail_encode() {
    let long = "a".repeat(0x10000);
    assert_eq!(
        Command::new(&long, Action::Wake).encode().unwrap_err(),
        ProtocolError::Encode
    );
    assert_eq!(
        Command::new("x", Action::ConnectTract(vec![0; 0x10000])).encode().unwrap_err(),
        ProtocolError::Encode
    );
    assert_eq!(
        Report::new("x", Action::Query, Outcome::Return(long)).encode().unwrap_err(),
        ProtocolError::Encode
    );
}

#[test]
fn largest_fitting_name_round_trips() {
    let name = "b".repeat(0xffff);
    let cmd = Command::new(&name, Action::Query);
    let bytes = cmd.encode().unwrap();
    assert_eq!(bytes[0], 0xff);
    assert_eq!(bytes[1], 0xff);
    assert_eq!(Command::decode(&bytes).unwrap(), cmd);
}

#[test]
fn action_renders_as_text() {
    assert_eq!(Action::Wake.to_text(), "Wake");
    assert_eq!(Action::Query.to_text(), "Query");
    assert_eq!(Action::ListStructures.to_text(), "ListStructures");
    assert_eq!(Action::ConnectTract(vec![1]).to_text(), "ConnectTract");
}

#[test]
fn outcome_renders_as_text() {
    assert_eq!(Outcome::Success.to_text(), "Success");
    assert_eq!(Outcome::Fail.to_text(), "Fail");
    assert_eq!(
        Outcome::Return(String::from("direct payload")).to_text(),
        "direct payload"
    );
}

#[test]
fn error_renders_as_text() {
    assert_eq!(ProtocolError::Io.to_text(), "IO operation failed");
    assert_eq!(ProtocolError::Decode.to_text(), "Failed to Decode message");
    assert_eq!(ProtocolError::Encode.to_text(), "Failed to Encode message");
}

// A runtime stub with the collaborator shape `(name, Action) -> Outcome`.
fn stub_runtime(_name: &str, _action: &Action) -> Outcome {
    Outcome::Success
}

#[test]
fn dispatch_builds_the_echoing_report() {
    let cmd = Command::new("x", Action::Status);
    let outcome = stub_runtime(&cmd.name, &cmd.action);
    let report = Report::new("responder", cmd.action.clone(), outcome);
    assert_eq!(
        report,
        Report {
            name: String::from("responder"),
            action: Action::Status,
            outcome: Outcome::Success,
        }
    );
    // The reply survives its own encode/decode cycle.
    let bytes = report.encode().unwrap();
    assert_eq!(Report::decode(&bytes).unwrap(), report);
}
