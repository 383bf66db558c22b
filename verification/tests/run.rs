use fixparser::FixMessage;
use fixtojson::config::get_args;
use fixtojson::session::{run, Step};
use fixtojson::source::SourceKind;
use flate2::write::GzEncoder;
use flate2::Compression;
use std::io::Write;

/// What a run wrote and how it ended.
struct Outcome {
    stdout: Vec<String>,
    stderr: Vec<String>,
    code: i32,
    reads: Vec<(String, SourceKind)>,
}

/// Plays the caller's part: answers each read from `sources`, by name, and
/// decodes each line with fixparser.
fn drive(files: &[&str], sources: &[(&str, Result<Vec<u8>, String>)]) -> Outcome {
    let config = get_args(files.iter().map(|f| f.to_string()).collect()).unwrap();
    let mut session = run(config);
    let mut outcome = Outcome { stdout: Vec::new(), stderr: Vec::new(), code: -1, reads: Vec::new() };
    for _ in 0..10_000 {
        let (next, step) = session.poll();
        session = next;
        match step {
            Step::Read { name, kind } => {
                let read = sources
                    .iter()
                    .find(|(n, _)| *n == name)
                    .map(|(_, r)| r.clone())
                    .unwrap_or(Err("No such file or directory (os error 2)".to_string()));
                outcome.reads.push((name, kind));
                session = session.source(read);
            }
            Step::Decode { line } => {
                let decoded = FixMessage::from_tag_value(&line).map(|m| m.to_json().to_string());
                session = session.decoded(decoded);
            }
            Step::Print { text } => outcome.stdout.push(text),
            Step::Warn { text } => outcome.stderr.push(text),
            Step::Exit { code } => {
                outcome.code = code;
                return outcome;
            }
        }
    }
    panic!("the run did not end");
}

fn gzip(content: &[u8]) -> Vec<u8> {
    let mut encoder = GzEncoder::new(Vec::new(), Compression::default());
    encoder.write_all(content).unwrap();
    encoder.finish().unwrap()
}

const MINLEN: &str = "8=FIX.4.4|10=209\n";
const MINLEN_JSON: &str = r#"{"8":"FIX.4.4","10":"209"}"#;

#[test]
fn skips_bad_file() {
    let bad = "qZ3r8Kp";
    let outcome = drive(&[bad], &[]);
    assert_eq!(outcome.code, 0);
    assert!(outcome.stdout.is_empty());
    assert_eq!(
        outcome.stderr,
        vec![format!("Failed to open {}: No such file or directory (os error 2)", bad)]
    );
}

#[test]
fn skips_bad_gzip() {
    let outcome = drive(
        &["tests/inputs/bad_gzip.txt.gz"],
        &[("tests/inputs/bad_gzip.txt.gz", Ok(MINLEN.as_bytes().to_vec()))],
    );
    assert_eq!(outcome.code, 1);
    assert!(outcome.stdout.is_empty());
    assert_eq!(outcome.stderr, vec!["invalid gzip header".to_string()]);
}

#[test]
fn minlen_stdin() {
    let outcome = drive(&["-"], &[("-", Ok(MINLEN.as_bytes().to_vec()))]);
    assert_eq!(outcome.reads, vec![("-".to_string(), SourceKind::Stdin)]);
    assert_eq!(outcome.code, 0);
    assert_eq!(outcome.stdout, vec![MINLEN_JSON.to_string()]);
    assert!(outcome.stderr.is_empty());
}

#[test]
fn minlen() {
    let name = "tests/inputs/minimal_length.txt";
    let outcome = drive(&[name], &[(name, Ok(MINLEN.as_bytes().to_vec()))]);
    assert_eq!(outcome.reads, vec![(name.to_string(), SourceKind::Plain)]);
    assert_eq!(outcome.code, 0);
    assert_eq!(outcome.stdout, vec![MINLEN_JSON.to_string()]);
    assert!(outcome.stderr.is_empty());
}

#[test]
fn ctrla() {
    let name = "tests/inputs/control_a_seperator.txt";
    let outcome = drive(&[name], &[(name, Ok(b"8=FIX.4.4\x0110=209\n".to_vec()))]);
    assert_eq!(outcome.code, 0);
    assert_eq!(outcome.stdout, vec![MINLEN_JSON.to_string()]);
}

#[test]
fn prefixed() {
    let name = "tests/inputs/prefixed.txt";
    let outcome = drive(&[name], &[(name, Ok(b"Recv | 8=FIX.4.4|10=209\n".to_vec()))]);
    assert_eq!(outcome.code, 0);
    assert_eq!(outcome.stdout, vec![MINLEN_JSON.to_string()]);
}

#[test]
fn nested1() {
    let name = "tests/inputs/nested_groups_1.txt";
    let input = b"8=FIX.4.4 | 555=2 | 604=2 | 605=F7 | 605=CGYU0 | 604=2 | 605=F7 | 605=CGYM0 | 10=209\n";
    let outcome = drive(&[name], &[(name, Ok(input.to_vec()))]);
    assert_eq!(outcome.code, 0);
    assert_eq!(
        outcome.stdout,
        vec![
            r#"{"8":"FIX.4.4","555":[{"604":[{"605":"F7"},{"605":"CGYU0"}]},{"604":[{"605":"F7"},{"605":"CGYM0"}]}],"10":"209"}"#
                .to_string()
        ]
    );
}

#[test]
fn gzipped() {
    let name = "tests/inputs/gzipped.txt.gz";
    let outcome = drive(&[name], &[(name, Ok(gzip(MINLEN.as_bytes())))]);
    assert_eq!(outcome.reads, vec![(name.to_string(), SourceKind::Gzip)]);
    assert_eq!(outcome.code, 0);
    assert_eq!(outcome.stdout, vec![MINLEN_JSON.to_string()]);
    assert!(outcome.stderr.is_empty());
}

fn lines(text: &[&str]) -> Vec<String> {
    text.iter().map(|t| t.to_string()).collect()
}

#[test]
fn repeating_group_becomes_array_of_objects() {
    // Scalar 35, then group 453 with two instances that hold 448 each.
    let input = b"8=FIX.4.4|35=1|453=2|448=3|448=5|10=100\n";
    let outcome = drive(&["in"], &[("in", Ok(input.to_vec()))]);
    assert_eq!(outcome.code, 0);
    assert_eq!(
        outcome.stdout,
        lines(&[r#"{"8":"FIX.4.4","35":"1","453":[{"448":"3"},{"448":"5"}],"10":"100"}"#])
    );
}

#[test]
fn distinct_tags_give_flat_object_in_input_order() {
    let input = b"8=FIX.4.4|9=5|35=0|49=A|56=B|10=000\n";
    let outcome = drive(&["in"], &[("in", Ok(input.to_vec()))]);
    assert_eq!(outcome.code, 0);
    assert_eq!(
        outcome.stdout,
        lines(&[r#"{"8":"FIX.4.4","9":"5","35":"0","49":"A","56":"B","10":"000"}"#])
    );
}

#[test]
fn same_line_twice_gives_same_output() {
    let input = b"8=FIX.4.4 | 555=2 | 600=A | 600=B | 10=209\n8=FIX.4.4 | 555=2 | 600=A | 600=B | 10=209\n";
    let outcome = drive(&["in"], &[("in", Ok(input.to_vec()))]);
    assert_eq!(outcome.stdout.len(), 2);
    assert_eq!(outcome.stdout[0], outcome.stdout[1]);
    assert_eq!(outcome.stdout[0], r#"{"8":"FIX.4.4","555":[{"600":"A"},{"600":"B"}],"10":"209"}"#);
}

#[test]
fn malformed_lines_get_one_notice_each_and_status_stays_zero() {
    let input = b"\n8=FIX.4.4|1\n8=FIX.4.4|10=209\nnothing here\n";
    let outcome = drive(&["in"], &[("in", Ok(input.to_vec()))]);
    assert_eq!(outcome.code, 0);
    assert!(outcome.stderr.is_empty());
    assert_eq!(
        outcome.stdout,
        lines(&[
            "Could not parse FIX message from at line 0: ",
            "Could not parse FIX message from at line 1: 8=FIX.4.4|1",
            MINLEN_JSON,
            "Could not parse FIX message from at line 3: nothing here",
        ])
    );
}

#[test]
fn empty_line_is_answered_without_decoding() {
    let config = get_args(vec!["in".to_string()]).unwrap();
    let (session, step) = run(config).poll();
    assert!(matches!(step, Step::Read { .. }));
    let session = session.source(Ok(b"\n\n".to_vec()));
    let (session, first) = session.poll();
    assert!(matches!(first, Step::Print { ref text } if text == "Could not parse FIX message from at line 0: "));
    let (session, second) = session.poll();
    assert!(matches!(second, Step::Print { ref text } if text == "Could not parse FIX message from at line 1: "));
    let (_, last) = session.poll();
    assert!(matches!(last, Step::Exit { code: 0 }));
}

#[test]
fn line_that_is_no_text_gets_a_notice() {
    let input = b"8=FIX.4.4|10=209\n8=FIX.4.4|58=\xff\xfe|10=209\n8=FIX.4.4|10=209\n";
    let outcome = drive(&["in"], &[("in", Ok(input.to_vec()))]);
    assert_eq!(outcome.code, 0);
    assert_eq!(
        outcome.stdout,
        lines(&[
            MINLEN_JSON,
            "Could not parse FIX message from at line 1: 8=FIX.4.4|58=\u{fffd}\u{fffd}|10=209",
            MINLEN_JSON,
        ])
    );
}

#[test]
fn unreadable_source_among_others_is_skipped() {
    let outcome = drive(
        &["first", "missing", "last"],
        &[
            ("first", Ok(MINLEN.as_bytes().to_vec())),
            ("missing", Err("No such file or directory (os error 2)".to_string())),
            ("last", Ok(b"8=FIX.4.4|35=0|10=000\n".to_vec())),
        ],
    );
    assert_eq!(outcome.code, 0);
    assert_eq!(
        outcome.reads,
        vec![
            ("first".to_string(), SourceKind::Plain),
            ("missing".to_string(), SourceKind::Plain),
            ("last".to_string(), SourceKind::Plain),
        ]
    );
    assert_eq!(
        outcome.stderr,
        lines(&["Failed to open missing: No such file or directory (os error 2)"])
    );
    assert_eq!(
        outcome.stdout,
        lines(&[MINLEN_JSON, r#"{"8":"FIX.4.4","35":"0","10":"000"}"#])
    );
}

#[test]
fn broken_gzip_ends_the_run_before_later_sources() {
    let outcome = drive(
        &["first", "broken.gz", "last"],
        &[
            ("first", Ok(MINLEN.as_bytes().to_vec())),
            ("broken.gz", Ok(MINLEN.as_bytes().to_vec())),
            ("last", Ok(MINLEN.as_bytes().to_vec())),
        ],
    );
    assert_eq!(outcome.code, 1);
    assert_eq!(outcome.reads.len(), 2);
    assert_eq!(outcome.stdout, lines(&[MINLEN_JSON]));
    assert_eq!(outcome.stderr, lines(&["invalid gzip header"]));
}

#[test]
fn truncated_gzip_ends_the_run_without_output() {
    let mut bytes = gzip(b"8=FIX.4.4|10=209\n8=FIX.4.4|10=209\n");
    bytes.truncate(bytes.len() - 9);
    let outcome = drive(&["cut.gz"], &[("cut.gz", Ok(bytes))]);
    assert_eq!(outcome.code, 1);
    assert!(outcome.stdout.is_empty());
    assert_eq!(outcome.stderr.len(), 1);
}

#[test]
fn line_numbers_start_again_with_each_source() {
    let outcome = drive(
        &["a", "b"],
        &[("a", Ok(b"x\ny\n".to_vec())), ("b", Ok(b"z\n".to_vec()))],
    );
    assert_eq!(
        outcome.stdout,
        lines(&[
            "Could not parse FIX message from at line 0: x",
            "Could not parse FIX message from at line 1: y",
            "Could not parse FIX message from at line 0: z",
        ])
    );
}

#[test]
fn no_arguments_reads_standard_input() {
    let outcome = drive(&[], &[("-", Ok(MINLEN.as_bytes().to_vec()))]);
    assert_eq!(outcome.reads, vec![("-".to_string(), SourceKind::Stdin)]);
    assert_eq!(outcome.stdout, lines(&[MINLEN_JSON]));
    assert_eq!(outcome.code, 0);
}

#[test]
fn pending_request_is_repeated_until_answered() {
    let config = get_args(vec!["in".to_string()]).unwrap();
    let (session, first) = run(config).poll();
    let (session, again) = session.poll();
    assert!(matches!(first, Step::Read { ref name, kind: SourceKind::Plain } if name == "in"));
    assert!(matches!(again, Step::Read { ref name, kind: SourceKind::Plain } if name == "in"));
    // A decoding that nobody asked for changes nothing.
    let session = session.decoded(Some("{}".to_string()));
    let session = session.source(Ok(MINLEN.as_bytes().to_vec()));
    let (session, ask) = session.poll();
    let (session, ask_again) = session.poll();
    assert!(matches!(ask, Step::Decode { ref line } if line == "8=FIX.4.4|10=209"));
    assert!(matches!(ask_again, Step::Decode { ref line } if line == "8=FIX.4.4|10=209"));
    // Bytes that nobody asked for change nothing.
    let session = session.source(Ok(b"other\n".to_vec()));
    let session = session.decoded(Some(MINLEN_JSON.to_string()));
    let (session, out) = session.poll();
    assert!(matches!(out, Step::Print { ref text } if text == MINLEN_JSON));
    let (session, end) = session.poll();
    assert!(matches!(end, Step::Exit { code: 0 }));
    let (_, still) = session.poll();
    assert!(matches!(still, Step::Exit { code: 0 }));
}

#[test]
fn content_without_reading_skips_the_decoder_for_gzip() {
    let config = get_args(vec!["in.gz".to_string()]).unwrap();
    let (session, _) = run(config).poll();
    let session = session.content(Err("corrupt deflate stream".to_string()));
    let (session, warn) = session.poll();
    assert!(matches!(warn, Step::Warn { ref text } if text == "corrupt deflate stream"));
    let (_, end) = session.poll();
    assert!(matches!(end, Step::Exit { code: 1 }));
}
