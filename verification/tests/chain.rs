use crab::args::Args;
use crab::errors::CrabError;
use crab::reader::{get_sources, Action, Event, InputSource, Reader};
use crab::writer::OutWriter;

fn tokens(list: &[&str]) -> Vec<String> {
    list.iter().map(|t| t.to_string()).collect()
}

fn is_stdin(source: &InputSource) -> bool {
    matches!(source, InputSource::Stdin)
}

fn is_file(source: &InputSource, path: &str) -> bool {
    match source {
        InputSource::File(p) => p == path,
        InputSource::Stdin => false,
    }
}

fn asks_open(action: &Action, path: &str) -> bool {
    match action {
        Action::Open(p) => p == path,
        _ => false,
    }
}

#[test]
fn no_token_means_standard_input() {
    let sources = get_sources(&[]);
    assert_eq!(sources.len(), 1);
    assert!(is_stdin(&sources[0]));
}

#[test]
fn tokens_resolve_in_order() {
    let sources = get_sources(&tokens(&["a.txt", "-", "a.txt", "--", "", "-x", "-"]));
    assert_eq!(sources.len(), 7);
    assert!(is_file(&sources[0], "a.txt"));
    assert!(is_stdin(&sources[1]));
    assert!(is_file(&sources[2], "a.txt"));
    assert!(is_file(&sources[3], "--"));
    assert!(is_file(&sources[4], ""));
    assert!(is_file(&sources[5], "-x"));
    assert!(is_stdin(&sources[6]));
}

#[test]
fn a_source_that_does_not_open_is_passed_over() {
    let mut reader = Reader::new(get_sources(&tokens(&["missing.txt", "ok.txt"])));
    let mut writer = OutWriter::new(Args::none());
    let mut output: Vec<u8> = Vec::new();
    let mut reports: Vec<String> = Vec::new();

    assert!(asks_open(&reader.poll(), "missing.txt"));
    let event = Event::OpenFailed("No such file or directory (os error 2)".to_string());
    assert!(reader.expects(&event));
    if let Some(e) = reader.handle(event) {
        reports.push(e.show("crab"));
    }

    assert!(asks_open(&reader.poll(), "ok.txt"));
    assert!(reader.handle(Event::Opened).is_none());
    assert!(matches!(reader.poll(), Action::ReadFile));
    output.extend(writer.write_all(b"ok\n"));
    assert!(reader.handle(Event::Read(3)).is_none());
    assert!(matches!(reader.poll(), Action::ReadFile));
    assert!(reader.handle(Event::Read(0)).is_none());
    assert!(matches!(reader.poll(), Action::Finish));
    output.extend(writer.finish());

    assert_eq!(output, b"ok\n".to_vec());
    assert_eq!(
        reports,
        vec!["crab: missing.txt: No such file or directory (os error 2)".to_string()]
    );
    assert_eq!(reader.exit_code() & 1, 1);
    assert_eq!(reader.exit_code(), 1);
}

#[test]
fn fail_on_read() {
    let mut reader = Reader::new(get_sources(&tokens(&["test_inputs/no_permission.txt"])));
    assert!(asks_open(&reader.poll(), "test_inputs/no_permission.txt"));
    let report = reader
        .handle(Event::OpenFailed("Permission denied (os error 13)".to_string()))
        .map(|e| e.show("crab"));
    assert!(report.unwrap().contains(" Permission denied"));
    assert!(matches!(reader.poll(), Action::Finish));
    assert_ne!(reader.exit_code(), 0);
}

#[test]
fn a_failed_read_keeps_what_was_delivered() {
    let mut reader = Reader::new(get_sources(&tokens(&["a", "b"])));
    let mut writer = OutWriter::new(Args::none());
    let mut output: Vec<u8> = Vec::new();

    assert!(asks_open(&reader.poll(), "a"));
    reader.handle(Event::Opened);
    assert!(matches!(reader.poll(), Action::ReadFile));
    output.extend(writer.write_all(b"part\nial"));
    reader.handle(Event::Read(8));
    assert!(matches!(reader.poll(), Action::ReadFile));
    let report = reader.handle(Event::ReadFailed("Input/output error (os error 5)".to_string()));
    match report {
        Some(e) => {
            assert_eq!(e.message(), "Error reading file a: Input/output error (os error 5)");
            assert_eq!(
                e.show("/bin/crab"),
                "/bin/crab: Error reading file a: Input/output error (os error 5)"
            );
        }
        None => panic!("a failed read is reported"),
    }
    assert_eq!(reader.exit_code(), 2);

    assert!(asks_open(&reader.poll(), "b"));
    reader.handle(Event::Opened);
    assert!(matches!(reader.poll(), Action::ReadFile));
    output.extend(writer.write_all(b" line\n"));
    reader.handle(Event::Read(6));
    reader.handle(Event::Read(0));
    assert!(matches!(reader.poll(), Action::Finish));
    output.extend(writer.finish());
    assert_eq!(output, b"part\nial line\n".to_vec());
    assert_eq!(reader.exit_code(), 2);
}

#[test]
fn both_kinds_of_failure_add_up() {
    let mut reader = Reader::new(get_sources(&tokens(&["a", "b", "c"])));
    assert_eq!(reader.exit_code(), 0);
    reader.poll();
    reader.handle(Event::Opened);
    reader.handle(Event::ReadFailed("broken".to_string()));
    assert_eq!(reader.exit_code(), 2);
    reader.poll();
    reader.handle(Event::OpenFailed("missing".to_string()));
    assert_eq!(reader.exit_code(), 3);
    reader.poll();
    reader.handle(Event::OpenFailed("missing".to_string()));
    assert_eq!(reader.exit_code(), 3);
    assert!(matches!(reader.poll(), Action::Finish));
    assert!(matches!(reader.poll(), Action::Finish));
}

#[test]
fn standard_input_on_a_terminal_is_passed_over() {
    let mut reader = Reader::new(get_sources(&tokens(&["-", "a", "-"])));
    assert!(reader.awaits_stdin());
    assert!(reader.advance(true).is_none());
    assert!(!reader.awaits_stdin());
    match reader.advance(true) {
        Some(action) => assert!(asks_open(&action, "a")),
        None => panic!("a file is not passed over"),
    }
    reader.handle(Event::Opened);
    assert!(matches!(reader.advance(true), Some(Action::ReadFile)));
    reader.handle(Event::Read(0));
    assert!(reader.awaits_stdin());
    assert!(matches!(reader.advance(false), Some(Action::ReadStdin)));
    assert!(!reader.awaits_stdin());
    assert!(matches!(reader.advance(true), Some(Action::ReadStdin)));
    assert!(reader.expects(&Event::Read(1)));
    assert!(!reader.expects(&Event::Opened));
    let report = reader.handle(Event::ReadFailed("gone".to_string()));
    match report {
        Some(e) => assert_eq!(e.show("crab"), "crab: Error reading Stdin: gone"),
        None => panic!("a failed read is reported"),
    }
    assert!(matches!(reader.advance(false), Some(Action::Finish)));
    assert_eq!(reader.exit_code(), 2);
}

#[test]
fn events_are_expected_in_their_state() {
    let mut reader = Reader::new(get_sources(&tokens(&["a"])));
    assert!(reader.expects(&Event::Opened));
    assert!(reader.expects(&Event::OpenFailed(String::new())));
    assert!(!reader.expects(&Event::Read(0)));
    assert!(!reader.expects(&Event::ReadFailed(String::new())));
    reader.handle(Event::Opened);
    assert!(!reader.expects(&Event::Opened));
    assert!(reader.expects(&Event::Read(0)));
    reader.handle(Event::Read(0));
    assert!(!reader.expects(&Event::Opened));
    assert!(!reader.expects(&Event::Read(0)));
}

#[test]
fn reports_name_the_source() {
    let open = CrabError::OpenError("dir/file".to_string(), "denied".to_string());
    assert_eq!(open.message(), "dir/file: denied");
    assert_eq!(open.show("crab"), "crab: dir/file: denied");
    let read = CrabError::ReadError(InputSource::Stdin, "closed".to_string());
    assert_eq!(read.message(), "Error reading Stdin: closed");
    let read = CrabError::ReadError(InputSource::File("x".to_string()), "closed".to_string());
    assert_eq!(read.show("prog"), "prog: Error reading file x: closed");
}

#[test]
fn standard_input_is_read_or_passed_over() {
    let mut reader = Reader::new(get_sources(&tokens(&["-", "-"])));
    let mut asked = 0;
    loop {
        match reader.poll() {
            Action::ReadStdin => {
                asked += 1;
                assert!(reader.expects(&Event::Read(0)));
                reader.handle(Event::Read(0));
            }
            Action::Finish => break,
            other => panic!("nothing to open here, but asked {:?}", other),
        }
    }
    assert!(asked <= 2);
    assert_eq!(reader.exit_code(), 0);
    assert!(matches!(reader.poll(), Action::Finish));
}
