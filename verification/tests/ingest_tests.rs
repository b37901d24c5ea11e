use cloudwatch_output_redirector::event::LogEvent;
use cloudwatch_output_redirector::ingest::{
    ingest, tag_bytes, tag_line, Channel, IngestConfig, IngestError, IngestStep, LineRead,
};

fn config(tag_stream_names: bool, tee_output: bool) -> IngestConfig {
    IngestConfig { tag_stream_names, tee_output }
}

#[test]
fn tags_are_the_bracketed_channel_names() {
    assert_eq!(tag_bytes(Channel::Stdout), b"[STDOUT] ".to_vec());
    assert_eq!(tag_bytes(Channel::Stderr), b"[STDERR] ".to_vec());
}

#[test]
fn tag_line_puts_the_tag_in_front() {
    let line = b"hello world".to_vec();
    assert_eq!(tag_line(&config(true, false), Channel::Stdout, &line), b"[STDOUT] hello world".to_vec());
    assert_eq!(tag_line(&config(true, true), Channel::Stderr, &line), b"[STDERR] hello world".to_vec());
}

#[test]
fn tag_line_without_tagging_keeps_the_line() {
    let line = b"hello world".to_vec();
    assert_eq!(tag_line(&config(false, false), Channel::Stdout, &line), line);
    assert_eq!(tag_line(&config(false, true), Channel::Stderr, &Vec::new()), Vec::<u8>::new());
}

#[test]
fn tag_counts_toward_the_message_length() {
    let line = vec![b'a'; 100];
    assert_eq!(tag_line(&config(true, false), Channel::Stdout, &line).len(), 109);
}

#[test]
fn ingest_of_a_line_appends_an_event_with_the_receive_time() {
    let step = ingest(&config(true, false), Channel::Stderr, LineRead::Line(b"oops".to_vec()), 1234);
    match step {
        Ok(IngestStep::Append { event, passthrough }) => {
            assert_eq!(event, LogEvent { message: b"[STDERR] oops".to_vec(), timestamp: 1234 });
            assert_eq!(passthrough, None);
        },
        other => panic!("unexpected step: {:?}", other),
    }
}

#[test]
fn ingest_mirrors_the_untagged_line_when_tee_is_on() {
    let step = ingest(&config(true, true), Channel::Stdout, LineRead::Line(b"out".to_vec()), -5);
    match step {
        Ok(IngestStep::Append { event, passthrough }) => {
            assert_eq!(event, LogEvent { message: b"[STDOUT] out".to_vec(), timestamp: -5 });
            assert_eq!(passthrough, Some(b"out".to_vec()));
        },
        other => panic!("unexpected step: {:?}", other),
    }
}

#[test]
fn ingest_without_tagging_stores_the_line_itself() {
    let step = ingest(&config(false, true), Channel::Stdout, LineRead::Line(b"plain".to_vec()), 8);
    match step {
        Ok(IngestStep::Append { event, passthrough }) => {
            assert_eq!(event, LogEvent { message: b"plain".to_vec(), timestamp: 8 });
            assert_eq!(passthrough, Some(b"plain".to_vec()));
        },
        other => panic!("unexpected step: {:?}", other),
    }
}

#[test]
fn end_of_stream_finishes_the_ingestion() {
    let step = ingest(&config(true, true), Channel::Stdout, LineRead::EndOfStream, 0);
    assert!(matches!(step, Ok(IngestStep::Finished)));
}

#[test]
fn failed_read_is_an_error_of_the_channel() {
    let step = ingest(&config(true, true), Channel::Stderr, LineRead::Failed, 0);
    assert!(matches!(step, Err(IngestError::ReadFailed)));
}
