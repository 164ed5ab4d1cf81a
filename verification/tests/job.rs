use text_to_speech::speech::is_success;
use text_to_speech::Action;
use text_to_speech::Event;
use text_to_speech::Phase;
use text_to_speech::TextToSpeech;
use text_to_speech::TtsError;

/// Drives a job as a driver would whose endpoint answers with `status` and a
/// body of `chunks`, and whose sink takes every chunk. Returns the URL asked
/// for, what the sink holds, and the last action.
fn drive(text: &str, language: &str, status: u16, chunks: &[Vec<u8>]) -> (String, Vec<u8>, Action) {
    let mut job = TextToSpeech::new(language);
    let mut sink: Vec<u8> = Vec::new();
    let mut url = String::new();
    let mut body = chunks.iter();
    let mut action = job.synthesize_text(text).unwrap();
    loop {
        let event = match action {
            Action::Get(asked) => {
                url = asked;
                Event::Response(status)
            }
            Action::NextChunk => match body.next() {
                Some(chunk) => Event::Chunk(chunk.clone()),
                None => Event::EndOfBody,
            },
            Action::Append(bytes) => {
                sink.extend_from_slice(&bytes);
                Event::Written
            }
            last => return (url, sink, last),
        };
        action = job.advance(event).unwrap();
    }
}

#[test]
fn chunks_reach_the_sink_in_order() {
    let bodies: Vec<Vec<Vec<u8>>> = vec![
        vec![],
        vec![vec![]],
        vec![vec![1]],
        vec![vec![1, 2, 3], vec![4], vec![5, 6]],
        vec![vec![], vec![9, 9], vec![], vec![], vec![9]],
        vec![vec![7; 1000], vec![8; 3], vec![7; 1000]],
        (0u8..=255).map(|b| vec![b]).collect(),
    ];
    for chunks in bodies {
        let (_, sink, last) = drive("text", "en", 200, &chunks);
        assert_eq!(sink, chunks.concat());
        assert_eq!(last, Action::Finish);
    }
}

#[test]
fn single_empty_chunk_leaves_an_empty_sink() {
    let mut job = TextToSpeech::new("en");
    job.synthesize_text("x").unwrap();
    assert_eq!(job.advance(Event::Response(200)), Some(Action::NextChunk));
    assert_eq!(job.advance(Event::Chunk(vec![])), Some(Action::Append(vec![])));
    assert_eq!(job.advance(Event::Written), Some(Action::NextChunk));
    assert_eq!(job.advance(Event::EndOfBody), Some(Action::Finish));
    assert_eq!(job.phase(), Phase::Done);
}

#[test]
fn success_in_two_chunks() {
    let chunks = vec![vec![0x49, 0x44, 0x33, 0x04], vec![0x00, 0xff, 0xfb, 0x90, 0x64]];
    let (url, sink, last) = drive("Hello, world!", "en-US", 200, &chunks);
    assert_eq!(sink, vec![0x49, 0x44, 0x33, 0x04, 0x00, 0xff, 0xfb, 0x90, 0x64]);
    assert_eq!(last, Action::Finish);
    assert_eq!(
        url,
        "https://translate.google.fr/translate_tts?ie=UTF-8&q=Hello%2C%20world%21&tl=en-US&total=1&idx=0&textlen=13&client=tw-ob"
    );
    assert!(url.contains("q=Hello%2C%20world%21&tl=en-US"));
    assert!(url.contains("textlen=13"));
}

#[test]
fn phases_of_a_successful_job() {
    let mut job = TextToSpeech::new("en-US");
    assert_eq!(job.phase(), Phase::Idle);
    let first = job.synthesize_text("Hello, world!");
    assert!(matches!(first, Some(Action::Get(_))));
    assert_eq!(job.phase(), Phase::Requesting);
    assert_eq!(job.advance(Event::Response(200)), Some(Action::NextChunk));
    assert_eq!(job.phase(), Phase::Streaming);
    assert_eq!(job.advance(Event::Chunk(vec![1, 2])), Some(Action::Append(vec![1, 2])));
    assert_eq!(job.phase(), Phase::Writing);
    assert_eq!(job.advance(Event::Written), Some(Action::NextChunk));
    assert_eq!(job.phase(), Phase::Streaming);
    assert_eq!(job.advance(Event::EndOfBody), Some(Action::Finish));
    assert_eq!(job.phase(), Phase::Done);
}

#[test]
fn not_found_ends_the_job_silently() {
    let (_, sink, last) = drive("Hello, world!", "en-US", 404, &[vec![1, 2, 3]]);
    assert!(sink.is_empty());
    assert_eq!(last, Action::Finish);

    let mut job = TextToSpeech::new("en-US");
    job.synthesize_text("Hello, world!").unwrap();
    assert_eq!(job.advance(Event::Response(404)), Some(Action::Finish));
    assert_eq!(job.phase(), Phase::Done);
    assert_eq!(job.advance(Event::Chunk(vec![1])), None);
    assert_eq!(job.phase(), Phase::Done);
}

#[test]
fn every_status_outside_the_success_range_ends_the_job() {
    for status in [0u16, 100, 199, 300, 301, 404, 500, 999, u16::MAX] {
        let mut job = TextToSpeech::new("en");
        job.synthesize_text("x").unwrap();
        assert_eq!(job.advance(Event::Response(status)), Some(Action::Finish));
        assert_eq!(job.phase(), Phase::Done);
    }
    for status in [200u16, 201, 204, 206, 299] {
        let mut job = TextToSpeech::new("en");
        job.synthesize_text("x").unwrap();
        assert_eq!(job.advance(Event::Response(status)), Some(Action::NextChunk));
        assert_eq!(job.phase(), Phase::Streaming);
    }
}

#[test]
fn success_range_is_200_to_299() {
    assert!(!is_success(199));
    assert!(is_success(200));
    assert!(is_success(299));
    assert!(!is_success(300));
    assert!(!is_success(0));
}

#[test]
fn connection_failure_aborts_with_a_request_error() {
    let mut job = TextToSpeech::new("en-US");
    job.synthesize_text("Hello, world!").unwrap();
    let action = job.advance(Event::TransportFailed(String::from("connection refused")));
    assert_eq!(
        action,
        Some(Action::Abort(TtsError::RequestError(String::from("connection refused"))))
    );
    assert_eq!(job.phase(), Phase::Failed);
    assert_eq!(job.advance(Event::Chunk(vec![1])), None);
    assert_eq!(job.advance(Event::Written), None);
    assert_eq!(job.phase(), Phase::Failed);
}

#[test]
fn failure_in_the_body_aborts_after_what_was_written() {
    let mut job = TextToSpeech::new("en");
    job.synthesize_text("x").unwrap();
    job.advance(Event::Response(200)).unwrap();
    assert_eq!(job.advance(Event::Chunk(vec![1, 2])), Some(Action::Append(vec![1, 2])));
    assert_eq!(job.advance(Event::Written), Some(Action::NextChunk));
    assert_eq!(
        job.advance(Event::TransportFailed(String::from("reset"))),
        Some(Action::Abort(TtsError::RequestError(String::from("reset"))))
    );
    assert_eq!(job.phase(), Phase::Failed);
}

#[test]
fn sink_failure_aborts_with_an_io_error() {
    let mut job = TextToSpeech::new("en");
    job.synthesize_text("x").unwrap();
    job.advance(Event::Response(200)).unwrap();
    job.advance(Event::Chunk(vec![1, 2])).unwrap();
    assert_eq!(
        job.advance(Event::SinkFailed(String::from("disk full"))),
        Some(Action::Abort(TtsError::IoError(String::from("disk full"))))
    );
    assert_eq!(job.phase(), Phase::Failed);
}

#[test]
fn events_out_of_turn_change_nothing() {
    let mut job = TextToSpeech::new("en");
    assert_eq!(job.advance(Event::Response(200)), None);
    assert_eq!(job.advance(Event::EndOfBody), None);
    assert_eq!(job.phase(), Phase::Idle);
    job.synthesize_text("x").unwrap();
    assert_eq!(job.advance(Event::Chunk(vec![1])), None);
    assert_eq!(job.advance(Event::EndOfBody), None);
    assert_eq!(job.advance(Event::Written), None);
    assert_eq!(job.advance(Event::SinkFailed(String::from("no"))), None);
    assert_eq!(job.phase(), Phase::Requesting);
    job.advance(Event::Response(200)).unwrap();
    assert_eq!(job.advance(Event::Response(200)), None);
    assert_eq!(job.advance(Event::Written), None);
    assert_eq!(job.advance(Event::SinkFailed(String::from("no"))), None);
    assert_eq!(job.phase(), Phase::Streaming);
    job.advance(Event::Chunk(vec![1])).unwrap();
    assert_eq!(job.advance(Event::Chunk(vec![2])), None);
    assert_eq!(job.advance(Event::EndOfBody), None);
    assert_eq!(job.advance(Event::Response(200)), None);
    assert_eq!(job.advance(Event::TransportFailed(String::from("no"))), None);
    assert_eq!(job.phase(), Phase::Writing);
}

#[test]
fn a_job_begins_once() {
    let mut job = TextToSpeech::new("en");
    assert!(job.synthesize_text("one").is_some());
    assert_eq!(job.synthesize_text("two"), None);
    assert_eq!(job.phase(), Phase::Requesting);
    job.advance(Event::Response(500)).unwrap();
    assert_eq!(job.synthesize_text("three"), None);
    assert_eq!(job.phase(), Phase::Done);
}
