use hdr_auto::download::{
    download_bytes, http_error_message, http_status_code, DownloadError, DownloadReply, DownloadStep,
};

fn reply(ok: bool, status: u32, chunk: &[u8]) -> DownloadReply {
    DownloadReply { ok, status, chunk: chunk.to_vec() }
}

fn run(replies: Vec<DownloadReply>) -> DownloadStep {
    let mut step = DownloadStep::OpenSession;
    for reply in replies {
        step = download_bytes(step, reply);
    }
    step
}

fn opened(status: u32) -> Vec<DownloadReply> {
    vec![reply(true, 0, b""), reply(true, 0, b""), reply(true, status, b"")]
}

#[test]
fn a_file_is_read_to_its_end() {
    let mut replies = opened(200);
    replies.push(reply(true, 0, b"game"));
    replies.push(reply(true, 0, b".exe\n"));
    replies.push(reply(true, 0, b""));
    match run(replies) {
        DownloadStep::Done { bytes } => assert_eq!(bytes, b"game.exe\n"),
        step => panic!("not done: {step:?}"),
    }
}

#[test]
fn an_empty_file_is_a_file() {
    let mut replies = opened(200);
    replies.push(reply(true, 0, b""));
    assert!(matches!(run(replies), DownloadStep::Done { bytes } if bytes.is_empty()));
}

#[test]
fn any_failing_call_ends_the_download() {
    for n in 0..5 {
        let mut replies = opened(200);
        replies.push(reply(true, 0, b"game"));
        replies.push(reply(true, 0, b"more"));
        replies[n].ok = false;
        assert!(matches!(run(replies), DownloadStep::Failed(DownloadError::Os)));
    }
}

#[test]
fn other_statuses_are_failures() {
    assert!(matches!(run(opened(404)), DownloadStep::Failed(DownloadError::HttpStatus(404))));
    assert!(matches!(run(opened(200)), DownloadStep::Read { bytes } if bytes.is_empty()));
    assert_eq!(http_error_message(404), "default game list download returned HTTP 404");
    assert_eq!(http_error_message(0), "default game list download returned HTTP 0");
    assert_eq!(http_status_code(true, 503), Ok(503));
    assert_eq!(http_status_code(false, 503), Err(DownloadError::Os));
}

#[test]
fn an_end_stays_an_end() {
    let done = DownloadStep::Done { bytes: vec![1] };
    assert!(matches!(download_bytes(done, reply(true, 200, b"x")), DownloadStep::Done { bytes } if bytes == [1]));
    let failed = DownloadStep::Failed(DownloadError::Os);
    assert!(matches!(download_bytes(failed, reply(true, 200, b"x")), DownloadStep::Failed(DownloadError::Os)));
}
