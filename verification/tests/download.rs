use ytdl::download::{check_stream_head, run_download, ByteSink, DownloadFormat};
use ytdl::errors::Error;
use ytdl::video_info::{Format, FormatDetails};

fn chunks_of_sizes(sizes: &[usize]) -> Vec<Vec<u8>> {
    sizes
        .iter()
        .enumerate()
        .map(|(i, n)| vec![i as u8 + 1; *n])
        .collect()
}

#[test]
fn head_ok_parses_declared_length() {
    assert_eq!(check_stream_head(200, Some("2500")).unwrap(), 2500);
}

#[test]
fn head_non_200_is_connection_error() {
    match check_stream_head(404, Some("2500")) {
        Err(Error::ConnectionError(s)) => assert_eq!(s, 404),
        _ => panic!("expected a connection failure carrying the status"),
    }
}

#[test]
fn head_missing_header_is_protocol_error() {
    assert!(matches!(check_stream_head(200, None), Err(Error::ProtocolError)));
}

#[test]
fn head_non_numeric_header_is_protocol_error() {
    assert!(matches!(
        check_stream_head(200, Some("12x3")),
        Err(Error::ProtocolError)
    ));
}

#[test]
fn download_writes_chunks_in_order() {
    let chunks = chunks_of_sizes(&[1000, 1000, 500]);
    let mut sink = ByteSink::new();
    let total = run_download(200, Some("2500"), &chunks, &mut sink).unwrap();
    assert_eq!(total, 2500);
    assert_eq!(sink.data.len(), 2500);
    assert_eq!(sink.writes, 3);
    assert_eq!(sink.data[0], 1);
    assert_eq!(sink.data[999], 1);
    assert_eq!(sink.data[1000], 2);
    assert_eq!(sink.data[1999], 2);
    assert_eq!(sink.data[2000], 3);
    assert_eq!(sink.data[2499], 3);
}

#[test]
fn download_without_content_length_writes_nothing() {
    let chunks = chunks_of_sizes(&[1000, 1000, 500]);
    let mut sink = ByteSink::new();
    let r = run_download(200, None, &chunks, &mut sink);
    assert!(matches!(r, Err(Error::ProtocolError)));
    assert_eq!(sink.data.len(), 0);
    assert_eq!(sink.writes, 0);
}

#[test]
fn download_non_200_writes_nothing() {
    let chunks = chunks_of_sizes(&[10]);
    let mut sink = ByteSink::new();
    let r = run_download(503, Some("10"), &chunks, &mut sink);
    match r {
        Err(Error::ConnectionError(s)) => assert_eq!(s, 503),
        _ => panic!("expected a connection failure carrying the status"),
    }
    assert_eq!(sink.writes, 0);
}

#[test]
fn download_does_not_compare_against_declared_length() {
    let chunks = chunks_of_sizes(&[4, 4]);
    let mut sink = ByteSink::new();
    let total = run_download(200, Some("999"), &chunks, &mut sink).unwrap();
    assert_eq!(total, 8);
}

#[test]
fn download_empty_stream_completes_at_zero() {
    let chunks: Vec<Vec<u8>> = Vec::new();
    let mut sink = ByteSink::new();
    let total = run_download(200, Some("0"), &chunks, &mut sink).unwrap();
    assert_eq!(total, 0);
    assert_eq!(sink.writes, 0);
}

#[test]
fn sink_appends_and_counts() {
    let mut sink = ByteSink::new();
    sink.write_all(&vec![1, 2]);
    sink.write_all(&vec![3]);
    assert_eq!(sink.data, vec![1, 2, 3]);
    assert_eq!(sink.writes, 2);
}

#[test]
fn format_download_reads_url_verbatim() {
    let f = Format {
        itag: 140,
        bitrate: 128000,
        url: "https://media.example/audio?sig=x".to_string(),
        extension: "mp4".to_string(),
        codec: "mp4a.40.2".to_string(),
        details: FormatDetails::Audio { audio_channels: 2, audio_sample_rate: 44100 },
    };
    let d: DownloadFormat = f.download();
    assert_eq!(d.url(), "https://media.example/audio?sig=x");
    assert_eq!(d.format.itag, 140);
}
