use media_pipeline::model::{
    RecordId, RecordedQuery, TransferError, TransferProgress, VideoFileId, VideoFileProperty,
};
use media_pipeline::progress::ProgressQueue;
use media_pipeline::transfer::{
    begin_download, recorded_parameters, run_download, upload_form, Client, TransferTracker,
};

fn property(sub_directory: Option<&str>) -> VideoFileProperty {
    VideoFileProperty {
        file_name: "movie.mp4".to_string(),
        parent_directory_name: "recorded".to_string(),
        view_name: "main".to_string(),
        file_type: "ts".to_string(),
        sub_directory: sub_directory.map(|s| s.to_string()),
    }
}

#[test]
fn download_needs_content_length() {
    assert!(matches!(
        begin_download(200, None),
        Err(TransferError::MissingContentLength)
    ));
    let tracker = begin_download(200, Some(1000)).unwrap();
    assert_eq!(tracker.total_bytes, 1000);
    assert_eq!(tracker.current_bytes, 0);
}

#[test]
fn download_of_exact_length_succeeds() {
    // content-length: 1048576 and a body of exactly that many bytes
    let chunks: Vec<Vec<u8>> = vec![vec![7u8; 524288], vec![9u8; 262144], vec![1u8; 262144]];
    let mut sink = ProgressQueue::new(16);
    let data = run_download(200, Some(1048576), &chunks, &mut sink).unwrap();
    assert_eq!(data.len(), 1048576);

    let mut last = None;
    while let Some(p) = sink.try_recv() {
        last = Some(p);
    }
    let last = last.unwrap();
    assert_eq!(last.current_bytes, 1048576);
    assert_eq!(last.total_bytes, 1048576);
}

#[test]
fn download_fails_on_http_error_before_any_bytes() {
    let chunks: Vec<Vec<u8>> = vec![vec![1, 2, 3]];
    let mut sink = ProgressQueue::new(16);
    let r = run_download(404, Some(3), &chunks, &mut sink);
    assert!(matches!(r, Err(TransferError::FailedStatus(404))));
    assert_eq!(sink.len(), 0);
}

#[test]
fn download_status_gate_boundaries() {
    assert!(begin_download(200, Some(1)).is_ok());
    assert!(begin_download(204, Some(1)).is_ok());
    assert!(begin_download(299, Some(1)).is_ok());
    assert!(matches!(
        begin_download(199, Some(1)),
        Err(TransferError::FailedStatus(199))
    ));
    assert!(matches!(
        begin_download(300, Some(1)),
        Err(TransferError::FailedStatus(300))
    ));
    // A failed status is reported ahead of the missing content length.
    assert!(matches!(
        begin_download(500, None),
        Err(TransferError::FailedStatus(500))
    ));
}

#[test]
fn download_without_content_length_writes_nothing() {
    let chunks: Vec<Vec<u8>> = vec![vec![1, 2, 3]];
    let mut sink = ProgressQueue::new(16);
    let r = run_download(200, None, &chunks, &mut sink);
    assert!(matches!(r, Err(TransferError::MissingContentLength)));
    assert_eq!(sink.len(), 0);
}

#[test]
fn download_preserves_bytes_in_order() {
    let chunks: Vec<Vec<u8>> = vec![vec![1, 2], vec![], vec![3], vec![4, 5, 6]];
    let mut sink = ProgressQueue::new(16);
    let data = run_download(200, Some(6), &chunks, &mut sink).unwrap();
    assert_eq!(data, vec![1, 2, 3, 4, 5, 6]);
}

#[test]
fn download_succeeds_with_unread_sink() {
    // A sink that can accept nothing models a receiver that never listens:
    // the transfer must complete and assemble the same bytes.
    let chunks: Vec<Vec<u8>> = vec![vec![8u8; 100], vec![9u8; 28]];
    let mut ignored = ProgressQueue::new(0);
    let data = run_download(200, Some(128), &chunks, &mut ignored).unwrap();
    assert_eq!(data.len(), 128);
    assert_eq!(ignored.try_recv(), None);
}

#[test]
fn download_progress_is_monotone_with_constant_total() {
    let chunks: Vec<Vec<u8>> = vec![vec![0u8; 10], vec![0u8; 30], vec![0u8; 5]];
    let mut sink = ProgressQueue::new(16);
    run_download(200, Some(45), &chunks, &mut sink).unwrap();
    let mut previous = 0;
    let mut seen = 0;
    while let Some(p) = sink.try_recv() {
        assert!(p.current_bytes >= previous);
        assert_eq!(p.total_bytes, 45);
        previous = p.current_bytes;
        seen += 1;
    }
    assert_eq!(seen, 3);
    assert_eq!(previous, 45);
}

#[test]
fn tracker_accumulates_sent_bytes() {
    let mut tracker = TransferTracker::new(500);
    let p1 = tracker.on_chunk(200);
    assert_eq!(p1, TransferProgress { current_bytes: 200, total_bytes: 500 });
    let p2 = tracker.on_chunk(300);
    assert_eq!(p2, TransferProgress { current_bytes: 500, total_bytes: 500 });
}

#[test]
fn queue_drops_when_full_and_never_blocks() {
    let mut q: ProgressQueue<u32> = ProgressQueue::new(2);
    assert!(q.try_send(1));
    assert!(q.try_send(2));
    assert!(!q.try_send(3));
    assert_eq!(q.len(), 2);
    assert_eq!(q.try_recv(), Some(1));
    assert_eq!(q.try_recv(), Some(2));
    assert_eq!(q.try_recv(), None);
}

#[test]
fn recorded_parameters_appends_paging_window() {
    let query = RecordedQuery {
        params: vec![("rule".to_string(), "weekly".to_string())],
    };
    let pairs = recorded_parameters(&query, 5, 20);
    assert_eq!(
        pairs,
        vec![
            ("rule".to_string(), "weekly".to_string()),
            ("offset".to_string(), "5".to_string()),
            ("limit".to_string(), "20".to_string()),
        ]
    );
}

#[test]
fn recorded_url_carries_filter_and_paging() {
    let client = Client::new("http://host.example".to_string());
    let query = RecordedQuery {
        params: vec![("type".to_string(), "tv".to_string())],
    };
    let url = client.query_recorded_url(&query, 5, 20).unwrap();
    assert_eq!(url, "http://host.example/api/recorded?type=tv&offset=5&limit=20");
}

#[test]
fn download_url_names_the_file() {
    let client = Client::new("http://host.example".to_string());
    let url = client.download_videofile_url(VideoFileId(42)).unwrap();
    assert_eq!(url, "http://host.example/api/videos/42");
}

#[test]
fn upload_url_is_fixed() {
    let client = Client::new("http://host.example".to_string());
    let url = client.upload_videofile_url().unwrap();
    assert_eq!(url, "http://host.example/api/videos/upload");
}

#[test]
fn unparsable_host_is_refused() {
    let client = Client::new("not a url".to_string());
    assert!(matches!(
        client.upload_videofile_url(),
        Err(TransferError::InvalidHostUrl)
    ));
}

#[test]
fn upload_form_without_sub_directory_omits_the_field() {
    let form = upload_form(property(None), RecordId(31));
    assert_eq!(form.file_field_name, "file");
    assert_eq!(form.file_name, "movie.mp4");
    assert_eq!(form.file_content_type, "application/octet-stream");
    assert_eq!(
        form.text_fields,
        vec![
            ("recordedId".to_string(), "31".to_string()),
            ("parentDirectoryName".to_string(), "recorded".to_string()),
            ("viewName".to_string(), "main".to_string()),
            ("fileType".to_string(), "ts".to_string()),
        ]
    );
}

#[test]
fn upload_form_with_sub_directory_appends_the_field() {
    let form = upload_form(property(Some("season1")), RecordId(31));
    assert_eq!(form.text_fields.len(), 5);
    assert_eq!(
        form.text_fields[4],
        ("subDirectory".to_string(), "season1".to_string())
    );
}
