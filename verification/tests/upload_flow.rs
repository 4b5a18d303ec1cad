use mediadir::errors::{UploadError, BAD_REQUEST, INTERNAL_SERVER_ERROR, NOT_IMPLEMENTED};
use mediadir::routes::HttpMethod;
use mediadir::upload::{
    file_request, file_target, split_file_name, with_boundary, HeaderText, StreamItem,
    UploadMachine, UploadPhase, UploadResult, UploadStep, WriteBuffer, DEFAULT_BUFFER,
};

#[test]
fn stem_and_extension() {
    assert_eq!(split_file_name("video.mp4").unwrap(), ("video".to_string(), "mp4".to_string()));
    assert_eq!(
        split_file_name("a.b.c.mkv").unwrap(),
        ("a.b.c".to_string(), "mkv".to_string())
    );
    assert_eq!(split_file_name(".hidden").unwrap(), ("".to_string(), "hidden".to_string()));
    assert_eq!(split_file_name("trailing.").unwrap(), ("trailing".to_string(), "".to_string()));
    let e = split_file_name("noextension").unwrap_err();
    assert_eq!(e.status(), BAD_REQUEST);
    assert_eq!(
        e.body(),
        "{\"detail\":\"File name error, we have't identified the stem and extension\"}"
    );
}

#[test]
fn stem_dot_extension_is_the_name() {
    for name in ["x.y", "a.b.c", "..", "über.größe.mp4", "a..b"] {
        let (stem, ext) = split_file_name(name).unwrap();
        assert_eq!(format!("{stem}.{ext}"), name);
    }
}

#[test]
fn upload_target_segments() {
    assert_eq!(
        file_target("/api/v1/file/canal9/noticias").unwrap(),
        ("canal9".to_string(), "noticias".to_string())
    );
    let e = file_target("/api/v1/file/solo").unwrap_err();
    assert_eq!(e.status(), BAD_REQUEST);
    assert_eq!(e.body(), "{\"detail\":\"Channel is not present\"}");
}

#[test]
fn upload_request_checks() {
    let ct = "multipart/form-data; boundary=XyZ123";
    let t = file_request("/api/v1/file/c/p", HttpMethod::Post, HeaderText::Text(ct.into())).unwrap();
    assert_eq!((t.channel.as_str(), t.program_tv.as_str(), t.boundary.as_str()), ("c", "p", "XyZ123"));

    let e = file_request("/api/v1/file/c/p", HttpMethod::Get, HeaderText::Text(ct.into())).unwrap_err();
    assert_eq!(e.status(), NOT_IMPLEMENTED);
    assert_eq!(e.body(), "{\"detail\":\"Method not implemented\"}");

    let e = file_request("/api/v1/file/c/p", HttpMethod::Post, HeaderText::Missing).unwrap_err();
    assert_eq!(e.status(), BAD_REQUEST);
    assert_eq!(e.body(), "{\"detail\":\"Header content-type is not present in the request\"}");

    let e = file_request("/api/v1/file/c/p", HttpMethod::Post, HeaderText::Unreadable).unwrap_err();
    assert_eq!(e.status(), INTERNAL_SERVER_ERROR);

    let e = file_request("/api/v1/file/c/p", HttpMethod::Post, HeaderText::Text("text/plain".into()))
        .unwrap_err();
    assert_eq!(e.status(), BAD_REQUEST);
    assert_eq!(e.body(), "{\"detail\":\"Boundary is not present\"}");

    let e = file_request("/api/v1/file/p", HttpMethod::Post, HeaderText::Missing).unwrap_err();
    assert_eq!(e.body(), "{\"detail\":\"Channel is not present\"}");
}

#[test]
fn boundary_completion() {
    let t = with_boundary("c".into(), "p".into(), Some("b".into())).unwrap();
    assert_eq!(t.boundary, "b");
    assert!(with_boundary("c".into(), "p".into(), None).is_err());
}

#[test]
fn write_buffer_gathers_until_full() {
    let mut b = WriteBuffer::new();
    assert!(b.is_empty());
    assert!(!b.needs_flush(10));
    assert_eq!(b.append(&[1, 2, 3]), 3);
    assert_eq!(b.pending(), &[1, 2, 3]);
    assert!(b.needs_flush(DEFAULT_BUFFER - 3));
    assert!(!b.needs_flush(DEFAULT_BUFFER - 4));
    assert!(b.writes_through(DEFAULT_BUFFER));
    assert!(!b.writes_through(DEFAULT_BUFFER - 1));
    b.consume(2);
    assert_eq!(b.pending(), &[3]);
    assert!(matches!(b.flush_progress(0), Err(mediadir::errors::IoKind::UnexpectedEof)));
    assert_eq!(b.pending(), &[3]);
    assert!(b.flush_progress(1).is_ok());
    assert!(b.is_empty());
}

fn expect_item(step: UploadStep) -> Result<UploadResult, UploadError> {
    match step {
        UploadStep::Item(r) => r,
        other => panic!("expected an item, got {other:?}"),
    }
}

#[test]
fn upload_reports_every_byte() {
    let mut m = UploadMachine::new();
    match m.on_item(StreamItem::New { file_name: "clip.mp4".into(), mime: "video/mp4".into() }) {
        UploadStep::CreateFile { mime, file_name } => {
            assert_eq!(mime, "video/mp4");
            assert_eq!(file_name, "clip.mp4");
        }
        other => panic!("{other:?}"),
    }
    assert!(matches!(m.on_created(Ok(())), UploadStep::Continue));
    assert!(m.has_buffer());
    assert!(matches!(m.on_item(StreamItem::Bytes(vec![0; 10])), UploadStep::Continue));
    assert!(matches!(m.on_written(Ok(4)), UploadStep::Continue));
    match m.phase() {
        UploadPhase::Writing(rest) => assert_eq!(rest.len(), 6),
        other => panic!("{other:?}"),
    }
    assert!(matches!(m.on_written(Ok(6)), UploadStep::Continue));
    assert!(matches!(m.phase(), UploadPhase::Reading));
    assert!(matches!(m.on_item(StreamItem::Bytes(vec![1; 5])), UploadStep::Continue));
    assert!(matches!(m.on_written(Ok(5)), UploadStep::Continue));
    assert!(matches!(m.on_item(StreamItem::Eof), UploadStep::Continue));
    let r = expect_item(m.on_flushed(Ok(()), 3)).unwrap();
    assert_eq!((r.size, r.elapsed, r.file_name.as_str()), (15, 3, "clip.mp4"));
    assert_eq!(m.written(), 0);
    assert!(matches!(m.on_item(StreamItem::End), UploadStep::End));
    assert!(matches!(m.phase(), UploadPhase::Done));
}

#[test]
fn upload_errors_end_the_stream() {
    let mut m = UploadMachine::new();
    m.on_item(StreamItem::New { file_name: "a".into(), mime: "video/mp4".into() });
    let e = expect_item(m.on_created(Err(UploadError::StorageFull))).unwrap_err();
    assert!(matches!(e, UploadError::StorageFull));
    assert!(matches!(m.phase(), UploadPhase::Done));

    let mut m = UploadMachine::new();
    let e = expect_item(m.on_item(StreamItem::Failed(UploadError::Multer("x".into())))).unwrap_err();
    assert!(matches!(e, UploadError::Multer(_)));

    let mut m = UploadMachine::new();
    m.on_item(StreamItem::New { file_name: "a".into(), mime: "m".into() });
    m.on_created(Ok(()));
    m.on_item(StreamItem::Bytes(vec![9; 3]));
    let e = expect_item(m.on_written(Err(UploadError::WriteZero))).unwrap_err();
    assert!(matches!(e, UploadError::WriteZero));

    let mut m = UploadMachine::new();
    m.on_item(StreamItem::New { file_name: "a".into(), mime: "m".into() });
    m.on_created(Ok(()));
    m.on_item(StreamItem::Eof);
    let e = expect_item(m.on_flushed(Err(UploadError::UnexpectedEof), 1)).unwrap_err();
    assert!(matches!(e, UploadError::UnexpectedEof));
}

#[test]
fn flush_without_new_file_reports_nameless_zero_time() {
    let mut m = UploadMachine::new();
    m.on_item(StreamItem::New { file_name: "a".into(), mime: "m".into() });
    m.on_created(Ok(()));
    m.on_item(StreamItem::Eof);
    let first = expect_item(m.on_flushed(Ok(()), 9)).unwrap();
    assert_eq!((first.size, first.elapsed, first.file_name.as_str()), (0, 9, "a"));
    m.on_item(StreamItem::Eof);
    let second = expect_item(m.on_flushed(Ok(()), 9)).unwrap();
    assert_eq!((second.size, second.elapsed, second.file_name.as_str()), (0, 0, ""));
}

#[test]
fn upload_result_fields() {
    let r = UploadResult::new(1, 2, "f".into());
    assert_eq!((r.size, r.elapsed, r.file_name.as_str()), (1, 2, "f"));
}

#[test]
fn a_finished_upload_stays_finished() {
    let mut m = UploadMachine::new();
    assert!(matches!(m.on_item(StreamItem::End), UploadStep::End));
    for _ in 0..3 {
        assert!(matches!(m.on_done(), UploadStep::End));
        assert!(matches!(m.phase(), UploadPhase::Done));
        assert_eq!(m.written(), 0);
    }
    let mut m = UploadMachine::new();
    m.on_item(StreamItem::Failed(UploadError::FileNameNotFound));
    assert!(matches!(m.on_done(), UploadStep::End));
}
