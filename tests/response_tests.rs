use faces_h3::assembly::{PartialResponse, ResponseEvent};
use faces_h3::framing::encode_frame;
use faces_h3::header::Header;
use faces_h3::progress::{parse_progress_fields, Ratio, UploadProgressStatus};
use faces_h3::response::{BodyType, CompletedResponse, Http3Response, ReqStatus};
use faces_h3::table::ResponseTable;

fn hdr(n: &str, v: &str) -> Header {
    Header::new(n, v)
}

fn ids(s: u64) -> (u64, String) {
    (s, "conn-a".to_string())
}

fn header_event(s: u64, hs: Vec<Header>, end: bool) -> Http3Response {
    Http3Response::new_header(s, "conn-a".to_string(), hs, end)
}

fn body_event(s: u64, data: &[u8], end: bool) -> Http3Response {
    Http3Response::new_body_data(s, "conn-a".to_string(), data, end)
}

#[test]
fn get_small_completes_once_without_download_progress() {
    let mut p = PartialResponse::with_uuid("/test_mini", &ids(0), 9, false);
    let e1 = p.extend_data(header_event(0, vec![hdr(":status", "200")], false));
    assert!(e1.is_empty());
    let e2 = p.extend_data(body_event(0, b"hello", false));
    assert!(e2.is_empty());
    let e3 = p.extend_data(body_event(0, &[], true));
    assert_eq!(e3.len(), 1);
    match &e3[0] {
        ResponseEvent::Completed(c) => {
            assert_eq!(c.as_data(), b"hello");
            assert_eq!(c.status_code(), Some("200".to_string()));
        }
        _ => panic!("completion expected"),
    }
    assert!(p.extend_data(body_event(0, b"late", true)).is_empty());
}

#[test]
fn download_progress_grows_to_one() {
    let mut p = PartialResponse::with_uuid("/d", &ids(4), 9, false);
    p.extend_data(header_event(4, vec![hdr(":status", "200"), hdr("content-length", "10")], false));
    let mut last = Ratio { num: 0, den: 1 };
    let mut seen = 0;
    for (chunk, end) in [(&[1u8; 4][..], false), (&[2u8; 6][..], false), (&[][..], true)] {
        for e in p.extend_data(body_event(4, chunk, end)) {
            if let ResponseEvent::Download(d) = e {
                let r = d.progress();
                assert!((last.num as u128) * (r.den as u128) <= (r.num as u128) * (last.den as u128));
                assert!(r.num <= r.den);
                assert_eq!(d.total, 10);
                last = r;
                seen += 1;
            }
        }
    }
    assert_eq!(seen, 3);
    assert_eq!(last, Ratio { num: 10, den: 10 });
}

#[test]
fn informational_status_reports_upload_progress() {
    let mut p = PartialResponse::with_uuid("/u", &ids(8), 9, false);
    let e = p.extend_data(header_event(8, vec![hdr(":status", "100"), hdr("x-progress", "4096")], false));
    assert_eq!(e.len(), 1);
    match &e[0] {
        ResponseEvent::Upload(u) => {
            assert_eq!(u.received, 4096);
            assert_eq!(u.total, 0);
        }
        _ => panic!("upload progress expected"),
    }
    assert!(p.headers.is_none());
}

#[test]
fn headers_that_end_the_stream_complete_with_empty_body() {
    let mut p = PartialResponse::with_uuid("/h", &ids(12), 9, false);
    let e = p.extend_data(header_event(12, vec![hdr(":status", "204")], true));
    assert_eq!(e.len(), 1);
    assert!(matches!(&e[0], ResponseEvent::Completed(c) if c.as_data().is_empty()));
    assert!(p.completed);
}

#[test]
fn upload_progress_via_side_stream() {
    let report = b"s??%progress=0.5%&written=90000000%&total=180000000";
    let mut p = PartialResponse::with_uuid("/large_data", &ids(3), 77, false);
    let e = p.extend_data(body_event(3, report, false));
    assert_eq!(e.len(), 1);
    match &e[0] {
        ResponseEvent::Upload(u) => {
            assert_eq!(u.progress(), Ratio { num: 5, den: 10 });
            assert_eq!(u.received, 90_000_000);
            assert_eq!(u.total, 180_000_000);
            assert_eq!(u.uuid(), 77);
        }
        _ => panic!("upload progress expected"),
    }
}

#[test]
fn progress_report_grammar() {
    let (q, w, t) = parse_progress_fields(b"progress=1%&written=2%&total=3").unwrap();
    assert_eq!((q, w, t), (Ratio { num: 1, den: 1 }, 2, 3));
    assert!(parse_progress_fields(b"progress=0.5&written=2%&total=3").is_none());
    assert!(parse_progress_fields(b"progress=x%&written=2%&total=3").is_none());
    let st = UploadProgressStatus::from_bytes("/p", 1, b"progress=2.5%&written=2%&total=3").unwrap();
    assert_eq!(st.progress(), Ratio { num: 1, den: 1 });
    assert!(matches!(BodyType::parse_packet(b"s??%bad", "/p", 1), BodyType::Malformed));
    assert!(matches!(BodyType::parse_packet(b"abc", "/p", 1), BodyType::Packet(v) if v == b"abc".to_vec()));
}

#[test]
fn persistent_downstream_delivers_three_frames() {
    let mut wire: Vec<u8> = vec![];
    for n in [7usize, 13, 4] {
        wire.extend(encode_frame(vec![n as u8; n]).unwrap());
    }
    let mut p = PartialResponse::with_uuid("/chat", &ids(16), 9, true);
    p.extend_data(header_event(16, vec![hdr(":status", "200")], false));
    let cuts = [3usize, 17, 30, 41, wire.len()];
    let mut lens = vec![];
    let mut start = 0;
    for end in cuts {
        for e in p.extend_data(body_event(16, &wire[start..end], false)) {
            match e {
                ResponseEvent::Frame(f) => {
                    assert_eq!(f.stream_id(), 16);
                    lens.push(f.body_as_slice().len());
                }
                _ => panic!("frames only"),
            }
        }
        start = end;
    }
    assert_eq!(lens, vec![7, 13, 4]);
}

#[test]
fn table_removes_completed_entries_and_hands_back_the_rest() {
    let mut t = ResponseTable::new();
    t.register(PartialResponse::with_uuid("/a", &ids(0), 1, false));
    t.register(PartialResponse::with_uuid("/b", &ids(4), 2, false));
    assert_eq!(t.len(), 2);
    assert!(t.dispatch(body_event(40, b"x", true)).is_empty());
    let done = t.dispatch(header_event(0, vec![hdr(":status", "200")], true));
    assert_eq!(done.len(), 1);
    assert_eq!(t.len(), 1);
    let left = t.close_all();
    assert_eq!(left.len(), 1);
    assert_eq!(left[0].stream_id(), 4);
    assert_eq!(t.len(), 0);
}

#[test]
fn status_classifies_responses() {
    let mut ok = CompletedResponse::new(0, vec![hdr(":status", "201")], vec![1]);
    assert!(matches!(ok.status(), ReqStatus::Success { data: Some(_), .. }));
    let mut err = CompletedResponse::new(0, vec![hdr(":status", "404")], vec![]);
    assert!(matches!(err.status(), ReqStatus::Error { data: None, .. }));
    let mut none = CompletedResponse::new(0, vec![], vec![]);
    assert!(matches!(none.status(), ReqStatus::NoStatus));
}

#[test]
fn json_content_type_is_recognised() {
    let c = CompletedResponse::new(0, vec![hdr("content-type", "application/json")], b"{}".to_vec());
    assert!(c.is_json());
    assert!(c.has_body());
    let d = CompletedResponse::new(0, vec![hdr("content-type", "text/plain")], vec![]);
    assert!(!d.is_json());
    assert!(!d.has_body());
}

#[test]
fn response_event_accessors() {
    let r = body_event(7, b"abc", false);
    assert!(r.is_progress_status_response());
    assert_eq!(r.len(), Some(3));
    assert_eq!(r.packet(), Some(&b"abc"[..]));
    assert_eq!(r.ids(), (7, "conn-a".to_string()));
    assert!(!body_event(4, b"", true).is_progress_status_response());
    assert!(header_event(4, vec![], true).is_end());
}

#[test]
fn side_stream_report_reaches_every_request() {
    let mut t = ResponseTable::new();
    t.register(PartialResponse::with_uuid("/a", &ids(0), 1, false));
    t.register(PartialResponse::with_uuid("/b", &ids(4), 2, false));
    let all = t.progress_for_all(b"s??%progress=0.5%&written=90000000%&total=180000000");
    assert_eq!(all.len(), 2);
    assert_eq!(all[1].uuid(), 2);
    assert_eq!(all[0].received, 90_000_000);
    assert!(t.progress_for_all(b"plain").is_empty());
}
