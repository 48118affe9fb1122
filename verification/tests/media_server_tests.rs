use clip_engine::media_server::{
    audio_mix_args, base_url, compat_stream_args, empty_response, file_reply, parse_range,
    query_value, request_head_complete, server_identity, route_request, selected_audio_streams,
    source_content_type, stream_response, FileReply, Route,
};

const ID: &str = "0b5f3a1e-9c2d-4e8f-a7b6-1c2d3e4f5a6b";

#[test]
fn parses_open_and_suffix_ranges() {
    assert_eq!(parse_range("bytes=10-", 100), Some((10, 99)));
    assert_eq!(parse_range("bytes=10-19", 100), Some((10, 19)));
    assert_eq!(parse_range("bytes=-10", 100), Some((90, 99)));
    assert_eq!(parse_range("bytes=100-", 100), None);
}

#[test]
fn parses_stream_query_values() {
    assert_eq!(query_value("start=1.5&audio=1,2", "start"), Some("1.5"));
    assert_eq!(query_value("start=1.5&audio=1,2", "audio"), Some("1,2"));
}

#[test]
fn range_edge_cases() {
    // an end past the file is cut to the last byte
    assert_eq!(parse_range("bytes=10-500", 100), Some((10, 99)));
    // a suffix longer than the file covers it all
    assert_eq!(parse_range("bytes=-500", 100), Some((0, 99)));
    // an empty suffix, several ranges, a reversed range, other units
    assert_eq!(parse_range("bytes=-0", 100), None);
    assert_eq!(parse_range("bytes=0-1,5-6", 100), None);
    assert_eq!(parse_range("bytes=20-10", 100), None);
    assert_eq!(parse_range("items=0-1", 100), None);
    assert_eq!(parse_range("bytes=x-1", 100), None);
    assert_eq!(parse_range("bytes=+5-", 100), Some((5, 99)));
    assert_eq!(parse_range("bytes=0-0", 1), Some((0, 0)));
}

#[test]
fn query_values_match_whole_keys_only() {
    assert_eq!(query_value("start=1.5&audio=1,2", "star"), None);
    assert_eq!(query_value("start", "start"), None);
    assert_eq!(query_value("a=1&a=2", "a"), Some("1"));
    assert_eq!(query_value("a=x=y", "a"), Some("x=y"));
    assert_eq!(query_value("", "a"), None);
}

#[test]
fn content_types_follow_the_extension() {
    assert_eq!(source_content_type("/clips/a.MP4"), "video/mp4");
    assert_eq!(source_content_type("/clips/a.m4v"), "video/mp4");
    assert_eq!(source_content_type("/clips/a.mov"), "video/quicktime");
    assert_eq!(source_content_type("/clips/a.webm"), "video/webm");
    assert_eq!(source_content_type("/clips/a.mkv"), "video/x-matroska");
    assert_eq!(source_content_type("/clips/a.avi"), "video/x-msvideo");
    assert_eq!(source_content_type("/clips/a.txt"), "application/octet-stream");
    assert_eq!(source_content_type("/clips/noext"), "application/octet-stream");
}

#[test]
fn selected_audio_keeps_known_streams_in_request_order() {
    let tracks = vec![1_i64, 2, 4];
    assert_eq!(selected_audio_streams(&tracks, "audio=4,3,x,1"), vec![4, 1]);
    assert_eq!(selected_audio_streams(&tracks, "start=2"), Vec::<i64>::new());
    assert_eq!(selected_audio_streams(&tracks, "audio=2,2"), vec![2, 2]);
}

#[test]
fn routes_requests_by_token_and_kind() {
    let token = "secret";
    let get = format!("GET /secret/source/{ID} HTTP/1.1\r\nHost: x\r\nRange: bytes=0-9 \r\n\r\n");
    let request = route_request(&get, token);
    assert_eq!(request.method, "GET");
    assert_eq!(request.range.as_deref(), Some("bytes=0-9"));
    assert!(matches!(request.route, Route::Source { ref id } if id == ID));

    let stream = format!("HEAD /secret/stream/{ID}?start=1&audio=1 HTTP/1.1\r\n\r\n");
    let request = route_request(&stream, token);
    assert!(request.range.is_none());
    assert!(
        matches!(request.route, Route::Stream { ref id, ref query } if id == ID && query == "start=1&audio=1")
    );

    let audio = format!("GET /secret/audio/{ID}?audio=2 HTTP/1.1\r\n\r\n");
    assert!(matches!(route_request(&audio, token).route, Route::Audio { ref query, .. } if query == "audio=2"));

    let file = format!("GET /secret/{ID}.jpg HTTP/1.1\r\n\r\n");
    assert!(
        matches!(route_request(&file, token).route, Route::File { ref name, mp4 } if name == &format!("{ID}.jpg") && !mp4)
    );
    let file = format!("GET /secret/{ID}.mp4 HTTP/1.1\r\n\r\n");
    assert!(matches!(route_request(&file, token).route, Route::File { mp4: true, .. }));
}

#[test]
fn refuses_other_methods_tokens_and_names() {
    let token = "secret";
    let post = format!("POST /secret/source/{ID} HTTP/1.1\r\n\r\n");
    assert!(matches!(route_request(&post, token).route, Route::MethodNotAllowed));
    let wrong = format!("GET /other/source/{ID} HTTP/1.1\r\n\r\n");
    assert!(matches!(route_request(&wrong, token).route, Route::NotFound));
    let not_uuid = "GET /secret/source/../../etc/passwd HTTP/1.1\r\n\r\n";
    assert!(matches!(route_request(not_uuid, token).route, Route::NotFound));
    let nested = format!("GET /secret/a/{ID}.mp4 HTTP/1.1\r\n\r\n");
    assert!(matches!(route_request(&nested, token).route, Route::NotFound));
    let bad_ext = format!("GET /secret/{ID}.png HTTP/1.1\r\n\r\n");
    assert!(matches!(route_request(&bad_ext, token).route, Route::NotFound));
    let no_ext = format!("GET /secret/{ID} HTTP/1.1\r\n\r\n");
    assert!(matches!(route_request(&no_ext, token).route, Route::NotFound));
    assert!(matches!(route_request("", token).route, Route::MethodNotAllowed));
}

#[test]
fn empty_responses_carry_status_and_extra_header() {
    assert_eq!(
        empty_response("404 Not Found", None),
        "HTTP/1.1 404 Not Found\r\nContent-Length: 0\r\nCache-Control: no-store\r\nAccess-Control-Allow-Origin: *\r\nConnection: close\r\n\r\n"
    );
    assert_eq!(
        empty_response("416 Range Not Satisfiable", Some("Content-Range: bytes */7\r\n")),
        "HTTP/1.1 416 Range Not Satisfiable\r\nContent-Length: 0\r\nContent-Range: bytes */7\r\nCache-Control: no-store\r\nAccess-Control-Allow-Origin: *\r\nConnection: close\r\n\r\n"
    );
}

#[test]
fn file_replies_cover_whole_partial_and_refused_ranges() {
    match file_reply(100, "video/mp4", None) {
        FileReply::Content { head, start, length } => {
            assert_eq!((start, length), (0, 100));
            assert_eq!(head, "HTTP/1.1 200 OK\r\nContent-Type: video/mp4\r\nContent-Length: 100\r\nAccept-Ranges: bytes\r\nCache-Control: no-store\r\nAccess-Control-Allow-Origin: *\r\nConnection: close\r\n\r\n");
        }
        FileReply::Empty { .. } => panic!("expected content"),
    }
    match file_reply(100, "video/mp4", Some("bytes=10-19")) {
        FileReply::Content { head, start, length } => {
            assert_eq!((start, length), (10, 10));
            assert_eq!(head, "HTTP/1.1 206 Partial Content\r\nContent-Type: video/mp4\r\nContent-Length: 10\r\nAccept-Ranges: bytes\r\nContent-Range: bytes 10-19/100\r\nCache-Control: no-store\r\nAccess-Control-Allow-Origin: *\r\nConnection: close\r\n\r\n");
        }
        FileReply::Empty { .. } => panic!("expected content"),
    }
    match file_reply(100, "video/mp4", Some("bytes=200-")) {
        FileReply::Empty { head } => assert_eq!(head, "HTTP/1.1 416 Range Not Satisfiable\r\nContent-Length: 0\r\nContent-Range: bytes */100\r\nCache-Control: no-store\r\nAccess-Control-Allow-Origin: *\r\nConnection: close\r\n\r\n"),
        FileReply::Content { .. } => panic!("expected refusal"),
    }
    match file_reply(0, "video/mp4", None) {
        FileReply::Empty { head } => assert!(head.starts_with("HTTP/1.1 404 Not Found\r\n")),
        FileReply::Content { .. } => panic!("expected 404"),
    }
}

#[test]
fn stream_heads_and_base_urls() {
    assert_eq!(
        stream_response("audio/mpeg"),
        "HTTP/1.1 200 OK\r\nContent-Type: audio/mpeg\r\nCache-Control: no-store\r\nAccess-Control-Allow-Origin: *\r\nConnection: close\r\n\r\n"
    );
    assert_eq!(base_url(8080, "tok"), "http://127.0.0.1:8080/tok");
    assert_eq!(base_url(0, "t"), "http://127.0.0.1:0/t");
}

#[test]
fn request_heads_end_at_a_blank_line() {
    assert!(request_head_complete(&b"GET / HTTP/1.1\r\n\r\n".to_vec()));
    assert!(!request_head_complete(&b"GET / HTTP/1.1\r\n".to_vec()));
    assert!(!request_head_complete(&b"\r\n\r".to_vec()));
    assert!(request_head_complete(&b"\r\n\r\n".to_vec()));
}

#[test]
fn compat_stream_mixes_several_tracks() {
    let args = compat_stream_args("1.500000", "/in.mkv", &vec![1, 2]);
    let position = args.iter().position(|a| a == "-filter_complex").unwrap();
    assert_eq!(
        args[position + 1],
        "[0:v:0]format=yuv420p[video];[0:1]aresample=44100[a0];[0:2]aresample=44100[a1];[a0][a1]amix=inputs=2:duration=longest:normalize=1[audio]"
    );
    assert!(args.contains(&"[audio]".to_string()));
    assert_eq!(args.last().unwrap(), "pipe:1");

    let single = compat_stream_args("0.000000", "/in.mkv", &vec![3]);
    assert!(single.contains(&"[0:v:0]format=yuv420p[video];[0:3]anull[audio]".to_string()));
    let silent = compat_stream_args("0.000000", "/in.mkv", &vec![]);
    assert!(silent.contains(&"[0:v:0]format=yuv420p[video]".to_string()));
    assert!(silent.contains(&"-an".to_string()));
}

#[test]
fn audio_mix_resamples_each_track() {
    let args = audio_mix_args("2.000000", "/in.mkv", &vec![1, 2]);
    let position = args.iter().position(|a| a == "-filter_complex").unwrap();
    assert_eq!(
        args[position + 1],
        "[0:1]aresample=48000:async=1:first_pts=0[a0];[0:2]aresample=48000:async=1:first_pts=0[a1];[a0][a1]amix=inputs=2:duration=longest:normalize=1[audio]"
    );
    let single = audio_mix_args("2.000000", "/in.mkv", &vec![5]);
    assert!(single.contains(&"[0:5]aresample=48000:async=1:first_pts=0[a0];[a0]anull[audio]".to_string()));
    assert_eq!(single[6], "2.000000");
}

#[test]
fn server_identity_is_a_token_in_the_url() {
    let (token, url) = server_identity(4321);
    assert_eq!(token.len(), 36);
    assert_eq!(url, format!("http://127.0.0.1:4321/{token}"));
    let (other, _) = server_identity(4321);
    assert_ne!(token, other);
}
