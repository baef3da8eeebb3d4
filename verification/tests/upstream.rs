use opentracker_exporter::snapshot::Everything;
use opentracker_exporter::upstream::{
    body_of, find_header_end, get_content, is_whitespace, read_response, status_request,
    trim_bounds,
};

fn response(body: &str) -> Vec<u8> {
    format!(
        "HTTP/1.1 200 OK\r\nContent-Type: text/plain\r\nServer: opentracker\r\n\r\n{}",
        body
    )
    .into_bytes()
}

#[test]
fn the_request_names_path_host_and_agent() {
    assert_eq!(
        status_request("tracker.example:6969"),
        "GET /stats?mode=everything HTTP/1.1\r\nHost: tracker.example:6969\r\n\
User-Agent: opentracker-exporter/0.1.0\r\nAccept: text/plain\r\n\r\n"
    );
    assert_eq!(
        status_request(""),
        "GET /stats?mode=everything HTTP/1.1\r\nHost: \r\n\
User-Agent: opentracker-exporter/0.1.0\r\nAccept: text/plain\r\n\r\n"
    );
}

#[test]
fn the_body_follows_the_first_empty_line() {
    assert_eq!(body_of("HTTP/1.1 200 OK\r\nA: b\r\n\r\n<stats/>"), Some("<stats/>"));
    assert_eq!(body_of("\r\n\r\nbody"), Some("body"));
    assert_eq!(body_of("head\r\n\r\nfirst\r\n\r\nsecond"), Some("first\r\n\r\nsecond"));
    assert_eq!(body_of("head\r\n\r\n"), Some(""));
    assert_eq!(body_of("\r\n\r\n"), Some(""));
}

#[test]
fn the_body_is_trimmed() {
    assert_eq!(body_of("h\r\n\r\n \t\r\n <a> b </a> \n\n"), Some("<a> b </a>"));
    assert_eq!(body_of("h\r\n\r\n\r\n\r\n\r\n"), Some(""));
    assert_eq!(body_of("h\r\n\r\n\u{a0}\u{2003}x\u{3000}\u{85}"), Some("x"));
    assert_eq!(body_of("h\r\n\r\n\u{200b}x\u{feff}"), Some("\u{200b}x\u{feff}"));
    assert_eq!(body_of("hé\r\n\r\n  ü€😀  "), Some("ü€😀"));
}

#[test]
fn without_an_empty_line_there_is_no_body() {
    for text in ["", "\r\n", "\r\n\r", "abc", "a\n\nb", "a\r\n\rb\n", "a\n\r\n\rb", "a\r\r\n\nb"] {
        assert_eq!(body_of(text), None, "{:?}", text);
    }
}

#[test]
fn the_body_agrees_with_find_and_trim() {
    for text in [
        "HTTP/1.1 200 OK\r\nA: b\r\n\r\n  <stats/>\r\n",
        "\r\n\r\n\r\n\r\nx",
        "a\r\n\r\n\r\n",
        "x\r\n\r\n \u{1680}é \u{2028}",
    ] {
        let at = text.find("\r\n\r\n").unwrap();
        assert_eq!(body_of(text), Some(text[at..].trim()), "{:?}", text);
    }
}

#[test]
fn where_the_header_ends() {
    let chars = |s: &str| s.chars().collect::<Vec<char>>();
    assert_eq!(find_header_end(&chars("")), None);
    assert_eq!(find_header_end(&chars("\r\n\r")), None);
    assert_eq!(find_header_end(&chars("\r\n\r\n")), Some(0));
    assert_eq!(find_header_end(&chars("ab\r\n\r\ncd\r\n\r\n")), Some(2));
    assert_eq!(find_header_end(&chars("é€\r\n\r\n")), Some(2));
    assert_eq!(find_header_end(&chars("a\r\n\r\r\n\r\n")), Some(4));
}

#[test]
fn bounds_of_what_trimming_leaves() {
    let chars: Vec<char> = "ab  cd \n".chars().collect();
    assert_eq!(trim_bounds(&chars, 0), (0, 6));
    assert_eq!(trim_bounds(&chars, 2), (4, 6));
    assert_eq!(trim_bounds(&chars, 6), (8, 8));
    assert_eq!(trim_bounds(&chars, 8), (8, 8));
    let blank: Vec<char> = " \t ".chars().collect();
    assert_eq!(trim_bounds(&blank, 0), (3, 3));
    assert_eq!(trim_bounds(&Vec::new(), 0), (0, 0));
}

#[test]
fn white_space_is_what_the_standard_says() {
    for code in 0u32..0x11000 {
        if let Some(c) = char::from_u32(code) {
            assert_eq!(is_whitespace(c), c.is_whitespace(), "{:x}", code);
        }
    }
    assert!(!is_whitespace('\u{10ffff}'));
}

#[test]
fn peers_and_seeds_reach_the_exposition() {
    let raw = response("<peers><count>7</count></peers><seeds><count>3</count></seeds>");
    let text = get_content(Some(&raw), "opentracker", "tracker");
    assert!(text.contains("opentracker_count{tracker=\"0\",name=\"tracker\",type=\"peers\"} 7\n"));
    assert!(text.contains("opentracker_count{tracker=\"0\",name=\"tracker\",type=\"seeds\"} 3\n"));
    assert!(text.contains("opentracker_count{tracker=\"0\",name=\"tracker\",type=\"completed\"} 0\n"));
}

#[test]
fn the_live_sync_counter_reaches_the_exposition() {
    let raw = b"HTTP/1.1 200 OK\r\n\r\n<stats><connections><livesync><count>5</count></livesync></connections></stats>".to_vec();
    let text = get_content(Some(&raw), "p", "n");
    assert!(text.contains("p_connections{tracker=\"0\",name=\"n\",type=\"livesync\"} 5\n"));
    let raw = response("<stats><connections><livesync><count>-17</count></livesync></connections></stats>");
    let text = get_content(Some(&raw), "p", "n");
    assert!(text.contains("p_connections{tracker=\"0\",name=\"n\",type=\"livesync\"} -17\n"));
}

#[test]
fn status_codes_reach_the_exposition() {
    let raw = response(
        "<stats><tracker_id>9</tracker_id><http_error><count code=\"404\">2</count>\
<count code=\"500\">1</count></http_error></stats>",
    );
    let text = get_content(Some(&raw), "ot", "t");
    assert!(text.contains("ot_http_codes{tracker=\"9\",name=\"t\",code=\"404\"} 2\n"));
    assert!(text.contains("ot_http_codes{tracker=\"9\",name=\"t\",code=\"500\"} 1\n"));
    assert_eq!(text.lines().filter(|l| l.starts_with("ot_http_codes{")).count(), 2);
}

#[test]
fn an_unreachable_tracker_gives_the_exposition_of_zeros() {
    let text = get_content(None, "opentracker", "tracker");
    assert_eq!(text, Everything::new().get_string("opentracker", "tracker"));
    let samples: Vec<&str> = text.lines().filter(|l| l.starts_with("opentracker_")).collect();
    assert_eq!(samples.len(), 16);
    for line in samples {
        assert!(line.ends_with("} 0"), "{}", line);
    }
    for family in ["uptime", "torrents", "count", "connections", "http_codes"] {
        assert!(text.contains(&format!("# HELP opentracker_{} ", family)));
        assert!(text.contains(&format!("# TYPE opentracker_{} gauge\n", family)));
    }
}

#[test]
fn what_cannot_be_decoded_gives_the_exposition_of_zeros() {
    let zeros = Everything::new().get_string("p", "n");
    for raw in [
        Vec::new(),
        b"no header end".to_vec(),
        response(""),
        response("not a document"),
        response("<stats><uptime>5</uptime>"),
        b"<stats><uptime>5</uptime></stats>".to_vec(),
    ] {
        assert_eq!(get_content(Some(&raw), "p", "n"), zeros, "{:?}", raw);
    }
}

#[test]
fn bytes_that_are_no_text_are_replaced_not_refused() {
    let mut raw = b"HTTP/1.1 200 OK\r\nX: \xff\xfe\r\n\r\n<stats><uptime>5</uptime><!-- \xc3\x28 --></stats>".to_vec();
    assert_eq!(get_content(Some(&raw), "p", "n"), {
        let mut s = Everything::new();
        s.uptime = 5;
        s.get_string("p", "n")
    });
    raw.extend_from_slice(b"\r\n \x85");
    let text = get_content(Some(&raw), "p", "n");
    assert!(text.contains("p_uptime{tracker=\"0\",name=\"n\"} 0\n"));
}

#[test]
fn a_response_is_read_from_its_text() {
    let s = read_response("HTTP/1.1 200 OK\r\n\r\n\n<stats><uptime>12345</uptime></stats>\n");
    assert_eq!(s.uptime, 12345);
    let s = read_response("<stats><uptime>12345</uptime></stats>");
    assert_eq!(s.uptime, 0);
}
