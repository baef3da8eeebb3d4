use opentracker_exporter::decoder::{
    decode_document, decode_events, field_for, is_leaf, store, DecoderContext, Field,
};
use opentracker_exporter::events::StatusEvent;
use opentracker_exporter::snapshot::Everything;

fn open(name: &str, attributes: &[&str]) -> StatusEvent {
    StatusEvent::Open {
        name: name.to_string(),
        attributes: attributes.iter().map(|a| a.to_string()).collect(),
    }
}

fn text(text: &str) -> StatusEvent {
    StatusEvent::Text { text: text.to_string() }
}

fn close(name: &str) -> StatusEvent {
    StatusEvent::Close { name: name.to_string() }
}

/// All counters of a snapshot but the status codes, in a fixed order.
fn counters(s: &Everything) -> Vec<usize> {
    vec![
        s.tracker_id,
        s.uptime,
        s.torrents.mutex,
        s.torrents.iterator,
        s.peers,
        s.seeds,
        s.completed,
        s.mutex_stall,
        s.connections.tcp_accept,
        s.connections.tcp_announce,
        s.connections.tcp_scrape,
        s.connections.udp_overall,
        s.connections.udp_connect,
        s.connections.udp_announce,
        s.connections.udp_scrape,
        s.connections.udp_missmatch,
    ]
}

const FULL: &str = "<?xml version=\"1.0\" encoding=\"UTF-8\"?>\n\
<stats>\n\
  <tracker_id>1804289383</tracker_id>\n\
  <version>\nopentracker.c 1.237\n</version>\n\
  <uptime>86400</uptime>\n\
  <torrents>\n\
    <count_mutex>101</count_mutex>\n\
    <count_iterator>102</count_iterator>\n\
  </torrents>\n\
  <peers>\n    <count>7</count>\n  </peers>\n\
  <seeds>\n    <count>3</count>\n  </seeds>\n\
  <completed>\n    <count>55</count>\n  </completed>\n\
  <connections>\n\
    <tcp>\n      <accept>11</accept>\n      <announce>12</announce>\n      <scrape>13</scrape>\n    </tcp>\n\
    <udp>\n      <overall>21</overall>\n      <connect>22</connect>\n      <announce>23</announce>\n      <scrape>24</scrape>\n      <missmatch>25</missmatch>\n    </udp>\n\
    <livesync>\n      <count>9</count>\n    </livesync>\n\
  </connections>\n\
  <debug>\n\
    <renew>\n      <count interval=\"00\">1</count>\n      <count interval=\"01\">2</count>\n    </renew>\n\
    <http_error>\n      <count code=\"302 Redirect\">4</count>\n      <count code=\"400 Parse Error\">5</count>\n      <count code=\"404 Not Found\">6</count>\n    </http_error>\n\
    <mutex_stall>\n      <count>8</count>\n    </mutex_stall>\n\
  </debug>\n\
</stats>\n";

#[test]
fn a_full_status_document_fills_every_field() {
    let s = decode_document(FULL);
    assert_eq!(
        counters(&s),
        vec![1804289383, 86400, 101, 102, 7, 3, 55, 8, 11, 12, 13, 21, 22, 23, 24, 25]
    );
    assert_eq!(s.connections.livesync, 9);
    assert_eq!(s.http_error.len(), 3);
    assert_eq!(s.http_error.get("302 Redirect"), Some(4));
    assert_eq!(s.http_error.get("400 Parse Error"), Some(5));
    assert_eq!(s.http_error.get("404 Not Found"), Some(6));
    assert_eq!(s.http_error.code_at(0), "302 Redirect");
    assert_eq!(s.http_error.code_at(2), "404 Not Found");
}

#[test]
fn id_uptime_and_one_status_code() {
    let s = decode_document(
        "<stats><tracker_id>42</tracker_id><uptime>12345</uptime>\
<http_error><count code=\"404\">2</count></http_error></stats>",
    );
    assert_eq!(s.tracker_id, 42);
    assert_eq!(s.uptime, 12345);
    assert_eq!(s.http_error.len(), 1);
    assert_eq!(s.http_error.get("404"), Some(2));
    let mut want = vec![0; 16];
    want[0] = 42;
    want[1] = 12345;
    assert_eq!(counters(&s), want);
    assert_eq!(s.connections.livesync, 0);
}

#[test]
fn the_same_events_decode_the_same_without_the_reader() {
    let events = vec![
        StatusEvent::Other,
        open("stats", &[]),
        open("tracker_id", &[]),
        text("42"),
        close("tracker_id"),
        open("uptime", &[]),
        text("12345"),
        close("uptime"),
        open("http_error", &[]),
        open("count", &["404"]),
        text("2"),
        close("count"),
        close("http_error"),
        close("stats"),
        StatusEvent::Other,
    ];
    let s = decode_events(&events);
    assert_eq!(s.tracker_id, 42);
    assert_eq!(s.uptime, 12345);
    assert_eq!(s.http_error.len(), 1);
    assert_eq!(s.http_error.get("404"), Some(2));
    assert_eq!(counters(&s)[2..], vec![0; 14][..]);
}

#[test]
fn text_that_is_no_number_gives_zero_and_touches_nothing_else() {
    let s = decode_document(
        "<stats><tracker_id>5</tracker_id><uptime>soon</uptime>\
<peers><count>7</count></peers><seeds><count>-3</count></seeds>\
<completed><count> 4 </count></completed>\
<http_error><count code=\"404\">many</count><count code=\"500\">1</count></http_error></stats>",
    );
    assert_eq!(s.tracker_id, 5);
    assert_eq!(s.uptime, 0);
    assert_eq!(s.peers, 7);
    assert_eq!(s.seeds, 0);
    assert_eq!(s.completed, 0);
    assert_eq!(s.http_error.get("404"), Some(0));
    assert_eq!(s.http_error.get("500"), Some(1));
    assert_eq!(s.http_error.len(), 2);
}

#[test]
fn a_later_bad_number_overwrites_an_earlier_good_one() {
    let s = decode_events(&vec![
        open("uptime", &[]),
        text("77"),
        close("uptime"),
        open("peers", &[]),
        open("count", &[]),
        text("9"),
        close("count"),
        close("peers"),
        open("uptime", &[]),
        text("x"),
    ]);
    assert_eq!(s.uptime, 0);
    assert_eq!(s.peers, 9);
}

#[test]
fn no_events_decode_to_zeros() {
    let s = decode_events(&Vec::new());
    assert_eq!(counters(&s), vec![0; 16]);
    assert_eq!(s.http_error.len(), 0);
}

#[test]
fn a_malformed_document_decodes_to_zeros() {
    for body in [
        "",
        "no markup at all",
        "<stats><uptime>5</uptime>",
        "<stats><uptime>5</uptime></stat>",
        "<stats><peers><count>7</count></peers><seeds><count>3</seeds></stats>",
        "<stats><uptime>5</uptime><<</stats>",
    ] {
        let s = decode_document(body);
        assert_eq!(counters(&s), vec![0; 16], "{:?}", body);
        assert_eq!(s.http_error.len(), 0, "{:?}", body);
    }
}

#[test]
fn malformed_anywhere_among_the_events_gives_zeros() {
    let s = decode_events(&vec![
        open("uptime", &[]),
        text("77"),
        close("uptime"),
        StatusEvent::Malformed,
    ]);
    assert_eq!(s.uptime, 0);
    let s = decode_events(&vec![StatusEvent::Malformed, open("uptime", &[]), text("77")]);
    assert_eq!(s.uptime, 0);
}

#[test]
fn peers_and_seeds_are_told_apart_by_their_parent() {
    let s = decode_document("<s><peers><count>7</count></peers><seeds><count>3</count></seeds></s>");
    assert_eq!(s.peers, 7);
    assert_eq!(s.seeds, 3);
    assert_eq!(s.completed, 0);
    assert_eq!(s.mutex_stall, 0);
}

#[test]
fn elements_side_by_side_without_a_common_parent() {
    let s = decode_document("<peers><count>7</count></peers><seeds><count>3</count></seeds>");
    assert_eq!(s.peers, 7);
    assert_eq!(s.seeds, 3);
    assert_eq!(s.uptime, 0);
}

#[test]
fn announce_and_scrape_are_told_apart_by_their_protocol() {
    let s = decode_document(
        "<c><tcp><announce>1</announce><scrape>2</scrape></tcp>\
<udp><announce>3</announce><scrape>4</scrape></udp></c>",
    );
    assert_eq!(s.connections.tcp_announce, 1);
    assert_eq!(s.connections.tcp_scrape, 2);
    assert_eq!(s.connections.udp_announce, 3);
    assert_eq!(s.connections.udp_scrape, 4);
    assert_eq!(s.connections.tcp_accept, 0);
    assert_eq!(s.connections.udp_overall, 0);
}

#[test]
fn two_status_codes_are_counted_apart() {
    let s = decode_document(
        "<stats><http_error><count code=\"404\">2</count><count code=\"500\">1</count></http_error></stats>",
    );
    assert_eq!(s.http_error.len(), 2);
    assert_eq!(s.http_error.get("404"), Some(2));
    assert_eq!(s.http_error.get("500"), Some(1));
}

#[test]
fn a_status_code_seen_again_is_overwritten() {
    let s = decode_document(
        "<stats><http_error><count code=\"404\">2</count><count code=\"500\">1</count>\
<count code=\"404\">8</count></http_error></stats>",
    );
    assert_eq!(s.http_error.len(), 2);
    assert_eq!(s.http_error.get("404"), Some(8));
    assert_eq!(s.http_error.code_at(0), "404");
    assert_eq!(s.http_error.code_at(1), "500");
}

#[test]
fn the_code_is_taken_only_from_a_single_attribute() {
    // With no attribute or with two, the code seen last stays; at first that is the empty text.
    let s = decode_document(
        "<stats><http_error><count>5</count><count a=\"1\" b=\"2\">6</count>\
<count code=\"404\">2</count><count x=\"1\" y=\"2\">9</count></http_error></stats>",
    );
    assert_eq!(s.http_error.len(), 2);
    assert_eq!(s.http_error.get(""), Some(6));
    assert_eq!(s.http_error.get("404"), Some(9));
}

#[test]
fn a_count_elsewhere_does_not_set_the_code() {
    let s = decode_document(
        "<stats><renew><count interval=\"00\">1</count></renew>\
<http_error><count>5</count></http_error></stats>",
    );
    assert_eq!(s.http_error.len(), 1);
    assert_eq!(s.http_error.get(""), Some(5));
    assert_eq!(s.http_error.get("00"), None);
}

#[test]
fn names_are_not_scoped_by_closing_tags() {
    // After </count> and </peers> the two names stay, so stray text is stored again.
    let s = decode_events(&vec![
        open("peers", &[]),
        open("count", &[]),
        text("7"),
        close("count"),
        close("peers"),
        text("8"),
        open("seeds", &[]),
        text("3"),
    ]);
    assert_eq!(s.peers, 8);
    assert_eq!(s.seeds, 3);
}

#[test]
fn white_space_comments_and_cdata_are_no_text() {
    let s = decode_document(
        "<stats><uptime>5</uptime><uptime>   </uptime><uptime><!-- 6 --></uptime>\
<uptime><![CDATA[7]]></uptime></stats>",
    );
    assert_eq!(s.uptime, 5);
}

#[test]
fn entities_are_resolved_before_the_number_is_read() {
    let s = decode_document("<stats><uptime>&#49;&#50;</uptime><peers><count>1&lt;2</count></peers></stats>");
    assert_eq!(s.uptime, 12);
    assert_eq!(s.peers, 0);
}

#[test]
fn a_name_with_a_prefix_or_a_namespace_is_another_name() {
    let s = decode_document(
        "<stats xmlns:t=\"urn:t\"><t:uptime>5</t:uptime><peers><count>7</count></peers></stats>",
    );
    assert_eq!(s.uptime, 0);
    assert_eq!(s.peers, 7);
    let s = decode_document("<stats xmlns=\"urn:t\"><uptime>5</uptime></stats>");
    assert_eq!(s.uptime, 0);
}

#[test]
fn leaf_names() {
    for name in ["count", "accept", "announce", "scrape", "overall", "connect", "missmatch"] {
        assert!(is_leaf(name), "{}", name);
    }
    for name in ["", "Count", "counts", "mismatch", "peers", "tcp", "http_error", "uptime", "livesync"] {
        assert!(!is_leaf(name), "{}", name);
    }
}

#[test]
fn fields_by_their_names() {
    let table = [
        ("tracker_id", "", "TrackerId"),
        ("tracker_id", "count", "TrackerId"),
        ("uptime", "scrape", "Uptime"),
        ("count_mutex", "", "TorrentsMutex"),
        ("count_iterator", "", "TorrentsIterator"),
        ("peers", "count", "Peers"),
        ("seeds", "count", "Seeds"),
        ("completed", "count", "Completed"),
        ("mutex_stall", "count", "MutexStall"),
        ("tcp", "accept", "TcpAccept"),
        ("tcp", "announce", "TcpAnnounce"),
        ("tcp", "scrape", "TcpScrape"),
        ("udp", "overall", "UdpOverall"),
        ("udp", "connect", "UdpConnect"),
        ("udp", "announce", "UdpAnnounce"),
        ("udp", "scrape", "UdpScrape"),
        ("udp", "missmatch", "UdpMissmatch"),
        ("livesync", "count", "Livesync"),
        ("http_error", "count", "HttpError"),
    ];
    for (outer, inner, want) in table {
        let field = field_for(outer, inner).expect(outer);
        assert_eq!(format!("{:?}", field), want);
    }
    for (outer, inner) in [
        ("", ""),
        ("peers", ""),
        ("peers", "accept"),
        ("tcp", "count"),
        ("tcp", "overall"),
        ("udp", "accept"),
        ("http_error", "scrape"),
        ("livesync", ""),
        ("livesync", "accept"),
        ("renew", "count"),
        ("stats", "count"),
        ("version", ""),
    ] {
        assert!(field_for(outer, inner).is_none(), "{} {}", outer, inner);
    }
}

#[test]
fn store_changes_one_field() {
    let fields = [
        Field::TrackerId,
        Field::Uptime,
        Field::TorrentsMutex,
        Field::TorrentsIterator,
        Field::Peers,
        Field::Seeds,
        Field::Completed,
        Field::MutexStall,
        Field::TcpAccept,
        Field::TcpAnnounce,
        Field::TcpScrape,
        Field::UdpOverall,
        Field::UdpConnect,
        Field::UdpAnnounce,
        Field::UdpScrape,
        Field::UdpMissmatch,
    ];
    for (i, field) in fields.iter().enumerate() {
        let mut s = Everything::new();
        store(&mut s, *field, "404", &format!("{}", 100 + i));
        let mut want = vec![0; 16];
        want[i] = 100 + i;
        assert_eq!(counters(&s), want);
        assert_eq!(s.connections.livesync, 0);
        assert_eq!(s.http_error.len(), 0);
        store(&mut s, *field, "404", "-1");
        assert_eq!(counters(&s), vec![0; 16]);
    }
    let mut s = Everything::new();
    store(&mut s, Field::HttpError, "404", "3");
    assert_eq!(counters(&s), vec![0; 16]);
    assert_eq!(s.connections.livesync, 0);
    assert_eq!(s.http_error.get("404"), Some(3));
    let mut s = Everything::new();
    store(&mut s, Field::Livesync, "404", "-3");
    assert_eq!(counters(&s), vec![0; 16]);
    assert_eq!(s.connections.livesync, -3);
    assert_eq!(s.http_error.len(), 0);
}

#[test]
fn the_live_sync_counter_is_decoded() {
    let s = decode_document(
        "<stats><connections><livesync><count>5</count></livesync></connections></stats>",
    );
    assert_eq!(s.connections.livesync, 5);
    assert_eq!(counters(&s), vec![0; 16]);
    assert_eq!(s.http_error.len(), 0);
}

#[test]
fn the_live_sync_counter_is_signed() {
    let of = |text: &str| {
        decode_document(&format!(
            "<stats><connections><livesync><count>{}</count></livesync></connections></stats>",
            text
        ))
        .connections
        .livesync
    };
    assert_eq!(of("-5"), -5);
    assert_eq!(of("+5"), 5);
    assert_eq!(of("-0"), 0);
    assert_eq!(of("007"), 7);
    assert_eq!(of(&isize::MAX.to_string()), isize::MAX);
    assert_eq!(of(&isize::MIN.to_string()), isize::MIN);
    assert_eq!(of(&usize::MAX.to_string()), 0);
    assert_eq!(of("-"), 0);
    assert_eq!(of("--5"), 0);
    assert_eq!(of("five"), 0);
    assert_eq!(of(" 5"), 0);
}

#[test]
fn a_bad_live_sync_text_touches_nothing_else() {
    let s = decode_document(
        "<stats><uptime>8</uptime><connections><tcp><accept>4</accept></tcp>\
<livesync><count>3</count></livesync><livesync><count>x</count></livesync>\
</connections><peers><count>-2</count></peers></stats>",
    );
    assert_eq!(s.connections.livesync, 0);
    assert_eq!(s.uptime, 8);
    assert_eq!(s.connections.tcp_accept, 4);
    assert_eq!(s.peers, 0);
}

#[test]
fn the_same_live_sync_events_decode_the_same_without_the_reader() {
    let s = decode_events(&vec![
        StatusEvent::Other,
        open("stats", &[]),
        open("connections", &[]),
        open("livesync", &[]),
        open("count", &[]),
        text("-12"),
        close("count"),
        close("livesync"),
        close("connections"),
        close("stats"),
        StatusEvent::Other,
    ]);
    assert_eq!(s.connections.livesync, -12);
    assert_eq!(counters(&s), vec![0; 16]);
}

#[test]
fn the_context_step_by_step() {
    let mut ctx = DecoderContext::new();
    let mut s = Everything::new();
    ctx.text(&mut s, "5");
    assert_eq!(counters(&s), vec![0; 16]);
    ctx.open("udp", &vec![]);
    ctx.text(&mut s, "5");
    assert_eq!(counters(&s), vec![0; 16]);
    ctx.open("overall", &vec![]);
    ctx.text(&mut s, "5");
    assert_eq!(s.connections.udp_overall, 5);
    ctx.open("tcp", &vec![]);
    ctx.text(&mut s, "6");
    assert_eq!(s.connections.udp_overall, 5);
    ctx.open("scrape", &vec!["ignored".to_string()]);
    ctx.text(&mut s, "6");
    assert_eq!(s.connections.tcp_scrape, 6);
    ctx.open("http_error", &vec!["nor this".to_string()]);
    ctx.text(&mut s, "1");
    assert_eq!(s.http_error.len(), 0);
    ctx.open("count", &vec!["503".to_string()]);
    ctx.text(&mut s, "1");
    assert_eq!(s.http_error.get("503"), Some(1));
    ctx.open("livesync", &vec![]);
    ctx.text(&mut s, "-4");
    assert_eq!(s.connections.livesync, -4);
    assert_eq!(s.http_error.len(), 1);
}
