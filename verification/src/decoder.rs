//! Decoding of a status document: from the events of the document to the
//! snapshot of the counters that it reports.
//!
//! Elements such as `count` occur under several parents and mean something
//! else under each. The decoder therefore keeps two names: that of the last
//! element opened whose name tells leaves apart, and that of the last other
//! element opened. Character data is stored in the field that the two names
//! select.

use vstd::prelude::*;
use crate::events::{document_events, read_events, EventView, StatusEvent};
use crate::snapshot::{
    code_map, distinct_codes, insert_code, lemma_insert_code, ConnectionsView, Everything,
    Snapshot, TorrentsView,
};
use crate::text::{
    count_of, is_count, is_signed, parse_count, parse_signed, same_text, signed_of,
};

verus! {

/// The names that occur under several parents and tell the leaves under one
/// parent apart.
pub open spec fn is_leaf_name(name: Seq<char>) -> bool {
    ||| name == "count"@
    ||| name == "accept"@
    ||| name == "announce"@
    ||| name == "scrape"@
    ||| name == "overall"@
    ||| name == "connect"@
    ||| name == "missmatch"@
}

/// A field of the snapshot that character data of a document can fill.
#[derive(Clone, Copy, Debug)]
pub enum Field {
    TrackerId,
    Uptime,
    TorrentsMutex,
    TorrentsIterator,
    Peers,
    Seeds,
    Completed,
    MutexStall,
    TcpAccept,
    TcpAnnounce,
    TcpScrape,
    UdpOverall,
    UdpConnect,
    UdpAnnounce,
    UdpScrape,
    UdpMissmatch,
    Livesync,
    HttpError,
}

/// The field that character data fills while `outer` is the last other
/// element opened and `inner` the last leaf name opened, if there is one.
pub open spec fn field_of(outer: Seq<char>, inner: Seq<char>) -> Option<Field> {
    if outer == "tracker_id"@ {
        Some(Field::TrackerId)
    } else if outer == "uptime"@ {
        Some(Field::Uptime)
    } else if outer == "count_mutex"@ {
        Some(Field::TorrentsMutex)
    } else if outer == "count_iterator"@ {
        Some(Field::TorrentsIterator)
    } else if outer == "peers"@ && inner == "count"@ {
        Some(Field::Peers)
    } else if outer == "seeds"@ && inner == "count"@ {
        Some(Field::Seeds)
    } else if outer == "completed"@ && inner == "count"@ {
        Some(Field::Completed)
    } else if outer == "mutex_stall"@ && inner == "count"@ {
        Some(Field::MutexStall)
    } else if outer == "tcp"@ && inner == "accept"@ {
        Some(Field::TcpAccept)
    } else if outer == "tcp"@ && inner == "announce"@ {
        Some(Field::TcpAnnounce)
    } else if outer == "tcp"@ && inner == "scrape"@ {
        Some(Field::TcpScrape)
    } else if outer == "udp"@ && inner == "overall"@ {
        Some(Field::UdpOverall)
    } else if outer == "udp"@ && inner == "connect"@ {
        Some(Field::UdpConnect)
    } else if outer == "udp"@ && inner == "announce"@ {
        Some(Field::UdpAnnounce)
    } else if outer == "udp"@ && inner == "scrape"@ {
        Some(Field::UdpScrape)
    } else if outer == "udp"@ && inner == "missmatch"@ {
        Some(Field::UdpMissmatch)
    } else if outer == "livesync"@ && inner == "count"@ {
        Some(Field::Livesync)
    } else if outer == "http_error"@ && inner == "count"@ {
        Some(Field::HttpError)
    } else {
        None
    }
}

/// The number that `text` writes for `field`: a signed number for the
/// live-sync counter, a count for every other field, and zero where the
/// text writes no such number.
pub open spec fn text_value(field: Field, text: Seq<char>) -> int {
    match field {
        Field::Livesync => signed_of(text),
        _ => count_of(text) as int,
    }
}

/// `text` writes a number of the kind that `field` holds.
pub open spec fn writes_number(field: Field, text: Seq<char>) -> bool {
    match field {
        Field::Livesync => is_signed(text),
        _ => is_count(text),
    }
}

/// The snapshot `s` with the number that `text` writes stored in `field`:
/// the signed number for the live-sync counter, the count for every other
/// field. For the HTTP status codes the count is recorded as that of
/// `code`.
pub open spec fn with_field(s: Snapshot, field: Field, code: Seq<char>, text: Seq<char>) -> Snapshot {
    let value = count_of(text);
    match field {
        Field::TrackerId => Snapshot { tracker_id: value, ..s },
        Field::Uptime => Snapshot { uptime: value, ..s },
        Field::TorrentsMutex => Snapshot {
            torrents: TorrentsView { mutex: value, ..s.torrents },
            ..s
        },
        Field::TorrentsIterator => Snapshot {
            torrents: TorrentsView { iterator: value, ..s.torrents },
            ..s
        },
        Field::Peers => Snapshot { peers: value, ..s },
        Field::Seeds => Snapshot { seeds: value, ..s },
        Field::Completed => Snapshot { completed: value, ..s },
        Field::MutexStall => Snapshot { mutex_stall: value, ..s },
        Field::TcpAccept => Snapshot {
            connections: ConnectionsView { tcp_accept: value, ..s.connections },
            ..s
        },
        Field::TcpAnnounce => Snapshot {
            connections: ConnectionsView { tcp_announce: value, ..s.connections },
            ..s
        },
        Field::TcpScrape => Snapshot {
            connections: ConnectionsView { tcp_scrape: value, ..s.connections },
            ..s
        },
        Field::UdpOverall => Snapshot {
            connections: ConnectionsView { udp_overall: value, ..s.connections },
            ..s
        },
        Field::UdpConnect => Snapshot {
            connections: ConnectionsView { udp_connect: value, ..s.connections },
            ..s
        },
        Field::UdpAnnounce => Snapshot {
            connections: ConnectionsView { udp_announce: value, ..s.connections },
            ..s
        },
        Field::UdpScrape => Snapshot {
            connections: ConnectionsView { udp_scrape: value, ..s.connections },
            ..s
        },
        Field::UdpMissmatch => Snapshot {
            connections: ConnectionsView { udp_missmatch: value, ..s.connections },
            ..s
        },
        Field::Livesync => Snapshot {
            connections: ConnectionsView { livesync: signed_of(text), ..s.connections },
            ..s
        },
        Field::HttpError => Snapshot { http_error: insert_code(s.http_error, code, value), ..s },
    }
}

/// What the decoder remembers between two events.
pub struct ContextView {
    /// The name of the last element opened that is no leaf name.
    pub outer: Seq<char>,
    /// The last leaf name opened.
    pub inner: Seq<char>,
    /// The status code under which the next count of HTTP errors is
    /// recorded.
    pub code: Seq<char>,
}

impl ContextView {
    /// The context before the first event: no name seen, no code pending.
    pub open spec fn initial() -> ContextView {
        ContextView { outer: Seq::empty(), inner: Seq::empty(), code: Seq::empty() }
    }
}

/// The context after an element `name` with the attribute values
/// `attributes` has opened. A `count` under `http_error` with exactly one
/// attribute makes that attribute's value the pending status code. A leaf
/// name becomes the inner name, any other name the outer name.
pub open spec fn open_step(ctx: ContextView, name: Seq<char>, attributes: Seq<Seq<char>>) -> ContextView {
    let code = if name == "count"@ && ctx.outer == "http_error"@ && attributes.len() == 1 {
        attributes[0]
    } else {
        ctx.code
    };
    if is_leaf_name(name) {
        ContextView { outer: ctx.outer, inner: name, code }
    } else {
        ContextView { outer: name, inner: ctx.inner, code }
    }
}

/// The snapshot after character data `text` was read in the context `ctx`:
/// the number that the text writes, zero where it writes none, is stored in
/// the field that the context selects; where it selects none, nothing
/// changes.
pub open spec fn text_step(ctx: ContextView, s: Snapshot, text: Seq<char>) -> Snapshot {
    match field_of(ctx.outer, ctx.inner) {
        Some(field) => with_field(s, field, ctx.code, text),
        None => s,
    }
}

/// The decoder between two events: its context and the snapshot so far.
pub struct DecodeState {
    pub ctx: ContextView,
    pub snapshot: Snapshot,
}

impl DecodeState {
    /// The decoder before the first event.
    pub open spec fn initial() -> DecodeState {
        DecodeState { ctx: ContextView::initial(), snapshot: Snapshot::zero() }
    }
}

/// The decoder after one more event. Only the opening of an element and
/// character data change it.
pub open spec fn event_step(state: DecodeState, event: EventView) -> DecodeState {
    match event {
        EventView::Open { name, attributes } => DecodeState {
            ctx: open_step(state.ctx, name, attributes),
            snapshot: state.snapshot,
        },
        EventView::Text { text } => DecodeState {
            ctx: state.ctx,
            snapshot: text_step(state.ctx, state.snapshot, text),
        },
        _ => state,
    }
}

/// The decoder after all of `events`, taken in order.
pub open spec fn run_events(events: Seq<EventView>) -> DecodeState
    decreases events.len(),
{
    if events.len() == 0 {
        DecodeState::initial()
    } else {
        event_step(run_events(events.drop_last()), events.last())
    }
}

/// None of `events` says that the document is malformed.
pub open spec fn well_formed(events: Seq<EventView>) -> bool {
    forall|i: int| 0 <= i < events.len() ==> !(#[trigger] events[i] is Malformed)
}

/// The snapshot that `events` decode to: what the decoder holds after all
/// of them and, for a malformed document, the snapshot of zeros.
pub open spec fn decoded(events: Seq<EventView>) -> Snapshot {
    if well_formed(events) {
        run_events(events).snapshot
    } else {
        Snapshot::zero()
    }
}

/// Storing a number keeps the status codes distinct.
pub proof fn lemma_with_field_distinct(s: Snapshot, field: Field, code: Seq<char>, text: Seq<char>)
    requires
        distinct_codes(s.http_error),
    ensures
        distinct_codes(with_field(s, field, code, text).http_error),
{
    lemma_insert_code(s.http_error, code, count_of(text));
}

/// Whatever the events, the decoder holds no status code twice.
pub proof fn lemma_run_events_distinct(events: Seq<EventView>)
    ensures
        distinct_codes(run_events(events).snapshot.http_error),
        distinct_codes(decoded(events).http_error),
    decreases events.len(),
{
    if events.len() > 0 {
        let before = run_events(events.drop_last());
        lemma_run_events_distinct(events.drop_last());
        match events.last() {
            EventView::Text { text } => {
                match field_of(before.ctx.outer, before.ctx.inner) {
                    Some(field) => {
                        lemma_with_field_distinct(before.snapshot, field, before.ctx.code, text);
                    },
                    None => {},
                }
            },
            _ => {},
        }
    }
}

/// Whether `name` is a leaf name.
pub fn is_leaf(name: &str) -> (leaf: bool)
    ensures
        leaf == is_leaf_name(name@),
{
    same_text(name, "count") || same_text(name, "accept") || same_text(name, "announce")
        || same_text(name, "scrape") || same_text(name, "overall") || same_text(name, "connect")
        || same_text(name, "missmatch")
}

/// The field that the two names select.
pub fn field_for(outer: &str, inner: &str) -> (field: Option<Field>)
    ensures
        field == field_of(outer@, inner@),
{
    if same_text(outer, "tracker_id") {
        Some(Field::TrackerId)
    } else if same_text(outer, "uptime") {
        Some(Field::Uptime)
    } else if same_text(outer, "count_mutex") {
        Some(Field::TorrentsMutex)
    } else if same_text(outer, "count_iterator") {
        Some(Field::TorrentsIterator)
    } else if same_text(outer, "peers") && same_text(inner, "count") {
        Some(Field::Peers)
    } else if same_text(outer, "seeds") && same_text(inner, "count") {
        Some(Field::Seeds)
    } else if same_text(outer, "completed") && same_text(inner, "count") {
        Some(Field::Completed)
    } else if same_text(outer, "mutex_stall") && same_text(inner, "count") {
        Some(Field::MutexStall)
    } else if same_text(outer, "tcp") && same_text(inner, "accept") {
        Some(Field::TcpAccept)
    } else if same_text(outer, "tcp") && same_text(inner, "announce") {
        Some(Field::TcpAnnounce)
    } else if same_text(outer, "tcp") && same_text(inner, "scrape") {
        Some(Field::TcpScrape)
    } else if same_text(outer, "udp") && same_text(inner, "overall") {
        Some(Field::UdpOverall)
    } else if same_text(outer, "udp") && same_text(inner, "connect") {
        Some(Field::UdpConnect)
    } else if same_text(outer, "udp") && same_text(inner, "announce") {
        Some(Field::UdpAnnounce)
    } else if same_text(outer, "udp") && same_text(inner, "scrape") {
        Some(Field::UdpScrape)
    } else if same_text(outer, "udp") && same_text(inner, "missmatch") {
        Some(Field::UdpMissmatch)
    } else if same_text(outer, "livesync") && same_text(inner, "count") {
        Some(Field::Livesync)
    } else if same_text(outer, "http_error") && same_text(inner, "count") {
        Some(Field::HttpError)
    } else {
        None
    }
}

/// Stores the number that `text` writes in `field` of the snapshot: the
/// signed number for the live-sync counter, the count for every other
/// field. For the HTTP status codes the count is recorded as that of `code`.
pub fn store(snapshot: &mut Everything, field: Field, code: &str, text: &str)
    ensures
        final(snapshot)@ == with_field(old(snapshot)@, field, code@, text@),
        old(snapshot).http_error.wf() ==> final(snapshot).http_error.wf(),
{
    match field {
        Field::TrackerId => {
            snapshot.tracker_id = parse_count(text);
        },
        Field::Uptime => {
            snapshot.uptime = parse_count(text);
        },
        Field::TorrentsMutex => {
            snapshot.torrents.mutex = parse_count(text);
        },
        Field::TorrentsIterator => {
            snapshot.torrents.iterator = parse_count(text);
        },
        Field::Peers => {
            snapshot.peers = parse_count(text);
        },
        Field::Seeds => {
            snapshot.seeds = parse_count(text);
        },
        Field::Completed => {
            snapshot.completed = parse_count(text);
        },
        Field::MutexStall => {
            snapshot.mutex_stall = parse_count(text);
        },
        Field::TcpAccept => {
            snapshot.connections.tcp_accept = parse_count(text);
        },
        Field::TcpAnnounce => {
            snapshot.connections.tcp_announce = parse_count(text);
        },
        Field::TcpScrape => {
            snapshot.connections.tcp_scrape = parse_count(text);
        },
        Field::UdpOverall => {
            snapshot.connections.udp_overall = parse_count(text);
        },
        Field::UdpConnect => {
            snapshot.connections.udp_connect = parse_count(text);
        },
        Field::UdpAnnounce => {
            snapshot.connections.udp_announce = parse_count(text);
        },
        Field::UdpScrape => {
            snapshot.connections.udp_scrape = parse_count(text);
        },
        Field::UdpMissmatch => {
            snapshot.connections.udp_missmatch = parse_count(text);
        },
        Field::Livesync => {
            snapshot.connections.livesync = parse_signed(text);
        },
        Field::HttpError => {
            snapshot.http_error.insert(code.to_owned(), parse_count(text));
        },
    }
}

/// What the decoder remembers between two events of one document.
#[derive(Debug)]
pub struct DecoderContext {
    outer_name: String,
    inner_name: String,
    http_code: String,
}

impl View for DecoderContext {
    type V = ContextView;

    closed spec fn view(&self) -> ContextView {
        ContextView { outer: self.outer_name@, inner: self.inner_name@, code: self.http_code@ }
    }
}

impl DecoderContext {
    /// The context before the first event.
    pub fn new() -> (ctx: Self)
        ensures
            ctx@ == ContextView::initial(),
    {
        DecoderContext {
            outer_name: String::new(),
            inner_name: String::new(),
            http_code: String::new(),
        }
    }

    /// Takes note of an element that opens.
    pub fn open(&mut self, name: &str, attributes: &Vec<String>)
        ensures
            final(self)@ == open_step(old(self)@, name@, attributes.deep_view()),
    {
        if same_text(name, "count") && same_text(self.outer_name.as_str(), "http_error")
            && attributes.len() == 1 {
            self.http_code = attributes[0].clone();
        }
        if is_leaf(name) {
            self.inner_name = name.to_owned();
        } else {
            self.outer_name = name.to_owned();
        }
    }

    /// Stores character data in the field of `snapshot` that the context
    /// selects.
    pub fn text(&self, snapshot: &mut Everything, data: &str)
        ensures
            final(snapshot)@ == text_step(self@, old(snapshot)@, data@),
            old(snapshot).http_error.wf() ==> final(snapshot).http_error.wf(),
    {
        match field_for(self.outer_name.as_str(), self.inner_name.as_str()) {
            Some(field) => {
                store(snapshot, field, self.http_code.as_str(), data);
            },
            None => {},
        }
    }
}

/// Decodes the events of a status document. Where one of them says that the
/// document is malformed, the result is the snapshot of zeros.
pub fn decode_events(events: &Vec<StatusEvent>) -> (snapshot: Everything)
    ensures
        snapshot@ == decoded(events.deep_view()),
        snapshot.http_error.wf(),
{
    let ghost views = events.deep_view();
    let mut ctx = DecoderContext::new();
    let mut snapshot = Everything::new();
    let mut i: usize = 0;
    while i < events.len()
        invariant
            i <= events.len(),
            views == events.deep_view(),
            well_formed(views.take(i as int)),
            ctx@ == run_events(views.take(i as int)).ctx,
            snapshot@ == run_events(views.take(i as int)).snapshot,
            snapshot.http_error.wf(),
        decreases events.len() - i,
    {
        let ghost seen = views.take(i as int);
        let ghost next = views.take(i + 1);
        assert(next.drop_last() == seen);
        match &events[i] {
            StatusEvent::Open { name, attributes } => {
                ctx.open(name.as_str(), attributes);
            },
            StatusEvent::Text { text } => {
                ctx.text(&mut snapshot, text.as_str());
            },
            StatusEvent::Malformed => {
                assert(views[i as int] is Malformed);
                return Everything::new();
            },
            _ => {},
        }
        assert forall|j: int| 0 <= j < next.len() implies !(#[trigger] next[j] is Malformed) by {}
        i += 1;
    }
    assert(views.take(i as int) == views);
    snapshot
}

/// Decodes a status document: the snapshot that the events of `body`
/// decode to.
pub fn decode_document(body: &str) -> (snapshot: Everything)
    ensures
        snapshot@ == decoded(document_events(body@)),
        snapshot.http_error.wf(),
{
    let events = read_events(body);
    decode_events(&events)
}

/// The events of an element that holds character data and nothing else.
pub open spec fn leaf_events(name: Seq<char>, attributes: Seq<Seq<char>>, text: Seq<char>) -> Seq<
    EventView,
> {
    seq![
        EventView::Open { name, attributes },
        EventView::Text { text },
        EventView::Close { name },
    ]
}

/// The events of a status document that reports the tracker's id, its
/// uptime and the count of one HTTP status code, each with the text given.
pub open spec fn status_events(
    id: Seq<char>,
    uptime: Seq<char>,
    code: Seq<char>,
    count: Seq<char>,
) -> Seq<EventView> {
    seq![EventView::Other, EventView::Open { name: "stats"@, attributes: Seq::empty() }]
        + leaf_events("tracker_id"@, Seq::empty(), id) + leaf_events(
        "uptime"@,
        Seq::empty(),
        uptime,
    ) + seq![EventView::Open { name: "http_error"@, attributes: Seq::empty() }] + leaf_events(
        "count"@,
        seq![code],
        count,
    ) + seq![
        EventView::Close { name: "http_error"@ },
        EventView::Close { name: "stats"@ },
        EventView::Other,
    ]
}

/// The decoder after one more event is the decoder so far, one step on.
pub proof fn lemma_run_push(events: Seq<EventView>, event: EventView)
    ensures
        run_events(events.push(event)) == event_step(run_events(events), event),
{
    assert(events.push(event).drop_last() == events);
}

/// The decoder after the events of an element that holds character data
/// and nothing else.
pub proof fn lemma_run_leaf(
    events: Seq<EventView>,
    name: Seq<char>,
    attributes: Seq<Seq<char>>,
    text: Seq<char>,
)
    ensures
        run_events(events + leaf_events(name, attributes, text)) == ({
            let before = run_events(events);
            let ctx = open_step(before.ctx, name, attributes);
            DecodeState { ctx, snapshot: text_step(ctx, before.snapshot, text) }
        }),
{
    let a = events.push(EventView::Open { name, attributes });
    let b = a.push(EventView::Text { text });
    let c = b.push(EventView::Close { name });
    lemma_run_push(events, EventView::Open { name, attributes });
    lemma_run_push(a, EventView::Text { text });
    lemma_run_push(b, EventView::Close { name });
    assert(c =~= events + leaf_events(name, attributes, text));
}

/// The names of the elements of a status document that reports an id, an
/// uptime and a status code select the fields that they stand for.
proof fn lemma_status_names()
    ensures
        !is_leaf_name("stats"@),
        !is_leaf_name("tracker_id"@),
        !is_leaf_name("uptime"@),
        !is_leaf_name("http_error"@),
        is_leaf_name("count"@),
        forall|inner: Seq<char>| field_of("tracker_id"@, inner) == Some(Field::TrackerId),
        forall|inner: Seq<char>| field_of("uptime"@, inner) == Some(Field::Uptime),
        field_of("http_error"@, "count"@) == Some(Field::HttpError),
        !is_leaf_name("connections"@),
        !is_leaf_name("livesync"@),
        field_of("livesync"@, "count"@) == Some(Field::Livesync),
{
    reveal_strlit("connections");
    reveal_strlit("livesync");
    reveal_strlit("stats");
    reveal_strlit("tracker_id");
    reveal_strlit("uptime");
    reveal_strlit("http_error");
    reveal_strlit("count");
    reveal_strlit("accept");
    reveal_strlit("announce");
    reveal_strlit("scrape");
    reveal_strlit("overall");
    reveal_strlit("connect");
    reveal_strlit("missmatch");
    reveal_strlit("count_mutex");
    reveal_strlit("count_iterator");
    reveal_strlit("peers");
    reveal_strlit("seeds");
    reveal_strlit("completed");
    reveal_strlit("mutex_stall");
    reveal_strlit("tcp");
    reveal_strlit("udp");
    assert("uptime"@[0] == 'u');
    assert("stats"@[1] == 't');
    assert("http_error"@[0] == 'h');
    assert("tracker_id"@[0] == 't');
    assert("livesync"@[0] == 'l');
    assert("connections"@.len() == 11);
}

/// A status document that reports the tracker's id, its uptime and the
/// count of one HTTP status code decodes to the snapshot that holds the
/// three counts that its texts write, the status code as the document
/// writes it, and zero in every other field.
pub proof fn lemma_decode_status(
    id: Seq<char>,
    uptime: Seq<char>,
    code: Seq<char>,
    count: Seq<char>,
)
    ensures
        decoded(status_events(id, uptime, code, count)) == (Snapshot {
            tracker_id: count_of(id),
            uptime: count_of(uptime),
            http_error: seq![(code, count_of(count))],
            ..Snapshot::zero()
        }),
{
    lemma_status_names();
    let none = Seq::<Seq<char>>::empty();
    let e0 = Seq::<EventView>::empty().push(EventView::Other);
    let e1 = e0.push(EventView::Open { name: "stats"@, attributes: none });
    let e2 = e1 + leaf_events("tracker_id"@, none, id);
    let e3 = e2 + leaf_events("uptime"@, none, uptime);
    let e4 = e3.push(EventView::Open { name: "http_error"@, attributes: none });
    let e5 = e4 + leaf_events("count"@, seq![code], count);
    let e6 = e5.push(EventView::Close { name: "http_error"@ });
    let e7 = e6.push(EventView::Close { name: "stats"@ });
    let e8 = e7.push(EventView::Other);
    lemma_run_push(Seq::empty(), EventView::Other);
    lemma_run_push(e0, EventView::Open { name: "stats"@, attributes: none });
    lemma_run_leaf(e1, "tracker_id"@, none, id);
    lemma_run_leaf(e2, "uptime"@, none, uptime);
    lemma_run_push(e3, EventView::Open { name: "http_error"@, attributes: none });
    lemma_run_leaf(e4, "count"@, seq![code], count);
    lemma_run_push(e5, EventView::Close { name: "http_error"@ });
    lemma_run_push(e6, EventView::Close { name: "stats"@ });
    lemma_run_push(e7, EventView::Other);
    assert(e8 =~= status_events(id, uptime, code, count));
}

/// The events of a status document that reports the live-sync counter
/// alone, with the text given.
pub open spec fn livesync_events(count: Seq<char>) -> Seq<EventView> {
    seq![
        EventView::Other,
        EventView::Open { name: "stats"@, attributes: Seq::empty() },
        EventView::Open { name: "connections"@, attributes: Seq::empty() },
        EventView::Open { name: "livesync"@, attributes: Seq::empty() },
    ] + leaf_events("count"@, Seq::empty(), count) + seq![
        EventView::Close { name: "livesync"@ },
        EventView::Close { name: "connections"@ },
        EventView::Close { name: "stats"@ },
        EventView::Other,
    ]
}

/// A status document that reports the live-sync counter decodes to the
/// snapshot that holds the signed number that its text writes, and zero in
/// every other field.
pub proof fn lemma_decode_livesync(count: Seq<char>)
    ensures
        decoded(livesync_events(count)) == (Snapshot {
            connections: ConnectionsView { livesync: signed_of(count), ..ConnectionsView::zero() },
            ..Snapshot::zero()
        }),
{
    lemma_status_names();
    let none = Seq::<Seq<char>>::empty();
    let e0 = Seq::<EventView>::empty().push(EventView::Other);
    let e1 = e0.push(EventView::Open { name: "stats"@, attributes: none });
    let e2 = e1.push(EventView::Open { name: "connections"@, attributes: none });
    let e3 = e2.push(EventView::Open { name: "livesync"@, attributes: none });
    let e4 = e3 + leaf_events("count"@, none, count);
    let e5 = e4.push(EventView::Close { name: "livesync"@ });
    let e6 = e5.push(EventView::Close { name: "connections"@ });
    let e7 = e6.push(EventView::Close { name: "stats"@ });
    let e8 = e7.push(EventView::Other);
    lemma_run_push(Seq::empty(), EventView::Other);
    lemma_run_push(e0, EventView::Open { name: "stats"@, attributes: none });
    lemma_run_push(e1, EventView::Open { name: "connections"@, attributes: none });
    lemma_run_push(e2, EventView::Open { name: "livesync"@, attributes: none });
    lemma_run_leaf(e3, "count"@, none, count);
    lemma_run_push(e4, EventView::Close { name: "livesync"@ });
    lemma_run_push(e5, EventView::Close { name: "connections"@ });
    lemma_run_push(e6, EventView::Close { name: "stats"@ });
    lemma_run_push(e7, EventView::Other);
    assert(e8 =~= livesync_events(count));
}

/// The number that a snapshot holds in `field`; for the HTTP status codes,
/// the count of `code`, if the snapshot holds that code.
pub open spec fn value_in(s: Snapshot, field: Field, code: Seq<char>) -> Option<int> {
    match field {
        Field::TrackerId => Some(s.tracker_id as int),
        Field::Uptime => Some(s.uptime as int),
        Field::TorrentsMutex => Some(s.torrents.mutex as int),
        Field::TorrentsIterator => Some(s.torrents.iterator as int),
        Field::Peers => Some(s.peers as int),
        Field::Seeds => Some(s.seeds as int),
        Field::Completed => Some(s.completed as int),
        Field::MutexStall => Some(s.mutex_stall as int),
        Field::TcpAccept => Some(s.connections.tcp_accept as int),
        Field::TcpAnnounce => Some(s.connections.tcp_announce as int),
        Field::TcpScrape => Some(s.connections.tcp_scrape as int),
        Field::UdpOverall => Some(s.connections.udp_overall as int),
        Field::UdpConnect => Some(s.connections.udp_connect as int),
        Field::UdpAnnounce => Some(s.connections.udp_announce as int),
        Field::UdpScrape => Some(s.connections.udp_scrape as int),
        Field::UdpMissmatch => Some(s.connections.udp_missmatch as int),
        Field::Livesync => Some(s.connections.livesync),
        Field::HttpError => if code_map(s.http_error).dom().contains(code) {
            Some(code_map(s.http_error)[code] as int)
        } else {
            None
        },
    }
}

/// Storing the number that a text writes makes it the number of that
/// field, and of that status code where the field is that of the HTTP
/// status codes. Every other number stays what it was.
pub proof fn lemma_with_field_frame(s: Snapshot, field: Field, code: Seq<char>, text: Seq<char>)
    requires
        distinct_codes(s.http_error),
    ensures
        value_in(with_field(s, field, code, text), field, code) == Some(text_value(field, text)),
        forall|other: Field, c: Seq<char>|
            other != field || (field == Field::HttpError && c != code) ==> #[trigger] value_in(
                with_field(s, field, code, text),
                other,
                c,
            ) == value_in(s, other, c),
{
    lemma_insert_code(s.http_error, code, count_of(text));
}

/// Character data that writes no number of the kind that the selected
/// field holds stores zero in that field, and leaves every other number as
/// it was.
pub proof fn lemma_text_without_number(ctx: ContextView, s: Snapshot, text: Seq<char>, field: Field)
    requires
        distinct_codes(s.http_error),
        field_of(ctx.outer, ctx.inner) == Some(field),
        !writes_number(field, text),
    ensures
        value_in(text_step(ctx, s, text), field, ctx.code) == Some(0int),
        forall|other: Field, c: Seq<char>|
            other != field || (field == Field::HttpError && c != ctx.code) ==> #[trigger] value_in(
                text_step(ctx, s, text),
                other,
                c,
            ) == value_in(s, other, c),
{
    lemma_with_field_frame(s, field, ctx.code, text);
}

/// A document without events, and a document that is malformed anywhere,
/// decode to the snapshot of zeros.
pub proof fn lemma_decode_nothing(events: Seq<EventView>)
    ensures
        decoded(Seq::empty()) == Snapshot::zero(),
        !well_formed(events) ==> decoded(events) == Snapshot::zero(),
{
}

} // verus!
