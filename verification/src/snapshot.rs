//! The counters of a tracker at one moment: what one status document says.

use vstd::prelude::*;
use crate::text::same_text;

verus! {

/// One HTTP status code, as the tracker writes it, with its count.
pub type CodeEntry = (Seq<char>, nat);

/// The first position of `code` among `entries`, if it occurs there.
pub open spec fn code_index(entries: Seq<CodeEntry>, code: Seq<char>) -> Option<int>
    decreases entries.len(),
{
    if entries.len() == 0 {
        None
    } else if entries[0].0 == code {
        Some(0)
    } else {
        match code_index(entries.skip(1), code) {
            Some(i) => Some(i + 1),
            None => None,
        }
    }
}

/// `entries` with `count` recorded for `code`: in the place of the count that
/// `code` had, or at the end where it had none.
pub open spec fn insert_code(entries: Seq<CodeEntry>, code: Seq<char>, count: nat) -> Seq<
    CodeEntry,
> {
    match code_index(entries, code) {
        Some(i) => entries.update(i, (code, count)),
        None => entries.push((code, count)),
    }
}

/// No code occurs twice among `entries`.
pub open spec fn distinct_codes(entries: Seq<CodeEntry>) -> bool {
    forall|i: int, j: int|
        0 <= i < entries.len() && 0 <= j < entries.len() && i != j ==> entries[i].0
            != entries[j].0
}

/// The counts of `entries` by code; of two entries with one code the later
/// one counts.
pub open spec fn code_map(entries: Seq<CodeEntry>) -> Map<Seq<char>, nat>
    decreases entries.len(),
{
    if entries.len() == 0 {
        Map::empty()
    } else {
        code_map(entries.drop_last()).insert(entries.last().0, entries.last().1)
    }
}

/// Where `code_index` finds a code, that is its first place; where it finds
/// none, the code is at no place.
pub proof fn lemma_code_index(entries: Seq<CodeEntry>, code: Seq<char>)
    ensures
        match code_index(entries, code) {
            Some(i) => {
                &&& 0 <= i < entries.len()
                &&& entries[i].0 == code
                &&& forall|j: int| 0 <= j < i ==> entries[j].0 != code
            },
            None => forall|j: int| 0 <= j < entries.len() ==> entries[j].0 != code,
        },
    decreases entries.len(),
{
    if entries.len() > 0 && entries[0].0 != code {
        let rest = entries.skip(1);
        lemma_code_index(rest, code);
        match code_index(rest, code) {
            Some(i) => {
                assert forall|j: int| 0 <= j < i + 1 implies entries[j].0 != code by {
                    if j > 0 {
                        assert(entries[j] == rest[j - 1]);
                    }
                }
            },
            None => {
                assert forall|j: int| 0 <= j < entries.len() implies entries[j].0 != code by {
                    if j > 0 {
                        assert(entries[j] == rest[j - 1]);
                    }
                }
            },
        }
    }
}

/// A code that first occurs at `i` is found there.
pub proof fn lemma_code_index_is(entries: Seq<CodeEntry>, code: Seq<char>, i: int)
    requires
        0 <= i <= entries.len(),
        forall|j: int| 0 <= j < i ==> entries[j].0 != code,
        i < entries.len() ==> entries[i].0 == code,
    ensures
        code_index(entries, code) == if i < entries.len() {
            Some(i)
        } else {
            None
        },
{
    lemma_code_index(entries, code);
}

/// Recording a count keeps the codes distinct, and changes the count of that
/// code alone.
pub proof fn lemma_insert_code(entries: Seq<CodeEntry>, code: Seq<char>, count: nat)
    requires
        distinct_codes(entries),
    ensures
        distinct_codes(insert_code(entries, code, count)),
        code_map(insert_code(entries, code, count)) == code_map(entries).insert(code, count),
{
    lemma_code_index(entries, code);
    let after = insert_code(entries, code, count);
    match code_index(entries, code) {
        Some(i) => {
            lemma_code_map_update(entries, i, count);
        },
        None => {
            assert(after.drop_last() == entries);
        },
    }
}

/// The map of distinct entries holds each entry's count under its code, and
/// no other code.
pub proof fn lemma_code_map(entries: Seq<CodeEntry>)
    requires
        distinct_codes(entries),
    ensures
        forall|i: int| 0 <= i < entries.len() ==> code_map(entries).contains_pair(#[trigger] entries[i].0, entries[i].1),
        forall|code: Seq<char>| #[trigger]
            code_map(entries).dom().contains(code) ==> code_index(entries, code) is Some,
    decreases entries.len(),
{
    if entries.len() > 0 {
        let front = entries.drop_last();
        lemma_code_map(front);
        assert forall|i: int| 0 <= i < entries.len() implies code_map(entries).contains_pair(#[trigger] entries[i].0, entries[i].1) by {
            if i < entries.len() - 1 {
                assert(front[i] == entries[i]);
            }
        }
        assert forall|code: Seq<char>| #[trigger]
            code_map(entries).dom().contains(code) implies code_index(entries, code) is Some by {
            lemma_code_index(entries, code);
            if code != entries.last().0 {
                lemma_code_index(front, code);
                let i = code_index(front, code).unwrap();
            }
        }
    }
}

/// Changing the count at one place of distinct entries changes the count of
/// that code in the map, and nothing else.
proof fn lemma_code_map_update(entries: Seq<CodeEntry>, i: int, count: nat)
    requires
        distinct_codes(entries),
        0 <= i < entries.len(),
    ensures
        code_map(entries.update(i, (entries[i].0, count))) == code_map(entries).insert(
            entries[i].0,
            count,
        ),
    decreases entries.len(),
{
    let after = entries.update(i, (entries[i].0, count));
    let front = entries.drop_last();
    if i == entries.len() - 1 {
        assert(after.drop_last() == front);
    } else {
        lemma_code_map_update(front, i, count);
        assert(after.drop_last() == front.update(i, (entries[i].0, count)));
    }
}

/// Counts of HTTP status codes, each code held once, in the order in which
/// the codes were first recorded.
#[derive(Debug)]
pub struct HttpErrors {
    entries: Vec<(String, usize)>,
}

impl View for HttpErrors {
    type V = Seq<CodeEntry>;

    closed spec fn view(&self) -> Seq<CodeEntry> {
        Seq::new(self.entries@.len(), |i: int| (self.entries@[i].0@, self.entries@[i].1 as nat))
    }
}

impl HttpErrors {
    /// The table holds no code twice.
    pub open spec fn wf(&self) -> bool {
        distinct_codes(self@)
    }

    /// A table without any code.
    pub fn new() -> (table: Self)
        ensures
            table@ == Seq::<CodeEntry>::empty(),
            table.wf(),
    {
        let table = HttpErrors { entries: Vec::new() };
        table
    }

    /// The number of codes.
    pub fn len(&self) -> (n: usize)
        ensures
            n == self@.len(),
    {
        self.entries.len()
    }

    /// The code at place `i`.
    pub fn code_at(&self, i: usize) -> (code: &str)
        requires
            i < self@.len(),
        ensures
            code@ == self@[i as int].0,
    {
        self.entries[i].0.as_str()
    }

    /// The count at place `i`.
    pub fn count_at(&self, i: usize) -> (count: usize)
        requires
            i < self@.len(),
        ensures
            count == self@[i as int].1,
    {
        self.entries[i].1
    }

    /// The first place of `code`, if the table holds it.
    pub fn position(&self, code: &str) -> (place: Option<usize>)
        ensures
            match place {
                Some(i) => code_index(self@, code@) == Some(i as int),
                None => code_index(self@, code@) is None,
            },
    {
        let mut i: usize = 0;
        while i < self.entries.len()
            invariant
                i <= self.entries@.len(),
                self.entries@.len() == self@.len(),
                forall|j: int| 0 <= j < i ==> self@[j].0 != code@,
            decreases self.entries.len() - i,
        {
            if same_text(self.entries[i].0.as_str(), code) {
                proof {
                    lemma_code_index_is(self@, code@, i as int);
                }
                return Some(i);
            }
            i += 1;
        }
        proof {
            lemma_code_index_is(self@, code@, i as int);
        }
        None
    }

    /// The count recorded for `code`, if the table holds it.
    pub fn get(&self, code: &str) -> (count: Option<usize>)
        ensures
            match count {
                Some(n) => code_index(self@, code@) is Some && self@[code_index(
                    self@,
                    code@,
                ).unwrap()].1 == n,
                None => code_index(self@, code@) is None,
            },
            self.wf() ==> match count {
                Some(n) => code_map(self@).contains_pair(code@, n as nat),
                None => !code_map(self@).dom().contains(code@),
            },
    {
        proof {
            lemma_code_index(self@, code@);
            if self.wf() {
                lemma_code_map(self@);
            }
        }
        match self.position(code) {
            Some(i) => Some(self.count_at(i)),
            None => None,
        }
    }

    /// Records `count` for `code`, in the place of the count that the code
    /// had, if it had one, and else behind the other codes.
    pub fn insert(&mut self, code: String, count: usize)
        ensures
            final(self)@ == insert_code(old(self)@, code@, count as nat),
            old(self).wf() ==> final(self).wf(),
    {
        proof {
            lemma_code_index(self@, code@);
            if self.wf() {
                lemma_insert_code(self@, code@, count as nat);
            }
        }
        match self.position(code.as_str()) {
            Some(i) => {
                self.entries.set(i, (code, count));
                assert(self@ =~= insert_code(old(self)@, code@, count as nat));
            },
            None => {
                self.entries.push((code, count));
            },
        }
    }
}

/// Numbers of torrents, by the way they were counted.
#[derive(Debug)]
pub struct Torrents {
    /// Counted under the tracker's lock.
    pub mutex: usize,
    /// Counted by walking the torrents.
    pub iterator: usize,
}

/// What a [`Torrents`] holds, as mathematical values.
pub struct TorrentsView {
    pub mutex: nat,
    pub iterator: nat,
}

impl View for Torrents {
    type V = TorrentsView;

    open spec fn view(&self) -> TorrentsView {
        TorrentsView { mutex: self.mutex as nat, iterator: self.iterator as nat }
    }
}

impl TorrentsView {
    /// No torrent counted either way.
    pub open spec fn zero() -> TorrentsView {
        TorrentsView { mutex: 0, iterator: 0 }
    }
}

impl Torrents {
    /// Both numbers zero.
    pub fn new() -> (torrents: Self)
        ensures
            torrents@ == TorrentsView::zero(),
    {
        Self { mutex: 0, iterator: 0 }
    }
}

/// Numbers of connections, by protocol and kind of request.
#[derive(Debug)]
pub struct Connections {
    pub tcp_accept: usize,
    pub tcp_announce: usize,
    pub tcp_scrape: usize,
    pub udp_overall: usize,
    pub udp_connect: usize,
    pub udp_announce: usize,
    pub udp_scrape: usize,
    pub udp_missmatch: usize,
    pub livesync: isize,
}

/// What a [`Connections`] holds, as mathematical values.
pub struct ConnectionsView {
    pub tcp_accept: nat,
    pub tcp_announce: nat,
    pub tcp_scrape: nat,
    pub udp_overall: nat,
    pub udp_connect: nat,
    pub udp_announce: nat,
    pub udp_scrape: nat,
    pub udp_missmatch: nat,
    pub livesync: int,
}

impl View for Connections {
    type V = ConnectionsView;

    open spec fn view(&self) -> ConnectionsView {
        ConnectionsView {
            tcp_accept: self.tcp_accept as nat,
            tcp_announce: self.tcp_announce as nat,
            tcp_scrape: self.tcp_scrape as nat,
            udp_overall: self.udp_overall as nat,
            udp_connect: self.udp_connect as nat,
            udp_announce: self.udp_announce as nat,
            udp_scrape: self.udp_scrape as nat,
            udp_missmatch: self.udp_missmatch as nat,
            livesync: self.livesync as int,
        }
    }
}

impl ConnectionsView {
    /// No connection of any kind.
    pub open spec fn zero() -> ConnectionsView {
        ConnectionsView {
            tcp_accept: 0,
            tcp_announce: 0,
            tcp_scrape: 0,
            udp_overall: 0,
            udp_connect: 0,
            udp_announce: 0,
            udp_scrape: 0,
            udp_missmatch: 0,
            livesync: 0,
        }
    }
}

impl Connections {
    /// All numbers zero.
    pub fn new() -> (connections: Self)
        ensures
            connections@ == ConnectionsView::zero(),
    {
        Self {
            tcp_accept: 0,
            tcp_announce: 0,
            tcp_scrape: 0,
            udp_overall: 0,
            udp_connect: 0,
            udp_announce: 0,
            udp_scrape: 0,
            udp_missmatch: 0,
            livesync: 0,
        }
    }
}

/// Everything a tracker reports about itself in one status document.
#[derive(Debug)]
pub struct Everything {
    pub tracker_id: usize,
    pub uptime: usize,
    pub torrents: Torrents,
    pub peers: usize,
    pub seeds: usize,
    pub completed: usize,
    pub connections: Connections,
    pub http_error: HttpErrors,
    pub mutex_stall: usize,
}

/// What an [`Everything`] holds, as mathematical values.
pub struct Snapshot {
    pub tracker_id: nat,
    pub uptime: nat,
    pub torrents: TorrentsView,
    pub peers: nat,
    pub seeds: nat,
    pub completed: nat,
    pub connections: ConnectionsView,
    pub http_error: Seq<CodeEntry>,
    pub mutex_stall: nat,
}

impl View for Everything {
    type V = Snapshot;

    open spec fn view(&self) -> Snapshot {
        Snapshot {
            tracker_id: self.tracker_id as nat,
            uptime: self.uptime as nat,
            torrents: self.torrents@,
            peers: self.peers as nat,
            seeds: self.seeds as nat,
            completed: self.completed as nat,
            connections: self.connections@,
            http_error: self.http_error@,
            mutex_stall: self.mutex_stall as nat,
        }
    }
}

impl Snapshot {
    /// The snapshot of a tracker that says nothing: every counter zero
    /// and no status code.
    pub open spec fn zero() -> Snapshot {
        Snapshot {
            tracker_id: 0,
            uptime: 0,
            torrents: TorrentsView::zero(),
            peers: 0,
            seeds: 0,
            completed: 0,
            connections: ConnectionsView::zero(),
            http_error: Seq::empty(),
            mutex_stall: 0,
        }
    }
}

impl Everything {
    /// The snapshot with every counter zero and no status code.
    pub fn new() -> (snapshot: Self)
        ensures
            snapshot@ == Snapshot::zero(),
    {
        Self {
            tracker_id: 0,
            uptime: 0,
            torrents: Torrents::new(),
            peers: 0,
            seeds: 0,
            completed: 0,
            connections: Connections::new(),
            http_error: HttpErrors::new(),
            mutex_stall: 0,
        }
    }
}

} // verus!
