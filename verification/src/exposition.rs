//! The exposition text of a snapshot: for each metric family a help line, a
//! type line and its samples, each line ended by a line feed.

use vstd::prelude::*;
use crate::snapshot::{CodeEntry, Everything, Snapshot};
use crate::text::{
    count_of, decimal, digit_of, lemma_count_of_decimal, lemma_decimal_value,
    lemma_signed_of_decimal, push_decimal, push_signed_decimal, signed_decimal, signed_of,
};

verus! {

/// A label of a sample: its name and its value.
pub type LabelPair = (Seq<char>, Seq<char>);

/// The text of one label: the name, then the value between double quotes.
pub open spec fn label_text(label: LabelPair) -> Seq<char> {
    label.0 + "=\""@ + label.1 + "\""@
}

/// The texts of `labels`, in order, with a comma between two of them.
pub open spec fn label_list(labels: Seq<LabelPair>) -> Seq<char>
    decreases labels.len(),
{
    if labels.len() == 0 {
        Seq::empty()
    } else if labels.len() == 1 {
        label_text(labels[0])
    } else {
        label_list(labels.drop_last()) + ","@ + label_text(labels.last())
    }
}

/// The name of a metric family: the prefix, an underscore, the family.
pub open spec fn metric_name(prefix: Seq<char>, family: Seq<char>) -> Seq<char> {
    prefix + "_"@ + family
}

/// The line that says what a family is about.
pub open spec fn help_line(prefix: Seq<char>, family: Seq<char>, help: Seq<char>) -> Seq<char> {
    "# HELP "@ + metric_name(prefix, family) + " "@ + help
}

/// The line that says that a family is a gauge.
pub open spec fn type_line(prefix: Seq<char>, family: Seq<char>) -> Seq<char> {
    "# TYPE "@ + metric_name(prefix, family) + " gauge"@
}

/// The two lines that every family starts with.
pub open spec fn head_lines(prefix: Seq<char>, family: Seq<char>, help: Seq<char>) -> Seq<
    Seq<char>,
> {
    seq![help_line(prefix, family, help), type_line(prefix, family)]
}

/// One sample: the metric's name, its labels between braces, a space, the
/// value.
#[verifier::opaque]
pub open spec fn sample_line(
    prefix: Seq<char>,
    family: Seq<char>,
    labels: Seq<LabelPair>,
    value: Seq<char>,
) -> Seq<char> {
    metric_name(prefix, family) + "{"@ + label_list(labels) + "} "@ + value
}

/// The version of this exporter, as the last line of an exposition names it.
pub open spec fn version_text() -> Seq<char> {
    "0.1.0"@
}

/// The line that names the exporter and its version.
pub open spec fn trailer_line() -> Seq<char> {
    "# opentracker/export_prometheus "@ + version_text()
}

/// The two labels that every sample starts with but that of the torrents:
/// the tracker's id and the name of the target.
pub open spec fn target_labels(snapshot: Snapshot, name: Seq<char>) -> Seq<LabelPair> {
    seq![("tracker"@, decimal(snapshot.tracker_id)), ("name"@, name)]
}

/// The lines of the uptime family.
pub open spec fn uptime_lines(snapshot: Snapshot, prefix: Seq<char>, name: Seq<char>) -> Seq<
    Seq<char>,
> {
    head_lines(prefix, "uptime"@, "uptime of the tracker"@).push(
        sample_line(prefix, "uptime"@, target_labels(snapshot, name), decimal(snapshot.uptime)),
    )
}

/// The sample of the torrents counted in one way; here the kind of count
/// stands before the name of the target.
pub open spec fn torrents_sample(
    snapshot: Snapshot,
    prefix: Seq<char>,
    name: Seq<char>,
    kind: Seq<char>,
    value: nat,
) -> Seq<char> {
    sample_line(
        prefix,
        "torrents"@,
        seq![("tracker"@, decimal(snapshot.tracker_id)), ("type"@, kind), ("name"@, name)],
        decimal(value),
    )
}

/// The lines of the torrents family.
pub open spec fn torrents_lines(snapshot: Snapshot, prefix: Seq<char>, name: Seq<char>) -> Seq<
    Seq<char>,
> {
    head_lines(prefix, "torrents"@, "counts torrents on server"@).push(
        torrents_sample(snapshot, prefix, name, "mutex"@, snapshot.torrents.mutex),
    ).push(torrents_sample(snapshot, prefix, name, "iterator"@, snapshot.torrents.iterator))
}

/// A sample with one label behind those of the target.
pub open spec fn kind_sample(
    snapshot: Snapshot,
    prefix: Seq<char>,
    name: Seq<char>,
    family: Seq<char>,
    label: LabelPair,
    value: Seq<char>,
) -> Seq<char> {
    sample_line(prefix, family, target_labels(snapshot, name).push(label), value)
}

/// The sample of one plain count.
pub open spec fn count_sample(
    snapshot: Snapshot,
    prefix: Seq<char>,
    name: Seq<char>,
    kind: Seq<char>,
    value: nat,
) -> Seq<char> {
    kind_sample(snapshot, prefix, name, "count"@, ("type"@, kind), decimal(value))
}

/// The lines of the family of plain counts.
pub open spec fn count_lines(snapshot: Snapshot, prefix: Seq<char>, name: Seq<char>) -> Seq<
    Seq<char>,
> {
    head_lines(prefix, "count"@, "count for varios things"@).push(
        count_sample(snapshot, prefix, name, "peers"@, snapshot.peers),
    ).push(count_sample(snapshot, prefix, name, "seeds"@, snapshot.seeds)).push(
        count_sample(snapshot, prefix, name, "completed"@, snapshot.completed),
    ).push(count_sample(snapshot, prefix, name, "mutex_stall"@, snapshot.mutex_stall))
}

/// The sample of the connections of one protocol and one kind of request.
pub open spec fn connection_sample(
    snapshot: Snapshot,
    prefix: Seq<char>,
    name: Seq<char>,
    protocol: Seq<char>,
    kind: Seq<char>,
    value: nat,
) -> Seq<char> {
    sample_line(
        prefix,
        "connections"@,
        target_labels(snapshot, name).push(("protocol"@, protocol)).push(("type"@, kind)),
        decimal(value),
    )
}

/// The sample of the live-sync counter, which belongs to no protocol.
pub open spec fn livesync_sample(snapshot: Snapshot, prefix: Seq<char>, name: Seq<char>) -> Seq<
    char,
> {
    kind_sample(
        snapshot,
        prefix,
        name,
        "connections"@,
        ("type"@, "livesync"@),
        signed_decimal(snapshot.connections.livesync),
    )
}

/// The samples of the connections over TCP.
pub open spec fn tcp_samples(snapshot: Snapshot, prefix: Seq<char>, name: Seq<char>) -> Seq<
    Seq<char>,
> {
    let c = snapshot.connections;
    seq![
        connection_sample(snapshot, prefix, name, "tcp"@, "accept"@, c.tcp_accept),
        connection_sample(snapshot, prefix, name, "tcp"@, "announce"@, c.tcp_announce),
        connection_sample(snapshot, prefix, name, "tcp"@, "scrape"@, c.tcp_scrape),
    ]
}

/// The samples of the connections over UDP.
pub open spec fn udp_samples(snapshot: Snapshot, prefix: Seq<char>, name: Seq<char>) -> Seq<
    Seq<char>,
> {
    let c = snapshot.connections;
    seq![
        connection_sample(snapshot, prefix, name, "udp"@, "overall"@, c.udp_overall),
        connection_sample(snapshot, prefix, name, "udp"@, "connect"@, c.udp_connect),
        connection_sample(snapshot, prefix, name, "udp"@, "announce"@, c.udp_announce),
        connection_sample(snapshot, prefix, name, "udp"@, "scrape"@, c.udp_scrape),
        connection_sample(snapshot, prefix, name, "udp"@, "missmatch"@, c.udp_missmatch),
    ]
}

/// The lines of the connections family: the samples over TCP, those over
/// UDP, and the live-sync counter.
pub open spec fn connections_lines(snapshot: Snapshot, prefix: Seq<char>, name: Seq<char>) -> Seq<
    Seq<char>,
> {
    head_lines(prefix, "connections"@, "to the tracker"@) + tcp_samples(snapshot, prefix, name)
        + udp_samples(snapshot, prefix, name) + seq![livesync_sample(snapshot, prefix, name)]
}

/// The sample of one HTTP status code.
pub open spec fn code_sample(
    snapshot: Snapshot,
    prefix: Seq<char>,
    name: Seq<char>,
    entry: CodeEntry,
) -> Seq<char> {
    kind_sample(snapshot, prefix, name, "http_codes"@, ("code"@, entry.0), decimal(entry.1))
}

/// The samples of the first `n` status codes of the snapshot.
pub open spec fn code_samples(snapshot: Snapshot, prefix: Seq<char>, name: Seq<char>, n: int) -> Seq<
    Seq<char>,
> {
    Seq::new(n as nat, |i: int| code_sample(snapshot, prefix, name, snapshot.http_error[i]))
}

/// The lines of the family of HTTP status codes: one sample for each code
/// of the snapshot, in the snapshot's order.
pub open spec fn http_codes_lines(snapshot: Snapshot, prefix: Seq<char>, name: Seq<char>) -> Seq<
    Seq<char>,
> {
    head_lines(prefix, "http_codes"@, "http error code count"@) + code_samples(snapshot, prefix, name, snapshot.http_error.len() as int)
}

/// All lines of the exposition of a snapshot: the five families in their
/// fixed order, an empty line, and the line that names the exporter.
pub open spec fn exposition_lines(snapshot: Snapshot, prefix: Seq<char>, name: Seq<char>) -> Seq<
    Seq<char>,
> {
    uptime_lines(snapshot, prefix, name) + torrents_lines(snapshot, prefix, name) + count_lines(
        snapshot,
        prefix,
        name,
    ) + connections_lines(snapshot, prefix, name) + http_codes_lines(snapshot, prefix, name)
        + seq![Seq::<char>::empty(), trailer_line()]
}

/// The text in which each of `lines` is followed by a line feed.
pub open spec fn terminated(lines: Seq<Seq<char>>) -> Seq<char>
    decreases lines.len(),
{
    if lines.len() == 0 {
        Seq::empty()
    } else {
        terminated(lines.drop_last()) + lines.last() + "\n"@
    }
}

/// The exposition text of a snapshot, for a metric prefix and a target name.
pub open spec fn exposition(snapshot: Snapshot, prefix: Seq<char>, name: Seq<char>) -> Seq<char> {
    terminated(exposition_lines(snapshot, prefix, name))
}

/// The text of one more line is the text so far, the line, and a line feed.
pub proof fn lemma_terminated_push(lines: Seq<Seq<char>>, line: Seq<char>)
    ensures
        terminated(lines.push(line)) == terminated(lines) + line + "\n"@,
{
    assert(lines.push(line).drop_last() == lines);
}

/// The text of two runs of lines is the text of the first, then that of
/// the second.
pub proof fn lemma_terminated_concat(front: Seq<Seq<char>>, back: Seq<Seq<char>>)
    ensures
        terminated(front + back) == terminated(front) + terminated(back),
    decreases back.len(),
{
    if back.len() > 0 {
        lemma_terminated_concat(front, back.drop_last());
        assert((front + back).drop_last() == front + back.drop_last());
    }
}

/// A label as the encoder takes it.
pub struct Label<'a> {
    pub key: &'a str,
    pub value: &'a str,
}

impl<'a> View for Label<'a> {
    type V = LabelPair;

    open spec fn view(&self) -> LabelPair {
        (self.key@, self.value@)
    }
}

/// The labels of a slice, as pairs of texts.
pub open spec fn label_pairs(labels: Seq<Label<'_>>) -> Seq<LabelPair> {
    Seq::new(labels.len(), |i: int| labels[i]@)
}

/// The exporter's version.
pub fn version() -> (text: &'static str)
    ensures
        text@ == version_text(),
{
    "0.1.0"
}

/// Appends the name of a metric family to `out`.
fn push_metric_name(out: &mut String, prefix: &str, family: &str)
    ensures
        final(out)@ == old(out)@ + metric_name(prefix@, family@),
{
    out.append(prefix);
    out.append("_");
    out.append(family);
}

/// Appends the help line and the type line of a family to `out`, each with
/// its line feed.
fn push_family_head(out: &mut String, prefix: &str, family: &str, help: &str)
    ensures
        final(out)@ == old(out)@ + terminated(head_lines(prefix@, family@, help@)),
{
    let ghost lines = head_lines(prefix@, family@, help@);
    out.append("# HELP ");
    push_metric_name(out, prefix, family);
    out.append(" ");
    out.append(help);
    out.append("\n");
    out.append("# TYPE ");
    push_metric_name(out, prefix, family);
    out.append(" gauge");
    out.append("\n");
    proof {
        lemma_terminated_push(lines.take(1), lines[1]);
        lemma_terminated_push(lines.take(0), lines[0]);
        assert(lines.take(0).push(lines[0]) == lines.take(1));
    }
}

/// Appends a list of labels to `out`.
fn push_label_list(out: &mut String, labels: &[Label<'_>])
    ensures
        final(out)@ == old(out)@ + label_list(label_pairs(labels@)),
{
    let ghost pairs = label_pairs(labels@);
    let mut i: usize = 0;
    while i < labels.len()
        invariant
            i <= labels.len(),
            pairs == label_pairs(labels@),
            out@ == old(out)@ + label_list(pairs.take(i as int)),
        decreases labels.len() - i,
    {
        if i > 0 {
            out.append(",");
        }
        out.append(labels[i].key);
        out.append("=\"");
        out.append(labels[i].value);
        out.append("\"");
        proof {
            let seen = pairs.take(i as int);
            let next = pairs.take(i + 1);
            assert(next.drop_last() == seen);
        }
        i += 1;
    }
    assert(pairs.take(i as int) == pairs);
}

/// Appends one sample to `out`, with its line feed.
fn push_sample(out: &mut String, prefix: &str, family: &str, labels: &[Label<'_>], value: &str)
    ensures
        final(out)@ == old(out)@ + sample_line(prefix@, family@, label_pairs(labels@), value@)
            + "\n"@,
{
    reveal(sample_line);
    push_metric_name(out, prefix, family);
    out.append("{");
    push_label_list(out, labels);
    out.append("} ");
    out.append(value);
    out.append("\n");
    assert(out@ =~= old(out)@ + sample_line(prefix@, family@, label_pairs(labels@), value@)
        + "\n"@);
}

/// The decimal writing of `n`.
pub fn decimal_text(n: usize) -> (text: String)
    ensures
        text@ == decimal(n as nat),
{
    let mut text = String::new();
    push_decimal(&mut text, n);
    text
}

/// The decimal writing of a signed number.
pub fn signed_decimal_text(n: isize) -> (text: String)
    ensures
        text@ == signed_decimal(n as int),
{
    let mut text = String::new();
    push_signed_decimal(&mut text, n);
    text
}

/// Appends the uptime family to `out`.
fn push_uptime(out: &mut String, snapshot: &Everything, prefix: &str, name: &str, id: &str)
    requires
        id@ == decimal(snapshot@.tracker_id),
    ensures
        final(out)@ == old(out)@ + terminated(uptime_lines(snapshot@, prefix@, name@)),
{
    push_family_head(out, prefix, "uptime", "uptime of the tracker");
    let value = decimal_text(snapshot.uptime);
    let labels = [Label { key: "tracker", value: id }, Label { key: "name", value: name }];
    push_sample(out, prefix, "uptime", labels.as_slice(), value.as_str());
    proof {
        assert(label_pairs(labels@) =~= target_labels(snapshot@, name@));
        lemma_terminated_push(
            head_lines(prefix@, "uptime"@, "uptime of the tracker"@),
            sample_line(
                prefix@,
                "uptime"@,
                target_labels(snapshot@, name@),
                decimal(snapshot@.uptime),
            ),
        );
    }
}

/// Appends the sample of the torrents counted in one way to `out`.
fn push_torrents_sample(
    out: &mut String,
    snapshot: &Everything,
    prefix: &str,
    name: &str,
    id: &str,
    kind: &str,
    value: usize,
)
    requires
        id@ == decimal(snapshot@.tracker_id),
    ensures
        final(out)@ == old(out)@ + torrents_sample(
            snapshot@,
            prefix@,
            name@,
            kind@,
            value as nat,
        ) + "\n"@,
{
    let text = decimal_text(value);
    let labels = [
        Label { key: "tracker", value: id },
        Label { key: "type", value: kind },
        Label { key: "name", value: name },
    ];
    push_sample(out, prefix, "torrents", labels.as_slice(), text.as_str());
    assert(label_pairs(labels@) =~= seq![
        ("tracker"@, decimal(snapshot@.tracker_id)),
        ("type"@, kind@),
        ("name"@, name@),
    ]);
}

/// Appends the torrents family to `out`.
fn push_torrents(out: &mut String, snapshot: &Everything, prefix: &str, name: &str, id: &str)
    requires
        id@ == decimal(snapshot@.tracker_id),
    ensures
        final(out)@ == old(out)@ + terminated(torrents_lines(snapshot@, prefix@, name@)),
{
    let ghost s = snapshot@;
    let ghost l0 = head_lines(prefix@, "torrents"@, "counts torrents on server"@);
    let ghost l1 = l0.push(torrents_sample(s, prefix@, name@, "mutex"@, s.torrents.mutex));
    push_family_head(out, prefix, "torrents", "counts torrents on server");
    push_torrents_sample(out, snapshot, prefix, name, id, "mutex", snapshot.torrents.mutex);
    push_torrents_sample(out, snapshot, prefix, name, id, "iterator", snapshot.torrents.iterator);
    proof {
        lemma_terminated_push(l0, torrents_sample(s, prefix@, name@, "mutex"@, s.torrents.mutex));
        lemma_terminated_push(
            l1,
            torrents_sample(s, prefix@, name@, "iterator"@, s.torrents.iterator),
        );
    }
}

/// Appends a sample with one label behind those of the target to `out`.
fn push_kind_sample(
    out: &mut String,
    snapshot: &Everything,
    prefix: &str,
    name: &str,
    id: &str,
    family: &str,
    key: &str,
    kind: &str,
    value: &str,
)
    requires
        id@ == decimal(snapshot@.tracker_id),
    ensures
        final(out)@ == old(out)@ + kind_sample(
            snapshot@,
            prefix@,
            name@,
            family@,
            (key@, kind@),
            value@,
        ) + "\n"@,
{
    let labels = [
        Label { key: "tracker", value: id },
        Label { key: "name", value: name },
        Label { key: key, value: kind },
    ];
    push_sample(out, prefix, family, labels.as_slice(), value);
    assert(label_pairs(labels@) =~= target_labels(snapshot@, name@).push((key@, kind@)));
}

/// Appends one plain count to `out`.
fn push_count_sample(
    out: &mut String,
    snapshot: &Everything,
    prefix: &str,
    name: &str,
    id: &str,
    kind: &str,
    value: usize,
)
    requires
        id@ == decimal(snapshot@.tracker_id),
    ensures
        final(out)@ == old(out)@ + count_sample(snapshot@, prefix@, name@, kind@, value as nat)
            + "\n"@,
{
    let text = decimal_text(value);
    push_kind_sample(out, snapshot, prefix, name, id, "count", "type", kind, text.as_str());
}

/// Appends the family of plain counts to `out`.
fn push_counts(out: &mut String, snapshot: &Everything, prefix: &str, name: &str, id: &str)
    requires
        id@ == decimal(snapshot@.tracker_id),
    ensures
        final(out)@ == old(out)@ + terminated(count_lines(snapshot@, prefix@, name@)),
{
    let ghost s = snapshot@;
    let ghost l0 = head_lines(prefix@, "count"@, "count for varios things"@);
    let ghost l1 = l0.push(count_sample(s, prefix@, name@, "peers"@, s.peers));
    let ghost l2 = l1.push(count_sample(s, prefix@, name@, "seeds"@, s.seeds));
    let ghost l3 = l2.push(count_sample(s, prefix@, name@, "completed"@, s.completed));
    push_family_head(out, prefix, "count", "count for varios things");
    push_count_sample(out, snapshot, prefix, name, id, "peers", snapshot.peers);
    proof {
        lemma_terminated_push(l0, count_sample(s, prefix@, name@, "peers"@, s.peers));
    }
    push_count_sample(out, snapshot, prefix, name, id, "seeds", snapshot.seeds);
    proof {
        lemma_terminated_push(l1, count_sample(s, prefix@, name@, "seeds"@, s.seeds));
    }
    push_count_sample(out, snapshot, prefix, name, id, "completed", snapshot.completed);
    proof {
        lemma_terminated_push(l2, count_sample(s, prefix@, name@, "completed"@, s.completed));
    }
    push_count_sample(out, snapshot, prefix, name, id, "mutex_stall", snapshot.mutex_stall);
    proof {
        lemma_terminated_push(l3, count_sample(s, prefix@, name@, "mutex_stall"@, s.mutex_stall));
    }
}

/// Appends the sample of the connections of one protocol and one kind of
/// request to `out`.
fn push_connection_sample(
    out: &mut String,
    snapshot: &Everything,
    prefix: &str,
    name: &str,
    id: &str,
    protocol: &str,
    kind: &str,
    value: usize,
)
    requires
        id@ == decimal(snapshot@.tracker_id),
    ensures
        final(out)@ == old(out)@ + connection_sample(
            snapshot@,
            prefix@,
            name@,
            protocol@,
            kind@,
            value as nat,
        ) + "\n"@,
{
    let text = decimal_text(value);
    let labels = [
        Label { key: "tracker", value: id },
        Label { key: "name", value: name },
        Label { key: "protocol", value: protocol },
        Label { key: "type", value: kind },
    ];
    push_sample(out, prefix, "connections", labels.as_slice(), text.as_str());
    assert(label_pairs(labels@) =~= target_labels(snapshot@, name@).push(
        ("protocol"@, protocol@),
    ).push(("type"@, kind@)));
}

/// Appends the samples of the connections over TCP to `out`.
fn push_tcp_samples(out: &mut String, snapshot: &Everything, prefix: &str, name: &str, id: &str)
    requires
        id@ == decimal(snapshot@.tracker_id),
    ensures
        final(out)@ == old(out)@ + terminated(tcp_samples(snapshot@, prefix@, name@)),
{
    let ghost s = snapshot@;
    let ghost v = s.connections;
    let ghost l0 = Seq::<Seq<char>>::empty();
    let ghost l1 = l0.push(connection_sample(s, prefix@, name@, "tcp"@, "accept"@, v.tcp_accept));
    let ghost l2 = l1.push(
        connection_sample(s, prefix@, name@, "tcp"@, "announce"@, v.tcp_announce),
    );
    let c = &snapshot.connections;
    push_connection_sample(out, snapshot, prefix, name, id, "tcp", "accept", c.tcp_accept);
    proof {
        lemma_terminated_push(
            l0,
            connection_sample(s, prefix@, name@, "tcp"@, "accept"@, v.tcp_accept),
        );
    }
    push_connection_sample(out, snapshot, prefix, name, id, "tcp", "announce", c.tcp_announce);
    proof {
        lemma_terminated_push(
            l1,
            connection_sample(s, prefix@, name@, "tcp"@, "announce"@, v.tcp_announce),
        );
    }
    push_connection_sample(out, snapshot, prefix, name, id, "tcp", "scrape", c.tcp_scrape);
    proof {
        lemma_terminated_push(
            l2,
            connection_sample(s, prefix@, name@, "tcp"@, "scrape"@, v.tcp_scrape),
        );
        assert(l2.push(connection_sample(s, prefix@, name@, "tcp"@, "scrape"@, v.tcp_scrape))
            =~= tcp_samples(s, prefix@, name@));
    }
}

/// Appends the samples of the connections over UDP to `out`.
fn push_udp_samples(out: &mut String, snapshot: &Everything, prefix: &str, name: &str, id: &str)
    requires
        id@ == decimal(snapshot@.tracker_id),
    ensures
        final(out)@ == old(out)@ + terminated(udp_samples(snapshot@, prefix@, name@)),
{
    let ghost s = snapshot@;
    let ghost v = s.connections;
    let ghost l0 = Seq::<Seq<char>>::empty();
    let ghost l1 = l0.push(
        connection_sample(s, prefix@, name@, "udp"@, "overall"@, v.udp_overall),
    );
    let ghost l2 = l1.push(
        connection_sample(s, prefix@, name@, "udp"@, "connect"@, v.udp_connect),
    );
    let ghost l3 = l2.push(
        connection_sample(s, prefix@, name@, "udp"@, "announce"@, v.udp_announce),
    );
    let ghost l4 = l3.push(connection_sample(s, prefix@, name@, "udp"@, "scrape"@, v.udp_scrape));
    let c = &snapshot.connections;
    push_connection_sample(out, snapshot, prefix, name, id, "udp", "overall", c.udp_overall);
    proof {
        lemma_terminated_push(
            l0,
            connection_sample(s, prefix@, name@, "udp"@, "overall"@, v.udp_overall),
        );
    }
    push_connection_sample(out, snapshot, prefix, name, id, "udp", "connect", c.udp_connect);
    proof {
        lemma_terminated_push(
            l1,
            connection_sample(s, prefix@, name@, "udp"@, "connect"@, v.udp_connect),
        );
    }
    push_connection_sample(out, snapshot, prefix, name, id, "udp", "announce", c.udp_announce);
    proof {
        lemma_terminated_push(
            l2,
            connection_sample(s, prefix@, name@, "udp"@, "announce"@, v.udp_announce),
        );
    }
    push_connection_sample(out, snapshot, prefix, name, id, "udp", "scrape", c.udp_scrape);
    proof {
        lemma_terminated_push(
            l3,
            connection_sample(s, prefix@, name@, "udp"@, "scrape"@, v.udp_scrape),
        );
    }
    push_connection_sample(out, snapshot, prefix, name, id, "udp", "missmatch", c.udp_missmatch);
    proof {
        lemma_terminated_push(
            l4,
            connection_sample(s, prefix@, name@, "udp"@, "missmatch"@, v.udp_missmatch),
        );
        assert(l4.push(
            connection_sample(s, prefix@, name@, "udp"@, "missmatch"@, v.udp_missmatch),
        ) =~= udp_samples(s, prefix@, name@));
    }
}

/// Appends the connections family to `out`.
fn push_connections(out: &mut String, snapshot: &Everything, prefix: &str, name: &str, id: &str)
    requires
        id@ == decimal(snapshot@.tracker_id),
    ensures
        final(out)@ == old(out)@ + terminated(connections_lines(snapshot@, prefix@, name@)),
{
    let ghost s = snapshot@;
    let ghost head = head_lines(prefix@, "connections"@, "to the tracker"@);
    let ghost tcp = tcp_samples(s, prefix@, name@);
    let ghost udp = udp_samples(s, prefix@, name@);
    push_family_head(out, prefix, "connections", "to the tracker");
    push_tcp_samples(out, snapshot, prefix, name, id);
    push_udp_samples(out, snapshot, prefix, name, id);
    let livesync = signed_decimal_text(snapshot.connections.livesync);
    push_kind_sample(
        out,
        snapshot,
        prefix,
        name,
        id,
        "connections",
        "type",
        "livesync",
        livesync.as_str(),
    );
    proof {
        lemma_terminated_concat(head, tcp);
        lemma_terminated_concat(head + tcp, udp);
        lemma_terminated_push(head + tcp + udp, livesync_sample(s, prefix@, name@));
        assert((head + tcp + udp).push(livesync_sample(s, prefix@, name@)) =~= head + tcp + udp
            + seq![livesync_sample(s, prefix@, name@)]);
    }
}

/// Appends the family of HTTP status codes to `out`.
fn push_http_codes(out: &mut String, snapshot: &Everything, prefix: &str, name: &str, id: &str)
    requires
        id@ == decimal(snapshot@.tracker_id),
    ensures
        final(out)@ == old(out)@ + terminated(http_codes_lines(snapshot@, prefix@, name@)),
{
    let ghost head = head_lines(prefix@, "http_codes"@, "http error code count"@);
    push_family_head(out, prefix, "http_codes", "http error code count");
    let codes = &snapshot.http_error;
    let mut i: usize = 0;
    while i < codes.len()
        invariant
            i <= codes@.len(),
            codes@ == snapshot@.http_error,
            id@ == decimal(snapshot@.tracker_id),
            head == head_lines(prefix@, "http_codes"@, "http error code count"@),
            out@ == old(out)@ + terminated(head + code_samples(snapshot@, prefix@, name@, i as int)),
        decreases codes@.len() - i,
    {
        let value = decimal_text(codes.count_at(i));
        push_kind_sample(
            out,
            snapshot,
            prefix,
            name,
            id,
            "http_codes",
            "code",
            codes.code_at(i),
            value.as_str(),
        );
        proof {
            let seen = head + code_samples(snapshot@, prefix@, name@, i as int);
            let line = code_sample(snapshot@, prefix@, name@, snapshot@.http_error[i as int]);
            lemma_terminated_push(seen, line);
            assert(seen.push(line) =~= head + code_samples(snapshot@, prefix@, name@, i + 1));
        }
        i += 1;
    }
}

impl Everything {
    /// Renders the snapshot as exposition text: the metric names start with
    /// `prefix`, and every sample carries `name` as the name of its target.
    /// Both are written as they are.
    pub fn get_string(&self, prefix: &str, name: &str) -> (text: String)
        ensures
            text@ == exposition(self@, prefix@, name@),
    {
        let id = decimal_text(self.tracker_id);
        let mut out = String::new();
        push_uptime(&mut out, self, prefix, name, id.as_str());
        push_torrents(&mut out, self, prefix, name, id.as_str());
        push_counts(&mut out, self, prefix, name, id.as_str());
        push_connections(&mut out, self, prefix, name, id.as_str());
        push_http_codes(&mut out, self, prefix, name, id.as_str());
        out.append("\n");
        out.append("# opentracker/export_prometheus ");
        out.append(version());
        out.append("\n");
        proof {
            let a = uptime_lines(self@, prefix@, name@);
            let b = torrents_lines(self@, prefix@, name@);
            let c = count_lines(self@, prefix@, name@);
            let d = connections_lines(self@, prefix@, name@);
            let e = http_codes_lines(self@, prefix@, name@);
            let f = seq![Seq::<char>::empty(), trailer_line()];
            lemma_terminated_concat(a, b);
            lemma_terminated_concat(a + b, c);
            lemma_terminated_concat(a + b + c, d);
            lemma_terminated_concat(a + b + c + d, e);
            lemma_terminated_concat(a + b + c + d + e, f);
            lemma_terminated_push(seq![Seq::<char>::empty()], trailer_line());
            lemma_terminated_push(Seq::<Seq<char>>::empty(), Seq::<char>::empty());
            assert(Seq::<Seq<char>>::empty().push(Seq::<char>::empty()) =~= seq![
                Seq::<char>::empty(),
            ]);
            assert(seq![Seq::<char>::empty()].push(trailer_line()) =~= f);
        }
        out
    }
}

/// What stands behind the last space of `line`; all of `line` where it has
/// no space.
pub open spec fn after_last_space(line: Seq<char>) -> Seq<char>
    decreases line.len(),
{
    if line.len() == 0 || line.last() == ' ' {
        Seq::empty()
    } else {
        after_last_space(line.drop_last()).push(line.last())
    }
}

/// The value that a sample line carries: the count written behind its last
/// space.
pub open spec fn sample_value(line: Seq<char>) -> nat {
    count_of(after_last_space(line))
}

/// The signed value that a sample line carries: the signed number written
/// behind its last space.
pub open spec fn signed_sample_value(line: Seq<char>) -> int {
    signed_of(after_last_space(line))
}

/// No character of `s` is a space.
pub open spec fn without_space(s: Seq<char>) -> bool {
    forall|i: int| 0 <= i < s.len() ==> #[trigger] s[i] != ' '
}

/// `line` ends with `suffix`.
pub open spec fn ends_with(line: Seq<char>, suffix: Seq<char>) -> bool {
    &&& suffix.len() <= line.len()
    &&& line.skip(line.len() - suffix.len()) == suffix
}

/// Behind a space, a value without a space is what stands behind the last
/// space.
pub proof fn lemma_after_last_space(head: Seq<char>, value: Seq<char>)
    requires
        without_space(value),
    ensures
        after_last_space(head.push(' ') + value) == value,
    decreases value.len(),
{
    if value.len() > 0 {
        let line = head.push(' ') + value;
        let front = value.drop_last();
        assert forall|i: int| 0 <= i < front.len() implies #[trigger] front[i] != ' ' by {
            assert(front[i] == value[i]);
        }
        lemma_after_last_space(head, front);
        assert(line.drop_last() =~= head.push(' ') + front);
        assert(value[value.len() - 1] != ' ');
        assert(front.push(value.last()) =~= value);
    }
}

/// The decimal writing of a number, signed or not, holds no space.
pub proof fn lemma_decimal_without_space(n: int)
    ensures
        n >= 0 ==> without_space(decimal(n as nat)),
        without_space(signed_decimal(n)),
{
    let magnitude = if n < 0 {
        (-n) as nat
    } else {
        n as nat
    };
    let digits = decimal(magnitude);
    lemma_decimal_value(magnitude);
    assert forall|i: int| 0 <= i < digits.len() implies #[trigger] digits[i] != ' ' by {
        assert(digit_of(digits[i]) is Some);
    }
    if n < 0 {
        let s = signed_decimal(n);
        assert forall|i: int| 0 <= i < s.len() implies #[trigger] s[i] != ' ' by {
            if i > 0 {
                assert(s[i] == digits[i - 1]);
            }
        }
    }
}

/// Reading a sample line gives back the count that was written into it,
/// whatever the prefix, the family and the labels are.
pub proof fn lemma_sample_round_trip(
    prefix: Seq<char>,
    family: Seq<char>,
    labels: Seq<LabelPair>,
    value: usize,
)
    ensures
        after_last_space(sample_line(prefix, family, labels, decimal(value as nat))) == decimal(
            value as nat,
        ),
        sample_value(sample_line(prefix, family, labels, decimal(value as nat))) == value,
{
    reveal(sample_line);
    reveal_strlit("} ");
    let digits = decimal(value as nat);
    let head = (metric_name(prefix, family) + "{"@ + label_list(labels)).push('}');
    lemma_decimal_without_space(value as int);
    lemma_count_of_decimal(value);
    lemma_after_last_space(head, digits);
    assert(sample_line(prefix, family, labels, digits) =~= head.push(' ') + digits);
}

/// Reading a sample line that carries a signed number gives back the
/// number that was written into it, whatever the prefix, the family and the
/// labels are.
pub proof fn lemma_signed_sample_round_trip(
    prefix: Seq<char>,
    family: Seq<char>,
    labels: Seq<LabelPair>,
    value: isize,
)
    ensures
        after_last_space(sample_line(prefix, family, labels, signed_decimal(value as int)))
            == signed_decimal(value as int),
        signed_sample_value(sample_line(prefix, family, labels, signed_decimal(value as int)))
            == value,
{
    reveal(sample_line);
    reveal_strlit("} ");
    let written = signed_decimal(value as int);
    let head = (metric_name(prefix, family) + "{"@ + label_list(labels)).push('}');
    lemma_decimal_without_space(value as int);
    lemma_signed_of_decimal(value);
    lemma_after_last_space(head, written);
    assert(sample_line(prefix, family, labels, written) =~= head.push(' ') + written);
}

/// The live-sync counter that an exposition reports reads back as the
/// live-sync counter of the snapshot.
pub proof fn lemma_livesync_round_trip(snapshot: Snapshot, prefix: Seq<char>, name: Seq<char>)
    requires
        isize::MIN <= snapshot.connections.livesync <= isize::MAX,
    ensures
        signed_sample_value(livesync_sample(snapshot, prefix, name))
            == snapshot.connections.livesync,
        exposition_lines(snapshot, prefix, name)[23] == livesync_sample(snapshot, prefix, name),
{
    lemma_signed_sample_round_trip(
        prefix,
        "connections"@,
        target_labels(snapshot, name).push(("type"@, "livesync"@)),
        snapshot.connections.livesync as isize,
    );
}

/// The uptime that an exposition reports reads back as the uptime of the
/// snapshot.
pub proof fn lemma_uptime_round_trip(snapshot: Snapshot, prefix: Seq<char>, name: Seq<char>)
    requires
        snapshot.uptime <= usize::MAX,
    ensures
        sample_value(uptime_lines(snapshot, prefix, name)[2]) == snapshot.uptime,
        exposition_lines(snapshot, prefix, name)[2] == uptime_lines(snapshot, prefix, name)[2],
{
    lemma_sample_round_trip(
        prefix,
        "uptime"@,
        target_labels(snapshot, name),
        snapshot.uptime as usize,
    );
}

/// A sample of the value zero ends with a brace, a space and the digit
/// zero.
pub proof fn lemma_zero_sample(prefix: Seq<char>, family: Seq<char>, labels: Seq<LabelPair>)
    ensures
        ends_with(sample_line(prefix, family, labels, decimal(0)), "} 0"@),
        sample_value(sample_line(prefix, family, labels, decimal(0))) == 0,
        signed_decimal(0) == decimal(0),
{
    reveal(sample_line);
    reveal_strlit("} ");
    reveal_strlit("} 0");
    let line = sample_line(prefix, family, labels, decimal(0));
    assert(line.skip(line.len() - 3) =~= "} 0"@);
    lemma_sample_round_trip(prefix, family, labels, 0);
}

/// The place of `i` among the lines of an exposition is that of a sample,
/// not of a help line, a type line, the empty line or the last line.
pub open spec fn is_sample_index(lines: int, i: int) -> bool {
    &&& 0 <= i < lines - 2
    &&& i != 0 && i != 1
    &&& i != 3 && i != 4
    &&& i != 7 && i != 8
    &&& i != 13 && i != 14
    &&& i != 24 && i != 25
}

/// The exposition of the snapshot of zeros has all five families, each
/// with its help line and its type line, and every sample in it carries the
/// value zero.
pub proof fn lemma_zero_exposition(prefix: Seq<char>, name: Seq<char>)
    ensures
        ({
            let lines = exposition_lines(Snapshot::zero(), prefix, name);
            &&& lines.len() == 28
            &&& lines.subrange(0, 2) == head_lines(prefix, "uptime"@, "uptime of the tracker"@)
            &&& lines.subrange(3, 5) == head_lines(
                prefix,
                "torrents"@,
                "counts torrents on server"@,
            )
            &&& lines.subrange(7, 9) == head_lines(prefix, "count"@, "count for varios things"@)
            &&& lines.subrange(13, 15) == head_lines(prefix, "connections"@, "to the tracker"@)
            &&& lines.subrange(24, 26) == head_lines(
                prefix,
                "http_codes"@,
                "http error code count"@,
            )
            &&& lines[26] == Seq::<char>::empty()
            &&& lines[27] == trailer_line()
            &&& forall|i: int|
                is_sample_index(28, i) ==> ends_with(#[trigger] lines[i], "} 0"@) && sample_value(
                    lines[i],
                ) == 0
        }),
{
    let z = Snapshot::zero();
    let lines = exposition_lines(z, prefix, name);
    let a = uptime_lines(z, prefix, name);
    let b = torrents_lines(z, prefix, name);
    let c = count_lines(z, prefix, name);
    let d = connections_lines(z, prefix, name);
    let e = http_codes_lines(z, prefix, name);
    let t = target_labels(z, name);
    lemma_zero_sample(prefix, "uptime"@, t);
    lemma_zero_sample(
        prefix,
        "torrents"@,
        seq![("tracker"@, decimal(0)), ("type"@, "mutex"@), ("name"@, name)],
    );
    lemma_zero_sample(
        prefix,
        "torrents"@,
        seq![("tracker"@, decimal(0)), ("type"@, "iterator"@), ("name"@, name)],
    );
    lemma_zero_sample(prefix, "count"@, t.push(("type"@, "peers"@)));
    lemma_zero_sample(prefix, "count"@, t.push(("type"@, "seeds"@)));
    lemma_zero_sample(prefix, "count"@, t.push(("type"@, "completed"@)));
    lemma_zero_sample(prefix, "count"@, t.push(("type"@, "mutex_stall"@)));
    lemma_zero_sample(prefix, "connections"@, t.push(("protocol"@, "tcp"@)).push(("type"@, "accept"@)));
    lemma_zero_sample(prefix, "connections"@, t.push(("protocol"@, "tcp"@)).push(("type"@, "announce"@)));
    lemma_zero_sample(prefix, "connections"@, t.push(("protocol"@, "tcp"@)).push(("type"@, "scrape"@)));
    lemma_zero_sample(prefix, "connections"@, t.push(("protocol"@, "udp"@)).push(("type"@, "overall"@)));
    lemma_zero_sample(prefix, "connections"@, t.push(("protocol"@, "udp"@)).push(("type"@, "connect"@)));
    lemma_zero_sample(prefix, "connections"@, t.push(("protocol"@, "udp"@)).push(("type"@, "announce"@)));
    lemma_zero_sample(prefix, "connections"@, t.push(("protocol"@, "udp"@)).push(("type"@, "scrape"@)));
    lemma_zero_sample(prefix, "connections"@, t.push(("protocol"@, "udp"@)).push(("type"@, "missmatch"@)));
    lemma_zero_sample(prefix, "connections"@, t.push(("type"@, "livesync"@)));
    assert forall|i: int| is_sample_index(28, i) implies ends_with(#[trigger] lines[i], "} 0"@)
        && sample_value(lines[i]) == 0 by {}
}

} // verus!
