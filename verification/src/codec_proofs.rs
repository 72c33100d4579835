//! What decoding does to a stream that is made of parts.

use crate::adif::{tags, Tag};
use crate::qso::{
    decode, is_end_of_header, is_end_of_record, is_field_name, is_marker, pending, record_of,
    records, QsoView,
};
use crate::fields::field;
use crate::text::{fold, trim};
use crate::stream_proofs::lemma_tags_concat;
use vstd::prelude::*;

verus! {

/// Whether a text can follow another without changing the other's tags: it
/// is empty or begins a tag.
pub open spec fn begins_with_tag_or_empty(s: Seq<char>) -> bool {
    s.len() == 0 || s[0] == '<'
}

/// Whether no tag of the sequence ends a record.
pub open spec fn ends_no_record(tags: Seq<Tag>) -> bool {
    forall|i: int| 0 <= i < tags.len() ==> !is_end_of_record(#[trigger] tags[i].name)
}

/// Whether the tags are one group: an end-of-record marker, and before it
/// no marker of either kind.
pub open spec fn is_group(tags: Seq<Tag>) -> bool {
    &&& tags.len() > 0
    &&& is_end_of_record(tags.last().name)
    &&& forall|i: int| 0 <= i < tags.len() - 1 ==> !is_marker(#[trigger] tags[i].name)
}

/// The records of two runs of tags are those of the first run, followed by
/// those of the second run started from what the first left pending.
pub proof fn lemma_records_concat(t1: Seq<Tag>, t2: Seq<Tag>, acc: Map<Seq<char>, Seq<char>>)
    ensures
        records(t1 + t2, acc) == records(t1, acc) + records(t2, pending(t1, acc)),
    decreases t1.len(),
{
    if t1.len() == 0 {
        assert(t1 + t2 =~= t2);
        assert(records(t1, acc) + records(t2, acc) =~= records(t2, acc));
    } else {
        let whole = t1 + t2;
        assert(whole[0] == t1[0]);
        assert(whole.drop_first() =~= t1.drop_first() + t2);
        let next = if is_marker(t1[0].name) {
            Map::empty()
        } else {
            acc.insert(fold(t1[0].name), trim(t1[0].value))
        };
        lemma_records_concat(t1.drop_first(), t2, next);
        assert(records(whole, acc) =~= records(t1, acc) + records(t2, pending(t1, acc)));
    }
}

/// What two runs of tags leave pending is what the second leaves, started
/// from what the first left.
pub proof fn lemma_pending_concat(t1: Seq<Tag>, t2: Seq<Tag>, acc: Map<Seq<char>, Seq<char>>)
    ensures
        pending(t1 + t2, acc) == pending(t2, pending(t1, acc)),
    decreases t1.len(),
{
    if t1.len() == 0 {
        assert(t1 + t2 =~= t2);
    } else {
        let whole = t1 + t2;
        assert(whole[0] == t1[0]);
        assert(whole.drop_first() =~= t1.drop_first() + t2);
        let next = if is_marker(t1[0].name) {
            Map::empty()
        } else {
            acc.insert(fold(t1[0].name), trim(t1[0].value))
        };
        lemma_pending_concat(t1.drop_first(), t2, next);
    }
}

/// After a marker nothing is pending.
pub proof fn lemma_nothing_pending_after_marker(t: Seq<Tag>, acc: Map<Seq<char>, Seq<char>>)
    requires
        t.len() > 0,
        is_marker(t.last().name),
    ensures
        pending(t, acc) == Map::<Seq<char>, Seq<char>>::empty(),
    decreases t.len(),
{
    if t.len() > 1 {
        let rest = t.drop_first();
        assert(rest.last() == t.last());
        let next = if is_marker(t[0].name) {
            Map::empty()
        } else {
            acc.insert(fold(t[0].name), trim(t[0].value))
        };
        lemma_nothing_pending_after_marker(rest, next);
    } else {
        assert(t[0] == t.last());
        reveal_with_fuel(pending, 2);
    }
}

/// Tags without an end-of-record marker yield no record.
pub proof fn lemma_no_marker_no_record(t: Seq<Tag>, acc: Map<Seq<char>, Seq<char>>)
    requires
        ends_no_record(t),
    ensures
        records(t, acc) == Seq::<QsoView>::empty(),
    decreases t.len(),
{
    if t.len() > 0 {
        let rest = t.drop_first();
        assert forall|i: int| 0 <= i < rest.len() implies !is_end_of_record(
            #[trigger] rest[i].name,
        ) by {
            assert(rest[i] == t[i + 1]);
        }
        let next = if is_marker(t[0].name) {
            Map::empty()
        } else {
            acc.insert(fold(t[0].name), trim(t[0].value))
        };
        assert(!is_end_of_record(t[0].name));
        lemma_no_marker_no_record(rest, next);
    }
}

/// One group of tags yields one record: what its tags before the marker
/// leave pending.
pub proof fn lemma_group_is_one_record(t: Seq<Tag>)
    requires
        is_group(t),
    ensures
        records(t, Map::empty()) == seq![record_of(pending(t.drop_last(), Map::empty()))],
{
    let body = t.drop_last();
    let marker = seq![t.last()];
    assert(t =~= body + marker);
    lemma_records_concat(body, marker, Map::empty());
    assert forall|i: int| 0 <= i < body.len() implies !is_end_of_record(
        #[trigger] body[i].name,
    ) by {
        assert(body[i] == t[i]);
    }
    lemma_no_marker_no_record(body, Map::empty());
    let acc = pending(body, Map::empty());
    assert(records(marker, acc) =~= seq![record_of(acc)]) by {
        reveal_with_fuel(records, 2);
    }
    assert(records(t, Map::empty()) =~= seq![record_of(acc)]);
}

/// What a map holds for a name once a value is stored: the value under
/// the name it was stored under, and what it held before under any other.
proof fn lemma_field_after_insert(
    acc: Map<Seq<char>, Seq<char>>,
    name: Seq<char>,
    value: Seq<char>,
    key: Seq<char>,
)
    ensures
        field(acc.insert(name, value), key) == (if key == name {
            value
        } else {
            field(acc, key)
        }),
{
}

/// Accumulators that yield the same record still do once the same value
/// is stored under the same name in both.
proof fn lemma_insert_keeps_record(
    acc1: Map<Seq<char>, Seq<char>>,
    acc2: Map<Seq<char>, Seq<char>>,
    name: Seq<char>,
    value: Seq<char>,
)
    requires
        record_of(acc1) == record_of(acc2),
    ensures
        record_of(acc1.insert(name, value)) == record_of(acc2.insert(name, value)),
{
    let after1 = record_of(acc1.insert(name, value));
    let after2 = record_of(acc2.insert(name, value));
    assert(after1.call == after2.call) by {
        lemma_field_after_insert(acc1, name, value, "call"@);
        lemma_field_after_insert(acc2, name, value, "call"@);
        assert(record_of(acc1).call == record_of(acc2).call);
    }
    assert(after1.gridsquare == after2.gridsquare) by {
        lemma_field_after_insert(acc1, name, value, "gridsquare"@);
        lemma_field_after_insert(acc2, name, value, "gridsquare"@);
        assert(record_of(acc1).gridsquare == record_of(acc2).gridsquare);
    }
    assert(after1.mode == after2.mode) by {
        lemma_field_after_insert(acc1, name, value, "mode"@);
        lemma_field_after_insert(acc2, name, value, "mode"@);
        assert(record_of(acc1).mode == record_of(acc2).mode);
    }
    assert(after1.submode == after2.submode) by {
        lemma_field_after_insert(acc1, name, value, "submode"@);
        lemma_field_after_insert(acc2, name, value, "submode"@);
        assert(record_of(acc1).submode == record_of(acc2).submode);
    }
    assert(after1.rst_sent == after2.rst_sent) by {
        lemma_field_after_insert(acc1, name, value, "rst_sent"@);
        lemma_field_after_insert(acc2, name, value, "rst_sent"@);
        assert(record_of(acc1).rst_sent == record_of(acc2).rst_sent);
    }
    assert(after1.rst_rcvd == after2.rst_rcvd) by {
        lemma_field_after_insert(acc1, name, value, "rst_rcvd"@);
        lemma_field_after_insert(acc2, name, value, "rst_rcvd"@);
        assert(record_of(acc1).rst_rcvd == record_of(acc2).rst_rcvd);
    }
    assert(after1.qso_date == after2.qso_date) by {
        lemma_field_after_insert(acc1, name, value, "qso_date"@);
        lemma_field_after_insert(acc2, name, value, "qso_date"@);
        assert(record_of(acc1).qso_date == record_of(acc2).qso_date);
    }
    assert(after1.time_on == after2.time_on) by {
        lemma_field_after_insert(acc1, name, value, "time_on"@);
        lemma_field_after_insert(acc2, name, value, "time_on"@);
        assert(record_of(acc1).time_on == record_of(acc2).time_on);
    }
    assert(after1.qso_date_off == after2.qso_date_off) by {
        lemma_field_after_insert(acc1, name, value, "qso_date_off"@);
        lemma_field_after_insert(acc2, name, value, "qso_date_off"@);
        assert(record_of(acc1).qso_date_off == record_of(acc2).qso_date_off);
    }
    assert(after1.time_off == after2.time_off) by {
        lemma_field_after_insert(acc1, name, value, "time_off"@);
        lemma_field_after_insert(acc2, name, value, "time_off"@);
        assert(record_of(acc1).time_off == record_of(acc2).time_off);
    }
    assert(after1.band == after2.band) by {
        lemma_field_after_insert(acc1, name, value, "band"@);
        lemma_field_after_insert(acc2, name, value, "band"@);
        assert(record_of(acc1).band == record_of(acc2).band);
    }
    assert(after1.freq == after2.freq) by {
        lemma_field_after_insert(acc1, name, value, "freq"@);
        lemma_field_after_insert(acc2, name, value, "freq"@);
        assert(record_of(acc1).freq == record_of(acc2).freq);
    }
    assert(after1.freq_rx == after2.freq_rx) by {
        lemma_field_after_insert(acc1, name, value, "freq_rx"@);
        lemma_field_after_insert(acc2, name, value, "freq_rx"@);
        assert(record_of(acc1).freq_rx == record_of(acc2).freq_rx);
    }
    assert(after1.operator == after2.operator) by {
        lemma_field_after_insert(acc1, name, value, "operator"@);
        lemma_field_after_insert(acc2, name, value, "operator"@);
        assert(record_of(acc1).operator == record_of(acc2).operator);
    }
    assert(after1.comment == after2.comment) by {
        lemma_field_after_insert(acc1, name, value, "comment"@);
        lemma_field_after_insert(acc2, name, value, "comment"@);
        assert(record_of(acc1).comment == record_of(acc2).comment);
    }
    assert(after1.power == after2.power) by {
        lemma_field_after_insert(acc1, name, value, "power"@);
        lemma_field_after_insert(acc2, name, value, "power"@);
        assert(record_of(acc1).power == record_of(acc2).power);
    }
    assert(after1.my_gridsquare == after2.my_gridsquare) by {
        lemma_field_after_insert(acc1, name, value, "my_gridsquare"@);
        lemma_field_after_insert(acc2, name, value, "my_gridsquare"@);
        assert(record_of(acc1).my_gridsquare == record_of(acc2).my_gridsquare);
    }
    assert(after1.station_callsign == after2.station_callsign) by {
        lemma_field_after_insert(acc1, name, value, "station_callsign"@);
        lemma_field_after_insert(acc2, name, value, "station_callsign"@);
        assert(record_of(acc1).station_callsign == record_of(acc2).station_callsign);
    }
}

/// Accumulators that yield the same record now yield the same records
/// after any further tags.
pub proof fn lemma_records_depend_on_fields(
    t: Seq<Tag>,
    acc1: Map<Seq<char>, Seq<char>>,
    acc2: Map<Seq<char>, Seq<char>>,
)
    requires
        record_of(acc1) == record_of(acc2),
    ensures
        records(t, acc1) == records(t, acc2),
    decreases t.len(),
{
    if t.len() > 0 && !is_marker(t[0].name) {
        let name = fold(t[0].name);
        let value = trim(t[0].value);
        lemma_insert_keeps_record(acc1, acc2, name, value);
        lemma_records_depend_on_fields(
            t.drop_first(),
            acc1.insert(name, value),
            acc2.insert(name, value),
        );
    }
}

/// A tag whose name is not in the schema changes no record, wherever it
/// stands among the other tags.
pub proof fn theorem_unknown_tag_is_ignored(
    before: Seq<Tag>,
    unknown: Tag,
    after: Seq<Tag>,
    acc: Map<Seq<char>, Seq<char>>,
)
    requires
        !is_marker(unknown.name),
        !is_field_name(fold(unknown.name)),
    ensures
        records(before + seq![unknown] + after, acc) == records(before + after, acc),
{
    let held = pending(before, acc);
    let with_unknown = held.insert(fold(unknown.name), trim(unknown.value));
    let tail = seq![unknown] + after;
    assert(before + seq![unknown] + after =~= before + tail);
    lemma_records_concat(before, tail, acc);
    lemma_records_concat(before, after, acc);
    assert(tail[0] == unknown);
    assert(tail.drop_first() =~= after);
    assert(records(tail, held) == records(after, with_unknown));
    lemma_records_depend_on_fields(after, with_unknown, held);
}

/// Decoding never fails, and a stream in which no tag ends a record holds
/// no record.
pub proof fn theorem_no_end_of_record(s: Seq<char>)
    requires
        ends_no_record(tags(s)),
    ensures
        decode(s) == Seq::<QsoView>::empty(),
{
    lemma_no_marker_no_record(tags(s), Map::empty());
}

/// Text that follows a marker is decoded as if it stood alone: where `a`
/// ends with a marker and `b` is empty or begins a tag, the records of `a`
/// followed by `b` are those of `a`, then those of `b`.
pub proof fn theorem_decode_after_marker(a: Seq<char>, b: Seq<char>)
    requires
        tags(a).len() > 0,
        is_marker(tags(a).last().name),
        begins_with_tag_or_empty(b),
    ensures
        decode(a + b) == decode(a) + decode(b),
{
    lemma_tags_concat(a, b, 0);
    lemma_records_concat(tags(a), tags(b), Map::empty());
    lemma_nothing_pending_after_marker(tags(a), Map::empty());
}

/// A stream of two groups, each ended by an end-of-record marker, holds
/// exactly two records, and each record is made of the tags of its own group
/// alone.
pub proof fn theorem_two_groups(a: Seq<char>, b: Seq<char>)
    requires
        is_group(tags(a)),
        is_group(tags(b)),
        begins_with_tag_or_empty(b),
    ensures
        decode(a + b) == seq![
            record_of(pending(tags(a).drop_last(), Map::empty())),
            record_of(pending(tags(b).drop_last(), Map::empty())),
        ],
{
    theorem_decode_after_marker(a, b);
    lemma_group_is_one_record(tags(a));
    lemma_group_is_one_record(tags(b));
    assert(decode(a) + decode(b) =~= seq![
        record_of(pending(tags(a).drop_last(), Map::empty())),
        record_of(pending(tags(b).drop_last(), Map::empty())),
    ]);
}

/// A header is discarded: where `h` holds no end-of-record marker and ends
/// with an end-of-header marker, the records of `h` followed by `b` are
/// those of `b` alone, whatever tags `h` held.
pub proof fn theorem_header_is_discarded(h: Seq<char>, b: Seq<char>)
    requires
        tags(h).len() > 0,
        is_end_of_header(tags(h).last().name),
        ends_no_record(tags(h)),
        begins_with_tag_or_empty(b),
    ensures
        decode(h + b) == decode(b),
{
    theorem_decode_after_marker(h, b);
    theorem_no_end_of_record(h);
    assert(decode(h) + decode(b) =~= decode(b));
}

} // verus!
