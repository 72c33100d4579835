//! Encoding a record and decoding the result gives the record back.

use crate::adif::{
    after_qualifier, close_index, in_class, is_tag_at, tag_at, tags, tags_from, value_end,
    CharClass, Tag,
};
use crate::codec_proofs::{
    lemma_no_marker_no_record, lemma_pending_concat, lemma_records_concat,
};
use crate::fields::field;
use crate::qso::{
    byte_len, decode, encode, is_end_of_record, is_marker, pending, record_of, records, tag_text,
    QsoView,
};
use crate::stream_proofs::{lemma_run_end_is, lemma_tags_concat};
use crate::text::{decimal, fold, is_digit, trim};
use vstd::prelude::*;

verus! {

/// A value that survives the codec: it holds no `<`, which would begin a
/// tag, and neither begins nor ends with whitespace, which decoding trims.
pub open spec fn is_clean(value: Seq<char>) -> bool {
    &&& trim(value) == value
    &&& forall|j: int| 0 <= j < value.len() ==> value[j] != '<'
}

/// A record all of whose values survive the codec.
pub open spec fn can_round_trip(r: QsoView) -> bool {
    &&& is_clean(r.call)
    &&& is_clean(r.gridsquare)
    &&& is_clean(r.mode)
    &&& is_clean(r.submode)
    &&& is_clean(r.rst_sent)
    &&& is_clean(r.rst_rcvd)
    &&& is_clean(r.qso_date)
    &&& is_clean(r.time_on)
    &&& is_clean(r.qso_date_off)
    &&& is_clean(r.time_off)
    &&& is_clean(r.band)
    &&& is_clean(r.freq)
    &&& is_clean(r.freq_rx)
    &&& is_clean(r.operator)
    &&& is_clean(r.comment)
    &&& is_clean(r.power)
    &&& is_clean(r.my_gridsquare)
    &&& is_clean(r.station_callsign)
}

/// The number of fields in the schema.
spec fn field_count() -> int {
    18
}

/// The name under which field `i` of the schema is accumulated.
spec fn field_name(i: int) -> Seq<char> {
    if i == 0 {
        "call"@
    } else if i == 1 {
        "gridsquare"@
    } else if i == 2 {
        "mode"@
    } else if i == 3 {
        "submode"@
    } else if i == 4 {
        "rst_sent"@
    } else if i == 5 {
        "rst_rcvd"@
    } else if i == 6 {
        "qso_date"@
    } else if i == 7 {
        "time_on"@
    } else if i == 8 {
        "qso_date_off"@
    } else if i == 9 {
        "time_off"@
    } else if i == 10 {
        "band"@
    } else if i == 11 {
        "freq"@
    } else if i == 12 {
        "freq_rx"@
    } else if i == 13 {
        "operator"@
    } else if i == 14 {
        "comment"@
    } else if i == 15 {
        "power"@
    } else if i == 16 {
        "my_gridsquare"@
    } else {
        "station_callsign"@
    }
}

/// The name with which field `i` of the schema is written.
spec fn tag_name(i: int) -> Seq<char> {
    if i == 0 {
        "CALL"@
    } else if i == 1 {
        "GRIDSQUARE"@
    } else if i == 2 {
        "MODE"@
    } else if i == 3 {
        "SUBMODE"@
    } else if i == 4 {
        "RST_SENT"@
    } else if i == 5 {
        "RST_RCVD"@
    } else if i == 6 {
        "QSO_DATE"@
    } else if i == 7 {
        "TIME_ON"@
    } else if i == 8 {
        "QSO_DATE_OFF"@
    } else if i == 9 {
        "TIME_OFF"@
    } else if i == 10 {
        "BAND"@
    } else if i == 11 {
        "FREQ"@
    } else if i == 12 {
        "FREQ_RX"@
    } else if i == 13 {
        "OPERATOR"@
    } else if i == 14 {
        "COMMENT"@
    } else if i == 15 {
        "POWER"@
    } else if i == 16 {
        "MY_GRIDSQUARE"@
    } else {
        "STATION_CALLSIGN"@
    }
}

/// The value of field `i` of the schema in a record.
spec fn field_value(r: QsoView, i: int) -> Seq<char> {
    if i == 0 {
        r.call
    } else if i == 1 {
        r.gridsquare
    } else if i == 2 {
        r.mode
    } else if i == 3 {
        r.submode
    } else if i == 4 {
        r.rst_sent
    } else if i == 5 {
        r.rst_rcvd
    } else if i == 6 {
        r.qso_date
    } else if i == 7 {
        r.time_on
    } else if i == 8 {
        r.qso_date_off
    } else if i == 9 {
        r.time_off
    } else if i == 10 {
        r.band
    } else if i == 11 {
        r.freq
    } else if i == 12 {
        r.freq_rx
    } else if i == 13 {
        r.operator
    } else if i == 14 {
        r.comment
    } else if i == 15 {
        r.power
    } else if i == 16 {
        r.my_gridsquare
    } else {
        r.station_callsign
    }
}

/// A text that can stand as a tag's name.
spec fn is_name(name: Seq<char>) -> bool {
    &&& name.len() > 0
    &&& forall|j: int| 0 <= j < name.len() ==> in_class(CharClass::Name, #[trigger] name[j])
}

/// The first `n` fields of a record, encoded.
spec fn encode_upto(r: QsoView, n: int) -> Seq<char>
    decreases n,
{
    if n <= 0 {
        Seq::empty()
    } else {
        encode_upto(r, n - 1) + tag_text(tag_name(n - 1), field_value(r, n - 1))
    }
}

/// The tags that the first `n` fields of a record are written as.
spec fn present(r: QsoView, n: int) -> Seq<Tag>
    decreases n,
{
    if n <= 0 {
        Seq::empty()
    } else if field_value(r, n - 1).len() > 0 {
        present(r, n - 1).push(Tag { name: tag_name(n - 1), value: field_value(r, n - 1) })
    } else {
        present(r, n - 1)
    }
}

/// What the accumulator holds once the first `n` fields of a record have
/// been read back.
spec fn stored(r: QsoView, n: int) -> Map<Seq<char>, Seq<char>>
    decreases n,
{
    if n <= 0 {
        Map::empty()
    } else if field_value(r, n - 1).len() > 0 {
        stored(r, n - 1).insert(field_name(n - 1), field_value(r, n - 1))
    } else {
        stored(r, n - 1)
    }
}

proof fn lemma_name_call()
    ensures
        is_name("CALL"@),
        fold("CALL"@) == "call"@,
        "call"@.len() == 4,
        "call"@[0] == 'c',
{
    reveal_strlit("CALL");
    reveal_strlit("call");
    assert(fold("CALL"@) =~= "call"@);
}

proof fn lemma_name_gridsquare()
    ensures
        is_name("GRIDSQUARE"@),
        fold("GRIDSQUARE"@) == "gridsquare"@,
        "gridsquare"@.len() == 10,
        "gridsquare"@[0] == 'g',
        "gridsquare"@[4] == 's',
{
    reveal_strlit("GRIDSQUARE");
    reveal_strlit("gridsquare");
    assert(fold("GRIDSQUARE"@) =~= "gridsquare"@);
}

proof fn lemma_name_mode()
    ensures
        is_name("MODE"@),
        fold("MODE"@) == "mode"@,
        "mode"@.len() == 4,
        "mode"@[0] == 'm',
{
    reveal_strlit("MODE");
    reveal_strlit("mode");
    assert(fold("MODE"@) =~= "mode"@);
}

proof fn lemma_name_submode()
    ensures
        is_name("SUBMODE"@),
        fold("SUBMODE"@) == "submode"@,
        "submode"@.len() == 7,
        "submode"@[0] == 's',
        "submode"@[4] == 'o',
{
    reveal_strlit("SUBMODE");
    reveal_strlit("submode");
    assert(fold("SUBMODE"@) =~= "submode"@);
}

proof fn lemma_name_rst_sent()
    ensures
        is_name("RST_SENT"@),
        fold("RST_SENT"@) == "rst_sent"@,
        "rst_sent"@.len() == 8,
        "rst_sent"@[0] == 'r',
        "rst_sent"@[4] == 's',
{
    reveal_strlit("RST_SENT");
    reveal_strlit("rst_sent");
    assert(fold("RST_SENT"@) =~= "rst_sent"@);
}

proof fn lemma_name_rst_rcvd()
    ensures
        is_name("RST_RCVD"@),
        fold("RST_RCVD"@) == "rst_rcvd"@,
        "rst_rcvd"@.len() == 8,
        "rst_rcvd"@[0] == 'r',
        "rst_rcvd"@[4] == 'r',
{
    reveal_strlit("RST_RCVD");
    reveal_strlit("rst_rcvd");
    assert(fold("RST_RCVD"@) =~= "rst_rcvd"@);
}

proof fn lemma_name_qso_date()
    ensures
        is_name("QSO_DATE"@),
        fold("QSO_DATE"@) == "qso_date"@,
        "qso_date"@.len() == 8,
        "qso_date"@[0] == 'q',
        "qso_date"@[4] == 'd',
{
    reveal_strlit("QSO_DATE");
    reveal_strlit("qso_date");
    assert(fold("QSO_DATE"@) =~= "qso_date"@);
}

proof fn lemma_name_time_on()
    ensures
        is_name("TIME_ON"@),
        fold("TIME_ON"@) == "time_on"@,
        "time_on"@.len() == 7,
        "time_on"@[0] == 't',
        "time_on"@[4] == '_',
{
    reveal_strlit("TIME_ON");
    reveal_strlit("time_on");
    assert(fold("TIME_ON"@) =~= "time_on"@);
}

proof fn lemma_name_qso_date_off()
    ensures
        is_name("QSO_DATE_OFF"@),
        fold("QSO_DATE_OFF"@) == "qso_date_off"@,
        "qso_date_off"@.len() == 12,
        "qso_date_off"@[0] == 'q',
        "qso_date_off"@[4] == 'd',
{
    reveal_strlit("QSO_DATE_OFF");
    reveal_strlit("qso_date_off");
    assert(fold("QSO_DATE_OFF"@) =~= "qso_date_off"@);
}

proof fn lemma_name_time_off()
    ensures
        is_name("TIME_OFF"@),
        fold("TIME_OFF"@) == "time_off"@,
        "time_off"@.len() == 8,
        "time_off"@[0] == 't',
        "time_off"@[4] == '_',
{
    reveal_strlit("TIME_OFF");
    reveal_strlit("time_off");
    assert(fold("TIME_OFF"@) =~= "time_off"@);
}

proof fn lemma_name_band()
    ensures
        is_name("BAND"@),
        fold("BAND"@) == "band"@,
        "band"@.len() == 4,
        "band"@[0] == 'b',
{
    reveal_strlit("BAND");
    reveal_strlit("band");
    assert(fold("BAND"@) =~= "band"@);
}

proof fn lemma_name_freq()
    ensures
        is_name("FREQ"@),
        fold("FREQ"@) == "freq"@,
        "freq"@.len() == 4,
        "freq"@[0] == 'f',
{
    reveal_strlit("FREQ");
    reveal_strlit("freq");
    assert(fold("FREQ"@) =~= "freq"@);
}

proof fn lemma_name_freq_rx()
    ensures
        is_name("FREQ_RX"@),
        fold("FREQ_RX"@) == "freq_rx"@,
        "freq_rx"@.len() == 7,
        "freq_rx"@[0] == 'f',
        "freq_rx"@[4] == '_',
{
    reveal_strlit("FREQ_RX");
    reveal_strlit("freq_rx");
    assert(fold("FREQ_RX"@) =~= "freq_rx"@);
}

proof fn lemma_name_operator()
    ensures
        is_name("OPERATOR"@),
        fold("OPERATOR"@) == "operator"@,
        "operator"@.len() == 8,
        "operator"@[0] == 'o',
        "operator"@[4] == 'a',
{
    reveal_strlit("OPERATOR");
    reveal_strlit("operator");
    assert(fold("OPERATOR"@) =~= "operator"@);
}

proof fn lemma_name_comment()
    ensures
        is_name("COMMENT"@),
        fold("COMMENT"@) == "comment"@,
        "comment"@.len() == 7,
        "comment"@[0] == 'c',
        "comment"@[4] == 'e',
{
    reveal_strlit("COMMENT");
    reveal_strlit("comment");
    assert(fold("COMMENT"@) =~= "comment"@);
}

proof fn lemma_name_power()
    ensures
        is_name("POWER"@),
        fold("POWER"@) == "power"@,
        "power"@.len() == 5,
        "power"@[0] == 'p',
        "power"@[4] == 'r',
{
    reveal_strlit("POWER");
    reveal_strlit("power");
    assert(fold("POWER"@) =~= "power"@);
}

proof fn lemma_name_my_gridsquare()
    ensures
        is_name("MY_GRIDSQUARE"@),
        fold("MY_GRIDSQUARE"@) == "my_gridsquare"@,
        "my_gridsquare"@.len() == 13,
        "my_gridsquare"@[0] == 'm',
        "my_gridsquare"@[4] == 'r',
{
    reveal_strlit("MY_GRIDSQUARE");
    reveal_strlit("my_gridsquare");
    assert(fold("MY_GRIDSQUARE"@) =~= "my_gridsquare"@);
}

proof fn lemma_name_station_callsign()
    ensures
        is_name("STATION_CALLSIGN"@),
        fold("STATION_CALLSIGN"@) == "station_callsign"@,
        "station_callsign"@.len() == 16,
        "station_callsign"@[0] == 's',
        "station_callsign"@[4] == 'i',
{
    reveal_strlit("STATION_CALLSIGN");
    reveal_strlit("station_callsign");
    assert(fold("STATION_CALLSIGN"@) =~= "station_callsign"@);
}

/// The names of the schema: each can stand in a tag, folds to the name it is
/// accumulated under, and is no marker; and no two are the same.
proof fn lemma_schema()
    ensures
        forall|i: int|
            0 <= i < field_count() ==> is_name(#[trigger] tag_name(i)) && fold(tag_name(i))
                == field_name(i) && !is_marker(tag_name(i)),
        forall|i: int, j: int|
            0 <= i < j < field_count() ==> #[trigger] field_name(i) != #[trigger] field_name(j),
{
    reveal_strlit("eor");
    reveal_strlit("eoh");
    lemma_name_call();
    lemma_name_gridsquare();
    lemma_name_mode();
    lemma_name_submode();
    lemma_name_rst_sent();
    lemma_name_rst_rcvd();
    lemma_name_qso_date();
    lemma_name_time_on();
    lemma_name_qso_date_off();
    lemma_name_time_off();
    lemma_name_band();
    lemma_name_freq();
    lemma_name_freq_rx();
    lemma_name_operator();
    lemma_name_comment();
    lemma_name_power();
    lemma_name_my_gridsquare();
    lemma_name_station_callsign();
}

/// The decimal notation of a number is made of digits, at least one.
proof fn lemma_decimal_digits(n: nat)
    ensures
        decimal(n).len() > 0,
        forall|j: int| 0 <= j < decimal(n).len() ==> is_digit(#[trigger] decimal(n)[j]),
    decreases n,
{
    if n >= 10 {
        lemma_decimal_digits(n / 10);
    }
}

/// The text written for one field is read back as one tag, with the name
/// and the value that were written.
proof fn lemma_one_tag(name: Seq<char>, value: Seq<char>)
    requires
        is_name(name),
        value.len() > 0,
        forall|j: int| 0 <= j < value.len() ==> value[j] != '<',
    ensures
        tag_text(name, value).len() > 0,
        tag_text(name, value)[0] == '<',
        tags(tag_text(name, value)) == seq![Tag { name, value }],
{
    let d = decimal(byte_len(value));
    lemma_decimal_digits(byte_len(value));
    let s = tag_text(name, value);
    let n1: int = name.len() as int + 1;
    let n2: int = n1 + 1 + d.len() as int;
    assert(s.len() == n2 + 1 + value.len());
    assert(s[0] == '<');
    assert forall|j: int| 1 <= j < n1 implies in_class(CharClass::Name, #[trigger] s[j]) by {
        assert(s[j] == name[j - 1]);
    }
    assert(s[n1] == ':');
    assert forall|j: int| n1 + 1 <= j < n2 implies in_class(CharClass::Digits, #[trigger] s[j]) by {
        assert(s[j] == d[j - n1 - 1]);
    }
    assert(s[n2] == '>');
    assert forall|j: int| n2 + 1 <= j < s.len() implies in_class(CharClass::Text, #[trigger] s[j]) by {
        assert(s[j] == value[j - n2 - 1]);
    }
    lemma_run_end_is(s, CharClass::Name, 1, n1);
    lemma_run_end_is(s, CharClass::Digits, n1 + 1, n2);
    assert(after_qualifier(s, CharClass::Digits, n1) == n2);
    assert(after_qualifier(s, CharClass::Letters, n2) == n2);
    assert(close_index(s, 0) == n2);
    lemma_run_end_is(s, CharClass::Text, n2 + 1, s.len() as int);
    assert(is_tag_at(s, 0));
    assert(value_end(s, 0) == s.len());
    assert(s.subrange(1, n1) =~= name);
    assert(s.subrange(n2 + 1, s.len() as int) =~= value);
    assert(tags_from(s, s.len() as int) =~= Seq::<Tag>::empty());
    assert(tags(s) =~= seq![Tag { name, value }]);
}

/// The text that ends a record is read back as one end-of-record marker.
proof fn lemma_end_of_record_text()
    ensures
        "<EOR>\r\n"@.len() > 0,
        "<EOR>\r\n"@[0] == '<',
        tags("<EOR>\r\n"@).len() == 1,
        is_end_of_record(tags("<EOR>\r\n"@)[0].name),
{
    reveal_strlit("<EOR>\r\n");
    reveal_strlit("eor");
    let s = "<EOR>\r\n"@;
    lemma_run_end_is(s, CharClass::Name, 1, 4);
    assert(after_qualifier(s, CharClass::Digits, 4) == 4);
    assert(after_qualifier(s, CharClass::Letters, 4) == 4);
    assert(close_index(s, 0) == 4);
    lemma_run_end_is(s, CharClass::Text, 5, 7);
    assert(is_tag_at(s, 0));
    assert(value_end(s, 0) == 7);
    assert(tags_from(s, 7) =~= Seq::<Tag>::empty());
    assert(tags(s) =~= seq![tag_at(s, 0)]);
    assert(fold(s.subrange(1, 4)) =~= "eor"@);
}

/// The first `n` fields of a clean record are read back as the tags they
/// were written as.
proof fn lemma_encoded_tags(r: QsoView, n: int)
    requires
        can_round_trip(r),
        0 <= n <= field_count(),
    ensures
        tags(encode_upto(r, n)) == present(r, n),
    decreases n,
{
    if n > 0 {
        lemma_schema();
        lemma_encoded_tags(r, n - 1);
        let head = encode_upto(r, n - 1);
        let name = tag_name(n - 1);
        let value = field_value(r, n - 1);
        let tail = tag_text(name, value);
        if value.len() > 0 {
            lemma_one_tag(name, value);
            lemma_tags_concat(head, tail, 0);
            assert(present(r, n - 1) + seq![Tag { name, value }] =~= present(r, n));
        } else {
            assert(head + tail =~= head);
        }
    }
}

/// None of the tags that a record is written as is a marker.
proof fn lemma_present_has_no_marker(r: QsoView, n: int)
    requires
        0 <= n <= field_count(),
    ensures
        forall|k: int| 0 <= k < present(r, n).len() ==> !is_marker(#[trigger] present(r, n)[k].name),
    decreases n,
{
    if n > 0 {
        lemma_schema();
        lemma_present_has_no_marker(r, n - 1);
        assert forall|k: int| 0 <= k < present(r, n).len() implies !is_marker(
            #[trigger] present(r, n)[k].name,
        ) by {
            if k < present(r, n - 1).len() {
                assert(present(r, n)[k] == present(r, n - 1)[k]);
            } else {
                assert(present(r, n)[k].name == tag_name(n - 1));
            }
        }
    }
}

/// Reading the tags of the first `n` fields back leaves exactly those
/// fields pending.
proof fn lemma_present_is_stored(r: QsoView, n: int)
    requires
        can_round_trip(r),
        0 <= n <= field_count(),
    ensures
        pending(present(r, n), Map::empty()) == stored(r, n),
    decreases n,
{
    if n > 0 {
        lemma_schema();
        lemma_present_is_stored(r, n - 1);
        let name = tag_name(n - 1);
        let value = field_value(r, n - 1);
        if value.len() > 0 {
            let one = seq![Tag { name, value }];
            assert(present(r, n) =~= present(r, n - 1) + one);
            lemma_pending_concat(present(r, n - 1), one, Map::empty());
            assert(trim(value) == value);
            assert(pending(one, stored(r, n - 1)) == stored(r, n)) by {
                reveal_with_fuel(pending, 2);
            }
        }
    }
}

/// What is pending after the first `n` fields holds each of them under its
/// own name, and nothing under the names of the fields that follow.
proof fn lemma_stored_fields(r: QsoView, n: int, i: int)
    requires
        0 <= n <= field_count(),
        0 <= i < field_count(),
    ensures
        field(stored(r, n), field_name(i)) == (if i < n {
            field_value(r, i)
        } else {
            Seq::empty()
        }),
    decreases n,
{
    if n > 0 {
        lemma_schema();
        lemma_stored_fields(r, n - 1, i);
        if i < n - 1 {
            assert(field_name(i) != field_name(n - 1));
        } else if i > n - 1 {
            assert(field_name(n - 1) != field_name(i));
        } else if field_value(r, i).len() == 0 {
            assert(field_value(r, i) =~= Seq::<char>::empty());
        }
    }
}

/// The encoding of a record is that of its fields, one after the other, and
/// the end-of-record marker.
proof fn lemma_encode_unfolds(r: QsoView)
    ensures
        encode(r) == encode_upto(r, field_count()) + "<EOR>\r\n"@,
{
    reveal_with_fuel(encode_upto, 19);
    assert(encode_upto(r, 1) =~= tag_text("CALL"@, r.call));
}

/// What is pending after all fields of a record is the record.
proof fn lemma_stored_is_record(r: QsoView)
    ensures
        record_of(stored(r, field_count())) == r,
{
    lemma_stored_fields(r, field_count(), 0);
    lemma_stored_fields(r, field_count(), 1);
    lemma_stored_fields(r, field_count(), 2);
    lemma_stored_fields(r, field_count(), 3);
    lemma_stored_fields(r, field_count(), 4);
    lemma_stored_fields(r, field_count(), 5);
    lemma_stored_fields(r, field_count(), 6);
    lemma_stored_fields(r, field_count(), 7);
    lemma_stored_fields(r, field_count(), 8);
    lemma_stored_fields(r, field_count(), 9);
    lemma_stored_fields(r, field_count(), 10);
    lemma_stored_fields(r, field_count(), 11);
    lemma_stored_fields(r, field_count(), 12);
    lemma_stored_fields(r, field_count(), 13);
    lemma_stored_fields(r, field_count(), 14);
    lemma_stored_fields(r, field_count(), 15);
    lemma_stored_fields(r, field_count(), 16);
    lemma_stored_fields(r, field_count(), 17);
}

/// A record whose values hold no `<` and neither begin nor end with
/// whitespace is encoded to a stream that decodes to that record alone.
pub proof fn theorem_round_trip(r: QsoView)
    requires
        can_round_trip(r),
    ensures
        decode(encode(r)) == seq![r],
{
    let body = encode_upto(r, field_count());
    let end = "<EOR>\r\n"@;
    lemma_encode_unfolds(r);
    lemma_end_of_record_text();
    lemma_encoded_tags(r, field_count());
    lemma_tags_concat(body, end, 0);
    let fields = present(r, field_count());
    let marker = tags(end);
    assert(tags(encode(r)) == fields + marker);
    lemma_records_concat(fields, marker, Map::empty());
    lemma_present_has_no_marker(r, field_count());
    lemma_no_marker_no_record(fields, Map::empty());
    lemma_present_is_stored(r, field_count());
    let acc = stored(r, field_count());
    assert(records(marker, acc) =~= seq![record_of(acc)]) by {
        reveal_with_fuel(records, 2);
    }
    lemma_stored_is_record(r);
    assert(decode(encode(r)) =~= seq![r]);
}

} // verus!
