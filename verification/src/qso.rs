//! One logged contact and its codec: decoding a tag stream into records and
//! encoding a record as a tag stream.

use crate::adif::{read_tag, tag_at, tags, tags_from, Tag};
use crate::fields::{field, FieldMap};
use crate::text::{
    chars_of, decimal, fold, folded_between, push_decimal, text_between, trim, trim_bounds,
};
use vstd::prelude::*;
use vstd::string::*;
use vstd::utf8::encode_utf8;

verus! {

/// One logged contact. Every field is free text; an empty string stands for
/// a field that is absent.
#[derive(Debug)]
pub struct QSO {
    /// Call sign of the station worked.
    pub call: String,
    /// Grid square of the station worked.
    pub gridsquare: String,
    /// Mode of the contact.
    pub mode: String,
    /// Submode of the contact.
    pub submode: String,
    /// Signal report sent.
    pub rst_sent: String,
    /// Signal report received.
    pub rst_rcvd: String,
    /// Date on which the contact started.
    pub qso_date: String,
    /// Time at which the contact started.
    pub time_on: String,
    /// Date on which the contact ended.
    pub qso_date_off: String,
    /// Time at which the contact ended.
    pub time_off: String,
    /// Band of the contact.
    pub band: String,
    /// Transmit frequency.
    pub freq: String,
    /// Receive frequency.
    pub freq_rx: String,
    /// Operator's call sign.
    pub operator: String,
    /// Free comment.
    pub comment: String,
    /// Transmit power.
    pub power: String,
    /// Grid square of the logging station.
    pub my_gridsquare: String,
    /// Call sign of the logging station.
    pub station_callsign: String,
}

/// The mathematical value of a [`QSO`]: each field as a sequence of
/// characters.
pub struct QsoView {
    pub call: Seq<char>,
    pub gridsquare: Seq<char>,
    pub mode: Seq<char>,
    pub submode: Seq<char>,
    pub rst_sent: Seq<char>,
    pub rst_rcvd: Seq<char>,
    pub qso_date: Seq<char>,
    pub time_on: Seq<char>,
    pub qso_date_off: Seq<char>,
    pub time_off: Seq<char>,
    pub band: Seq<char>,
    pub freq: Seq<char>,
    pub freq_rx: Seq<char>,
    pub operator: Seq<char>,
    pub comment: Seq<char>,
    pub power: Seq<char>,
    pub my_gridsquare: Seq<char>,
    pub station_callsign: Seq<char>,
}

impl View for QSO {
    type V = QsoView;

    open spec fn view(&self) -> QsoView {
        QsoView {
            call: self.call@,
            gridsquare: self.gridsquare@,
            mode: self.mode@,
            submode: self.submode@,
            rst_sent: self.rst_sent@,
            rst_rcvd: self.rst_rcvd@,
            qso_date: self.qso_date@,
            time_on: self.time_on@,
            qso_date_off: self.qso_date_off@,
            time_off: self.time_off@,
            band: self.band@,
            freq: self.freq@,
            freq_rx: self.freq_rx@,
            operator: self.operator@,
            comment: self.comment@,
            power: self.power@,
            my_gridsquare: self.my_gridsquare@,
            station_callsign: self.station_callsign@,
        }
    }
}

/// The record in which every field is absent.
pub open spec fn empty_record() -> QsoView {
    record_of(Map::empty())
}

/// The record assembled from an accumulator: each field of the schema takes
/// the value stored under its name, and names outside the schema are left
/// out.
pub open spec fn record_of(m: Map<Seq<char>, Seq<char>>) -> QsoView {
    QsoView {
        call: field(m, "call"@),
        gridsquare: field(m, "gridsquare"@),
        mode: field(m, "mode"@),
        submode: field(m, "submode"@),
        rst_sent: field(m, "rst_sent"@),
        rst_rcvd: field(m, "rst_rcvd"@),
        qso_date: field(m, "qso_date"@),
        time_on: field(m, "time_on"@),
        qso_date_off: field(m, "qso_date_off"@),
        time_off: field(m, "time_off"@),
        band: field(m, "band"@),
        freq: field(m, "freq"@),
        freq_rx: field(m, "freq_rx"@),
        operator: field(m, "operator"@),
        comment: field(m, "comment"@),
        power: field(m, "power"@),
        my_gridsquare: field(m, "my_gridsquare"@),
        station_callsign: field(m, "station_callsign"@),
    }
}

/// Whether a name, as it is accumulated, is one of the schema.
pub open spec fn is_field_name(name: Seq<char>) -> bool {
    ||| name == "call"@
    ||| name == "gridsquare"@
    ||| name == "mode"@
    ||| name == "submode"@
    ||| name == "rst_sent"@
    ||| name == "rst_rcvd"@
    ||| name == "qso_date"@
    ||| name == "time_on"@
    ||| name == "qso_date_off"@
    ||| name == "time_off"@
    ||| name == "band"@
    ||| name == "freq"@
    ||| name == "freq_rx"@
    ||| name == "operator"@
    ||| name == "comment"@
    ||| name == "power"@
    ||| name == "my_gridsquare"@
    ||| name == "station_callsign"@
}

/// A record can be forwarded when it names the station worked, the start date,
/// the start time and the band.
pub open spec fn is_valid(r: QsoView) -> bool {
    r.call.len() > 0 && r.qso_date.len() > 0 && r.time_on.len() > 0 && r.band.len() > 0
}

/// Whether a tag name, whatever its case, is the end-of-record marker.
pub open spec fn is_end_of_record(name: Seq<char>) -> bool {
    fold(name) == "eor"@
}

/// Whether a tag name, whatever its case, is the end-of-header marker.
pub open spec fn is_end_of_header(name: Seq<char>) -> bool {
    fold(name) == "eoh"@
}

/// The records that a sequence of tags yields, starting from the accumulator
/// `acc`. An end-of-record marker turns the accumulator into a record and
/// empties it; an end-of-header marker empties it; any other tag is stored
/// under its case-folded name, with its value trimmed.
pub open spec fn records(tags: Seq<Tag>, acc: Map<Seq<char>, Seq<char>>) -> Seq<QsoView>
    decreases tags.len(),
{
    if tags.len() == 0 {
        Seq::empty()
    } else if is_end_of_record(tags[0].name) {
        seq![record_of(acc)] + records(tags.drop_first(), Map::empty())
    } else if is_end_of_header(tags[0].name) {
        records(tags.drop_first(), Map::empty())
    } else {
        records(tags.drop_first(), acc.insert(fold(tags[0].name), trim(tags[0].value)))
    }
}

/// Whether a tag name is one of the two markers.
pub open spec fn is_marker(name: Seq<char>) -> bool {
    is_end_of_record(name) || is_end_of_header(name)
}

/// What the accumulator holds after a sequence of tags, starting from `acc`.
pub open spec fn pending(tags: Seq<Tag>, acc: Map<Seq<char>, Seq<char>>) -> Map<
    Seq<char>,
    Seq<char>,
>
    decreases tags.len(),
{
    if tags.len() == 0 {
        acc
    } else if is_marker(tags[0].name) {
        pending(tags.drop_first(), Map::empty())
    } else {
        pending(tags.drop_first(), acc.insert(fold(tags[0].name), trim(tags[0].value)))
    }
}

/// The records that a tag stream holds.
pub open spec fn decode(s: Seq<char>) -> Seq<QsoView> {
    records(tags(s), Map::empty())
}

/// The number of bytes that a text takes in UTF-8.
pub open spec fn byte_len(s: Seq<char>) -> nat {
    encode_utf8(s).len()
}

/// The tag written for one field: nothing for an empty value, else
/// `<NAME:length>value` with the value's length in bytes.
pub open spec fn tag_text(name: Seq<char>, value: Seq<char>) -> Seq<char> {
    if value.len() == 0 {
        Seq::empty()
    } else {
        seq!['<'] + name + seq![':'] + decimal(byte_len(value)) + seq!['>'] + value
    }
}

/// The tag stream written for a record: one tag for each field that is
/// present, in the order of the schema, and the end-of-record marker.
pub open spec fn encode(r: QsoView) -> Seq<char> {
    tag_text("CALL"@, r.call)
        + tag_text("GRIDSQUARE"@, r.gridsquare)
        + tag_text("MODE"@, r.mode)
        + tag_text("SUBMODE"@, r.submode)
        + tag_text("RST_SENT"@, r.rst_sent)
        + tag_text("RST_RCVD"@, r.rst_rcvd)
        + tag_text("QSO_DATE"@, r.qso_date)
        + tag_text("TIME_ON"@, r.time_on)
        + tag_text("QSO_DATE_OFF"@, r.qso_date_off)
        + tag_text("TIME_OFF"@, r.time_off)
        + tag_text("BAND"@, r.band)
        + tag_text("FREQ"@, r.freq)
        + tag_text("FREQ_RX"@, r.freq_rx)
        + tag_text("OPERATOR"@, r.operator)
        + tag_text("COMMENT"@, r.comment)
        + tag_text("POWER"@, r.power)
        + tag_text("MY_GRIDSQUARE"@, r.my_gridsquare)
        + tag_text("STATION_CALLSIGN"@, r.station_callsign)
        + "<EOR>\r\n"@
}

/// The values of a sequence of records.
pub open spec fn record_views(qsos: Seq<QSO>) -> Seq<QsoView> {
    qsos.map_values(|q: QSO| q@)
}

impl QSO {
    /// A record in which every field is absent.
    pub fn new() -> (qso: Self)
        ensures
            qso@ == empty_record(),
    {
        QSO {
            call: String::new(),
            gridsquare: String::new(),
            mode: String::new(),
            submode: String::new(),
            rst_sent: String::new(),
            rst_rcvd: String::new(),
            qso_date: String::new(),
            time_on: String::new(),
            qso_date_off: String::new(),
            time_off: String::new(),
            band: String::new(),
            freq: String::new(),
            freq_rx: String::new(),
            operator: String::new(),
            comment: String::new(),
            power: String::new(),
            my_gridsquare: String::new(),
            station_callsign: String::new(),
        }
    }

    /// Assembles a record from an accumulator. Names outside the schema are
    /// ignored; fields without an entry are empty.
    pub fn from_map(map: &FieldMap) -> (qso: Self)
        ensures
            qso@ == record_of(map@),
    {
        QSO {
            call: map.text("call"),
            gridsquare: map.text("gridsquare"),
            mode: map.text("mode"),
            submode: map.text("submode"),
            rst_sent: map.text("rst_sent"),
            rst_rcvd: map.text("rst_rcvd"),
            qso_date: map.text("qso_date"),
            time_on: map.text("time_on"),
            qso_date_off: map.text("qso_date_off"),
            time_off: map.text("time_off"),
            band: map.text("band"),
            freq: map.text("freq"),
            freq_rx: map.text("freq_rx"),
            operator: map.text("operator"),
            comment: map.text("comment"),
            power: map.text("power"),
            my_gridsquare: map.text("my_gridsquare"),
            station_callsign: map.text("station_callsign"),
        }
    }

    /// Whether the record has the four fields without which it is not
    /// forwarded.
    pub fn is_valid(&self) -> (valid: bool)
        ensures
            valid == is_valid(self@),
    {
        !self.call.as_str().is_empty() && !self.qso_date.as_str().is_empty()
            && !self.time_on.as_str().is_empty() && !self.band.as_str().is_empty()
    }

    /// Decodes a tag stream into the records it holds. Text that forms no
    /// tag is passed over, so every input decodes.
    pub fn from_adif(input: &str) -> (qsos: Vec<Self>)
        ensures
            record_views(qsos@) == decode(input@),
    {
        let chars = chars_of(input);
        let eor = String::from_str("eor");
        let eoh = String::from_str("eoh");
        let mut qsos: Vec<QSO> = Vec::new();
        let mut current = FieldMap::new();
        let mut pos: usize = 0;
        while pos < chars.len()
            invariant
                pos <= chars.len(),
                chars@ == input@,
                eor@ == "eor"@,
                eoh@ == "eoh"@,
                decode(input@) == record_views(qsos@) + records(
                    tags_from(chars@, pos as int),
                    current@,
                ),
            decreases chars.len() - pos,
        {
            let ghost before = tags_from(chars@, pos as int);
            let ghost done = record_views(qsos@);
            let ghost acc = current@;
            match read_tag(&chars, pos) {
                None => {
                    pos += 1;
                },
                Some(span) => {
                    let ghost tag = tag_at(chars@, pos as int);
                    let ghost rest = tags_from(chars@, span.value_end as int);
                    assert(before == seq![tag] + rest);
                    assert(before[0] == tag);
                    assert(before.drop_first() == rest);
                    let key = folded_between(&chars, span.name_start, span.name_end);
                    if key == eor {
                        let qso = QSO::from_map(&current);
                        qsos.push(qso);
                        current.clear();
                        assert(record_views(qsos@) == done.push(record_of(acc)));
                    } else if key == eoh {
                        current.clear();
                    } else {
                        let (from, to) = trim_bounds(&chars, span.value_start, span.value_end);
                        let value = text_between(&chars, from, to);
                        current.insert(key, value);
                    }
                    pos = span.value_end;
                },
            }
        }
        qsos
    }

    /// Encodes the record as a tag stream: its non-empty fields in the order
    /// of the schema, then the end-of-record marker and a line break.
    pub fn to_adif(&self) -> (adif: String)
        ensures
            adif@ == encode(self@),
    {
        let mut adif = String::new();
        push_tag(&mut adif, "CALL", &self.call);
        push_tag(&mut adif, "GRIDSQUARE", &self.gridsquare);
        push_tag(&mut adif, "MODE", &self.mode);
        push_tag(&mut adif, "SUBMODE", &self.submode);
        push_tag(&mut adif, "RST_SENT", &self.rst_sent);
        push_tag(&mut adif, "RST_RCVD", &self.rst_rcvd);
        push_tag(&mut adif, "QSO_DATE", &self.qso_date);
        push_tag(&mut adif, "TIME_ON", &self.time_on);
        push_tag(&mut adif, "QSO_DATE_OFF", &self.qso_date_off);
        push_tag(&mut adif, "TIME_OFF", &self.time_off);
        push_tag(&mut adif, "BAND", &self.band);
        push_tag(&mut adif, "FREQ", &self.freq);
        push_tag(&mut adif, "FREQ_RX", &self.freq_rx);
        push_tag(&mut adif, "OPERATOR", &self.operator);
        push_tag(&mut adif, "COMMENT", &self.comment);
        push_tag(&mut adif, "POWER", &self.power);
        push_tag(&mut adif, "MY_GRIDSQUARE", &self.my_gridsquare);
        push_tag(&mut adif, "STATION_CALLSIGN", &self.station_callsign);
        adif.append("<EOR>\r\n");
        adif
    }
}

/// Appends the tag for one field to `out`; nothing where the value is empty.
fn push_tag(out: &mut String, name: &str, value: &String)
    ensures
        final(out)@ == old(out)@ + tag_text(name@, value@),
{
    if !value.as_str().is_empty() {
        out.push('<');
        out.append(name);
        out.push(':');
        push_decimal(out, value.as_str().as_bytes().len());
        out.push('>');
        out.append(value.as_str());
    }
}

impl Clone for QSO {
    fn clone(&self) -> (copy: Self)
        ensures
            copy == *self,
    {
        QSO {
            call: self.call.clone(),
            gridsquare: self.gridsquare.clone(),
            mode: self.mode.clone(),
            submode: self.submode.clone(),
            rst_sent: self.rst_sent.clone(),
            rst_rcvd: self.rst_rcvd.clone(),
            qso_date: self.qso_date.clone(),
            time_on: self.time_on.clone(),
            qso_date_off: self.qso_date_off.clone(),
            time_off: self.time_off.clone(),
            band: self.band.clone(),
            freq: self.freq.clone(),
            freq_rx: self.freq_rx.clone(),
            operator: self.operator.clone(),
            comment: self.comment.clone(),
            power: self.power.clone(),
            my_gridsquare: self.my_gridsquare.clone(),
            station_callsign: self.station_callsign.clone(),
        }
    }
}

impl Default for QSO {
    fn default() -> (qso: Self)
        ensures
            qso@ == empty_record(),
    {
        QSO::new()
    }
}

} // verus!
