use regex::Regex;
use std::collections::HashMap;
use wavelog_gate::adif::read_tag;
use wavelog_gate::qso::QSO;
use wavelog_gate::text::{chars_of, text_between};

/// The tag grammar, written as a pattern.
fn tag_pattern() -> Regex {
    Regex::new(r"(?i)<([a-z_]+)(?::(\d+)(?::([a-z]+))?)?>([^<]*)").unwrap()
}

/// A lenient pattern: it also takes a type without a length.
fn lenient_pattern() -> Regex {
    Regex::new(r"(?i)<([a-z_]+)(?::(\d+))?(?::([a-z]+))?>([^<]*)").unwrap()
}

fn tags_by_pattern(pattern: &Regex, input: &str) -> Vec<(String, String)> {
    pattern.captures_iter(input).map(|cap| (cap[1].to_string(), cap[4].to_string())).collect()
}

fn tags_by_scanner(input: &str) -> Vec<(String, String)> {
    let chars = chars_of(input);
    let mut tags = Vec::new();
    let mut at = 0;
    while at < chars.len() {
        match read_tag(&chars, at) {
            Some(span) => {
                tags.push((
                    text_between(&chars, span.name_start, span.name_end),
                    text_between(&chars, span.value_start, span.value_end),
                ));
                at = span.value_end;
            },
            None => at += 1,
        }
    }
    tags
}

fn records_by_pattern(pattern: &Regex, input: &str) -> Vec<Vec<String>> {
    let names = [
        "call", "gridsquare", "mode", "submode", "rst_sent", "rst_rcvd", "qso_date", "time_on",
        "qso_date_off", "time_off", "band", "freq", "freq_rx", "operator", "comment", "power",
        "my_gridsquare", "station_callsign",
    ];
    let mut records = Vec::new();
    let mut current: HashMap<String, String> = HashMap::new();
    for cap in pattern.captures_iter(input) {
        let field = cap[1].to_uppercase();
        let value = cap[4].trim().to_string();
        if field == "EOR" {
            records.push(
                names.iter().map(|n| current.get(*n).cloned().unwrap_or_default()).collect(),
            );
            current.clear();
        } else if field == "EOH" {
            current.clear();
        } else {
            current.insert(field.to_lowercase(), value);
        }
    }
    records
}

fn records_by_library(input: &str) -> Vec<Vec<String>> {
    QSO::from_adif(input)
        .into_iter()
        .map(|q| {
            vec![
                q.call, q.gridsquare, q.mode, q.submode, q.rst_sent, q.rst_rcvd, q.qso_date,
                q.time_on, q.qso_date_off, q.time_off, q.band, q.freq, q.freq_rx, q.operator,
                q.comment, q.power, q.my_gridsquare, q.station_callsign,
            ]
        })
        .collect()
}

struct Dice(u64);

impl Dice {
    fn roll(&mut self, sides: usize) -> usize {
        self.0 = self.0.wrapping_mul(6364136223846793005).wrapping_add(1442695040888963407);
        ((self.0 >> 33) as usize) % sides
    }
}

fn every_text(alphabet: &[char], longest: usize) -> Vec<String> {
    let mut all: Vec<String> = vec![String::new()];
    let mut last: Vec<String> = vec![String::new()];
    for _ in 0..longest {
        let mut longer = Vec::new();
        for text in &last {
            for c in alphabet {
                let mut next = text.clone();
                next.push(*c);
                longer.push(next);
            }
        }
        all.extend(longer.iter().cloned());
        last = longer;
    }
    all
}

#[test]
fn scanner_reads_the_tags_that_the_pattern_reads_in_every_short_text() {
    let pattern = tag_pattern();
    let alphabet =
        ['<', '>', ':', 'a', 'Z', '_', '7', ' ', '\u{e9}', '\u{17f}', '\u{212a}', '\u{664}'];
    let texts = every_text(&alphabet, 4);
    assert_eq!(texts.len(), 1 + 12 + 144 + 1728 + 20736);
    for text in &texts {
        assert_eq!(tags_by_scanner(text), tags_by_pattern(&pattern, text), "{:?}", text);
    }
}

#[test]
fn scanner_reads_the_tags_that_the_pattern_reads_in_every_text_of_tag_characters() {
    let pattern = tag_pattern();
    let texts = every_text(&['<', '>', ':', 'a', '7', '\u{664}'], 6);
    assert_eq!(texts.len(), 1 + 6 + 36 + 216 + 1296 + 7776 + 46656);
    let mut with_tags = 0;
    for text in &texts {
        let expected = tags_by_pattern(&pattern, text);
        if !expected.is_empty() {
            with_tags += 1;
        }
        assert_eq!(tags_by_scanner(text), expected, "{:?}", text);
    }
    assert!(with_tags > 1000, "{}", with_tags);
}

#[test]
fn scanner_reads_the_tags_that_the_pattern_reads_in_random_text() {
    let pattern = tag_pattern();
    let pieces = [
        "<", "<", "<", ">", ">", ":", ":", "call", "CALL", "Band", "eor", "EOR", "eoh", "x", "_",
        "0", "12", "4", " ", "\r\n", "\t", "W1AW", "20m", "\u{fc}", "\u{2764}", "\u{a0}", "S", "d",
        "<call", "<B_", ":4>", ":4:s>", "<x>", "<eor>", "\u{17f}", "\u{212a}", "\u{664}", ":\u{967}>",
    ];
    let mut dice = Dice(2333);
    let mut with_tags = 0;
    for _ in 0..20000 {
        let mut text = String::new();
        for _ in 0..dice.roll(24) {
            text.push_str(pieces[dice.roll(pieces.len())]);
        }
        let expected = tags_by_pattern(&pattern, &text);
        if !expected.is_empty() {
            with_tags += 1;
        }
        assert_eq!(tags_by_scanner(&text), expected, "{:?}", text);
    }
    assert!(with_tags > 5000, "{}", with_tags);
}

#[test]
fn library_decodes_what_the_pattern_decodes_in_random_streams() {
    let pattern = tag_pattern();
    let names = [
        "call", "CALL", "Call", "gridsquare", "mode", "SUBMODE", "rst_sent", "RST_RCVD",
        "qso_date", "TIME_ON", "qso_date_off", "time_off", "band", "BAND", "freq", "FREQ_RX",
        "operator", "comment", "power", "my_gridsquare", "STATION_CALLSIGN", "dxcc", "app_x",
        "eor", "EOR", "Eor", "eoh", "EOH", "eo", "eorr", "r\u{17f}t_sent", "\u{17f}UBMODE",
        "\u{212a}", "c\u{e4}ll",
    ];
    let qualifiers = [
        "", "", ":4", ":12", ":0", ":4:S", ":8:d", ":", ":x", ":4:", ":4:5", " ", ":\u{664}",
        ":1\u{ff15}:\u{212a}", ":\u{b2}",
    ];
    let values = [
        "", "W1AW", " K1ABC ", "20m", "\r\n", "7.074", "a b", "\t-10\n", "Gr\u{fc}\u{df}e",
        "\u{3000}x\u{a0}", ">", "x>y", "\u{2764}",
    ];
    let noise = ["", "", "", "<", "<<", "<ca", "<:", "text"];
    let mut dice = Dice(4096);
    let mut with_records = 0;
    for _ in 0..3000 {
        let mut text = String::new();
        for _ in 0..dice.roll(14) {
            text.push_str(noise[dice.roll(noise.len())]);
            text.push('<');
            text.push_str(names[dice.roll(names.len())]);
            text.push_str(qualifiers[dice.roll(qualifiers.len())]);
            text.push('>');
            text.push_str(values[dice.roll(values.len())]);
        }
        let expected = records_by_pattern(&pattern, &text);
        if !expected.is_empty() {
            with_records += 1;
        }
        assert_eq!(records_by_library(&text), expected, "{:?}", text);
    }
    assert!(with_records > 500, "{}", with_records);
}

#[test]
fn lenient_pattern_reads_the_same_records_from_plain_streams() {
    let pattern = lenient_pattern();
    let names = [
        "call", "CALL", "Call", "gridsquare", "mode", "SUBMODE", "rst_sent", "RST_RCVD",
        "qso_date", "TIME_ON", "qso_date_off", "time_off", "band", "BAND", "freq", "FREQ_RX",
        "operator", "comment", "power", "my_gridsquare", "STATION_CALLSIGN", "dxcc", "app_x",
        "eor", "EOR", "Eor", "eoh", "EOH", "eo", "eorr", "r\u{17f}t_sent", "\u{212a}",
    ];
    let qualifiers =
        ["", "", ":4", ":12", ":0", ":4:S", ":8:d", ":", ":4:", ":4:5", " ", ":\u{664}:\u{17f}"];
    let values = [
        "", "W1AW", " K1ABC ", "20m", "\r\n", "7.074", "a b", "\t-10\n", "Gr\u{fc}\u{df}e",
        "\u{3000}x\u{a0}", ">", "x>y", "\u{2764}", "\u{212a}\u{17f}\u{664}",
    ];
    let noise = ["", "", "", "<", "<<", "<ca", "<:", "text"];
    let mut dice = Dice(500);
    let mut with_records = 0;
    for _ in 0..3000 {
        let mut text = String::new();
        for _ in 0..dice.roll(14) {
            text.push_str(noise[dice.roll(noise.len())]);
            text.push('<');
            text.push_str(names[dice.roll(names.len())]);
            text.push_str(qualifiers[dice.roll(qualifiers.len())]);
            text.push('>');
            text.push_str(values[dice.roll(values.len())]);
        }
        let expected = records_by_pattern(&pattern, &text);
        if !expected.is_empty() {
            with_records += 1;
        }
        assert_eq!(records_by_library(&text), expected, "{:?}", text);
    }
    assert!(with_records > 500, "{}", with_records);
}

#[test]
fn lenient_pattern_reads_more_only_where_a_type_has_no_length() {
    let pattern = lenient_pattern();
    for text in ["<CALL:S>W1AW<EOR>", "<call:\u{212a}>W1AW<EOR>", "<BAND:abc>20m<EOR>"] {
        let lenient = records_by_pattern(&pattern, text);
        let strict = records_by_library(text);
        assert_eq!(lenient.len(), 1, "{:?}", text);
        assert_eq!(strict.len(), 1, "{:?}", text);
        assert!(lenient[0].iter().any(|v| !v.is_empty()), "{:?}", text);
        assert!(strict[0].iter().all(|v| v.is_empty()), "{:?}", text);
        assert_eq!(strict, records_by_pattern(&tag_pattern(), text), "{:?}", text);
    }
}
