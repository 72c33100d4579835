use wavelog_gate::gateway::{Command, Message, RustWavelogGateApp, MAX_LOG_LINES};
use wavelog_gate::qso::QSO;
use wavelog_gate::settings::{ServerSettings, Settings, WaveLogSettings};
use wavelog_gate::udp::UdpListenerError;
use wavelog_gate::wavelog::Status;

fn settings() -> Settings {
    Settings {
        wavelog: WaveLogSettings {
            url: "https://log.example.org".to_string(),
            key: "key".to_string(),
            station: "1".to_string(),
        },
        server: ServerSettings { host: "127.0.0.1".to_string(), port: 2333 },
    }
}

fn ready() -> RustWavelogGateApp {
    let (mut app, _) = RustWavelogGateApp::new();
    app.update(Message::SettingsLoaded(Ok(settings())));
    app
}

fn record(call: &str) -> QSO {
    let mut q = QSO::new();
    q.call = call.to_string();
    q
}

fn calls_to_send(commands: &[Command]) -> Vec<String> {
    commands
        .iter()
        .filter_map(|c| match c {
            Command::Send(q) => Some(q.call.clone()),
            _ => None,
        })
        .collect()
}

fn is_listen(command: &Command, host: &str, port: u16) -> bool {
    matches!(command, Command::Listen(h, p) if h == host && *p == port)
}

#[test]
fn gateway_begins_by_loading_settings() {
    let (app, commands) = RustWavelogGateApp::new();
    assert!(app.qso_records.is_empty());
    assert_eq!(app.status_message, "Loading...");
    assert_eq!(app.listen_info, "");
    assert!(app.settings.is_none());
    assert_eq!(commands.len(), 1);
    assert!(matches!(commands[0], Command::LoadSettings));
}

#[test]
fn default_gateway_is_starting() {
    let app = RustWavelogGateApp::default();
    assert!(app.qso_records.is_empty());
    assert_eq!(app.status_message, "Starting...");
    assert_eq!(app.listen_info, "");
    assert!(app.settings.is_none());
}

#[test]
fn loaded_settings_start_the_listening() {
    let (mut app, _) = RustWavelogGateApp::new();
    let commands = app.update(Message::SettingsLoaded(Ok(settings())));
    assert_eq!(app.listen_info, "Listen: 127.0.0.1:2333 | Wavelog: https://log.example.org");
    assert_eq!(app.status_message, "Ready");
    assert_eq!(app.settings.as_ref().unwrap().wavelog.key, "key");
    assert_eq!(commands.len(), 1);
    assert!(is_listen(&commands[0], "127.0.0.1", 2333));
}

#[test]
fn failed_settings_are_shown_and_nothing_is_started() {
    let (mut app, _) = RustWavelogGateApp::new();
    let commands = app.update(Message::SettingsLoaded(Err("file not found".to_string())));
    assert!(commands.is_empty());
    assert_eq!(app.status_message, "Config load failed: file not found");
    assert_eq!(app.listen_info, "");
    assert!(app.settings.is_none());
}

#[test]
fn datagram_before_settings_is_ignored() {
    let (mut app, _) = RustWavelogGateApp::new();
    let commands = app.update(Message::UdpMessage(b"<CALL:4>W1AW<EOR>".to_vec()));
    assert!(commands.is_empty());
    assert_eq!(app.status_message, "Loading...");
}

#[test]
fn valid_records_are_forwarded_and_listening_goes_on() {
    let mut app = ready();
    let data = b"<CALL:4>W1AW<QSO_DATE:8>20240101<TIME_ON:4>1200<BAND:3>20m<EOR>\
<CALL:5>K1ABC<QSO_DATE:8>20240101<TIME_ON:4>1201<EOR>\
<CALL:3>N0X<QSO_DATE:8>20240102<TIME_ON:4>1202<BAND:3>40m<MODE:2>CW<EOR>"
        .to_vec();
    let commands = app.update(Message::UdpMessage(data));
    assert_eq!(commands.len(), 3);
    assert_eq!(calls_to_send(&commands), vec!["W1AW".to_string(), "N0X".to_string()]);
    assert!(is_listen(&commands[2], "127.0.0.1", 2333));
    assert_eq!(app.status_message, "Ready");
    assert!(app.qso_records.is_empty());
}

#[test]
fn record_missing_a_mandatory_field_is_not_forwarded() {
    let app = ready();
    let s = settings();
    let inputs = [
        "<QSO_DATE:8>20240101<TIME_ON:4>1200<BAND:3>20m<EOR>",
        "<CALL:4>W1AW<TIME_ON:4>1200<BAND:3>20m<EOR>",
        "<CALL:4>W1AW<QSO_DATE:8>20240101<BAND:3>20m<EOR>",
        "<CALL:4>W1AW<QSO_DATE:8>20240101<TIME_ON:4>1200<EOR>",
        "<CALL:4>W1AW<QSO_DATE:8>20240101<TIME_ON:4>1200<BAND:3>   <EOR>",
    ];
    for input in inputs {
        let commands = app.process_qso_data(input.as_bytes(), &s);
        assert_eq!(commands.len(), 1, "{}", input);
        assert!(is_listen(&commands[0], "127.0.0.1", 2333));
    }
}

#[test]
fn datagram_that_is_no_text_is_dropped_and_listening_goes_on() {
    let mut app = ready();
    let mut data = b"<CALL:4>W1AW<QSO_DATE:8>20240101<TIME_ON:4>1200<BAND:3>20m<EOR>".to_vec();
    data.push(0xff);
    let commands = app.update(Message::UdpMessage(data));
    assert_eq!(commands.len(), 1);
    assert!(is_listen(&commands[0], "127.0.0.1", 2333));
    let commands = app.update(Message::UdpMessage(vec![0xc3]));
    assert_eq!(commands.len(), 1);
    let commands = app.update(Message::UdpMessage(vec![0xed, 0xa0, 0x80]));
    assert_eq!(commands.len(), 1);
}

#[test]
fn text_of_a_datagram_is_read_as_utf8() {
    let app = ready();
    let data = "<CALL:4>W1AW<QSO_DATE:8>20240101<TIME_ON:4>1200<BAND:3>20m\
<COMMENT:5>Gr\u{fc}\u{df}e<EOR>";
    let commands = app.process_qso_data(data.as_bytes(), &settings());
    assert_eq!(commands.len(), 2);
    match &commands[0] {
        Command::Send(q) => assert_eq!(q.comment, "Gr\u{fc}\u{df}e"),
        other => panic!("{:?}", other),
    }
}

#[test]
fn empty_datagram_only_restarts_the_listener() {
    let app = ready();
    let commands = app.process_qso_data(&[], &settings());
    assert_eq!(commands.len(), 1);
    assert!(is_listen(&commands[0], "127.0.0.1", 2333));
}

#[test]
fn listener_is_restarted_where_the_settings_say() {
    let app = ready();
    let mut s = settings();
    s.server = ServerSettings { host: "::".to_string(), port: 12060 };
    assert!(is_listen(&app.restart_udp_listener(&s), "::", 12060));
    let commands = app.process_qso_data(b"", &s);
    assert!(is_listen(&commands[0], "::", 12060));
}

#[test]
fn processed_record_is_kept_newest_first() {
    let mut app = ready();
    let done = Status::Success("{\"status\":\"created\"}".to_string());
    assert!(app.update(Message::QSOReceived(record("W1AW"), done)).is_empty());
    assert_eq!(app.status_message, "QSO processed");
    let failed = Status::Failure("Wrong URL".to_string());
    assert!(app.update(Message::QSOReceived(record("K1ABC"), failed)).is_empty());
    assert_eq!(app.qso_records.len(), 2);
    assert_eq!(app.qso_records[0].0.call, "K1ABC");
    assert!(matches!(&app.qso_records[0].1, Status::Failure(why) if why == "Wrong URL"));
    assert_eq!(app.qso_records[1].0.call, "W1AW");
    assert!(
        matches!(&app.qso_records[1].1, Status::Success(body) if body == "{\"status\":\"created\"}")
    );
    assert_eq!(app.listen_info, "Listen: 127.0.0.1:2333 | Wavelog: https://log.example.org");
}

#[test]
fn processed_record_without_call_sign_is_dropped() {
    let mut app = ready();
    assert!(app.update(Message::QSOReceived(record(""), Status::Success(String::new()))).is_empty());
    assert!(app.qso_records.is_empty());
    assert_eq!(app.status_message, "Ready");
}

#[test]
fn no_more_than_500_records_are_kept() {
    assert_eq!(MAX_LOG_LINES, 500);
    let mut app = ready();
    for i in 0..MAX_LOG_LINES {
        app.add_qso_record(record(&format!("C{}", i)), Status::Success("ok".to_string()));
    }
    assert_eq!(app.qso_records.len(), 500);
    assert_eq!(app.qso_records[0].0.call, "C499");
    assert_eq!(app.qso_records[499].0.call, "C0");
    app.add_qso_record(record("NEW"), Status::Failure("refused".to_string()));
    assert_eq!(app.qso_records.len(), 500);
    assert_eq!(app.qso_records[0].0.call, "NEW");
    assert!(matches!(&app.qso_records[0].1, Status::Failure(why) if why == "refused"));
    assert_eq!(app.qso_records[1].0.call, "C499");
    assert_eq!(app.qso_records[499].0.call, "C1");
    app.update(Message::QSOReceived(record("NEWER"), Status::Success(String::new())));
    assert_eq!(app.qso_records.len(), 500);
    assert_eq!(app.qso_records[0].0.call, "NEWER");
    assert_eq!(app.qso_records[499].0.call, "C2");
}

#[test]
fn status_is_displayed_as_ok_or_error() {
    let display = RustWavelogGateApp::get_status_display;
    assert_eq!(display(&Status::Success("done".to_string())), "OK");
    assert_eq!(display(&Status::Success(String::new())), "OK");
    assert_eq!(display(&Status::Success("Error".to_string())), "OK");
    assert_eq!(display(&Status::Failure("OK".to_string())), "Error");
    assert_eq!(display(&Status::Failure("Wrong URL".to_string())), "Error");
    assert_eq!(display(&Status::Failure(String::new())), "Error");
}

#[test]
fn validity_needs_call_date_time_and_band() {
    let app = ready();
    let mut q = record("W1AW");
    assert!(!app.is_valid_qso(&q));
    q.qso_date = "20240101".to_string();
    assert!(!app.is_valid_qso(&q));
    q.time_on = "1200".to_string();
    assert!(!app.is_valid_qso(&q));
    q.band = "20m".to_string();
    assert!(app.is_valid_qso(&q));
    q.call = String::new();
    assert!(!app.is_valid_qso(&q));
}

#[test]
fn failure_to_listen_is_shown_and_ends_the_listening() {
    let mut app = ready();
    let error = UdpListenerError::BindError("127.0.0.1:2333".to_string(), "in use".to_string());
    let commands = app.update(Message::ListenFailed(error));
    assert!(commands.is_empty());
    assert_eq!(app.status_message, "Failed to bind to address 127.0.0.1:2333: in use");
    assert_eq!(app.listen_info, "Listen: 127.0.0.1:2333 | Wavelog: https://log.example.org");
    assert!(app.settings.is_some());
}

#[test]
fn many_forwards_never_hold_back_the_next_listen() {
    let app = ready();
    let mut data = String::new();
    for i in 0..200 {
        data.push_str(&format!(
            "<CALL:{}>N{}<QSO_DATE:8>20240101<TIME_ON:4>1200<BAND:3>20m<EOR>\r\n",
            1 + i.to_string().len(),
            i
        ));
    }
    let commands = app.process_qso_data(data.as_bytes(), &settings());
    assert_eq!(commands.len(), 201);
    assert_eq!(calls_to_send(&commands).len(), 200);
    assert_eq!(calls_to_send(&commands)[199], "N199");
    assert!(is_listen(&commands[200], "127.0.0.1", 2333));
}
