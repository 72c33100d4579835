use wavelog_gate::settings::{
    default_host, default_port, ServerSettings, Settings, WaveLogSettings,
};

#[test]
fn defaults_are_every_address_and_2333() {
    assert_eq!(default_host(), "0.0.0.0");
    assert_eq!(default_port(), 2333);
}

#[test]
fn server_settings_fill_in_what_is_left_out() {
    let s = ServerSettings::new(None, None);
    assert_eq!((s.host.as_str(), s.port), ("0.0.0.0", 2333));
    let s = ServerSettings::new(Some("127.0.0.1".to_string()), None);
    assert_eq!((s.host.as_str(), s.port), ("127.0.0.1", 2333));
    let s = ServerSettings::new(None, Some(12060));
    assert_eq!((s.host.as_str(), s.port), ("0.0.0.0", 12060));
    let s = ServerSettings::new(Some(String::new()), Some(0));
    assert_eq!((s.host.as_str(), s.port), ("", 0));
}

#[test]
fn settings_clone_keeps_every_value() {
    let s = Settings {
        wavelog: WaveLogSettings {
            url: "https://log.example.org".to_string(),
            key: "k".to_string(),
            station: "1".to_string(),
        },
        server: ServerSettings { host: "h".to_string(), port: 7 },
    };
    let c = s.clone();
    assert_eq!(c.wavelog.url, s.wavelog.url);
    assert_eq!(c.wavelog.key, s.wavelog.key);
    assert_eq!(c.wavelog.station, s.wavelog.station);
    assert_eq!(c.server.host, s.server.host);
    assert_eq!(c.server.port, s.server.port);
}
