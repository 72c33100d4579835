//! The gateway itself: what it keeps, the messages it reacts to, and the
//! commands it answers with. The caller loads the settings, listens and
//! forwards; the gateway decides.
//!
//! The gateway asks for the settings, then for a datagram. For every
//! datagram it asks for each valid record to be forwarded and, without
//! waiting for any of them, for the next datagram. Only a failure to bind
//! ends the listening.

use crate::qso::{decode, is_valid, QsoView, QSO};
use crate::settings::Settings;
use crate::text::{decimal, push_decimal};
use crate::udp::{bind_error_text, UdpListenerError};
use crate::wavelog::{status_display, Status};
use vstd::prelude::*;
use vstd::string::*;
use vstd::utf8::{decode_utf8, encode_utf8, valid_utf8};

verus! {

/// The number of processed records that are kept for display.
pub const MAX_LOG_LINES: usize = 500;

/// What the gateway keeps between messages.
#[derive(Debug)]
pub struct RustWavelogGateApp {
    /// The records processed last with their status, newest first.
    pub qso_records: Vec<(QSO, Status)>,
    /// What the gateway did last.
    pub status_message: String,
    /// Where the gateway listens and forwards to; empty until known.
    pub listen_info: String,
    /// The settings, once loaded.
    pub settings: Option<Settings>,
}

/// What the gateway reacts to.
#[derive(Debug)]
pub enum Message {
    /// The settings were loaded, or could not be.
    SettingsLoaded(Result<Settings, String>),
    /// A record was forwarded, or could not be: the record and its status.
    QSOReceived(QSO, Status),
    /// A datagram arrived.
    UdpMessage(Vec<u8>),
    /// Listening failed.
    ListenFailed(UdpListenerError),
}

/// What the gateway asks its caller to do.
#[derive(Debug)]
pub enum Command {
    /// Load the settings, and report them with [`Message::SettingsLoaded`].
    LoadSettings,
    /// Wait for one datagram at this host and port, and report it with
    /// [`Message::UdpMessage`], or the failure with [`Message::ListenFailed`].
    Listen(String, u16),
    /// Forward this record, and report it and its status with
    /// [`Message::QSOReceived`].
    Send(QSO),
}

/// The mathematical value of a [`Command`].
pub enum CommandView {
    LoadSettings,
    Listen(Seq<char>, u16),
    Send(QsoView),
}

impl View for Command {
    type V = CommandView;

    open spec fn view(&self) -> CommandView {
        match *self {
            Command::LoadSettings => CommandView::LoadSettings,
            Command::Listen(host, port) => CommandView::Listen(host@, port),
            Command::Send(qso) => CommandView::Send(qso@),
        }
    }
}

/// `core::str::Utf8Error`, of which nothing is used but that it says the
/// bytes are no text.
#[verifier::external_type_specification]
#[verifier::external_body]
pub struct ExUtf8Error(core::str::Utf8Error);

/// `core::str::from_utf8` of the standard library: it accepts exactly the
/// byte sequences that are valid UTF-8, and the string slice it returns is
/// made of the bytes given. Assumed, not proved.
pub assume_specification[ core::str::from_utf8 ](v: &[u8]) -> (r: Result<
    &str,
    core::str::Utf8Error,
>)
    ensures
        r is Ok <==> valid_utf8(v@),
        r matches Ok(s) ==> encode_utf8(s@) == v@,
;

/// The values of a sequence of commands.
pub open spec fn command_views(commands: Seq<Command>) -> Seq<CommandView> {
    commands.map_values(|c: Command| c@)
}

/// The records of a datagram that are forwarded: none where the bytes are
/// no UTF-8 text, else the valid ones among the records that the text
/// holds, in order.
pub open spec fn forwarded_records(data: Seq<u8>) -> Seq<QsoView> {
    if valid_utf8(data) {
        valid_records(decode(decode_utf8(data)))
    } else {
        Seq::empty()
    }
}

/// The valid ones among some records, in order.
pub open spec fn valid_records(records: Seq<QsoView>) -> Seq<QsoView> {
    records.filter(|r: QsoView| is_valid(r))
}

/// The commands to forward some records, in order.
pub open spec fn send_commands(records: Seq<QsoView>) -> Seq<CommandView> {
    records.map_values(|r: QsoView| CommandView::Send(r))
}

/// The commands that answer a datagram: one to forward each record that is
/// forwarded, then one to listen again.
pub open spec fn datagram_commands(data: Seq<u8>, host: Seq<char>, port: u16) -> Seq<
    CommandView,
> {
    send_commands(forwarded_records(data)).push(CommandView::Listen(host, port))
}

/// The line that says where the gateway listens and forwards to.
pub open spec fn listen_info_text(host: Seq<char>, port: u16, url: Seq<char>) -> Seq<char> {
    "Listen: "@ + host + ":"@ + decimal(port as nat) + " | Wavelog: "@ + url
}

/// The kept records after one more was processed: the new one first, and
/// the oldest dropped where there would be more than [`MAX_LOG_LINES`].
pub open spec fn with_record(kept: Seq<(QSO, Status)>, qso: QSO, status: Status) -> Seq<
    (QSO, Status),
> {
    let all = seq![(qso, status)] + kept;
    if all.len() > MAX_LOG_LINES {
        all.drop_last()
    } else {
        all
    }
}

impl RustWavelogGateApp {
    /// How the gateway reacts to loaded settings: it shows where it listens
    /// and asks for the first datagram. Where loading failed it shows why,
    /// and asks for nothing.
    pub open spec fn settings_loaded(
        before: Self,
        after: Self,
        result: Result<Settings, String>,
        commands: Seq<Command>,
    ) -> bool {
        &&& after.qso_records == before.qso_records
        &&& match result {
            Ok(settings) => {
                &&& after.listen_info@ == listen_info_text(
                    settings.server.host@,
                    settings.server.port,
                    settings.wavelog.url@,
                )
                &&& after.status_message@ == "Ready"@
                &&& after.settings == Some(settings)
                &&& command_views(commands) == seq![
                    CommandView::Listen(settings.server.host@, settings.server.port),
                ]
            },
            Err(why) => {
                &&& after.listen_info@ == Seq::<char>::empty()
                &&& after.status_message@ == "Config load failed: "@ + why@
                &&& after.settings == before.settings
                &&& commands.len() == 0
            },
        }
    }

    /// How the gateway reacts to a datagram: its state is unchanged; with
    /// settings it answers with the datagram's commands, without settings
    /// with none.
    pub open spec fn datagram_received(
        before: Self,
        after: Self,
        data: Seq<u8>,
        commands: Seq<Command>,
    ) -> bool {
        &&& after == before
        &&& match before.settings {
            Some(settings) => command_views(commands) == datagram_commands(
                data,
                settings.server.host@,
                settings.server.port,
            ),
            None => commands.len() == 0,
        }
    }

    /// How the gateway reacts to a processed record: a record with a call
    /// sign is kept with its status; one without is dropped.
    pub open spec fn record_processed(
        before: Self,
        after: Self,
        qso: QSO,
        status: Status,
        commands: Seq<Command>,
    ) -> bool {
        &&& commands.len() == 0
        &&& after.listen_info == before.listen_info
        &&& after.settings == before.settings
        &&& if qso.call@.len() > 0 {
            &&& after.qso_records@ == with_record(before.qso_records@, qso, status)
            &&& after.status_message@ == "QSO processed"@
        } else {
            &&& after.qso_records == before.qso_records
            &&& after.status_message == before.status_message
        }
    }

    /// How the gateway reacts to a failure to listen: it shows the error
    /// and does not ask to listen again.
    pub open spec fn listen_failed(
        before: Self,
        after: Self,
        error: UdpListenerError,
        commands: Seq<Command>,
    ) -> bool {
        &&& commands.len() == 0
        &&& after.qso_records == before.qso_records
        &&& after.listen_info == before.listen_info
        &&& after.settings == before.settings
        &&& match error {
            UdpListenerError::BindError(address, cause) => after.status_message@
                == bind_error_text(address@, cause@),
        }
    }

    /// A gateway that has not begun, and the command that begins: to load
    /// the settings.
    pub fn new() -> (start: (Self, Vec<Command>))
        ensures
            start.0.qso_records@.len() == 0,
            start.0.status_message@ == "Loading..."@,
            start.0.listen_info@.len() == 0,
            start.0.settings is None,
            command_views(start.1@) == seq![CommandView::LoadSettings],
    {
        let app = Self {
            qso_records: Vec::new(),
            status_message: String::from_str("Loading..."),
            listen_info: String::new(),
            settings: None,
        };
        let mut commands: Vec<Command> = Vec::new();
        commands.push(Command::LoadSettings);
        assert(command_views(commands@) =~= seq![CommandView::LoadSettings]);
        (app, commands)
    }

    /// Keeps a processed record, newest first, and drops the oldest where
    /// more than [`MAX_LOG_LINES`] would be kept.
    pub fn add_qso_record(&mut self, qso: QSO, status: Status)
        ensures
            final(self).qso_records@ == with_record(old(self).qso_records@, qso, status),
            old(self).qso_records@.len() <= MAX_LOG_LINES ==> final(self).qso_records@.len()
                <= MAX_LOG_LINES,
            final(self).status_message == old(self).status_message,
            final(self).listen_info == old(self).listen_info,
            final(self).settings == old(self).settings,
    {
        self.qso_records.insert(0, (qso, status));
        assert(self.qso_records@ =~= seq![(qso, status)] + old(self).qso_records@);
        if self.qso_records.len() > MAX_LOG_LINES {
            self.qso_records.pop();
        }
    }

    /// What is displayed for a status: `OK` for a success, `Error` for a
    /// failure.
    pub fn get_status_display(status: &Status) -> (display: &'static str)
        ensures
            display@ == status_display(status@),
    {
        status.display()
    }

    /// Whether a record has the four fields without which it is not
    /// forwarded: call sign, start date, start time and band.
    pub fn is_valid_qso(&self, qso: &QSO) -> (valid: bool)
        ensures
            valid == is_valid(qso@),
    {
        qso.is_valid()
    }

    /// The command to wait for the next datagram.
    pub fn restart_udp_listener(&self, settings: &Settings) -> (command: Command)
        ensures
            command@ == CommandView::Listen(settings.server.host@, settings.server.port),
    {
        Command::Listen(settings.server.host.clone(), settings.server.port)
    }

    /// Answers a datagram: bytes that are no UTF-8 text are dropped; of the
    /// records that the text holds, each valid one is to be forwarded; and in
    /// every case the gateway is to listen again.
    pub fn process_qso_data(&self, data: &[u8], settings: &Settings) -> (commands: Vec<Command>)
        ensures
            command_views(commands@) == datagram_commands(
                data@,
                settings.server.host@,
                settings.server.port,
            ),
    {
        broadcast use vstd::utf8::encode_utf8_decode_utf8;

        let mut commands: Vec<Command> = Vec::new();
        match core::str::from_utf8(data) {
            Err(_) => {
                assert(send_commands(forwarded_records(data@)) =~= command_views(commands@));
            },
            Ok(adif) => {
                assert(adif@ == decode_utf8(data@));
                let qsos = QSO::from_adif(adif);
                let ghost records = decode(adif@);
                assert(valid_records(records.take(0)) =~= Seq::<QsoView>::empty()) by {
                    reveal(Seq::filter);
                }
                for qso in it: qsos
                    invariant
                        it.seq().map_values(|q: QSO| q@) == records,
                        command_views(commands@) == send_commands(
                            valid_records(records.take(it.index())),
                        ),
                {
                    let ghost i = it.index();
                    let ghost done = commands@;
                    assert(qso@ == records[i]);
                    proof {
                        lemma_valid_records_step(records, i);
                    }
                    if self.is_valid_qso(&qso) {
                        commands.push(Command::Send(qso));
                        assert(command_views(commands@) == command_views(done).push(
                            CommandView::Send(qso@),
                        ));
                        assert(send_commands(valid_records(records.take(i)).push(records[i]))
                            == send_commands(valid_records(records.take(i))).push(
                            CommandView::Send(records[i]),
                        ));
                    }
                }
                assert(records.take(records.len() as int) == records);
            },
        }
        let ghost sends = commands@;
        let listen = self.restart_udp_listener(settings);
        commands.push(listen);
        assert(command_views(commands@) == command_views(sends).push(listen@));
        commands
    }

    /// Reacts to a message and says what to do next.
    pub fn update(&mut self, message: Message) -> (commands: Vec<Command>)
        ensures
            match message {
                Message::SettingsLoaded(result) => Self::settings_loaded(
                    *old(self),
                    *final(self),
                    result,
                    commands@,
                ),
                Message::UdpMessage(data) => Self::datagram_received(
                    *old(self),
                    *final(self),
                    data@,
                    commands@,
                ),
                Message::QSOReceived(qso, status) => Self::record_processed(
                    *old(self),
                    *final(self),
                    qso,
                    status,
                    commands@,
                ),
                Message::ListenFailed(error) => Self::listen_failed(
                    *old(self),
                    *final(self),
                    error,
                    commands@,
                ),
            },
    {
        match message {
            Message::SettingsLoaded(result) => self.handle_settings_loaded(result),
            Message::UdpMessage(data) => self.handle_udp_message(data),
            Message::QSOReceived(qso, status) => self.handle_qso_received(qso, status),
            Message::ListenFailed(error) => self.handle_listen_failed(error),
        }
    }

    /// Reacts to the settings, or to the failure to load them.
    pub fn handle_settings_loaded(&mut self, result: Result<Settings, String>) -> (commands: Vec<
        Command,
    >)
        ensures
            Self::settings_loaded(*old(self), *final(self), result, commands@),
    {
        let mut commands: Vec<Command> = Vec::new();
        match result {
            Ok(settings) => {
                let mut info = String::from_str("Listen: ");
                info.append(settings.server.host.as_str());
                info.append(":");
                push_decimal(&mut info, settings.server.port as usize);
                info.append(" | Wavelog: ");
                info.append(settings.wavelog.url.as_str());
                self.listen_info = info;
                self.status_message = String::from_str("Ready");
                let listen = self.restart_udp_listener(&settings);
                commands.push(listen);
                assert(command_views(commands@) =~= seq![listen@]);
                self.settings = Some(settings);
            },
            Err(why) => {
                let mut status = String::from_str("Config load failed: ");
                status.append(why.as_str());
                self.status_message = status;
                self.listen_info = String::new();
            },
        }
        commands
    }

    /// Reacts to a datagram.
    pub fn handle_udp_message(&mut self, data: Vec<u8>) -> (commands: Vec<Command>)
        ensures
            Self::datagram_received(*old(self), *final(self), data@, commands@),
    {
        match &self.settings {
            Some(settings) => self.process_qso_data(data.as_slice(), settings),
            None => Vec::new(),
        }
    }

    /// Reacts to a record that was processed.
    pub fn handle_qso_received(&mut self, qso: QSO, status: Status) -> (commands: Vec<Command>)
        ensures
            Self::record_processed(*old(self), *final(self), qso, status, commands@),
    {
        if !qso.call.as_str().is_empty() {
            self.add_qso_record(qso, status);
            self.status_message = String::from_str("QSO processed");
        }
        Vec::new()
    }

    /// Reacts to a failure to listen.
    pub fn handle_listen_failed(&mut self, error: UdpListenerError) -> (commands: Vec<Command>)
        ensures
            Self::listen_failed(*old(self), *final(self), error, commands@),
    {
        self.status_message = error.message();
        Vec::new()
    }
}

impl Default for RustWavelogGateApp {
    fn default() -> (app: Self)
        ensures
            app.qso_records@.len() == 0,
            app.status_message@ == "Starting..."@,
            app.listen_info@.len() == 0,
            app.settings is None,
    {
        Self {
            qso_records: Vec::new(),
            status_message: String::from_str("Starting..."),
            listen_info: String::new(),
            settings: None,
        }
    }
}

/// The valid records among the first `i + 1` are those among the first `i`,
/// and record `i` where it is valid.
proof fn lemma_valid_records_step(records: Seq<QsoView>, i: int)
    requires
        0 <= i < records.len(),
    ensures
        valid_records(records.take(i + 1)) == (if is_valid(records[i]) {
            valid_records(records.take(i)).push(records[i])
        } else {
            valid_records(records.take(i))
        }),
{
    reveal(Seq::filter);
    assert(records.take(i + 1).drop_last() =~= records.take(i));
}

/// A datagram is answered with one command to forward each record that is
/// forwarded, in order, and then with exactly one command to listen:
/// listening goes on whatever the datagram held, and no forward comes
/// after it.
pub proof fn theorem_one_listen_per_datagram(data: Seq<u8>, host: Seq<char>, port: u16)
    ensures
        datagram_commands(data, host, port).len() == forwarded_records(data).len() + 1,
        datagram_commands(data, host, port).last() == CommandView::Listen(host, port),
        forall|i: int|
            0 <= i < forwarded_records(data).len() ==> #[trigger] datagram_commands(
                data,
                host,
                port,
            )[i] == CommandView::Send(forwarded_records(data)[i]),
{
}

/// Every record that is forwarded has a call sign, a start date, a start
/// time and a band: a record that lacks one of them is not forwarded.
pub proof fn theorem_forwarded_records_are_valid(data: Seq<u8>, i: int)
    requires
        0 <= i < forwarded_records(data).len(),
    ensures
        forwarded_records(data)[i].call.len() > 0,
        forwarded_records(data)[i].qso_date.len() > 0,
        forwarded_records(data)[i].time_on.len() > 0,
        forwarded_records(data)[i].band.len() > 0,
{
    let decoded = decode(decode_utf8(data));
    decoded.lemma_filter_pred(|r: QsoView| is_valid(r), i);
}

/// Every record of a datagram that is valid is forwarded.
pub proof fn theorem_valid_records_are_forwarded(data: Seq<u8>, i: int)
    requires
        valid_utf8(data),
        0 <= i < decode(decode_utf8(data)).len(),
        is_valid(decode(decode_utf8(data))[i]),
    ensures
        forwarded_records(data).contains(decode(decode_utf8(data))[i]),
{
    let decoded = decode(decode_utf8(data));
    decoded.lemma_filter_contains(|r: QsoView| is_valid(r), i);
}

} // verus!
