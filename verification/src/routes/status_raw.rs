//! The status of the server as data.
use crate::app_state::StreamFlags;
use crate::log_buffer::LogBuffer;
use crate::net::IpAddr;
use vstd::prelude::*;

verus! {

/// The status of the server: the addresses as texts, the log oldest line first.
#[derive(Debug)]
pub struct StatusReport {
    pub whitelist: Vec<String>,
    pub connected_clients: Vec<String>,
    pub ffmpeg_running: bool,
    pub pw_running: bool,
    pub logs: Vec<String>,
}

/// What a status report holds.
pub struct ReportView {
    pub whitelist: Seq<Seq<char>>,
    pub connected_clients: Seq<Seq<char>>,
    pub ffmpeg_running: bool,
    pub pw_running: bool,
    pub logs: Seq<Seq<char>>,
}

impl View for StatusReport {
    type V = ReportView;

    open spec fn view(&self) -> ReportView {
        ReportView {
            whitelist: crate::text::texts(self.whitelist@),
            connected_clients: crate::text::texts(self.connected_clients@),
            ffmpeg_running: self.ffmpeg_running,
            pw_running: self.pw_running,
            logs: crate::text::texts(self.logs@),
        }
    }
}

/// The report of the given state.
pub open spec fn report_of(
    whitelist: Seq<Seq<char>>,
    connected_clients: Seq<Seq<char>>,
    flags: StreamFlags,
    logs: Seq<Seq<char>>,
) -> ReportView {
    ReportView {
        whitelist,
        connected_clients,
        ffmpeg_running: flags.ffmpeg_running,
        pw_running: flags.pw_running,
        logs,
    }
}

/// The answer to a request for the status as data.
#[derive(Debug)]
pub enum RawStatus {
    /// The status 403.
    Forbidden,
    /// This report.
    Report(StatusReport),
}

/// Reports the status to this machine. `whitelist` and `connected_clients` are the
/// addresses as texts.
pub fn status_raw_handler(
    addr: IpAddr,
    whitelist: Vec<String>,
    connected_clients: Vec<String>,
    flags: StreamFlags,
    log: &LogBuffer,
) -> (status: RawStatus)
    ensures
        match status {
            RawStatus::Forbidden => !addr.loopback(),
            RawStatus::Report(report) => addr.loopback() && report@ == report_of(
                crate::text::texts(whitelist@),
                crate::text::texts(connected_clients@),
                flags,
                log@,
            ),
        },
        status matches RawStatus::Report(report) ==> {
            &&& report.whitelist == whitelist
            &&& report.connected_clients == connected_clients
            &&& report.ffmpeg_running == flags.ffmpeg_running
            &&& report.pw_running == flags.pw_running
            &&& crate::text::texts(report.logs@) == log@
        },
{
    if !addr.is_loopback() {
        return RawStatus::Forbidden;
    }
    RawStatus::Report(
        StatusReport {
            whitelist,
            connected_clients,
            ffmpeg_running: flags.ffmpeg_running,
            pw_running: flags.pw_running,
            logs: log.lines(),
        },
    )
}

/// The value of a field of the report.
#[derive(Debug)]
pub enum FieldValue {
    Texts(Vec<String>),
    Flag(bool),
}

/// What the value of a field holds.
pub enum FieldValueView {
    Texts(Seq<Seq<char>>),
    Flag(bool),
}

/// A field of the report: its name and its value.
#[derive(Debug)]
pub struct ReportField {
    pub name: &'static str,
    pub value: FieldValue,
}

impl View for ReportField {
    type V = (Seq<char>, FieldValueView);

    open spec fn view(&self) -> (Seq<char>, FieldValueView) {
        (
            self.name@,
            match self.value {
                FieldValue::Texts(v) => FieldValueView::Texts(crate::text::texts(v@)),
                FieldValue::Flag(b) => FieldValueView::Flag(b),
            },
        )
    }
}

/// The fields under which a report is sent.
pub open spec fn named_fields(report: ReportView) -> Seq<(Seq<char>, FieldValueView)> {
    seq![
        ("whitelist"@, FieldValueView::Texts(report.whitelist)),
        ("connected_clients"@, FieldValueView::Texts(report.connected_clients)),
        ("ffmpeg_running"@, FieldValueView::Flag(report.ffmpeg_running)),
        ("pw_running"@, FieldValueView::Flag(report.pw_running)),
        ("logs"@, FieldValueView::Texts(report.logs)),
    ]
}

/// The fields under which a report is sent.
pub fn report_fields(report: StatusReport) -> (fields: Vec<ReportField>)
    ensures
        fields@.map_values(|f: ReportField| f@) == named_fields(report@),
        fields@.len() == 5,
        fields@[0].name@ == "whitelist"@ && fields@[0].value == FieldValue::Texts(report.whitelist),
        fields@[1].name@ == "connected_clients"@ && fields@[1].value == FieldValue::Texts(
            report.connected_clients,
        ),
        fields@[2].name@ == "ffmpeg_running"@ && fields@[2].value == FieldValue::Flag(
            report.ffmpeg_running,
        ),
        fields@[3].name@ == "pw_running"@ && fields@[3].value == FieldValue::Flag(
            report.pw_running,
        ),
        fields@[4].name@ == "logs"@ && fields@[4].value == FieldValue::Texts(report.logs),
{
    let fields: Vec<ReportField> = vec![
        ReportField { name: "whitelist", value: FieldValue::Texts(report.whitelist) },
        ReportField {
            name: "connected_clients",
            value: FieldValue::Texts(report.connected_clients),
        },
        ReportField { name: "ffmpeg_running", value: FieldValue::Flag(report.ffmpeg_running) },
        ReportField { name: "pw_running", value: FieldValue::Flag(report.pw_running) },
        ReportField { name: "logs", value: FieldValue::Texts(report.logs) },
    ];
    proof {
        assert(fields@.map_values(|f: ReportField| f@) =~= named_fields(report@));
    }
    fields
}

} // verus!
