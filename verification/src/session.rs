//! The vocabulary of a download: what is asked for, how far it has come, what is to be
//! done outside this crate, and what came of that.
use vstd::prelude::*;

use crate::config::{AliasList, McAlias, McAliasView, McConfig};
use crate::error::{GetError, GetErrorView};
use crate::path::{opt_path, FilePath};
use crate::record::{
    opt_length, same_option, AuditCompleteRecord, AuditCompleteRecordView, AuditStartRecord,
    AuditStartRecordView, DownloadRecord, DownloadRecordView, ErrorRecord, ErrorRecordView, RunId,
    Timestamp,
};
use crate::system::System;
use crate::text::opt_text;

verus! {

/// What the user asks for.
pub struct Request {
    /// Where the object is: `alias/bucket/key`.
    pub source: String,
    /// Where it goes.
    pub destination: Option<FilePath>,
    /// The configuration file, where it is not the usual one.
    pub config: Option<FilePath>,
    /// The region, where it is not the usual one.
    pub region: Option<String>,
    /// A CA bundle to trust besides the system's roots.
    pub ca_bundle: Option<FilePath>,
    /// Write the object to standard output.
    pub stdout: bool,
    /// Replace the destination where it exists.
    pub overwrite: bool,
    /// Tell more in errors.
    pub verbose: bool,
    /// The identifier of this run.
    pub run_id: RunId,
    /// How the system writes paths.
    pub system: System,
}

/// The model of [`Request`].
pub struct RequestView {
    pub source: Seq<char>,
    pub destination: Option<Seq<u8>>,
    pub config: Option<Seq<u8>>,
    pub region: Option<Seq<char>>,
    pub ca_bundle: Option<Seq<u8>>,
    pub stdout: bool,
    pub overwrite: bool,
    pub verbose: bool,
    pub run_id: Seq<char>,
    pub system: System,
}

impl View for Request {
    type V = RequestView;

    open spec fn view(&self) -> RequestView {
        RequestView {
            source: self.source@,
            destination: opt_path(self.destination),
            config: opt_path(self.config),
            region: opt_text(self.region),
            ca_bundle: opt_path(self.ca_bundle),
            stdout: self.stdout,
            overwrite: self.overwrite,
            verbose: self.verbose,
            run_id: self.run_id@,
            system: self.system,
        }
    }
}

/// The object that a source names, with the store that holds it.
pub struct Target<S> {
    pub alias_name: String,
    pub alias: McAlias<S>,
    pub bucket: String,
    pub key: String,
}

/// The model of [`Target`].
pub struct TargetView<S> {
    pub alias_name: Seq<char>,
    pub alias: McAliasView<S>,
    pub bucket: Seq<char>,
    pub key: Seq<char>,
}

impl<S> View for Target<S> {
    type V = TargetView<S>;

    open spec fn view(&self) -> TargetView<S> {
        TargetView {
            alias_name: self.alias_name@,
            alias: self.alias@,
            bucket: self.bucket@,
            key: self.key@,
        }
    }
}

/// A download whose parts are all known.
pub struct Plan<S> {
    pub target: Target<S>,
    pub path_style: bool,
    pub region: String,
    /// The local path.
    pub destination: FilePath,
    /// The destination as records show it.
    pub shown: String,
}

/// The model of [`Plan`].
pub struct PlanView<S> {
    pub target: TargetView<S>,
    pub path_style: bool,
    pub region: Seq<char>,
    pub destination: Seq<u8>,
    pub shown: Seq<char>,
}

impl<S> View for Plan<S> {
    type V = PlanView<S>;

    open spec fn view(&self) -> PlanView<S> {
        PlanView {
            target: self.target@,
            path_style: self.path_style,
            region: self.region@,
            destination: self.destination@,
            shown: self.shown@,
        }
    }
}

/// What the store says of the object before its body.
pub struct ObjectReply {
    pub etag: Option<String>,
    pub content_type: Option<String>,
    pub content_length: Option<i64>,
    pub last_modified: Option<Timestamp>,
}

/// The model of [`ObjectReply`].
pub struct ObjectReplyView {
    pub etag: Option<Seq<char>>,
    pub content_type: Option<Seq<char>>,
    pub content_length: Option<i64>,
    pub last_modified: Option<(i64, u32)>,
}

impl View for ObjectReply {
    type V = ObjectReplyView;

    open spec fn view(&self) -> ObjectReplyView {
        ObjectReplyView {
            etag: opt_text(self.etag),
            content_type: opt_text(self.content_type),
            content_length: self.content_length,
            last_modified: match self.last_modified {
                Some(time) => Some(time@),
                None => None,
            },
        }
    }
}

/// What is kept of the store's reply.
pub struct ObjectHead {
    pub etag: Option<String>,
    pub content_type: Option<String>,
    pub length: Option<u64>,
    pub last_modified: Option<String>,
}

/// The model of [`ObjectHead`].
pub struct ObjectHeadView {
    pub etag: Option<Seq<char>>,
    pub content_type: Option<Seq<char>>,
    pub length: Option<nat>,
    pub last_modified: Option<Seq<char>>,
}

impl View for ObjectHead {
    type V = ObjectHeadView;

    open spec fn view(&self) -> ObjectHeadView {
        ObjectHeadView {
            etag: opt_text(self.etag),
            content_type: opt_text(self.content_type),
            length: opt_length(self.length),
            last_modified: opt_text(self.last_modified),
        }
    }
}

/// A download whose object is at hand.
pub struct Download<S> {
    pub plan: Plan<S>,
    pub head: ObjectHead,
}

/// The model of [`Download`].
pub struct DownloadView<S> {
    pub plan: PlanView<S>,
    pub head: ObjectHeadView,
}

impl<S> View for Download<S> {
    type V = DownloadView<S>;

    open spec fn view(&self) -> DownloadView<S> {
        DownloadView { plan: self.plan@, head: self.head@ }
    }
}

/// How far a download has come. Each stage waits for the outcome of its own action.
pub enum Stage<S> {
    /// The mode of the configuration file is asked for.
    ConfigMode { config: FilePath },
    /// The size of the configuration file is asked for.
    ConfigSize { config: FilePath },
    /// The configuration file is read.
    ConfigText { config: FilePath },
    /// The text of the configuration file is parsed.
    ConfigValue { config: FilePath },
    /// It is asked whether the destination is a directory.
    DestinationKind { target: Target<S>, path: FilePath },
    /// It is asked whether the destination exists.
    DestinationFree { plan: Plan<S> },
    /// The size of the CA bundle is asked for.
    CaBundleSize { plan: Plan<S>, bundle: FilePath },
    /// The CA bundle is read.
    CaBundleText { plan: Plan<S>, bundle: FilePath },
    /// The CA bundle is added to the trusted roots.
    CaBundleTrust { plan: Plan<S>, bundle: FilePath },
    /// The CA bundle is announced.
    CaBundleNotice { plan: Plan<S>, bundle: FilePath },
    /// The client is made.
    Client { plan: Plan<S> },
    /// The download is announced.
    StartNotice { plan: Plan<S> },
    /// The object is requested.
    Object { plan: Plan<S> },
    /// It is asked whether the directory of the destination exists.
    ParentKnown { download: Download<S>, parent: FilePath },
    /// It is asked whether a path on the way to that directory is a symbolic link.
    ParentLinks { download: Download<S>, parent: FilePath, at: FilePath },
    /// That directory is made.
    ParentMade { download: Download<S>, parent: FilePath },
    /// The destination is created.
    FileMade { download: Download<S> },
    /// A piece of the body is read. So many bytes are written.
    Body { download: Download<S>, written: u64 },
    /// A piece of the body is written. So many bytes are written with it.
    Piece { download: Download<S>, total: u64 },
    /// What was written is flushed.
    Flush { download: Download<S>, written: u64 },
    /// The destination is closed.
    Close { download: Download<S>, written: u64 },
    /// The time since the start is asked for.
    Clock { download: Download<S>, written: u64 },
    /// The result is printed.
    ResultNotice { download: Download<S>, written: u64, duration_ms: u128 },
    /// The completion is announced.
    CompleteNotice { download: Download<S>, written: u64, duration_ms: u128 },
    /// The difference in size is announced.
    SizeNotice { expected: u64, written: u64 },
    /// The download is done.
    Finished,
    /// The download has failed.
    Failed { error: GetError },
}

/// The model of [`Stage`].
pub enum StageView<S> {
    ConfigMode { config: Seq<u8> },
    ConfigSize { config: Seq<u8> },
    ConfigText { config: Seq<u8> },
    ConfigValue { config: Seq<u8> },
    DestinationKind { target: TargetView<S>, path: Seq<u8> },
    DestinationFree { plan: PlanView<S> },
    CaBundleSize { plan: PlanView<S>, bundle: Seq<u8> },
    CaBundleText { plan: PlanView<S>, bundle: Seq<u8> },
    CaBundleTrust { plan: PlanView<S>, bundle: Seq<u8> },
    CaBundleNotice { plan: PlanView<S>, bundle: Seq<u8> },
    Client { plan: PlanView<S> },
    StartNotice { plan: PlanView<S> },
    Object { plan: PlanView<S> },
    ParentKnown { download: DownloadView<S>, parent: Seq<u8> },
    ParentLinks { download: DownloadView<S>, parent: Seq<u8>, at: Seq<u8> },
    ParentMade { download: DownloadView<S>, parent: Seq<u8> },
    FileMade { download: DownloadView<S> },
    Body { download: DownloadView<S>, written: nat },
    Piece { download: DownloadView<S>, total: nat },
    Flush { download: DownloadView<S>, written: nat },
    Close { download: DownloadView<S>, written: nat },
    Clock { download: DownloadView<S>, written: nat },
    ResultNotice { download: DownloadView<S>, written: nat, duration_ms: u128 },
    CompleteNotice { download: DownloadView<S>, written: nat, duration_ms: u128 },
    SizeNotice { expected: nat, written: nat },
    Finished,
    Failed { error: GetErrorView },
}

impl<S> View for Stage<S> {
    type V = StageView<S>;

    open spec fn view(&self) -> StageView<S> {
        match *self {
            Stage::ConfigMode { config } => StageView::ConfigMode { config: config@ },
            Stage::ConfigSize { config } => StageView::ConfigSize { config: config@ },
            Stage::ConfigText { config } => StageView::ConfigText { config: config@ },
            Stage::ConfigValue { config } => StageView::ConfigValue { config: config@ },
            Stage::DestinationKind { target, path } => StageView::DestinationKind {
                target: target@,
                path: path@,
            },
            Stage::DestinationFree { plan } => StageView::DestinationFree { plan: plan@ },
            Stage::CaBundleSize { plan, bundle } => StageView::CaBundleSize {
                plan: plan@,
                bundle: bundle@,
            },
            Stage::CaBundleText { plan, bundle } => StageView::CaBundleText {
                plan: plan@,
                bundle: bundle@,
            },
            Stage::CaBundleTrust { plan, bundle } => StageView::CaBundleTrust {
                plan: plan@,
                bundle: bundle@,
            },
            Stage::CaBundleNotice { plan, bundle } => StageView::CaBundleNotice {
                plan: plan@,
                bundle: bundle@,
            },
            Stage::Client { plan } => StageView::Client { plan: plan@ },
            Stage::StartNotice { plan } => StageView::StartNotice { plan: plan@ },
            Stage::Object { plan } => StageView::Object { plan: plan@ },
            Stage::ParentKnown { download, parent } => StageView::ParentKnown {
                download: download@,
                parent: parent@,
            },
            Stage::ParentLinks { download, parent, at } => StageView::ParentLinks {
                download: download@,
                parent: parent@,
                at: at@,
            },
            Stage::ParentMade { download, parent } => StageView::ParentMade {
                download: download@,
                parent: parent@,
            },
            Stage::FileMade { download } => StageView::FileMade { download: download@ },
            Stage::Body { download, written } => StageView::Body {
                download: download@,
                written: written as nat,
            },
            Stage::Piece { download, total } => StageView::Piece {
                download: download@,
                total: total as nat,
            },
            Stage::Flush { download, written } => StageView::Flush {
                download: download@,
                written: written as nat,
            },
            Stage::Close { download, written } => StageView::Close {
                download: download@,
                written: written as nat,
            },
            Stage::Clock { download, written } => StageView::Clock {
                download: download@,
                written: written as nat,
            },
            Stage::ResultNotice { download, written, duration_ms } => StageView::ResultNotice {
                download: download@,
                written: written as nat,
                duration_ms,
            },
            Stage::CompleteNotice { download, written, duration_ms } => StageView::CompleteNotice {
                download: download@,
                written: written as nat,
                duration_ms,
            },
            Stage::SizeNotice { expected, written } => StageView::SizeNotice {
                expected: expected as nat,
                written: written as nat,
            },
            Stage::Finished => StageView::Finished,
            Stage::Failed { error } => StageView::Failed { error: error@ },
        }
    }
}

/// What came of an action.
pub enum Event<S> {
    /// It failed, for this cause.
    Failed(String),
    /// It is done.
    Done,
    /// The mode of a file, on a system that has modes.
    Mode(Option<u32>),
    /// The size of a file.
    Size(u64),
    /// The configuration that a text holds.
    Config(McConfig<S>),
    /// Yes or no.
    Answer(bool),
    /// The object is at hand.
    Object(ObjectReply),
    /// A piece of the body, of so many bytes.
    Chunk(u64),
    /// The body is at its end.
    EndOfBody,
    /// So many milliseconds have passed.
    Elapsed(u128),
}

/// The model of [`Event`].
pub enum EventView<S> {
    Failed(Seq<char>),
    Done,
    Mode(Option<u32>),
    Size(u64),
    Config(AliasList<S>),
    Answer(bool),
    Object(ObjectReplyView),
    Chunk(nat),
    EndOfBody,
    Elapsed(u128),
}

impl<S> View for Event<S> {
    type V = EventView<S>;

    open spec fn view(&self) -> EventView<S> {
        match *self {
            Event::Failed(cause) => EventView::Failed(cause@),
            Event::Done => EventView::Done,
            Event::Mode(mode) => EventView::Mode(mode),
            Event::Size(size) => EventView::Size(size),
            Event::Config(config) => EventView::Config(config@),
            Event::Answer(answer) => EventView::Answer(answer),
            Event::Object(reply) => EventView::Object(reply@),
            Event::Chunk(len) => EventView::Chunk(len as nat),
            Event::EndOfBody => EventView::EndOfBody,
            Event::Elapsed(ms) => EventView::Elapsed(ms),
        }
    }
}

/// What the client is made of.
pub struct ClientSettings<'a, S> {
    pub endpoint: &'a str,
    pub region: &'a str,
    pub path_style: bool,
    pub access_key: &'a S,
    pub secret_key: &'a S,
    pub credentials_origin: &'static str,
    pub connect_timeout_secs: u64,
    pub operation_timeout_secs: u64,
    pub attempt_timeout_secs: u64,
}

/// The model of [`ClientSettings`].
pub struct ClientSettingsView<S> {
    pub endpoint: Seq<char>,
    pub region: Seq<char>,
    pub path_style: bool,
    pub access_key: S,
    pub secret_key: S,
    pub credentials_origin: Seq<char>,
    pub connect_timeout_secs: u64,
    pub operation_timeout_secs: u64,
    pub attempt_timeout_secs: u64,
}

impl<'a, S> View for ClientSettings<'a, S> {
    type V = ClientSettingsView<S>;

    open spec fn view(&self) -> ClientSettingsView<S> {
        ClientSettingsView {
            endpoint: self.endpoint@,
            region: self.region@,
            path_style: self.path_style,
            access_key: *self.access_key,
            secret_key: *self.secret_key,
            credentials_origin: self.credentials_origin@,
            connect_timeout_secs: self.connect_timeout_secs,
            operation_timeout_secs: self.operation_timeout_secs,
            attempt_timeout_secs: self.attempt_timeout_secs,
        }
    }
}

/// What is to be done outside this crate.
#[allow(inconsistent_fields)]
pub enum Action<'a, S> {
    /// Find out the mode of a file: [`Event::Mode`].
    ReadMode { path: &'a FilePath },
    /// Find out the size of a file: [`Event::Size`].
    ReadSize { path: &'a FilePath },
    /// Read a file as text: [`Event::Done`].
    ReadConfig { path: &'a FilePath },
    /// Parse the text: [`Event::Config`].
    ParseConfig,
    /// Find out whether a path is a directory: [`Event::Answer`].
    ProbeDirectory { path: &'a FilePath },
    /// Find out whether a path exists: [`Event::Answer`].
    ProbeExists { path: &'a FilePath },
    /// Read a CA bundle: [`Event::Done`].
    ReadCaBundle { path: &'a FilePath },
    /// Trust what the bundle holds, besides the system's roots: [`Event::Done`].
    TrustCaBundle,
    /// Print a line on standard error: [`Event::Done`].
    Notice { line: String },
    /// Make the client: [`Event::Done`].
    OpenClient { settings: ClientSettings<'a, S> },
    /// Print a record on standard error: [`Event::Done`].
    EmitStart { record: AuditStartRecord },
    /// Request the object: [`Event::Object`].
    GetObject { bucket: &'a str, key: &'a str },
    /// Find out whether a path itself is a symbolic link: [`Event::Answer`].
    ProbeLink { path: &'a FilePath },
    /// Make a directory and those above it: [`Event::Done`].
    CreateDirectories { path: &'a FilePath },
    /// Create the destination, empty: [`Event::Done`].
    CreateFile { path: &'a FilePath },
    /// Read a piece of the body: [`Event::Chunk`] or [`Event::EndOfBody`].
    ReadChunk,
    /// Write that piece, to standard output or to the destination: [`Event::Done`].
    WriteChunk { to_stdout: bool },
    /// Flush standard output or the destination: [`Event::Done`].
    Flush { to_stdout: bool },
    /// Close the destination: [`Event::Done`].
    CloseFile,
    /// Find out how many milliseconds have passed since the start: [`Event::Elapsed`].
    ReadClock,
    /// Print a record on standard output: [`Event::Done`].
    EmitResult { record: DownloadRecord },
    /// Print a record on standard error: [`Event::Done`].
    EmitComplete { record: AuditCompleteRecord },
    /// Leave with success.
    Finish,
    /// Print a record on standard error and leave with failure.
    Fail { record: ErrorRecord },
}

/// The model of [`Action`].
#[allow(inconsistent_fields)]
pub enum ActionView<S> {
    ReadMode { path: Seq<u8> },
    ReadSize { path: Seq<u8> },
    ReadConfig { path: Seq<u8> },
    ParseConfig,
    ProbeDirectory { path: Seq<u8> },
    ProbeExists { path: Seq<u8> },
    ReadCaBundle { path: Seq<u8> },
    TrustCaBundle,
    Notice { line: Seq<char> },
    OpenClient { settings: ClientSettingsView<S> },
    EmitStart { record: AuditStartRecordView },
    GetObject { bucket: Seq<char>, key: Seq<char> },
    ProbeLink { path: Seq<u8> },
    CreateDirectories { path: Seq<u8> },
    CreateFile { path: Seq<u8> },
    ReadChunk,
    WriteChunk { to_stdout: bool },
    Flush { to_stdout: bool },
    CloseFile,
    ReadClock,
    EmitResult { record: DownloadRecordView },
    EmitComplete { record: AuditCompleteRecordView },
    Finish,
    Fail { record: ErrorRecordView },
}

impl<'a, S> View for Action<'a, S> {
    type V = ActionView<S>;

    open spec fn view(&self) -> ActionView<S> {
        match *self {
            Action::ReadMode { path } => ActionView::ReadMode { path: path@ },
            Action::ReadSize { path } => ActionView::ReadSize { path: path@ },
            Action::ReadConfig { path } => ActionView::ReadConfig { path: path@ },
            Action::ParseConfig => ActionView::ParseConfig,
            Action::ProbeDirectory { path } => ActionView::ProbeDirectory { path: path@ },
            Action::ProbeExists { path } => ActionView::ProbeExists { path: path@ },
            Action::ReadCaBundle { path } => ActionView::ReadCaBundle { path: path@ },
            Action::TrustCaBundle => ActionView::TrustCaBundle,
            Action::Notice { line } => ActionView::Notice { line: line@ },
            Action::OpenClient { settings } => ActionView::OpenClient { settings: settings@ },
            Action::EmitStart { record } => ActionView::EmitStart { record: record@ },
            Action::GetObject { bucket, key } => ActionView::GetObject {
                bucket: bucket@,
                key: key@,
            },
            Action::ProbeLink { path } => ActionView::ProbeLink { path: path@ },
            Action::CreateDirectories { path } => ActionView::CreateDirectories { path: path@ },
            Action::CreateFile { path } => ActionView::CreateFile { path: path@ },
            Action::ReadChunk => ActionView::ReadChunk,
            Action::WriteChunk { to_stdout } => ActionView::WriteChunk { to_stdout },
            Action::Flush { to_stdout } => ActionView::Flush { to_stdout },
            Action::CloseFile => ActionView::CloseFile,
            Action::ReadClock => ActionView::ReadClock,
            Action::EmitResult { record } => ActionView::EmitResult { record: record@ },
            Action::EmitComplete { record } => ActionView::EmitComplete { record: record@ },
            Action::Finish => ActionView::Finish,
            Action::Fail { record } => ActionView::Fail { record: record@ },
        }
    }
}

/// The model of a request holds all that the user asks for.
pub proof fn law_request_model(request: Request)
    ensures
        request@.source == request.source@,
        same_option(request@.region, request.region),
        same_path(request@.destination, request.destination),
        same_path(request@.config, request.config),
        same_path(request@.ca_bundle, request.ca_bundle),
        request@.stdout == request.stdout,
        request@.overwrite == request.overwrite,
        request@.verbose == request.verbose,
        request@.run_id == request.run_id@,
        request@.system == request.system,
{
}

/// Whether a model of an optional path holds that path.
pub open spec fn same_path(model: Option<Seq<u8>>, path: Option<FilePath>) -> bool {
    match path {
        Some(path) => model == Some(path@),
        None => model is None,
    }
}

/// The model of an event holds all that came of an action.
pub proof fn law_event_model<S>(event: Event<S>)
    ensures
        match event {
            Event::Failed(cause) => event@ == EventView::<S>::Failed(cause@),
            Event::Done => event@ == EventView::<S>::Done,
            Event::Mode(mode) => event@ == EventView::<S>::Mode(mode),
            Event::Size(size) => event@ == EventView::<S>::Size(size),
            Event::Config(config) => event@ == EventView::<S>::Config(config@),
            Event::Answer(answer) => event@ == EventView::<S>::Answer(answer),
            Event::Object(reply) => {
                &&& event@ is Object
                &&& same_option(event@->Object_0.etag, reply.etag)
                &&& same_option(event@->Object_0.content_type, reply.content_type)
                &&& event@->Object_0.content_length == reply.content_length
                &&& match reply.last_modified {
                    Some(time) => event@->Object_0.last_modified == Some(time@),
                    None => event@->Object_0.last_modified is None,
                }
            },
            Event::Chunk(len) => event@ == EventView::<S>::Chunk(len as nat),
            Event::EndOfBody => event@ == EventView::<S>::EndOfBody,
            Event::Elapsed(ms) => event@ == EventView::<S>::Elapsed(ms),
        },
{
}

/// The model of an action holds all that is to be done.
pub proof fn law_action_model<'a, S>(action: Action<'a, S>)
    ensures
        match action {
            Action::ReadMode { path } => action@ == (ActionView::<S>::ReadMode { path: path@ }),
            Action::ReadSize { path } => action@ == (ActionView::<S>::ReadSize { path: path@ }),
            Action::ReadConfig { path } => action@ == (ActionView::<S>::ReadConfig { path: path@ }),
            Action::ParseConfig => action@ == ActionView::<S>::ParseConfig,
            Action::ProbeDirectory { path } => action@ == (ActionView::<S>::ProbeDirectory {
                path: path@,
            }),
            Action::ProbeExists { path } => action@ == (ActionView::<S>::ProbeExists {
                path: path@,
            }),
            Action::ReadCaBundle { path } => action@ == (ActionView::<S>::ReadCaBundle {
                path: path@,
            }),
            Action::TrustCaBundle => action@ == ActionView::<S>::TrustCaBundle,
            Action::Notice { line } => action@ == (ActionView::<S>::Notice { line: line@ }),
            Action::OpenClient { settings } => {
                &&& action@ is OpenClient
                &&& action@->settings.endpoint == settings.endpoint@
                &&& action@->settings.region == settings.region@
                &&& action@->settings.path_style == settings.path_style
                &&& action@->settings.access_key == *settings.access_key
                &&& action@->settings.secret_key == *settings.secret_key
                &&& action@->settings.credentials_origin == settings.credentials_origin@
                &&& action@->settings.connect_timeout_secs == settings.connect_timeout_secs
                &&& action@->settings.operation_timeout_secs == settings.operation_timeout_secs
                &&& action@->settings.attempt_timeout_secs == settings.attempt_timeout_secs
            },
            Action::EmitStart { record } => action@ == (ActionView::<S>::EmitStart {
                record: record@,
            }),
            Action::GetObject { bucket, key } => action@ == (ActionView::<S>::GetObject {
                bucket: bucket@,
                key: key@,
            }),
            Action::ProbeLink { path } => action@ == (ActionView::<S>::ProbeLink { path: path@ }),
            Action::CreateDirectories { path } => action@ == (ActionView::<S>::CreateDirectories {
                path: path@,
            }),
            Action::CreateFile { path } => action@ == (ActionView::<S>::CreateFile { path: path@ }),
            Action::ReadChunk => action@ == ActionView::<S>::ReadChunk,
            Action::WriteChunk { to_stdout } => action@ == (ActionView::<S>::WriteChunk {
                to_stdout,
            }),
            Action::Flush { to_stdout } => action@ == (ActionView::<S>::Flush { to_stdout }),
            Action::CloseFile => action@ == ActionView::<S>::CloseFile,
            Action::ReadClock => action@ == ActionView::<S>::ReadClock,
            Action::EmitResult { record } => action@ == (ActionView::<S>::EmitResult {
                record: record@,
            }),
            Action::EmitComplete { record } => action@ == (ActionView::<S>::EmitComplete {
                record: record@,
            }),
            Action::Finish => action@ == ActionView::<S>::Finish,
            Action::Fail { record } => action@ == (ActionView::<S>::Fail { record: record@ }),
        },
{
}

/// The model of an alias holds all that the configuration says of a store.
pub proof fn law_alias_model<S>(alias: McAlias<S>)
    ensures
        alias@.url == alias.url@,
        alias@.access_key == alias.access_key,
        alias@.secret_key == alias.secret_key,
        same_option(alias@.api, alias.api),
        same_option(alias@.path, alias.path),
{
}

} // verus!
