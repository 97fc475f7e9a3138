//! One download, step by step. [`begin`] gives the first stage, [`next_action`] says what
//! a stage wants done outside this crate, and [`advance`] takes what came of it to the
//! next stage.
use vstd::prelude::*;

use crate::config::{
    check_ca_bundle_size, check_config_size, check_permissions, config_location, config_path_in,
    lookup, names_of, permissions_verdict, resolve_path_style, uses_path_style, AliasList, McConfig,
};
use crate::error::{
    message, GetError, GetErrorView, MAX_CA_BUNDLE_SIZE, MAX_CONFIG_SIZE, MAX_SOURCE_CHARS,
};
use crate::outside::is_uuid_v7;
use crate::path::{
    ends_in_slash, opt_path, parent_of, parent_path, shown, text_or_mark, FilePath,
};
use crate::record::{
    announced, announced_length, ca_bundle_line, ca_bundle_notice, format_dt, size_mismatch_line,
    size_missed, size_notice, time_text, AuditCompleteRecord, AuditCompleteRecordView,
    AuditStartRecord, AuditStartRecordView, DownloadRecord, DownloadRecordView, ErrorRecord,
    ErrorRecordView,
};
use crate::session::{
    Action, ActionView, ClientSettings, ClientSettingsView, Download, DownloadView, Event,
    EventView, ObjectHead, ObjectHeadView, ObjectReply, ObjectReplyView, Plan, PlanView, Request,
    RequestView, Stage, StageView, Target, TargetView,
};
use crate::source::{
    check_source, filename, filename_from_key, parse_source, parsed_source, resolve_destination,
    resolved_destination,
};
use crate::system::System;

verus! {

/// Seconds for the connection to stand.
pub const CONNECT_TIMEOUT_SECS: u64 = 10;

/// Seconds for the whole operation.
pub const OPERATION_TIMEOUT_SECS: u64 = 300;

/// Seconds for one attempt.
pub const ATTEMPT_TIMEOUT_SECS: u64 = 120;

/// The first stage of a download for a user with this home directory.
pub open spec fn begun<S>(request: RequestView, home: Option<Seq<u8>>) -> StageView<S> {
    if request.source.len() > MAX_SOURCE_CHARS {
        StageView::Failed { error: GetErrorView::SourceTooLong }
    } else {
        match config_location(request.config, home, request.system) {
            Ok(config) => StageView::ConfigMode { config },
            Err(error) => StageView::Failed { error },
        }
    }
}

/// The object that a request names, with its alias.
pub open spec fn targeted<S>(
    request: RequestView,
    config: Seq<u8>,
    aliases: AliasList<S>,
) -> Result<TargetView<S>, GetErrorView> {
    match parsed_source(request.source) {
        Err(error) => Err(error),
        Ok((alias_name, bucket, key)) => match lookup(aliases, alias_name) {
            None => if request.verbose {
                Err(
                    GetErrorView::UnknownAliasAmong {
                        alias: alias_name,
                        config,
                        known: names_of(aliases),
                    },
                )
            } else {
                Err(GetErrorView::UnknownAlias { alias: alias_name })
            },
            Some(alias) => match filename(key) {
                Err(error) => Err(error),
                Ok(_) => Ok(TargetView { alias_name, alias, bucket, key }),
            },
        },
    }
}

/// The path that only the disk can tell to be a directory or not.
pub open spec fn kind_in_doubt(destination: Option<Seq<u8>>) -> Option<Seq<u8>> {
    match destination {
        Some(path) => if ends_in_slash(path) {
            None
        } else {
            Some(path)
        },
        None => None,
    }
}

/// The region of a request.
pub open spec fn region_of(request: RequestView) -> Seq<char> {
    match request.region {
        Some(region) => region,
        None => "us-east-1"@,
    }
}

/// The download that a request comes to.
pub open spec fn planned<S>(request: RequestView, target: TargetView<S>, is_dir: bool) -> Result<
    PlanView<S>,
    GetErrorView,
> {
    match resolved_destination(request.destination, target.key, is_dir, request.system) {
        Err(error) => Err(error),
        Ok(destination) => Ok(
            PlanView {
                target,
                path_style: uses_path_style(target.alias.url, target.alias.path),
                region: region_of(request),
                destination,
                shown: if request.stdout {
                    "<stdout>"@
                } else {
                    shown(destination, request.system)
                },
            },
        ),
    }
}

/// The stage behind the questions about the destination.
pub open spec fn cleared<S>(request: RequestView, plan: PlanView<S>) -> StageView<S> {
    match request.ca_bundle {
        Some(bundle) => StageView::CaBundleSize { plan, bundle },
        None => StageView::Client { plan },
    }
}

/// The stage of a new plan.
pub open spec fn with_plan<S>(
    request: RequestView,
    plan: Result<PlanView<S>, GetErrorView>,
) -> StageView<S> {
    match plan {
        Err(error) => StageView::Failed { error },
        Ok(plan) => if !request.stdout && !request.overwrite {
            StageView::DestinationFree { plan }
        } else {
            cleared(request, plan)
        },
    }
}

/// The stage behind a configuration.
pub open spec fn configured<S>(
    request: RequestView,
    config: Seq<u8>,
    aliases: AliasList<S>,
) -> StageView<S> {
    match targeted(request, config, aliases) {
        Err(error) => StageView::Failed { error },
        Ok(target) => match kind_in_doubt(request.destination) {
            Some(path) => StageView::DestinationKind { target, path },
            None => with_plan(request, planned(request, target, false)),
        },
    }
}

/// What is kept of a reply.
pub open spec fn head_of(reply: ObjectReplyView) -> ObjectHeadView {
    ObjectHeadView {
        etag: reply.etag,
        content_type: reply.content_type,
        length: announced(reply.content_length),
        last_modified: match reply.last_modified {
            Some(time) => Some(time_text(time)),
            None => None,
        },
    }
}

/// The directory that a path lies in, where it has a name.
pub open spec fn named_parent(request: RequestView, path: Seq<u8>) -> Option<Seq<u8>> {
    match parent_path(path, request.system) {
        Some(parent) => if parent.len() > 0 {
            Some(parent)
        } else {
            None
        },
        None => None,
    }
}

/// The stage of an object that goes into a file.
pub open spec fn placed<S>(request: RequestView, download: DownloadView<S>) -> StageView<S> {
    match named_parent(request, download.plan.destination) {
        Some(parent) => StageView::ParentKnown { download, parent },
        None => StageView::FileMade { download },
    }
}

/// The stage behind a path on the way to the missing directory that is no symbolic link.
pub open spec fn climbed<S>(
    request: RequestView,
    download: DownloadView<S>,
    parent: Seq<u8>,
    at: Seq<u8>,
) -> StageView<S> {
    match named_parent(request, at) {
        Some(up) => StageView::ParentLinks { download, parent, at: up },
        None => StageView::ParentMade { download, parent },
    }
}

/// What was being done at a stage, for an error to say. The outer option is empty where
/// nothing can go wrong, the inner one where the cause speaks for itself.
pub open spec fn undertaking<S>(request: RequestView, stage: StageView<S>) -> Option<
    Option<Seq<char>>,
> {
    match stage {
        StageView::ConfigMode { config } => Some(
            Some("cannot stat "@ + shown(config, request.system)),
        ),
        StageView::ConfigSize { config } => Some(
            Some("cannot stat "@ + shown(config, request.system)),
        ),
        StageView::ConfigText { config } => Some(
            Some("failed to read "@ + shown(config, request.system)),
        ),
        StageView::ConfigValue { config } => Some(
            Some("failed to parse "@ + shown(config, request.system)),
        ),
        StageView::CaBundleSize { bundle, .. } => Some(
            Some("cannot stat CA bundle "@ + shown(bundle, request.system)),
        ),
        StageView::CaBundleText { bundle, .. } => Some(
            Some("failed to read CA bundle "@ + shown(bundle, request.system)),
        ),
        StageView::CaBundleTrust { .. } => Some(
            Some("failed to build TLS context from CA bundle"@),
        ),
        StageView::StartNotice { .. } => Some(None),
        StageView::Object { plan } => Some(
            Some(
                if request.verbose {
                    "GetObject failed: bucket="@ + plan.target.bucket + " key="@ + plan.target.key
                } else {
                    "GetObject request failed"@
                },
            ),
        ),
        StageView::ParentMade { parent, .. } => Some(
            Some("failed to create directory "@ + shown(parent, request.system)),
        ),
        StageView::FileMade { download } => Some(
            Some("failed to create "@ + shown(download.plan.destination, request.system)),
        ),
        StageView::Body { .. } => Some(Some("error reading object body"@)),
        StageView::Piece { download, .. } => Some(
            Some(
                if request.stdout {
                    "error writing to stdout"@
                } else {
                    "error writing to "@ + shown(download.plan.destination, request.system)
                },
            ),
        ),
        StageView::Flush { .. } => Some(
            Some(
                if request.stdout {
                    "error flushing stdout"@
                } else {
                    "error flushing output file"@
                },
            ),
        ),
        StageView::Close { .. } => Some(Some("error closing output file"@)),
        StageView::ResultNotice { .. } => Some(None),
        StageView::CompleteNotice { .. } => Some(None),
        _ => None,
    }
}

/// The stage that an event leads to. An event that does not belong to the stage's action
/// changes nothing.
pub open spec fn advanced<S>(
    request: RequestView,
    stage: StageView<S>,
    event: EventView<S>,
) -> StageView<S> {
    match (stage, event) {
        (StageView::ConfigMode { config }, EventView::Mode(mode)) => {
            match permissions_verdict(config, mode) {
                Ok(_) => StageView::ConfigSize { config },
                Err(error) => StageView::Failed { error },
            }
        },
        (StageView::ConfigSize { config }, EventView::Size(size)) => {
            if size > MAX_CONFIG_SIZE {
                StageView::Failed { error: GetErrorView::ConfigTooLarge { path: config } }
            } else {
                StageView::ConfigText { config }
            }
        },
        (StageView::ConfigText { config }, EventView::Done) => StageView::ConfigValue { config },
        (StageView::ConfigValue { config }, EventView::Config(aliases)) => {
            configured(request, config, aliases)
        },
        (StageView::DestinationKind { target, .. }, EventView::Answer(is_dir)) => {
            with_plan(request, planned(request, target, is_dir))
        },
        (StageView::DestinationFree { plan }, EventView::Answer(exists)) => {
            if exists {
                StageView::Failed {
                    error: GetErrorView::DestinationExists { path: plan.destination },
                }
            } else {
                cleared(request, plan)
            }
        },
        (StageView::CaBundleSize { plan, bundle }, EventView::Size(size)) => {
            if size > MAX_CA_BUNDLE_SIZE {
                StageView::Failed { error: GetErrorView::CaBundleTooLarge { path: bundle } }
            } else {
                StageView::CaBundleText { plan, bundle }
            }
        },
        (StageView::CaBundleText { plan, bundle }, EventView::Done) => {
            StageView::CaBundleTrust { plan, bundle }
        },
        (StageView::CaBundleTrust { plan, bundle }, EventView::Done) => {
            StageView::CaBundleNotice { plan, bundle }
        },
        (StageView::CaBundleNotice { plan, .. }, EventView::Done) => StageView::Client { plan },
        (StageView::Client { plan }, EventView::Done) => StageView::StartNotice { plan },
        (StageView::StartNotice { plan }, EventView::Done) => StageView::Object { plan },
        (StageView::Object { plan }, EventView::Object(reply)) => {
            let download = DownloadView { plan, head: head_of(reply) };
            if request.stdout {
                StageView::Body { download, written: 0 }
            } else {
                placed(request, download)
            }
        },
        (StageView::ParentKnown { download, parent }, EventView::Answer(exists)) => {
            if exists {
                StageView::FileMade { download }
            } else {
                StageView::ParentLinks { download, parent, at: parent }
            }
        },
        (StageView::ParentLinks { download, parent, at }, EventView::Answer(is_link)) => {
            if is_link {
                StageView::Failed {
                    error: GetErrorView::DirectoryBehindLink { path: parent, link: at },
                }
            } else {
                climbed(request, download, parent, at)
            }
        },
        (StageView::ParentMade { download, .. }, EventView::Done) => {
            StageView::FileMade { download }
        },
        (StageView::FileMade { download }, EventView::Done) => {
            StageView::Body { download, written: 0 }
        },
        (StageView::Body { download, written }, EventView::Chunk(len)) => {
            StageView::Piece { download, total: written + len }
        },
        (StageView::Body { download, written }, EventView::EndOfBody) => {
            StageView::Flush { download, written }
        },
        (StageView::Piece { download, total }, EventView::Done) => {
            StageView::Body { download, written: total }
        },
        (StageView::Flush { download, written }, EventView::Done) => {
            if request.stdout {
                StageView::Clock { download, written }
            } else {
                StageView::Close { download, written }
            }
        },
        (StageView::Close { download, written }, EventView::Done) => {
            StageView::Clock { download, written }
        },
        (StageView::Clock { download, written }, EventView::Elapsed(duration_ms)) => {
            if request.stdout {
                StageView::CompleteNotice { download, written, duration_ms }
            } else {
                StageView::ResultNotice { download, written, duration_ms }
            }
        },
        (StageView::ResultNotice { download, written, duration_ms }, EventView::Done) => {
            StageView::CompleteNotice { download, written, duration_ms }
        },
        (StageView::CompleteNotice { download, written, .. }, EventView::Done) => {
            match size_missed(download.head.length, written) {
                Some(expected) => StageView::SizeNotice { expected, written },
                None => StageView::Finished,
            }
        },
        (StageView::SizeNotice { .. }, EventView::Done) => StageView::Finished,
        (stage, EventView::Failed(cause)) => match undertaking(request, stage) {
            Some(context) => StageView::Failed { error: GetErrorView::Outside { context, cause } },
            None => stage,
        },
        (stage, _) => stage,
    }
}

/// Whether the bytes counted so far leave room for those of the event.
pub open spec fn counts<S>(stage: StageView<S>, event: EventView<S>) -> bool {
    match (stage, event) {
        (StageView::Body { written, .. }, EventView::Chunk(len)) => written + len <= u64::MAX,
        _ => true,
    }
}

/// The audit record before the request.
pub open spec fn start_record<S>(request: RequestView, plan: PlanView<S>) -> AuditStartRecordView {
    AuditStartRecordView {
        event: "get_object_start"@,
        run_id: request.run_id,
        alias: plan.target.alias_name,
        endpoint: plan.target.alias.url,
        bucket: plan.target.bucket,
        key: plan.target.key,
        destination: plan.shown,
        region: plan.region,
        path_style: plan.path_style,
        pq_kx: "X25519MLKEM768"@,
        ca_bundle: match request.ca_bundle {
            Some(bundle) => Some(text_or_mark(bundle)),
            None => None,
        },
    }
}

/// The result of a download.
pub open spec fn download_record<S>(
    download: DownloadView<S>,
    written: nat,
    duration_ms: u128,
) -> DownloadRecordView {
    DownloadRecordView {
        status: "success"@,
        record_type: "download"@,
        bucket: download.plan.target.bucket,
        key: download.plan.target.key,
        destination: download.plan.shown,
        size: written,
        etag: download.head.etag,
        content_type: download.head.content_type,
        last_modified: download.head.last_modified,
        duration_ms,
    }
}

/// The audit record behind a complete download.
pub open spec fn complete_record<S>(
    request: RequestView,
    download: DownloadView<S>,
    written: nat,
    duration_ms: u128,
) -> AuditCompleteRecordView {
    AuditCompleteRecordView {
        event: "get_object_complete"@,
        run_id: request.run_id,
        alias: download.plan.target.alias_name,
        bucket: download.plan.target.bucket,
        key: download.plan.target.key,
        destination: download.plan.shown,
        size: written,
        etag: download.head.etag,
        duration_ms,
        outcome: "success"@,
    }
}

/// The report of a failure.
pub open spec fn error_record(error: GetErrorView, system: System) -> ErrorRecordView {
    ErrorRecordView { status: "error"@, error: message(error, system) }
}

/// What the client is made of.
pub open spec fn client_settings<S>(plan: PlanView<S>) -> ClientSettingsView<S> {
    ClientSettingsView {
        endpoint: plan.target.alias.url,
        region: plan.region,
        path_style: plan.path_style,
        access_key: plan.target.alias.access_key,
        secret_key: plan.target.alias.secret_key,
        credentials_origin: "mc-config"@,
        connect_timeout_secs: CONNECT_TIMEOUT_SECS,
        operation_timeout_secs: OPERATION_TIMEOUT_SECS,
        attempt_timeout_secs: ATTEMPT_TIMEOUT_SECS,
    }
}

/// What a stage wants done.
pub open spec fn wanted<S>(request: RequestView, stage: StageView<S>) -> ActionView<S> {
    match stage {
        StageView::ConfigMode { config } => ActionView::ReadMode { path: config },
        StageView::ConfigSize { config } => ActionView::ReadSize { path: config },
        StageView::ConfigText { config } => ActionView::ReadConfig { path: config },
        StageView::ConfigValue { .. } => ActionView::ParseConfig,
        StageView::DestinationKind { path, .. } => ActionView::ProbeDirectory { path },
        StageView::DestinationFree { plan } => ActionView::ProbeExists { path: plan.destination },
        StageView::CaBundleSize { bundle, .. } => ActionView::ReadSize { path: bundle },
        StageView::CaBundleText { bundle, .. } => ActionView::ReadCaBundle { path: bundle },
        StageView::CaBundleTrust { .. } => ActionView::TrustCaBundle,
        StageView::CaBundleNotice { bundle, .. } => ActionView::Notice {
            line: ca_bundle_notice(request.run_id, bundle, request.system),
        },
        StageView::Client { plan } => ActionView::OpenClient { settings: client_settings(plan) },
        StageView::StartNotice { plan } => ActionView::EmitStart {
            record: start_record(request, plan),
        },
        StageView::Object { plan } => ActionView::GetObject {
            bucket: plan.target.bucket,
            key: plan.target.key,
        },
        StageView::ParentKnown { parent, .. } => ActionView::ProbeExists { path: parent },
        StageView::ParentLinks { at, .. } => ActionView::ProbeLink { path: at },
        StageView::ParentMade { parent, .. } => ActionView::CreateDirectories { path: parent },
        StageView::FileMade { download } => ActionView::CreateFile {
            path: download.plan.destination,
        },
        StageView::Body { .. } => ActionView::ReadChunk,
        StageView::Piece { .. } => ActionView::WriteChunk { to_stdout: request.stdout },
        StageView::Flush { .. } => ActionView::Flush { to_stdout: request.stdout },
        StageView::Close { .. } => ActionView::CloseFile,
        StageView::Clock { .. } => ActionView::ReadClock,
        StageView::ResultNotice { download, written, duration_ms } => ActionView::EmitResult {
            record: download_record(download, written, duration_ms),
        },
        StageView::CompleteNotice { download, written, duration_ms } => ActionView::EmitComplete {
            record: complete_record(request, download, written, duration_ms),
        },
        StageView::SizeNotice { expected, written } => ActionView::Notice {
            line: size_notice(request.run_id, expected, written),
        },
        StageView::Finished => ActionView::Finish,
        StageView::Failed { error } => ActionView::Fail {
            record: error_record(error, request.system),
        },
    }
}

/// The first stage of a download for a user with this home directory.
pub fn begin_in<S>(request: &Request, home: Option<FilePath>) -> (stage: Stage<S>)
    ensures
        stage@ == begun::<S>(request@, opt_path(home)),
{
    match check_source(request.source.as_str()) {
        Ok(_) => match config_path_in(request.config.as_ref(), home, request.system) {
            Ok(config) => Stage::ConfigMode { config },
            Err(error) => Stage::Failed { error },
        },
        Err(error) => Stage::Failed { error },
    }
}

/// The first stage of a download. The home directory is asked for only where the request
/// names no configuration file. Where [`crate::config::config_path`] finds the file is where
/// the download begins, and why it finds none is why the download fails.
pub fn begin<S>(request: &Request) -> (stage: Stage<S>)
    ensures
        exists|home: Option<Seq<u8>>| stage@ == #[trigger] begun::<S>(request@, home),
        request@.source.len() > MAX_SOURCE_CHARS || request@.config is Some ==> stage@ == begun::<
            S,
        >(request@, None),
        request@.source.len() <= 2048 ==> exists|found: Result<FilePath, GetError>|
            #[trigger] call_ensures(
                crate::config::config_path,
                (borrowed(&request.config), request.system),
                found,
            ) && stage@ == placed_config::<S>(found),
{
    match check_source(request.source.as_str()) {
        Ok(_) => match config_path(request.config.as_ref(), request.system) {
            Ok(config) => {
                let stage = Stage::ConfigMode { config };
                proof {
                    let home = choose|home: Option<Seq<u8>>|
                        #[trigger] config_location(request@.config, home, request@.system)
                            == Ok::<_, GetErrorView>(config@);
                    assert(stage@ == begun::<S>(request@, home));
                }
                stage
            },
            Err(error) => {
                let stage = Stage::Failed { error };
                proof {
                    let home = choose|home: Option<Seq<u8>>|
                        #[trigger] config_location(request@.config, home, request@.system)
                            == Err::<Seq<u8>, GetErrorView>(error@);
                    assert(stage@ == begun::<S>(request@, home));
                }
                stage
            },
        },
        Err(error) => {
            let stage = Stage::Failed { error };
            assert(stage@ == begun::<S>(request@, None));
            stage
        },
    }
}

/// An optional path, borrowed.
pub open spec fn borrowed(path: &Option<FilePath>) -> Option<&FilePath> {
    match path {
        Some(path) => Some(path),
        None => None,
    }
}

/// The stage of a configuration that was found, or was not.
pub open spec fn placed_config<S>(found: Result<FilePath, GetError>) -> StageView<S> {
    match found {
        Ok(config) => StageView::ConfigMode { config: config@ },
        Err(error) => StageView::Failed { error: error@ },
    }
}

/// What `find` finds.
fn found_by<'a, F: Fn(Option<&'a FilePath>, System) -> Result<FilePath, GetError>>(
    find: F,
    given: Option<&'a FilePath>,
    system: System,
) -> (found: Result<FilePath, GetError>)
    requires
        call_requires(find, (given, system)),
    ensures
        call_ensures(find, (given, system), found),
{
    find(given, system)
}

/// What [`crate::config::config_path`] finds.
fn config_path(given: Option<&FilePath>, system: System) -> (found: Result<FilePath, GetError>)
    ensures
        call_ensures(crate::config::config_path, (given, system), found),
{
    found_by(crate::config::config_path, given, system)
}

fn choose_target<S>(request: &Request, config: FilePath, aliases: McConfig<S>) -> (r: Result<
    Target<S>,
    GetError,
>)
    ensures
        match r {
            Ok(target) => targeted(request@, config@, aliases@) == Ok::<_, GetErrorView>(target@),
            Err(e) => targeted(request@, config@, aliases@) == Err::<TargetView<S>, GetErrorView>(
                e@,
            ),
        },
{
    let (alias_name, bucket, key) = match parse_source(request.source.as_str()) {
        Ok(parts) => parts,
        Err(error) => {
            return Err(error);
        },
    };
    let alias = match aliases.take(alias_name.as_str()) {
        Ok(alias) => alias,
        Err(known) => {
            return Err(
                if request.verbose {
                    GetError::UnknownAliasAmong { alias: alias_name, config, known }
                } else {
                    GetError::UnknownAlias { alias: alias_name }
                },
            );
        },
    };
    match filename_from_key(key.as_str()) {
        Ok(_) => {},
        Err(error) => {
            return Err(error);
        },
    }
    Ok(Target { alias_name, alias, bucket, key })
}

fn make_plan<S>(request: &Request, target: Target<S>, is_dir: bool) -> (r: Result<
    Plan<S>,
    GetError,
>)
    ensures
        match r {
            Ok(plan) => planned(request@, target@, is_dir) == Ok::<_, GetErrorView>(plan@),
            Err(e) => planned(request@, target@, is_dir) == Err::<PlanView<S>, GetErrorView>(e@),
        },
{
    let destination = match resolve_destination(
        request.destination.as_ref(),
        target.key.as_str(),
        is_dir,
        request.system,
    ) {
        Ok(path) => path,
        Err(error) => {
            return Err(error);
        },
    };
    let shown = if request.stdout {
        "<stdout>".to_string()
    } else {
        destination.show(request.system)
    };
    let region = match &request.region {
        Some(region) => region.clone(),
        None => "us-east-1".to_string(),
    };
    let path_style = resolve_path_style(&target.alias);
    Ok(Plan { target, path_style, region, destination, shown })
}

fn clear<S>(request: &Request, plan: Plan<S>) -> (stage: Stage<S>)
    ensures
        stage@ == cleared(request@, plan@),
{
    match &request.ca_bundle {
        Some(bundle) => Stage::CaBundleSize { plan, bundle: bundle.copy() },
        None => Stage::Client { plan },
    }
}

fn adopt_plan<S>(request: &Request, plan: Result<Plan<S>, GetError>) -> (stage: Stage<S>)
    ensures
        stage@ == with_plan(
            request@,
            match plan {
                Ok(plan) => Ok(plan@),
                Err(e) => Err(e@),
            },
        ),
{
    match plan {
        Err(error) => Stage::Failed { error },
        Ok(plan) => if !request.stdout && !request.overwrite {
            Stage::DestinationFree { plan }
        } else {
            clear(request, plan)
        },
    }
}

fn configure<S>(request: &Request, config: FilePath, aliases: McConfig<S>) -> (stage: Stage<S>)
    ensures
        stage@ == configured(request@, config@, aliases@),
{
    match choose_target(request, config, aliases) {
        Err(error) => Stage::Failed { error },
        Ok(target) => {
            match &request.destination {
                Some(path) => if !path.ends_with_slash() {
                    return Stage::DestinationKind { target, path: path.copy() };
                },
                None => {},
            }
            adopt_plan(request, make_plan(request, target, false))
        },
    }
}

fn keep_head(reply: ObjectReply) -> (head: ObjectHead)
    ensures
        head@ == head_of(reply@),
{
    let last_modified = format_dt(reply.last_modified.as_ref());
    ObjectHead {
        etag: reply.etag,
        content_type: reply.content_type,
        length: announced_length(reply.content_length),
        last_modified,
    }
}

fn find_parent(request: &Request, path: &FilePath) -> (parent: Option<FilePath>)
    ensures
        opt_path(parent) == named_parent(request@, path@),
{
    match parent_of(path, request.system) {
        Some(parent) => if parent.is_empty() {
            None
        } else {
            Some(parent)
        },
        None => None,
    }
}

fn place<S>(request: &Request, download: Download<S>) -> (stage: Stage<S>)
    ensures
        stage@ == placed(request@, download@),
{
    match find_parent(request, &download.plan.destination) {
        Some(parent) => Stage::ParentKnown { download, parent },
        None => Stage::FileMade { download },
    }
}

fn climb<S>(request: &Request, download: Download<S>, parent: FilePath, at: FilePath) -> (stage:
    Stage<S>)
    ensures
        stage@ == climbed(request@, download@, parent@, at@),
{
    match find_parent(request, &at) {
        Some(up) => Stage::ParentLinks { download, parent, at: up },
        None => Stage::ParentMade { download, parent },
    }
}

fn undertaking_text<S>(request: &Request, stage: &Stage<S>) -> (context: Option<Option<String>>)
    ensures
        match context {
            Some(text) => undertaking(request@, stage@) == Some(crate::text::opt_text(text)),
            None => undertaking(request@, stage@) is None,
        },
{
    match stage {
        Stage::ConfigMode { config } => Some(
            Some("cannot stat ".to_string().concat(config.show(request.system).as_str())),
        ),
        Stage::ConfigSize { config } => Some(
            Some("cannot stat ".to_string().concat(config.show(request.system).as_str())),
        ),
        Stage::ConfigText { config } => Some(
            Some("failed to read ".to_string().concat(config.show(request.system).as_str())),
        ),
        Stage::ConfigValue { config } => Some(
            Some("failed to parse ".to_string().concat(config.show(request.system).as_str())),
        ),
        Stage::CaBundleSize { bundle, .. } => Some(
            Some("cannot stat CA bundle ".to_string().concat(bundle.show(request.system).as_str())),
        ),
        Stage::CaBundleText { bundle, .. } => Some(
            Some(
                "failed to read CA bundle ".to_string().concat(
                    bundle.show(request.system).as_str(),
                ),
            ),
        ),
        Stage::CaBundleTrust { .. } => Some(
            Some("failed to build TLS context from CA bundle".to_string()),
        ),
        Stage::StartNotice { .. } => Some(None),
        Stage::Object { plan } => Some(
            Some(
                if request.verbose {
                    "GetObject failed: bucket=".to_string().concat(plan.target.bucket.as_str())
                        .concat(" key=")
                        .concat(plan.target.key.as_str())
                } else {
                    "GetObject request failed".to_string()
                },
            ),
        ),
        Stage::ParentMade { parent, .. } => Some(
            Some(
                "failed to create directory ".to_string().concat(
                    parent.show(request.system).as_str(),
                ),
            ),
        ),
        Stage::FileMade { download } => Some(
            Some(
                "failed to create ".to_string().concat(
                    download.plan.destination.show(request.system).as_str(),
                ),
            ),
        ),
        Stage::Body { .. } => Some(Some("error reading object body".to_string())),
        Stage::Piece { download, .. } => Some(
            Some(
                if request.stdout {
                    "error writing to stdout".to_string()
                } else {
                    "error writing to ".to_string().concat(
                        download.plan.destination.show(request.system).as_str(),
                    )
                },
            ),
        ),
        Stage::Flush { .. } => Some(
            Some(
                if request.stdout {
                    "error flushing stdout".to_string()
                } else {
                    "error flushing output file".to_string()
                },
            ),
        ),
        Stage::Close { .. } => Some(Some("error closing output file".to_string())),
        Stage::ResultNotice { .. } => Some(None),
        Stage::CompleteNotice { .. } => Some(None),
        _ => None,
    }
}

/// Takes a download to the stage that an event leads to. The bytes of the body are counted
/// in 64 bits.
pub fn advance<S>(request: &Request, stage: Stage<S>, event: Event<S>) -> (next: Stage<S>)
    requires
        counts(stage@, event@),
    ensures
        next@ == advanced(request@, stage@, event@),
{
    match (stage, event) {
        (Stage::ConfigMode { config }, Event::Mode(mode)) => {
            match check_permissions(&config, mode) {
                Ok(_) => Stage::ConfigSize { config },
                Err(error) => Stage::Failed { error },
            }
        },
        (Stage::ConfigSize { config }, Event::Size(size)) => {
            match check_config_size(&config, size) {
                Ok(_) => Stage::ConfigText { config },
                Err(error) => Stage::Failed { error },
            }
        },
        (Stage::ConfigText { config }, Event::Done) => Stage::ConfigValue { config },
        (Stage::ConfigValue { config }, Event::Config(aliases)) => {
            configure(request, config, aliases)
        },
        (Stage::DestinationKind { target, .. }, Event::Answer(is_dir)) => {
            adopt_plan(request, make_plan(request, target, is_dir))
        },
        (Stage::DestinationFree { plan }, Event::Answer(exists)) => {
            if exists {
                Stage::Failed { error: GetError::DestinationExists { path: plan.destination } }
            } else {
                clear(request, plan)
            }
        },
        (Stage::CaBundleSize { plan, bundle }, Event::Size(size)) => {
            match check_ca_bundle_size(&bundle, size) {
                Ok(_) => Stage::CaBundleText { plan, bundle },
                Err(error) => Stage::Failed { error },
            }
        },
        (Stage::CaBundleText { plan, bundle }, Event::Done) => {
            Stage::CaBundleTrust { plan, bundle }
        },
        (Stage::CaBundleTrust { plan, bundle }, Event::Done) => {
            Stage::CaBundleNotice { plan, bundle }
        },
        (Stage::CaBundleNotice { plan, .. }, Event::Done) => Stage::Client { plan },
        (Stage::Client { plan }, Event::Done) => Stage::StartNotice { plan },
        (Stage::StartNotice { plan }, Event::Done) => Stage::Object { plan },
        (Stage::Object { plan }, Event::Object(reply)) => {
            let download = Download { plan, head: keep_head(reply) };
            if request.stdout {
                Stage::Body { download, written: 0 }
            } else {
                place(request, download)
            }
        },
        (Stage::ParentKnown { download, parent }, Event::Answer(exists)) => {
            if exists {
                Stage::FileMade { download }
            } else {
                let at = parent.copy();
                Stage::ParentLinks { download, parent, at }
            }
        },
        (Stage::ParentLinks { download, parent, at }, Event::Answer(is_link)) => {
            if is_link {
                Stage::Failed { error: GetError::DirectoryBehindLink { path: parent, link: at } }
            } else {
                climb(request, download, parent, at)
            }
        },
        (Stage::ParentMade { download, .. }, Event::Done) => Stage::FileMade { download },
        (Stage::FileMade { download }, Event::Done) => Stage::Body { download, written: 0 },
        (Stage::Body { download, written }, Event::Chunk(len)) => {
            Stage::Piece { download, total: written + len }
        },
        (Stage::Body { download, written }, Event::EndOfBody) => Stage::Flush { download, written },
        (Stage::Piece { download, total }, Event::Done) => Stage::Body { download, written: total },
        (Stage::Flush { download, written }, Event::Done) => {
            if request.stdout {
                Stage::Clock { download, written }
            } else {
                Stage::Close { download, written }
            }
        },
        (Stage::Close { download, written }, Event::Done) => Stage::Clock { download, written },
        (Stage::Clock { download, written }, Event::Elapsed(duration_ms)) => {
            if request.stdout {
                Stage::CompleteNotice { download, written, duration_ms }
            } else {
                Stage::ResultNotice { download, written, duration_ms }
            }
        },
        (Stage::ResultNotice { download, written, duration_ms }, Event::Done) => {
            Stage::CompleteNotice { download, written, duration_ms }
        },
        (Stage::CompleteNotice { download, written, .. }, Event::Done) => {
            match download.head.length {
                Some(expected) => if written != expected {
                    Stage::SizeNotice { expected, written }
                } else {
                    Stage::Finished
                },
                None => Stage::Finished,
            }
        },
        (Stage::SizeNotice { .. }, Event::Done) => Stage::Finished,
        (stage, Event::Failed(cause)) => match undertaking_text(request, &stage) {
            Some(context) => Stage::Failed { error: GetError::Outside { context, cause } },
            None => stage,
        },
        (stage, _) => stage,
    }
}

fn make_start_record<S>(request: &Request, plan: &Plan<S>) -> (record: AuditStartRecord)
    ensures
        record@ == start_record(request@, plan@),
{
    AuditStartRecord {
        event: "get_object_start",
        run_id: request.run_id.as_str().to_string(),
        alias: plan.target.alias_name.clone(),
        endpoint: plan.target.alias.url.clone(),
        bucket: plan.target.bucket.clone(),
        key: plan.target.key.clone(),
        destination: plan.shown.clone(),
        region: plan.region.clone(),
        path_style: plan.path_style,
        pq_kx: "X25519MLKEM768",
        ca_bundle: match &request.ca_bundle {
            Some(bundle) => Some(bundle.text_or_mark()),
            None => None,
        },
    }
}

fn copy_text(text: &Option<String>) -> (copy: Option<String>)
    ensures
        crate::text::opt_text(copy) == crate::text::opt_text(*text),
{
    match text {
        Some(text) => Some(text.clone()),
        None => None,
    }
}

fn make_download_record<S>(download: &Download<S>, written: u64, duration_ms: u128) -> (record:
    DownloadRecord)
    ensures
        record@ == download_record(download@, written as nat, duration_ms),
{
    DownloadRecord {
        status: "success",
        record_type: "download",
        bucket: download.plan.target.bucket.clone(),
        key: download.plan.target.key.clone(),
        destination: download.plan.shown.clone(),
        size: written,
        etag: copy_text(&download.head.etag),
        content_type: copy_text(&download.head.content_type),
        last_modified: copy_text(&download.head.last_modified),
        duration_ms,
    }
}

fn make_complete_record<S>(
    request: &Request,
    download: &Download<S>,
    written: u64,
    duration_ms: u128,
) -> (record: AuditCompleteRecord)
    ensures
        record@ == complete_record(request@, download@, written as nat, duration_ms),
{
    AuditCompleteRecord {
        event: "get_object_complete",
        run_id: request.run_id.as_str().to_string(),
        alias: download.plan.target.alias_name.clone(),
        bucket: download.plan.target.bucket.clone(),
        key: download.plan.target.key.clone(),
        destination: download.plan.shown.clone(),
        size: written,
        etag: copy_text(&download.head.etag),
        duration_ms,
        outcome: "success",
    }
}

/// What a stage wants done. The run that its records speak of is a version 7 UUID.
pub fn next_action<'a, S>(request: &'a Request, stage: &'a Stage<S>) -> (action: Action<'a, S>)
    ensures
        action@ == wanted(request@, stage@),
        is_uuid_v7(request@.run_id),
{
    proof {
        use_type_invariant(&request.run_id);
    }
    match stage {
        Stage::ConfigMode { config } => Action::ReadMode { path: config },
        Stage::ConfigSize { config } => Action::ReadSize { path: config },
        Stage::ConfigText { config } => Action::ReadConfig { path: config },
        Stage::ConfigValue { .. } => Action::ParseConfig,
        Stage::DestinationKind { path, .. } => Action::ProbeDirectory { path },
        Stage::DestinationFree { plan } => Action::ProbeExists { path: &plan.destination },
        Stage::CaBundleSize { bundle, .. } => Action::ReadSize { path: bundle },
        Stage::CaBundleText { bundle, .. } => Action::ReadCaBundle { path: bundle },
        Stage::CaBundleTrust { .. } => Action::TrustCaBundle,
        Stage::CaBundleNotice { bundle, .. } => Action::Notice {
            line: ca_bundle_line(&request.run_id, bundle, request.system),
        },
        Stage::Client { plan } => Action::OpenClient {
            settings: ClientSettings {
                endpoint: plan.target.alias.url.as_str(),
                region: plan.region.as_str(),
                path_style: plan.path_style,
                access_key: &plan.target.alias.access_key,
                secret_key: &plan.target.alias.secret_key,
                credentials_origin: "mc-config",
                connect_timeout_secs: CONNECT_TIMEOUT_SECS,
                operation_timeout_secs: OPERATION_TIMEOUT_SECS,
                attempt_timeout_secs: ATTEMPT_TIMEOUT_SECS,
            },
        },
        Stage::StartNotice { plan } => Action::EmitStart {
            record: make_start_record(request, plan),
        },
        Stage::Object { plan } => Action::GetObject {
            bucket: plan.target.bucket.as_str(),
            key: plan.target.key.as_str(),
        },
        Stage::ParentKnown { parent, .. } => Action::ProbeExists { path: parent },
        Stage::ParentLinks { at, .. } => Action::ProbeLink { path: at },
        Stage::ParentMade { parent, .. } => Action::CreateDirectories { path: parent },
        Stage::FileMade { download } => Action::CreateFile { path: &download.plan.destination },
        Stage::Body { .. } => Action::ReadChunk,
        Stage::Piece { .. } => Action::WriteChunk { to_stdout: request.stdout },
        Stage::Flush { .. } => Action::Flush { to_stdout: request.stdout },
        Stage::Close { .. } => Action::CloseFile,
        Stage::Clock { .. } => Action::ReadClock,
        Stage::ResultNotice { download, written, duration_ms } => Action::EmitResult {
            record: make_download_record(download, *written, *duration_ms),
        },
        Stage::CompleteNotice { download, written, duration_ms } => Action::EmitComplete {
            record: make_complete_record(request, download, *written, *duration_ms),
        },
        Stage::SizeNotice { expected, written } => Action::Notice {
            line: size_mismatch_line(&request.run_id, *expected, *written),
        },
        Stage::Finished => Action::Finish,
        Stage::Failed { error } => Action::Fail {
            record: ErrorRecord { status: "error", error: error.message(request.system) },
        },
    }
}

} // verus!
