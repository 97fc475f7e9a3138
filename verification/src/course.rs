//! The course of a download: what each answer leads to, and what each failure says.
use vstd::prelude::*;
use vstd::utf8::{decode_utf8, valid_utf8};

use crate::config::{
    addressed_by_path, config_location, law_lookup_finds, law_path_style, law_private_files_only,
    AliasList,
};
use crate::error::{law_messages, GetErrorView};
use crate::json::{object_text, text_member};
use crate::laws::{
    action_after, happened, in_region, lemma_just_happened, lemma_still_happened, stage_after,
};
use crate::path::{parent_path, shown};
use crate::record::ErrorRecordView;
use crate::session::{ActionView, EventView, PlanView, RequestView, StageView, TargetView};
use crate::source::{
    law_filename, law_no_destination_without_name, parsed_source, resolved_destination,
};
use crate::steps::{advanced, begun, counts, planned, wanted};
use crate::text::{debug_list, numeral};

verus! {

/// The end of a download that fails with these words.
pub open spec fn failing<S>(words: Seq<char>) -> ActionView<S> {
    ActionView::Fail { record: ErrorRecordView { status: "error"@, error: words } }
}

/// What a download wants done once an event has come of what it wanted.
pub open spec fn wanted_next<S>(
    request: RequestView,
    stage: StageView<S>,
    event: EventView<S>,
) -> ActionView<S> {
    wanted(request, advanced(request, stage, event))
}

/// A download begins with the mode of its configuration file, at the path that was given or
/// in the home directory. It is refused exactly for a source of more than 2048 characters,
/// and for want of both a path and a home directory.
pub proof fn law_beginning<S>(request: RequestView, home: Option<Seq<u8>>)
    ensures
        ({
            let first = wanted(request, begun::<S>(request, home));
            if request.source.len() > 2048 {
                first == failing::<S>(
                    "source string exceeds maximum allowed length (2048 chars)"@,
                )
            } else {
                match request.config {
                    Some(path) => first == (ActionView::<S>::ReadMode { path }),
                    None => match home {
                        Some(_) => first is ReadMode && config_location(
                            None,
                            home,
                            request.system,
                        ) == Ok::<_, GetErrorView>(first->ReadMode_path),
                        None => first == failing::<S>("cannot determine home directory"@),
                    },
                }
            }
        }),
{
    law_messages(GetErrorView::SourceTooLong, request.system);
    law_messages(GetErrorView::NoHomeDirectory, request.system);
}

/// A failure of anything that can fail ends the download at once, however far it has come,
/// and is told with what was being done and the cause. Where nothing can fail it is passed
/// over.
pub proof fn law_failures_end_it<S>(request: RequestView, stage: StageView<S>, cause: Seq<char>)
    ensures
        ({
            let next = wanted_next(request, stage, EventView::Failed(cause));
            let colon = ": "@;
            match wanted(request, stage) {
                ActionView::ReadMode { path } => next == failing::<S>(
                    "cannot stat "@ + shown(path, request.system) + colon + cause,
                ),
                ActionView::ReadSize { path } => if stage is CaBundleSize {
                    next == failing::<S>(
                        "cannot stat CA bundle "@ + shown(path, request.system) + colon + cause,
                    )
                } else {
                    next == failing::<S>(
                        "cannot stat "@ + shown(path, request.system) + colon + cause,
                    )
                },
                ActionView::ReadConfig { path } => next == failing::<S>(
                    "failed to read "@ + shown(path, request.system) + colon + cause,
                ),
                ActionView::ParseConfig => next == failing::<S>(
                    "failed to parse "@ + shown(stage->ConfigValue_config, request.system) + colon
                        + cause,
                ),
                ActionView::ReadCaBundle { path } => next == failing::<S>(
                    "failed to read CA bundle "@ + shown(path, request.system) + colon + cause,
                ),
                ActionView::TrustCaBundle => next == failing::<S>(
                    "failed to build TLS context from CA bundle"@ + colon + cause,
                ),
                ActionView::GetObject { bucket, key } => if request.verbose {
                    next == failing::<S>(
                        "GetObject failed: bucket="@ + bucket + " key="@ + key + colon + cause,
                    )
                } else {
                    next == failing::<S>("GetObject request failed"@ + colon + cause)
                },
                ActionView::CreateDirectories { path } => next == failing::<S>(
                    "failed to create directory "@ + shown(path, request.system) + colon + cause,
                ),
                ActionView::CreateFile { path } => next == failing::<S>(
                    "failed to create "@ + shown(path, request.system) + colon + cause,
                ),
                ActionView::ReadChunk => next == failing::<S>(
                    "error reading object body"@ + colon + cause,
                ),
                ActionView::WriteChunk { to_stdout } => if to_stdout {
                    next == failing::<S>("error writing to stdout"@ + colon + cause)
                } else {
                    next == failing::<S>(
                        "error writing to "@ + shown(
                            stage->Piece_download.plan.destination,
                            request.system,
                        ) + colon + cause,
                    )
                },
                ActionView::Flush { to_stdout } => if to_stdout {
                    next == failing::<S>("error flushing stdout"@ + colon + cause)
                } else {
                    next == failing::<S>("error flushing output file"@ + colon + cause)
                },
                ActionView::CloseFile => next == failing::<S>(
                    "error closing output file"@ + colon + cause,
                ),
                ActionView::EmitStart { .. } => next == failing::<S>(cause),
                ActionView::EmitResult { .. } => next == failing::<S>(cause),
                ActionView::EmitComplete { .. } => next == failing::<S>(cause),
                _ => advanced(request, stage, EventView::Failed(cause)) == stage,
            }
        }),
{
    match advanced(request, stage, EventView::<S>::Failed(cause)) {
        StageView::Failed { error } => {
            law_messages(error, request.system);
        },
        _ => {},
    }
}

/// The configuration file is measured where its mode gives nothing to the group or to
/// others, or where there are no modes, and is refused otherwise. It is read where it has at
/// most a mebibyte, and refused otherwise. What was read is parsed.
pub proof fn law_config_course<S>(
    request: RequestView,
    config: Seq<u8>,
    mode: Option<u32>,
    size: u64,
)
    ensures
        ({
            let by_mode = wanted_next(
                request,
                StageView::<S>::ConfigMode { config },
                EventView::Mode(mode),
            );
            let by_size = wanted_next(
                request,
                StageView::<S>::ConfigSize { config },
                EventView::Size(size),
            );
            &&& mode is None ==> by_mode == (ActionView::<S>::ReadSize { path: config })
            &&& mode matches Some(m) ==> if m & 0o077 == 0 {
                by_mode == (ActionView::<S>::ReadSize { path: config })
            } else {
                by_mode == failing::<S>(
                    shown(config, request.system) + " is accessible by group/others (mode "@
                        + numeral((m & 0o777) as nat, 8)
                        + "). Expected 0600. Fix with: chmod 600 "@ + shown(
                        config,
                        request.system,
                    ),
                )
            }
            &&& if size <= 1_048_576 {
                by_size == (ActionView::<S>::ReadConfig { path: config })
            } else {
                by_size == failing::<S>(
                    "config file "@ + shown(config, request.system)
                        + " exceeds maximum allowed size (1048576 bytes)"@,
                )
            }
            &&& wanted_next(request, StageView::<S>::ConfigText { config }, EventView::Done)
                == ActionView::<S>::ParseConfig
        }),
        wanted(request, StageView::<S>::ConfigMode { config }) == (ActionView::<S>::ReadMode {
            path: config,
        }),
        wanted(request, StageView::<S>::ConfigSize { config }) == (ActionView::<S>::ReadSize {
            path: config,
        }),
        wanted(request, StageView::<S>::ConfigText { config }) == (ActionView::<S>::ReadConfig {
            path: config,
        }),
        advanced(request, StageView::<S>::ConfigText { config }, EventView::Done) == (
        StageView::<S>::ConfigValue { config }),
{
    match mode {
        Some(m) => {
            law_private_files_only(config, m);
            law_messages(
                GetErrorView::ConfigAccessible { path: config, mode: m & 0o777 },
                request.system,
            );
        },
        None => {
            law_private_files_only(config, 0);
        },
    }
    law_messages(GetErrorView::ConfigTooLarge { path: config }, request.system);
}

/// A source that cannot be read is refused for what it lacks, whatever is configured, once
/// the configuration is known.
pub proof fn law_bad_sources_are_refused<S>(
    request: RequestView,
    config: Seq<u8>,
    aliases: AliasList<S>,
)
    ensures
        ({
            let next = wanted_next(
                request,
                StageView::<S>::ConfigValue { config },
                EventView::Config(aliases),
            );
            match parsed_source(request.source) {
                Err(GetErrorView::MissingAlias) => next == failing::<S>(
                    "source must start with an alias name"@,
                ),
                Err(GetErrorView::MissingBucket) => next == failing::<S>(
                    "source must include a bucket name (alias/bucket/key)"@,
                ),
                Err(GetErrorView::MissingKey) => next == failing::<S>(
                    "source must include an object key (alias/bucket/key)"@,
                ),
                Err(_) => false,
                Ok(_) => true,
            }
        }),
{
    law_messages(GetErrorView::MissingAlias, request.system);
    law_messages(GetErrorView::MissingBucket, request.system);
    law_messages(GetErrorView::MissingKey, request.system);
}

/// An alias that no entry of the configuration bears is refused, in few words or, where the
/// user asked for more, with the file and all the names in it.
pub proof fn law_unknown_aliases_are_refused<S>(
    request: RequestView,
    config: Seq<u8>,
    aliases: AliasList<S>,
    known: Seq<Seq<char>>,
)
    requires
        parsed_source(request.source) is Ok,
        known.len() == aliases.len(),
        forall|i: int| 0 <= i < aliases.len() ==> #[trigger] known[i] == aliases[i].0,
        forall|i: int|
            0 <= i < aliases.len() ==> (#[trigger] aliases[i]).0 != parsed_source(
                request.source,
            )->Ok_0.0,
    ensures
        ({
            let alias = parsed_source(request.source)->Ok_0.0;
            let next = wanted_next(
                request,
                StageView::<S>::ConfigValue { config },
                EventView::Config(aliases),
            );
            if request.verbose {
                next == failing::<S>(
                    "alias '"@ + alias + "' not found in "@ + shown(config, request.system)
                        + "  (known aliases: "@ + debug_list(known) + ")"@,
                )
            } else {
                next == failing::<S>("alias '"@ + alias + "' not found in config"@)
            }
        }),
{
    let alias = parsed_source(request.source)->Ok_0.0;
    assert(crate::config::names_of(aliases) =~= known);
    law_messages(
        GetErrorView::UnknownAliasAmong { alias, config, known },
        request.system,
    );
    law_messages(GetErrorView::UnknownAlias { alias }, request.system);
}

/// What comes once the destination is known: unless it may be replaced or nothing is written
/// to it, the question whether it exists. Then the CA bundle, where one was given, and the
/// client.
pub open spec fn goes_on<S>(
    request: RequestView,
    destination: Seq<u8>,
    next: ActionView<S>,
) -> bool {
    if !request.stdout && !request.overwrite {
        next == (ActionView::<S>::ProbeExists { path: destination })
    } else {
        goes_to_client(request, next)
    }
}

/// What comes once the destination is free: the CA bundle, where one was given, and
/// otherwise the client.
pub open spec fn goes_to_client<S>(request: RequestView, next: ActionView<S>) -> bool {
    match request.ca_bundle {
        Some(bundle) => next == (ActionView::<S>::ReadSize { path: bundle }),
        None => next is OpenClient,
    }
}

/// With its alias configured, an object whose key has a file name is on its way: the disk is
/// asked about a destination that does not end with a slash, and otherwise the destination
/// is known. One whose key has none is refused.
pub proof fn law_known_aliases_go_on<S>(
    request: RequestView,
    config: Seq<u8>,
    aliases: AliasList<S>,
    i: int,
)
    requires
        parsed_source(request.source) is Ok,
        forall|a: int, b: int|
            0 <= a < b < aliases.len() ==> (#[trigger] aliases[a]).0 != (#[trigger] aliases[b]).0,
        0 <= i < aliases.len(),
        aliases[i].0 == parsed_source(request.source)->Ok_0.0,
    ensures
        ({
            let (alias_name, bucket, key) = parsed_source(request.source)->Ok_0;
            let stage = advanced(
                request,
                StageView::<S>::ConfigValue { config },
                EventView::Config(aliases),
            );
            let next = wanted(request, stage);
            if key.len() == 0 || key.last() == '/' {
                next == failing::<S>("cannot derive filename from object key"@)
            } else {
                match request.destination {
                    Some(path) if !(path.len() > 0 && path.last() == 0x2f) => {
                        &&& next == (ActionView::<S>::ProbeDirectory { path })
                        &&& stage is DestinationKind
                        &&& stage->target.alias_name == alias_name
                        &&& stage->target.alias == aliases[i].1
                        &&& stage->target.bucket == bucket
                        &&& stage->target.key == key
                    },
                    _ => {
                        let resolved = resolved_destination(
                            request.destination,
                            key,
                            false,
                            request.system,
                        );
                        resolved is Ok && goes_on(request, resolved->Ok_0, next)
                    },
                }
            }
        }),
{
    let (alias_name, bucket, key) = parsed_source(request.source)->Ok_0;
    law_lookup_finds(aliases, alias_name);
    law_filename(key);
    law_no_destination_without_name(request.destination, key, false, request.system);
    law_messages(GetErrorView::NoFilename, request.system);
}

/// What the disk says of the destination decides where the object goes.
pub proof fn law_directory_answers<S>(
    request: RequestView,
    stage: StageView<S>,
    is_dir: bool,
)
    requires
        wanted(request, stage) is ProbeDirectory,
    ensures
        ({
            let key = stage->target.key;
            let next = wanted_next(request, stage, EventView::Answer(is_dir));
            let resolved = resolved_destination(request.destination, key, is_dir, request.system);
            if key.len() == 0 || key.last() == '/' {
                next == failing::<S>("cannot derive filename from object key"@)
            } else {
                resolved is Ok && goes_on(request, resolved->Ok_0, next)
            }
        }),
{
    let key = stage->target.key;
    law_no_destination_without_name(request.destination, key, is_dir, request.system);
    law_messages(GetErrorView::NoFilename, request.system);
}

/// A destination that exists is refused, and one that does not lets the download go on.
pub proof fn law_existence_answers<S>(
    request: RequestView,
    plan: PlanView<S>,
    exists_there: bool,
)
    ensures
        ({
            let stage = StageView::<S>::DestinationFree { plan };
            let next = wanted_next(request, stage, EventView::Answer(exists_there));
            &&& wanted(request, stage) == (ActionView::<S>::ProbeExists {
                path: plan.destination,
            })
            &&& if exists_there {
                next == failing::<S>(
                    "destination "@ + shown(plan.destination, request.system)
                        + " already exists. Use --overwrite to replace."@,
                )
            } else {
                goes_to_client(request, next)
            }
        }),
{
    law_messages(GetErrorView::DestinationExists { path: plan.destination }, request.system);
}

/// A CA bundle is read where it has at most ten mebibytes, and refused otherwise. What was
/// read is trusted, then announced, and then the client is made.
pub proof fn law_bundle_course<S>(
    request: RequestView,
    plan: PlanView<S>,
    bundle: Seq<u8>,
    size: u64,
)
    ensures
        ({
            let measured = StageView::<S>::CaBundleSize { plan, bundle };
            let by_size = wanted_next(request, measured, EventView::Size(size));
            let read = StageView::<S>::CaBundleText { plan, bundle };
            let trusted = advanced(request, read, EventView::Done);
            let told = advanced(request, trusted, EventView::Done);
            &&& wanted(request, measured) == (ActionView::<S>::ReadSize { path: bundle })
            &&& if size <= 10_485_760 {
                by_size == (ActionView::<S>::ReadCaBundle { path: bundle }) && advanced(
                    request,
                    measured,
                    EventView::Size(size),
                ) == read
            } else {
                by_size == failing::<S>(
                    "CA bundle "@ + shown(bundle, request.system)
                        + " exceeds maximum allowed size (10485760 bytes)"@,
                )
            }
            &&& wanted(request, trusted) == ActionView::<S>::TrustCaBundle
            &&& wanted(request, told) == (ActionView::<S>::Notice {
                line: object_text(
                    seq![
                        text_member("event"@, "ca_bundle_loaded"@),
                        text_member("run_id"@, request.run_id),
                        text_member("path"@, shown(bundle, request.system)),
                    ],
                ),
            })
            &&& advanced(request, told, EventView::Done) == (StageView::<S>::Client { plan })
        }),
{
    law_messages(GetErrorView::CaBundleTooLarge { path: bundle }, request.system);
}

/// The client is made for the plan, then the start is told, and then the object of the plan
/// is requested.
pub proof fn law_request_course<S>(request: RequestView, plan: PlanView<S>)
    ensures
        ({
            let client = StageView::<S>::Client { plan };
            let start = advanced(request, client, EventView::Done);
            let object = advanced(request, start, EventView::Done);
            &&& wanted(request, client) is OpenClient
            &&& wanted(request, client)->settings.endpoint == plan.target.alias.url
            &&& wanted(request, client)->settings.region == plan.region
            &&& wanted(request, client)->settings.path_style == plan.path_style
            &&& wanted(request, client)->settings.access_key == plan.target.alias.access_key
            &&& wanted(request, client)->settings.secret_key == plan.target.alias.secret_key
            &&& wanted(request, start) is EmitStart
            &&& wanted(request, object) == (ActionView::<S>::GetObject {
                bucket: plan.target.bucket,
                key: plan.target.key,
            })
            &&& object == (StageView::<S>::Object { plan })
        }),
{
}

/// The start is told with the run, the store, the object, the destination, the region and
/// the style of the plan, and with the CA bundle as far as its path is text.
pub proof fn law_start_is_told_in_full<S>(request: RequestView, stage: StageView<S>)
    requires
        wanted(request, stage) is EmitStart,
    ensures
        ({
            let record = wanted(request, stage)->EmitStart_record;
            let plan = stage->StartNotice_plan;
            &&& record.event == "get_object_start"@
            &&& record.run_id == request.run_id
            &&& record.alias == plan.target.alias_name
            &&& record.endpoint == plan.target.alias.url
            &&& record.bucket == plan.target.bucket
            &&& record.key == plan.target.key
            &&& record.destination == plan.shown
            &&& record.region == plan.region
            &&& record.path_style == plan.path_style
            &&& record.pq_kx == "X25519MLKEM768"@
            &&& request.ca_bundle is None ==> record.ca_bundle is None
            &&& request.ca_bundle matches Some(bundle) ==> record.ca_bundle == Some(
                if valid_utf8(bundle) {
                    decode_utf8(bundle)
                } else {
                    "?"@
                },
            )
        }),
{
}

/// With the object at hand the body is read at once where it goes to standard output. Where
/// it goes to a file, the directory that the file lies in is asked for, if it has a name,
/// and otherwise the file is created.
pub proof fn law_object_course<S>(
    request: RequestView,
    stage: StageView<S>,
    event: EventView<S>,
)
    requires
        wanted(request, stage) is GetObject,
        event is Object,
    ensures
        ({
            let destination = stage->Object_plan.destination;
            let next = wanted_next(request, stage, event);
            let parent = parent_path(destination, request.system);
            if request.stdout {
                next == ActionView::<S>::ReadChunk
            } else if parent is Some && parent->0.len() > 0 {
                next == (ActionView::<S>::ProbeExists { path: parent->0 })
            } else {
                next == (ActionView::<S>::CreateFile { path: destination })
            }
        }),
{
}

/// The file is created where its directory is there. A missing directory is climbed from,
/// path by path, as long as no symbolic link is met. A link is refused, and a way without
/// one lets the directory be made, and then the file.
pub proof fn law_directory_course<S>(request: RequestView, stage: StageView<S>, answer: bool)
    requires
        stage is ParentKnown || stage is ParentLinks || stage is ParentMade || stage is FileMade,
    ensures
        match stage {
            StageView::ParentKnown { download, parent } => {
                let next = wanted_next(request, stage, EventView::Answer(answer));
                &&& wanted(request, stage) == (ActionView::<S>::ProbeExists { path: parent })
                &&& if answer {
                    next == (ActionView::<S>::CreateFile { path: download.plan.destination })
                } else {
                    next == (ActionView::<S>::ProbeLink { path: parent })
                }
            },
            StageView::ParentLinks { download, parent, at } => {
                let next = wanted_next(request, stage, EventView::Answer(answer));
                let up = parent_path(at, request.system);
                &&& wanted(request, stage) == (ActionView::<S>::ProbeLink { path: at })
                &&& if answer {
                    next == failing::<S>(
                        "failed to create directory "@ + shown(parent, request.system) + ": "@
                            + shown(at, request.system) + " is a symbolic link"@,
                    )
                } else if up is Some && up->0.len() > 0 {
                    next == (ActionView::<S>::ProbeLink { path: up->0 })
                } else {
                    next == (ActionView::<S>::CreateDirectories { path: parent })
                }
            },
            StageView::ParentMade { download, parent } => {
                &&& wanted(request, stage) == (ActionView::<S>::CreateDirectories { path: parent })
                &&& wanted_next(request, stage, EventView::Done) == (ActionView::<S>::CreateFile {
                    path: download.plan.destination,
                })
            },
            StageView::FileMade { download } => {
                &&& wanted(request, stage) == (ActionView::<S>::CreateFile {
                    path: download.plan.destination,
                })
                &&& wanted_next(request, stage, EventView::Done) == ActionView::<S>::ReadChunk
            },
            _ => true,
        },
{
    match stage {
        StageView::ParentLinks { parent, at, .. } => {
            law_messages(
                GetErrorView::DirectoryBehindLink { path: parent, link: at },
                request.system,
            );
        },
        _ => {},
    }
}

/// The body goes piece by piece to where it belongs: each piece is written, its bytes are
/// counted, and another is asked for. At the end it is flushed, closed where it went to a
/// file, and the clock is read.
pub proof fn law_body_course<S>(request: RequestView, stage: StageView<S>, len: nat)
    ensures
        match stage {
            StageView::Body { download, written } => {
                let piece = advanced(request, stage, EventView::Chunk(len));
                &&& wanted(request, stage) == ActionView::<S>::ReadChunk
                &&& wanted(request, piece) == (ActionView::<S>::WriteChunk {
                    to_stdout: request.stdout,
                })
                &&& advanced(request, piece, EventView::Done) == (StageView::<S>::Body {
                    download,
                    written: written + len,
                })
                &&& wanted_next(request, stage, EventView::EndOfBody) == (ActionView::<S>::Flush {
                    to_stdout: request.stdout,
                })
                &&& advanced(request, stage, EventView::EndOfBody) == (StageView::<S>::Flush {
                    download,
                    written,
                })
            },
            StageView::Flush { download, written } => advanced(request, stage, EventView::Done)
                == if request.stdout {
                StageView::<S>::Clock { download, written }
            } else {
                StageView::<S>::Close { download, written }
            },
            StageView::Close { download, written } => {
                &&& wanted(request, stage) == ActionView::<S>::CloseFile
                &&& advanced(request, stage, EventView::Done) == (StageView::<S>::Clock {
                    download,
                    written,
                })
            },
            StageView::Clock { .. } => wanted(request, stage) == ActionView::<S>::ReadClock,
            _ => true,
        },
{
}

/// Whether there is room for the bytes of a piece: their number and that of the bytes so far
/// fit in 64 bits. Nothing else is asked of an event.
pub proof fn law_counts<S>(stage: StageView<S>, event: EventView<S>)
    ensures
        counts(stage, event) <==> !(stage is Body && event is Chunk && stage->Body_written
            + event->Chunk_0 > 18_446_744_073_709_551_615),
{
}

/// Behind the clock comes the result, unless the object went to standard output, and then
/// the completion, both with the milliseconds that the clock told.
pub proof fn law_report_course<S>(request: RequestView, stage: StageView<S>, ms: u128)
    requires
        wanted(request, stage) is ReadClock,
    ensures
        ({
            let first = advanced(request, stage, EventView::Elapsed(ms));
            let download = stage->Clock_download;
            let written = stage->Clock_written;
            let last = if request.stdout {
                first
            } else {
                advanced(request, first, EventView::Done)
            };
            let result = wanted(request, first)->EmitResult_record;
            let complete = wanted(request, last)->EmitComplete_record;
            &&& !request.stdout ==> {
                &&& wanted(request, first) is EmitResult
                &&& result.status == "success"@
                &&& result.record_type == "download"@
                &&& result.bucket == download.plan.target.bucket
                &&& result.key == download.plan.target.key
                &&& result.destination == download.plan.shown
                &&& result.size == written
                &&& result.etag == download.head.etag
                &&& result.content_type == download.head.content_type
                &&& result.last_modified == download.head.last_modified
                &&& result.duration_ms == ms
            }
            &&& wanted(request, last) is EmitComplete
            &&& complete.event == "get_object_complete"@
            &&& complete.run_id == request.run_id
            &&& complete.alias == download.plan.target.alias_name
            &&& complete.bucket == download.plan.target.bucket
            &&& complete.key == download.plan.target.key
            &&& complete.destination == download.plan.shown
            &&& complete.size == written
            &&& complete.etag == download.head.etag
            &&& complete.duration_ms == ms
            &&& complete.outcome == "success"@
        }),
{
}

proof fn lemma_duration<S>(request: RequestView, home: Option<Seq<u8>>, events: Seq<EventView<S>>)
    ensures
        ({
            let stage = stage_after(request, home, events);
            let ms = if stage is ResultNotice {
                stage->ResultNotice_duration_ms
            } else {
                stage->CompleteNotice_duration_ms
            };
            stage is ResultNotice || stage is CompleteNotice ==> happened(
                request,
                home,
                events,
                ActionView::<S>::ReadClock,
                EventView::<S>::Elapsed(ms),
            )
        }),
    decreases events.len(),
{
    if events.len() > 0 {
        let before = events.drop_last();
        let stage = stage_after(request, home, before);
        lemma_duration(request, home, before);
        lemma_just_happened(request, home, events);
        match stage {
            StageView::ResultNotice { duration_ms, .. } => {
                lemma_still_happened(
                    request,
                    home,
                    events,
                    ActionView::<S>::ReadClock,
                    EventView::<S>::Elapsed(duration_ms),
                );
            },
            StageView::CompleteNotice { duration_ms, .. } => {
                lemma_still_happened(
                    request,
                    home,
                    events,
                    ActionView::<S>::ReadClock,
                    EventView::<S>::Elapsed(duration_ms),
                );
            },
            _ => {},
        }
    }
}

/// The duration in the result and in the completion is the number of milliseconds that the
/// clock told.
pub proof fn law_duration_is_the_clock<S>(
    request: RequestView,
    home: Option<Seq<u8>>,
    events: Seq<EventView<S>>,
)
    ensures
        action_after(request, home, events) matches ActionView::EmitResult { record } ==> happened(
            request,
            home,
            events,
            ActionView::<S>::ReadClock,
            EventView::<S>::Elapsed(record.duration_ms),
        ),
        action_after(request, home, events) matches ActionView::EmitComplete { record }
            ==> happened(
            request,
            home,
            events,
            ActionView::<S>::ReadClock,
            EventView::<S>::Elapsed(record.duration_ms),
        ),
{
    lemma_duration(request, home, events);
}

/// A plan holds its target, the region that the user asked for, the style of the alias, and
/// the destination as it resolves and as it is shown.
pub proof fn law_plans<S>(request: RequestView, target: TargetView<S>, is_dir: bool)
    ensures
        ({
            let plan = planned(request, target, is_dir);
            let resolved = resolved_destination(
                request.destination,
                target.key,
                is_dir,
                request.system,
            );
            &&& plan is Ok <==> resolved is Ok
            &&& plan is Ok ==> {
                &&& plan->Ok_0.target == target
                &&& in_region(request, plan->Ok_0.region)
                &&& addressed_by_path(target.alias.url, target.alias.path, plan->Ok_0.path_style)
                &&& plan->Ok_0.destination == resolved->Ok_0
                &&& plan->Ok_0.shown == if request.stdout {
                    "<stdout>"@
                } else {
                    shown(resolved->Ok_0, request.system)
                }
            }
        }),
{
    law_path_style(target.alias.url, target.alias.path);
}

} // verus!
