//! What holds of every download, whatever the world outside answers.
use vstd::prelude::*;

use crate::config::{
    addressed_by_path, config_location, law_path_style, lookup, open_to_others, AliasList,
};
use crate::error::{GetErrorView, MAX_CA_BUNDLE_SIZE, MAX_CONFIG_SIZE};
use crate::json::{
    is_object, law_objects_are_one_line, number_member, object_text, object_with, one_line,
    text_member,
};
use crate::outside::{is_uuid_v7, rfc3339_text};
use crate::path::{law_parent_is_shorter, law_upward, shown, upward};
use crate::record::{
    ca_bundle_members, ca_bundle_notice, complete_members, error_members, size_members,
    start_members, AuditCompleteRecordView, AuditStartRecordView, DownloadRecordView,
    ErrorRecordView,
};
use crate::session::{
    ActionView, ClientSettingsView, EventView, ObjectHeadView, ObjectReplyView, PlanView,
    RequestView, StageView, TargetView,
};
use crate::source::{parsed_source, resolved_destination};
use crate::steps::{
    advanced, begun, complete_record, configured, download_record, head_of, kind_in_doubt,
    named_parent, planned, start_record, targeted, undertaking, wanted,
};

verus! {

/// The stage that a download has come to behind these events.
pub open spec fn stage_after<S>(
    request: RequestView,
    home: Option<Seq<u8>>,
    events: Seq<EventView<S>>,
) -> StageView<S>
    decreases events.len(),
{
    if events.len() == 0 {
        begun(request, home)
    } else {
        advanced(request, stage_after(request, home, events.drop_last()), events.last())
    }
}

/// What a download wants done behind these events.
pub open spec fn action_after<S>(
    request: RequestView,
    home: Option<Seq<u8>>,
    events: Seq<EventView<S>>,
) -> ActionView<S> {
    wanted(request, stage_after(request, home, events))
}

/// Whether the event at `i` was what came of `action`.
pub open spec fn came_of<S>(
    request: RequestView,
    home: Option<Seq<u8>>,
    events: Seq<EventView<S>>,
    i: int,
    action: ActionView<S>,
) -> bool {
    0 <= i < events.len() && action_after(request, home, events.take(i)) == action
}

/// Whether `event` came of `action` at some time.
#[verifier::opaque]
pub open spec fn happened<S>(
    request: RequestView,
    home: Option<Seq<u8>>,
    events: Seq<EventView<S>>,
    action: ActionView<S>,
    event: EventView<S>,
) -> bool {
    exists|i: int| #[trigger] came_of(request, home, events, i, action) && events[i] == event
}

/// How many bytes of the body have come and been asked for.
pub open spec fn received<S>(
    request: RequestView,
    home: Option<Seq<u8>>,
    events: Seq<EventView<S>>,
) -> nat
    decreases events.len(),
{
    if events.len() == 0 {
        0
    } else {
        let before = received(request, home, events.drop_last());
        match events.last() {
            EventView::Chunk(len) => if action_after(request, home, events.drop_last())
                == ActionView::<S>::ReadChunk {
                before + len
            } else {
                before
            },
            _ => before,
        }
    }
}

/// The order of the stages. A failed download has no place in it.
spec fn rank<S>(stage: StageView<S>) -> int {
    match stage {
        StageView::ConfigMode { .. } => 0,
        StageView::ConfigSize { .. } => 1,
        StageView::ConfigText { .. } => 2,
        StageView::ConfigValue { .. } => 3,
        StageView::DestinationKind { .. } => 4,
        StageView::DestinationFree { .. } => 5,
        StageView::CaBundleSize { .. } => 6,
        StageView::CaBundleText { .. } => 7,
        StageView::CaBundleTrust { .. } => 8,
        StageView::CaBundleNotice { .. } => 9,
        StageView::Client { .. } => 10,
        StageView::StartNotice { .. } => 11,
        StageView::Object { .. } => 12,
        StageView::ParentKnown { .. } => 13,
        StageView::ParentLinks { .. } => 14,
        StageView::ParentMade { .. } => 15,
        StageView::FileMade { .. } => 16,
        StageView::Body { .. } => 17,
        StageView::Piece { .. } => 17,
        StageView::Flush { .. } => 18,
        StageView::Close { .. } => 19,
        StageView::Clock { .. } => 20,
        StageView::ResultNotice { .. } => 21,
        StageView::CompleteNotice { .. } => 22,
        StageView::SizeNotice { .. } => 23,
        StageView::Finished => 24,
        StageView::Failed { .. } => -1,
    }
}

/// The plan that a stage carries.
spec fn plan_of<S>(stage: StageView<S>) -> Option<PlanView<S>> {
    match stage {
        StageView::DestinationFree { plan } => Some(plan),
        StageView::CaBundleSize { plan, .. } => Some(plan),
        StageView::CaBundleText { plan, .. } => Some(plan),
        StageView::CaBundleTrust { plan, .. } => Some(plan),
        StageView::CaBundleNotice { plan, .. } => Some(plan),
        StageView::Client { plan } => Some(plan),
        StageView::StartNotice { plan } => Some(plan),
        StageView::Object { plan } => Some(plan),
        StageView::ParentLinks { download, .. } => Some(download.plan),
        StageView::ParentKnown { download, .. } => Some(download.plan),
        StageView::ParentMade { download, .. } => Some(download.plan),
        StageView::FileMade { download } => Some(download.plan),
        StageView::Body { download, .. } => Some(download.plan),
        StageView::Piece { download, .. } => Some(download.plan),
        StageView::Flush { download, .. } => Some(download.plan),
        StageView::Close { download, .. } => Some(download.plan),
        StageView::Clock { download, .. } => Some(download.plan),
        StageView::ResultNotice { download, .. } => Some(download.plan),
        StageView::CompleteNotice { download, .. } => Some(download.plan),
        _ => None,
    }
}

pub(crate) proof fn lemma_still_happened<S>(
    request: RequestView,
    home: Option<Seq<u8>>,
    events: Seq<EventView<S>>,
    action: ActionView<S>,
    event: EventView<S>,
)
    requires
        events.len() > 0,
        happened(request, home, events.drop_last(), action, event),
    ensures
        happened(request, home, events, action, event),
{
    reveal(happened);
    let before = events.drop_last();
    let i = choose|i: int| #[trigger]
        came_of(request, home, before, i, action) && before[i] == event;
    assert(before.take(i) =~= events.take(i));
    assert(came_of(request, home, events, i, action));
}

pub(crate) proof fn lemma_just_happened<S>(
    request: RequestView,
    home: Option<Seq<u8>>,
    events: Seq<EventView<S>>,
)
    requires
        events.len() > 0,
    ensures
        happened(
            request,
            home,
            events,
            action_after(request, home, events.drop_last()),
            events.last(),
        ),
{
    reveal(happened);
    let n = events.len() - 1;
    assert(events.take(n) =~= events.drop_last());
    assert(came_of(request, home, events, n, action_after(request, home, events.drop_last())));
}

/// Whether the configuration file was found to be private, and small enough.
pub open spec fn config_vetted<S>(
    request: RequestView,
    home: Option<Seq<u8>>,
    events: Seq<EventView<S>>,
    config: Seq<u8>,
) -> bool {
    &&& config_location(request.config, home, request.system) == Ok::<_, GetErrorView>(config)
    &&& exists|mode: Option<u32>|
        (mode matches Some(m) ==> m % 0o100 == 0) && #[trigger] happened(
            request,
            home,
            events,
            ActionView::ReadMode { path: config },
            EventView::Mode(mode),
        )
    &&& exists|size: u64|
        size <= 1_048_576 && #[trigger] happened(
            request,
            home,
            events,
            ActionView::ReadSize { path: config },
            EventView::Size(size),
        )
}

spec fn mode_vetted<S>(
    request: RequestView,
    home: Option<Seq<u8>>,
    events: Seq<EventView<S>>,
    config: Seq<u8>,
) -> bool {
    exists|mode: Option<u32>|
        !(mode matches Some(m) && open_to_others(m)) && #[trigger] happened(
            request,
            home,
            events,
            ActionView::ReadMode { path: config },
            EventView::Mode(mode),
        )
}

spec fn size_vetted<S>(
    request: RequestView,
    home: Option<Seq<u8>>,
    events: Seq<EventView<S>>,
    config: Seq<u8>,
) -> bool {
    exists|size: u64|
        size <= MAX_CONFIG_SIZE && #[trigger] happened(
            request,
            home,
            events,
            ActionView::ReadSize { path: config },
            EventView::Size(size),
        )
}

proof fn lemma_config_stages<S>(
    request: RequestView,
    home: Option<Seq<u8>>,
    events: Seq<EventView<S>>,
)
    ensures
        ({
            let stage = stage_after(request, home, events);
            let place = config_location(request.config, home, request.system);
            &&& rank(stage) >= 0 ==> place is Ok
            &&& rank(stage) >= 1 ==> mode_vetted(request, home, events, place->Ok_0)
            &&& rank(stage) >= 2 ==> size_vetted(request, home, events, place->Ok_0)
            &&& stage matches StageView::ConfigMode { config } ==> config == place->Ok_0
            &&& stage matches StageView::ConfigSize { config } ==> config == place->Ok_0
            &&& stage matches StageView::ConfigText { config } ==> config == place->Ok_0
            &&& stage matches StageView::ConfigValue { config } ==> config == place->Ok_0
        }),
    decreases events.len(),
{
    if events.len() > 0 {
        let before = events.drop_last();
        let stage = stage_after(request, home, before);
        let config = config_location(request.config, home, request.system)->Ok_0;
        lemma_config_stages(request, home, before);
        lemma_just_happened(request, home, events);
        match (stage, events.last()) {
            (StageView::ConfigMode { .. }, EventView::Mode(mode)) => {
                assert(happened(
                    request,
                    home,
                    events,
                    ActionView::<S>::ReadMode { path: config },
                    EventView::<S>::Mode(mode),
                ));
            },
            (StageView::ConfigSize { .. }, EventView::Size(size)) => {
                assert(happened(
                    request,
                    home,
                    events,
                    ActionView::<S>::ReadSize { path: config },
                    EventView::<S>::Size(size),
                ));
            },
            _ => {},
        }
        if rank(stage) >= 1 {
            let mode = choose|mode: Option<u32>|
                !(mode matches Some(m) && open_to_others(m)) && #[trigger] happened(
                    request,
                    home,
                    before,
                    ActionView::<S>::ReadMode { path: config },
                    EventView::<S>::Mode(mode),
                );
            lemma_still_happened(
                request,
                home,
                events,
                ActionView::<S>::ReadMode { path: config },
                EventView::<S>::Mode(mode),
            );
        }
        if rank(stage) >= 2 {
            let size = choose|size: u64|
                size <= MAX_CONFIG_SIZE && #[trigger] happened(
                    request,
                    home,
                    before,
                    ActionView::<S>::ReadSize { path: config },
                    EventView::<S>::Size(size),
                );
            lemma_still_happened(
                request,
                home,
                events,
                ActionView::<S>::ReadSize { path: config },
                EventView::<S>::Size(size),
            );
        }
    }
}

/// A configuration file is read only behind its mode, which gives nothing to the group or
/// to others, and its size, which is within the limit.
pub proof fn law_config_vetted_before_read<S>(
    request: RequestView,
    home: Option<Seq<u8>>,
    events: Seq<EventView<S>>,
    path: Seq<u8>,
)
    requires
        action_after(request, home, events) == (ActionView::<S>::ReadConfig { path }),
    ensures
        config_vetted(request, home, events, path),
{
    lemma_config_stages(request, home, events);
}

/// No object is requested without such a configuration file.
pub proof fn law_config_vetted_before_request<S>(
    request: RequestView,
    home: Option<Seq<u8>>,
    events: Seq<EventView<S>>,
    bucket: Seq<char>,
    key: Seq<char>,
)
    requires
        action_after(request, home, events) == (ActionView::<S>::GetObject { bucket, key }),
    ensures
        exists|config: Seq<u8>| config_vetted(request, home, events, config),
{
    lemma_config_stages(request, home, events);
    let config = config_location(request.config, home, request.system)->Ok_0;
    assert(config_vetted(request, home, events, config));
}

/// A source that is too long fails at once: nothing at all is done for it.
pub proof fn law_long_source_refused<S>(
    request: RequestView,
    home: Option<Seq<u8>>,
    events: Seq<EventView<S>>,
)
    requires
        request.source.len() > 2048,
    ensures
        stage_after(request, home, events) == (StageView::<S>::Failed {
            error: GetErrorView::SourceTooLong,
        }),
    decreases events.len(),
{
    if events.len() > 0 {
        law_long_source_refused(request, home, events.drop_last());
    }
}

/// A download that has failed or finished stays so.
pub proof fn law_ends_are_final<S>(
    request: RequestView,
    stage: StageView<S>,
    event: EventView<S>,
)
    requires
        stage is Failed || stage is Finished,
    ensures
        advanced(request, stage, event) == stage,
{
}

proof fn lemma_destination_cleared<S>(
    request: RequestView,
    home: Option<Seq<u8>>,
    events: Seq<EventView<S>>,
)
    requires
        !request.stdout,
        !request.overwrite,
    ensures
        ({
            let stage = stage_after(request, home, events);
            rank(stage) >= 6 && plan_of(stage) is Some ==> happened(
                request,
                home,
                events,
                ActionView::ProbeExists { path: plan_of(stage)->0.destination },
                EventView::Answer(false),
            )
        }),
    decreases events.len(),
{
    if events.len() > 0 {
        let before = events.drop_last();
        let stage = stage_after(request, home, before);
        lemma_destination_cleared(request, home, before);
        lemma_just_happened(request, home, events);
        if rank(stage) >= 6 && plan_of(stage) is Some {
            lemma_still_happened(
                request,
                home,
                events,
                ActionView::<S>::ProbeExists { path: plan_of(stage)->0.destination },
                EventView::<S>::Answer(false),
            );
        }
    }
}

/// No file is created where one was, unless the user asked for it: the destination was
/// found not to exist.
pub proof fn law_no_unasked_overwrite<S>(
    request: RequestView,
    home: Option<Seq<u8>>,
    events: Seq<EventView<S>>,
    path: Seq<u8>,
)
    requires
        !request.overwrite,
        action_after(request, home, events) == (ActionView::<S>::CreateFile { path }),
    ensures
        happened(
            request,
            home,
            events,
            ActionView::ProbeExists { path },
            EventView::Answer(false),
        ),
{
    lemma_stdout_stages(request, home, events);
    lemma_destination_cleared(request, home, events);
}

/// An existing destination is refused: the download fails with it and stays failed,
/// whatever comes.
pub proof fn law_existing_destination_refused<S>(
    request: RequestView,
    home: Option<Seq<u8>>,
    events: Seq<EventView<S>>,
    plan: PlanView<S>,
    later: Seq<EventView<S>>,
)
    requires
        stage_after(request, home, events) == (StageView::DestinationFree { plan }),
    ensures
        stage_after(request, home, events.push(EventView::Answer(true)) + later) == (StageView::<
            S,
        >::Failed { error: GetErrorView::DestinationExists { path: plan.destination } }),
    decreases later.len(),
{
    let refused = events.push(EventView::Answer(true));
    if later.len() == 0 {
        assert(refused + later =~= refused);
        assert(refused.drop_last() =~= events);
    } else {
        law_existing_destination_refused(request, home, events, plan, later.drop_last());
        assert((refused + later).drop_last() =~= refused + later.drop_last());
    }
}

/// Unless the object goes to standard output or the user asked for replacement, nothing is
/// requested before the destination was found not to exist.
pub proof fn law_destination_free_before_request<S>(
    request: RequestView,
    home: Option<Seq<u8>>,
    events: Seq<EventView<S>>,
)
    requires
        !request.stdout,
        !request.overwrite,
        action_after(request, home, events) is GetObject,
    ensures
        exists|is_dir: bool|
            #[trigger] kind_known(request, home, events, is_dir) && happened(
                request,
                home,
                events,
                ActionView::ProbeExists {
                    path: resolved_destination(
                        request.destination,
                        parsed_source(request.source)->Ok_0.2,
                        is_dir,
                        request.system,
                    )->Ok_0,
                },
                EventView::Answer(false),
            ),
{
    lemma_destination_cleared(request, home, events);
    lemma_target(request, home, events);
    lemma_plan(request, home, events);
}

proof fn lemma_stdout_stages<S>(
    request: RequestView,
    home: Option<Seq<u8>>,
    events: Seq<EventView<S>>,
)
    ensures
        ({
            let stage = stage_after(request, home, events);
            request.stdout ==> !(stage is DestinationFree || stage is ParentLinks
                || stage is ParentKnown || stage is ParentMade || stage is FileMade
                || stage is Close || stage is ResultNotice)
        }),
    decreases events.len(),
{
    if events.len() > 0 {
        lemma_stdout_stages(request, home, events.drop_last());
    }
}

/// With the object on standard output no file or directory is made, the result record is
/// not printed, and every piece goes to standard output. Without, no piece goes there.
pub proof fn law_output_is_not_mixed<S>(
    request: RequestView,
    home: Option<Seq<u8>>,
    events: Seq<EventView<S>>,
)
    ensures
        request.stdout ==> {
            let action = action_after(request, home, events);
            !(action is CreateFile || action is CreateDirectories || action is EmitResult)
        },
        action_after(request, home, events) matches ActionView::WriteChunk { to_stdout }
            ==> to_stdout == request.stdout,
        action_after(request, home, events) matches ActionView::Flush { to_stdout } ==> to_stdout
            == request.stdout,
{
    lemma_stdout_stages(request, home, events);
}

spec fn bundle_of<S>(stage: StageView<S>) -> Option<Seq<u8>> {
    match stage {
        StageView::CaBundleSize { bundle, .. } => Some(bundle),
        StageView::CaBundleText { bundle, .. } => Some(bundle),
        StageView::CaBundleTrust { bundle, .. } => Some(bundle),
        StageView::CaBundleNotice { bundle, .. } => Some(bundle),
        _ => None,
    }
}

proof fn lemma_bundle_is_requested<S>(
    request: RequestView,
    home: Option<Seq<u8>>,
    events: Seq<EventView<S>>,
)
    ensures
        ({
            let stage = stage_after(request, home, events);
            bundle_of(stage) is Some ==> bundle_of(stage) == request.ca_bundle
        }),
    decreases events.len(),
{
    if events.len() > 0 {
        lemma_bundle_is_requested(request, home, events.drop_last());
    }
}

spec fn bundle_size_vetted<S>(
    request: RequestView,
    home: Option<Seq<u8>>,
    events: Seq<EventView<S>>,
    bundle: Seq<u8>,
) -> bool {
    exists|size: u64|
        size <= MAX_CA_BUNDLE_SIZE && #[trigger] happened(
            request,
            home,
            events,
            ActionView::ReadSize { path: bundle },
            EventView::Size(size),
        )
}

proof fn lemma_bundle_size<S>(
    request: RequestView,
    home: Option<Seq<u8>>,
    events: Seq<EventView<S>>,
    bundle: Seq<u8>,
)
    requires
        request.ca_bundle == Some(bundle),
    ensures
        rank(stage_after(request, home, events)) >= 7 ==> bundle_size_vetted(
            request,
            home,
            events,
            bundle,
        ),
    decreases events.len(),
{
    if events.len() > 0 {
        let before = events.drop_last();
        let stage = stage_after(request, home, before);
        lemma_bundle_size(request, home, before, bundle);
        lemma_bundle_is_requested(request, home, before);
        lemma_just_happened(request, home, events);
        match (stage, events.last()) {
            (StageView::CaBundleSize { .. }, EventView::Size(size)) => {
                assert(happened(
                    request,
                    home,
                    events,
                    ActionView::<S>::ReadSize { path: bundle },
                    EventView::<S>::Size(size),
                ));
            },
            _ => {},
        }
        if rank(stage) >= 7 {
            let size = choose|size: u64|
                size <= MAX_CA_BUNDLE_SIZE && #[trigger] happened(
                    request,
                    home,
                    before,
                    ActionView::<S>::ReadSize { path: bundle },
                    EventView::<S>::Size(size),
                );
            lemma_still_happened(
                request,
                home,
                events,
                ActionView::<S>::ReadSize { path: bundle },
                EventView::<S>::Size(size),
            );
        }
    }
}

proof fn lemma_bundle_trusted<S>(
    request: RequestView,
    home: Option<Seq<u8>>,
    events: Seq<EventView<S>>,
    bundle: Seq<u8>,
)
    requires
        request.ca_bundle == Some(bundle),
    ensures
        rank(stage_after(request, home, events)) >= 9 ==> happened(
            request,
            home,
            events,
            ActionView::TrustCaBundle,
            EventView::Done,
        ),
    decreases events.len(),
{
    if events.len() > 0 {
        let before = events.drop_last();
        lemma_bundle_trusted(request, home, before, bundle);
        lemma_just_happened(request, home, events);
        if rank(stage_after(request, home, before)) >= 9 {
            lemma_still_happened(
                request,
                home,
                events,
                ActionView::<S>::TrustCaBundle,
                EventView::<S>::Done,
            );
        }
    }
}

proof fn lemma_bundle_told<S>(
    request: RequestView,
    home: Option<Seq<u8>>,
    events: Seq<EventView<S>>,
    bundle: Seq<u8>,
)
    requires
        request.ca_bundle == Some(bundle),
    ensures
        rank(stage_after(request, home, events)) >= 10 ==> happened(
            request,
            home,
            events,
            ActionView::Notice { line: ca_bundle_notice(request.run_id, bundle, request.system) },
            EventView::Done,
        ),
    decreases events.len(),
{
    if events.len() > 0 {
        let before = events.drop_last();
        lemma_bundle_told(request, home, before, bundle);
        lemma_bundle_is_requested(request, home, before);
        lemma_just_happened(request, home, events);
        if rank(stage_after(request, home, before)) >= 10 {
            lemma_still_happened(
                request,
                home,
                events,
                ActionView::<S>::Notice {
                    line: ca_bundle_notice(request.run_id, bundle, request.system),
                },
                EventView::<S>::Done,
            );
        }
    }
}

/// A CA bundle is read only behind its size, which is within the limit.
pub proof fn law_ca_bundle_vetted_before_read<S>(
    request: RequestView,
    home: Option<Seq<u8>>,
    events: Seq<EventView<S>>,
    path: Seq<u8>,
)
    requires
        action_after(request, home, events) == (ActionView::<S>::ReadCaBundle { path }),
    ensures
        request.ca_bundle == Some(path),
        exists|size: u64|
            size <= 10_485_760 && #[trigger] happened(
                request,
                home,
                events,
                ActionView::ReadSize { path },
                EventView::Size(size),
            ),
{
    lemma_bundle_is_requested(request, home, events);
    lemma_bundle_size(request, home, events, path);
}

/// A client that a CA bundle was given for is made only with the bundle trusted and
/// announced.
pub proof fn law_ca_bundle_in_effect<S>(
    request: RequestView,
    home: Option<Seq<u8>>,
    events: Seq<EventView<S>>,
)
    requires
        action_after(request, home, events) is OpenClient,
        request.ca_bundle is Some,
    ensures
        happened(request, home, events, ActionView::TrustCaBundle, EventView::Done),
        happened(
            request,
            home,
            events,
            ActionView::Notice {
                line: object_text(
                    seq![
                        text_member("event"@, "ca_bundle_loaded"@),
                        text_member("run_id"@, request.run_id),
                        text_member("path"@, shown(request.ca_bundle->0, request.system)),
                    ],
                ),
            },
            EventView::Done,
        ),
{
    lemma_bundle_trusted(request, home, events, request.ca_bundle->0);
    lemma_bundle_told(request, home, events, request.ca_bundle->0);
}

proof fn lemma_announced<S>(
    request: RequestView,
    home: Option<Seq<u8>>,
    events: Seq<EventView<S>>,
)
    ensures
        ({
            let stage = stage_after(request, home, events);
            rank(stage) >= 12 && plan_of(stage) is Some ==> happened(
                request,
                home,
                events,
                ActionView::EmitStart { record: start_record(request, plan_of(stage)->0) },
                EventView::Done,
            )
        }),
    decreases events.len(),
{
    if events.len() > 0 {
        let before = events.drop_last();
        let stage = stage_after(request, home, before);
        lemma_announced(request, home, before);
        lemma_just_happened(request, home, events);
        if rank(stage) >= 12 && plan_of(stage) is Some {
            lemma_still_happened(
                request,
                home,
                events,
                ActionView::<S>::EmitStart { record: start_record(request, plan_of(stage)->0) },
                EventView::<S>::Done,
            );
        }
    }
}

/// An object is requested only behind an audit record that names it.
pub proof fn law_audited_before_request<S>(
    request: RequestView,
    home: Option<Seq<u8>>,
    events: Seq<EventView<S>>,
    bucket: Seq<char>,
    key: Seq<char>,
)
    requires
        action_after(request, home, events) == (ActionView::<S>::GetObject { bucket, key }),
    ensures
        exists|plan: PlanView<S>|
            plan.target.bucket == bucket && plan.target.key == key && happened(
                request,
                home,
                events,
                ActionView::EmitStart { record: #[trigger] start_record(request, plan) },
                EventView::Done,
            ),
{
    lemma_announced(request, home, events);
    let plan = plan_of(stage_after(request, home, events))->0;
    assert(happened(
        request,
        home,
        events,
        ActionView::<S>::EmitStart { record: start_record(request, plan) },
        EventView::<S>::Done,
    ));
}

proof fn lemma_counted<S>(
    request: RequestView,
    home: Option<Seq<u8>>,
    events: Seq<EventView<S>>,
)
    ensures
        ({
            let stage = stage_after(request, home, events);
            let n = received(request, home, events);
            &&& 0 <= rank(stage) < 17 ==> n == 0
            &&& stage matches StageView::Body { written, .. } ==> written == n
            &&& stage matches StageView::Piece { total, .. } ==> total == n
            &&& stage matches StageView::Flush { written, .. } ==> written == n
            &&& stage matches StageView::Close { written, .. } ==> written == n
            &&& stage matches StageView::Clock { written, .. } ==> written == n
            &&& stage matches StageView::ResultNotice { written, .. } ==> written == n
            &&& stage matches StageView::CompleteNotice { written, .. } ==> written == n
            &&& stage matches StageView::SizeNotice { written, .. } ==> written == n
            &&& rank(stage) >= 18 ==> happened(
                request,
                home,
                events,
                ActionView::ReadChunk,
                EventView::EndOfBody,
            )
            &&& rank(stage) >= 20 ==> happened(
                request,
                home,
                events,
                ActionView::Flush { to_stdout: request.stdout },
                EventView::Done,
            )
            &&& rank(stage) >= 20 && !request.stdout ==> happened(
                request,
                home,
                events,
                ActionView::CloseFile,
                EventView::Done,
            )
            &&& stage is Close ==> happened(
                request,
                home,
                events,
                ActionView::Flush { to_stdout: request.stdout },
                EventView::Done,
            )
        }),
    decreases events.len(),
{
    if events.len() > 0 {
        let before = events.drop_last();
        let stage = stage_after(request, home, before);
        lemma_counted(request, home, before);
        lemma_just_happened(request, home, events);
        if rank(stage) >= 18 {
            lemma_still_happened(
                request,
                home,
                events,
                ActionView::<S>::ReadChunk,
                EventView::<S>::EndOfBody,
            );
        }
        if rank(stage) >= 20 || stage is Close {
            lemma_still_happened(
                request,
                home,
                events,
                ActionView::<S>::Flush { to_stdout: request.stdout },
                EventView::<S>::Done,
            );
        }
        if rank(stage) >= 20 && !request.stdout {
            lemma_still_happened(
                request,
                home,
                events,
                ActionView::<S>::CloseFile,
                EventView::<S>::Done,
            );
        }
    }
}

/// Success is reported only of a body that came to its end and was flushed, and closed
/// where it went to a file. The size in the records is the number of its bytes.
pub proof fn law_success_is_whole<S>(
    request: RequestView,
    home: Option<Seq<u8>>,
    events: Seq<EventView<S>>,
)
    requires
        action_after(request, home, events) is EmitResult || action_after(
            request,
            home,
            events,
        ) is EmitComplete,
    ensures
        happened(request, home, events, ActionView::ReadChunk, EventView::EndOfBody),
        happened(
            request,
            home,
            events,
            ActionView::Flush { to_stdout: request.stdout },
            EventView::Done,
        ),
        !request.stdout ==> happened(
            request,
            home,
            events,
            ActionView::CloseFile,
            EventView::Done,
        ),
        action_after(request, home, events) matches ActionView::EmitResult { record }
            ==> record.size == received(request, home, events),
        action_after(request, home, events) matches ActionView::EmitComplete { record }
            ==> record.size == received(request, home, events),
{
    lemma_counted(request, home, events);
}

/// The body is held one piece at a time: a piece that came is written before anything
/// else, and the next one is asked for only when that is done.
pub proof fn law_one_piece_at_a_time<S>(
    request: RequestView,
    home: Option<Seq<u8>>,
    events: Seq<EventView<S>>,
    len: nat,
    event: EventView<S>,
)
    requires
        action_after(request, home, events) == ActionView::<S>::ReadChunk,
    ensures
        ({
            let written = events.push(EventView::Chunk(len));
            let next = action_after(request, home, written.push(event));
            &&& action_after(request, home, written) == (ActionView::<S>::WriteChunk {
                to_stdout: request.stdout,
            })
            &&& match event {
                EventView::Done => next == ActionView::<S>::ReadChunk,
                EventView::Failed(_) => next is Fail,
                _ => next == (ActionView::<S>::WriteChunk { to_stdout: request.stdout }),
            }
        }),
{
    let written = events.push(EventView::Chunk(len));
    assert(written.drop_last() =~= events);
    assert(written.push(event).drop_last() =~= written);
}

/// What a stage keeps of the store's reply.
spec fn head_in<S>(stage: StageView<S>) -> Option<ObjectHeadView> {
    match stage {
        StageView::ParentLinks { download, .. } => Some(download.head),
        StageView::ParentKnown { download, .. } => Some(download.head),
        StageView::ParentMade { download, .. } => Some(download.head),
        StageView::FileMade { download } => Some(download.head),
        StageView::Body { download, .. } => Some(download.head),
        StageView::Piece { download, .. } => Some(download.head),
        StageView::Flush { download, .. } => Some(download.head),
        StageView::Close { download, .. } => Some(download.head),
        StageView::Clock { download, .. } => Some(download.head),
        StageView::ResultNotice { download, .. } => Some(download.head),
        StageView::CompleteNotice { download, .. } => Some(download.head),
        _ => None,
    }
}

/// Whether the store answered the request for the object with this reply.
pub open spec fn replied<S>(
    request: RequestView,
    home: Option<Seq<u8>>,
    events: Seq<EventView<S>>,
    reply: ObjectReplyView,
) -> bool {
    exists|bucket: Seq<char>, key: Seq<char>|
        #[trigger] happened(
            request,
            home,
            events,
            ActionView::GetObject { bucket, key },
            EventView::Object(reply),
        )
}

proof fn lemma_reply<S>(request: RequestView, home: Option<Seq<u8>>, events: Seq<EventView<S>>)
    ensures
        ({
            let stage = stage_after(request, home, events);
            head_in(stage) is Some ==> exists|reply: ObjectReplyView|
                #[trigger] replied(request, home, events, reply) && head_in(stage) == Some(
                    head_of(reply),
                )
        }),
    decreases events.len(),
{
    if events.len() > 0 {
        let before = events.drop_last();
        let stage = stage_after(request, home, before);
        lemma_reply(request, home, before);
        lemma_just_happened(request, home, events);
        match (stage, events.last()) {
            (StageView::Object { plan }, EventView::Object(reply)) => {
                assert(happened(
                    request,
                    home,
                    events,
                    ActionView::<S>::GetObject { bucket: plan.target.bucket, key: plan.target.key },
                    EventView::<S>::Object(reply),
                ));
                assert(replied(request, home, events, reply));
            },
            _ => {},
        }
        if head_in(stage) is Some {
            let reply = choose|reply: ObjectReplyView|
                #[trigger] replied(request, home, before, reply) && head_in(stage) == Some(
                    head_of(reply),
                );
            let (bucket, key) = choose|bucket: Seq<char>, key: Seq<char>|
                #[trigger] happened(
                    request,
                    home,
                    before,
                    ActionView::<S>::GetObject { bucket, key },
                    EventView::<S>::Object(reply),
                );
            lemma_still_happened(
                request,
                home,
                events,
                ActionView::<S>::GetObject { bucket, key },
                EventView::<S>::Object(reply),
            );
            assert(replied(request, home, events, reply));
        }
    }
}

/// The records tell the object's tag, type and time as the store gave them.
pub proof fn law_records_tell_the_reply<S>(
    request: RequestView,
    home: Option<Seq<u8>>,
    events: Seq<EventView<S>>,
)
    ensures
        action_after(request, home, events) matches ActionView::EmitResult { record } ==> exists|
            reply: ObjectReplyView,
        |
            {
                &&& #[trigger] replied(request, home, events, reply)
                &&& record.etag == reply.etag
                &&& record.content_type == reply.content_type
                &&& record.last_modified == match reply.last_modified {
                    Some((secs, nanos)) => Some(
                        if -62_135_596_800 <= secs <= 253_402_300_799 {
                            rfc3339_text(secs, nanos)
                        } else {
                            seq![]
                        },
                    ),
                    None => None,
                }
            },
        action_after(request, home, events) matches ActionView::EmitComplete { record }
            ==> exists|reply: ObjectReplyView| #[trigger]
            replied(request, home, events, reply) && record.etag == reply.etag,
{
    lemma_reply(request, home, events);
}

/// Behind the completion record the bytes that came are held against the length that the
/// store announced: a difference is told, with both sizes, and otherwise the download is
/// done.
pub proof fn law_size_is_compared<S>(
    request: RequestView,
    home: Option<Seq<u8>>,
    events: Seq<EventView<S>>,
)
    requires
        action_after(request, home, events) is EmitComplete,
    ensures
        exists|reply: ObjectReplyView|
            {
                &&& #[trigger] replied(request, home, events, reply)
                &&& match reply.content_length {
                    Some(n) => {
                        let expected = if n >= 0 {
                            n as int
                        } else {
                            n + 0x1_0000_0000_0000_0000
                        };
                        action_after(request, home, events.push(EventView::Done)) == if received(
                            request,
                            home,
                            events,
                        ) == expected {
                            ActionView::<S>::Finish
                        } else {
                            ActionView::<S>::Notice {
                                line: object_text(
                                    seq![
                                        text_member("event"@, "size_mismatch"@),
                                        text_member("run_id"@, request.run_id),
                                        number_member("expected"@, expected as nat),
                                        number_member("actual"@, received(request, home, events)),
                                    ],
                                ),
                            }
                        }
                    },
                    None => action_after(request, home, events.push(EventView::Done))
                        == ActionView::<S>::Finish,
                }
            },
{
    lemma_counted(request, home, events);
    lemma_reply(request, home, events);
    assert(events.push(EventView::<S>::Done).drop_last() =~= events);
}

/// Whether the directory `dir` was found to exist, or was made.
pub open spec fn directory_there<S>(
    request: RequestView,
    home: Option<Seq<u8>>,
    events: Seq<EventView<S>>,
    dir: Seq<u8>,
) -> bool {
    ||| happened(
        request,
        home,
        events,
        ActionView::ProbeExists { path: dir },
        EventView::Answer(true),
    )
    ||| happened(
        request,
        home,
        events,
        ActionView::CreateDirectories { path: dir },
        EventView::Done,
    )
}

/// Whether the directory that `path` lies in, where it has a name, is there.
pub open spec fn directory_ready<S>(
    request: RequestView,
    home: Option<Seq<u8>>,
    events: Seq<EventView<S>>,
    path: Seq<u8>,
) -> bool {
    match named_parent(request, path) {
        Some(dir) => directory_there(request, home, events, dir),
        None => true,
    }
}

/// Whether `path` was found to be no symbolic link.
pub open spec fn no_link<S>(
    request: RequestView,
    home: Option<Seq<u8>>,
    events: Seq<EventView<S>>,
    path: Seq<u8>,
) -> bool {
    happened(request, home, events, ActionView::ProbeLink { path }, EventView::Answer(false))
}

proof fn lemma_still_there<S>(
    request: RequestView,
    home: Option<Seq<u8>>,
    events: Seq<EventView<S>>,
    path: Seq<u8>,
)
    requires
        events.len() > 0,
        directory_ready(request, home, events.drop_last(), path),
    ensures
        directory_ready(request, home, events, path),
{
    match named_parent(request, path) {
        Some(dir) => {
            let probe = ActionView::<S>::ProbeExists { path: dir };
            let create = ActionView::<S>::CreateDirectories { path: dir };
            if happened(request, home, events.drop_last(), probe, EventView::<S>::Answer(true)) {
                lemma_still_happened(request, home, events, probe, EventView::<S>::Answer(true));
            } else {
                lemma_still_happened(request, home, events, create, EventView::<S>::Done);
            }
        },
        None => {},
    }
}

proof fn lemma_climbed(request: RequestView, at: Seq<u8>, path: Seq<u8>)
    requires
        upward(at, request.system).contains(path),
    ensures
        path == at || (named_parent(request, at) is Some && upward(
            named_parent(request, at)->0,
            request.system,
        ).contains(path)),
{
    law_upward(at, request.system);
    let i = upward(at, request.system).index_of(path);
    if i > 0 {
        let up = named_parent(request, at)->0;
        assert(upward(at, request.system)[i] == upward(up, request.system)[i - 1]);
    }
}

/// What is known of the directories above the missing directory `parent` when the path `at`
/// is come to, or all of them are passed.
spec fn climbed_to<S>(
    request: RequestView,
    home: Option<Seq<u8>>,
    events: Seq<EventView<S>>,
    parent: Seq<u8>,
    at: Option<Seq<u8>>,
) -> bool {
    forall|path: Seq<u8>|
        upward(parent, request.system).contains(path) ==> #[trigger] no_link(
            request,
            home,
            events,
            path,
        ) || (at is Some && upward(at->0, request.system).contains(path))
}

proof fn lemma_still_climbed<S>(
    request: RequestView,
    home: Option<Seq<u8>>,
    events: Seq<EventView<S>>,
    parent: Seq<u8>,
    at: Option<Seq<u8>>,
)
    requires
        events.len() > 0,
        climbed_to(request, home, events.drop_last(), parent, at),
    ensures
        climbed_to(request, home, events, parent, at),
{
    assert forall|path: Seq<u8>|
        upward(parent, request.system).contains(path) implies #[trigger] no_link(
        request,
        home,
        events,
        path,
    ) || (at is Some && upward(at->0, request.system).contains(path)) by {
        if no_link(request, home, events.drop_last(), path) {
            lemma_still_happened(
                request,
                home,
                events,
                ActionView::<S>::ProbeLink { path },
                EventView::<S>::Answer(false),
            );
        }
    }
}

proof fn lemma_climb_on<S>(
    request: RequestView,
    home: Option<Seq<u8>>,
    events: Seq<EventView<S>>,
    parent: Seq<u8>,
    at: Seq<u8>,
)
    requires
        climbed_to(request, home, events, parent, Some(at)),
        no_link(request, home, events, at),
    ensures
        climbed_to(request, home, events, parent, named_parent(request, at)),
{
    let up = named_parent(request, at);
    assert forall|path: Seq<u8>|
        upward(parent, request.system).contains(path) implies #[trigger] no_link(
        request,
        home,
        events,
        path,
    ) || (up is Some && upward(up->0, request.system).contains(path)) by {
        if !no_link(request, home, events, path) {
            lemma_climbed(request, at, path);
        }
    }
}

proof fn lemma_directory<S>(
    request: RequestView,
    home: Option<Seq<u8>>,
    events: Seq<EventView<S>>,
)
    ensures
        ({
            let stage = stage_after(request, home, events);
            &&& stage matches StageView::ParentKnown { download, parent } ==> named_parent(
                request,
                download.plan.destination,
            ) == Some(parent)
            &&& stage matches StageView::ParentLinks { download, parent, at } ==> named_parent(
                request,
                download.plan.destination,
            ) == Some(parent) && climbed_to(request, home, events, parent, Some(at))
            &&& stage matches StageView::ParentMade { download, parent } ==> named_parent(
                request,
                download.plan.destination,
            ) == Some(parent) && climbed_to(request, home, events, parent, None)
            &&& rank(stage) >= 16 && !request.stdout && plan_of(stage) is Some ==> directory_ready(
                request,
                home,
                events,
                plan_of(stage)->0.destination,
            )
        }),
    decreases events.len(),
{
    if events.len() > 0 {
        let before = events.drop_last();
        let stage = stage_after(request, home, before);
        lemma_directory(request, home, before);
        lemma_just_happened(request, home, events);
        lemma_stdout_stages(request, home, before);
        match stage {
            StageView::ParentKnown { parent, .. } => {
                assert(climbed_to(request, home, events, parent, Some(parent)));
            },
            StageView::ParentLinks { parent, at, .. } => {
                lemma_still_climbed(request, home, events, parent, Some(at));
                if events.last() == EventView::<S>::Answer(false) {
                    assert(no_link(request, home, events, at));
                    lemma_climb_on(request, home, events, parent, at);
                }
            },
            StageView::ParentMade { parent, .. } => {
                lemma_still_climbed(request, home, events, parent, None);
            },
            _ => {},
        }
        if rank(stage) >= 16 && !request.stdout && plan_of(stage) is Some {
            lemma_still_there(request, home, events, plan_of(stage)->0.destination);
        }
    }
}

/// A file is created only where the directory that it lies in is there: it was found to
/// exist, or it was made.
pub proof fn law_directory_before_file<S>(
    request: RequestView,
    home: Option<Seq<u8>>,
    events: Seq<EventView<S>>,
    path: Seq<u8>,
)
    requires
        action_after(request, home, events) == (ActionView::<S>::CreateFile { path }),
    ensures
        directory_ready(request, home, events, path),
{
    lemma_stdout_stages(request, home, events);
    lemma_directory(request, home, events);
}

/// A directory that is made is the one that the destination lies in. No directory is made
/// through a symbolic link: neither it nor any directory above it is one.
pub proof fn law_no_directory_through_links<S>(
    request: RequestView,
    home: Option<Seq<u8>>,
    events: Seq<EventView<S>>,
    dir: Seq<u8>,
)
    requires
        action_after(request, home, events) == (ActionView::<S>::CreateDirectories { path: dir }),
    ensures
        exists|destination: Seq<u8>|
            #[trigger] file_resolved(request, home, events, destination) && named_parent(
                request,
                destination,
            ) == Some(dir),
        forall|path: Seq<u8>|
            upward(dir, request.system).contains(path) ==> #[trigger] no_link(
                request,
                home,
                events,
                path,
            ),
{
    lemma_directory(request, home, events);
    lemma_resolved(request, home, events);
}

/// A missing directory behind a symbolic link is refused: the download fails with it.
pub proof fn law_links_are_refused<S>(
    request: RequestView,
    home: Option<Seq<u8>>,
    events: Seq<EventView<S>>,
    link: Seq<u8>,
)
    requires
        action_after(request, home, events) == (ActionView::<S>::ProbeLink { path: link }),
    ensures
        exists|dir: Seq<u8>|
            stage_after(request, home, events.push(EventView::Answer(true))) == (StageView::<
                S,
            >::Failed {
                error: #[trigger] behind_link(dir, link),
            }),
{
    assert(events.push(EventView::<S>::Answer(true)).drop_last() =~= events);
    let stage = stage_after(request, home, events);
    assert(advanced(request, stage, EventView::<S>::Answer(true)) == (StageView::<S>::Failed {
        error: behind_link(stage->ParentLinks_parent, link),
    }));
}

/// The error of the missing directory `dir` behind the symbolic link `link`.
pub open spec fn behind_link(dir: Seq<u8>, link: Seq<u8>) -> GetErrorView {
    GetErrorView::DirectoryBehindLink { path: dir, link }
}

/// The target that a stage carries.
spec fn target_of<S>(stage: StageView<S>) -> Option<TargetView<S>> {
    match stage {
        StageView::DestinationKind { target, .. } => Some(target),
        _ => match plan_of(stage) {
            Some(plan) => Some(plan.target),
            None => None,
        },
    }
}

/// Whether `target` is what the request's source names in a configuration that was read.
pub open spec fn target_configured<S>(
    request: RequestView,
    home: Option<Seq<u8>>,
    events: Seq<EventView<S>>,
    target: TargetView<S>,
) -> bool {
    exists|aliases: AliasList<S>|
        #[trigger] happened(
            request,
            home,
            events,
            ActionView::ParseConfig,
            EventView::Config(aliases),
        ) && parsed_source(request.source) == Ok::<_, GetErrorView>(
            (target.alias_name, target.bucket, target.key),
        ) && aliases.contains((target.alias_name, target.alias))
}

proof fn lemma_lookup_contained<S>(aliases: AliasList<S>, name: Seq<char>)
    ensures
        lookup(aliases, name) matches Some(alias) ==> aliases.contains((name, alias)),
{
    if lookup(aliases, name) is Some {
        let alias = lookup(aliases, name)->0;
        let i = choose|i: int|
            0 <= i < aliases.len() && (#[trigger] aliases[i]).0 == name && aliases[i].1 == alias;
        assert(aliases[i] == (name, alias));
    }
}

proof fn lemma_target_configured<S>(
    request: RequestView,
    home: Option<Seq<u8>>,
    events: Seq<EventView<S>>,
    config: Seq<u8>,
    aliases: AliasList<S>,
)
    requires
        happened(
            request,
            home,
            events,
            ActionView::<S>::ParseConfig,
            EventView::Config(aliases),
        ),
    ensures
        targeted(request, config, aliases) matches Ok(target) ==> target_configured(
            request,
            home,
            events,
            target,
        ),
{
    match parsed_source(request.source) {
        Ok((name, _, _)) => {
            lemma_lookup_contained(aliases, name);
        },
        Err(_) => {},
    }
}

proof fn lemma_still_configured<S>(
    request: RequestView,
    home: Option<Seq<u8>>,
    events: Seq<EventView<S>>,
    target: TargetView<S>,
)
    requires
        events.len() > 0,
        target_configured(request, home, events.drop_last(), target),
    ensures
        target_configured(request, home, events, target),
{
    let before = events.drop_last();
    let aliases = choose|aliases: AliasList<S>|
        #[trigger] happened(
            request,
            home,
            before,
            ActionView::<S>::ParseConfig,
            EventView::Config(aliases),
        ) && parsed_source(request.source) == Ok::<_, GetErrorView>(
            (target.alias_name, target.bucket, target.key),
        ) && aliases.contains((target.alias_name, target.alias));
    lemma_still_happened(
        request,
        home,
        events,
        ActionView::<S>::ParseConfig,
        EventView::Config(aliases),
    );
}

proof fn lemma_target_moves<S>(
    request: RequestView,
    stage: StageView<S>,
    event: EventView<S>,
)
    ensures
        ({
            let next = advanced(request, stage, event);
            target_of(next) is Some ==> target_of(next) == target_of(stage) || (stage is ConfigValue
                && event is Config && targeted(
                request,
                stage->ConfigValue_config,
                event->Config_0,
            ) == Ok::<_, GetErrorView>(target_of(next)->0))
        }),
{
}

proof fn lemma_target<S>(request: RequestView, home: Option<Seq<u8>>, events: Seq<EventView<S>>)
    ensures
        ({
            let stage = stage_after(request, home, events);
            target_of(stage) is Some ==> target_configured(
                request,
                home,
                events,
                target_of(stage)->0,
            )
        }),
    decreases events.len(),
{
    if events.len() > 0 {
        let before = events.drop_last();
        let stage = stage_after(request, home, before);
        lemma_target(request, home, before);
        lemma_just_happened(request, home, events);
        lemma_target_moves(request, stage, events.last());
        if target_of(stage) is Some {
            lemma_still_configured(request, home, events, target_of(stage)->0);
        }
        if stage is ConfigValue && events.last() is Config {
            lemma_target_configured(
                request,
                home,
                events,
                stage->ConfigValue_config,
                events.last()->Config_0,
            );
        }
    }
}

/// The object that is requested is the one that the source names.
pub proof fn law_request_follows_source<S>(
    request: RequestView,
    home: Option<Seq<u8>>,
    events: Seq<EventView<S>>,
    bucket: Seq<char>,
    key: Seq<char>,
)
    requires
        action_after(request, home, events) == (ActionView::<S>::GetObject { bucket, key }),
    ensures
        parsed_source(request.source) is Ok,
        parsed_source(request.source)->Ok_0.1 == bucket,
        parsed_source(request.source)->Ok_0.2 == key,
{
    lemma_target(request, home, events);
}

/// The client speaks to the store that the source's alias stands for in the configuration,
/// with that alias's credentials.
pub proof fn law_client_follows_alias<S>(
    request: RequestView,
    home: Option<Seq<u8>>,
    events: Seq<EventView<S>>,
    settings: ClientSettingsView<S>,
)
    requires
        action_after(request, home, events) == (ActionView::OpenClient { settings }),
    ensures
        exists|target: TargetView<S>|
            {
                &&& #[trigger] target_configured(request, home, events, target)
                &&& settings.endpoint == target.alias.url
                &&& settings.access_key == target.alias.access_key
                &&& settings.secret_key == target.alias.secret_key
                &&& addressed_by_path(target.alias.url, target.alias.path, settings.path_style)
                &&& in_region(request, settings.region)
            },
        settings.credentials_origin == "mc-config"@,
        settings.connect_timeout_secs == 10,
        settings.operation_timeout_secs == 300,
        settings.attempt_timeout_secs == 120,
{
    lemma_target(request, home, events);
    lemma_plan(request, home, events);
    let target = target_of(stage_after(request, home, events))->0;
    law_path_style(target.alias.url, target.alias.path);
    assert(target_configured(request, home, events, target));
}

/// Whether `region` is the one that the user asked for, and `us-east-1` where they asked for
/// none.
pub open spec fn in_region(request: RequestView, region: Seq<char>) -> bool {
    &&& request.region matches Some(asked) ==> region == asked
    &&& request.region is None ==> region == "us-east-1"@
}

/// Whether `is_dir` is what is known of the destination: what the disk said, where it had
/// to be asked.
pub open spec fn kind_known<S>(
    request: RequestView,
    home: Option<Seq<u8>>,
    events: Seq<EventView<S>>,
    is_dir: bool,
) -> bool {
    match kind_in_doubt(request.destination) {
        Some(path) => happened(
            request,
            home,
            events,
            ActionView::ProbeDirectory { path },
            EventView::Answer(is_dir),
        ),
        None => !is_dir,
    }
}

proof fn lemma_plan<S>(request: RequestView, home: Option<Seq<u8>>, events: Seq<EventView<S>>)
    ensures
        ({
            let stage = stage_after(request, home, events);
            &&& stage matches StageView::DestinationKind { path, .. } ==> kind_in_doubt(
                request.destination,
            ) == Some(path)
            &&& plan_of(stage) is Some ==> exists|is_dir: bool|
                #[trigger] kind_known(request, home, events, is_dir) && planned(
                    request,
                    plan_of(stage)->0.target,
                    is_dir,
                ) == Ok::<_, GetErrorView>(plan_of(stage)->0)
        }),
    decreases events.len(),
{
    if events.len() > 0 {
        let before = events.drop_last();
        let stage = stage_after(request, home, before);
        lemma_plan(request, home, before);
        lemma_just_happened(request, home, events);
        match (stage, events.last()) {
            (StageView::ConfigValue { .. }, EventView::Config(_)) => {
                assert(kind_in_doubt(request.destination) is None ==> kind_known(
                    request,
                    home,
                    events,
                    false,
                ));
            },
            (StageView::DestinationKind { .. }, EventView::Answer(is_dir)) => {
                assert(kind_known(request, home, events, is_dir));
            },
            _ => {},
        }
        if plan_of(stage) is Some {
            let is_dir = choose|is_dir: bool|
                #[trigger] kind_known(request, home, before, is_dir) && planned(
                    request,
                    plan_of(stage)->0.target,
                    is_dir,
                ) == Ok::<_, GetErrorView>(plan_of(stage)->0);
            match kind_in_doubt(request.destination) {
                Some(path) => {
                    lemma_still_happened(
                        request,
                        home,
                        events,
                        ActionView::<S>::ProbeDirectory { path },
                        EventView::<S>::Answer(is_dir),
                    );
                },
                None => {},
            }
            assert(kind_known(request, home, events, is_dir));
        }
    }
}

/// Whether `path` is what the destination and the source's key resolve to.
pub open spec fn file_resolved<S>(
    request: RequestView,
    home: Option<Seq<u8>>,
    events: Seq<EventView<S>>,
    path: Seq<u8>,
) -> bool {
    parsed_source(request.source) is Ok && exists|is_dir: bool|
        #[trigger] kind_known(request, home, events, is_dir) && resolved_destination(
            request.destination,
            parsed_source(request.source)->Ok_0.2,
            is_dir,
            request.system,
        ) == Ok::<_, GetErrorView>(path)
}

proof fn lemma_resolved<S>(request: RequestView, home: Option<Seq<u8>>, events: Seq<EventView<S>>)
    ensures
        ({
            let stage = stage_after(request, home, events);
            plan_of(stage) is Some ==> {
                let plan = plan_of(stage)->0;
                &&& file_resolved(request, home, events, plan.destination)
                &&& plan.shown == if request.stdout {
                    "<stdout>"@
                } else {
                    shown(plan.destination, request.system)
                }
            }
        }),
{
    lemma_target(request, home, events);
    lemma_plan(request, home, events);
}

/// The file that is created is the one that the destination and the source's key resolve
/// to.
pub proof fn law_file_is_resolved_destination<S>(
    request: RequestView,
    home: Option<Seq<u8>>,
    events: Seq<EventView<S>>,
    path: Seq<u8>,
)
    requires
        action_after(request, home, events) == (ActionView::<S>::CreateFile { path }),
    ensures
        file_resolved(request, home, events, path),
{
    lemma_resolved(request, home, events);
}

proof fn lemma_still_resolved<S>(
    request: RequestView,
    home: Option<Seq<u8>>,
    events: Seq<EventView<S>>,
    path: Seq<u8>,
)
    requires
        events.len() > 0,
        file_resolved(request, home, events.drop_last(), path),
    ensures
        file_resolved(request, home, events, path),
{
    let is_dir = choose|is_dir: bool|
        #[trigger] kind_known(request, home, events.drop_last(), is_dir) && resolved_destination(
            request.destination,
            parsed_source(request.source)->Ok_0.2,
            is_dir,
            request.system,
        ) == Ok::<_, GetErrorView>(path);
    match kind_in_doubt(request.destination) {
        Some(doubted) => {
            lemma_still_happened(
                request,
                home,
                events,
                ActionView::<S>::ProbeDirectory { path: doubted },
                EventView::<S>::Answer(is_dir),
            );
        },
        None => {},
    }
    assert(kind_known(request, home, events, is_dir));
}

/// Whether `path` is the destination, its directory is there and the file was created.
pub open spec fn file_made<S>(
    request: RequestView,
    home: Option<Seq<u8>>,
    events: Seq<EventView<S>>,
    path: Seq<u8>,
) -> bool {
    &&& file_resolved(request, home, events, path)
    &&& directory_ready(request, home, events, path)
    &&& happened(request, home, events, ActionView::CreateFile { path }, EventView::Done)
}

proof fn lemma_still_made<S>(
    request: RequestView,
    home: Option<Seq<u8>>,
    events: Seq<EventView<S>>,
    path: Seq<u8>,
)
    requires
        events.len() > 0,
        file_made(request, home, events.drop_last(), path),
    ensures
        file_made(request, home, events, path),
{
    lemma_still_resolved(request, home, events, path);
    lemma_still_there(request, home, events, path);
    lemma_still_happened(
        request,
        home,
        events,
        ActionView::<S>::CreateFile { path },
        EventView::<S>::Done,
    );
}

proof fn lemma_made<S>(request: RequestView, home: Option<Seq<u8>>, events: Seq<EventView<S>>)
    requires
        !request.stdout,
    ensures
        ({
            let stage = stage_after(request, home, events);
            rank(stage) >= 17 && plan_of(stage) is Some ==> file_made(
                request,
                home,
                events,
                plan_of(stage)->0.destination,
            )
        }),
    decreases events.len(),
{
    if events.len() > 0 {
        let before = events.drop_last();
        let stage = stage_after(request, home, before);
        lemma_made(request, home, before);
        lemma_just_happened(request, home, events);
        lemma_resolved(request, home, events);
        lemma_directory(request, home, events);
        if rank(stage) >= 17 && plan_of(stage) is Some {
            lemma_still_made(request, home, events, plan_of(stage)->0.destination);
        }
    }
}

/// Whether a record of the object names it as the source does.
pub open spec fn named_by_source(
    request: RequestView,
    alias: Seq<char>,
    bucket: Seq<char>,
    key: Seq<char>,
) -> bool {
    parsed_source(request.source) == Ok::<_, GetErrorView>((alias, bucket, key))
}

/// The records name the alias, bucket and key of the source. The destination that they name
/// is standard output or the file that the download resolves to, and the records of success
/// name the file that was created.
pub proof fn law_records_name_the_object<S>(
    request: RequestView,
    home: Option<Seq<u8>>,
    events: Seq<EventView<S>>,
)
    ensures
        match action_after(request, home, events) {
            ActionView::EmitStart { record } => {
                &&& named_by_source(request, record.alias, record.bucket, record.key)
                &&& if request.stdout {
                    record.destination == "<stdout>"@
                } else {
                    exists|path: Seq<u8>|
                        #[trigger] file_resolved(request, home, events, path)
                            && record.destination == shown(path, request.system)
                }
            },
            ActionView::EmitResult { record } => {
                &&& parsed_source(request.source) is Ok
                &&& parsed_source(request.source)->Ok_0.1 == record.bucket
                &&& parsed_source(request.source)->Ok_0.2 == record.key
                &&& exists|path: Seq<u8>|
                    #[trigger] file_made(request, home, events, path) && record.destination
                        == shown(path, request.system)
            },
            ActionView::EmitComplete { record } => {
                &&& named_by_source(request, record.alias, record.bucket, record.key)
                &&& if request.stdout {
                    record.destination == "<stdout>"@
                } else {
                    exists|path: Seq<u8>|
                        #[trigger] file_made(request, home, events, path) && record.destination
                            == shown(path, request.system)
                }
            },
            _ => true,
        },
{
    lemma_target(request, home, events);
    lemma_resolved(request, home, events);
    lemma_stdout_stages(request, home, events);
    if !request.stdout {
        lemma_made(request, home, events);
    }
    match action_after(request, home, events) {
        ActionView::EmitStart { .. } => {
            let path = plan_of(stage_after(request, home, events))->0.destination;
            assert(file_resolved(request, home, events, path));
        },
        _ => {},
    }
}

/// Whether an audit record of the start was printed.
pub open spec fn start_told<S>(
    request: RequestView,
    home: Option<Seq<u8>>,
    events: Seq<EventView<S>>,
) -> bool {
    exists|record: AuditStartRecordView|
        #[trigger] happened(
            request,
            home,
            events,
            ActionView::EmitStart { record },
            EventView::Done,
        )
}

/// Whether the result was printed.
pub open spec fn result_told<S>(
    request: RequestView,
    home: Option<Seq<u8>>,
    events: Seq<EventView<S>>,
) -> bool {
    exists|record: DownloadRecordView|
        #[trigger] happened(
            request,
            home,
            events,
            ActionView::EmitResult { record },
            EventView::Done,
        )
}

/// Whether an audit record of the completion was printed.
pub open spec fn completion_told<S>(
    request: RequestView,
    home: Option<Seq<u8>>,
    events: Seq<EventView<S>>,
) -> bool {
    exists|record: AuditCompleteRecordView|
        #[trigger] happened(
            request,
            home,
            events,
            ActionView::EmitComplete { record },
            EventView::Done,
        )
}

proof fn lemma_told<S>(request: RequestView, home: Option<Seq<u8>>, events: Seq<EventView<S>>)
    ensures
        rank(stage_after(request, home, events)) >= 12 ==> start_told(request, home, events),
        rank(stage_after(request, home, events)) >= 22 && !request.stdout ==> result_told(
            request,
            home,
            events,
        ),
        rank(stage_after(request, home, events)) >= 23 ==> completion_told(request, home, events),
    decreases events.len(),
{
    if events.len() > 0 {
        let before = events.drop_last();
        let stage = stage_after(request, home, before);
        lemma_told(request, home, before);
        lemma_just_happened(request, home, events);
        if rank(stage) >= 12 {
            let record = choose|record: AuditStartRecordView|
                #[trigger] happened(
                    request,
                    home,
                    before,
                    ActionView::<S>::EmitStart { record },
                    EventView::<S>::Done,
                );
            lemma_still_happened(
                request,
                home,
                events,
                ActionView::<S>::EmitStart { record },
                EventView::<S>::Done,
            );
        }
        if rank(stage) >= 22 && !request.stdout {
            let record = choose|record: DownloadRecordView|
                #[trigger] happened(
                    request,
                    home,
                    before,
                    ActionView::<S>::EmitResult { record },
                    EventView::<S>::Done,
                );
            lemma_still_happened(
                request,
                home,
                events,
                ActionView::<S>::EmitResult { record },
                EventView::<S>::Done,
            );
        }
        if rank(stage) >= 23 {
            let record = choose|record: AuditCompleteRecordView|
                #[trigger] happened(
                    request,
                    home,
                    before,
                    ActionView::<S>::EmitComplete { record },
                    EventView::<S>::Done,
                );
            lemma_still_happened(
                request,
                home,
                events,
                ActionView::<S>::EmitComplete { record },
                EventView::<S>::Done,
            );
        }
        match (stage, events.last()) {
            (StageView::StartNotice { plan }, EventView::Done) => {
                assert(happened(
                    request,
                    home,
                    events,
                    ActionView::<S>::EmitStart { record: start_record(request, plan) },
                    EventView::<S>::Done,
                ));
            },
            (StageView::ResultNotice { download, written, duration_ms }, EventView::Done) => {
                assert(happened(
                    request,
                    home,
                    events,
                    ActionView::<S>::EmitResult {
                        record: download_record(download, written, duration_ms),
                    },
                    EventView::<S>::Done,
                ));
            },
            (StageView::CompleteNotice { download, written, duration_ms }, EventView::Done) => {
                assert(happened(
                    request,
                    home,
                    events,
                    ActionView::<S>::EmitComplete {
                        record: complete_record(request, download, written, duration_ms),
                    },
                    EventView::<S>::Done,
                ));
            },
            _ => {},
        }
    }
}

proof fn lemma_told_early<S>(
    request: RequestView,
    home: Option<Seq<u8>>,
    events: Seq<EventView<S>>,
)
    ensures
        completion_told(request, home, events) ==> rank(stage_after(request, home, events)) >= 23,
    decreases events.len(),
{
    if completion_told(request, home, events) {
        let record = choose|record: AuditCompleteRecordView|
            #[trigger] happened(
                request,
                home,
                events,
                ActionView::<S>::EmitComplete { record },
                EventView::<S>::Done,
            );
        reveal(happened);
        let action = ActionView::<S>::EmitComplete { record };
        let i = choose|i: int| #[trigger]
            came_of(request, home, events, i, action) && events[i] == EventView::<S>::Done;
        let before = events.drop_last();
        if i < before.len() {
            assert(before.take(i) =~= events.take(i));
            assert(came_of(request, home, before, i, action));
            assert(happened(request, home, before, action, EventView::<S>::Done));
            assert(completion_told(request, home, before));
            lemma_told_early(request, home, before);
        } else {
            assert(events.take(i) =~= before);
        }
    }
}

/// The completion is told exactly of a download that succeeds: one that is done has told
/// it, and one that has told it is done, or has only a difference in size left to tell. It
/// is never told without the start, and neither is a failure behind it.
pub proof fn law_completion_means_success<S>(
    request: RequestView,
    home: Option<Seq<u8>>,
    events: Seq<EventView<S>>,
)
    ensures
        ({
            let action = action_after(request, home, events);
            &&& action is Finish ==> completion_told(request, home, events)
            &&& completion_told(request, home, events) ==> action is Finish || (action is Notice
                && action_after(request, home, events.push(EventView::Done)) is Finish)
            &&& completion_told(request, home, events) ==> start_told(request, home, events)
            &&& completion_told(request, home, events) && !request.stdout ==> result_told(
                request,
                home,
                events,
            )
            &&& action is GetObject ==> start_told(request, home, events)
        }),
{
    lemma_told(request, home, events);
    lemma_told_early(request, home, events);
    assert(events.push(EventView::<S>::Done).drop_last() =~= events);
}

/// A completion that is told is told as a success.
pub proof fn law_completion_says_success<S>(request: RequestView, stage: StageView<S>)
    ensures
        wanted(request, stage) matches ActionView::EmitComplete { record } ==> record.event
            == "get_object_complete"@ && record.outcome == "success"@,
        wanted(request, stage) matches ActionView::EmitStart { record } ==> record.event
            == "get_object_start"@,
{
}

/// Whether some file is the destination and was made.
pub open spec fn some_file_made<S>(
    request: RequestView,
    home: Option<Seq<u8>>,
    events: Seq<EventView<S>>,
) -> bool {
    exists|path: Seq<u8>| #[trigger] file_made(request, home, events, path)
}

proof fn lemma_made_to_the_end<S>(
    request: RequestView,
    home: Option<Seq<u8>>,
    events: Seq<EventView<S>>,
)
    requires
        !request.stdout,
    ensures
        rank(stage_after(request, home, events)) >= 17 ==> some_file_made(request, home, events),
    decreases events.len(),
{
    lemma_made(request, home, events);
    let now = stage_after(request, home, events);
    if plan_of(now) is None && events.len() > 0 && rank(now) >= 17 {
        let before = events.drop_last();
        lemma_made_to_the_end(request, home, before);
        if rank(stage_after(request, home, before)) >= 17 {
            let path = choose|path: Seq<u8>| #[trigger] file_made(request, home, before, path);
            lemma_still_made(request, home, events, path);
        }
    } else if rank(now) >= 17 {
        assert(file_made(request, home, events, plan_of(now)->0.destination));
    }
}

/// A download is done only with the whole body flushed, and, where it goes to a file, with
/// that file created in its directory and closed.
pub proof fn law_done_is_whole<S>(
    request: RequestView,
    home: Option<Seq<u8>>,
    events: Seq<EventView<S>>,
)
    requires
        action_after(request, home, events) is Finish,
    ensures
        happened(request, home, events, ActionView::ReadChunk, EventView::EndOfBody),
        happened(
            request,
            home,
            events,
            ActionView::Flush { to_stdout: request.stdout },
            EventView::Done,
        ),
        !request.stdout ==> happened(
            request,
            home,
            events,
            ActionView::CloseFile,
            EventView::Done,
        ),
        !request.stdout ==> some_file_made(request, home, events),
{
    lemma_counted(request, home, events);
    if !request.stdout {
        lemma_made_to_the_end(request, home, events);
    }
}

/// The line that an action prints on standard error.
pub open spec fn error_line<S>(action: ActionView<S>) -> Option<Seq<char>> {
    match action {
        ActionView::EmitStart { record } => Some(object_text(start_members(record))),
        ActionView::EmitComplete { record } => Some(object_text(complete_members(record))),
        ActionView::Notice { line } => Some(line),
        ActionView::Fail { record } => Some(object_text(error_members(record))),
        _ => None,
    }
}

/// Each line on standard error is a JSON object, on one line. But for the report of a
/// failure it bears the run's identifier, the same on each, which is a version 7 UUID.
pub proof fn law_standard_error_is_json_lines<S>(request: RequestView, stage: StageView<S>)
    requires
        is_uuid_v7(request.run_id),
    ensures
        error_line(wanted(request, stage)) matches Some(line) ==> {
            &&& is_object(line)
            &&& one_line(line)
            &&& wanted(request, stage) !is Fail ==> exists|run_id: Seq<char>|
                #[trigger] object_with(line, "run_id"@, run_id) && run_id == request.run_id
                    && is_uuid_v7(run_id)
        },
{
    let members = match wanted(request, stage) {
        ActionView::EmitStart { record } => start_members(record),
        ActionView::EmitComplete { record } => complete_members(record),
        ActionView::Fail { record } => error_members(record),
        _ => match stage {
            StageView::CaBundleNotice { bundle, .. } => ca_bundle_members(
                request.run_id,
                bundle,
                request.system,
            ),
            StageView::SizeNotice { expected, written } => size_members(
                request.run_id,
                expected,
                written,
            ),
            _ => seq![],
        },
    };
    match error_line(wanted(request, stage)) {
        Some(line) => {
            assert(line == object_text(members));
            law_objects_are_one_line(members);
            if wanted(request, stage) !is Fail {
                assert(members[1] == text_member("run_id"@, request.run_id));
                assert(members.contains(text_member("run_id"@, request.run_id)));
                assert(object_with(line, "run_id"@, request.run_id));
            }
        },
        None => {},
    }
}

/// Unless more was asked for, an unknown alias is answered alike whatever aliases there are
/// and wherever they are kept.
pub proof fn law_aliases_hidden_unless_verbose<S>(
    request: RequestView,
    config: Seq<u8>,
    aliases: AliasList<S>,
    other_config: Seq<u8>,
    other_aliases: AliasList<S>,
)
    requires
        !request.verbose,
        parsed_source(request.source) is Ok,
        lookup(aliases, parsed_source(request.source)->Ok_0.0) is None,
        lookup(other_aliases, parsed_source(request.source)->Ok_0.0) is None,
    ensures
        configured(request, config, aliases) == configured(request, other_config, other_aliases),
        configured(request, config, aliases) == (StageView::<S>::Failed {
            error: GetErrorView::UnknownAlias { alias: parsed_source(request.source)->Ok_0.0 },
        }),
{
}

/// Whether an event is what an action comes to where it does not fail.
pub open spec fn answers<S>(action: ActionView<S>, event: EventView<S>) -> bool {
    match action {
        ActionView::ReadMode { .. } => event is Mode,
        ActionView::ReadSize { .. } => event is Size,
        ActionView::ParseConfig => event is Config,
        ActionView::ProbeDirectory { .. } => event is Answer,
        ActionView::ProbeExists { .. } => event is Answer,
        ActionView::GetObject { .. } => event is Object,
        ActionView::ProbeLink { .. } => event is Answer,
        ActionView::ReadChunk => event is Chunk || event is EndOfBody,
        ActionView::ReadClock => event is Elapsed,
        ActionView::Finish => false,
        ActionView::Fail { .. } => false,
        _ => event is Done,
    }
}

/// A download waits for the answer to its own action: the answer takes it on, and nothing
/// but the answer or a failure does.
pub proof fn law_answers_take_it_on<S>(
    request: RequestView,
    stage: StageView<S>,
    event: EventView<S>,
)
    ensures
        answers(wanted(request, stage), event) ==> advanced(request, stage, event) != stage,
        !answers(wanted(request, stage), event) && event !is Failed ==> advanced(
            request,
            stage,
            event,
        ) == stage,
{
    match stage {
        StageView::ParentLinks { at, .. } => {
            law_parent_is_shorter(at, request.system);
        },
        _ => {},
    }
}

/// A failure outside ends a download that was doing what can fail, with the cause behind
/// what was being done, and is passed over otherwise.
pub proof fn law_failures_are_told<S>(
    request: RequestView,
    home: Option<Seq<u8>>,
    events: Seq<EventView<S>>,
    cause: Seq<char>,
)
    ensures
        action_after(request, home, events.push(EventView::Failed(cause))) == match undertaking(
            request,
            stage_after(request, home, events),
        ) {
            Some(context) => ActionView::<S>::Fail {
                record: ErrorRecordView {
                    status: "error"@,
                    error: match context {
                        Some(context) => context + ": "@ + cause,
                        None => cause,
                    },
                },
            },
            None => action_after(request, home, events),
        },
{
    assert(events.push(EventView::<S>::Failed(cause)).drop_last() =~= events);
}

/// The start is told with the address of the store that the source's alias stands for, in
/// the region that the user asked for, and in the style in which the store is spoken to.
pub proof fn law_start_follows_alias<S>(
    request: RequestView,
    home: Option<Seq<u8>>,
    events: Seq<EventView<S>>,
    record: AuditStartRecordView,
)
    requires
        action_after(request, home, events) == (ActionView::<S>::EmitStart { record }),
    ensures
        exists|target: TargetView<S>|
            {
                &&& #[trigger] target_configured(request, home, events, target)
                &&& record.endpoint == target.alias.url
                &&& addressed_by_path(target.alias.url, target.alias.path, record.path_style)
            },
        in_region(request, record.region),
{
    lemma_target(request, home, events);
    lemma_plan(request, home, events);
    let target = target_of(stage_after(request, home, events))->0;
    law_path_style(target.alias.url, target.alias.path);
    assert(target_configured(request, home, events, target));
}

} // verus!
