//! What a download does not tell: credentials go to the client and nowhere else, and no
//! failure speaks of the store behind an alias.
use vstd::prelude::*;

use crate::config::{distinct_names, lookup, names_of, AliasList, McAliasView};
use crate::session::{DownloadView, EventView, PlanView, RequestView, StageView, TargetView};
use crate::steps::{advanced, configured, wanted};

verus! {

/// A change of aliases into others.
pub type AliasChange<S> = spec_fn(McAliasView<S>) -> McAliasView<S>;

/// Whether a change touches nothing but credentials.
pub open spec fn of_credentials<S>(change: AliasChange<S>) -> bool {
    forall|alias: McAliasView<S>|
        {
            &&& (#[trigger] change(alias)).url == alias.url
            &&& change(alias).api == alias.api
            &&& change(alias).path == alias.path
        }
}

/// The aliases of a configuration, changed.
pub open spec fn changed_list<S>(change: AliasChange<S>, list: AliasList<S>) -> AliasList<S> {
    list.map_values(|e: (Seq<char>, McAliasView<S>)| (e.0, change(e.1)))
}

/// A target with its alias changed.
pub open spec fn changed_target<S>(change: AliasChange<S>, target: TargetView<S>) -> TargetView<S> {
    TargetView { alias: change(target.alias), ..target }
}

/// A plan with its alias changed.
pub open spec fn changed_plan<S>(change: AliasChange<S>, plan: PlanView<S>) -> PlanView<S> {
    PlanView { target: changed_target(change, plan.target), ..plan }
}

/// A download with its alias changed.
pub open spec fn changed_download<S>(
    change: AliasChange<S>,
    download: DownloadView<S>,
) -> DownloadView<S> {
    DownloadView { plan: changed_plan(change, download.plan), ..download }
}

/// A stage with its alias changed.
pub open spec fn changed_stage<S>(change: AliasChange<S>, stage: StageView<S>) -> StageView<S> {
    match stage {
        StageView::DestinationKind { target, path } => StageView::DestinationKind {
            target: changed_target(change, target),
            path,
        },
        StageView::DestinationFree { plan } => StageView::DestinationFree {
            plan: changed_plan(change, plan),
        },
        StageView::CaBundleSize { plan, bundle } => StageView::CaBundleSize {
            plan: changed_plan(change, plan),
            bundle,
        },
        StageView::CaBundleText { plan, bundle } => StageView::CaBundleText {
            plan: changed_plan(change, plan),
            bundle,
        },
        StageView::CaBundleTrust { plan, bundle } => StageView::CaBundleTrust {
            plan: changed_plan(change, plan),
            bundle,
        },
        StageView::CaBundleNotice { plan, bundle } => StageView::CaBundleNotice {
            plan: changed_plan(change, plan),
            bundle,
        },
        StageView::Client { plan } => StageView::Client { plan: changed_plan(change, plan) },
        StageView::StartNotice { plan } => StageView::StartNotice {
            plan: changed_plan(change, plan),
        },
        StageView::Object { plan } => StageView::Object { plan: changed_plan(change, plan) },
        StageView::ParentKnown { download, parent } => StageView::ParentKnown {
            download: changed_download(change, download),
            parent,
        },
        StageView::ParentLinks { download, parent, at } => StageView::ParentLinks {
            download: changed_download(change, download),
            parent,
            at,
        },
        StageView::ParentMade { download, parent } => StageView::ParentMade {
            download: changed_download(change, download),
            parent,
        },
        StageView::FileMade { download } => StageView::FileMade {
            download: changed_download(change, download),
        },
        StageView::Body { download, written } => StageView::Body {
            download: changed_download(change, download),
            written,
        },
        StageView::Piece { download, total } => StageView::Piece {
            download: changed_download(change, download),
            total,
        },
        StageView::Flush { download, written } => StageView::Flush {
            download: changed_download(change, download),
            written,
        },
        StageView::Close { download, written } => StageView::Close {
            download: changed_download(change, download),
            written,
        },
        StageView::Clock { download, written } => StageView::Clock {
            download: changed_download(change, download),
            written,
        },
        StageView::ResultNotice { download, written, duration_ms } => StageView::ResultNotice {
            download: changed_download(change, download),
            written,
            duration_ms,
        },
        StageView::CompleteNotice { download, written, duration_ms } => StageView::CompleteNotice {
            download: changed_download(change, download),
            written,
            duration_ms,
        },
        _ => stage,
    }
}

/// An event with its aliases changed.
pub open spec fn changed_event<S>(change: AliasChange<S>, event: EventView<S>) -> EventView<S> {
    match event {
        EventView::Config(list) => EventView::Config(changed_list(change, list)),
        _ => event,
    }
}

/// Whether the configuration of an event, where it has one, holds no name twice.
pub open spec fn names_once<S>(event: EventView<S>) -> bool {
    event matches EventView::Config(list) ==> distinct_names(list)
}

proof fn lemma_changed_lookup<S>(change: AliasChange<S>, list: AliasList<S>, name: Seq<char>)
    requires
        distinct_names(list),
    ensures
        names_of(changed_list(change, list)) == names_of(list),
        lookup(changed_list(change, list), name) == match lookup(list, name) {
            Some(alias) => Some(change(alias)),
            None => None,
        },
{
    let other = changed_list(change, list);
    assert(names_of(other) =~= names_of(list));
    assert forall|i: int| 0 <= i < list.len() implies (#[trigger] other[i]).0 == list[i].0 by {}
    if exists|i: int| 0 <= i < list.len() && (#[trigger] list[i]).0 == name {
        let i = choose|i: int| 0 <= i < list.len() && (#[trigger] list[i]).0 == name;
        assert(other[i].0 == name);
        let k = choose|k: int| 0 <= k < other.len() && (#[trigger] other[k]).0 == name;
        assert(list[k].0 == name);
        assert(i == k);
    }
}

proof fn lemma_changed_configured<S>(
    request: RequestView,
    change: AliasChange<S>,
    config: Seq<u8>,
    list: AliasList<S>,
)
    requires
        distinct_names(list),
    ensures
        ({
            let here = configured(request, config, list);
            let there = configured(request, config, changed_list(change, list));
            &&& here is Failed <==> there is Failed
            &&& here is Failed ==> here == there
            &&& of_credentials(change) ==> there == changed_stage(change, here)
        }),
{
    match crate::source::parsed_source(request.source) {
        Ok((alias_name, _, _)) => {
            lemma_changed_lookup(change, list, alias_name);
        },
        Err(_) => {},
    }
}

/// A download does not depend on the credentials: with others in their place it takes the
/// same course, and wants the same done but for the making of the client.
pub proof fn law_credentials_reach_only_the_client<S>(
    request: RequestView,
    change: AliasChange<S>,
    stage: StageView<S>,
    event: EventView<S>,
)
    requires
        of_credentials(change),
        names_once(event),
    ensures
        advanced(request, changed_stage(change, stage), changed_event(change, event))
            == changed_stage(change, advanced(request, stage, event)),
        wanted(request, stage) is OpenClient <==> wanted(
            request,
            changed_stage(change, stage),
        ) is OpenClient,
        wanted(request, stage) !is OpenClient ==> wanted(request, changed_stage(change, stage))
            == wanted(request, stage),
{
    match (stage, event) {
        (StageView::ConfigValue { config }, EventView::Config(list)) => {
            lemma_changed_configured(request, change, config, list);
        },
        _ => {},
    }
}

/// No failure tells of the store behind an alias: with another store in its place, whatever
/// its address, the same event fails or not, and fails alike.
pub proof fn law_failures_hide_the_store<S>(
    request: RequestView,
    change: AliasChange<S>,
    stage: StageView<S>,
    event: EventView<S>,
)
    requires
        names_once(event),
    ensures
        ({
            let here = advanced(request, stage, event);
            let there = advanced(
                request,
                changed_stage(change, stage),
                changed_event(change, event),
            );
            &&& here is Failed <==> there is Failed
            &&& here is Failed ==> here == there
        }),
{
    match (stage, event) {
        (StageView::ConfigValue { config }, EventView::Config(list)) => {
            lemma_changed_configured(request, change, config, list);
        },
        _ => {},
    }
}

} // verus!
