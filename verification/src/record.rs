//! What a download reports: the result for standard output, the audit records for
//! standard error, and the pieces that they are made of.
use vstd::prelude::*;

use crate::json::{
    flag_member, member_views, null_member, number_member, object_line, object_text, some_member,
    text_member, JsonValue, JsonValueView, Member, MemberView,
};
use crate::outside::{format_date_time, in_rfc3339_years, is_uuid_v7, rfc3339_text, uuid_now_v7};
use crate::path::{shown, FilePath};
use crate::system::System;
use crate::text::opt_text;

verus! {

/// The result of a download.
pub struct DownloadRecord {
    pub status: &'static str,
    pub record_type: &'static str,
    pub bucket: String,
    pub key: String,
    pub destination: String,
    pub size: u64,
    pub etag: Option<String>,
    pub content_type: Option<String>,
    pub last_modified: Option<String>,
    pub duration_ms: u128,
}

/// The model of [`DownloadRecord`].
pub struct DownloadRecordView {
    pub status: Seq<char>,
    pub record_type: Seq<char>,
    pub bucket: Seq<char>,
    pub key: Seq<char>,
    pub destination: Seq<char>,
    pub size: nat,
    pub etag: Option<Seq<char>>,
    pub content_type: Option<Seq<char>>,
    pub last_modified: Option<Seq<char>>,
    pub duration_ms: u128,
}

impl View for DownloadRecord {
    type V = DownloadRecordView;

    open spec fn view(&self) -> DownloadRecordView {
        DownloadRecordView {
            status: self.status@,
            record_type: self.record_type@,
            bucket: self.bucket@,
            key: self.key@,
            destination: self.destination@,
            size: self.size as nat,
            etag: opt_text(self.etag),
            content_type: opt_text(self.content_type),
            last_modified: opt_text(self.last_modified),
            duration_ms: self.duration_ms,
        }
    }
}

/// The report of a failure.
pub struct ErrorRecord {
    pub status: &'static str,
    pub error: String,
}

/// The model of [`ErrorRecord`].
pub struct ErrorRecordView {
    pub status: Seq<char>,
    pub error: Seq<char>,
}

impl View for ErrorRecord {
    type V = ErrorRecordView;

    open spec fn view(&self) -> ErrorRecordView {
        ErrorRecordView { status: self.status@, error: self.error@ }
    }
}

/// The audit record before the request.
pub struct AuditStartRecord {
    pub event: &'static str,
    pub run_id: String,
    pub alias: String,
    pub endpoint: String,
    pub bucket: String,
    pub key: String,
    pub destination: String,
    pub region: String,
    pub path_style: bool,
    pub pq_kx: &'static str,
    pub ca_bundle: Option<String>,
}

/// The model of [`AuditStartRecord`].
pub struct AuditStartRecordView {
    pub event: Seq<char>,
    pub run_id: Seq<char>,
    pub alias: Seq<char>,
    pub endpoint: Seq<char>,
    pub bucket: Seq<char>,
    pub key: Seq<char>,
    pub destination: Seq<char>,
    pub region: Seq<char>,
    pub path_style: bool,
    pub pq_kx: Seq<char>,
    pub ca_bundle: Option<Seq<char>>,
}

impl View for AuditStartRecord {
    type V = AuditStartRecordView;

    open spec fn view(&self) -> AuditStartRecordView {
        AuditStartRecordView {
            event: self.event@,
            run_id: self.run_id@,
            alias: self.alias@,
            endpoint: self.endpoint@,
            bucket: self.bucket@,
            key: self.key@,
            destination: self.destination@,
            region: self.region@,
            path_style: self.path_style,
            pq_kx: self.pq_kx@,
            ca_bundle: opt_text(self.ca_bundle),
        }
    }
}

/// The audit record behind a complete download.
pub struct AuditCompleteRecord {
    pub event: &'static str,
    pub run_id: String,
    pub alias: String,
    pub bucket: String,
    pub key: String,
    pub destination: String,
    pub size: u64,
    pub etag: Option<String>,
    pub duration_ms: u128,
    pub outcome: &'static str,
}

/// The model of [`AuditCompleteRecord`].
pub struct AuditCompleteRecordView {
    pub event: Seq<char>,
    pub run_id: Seq<char>,
    pub alias: Seq<char>,
    pub bucket: Seq<char>,
    pub key: Seq<char>,
    pub destination: Seq<char>,
    pub size: nat,
    pub etag: Option<Seq<char>>,
    pub duration_ms: u128,
    pub outcome: Seq<char>,
}

impl View for AuditCompleteRecord {
    type V = AuditCompleteRecordView;

    open spec fn view(&self) -> AuditCompleteRecordView {
        AuditCompleteRecordView {
            event: self.event@,
            run_id: self.run_id@,
            alias: self.alias@,
            bucket: self.bucket@,
            key: self.key@,
            destination: self.destination@,
            size: self.size as nat,
            etag: opt_text(self.etag),
            duration_ms: self.duration_ms,
            outcome: self.outcome@,
        }
    }
}

/// A moment: seconds since the Unix epoch, and nanoseconds behind that second.
#[derive(Clone, Copy)]
pub struct Timestamp {
    secs: i64,
    nanos: u32,
}

impl View for Timestamp {
    type V = (i64, u32);

    closed spec fn view(&self) -> (i64, u32) {
        (self.secs, self.nanos)
    }
}

impl Timestamp {
    #[verifier::type_invariant]
    spec fn well_formed(self) -> bool {
        self.nanos < 1_000_000_000
    }

    /// The moment `nanos` nanoseconds behind second `secs`.
    pub fn new(secs: i64, nanos: u32) -> (time: Timestamp)
        requires
            nanos < 1_000_000_000,
        ensures
            time@ == (secs, nanos),
    {
        Timestamp { secs, nanos }
    }
}

/// A moment in RFC 3339, or nothing where RFC 3339 cannot write it.
pub open spec fn time_text(time: (i64, u32)) -> Seq<char> {
    if in_rfc3339_years(time.0) {
        rfc3339_text(time.0, time.1)
    } else {
        Seq::empty()
    }
}

/// `text`, or the empty text where there is none.
pub fn text_or_empty(text: Option<String>) -> (r: String)
    ensures
        r@ == match text {
            Some(t) => t@,
            None => Seq::empty(),
        },
{
    match text {
        Some(text) => text,
        None => String::new(),
    }
}

/// A moment in RFC 3339, empty where it lies outside the years 1 to 9999.
pub fn format_dt(dt: Option<&Timestamp>) -> (text: Option<String>)
    ensures
        match dt {
            Some(time) => opt_text(text) == Some(time_text(time@)),
            None => text is None,
        },
{
    match dt {
        Some(time) => {
            proof {
                use_type_invariant(time);
            }
            let text = match format_date_time(time.secs, time.nanos) {
                Ok(text) => Some(text),
                Err(_) => None,
            };
            Some(text_or_empty(text))
        },
        None => None,
    }
}

/// The identifier of one run: a version 7 UUID.
pub struct RunId {
    text: String,
}

impl View for RunId {
    type V = Seq<char>;

    closed spec fn view(&self) -> Seq<char> {
        self.text@
    }
}

impl RunId {
    /// Whether the identifier is a version 7 UUID.
    #[verifier::type_invariant]
    pub open spec fn well_formed(self) -> bool {
        is_uuid_v7(self@)
    }

    /// The identifier as text.
    pub fn as_str(&self) -> (text: &str)
        ensures
            text@ == self@,
            is_uuid_v7(self@),
    {
        proof {
            use_type_invariant(self);
        }
        self.text.as_str()
    }
}

/// An identifier for a new run.
pub fn new_run_id() -> (id: RunId)
    ensures
        is_uuid_v7(id@),
{
    RunId { text: uuid_now_v7() }
}

/// The length that a reply announces, where it announces one. A negative one counts as its
/// two's complement.
pub open spec fn announced(content_length: Option<i64>) -> Option<nat> {
    match content_length {
        Some(n) => Some(
            if n >= 0 {
                n as nat
            } else {
                (n + 0x1_0000_0000_0000_0000) as nat
            },
        ),
        None => None,
    }
}

/// The length that a reply announces, where it announces one.
pub fn announced_length(content_length: Option<i64>) -> (length: Option<u64>)
    ensures
        opt_length(length) == announced(content_length),
{
    match content_length {
        Some(n) => {
            assert(n < 0 ==> (n as u64) == n + 0x1_0000_0000_0000_0000) by (bit_vector);
            Some(#[verifier::truncate] (n as u64))
        },
        None => None,
    }
}

/// The view of an optional length.
pub open spec fn opt_length(length: Option<u64>) -> Option<nat> {
    match length {
        Some(n) => Some(n as nat),
        None => None,
    }
}

/// The announced length that a download of `written` bytes is at odds with.
pub open spec fn size_missed(announced: Option<nat>, written: nat) -> Option<nat> {
    match announced {
        Some(expected) => if written != expected {
            Some(expected)
        } else {
            None
        },
        None => None,
    }
}

/// The members of the notice that a CA bundle is trusted besides the system's roots.
pub open spec fn ca_bundle_members(run_id: Seq<char>, path: Seq<u8>, system: System) -> Seq<
    MemberView,
> {
    seq![
        text_member("event"@, "ca_bundle_loaded"@),
        text_member("run_id"@, run_id),
        text_member("path"@, shown(path, system)),
    ]
}

/// The members of the notice that the size is not the announced one.
pub open spec fn size_members(run_id: Seq<char>, expected: nat, actual: nat) -> Seq<MemberView> {
    seq![
        text_member("event"@, "size_mismatch"@),
        text_member("run_id"@, run_id),
        number_member("expected"@, expected),
        number_member("actual"@, actual),
    ]
}

/// The line that says that a CA bundle is trusted besides the system's roots.
pub open spec fn ca_bundle_notice(run_id: Seq<char>, path: Seq<u8>, system: System) -> Seq<char> {
    object_text(ca_bundle_members(run_id, path, system))
}

/// The line that says that the size is not the announced one.
pub open spec fn size_notice(run_id: Seq<char>, expected: nat, actual: nat) -> Seq<char> {
    object_text(size_members(run_id, expected, actual))
}

/// The line that says that a CA bundle is trusted besides the system's roots.
pub fn ca_bundle_line(run_id: &RunId, path: &FilePath, system: System) -> (line: String)
    ensures
        line@ == ca_bundle_notice(run_id@, path@, system),
{
    let mut members: Vec<Member> = Vec::new();
    members.push(text("event", "ca_bundle_loaded"));
    members.push(text("run_id", run_id.as_str()));
    members.push(text("path", path.show(system).as_str()));
    assert(member_views(members@) =~= ca_bundle_members(run_id@, path@, system));
    object_line(&members)
}

/// The line that says that the size is not the announced one.
pub fn size_mismatch_line(run_id: &RunId, expected: u64, actual: u64) -> (line: String)
    ensures
        line@ == size_notice(run_id@, expected as nat, actual as nat),
{
    let mut members: Vec<Member> = Vec::new();
    members.push(text("event", "size_mismatch"));
    members.push(text("run_id", run_id.as_str()));
    members.push(number("expected", expected as u128));
    members.push(number("actual", actual as u128));
    assert(member_views(members@) =~= size_members(run_id@, expected as nat, actual as nat));
    object_line(&members)
}

fn text(name: &'static str, value: &str) -> (member: Member)
    ensures
        member@ == text_member(name@, value@),
{
    Member { name, value: JsonValue::Text(value.to_string()) }
}

fn number(name: &'static str, value: u128) -> (member: Member)
    ensures
        member@ == number_member(name@, value as nat),
{
    Member { name, value: JsonValue::Number(value) }
}

fn push_some(members: &mut Vec<Member>, name: &'static str, value: &Option<String>)
    ensures
        member_views(final(members)@) == member_views(old(members)@) + some_member(
            name@,
            opt_text(*value),
        ),
{
    match value {
        Some(value) => {
            members.push(text(name, value.as_str()));
        },
        None => {},
    }
    assert(member_views(members@) =~= member_views(old(members)@) + some_member(
        name@,
        opt_text(*value),
    ));
}

/// The members of a download's result. What the store did not say is left out.
pub open spec fn download_members(record: DownloadRecordView) -> Seq<MemberView> {
    seq![
        text_member("status"@, record.status),
        text_member("type"@, record.record_type),
        text_member("bucket"@, record.bucket),
        text_member("key"@, record.key),
        text_member("destination"@, record.destination),
        number_member("size"@, record.size),
    ] + some_member("etag"@, record.etag) + some_member("content_type"@, record.content_type)
        + some_member("last_modified"@, record.last_modified) + seq![
        number_member("duration_ms"@, record.duration_ms as nat),
    ]
}

/// The members of the report of a failure.
pub open spec fn error_members(record: ErrorRecordView) -> Seq<MemberView> {
    seq![text_member("status"@, record.status), text_member("error"@, record.error)]
}

/// The members of the audit record before the request. Without a CA bundle there is `null`
/// in its place.
pub open spec fn start_members(record: AuditStartRecordView) -> Seq<MemberView> {
    seq![
        text_member("event"@, record.event),
        text_member("run_id"@, record.run_id),
        text_member("alias"@, record.alias),
        text_member("endpoint"@, record.endpoint),
        text_member("bucket"@, record.bucket),
        text_member("key"@, record.key),
        text_member("destination"@, record.destination),
        text_member("region"@, record.region),
        flag_member("path_style"@, record.path_style),
        text_member("pq_kx"@, record.pq_kx),
        null_member("ca_bundle"@, record.ca_bundle),
    ]
}

/// The members of the audit record behind a complete download. A tag that the store did not
/// give is left out.
pub open spec fn complete_members(record: AuditCompleteRecordView) -> Seq<MemberView> {
    seq![
        text_member("event"@, record.event),
        text_member("run_id"@, record.run_id),
        text_member("alias"@, record.alias),
        text_member("bucket"@, record.bucket),
        text_member("key"@, record.key),
        text_member("destination"@, record.destination),
        number_member("size"@, record.size),
    ] + some_member("etag"@, record.etag) + seq![
        number_member("duration_ms"@, record.duration_ms as nat),
        text_member("outcome"@, record.outcome),
    ]
}

impl DownloadRecord {
    /// The record as one line of JSON.
    pub fn line(&self) -> (line: String)
        ensures
            line@ == object_text(download_members(self@)),
    {
        let mut members: Vec<Member> = Vec::new();
        members.push(text("status", self.status));
        members.push(text("type", self.record_type));
        members.push(text("bucket", self.bucket.as_str()));
        members.push(text("key", self.key.as_str()));
        members.push(text("destination", self.destination.as_str()));
        members.push(number("size", self.size as u128));
        let ghost first = member_views(members@);
        push_some(&mut members, "etag", &self.etag);
        push_some(&mut members, "content_type", &self.content_type);
        push_some(&mut members, "last_modified", &self.last_modified);
        let ghost most = member_views(members@);
        members.push(number("duration_ms", self.duration_ms));
        proof {
            assert(first =~= seq![
                text_member("status"@, self@.status),
                text_member("type"@, self@.record_type),
                text_member("bucket"@, self@.bucket),
                text_member("key"@, self@.key),
                text_member("destination"@, self@.destination),
                number_member("size"@, self@.size),
            ]);
            assert(member_views(members@) =~= most + seq![
                number_member("duration_ms"@, self@.duration_ms as nat),
            ]);
        }
        object_line(&members)
    }
}

impl ErrorRecord {
    /// The record as one line of JSON.
    pub fn line(&self) -> (line: String)
        ensures
            line@ == object_text(error_members(self@)),
    {
        let mut members: Vec<Member> = Vec::new();
        members.push(text("status", self.status));
        members.push(text("error", self.error.as_str()));
        assert(member_views(members@) =~= error_members(self@));
        object_line(&members)
    }
}

impl AuditStartRecord {
    /// The record as one line of JSON.
    pub fn line(&self) -> (line: String)
        ensures
            line@ == object_text(start_members(self@)),
    {
        let mut members: Vec<Member> = Vec::new();
        members.push(text("event", self.event));
        members.push(text("run_id", self.run_id.as_str()));
        members.push(text("alias", self.alias.as_str()));
        members.push(text("endpoint", self.endpoint.as_str()));
        members.push(text("bucket", self.bucket.as_str()));
        members.push(text("key", self.key.as_str()));
        members.push(text("destination", self.destination.as_str()));
        members.push(text("region", self.region.as_str()));
        members.push(Member { name: "path_style", value: JsonValue::Flag(self.path_style) });
        members.push(text("pq_kx", self.pq_kx));
        members.push(
            match &self.ca_bundle {
                Some(bundle) => text("ca_bundle", bundle.as_str()),
                None => Member { name: "ca_bundle", value: JsonValue::Null },
            },
        );
        assert(member_views(members@) =~= start_members(self@));
        object_line(&members)
    }
}

impl AuditCompleteRecord {
    /// The record as one line of JSON.
    pub fn line(&self) -> (line: String)
        ensures
            line@ == object_text(complete_members(self@)),
    {
        let mut members: Vec<Member> = Vec::new();
        members.push(text("event", self.event));
        members.push(text("run_id", self.run_id.as_str()));
        members.push(text("alias", self.alias.as_str()));
        members.push(text("bucket", self.bucket.as_str()));
        members.push(text("key", self.key.as_str()));
        members.push(text("destination", self.destination.as_str()));
        members.push(number("size", self.size as u128));
        let ghost first = member_views(members@);
        push_some(&mut members, "etag", &self.etag);
        let ghost most = member_views(members@);
        members.push(number("duration_ms", self.duration_ms));
        members.push(text("outcome", self.outcome));
        proof {
            assert(first =~= seq![
                text_member("event"@, self@.event),
                text_member("run_id"@, self@.run_id),
                text_member("alias"@, self@.alias),
                text_member("bucket"@, self@.bucket),
                text_member("key"@, self@.key),
                text_member("destination"@, self@.destination),
                number_member("size"@, self@.size),
            ]);
            assert(member_views(members@) =~= most + seq![
                number_member("duration_ms"@, self@.duration_ms as nat),
                text_member("outcome"@, self@.outcome),
            ]);
        }
        object_line(&members)
    }
}

/// The announced length is the number in the header, and none where there is no header. It
/// is missed exactly by another number of bytes.
pub proof fn law_lengths(n: i64, announced_bytes: nat, written: nat)
    ensures
        announced(None) is None,
        n >= 0 ==> announced(Some(n)) == Some(n as nat),
        n < 0 ==> announced(Some(n)) == Some((n + 18_446_744_073_709_551_616) as nat),
        size_missed(None, written) is None,
        size_missed(Some(announced_bytes), written) is None <==> written == announced_bytes,
        written != announced_bytes ==> size_missed(Some(announced_bytes), written) == Some(
            announced_bytes,
        ),
        opt_length(None) is None,
        n >= 0 ==> opt_length(Some(n as u64)) == Some(n as nat),
{
}

/// A moment is told in RFC 3339 exactly in the years 1 to 9999, and as nothing outside them.
pub proof fn law_moments(secs: i64, nanos: u32)
    ensures
        -62_135_596_800 <= secs <= 253_402_300_799 ==> time_text((secs, nanos)) == rfc3339_text(
            secs,
            nanos,
        ),
        secs < -62_135_596_800 || secs > 253_402_300_799 ==> time_text((secs, nanos)).len() == 0,
{
}

/// What a result tells, and in what order: what the store did not say is left out.
pub proof fn law_result_members(record: DownloadRecordView)
    ensures
        ({
            let members = download_members(record);
            let tag = if record.etag is Some {
                1int
            } else {
                0
            };
            let kind = if record.content_type is Some {
                1int
            } else {
                0
            };
            let time = if record.last_modified is Some {
                1int
            } else {
                0
            };
            &&& members.len() == 7 + tag + kind + time
            &&& members[0] == text_member("status"@, record.status)
            &&& members[1] == text_member("type"@, record.record_type)
            &&& members[2] == text_member("bucket"@, record.bucket)
            &&& members[3] == text_member("key"@, record.key)
            &&& members[4] == text_member("destination"@, record.destination)
            &&& members[5] == number_member("size"@, record.size)
            &&& record.etag matches Some(text) ==> members[6] == text_member("etag"@, text)
            &&& record.content_type matches Some(text) ==> members[6 + tag] == text_member(
                "content_type"@,
                text,
            )
            &&& record.last_modified matches Some(text) ==> members[6 + tag + kind]
                == text_member("last_modified"@, text)
            &&& members.last() == number_member("duration_ms"@, record.duration_ms as nat)
        }),
{
}

/// What the report of a failure tells.
pub proof fn law_failure_members(record: ErrorRecordView)
    ensures
        error_members(record).len() == 2,
        error_members(record)[0] == text_member("status"@, record.status),
        error_members(record)[1] == text_member("error"@, record.error),
{
}

/// What the audit record of the start tells, and in what order.
pub proof fn law_start_members(record: AuditStartRecordView)
    ensures
        ({
            let members = start_members(record);
            &&& members.len() == 11
            &&& members[0] == text_member("event"@, record.event)
            &&& members[1] == text_member("run_id"@, record.run_id)
            &&& members[2] == text_member("alias"@, record.alias)
            &&& members[3] == text_member("endpoint"@, record.endpoint)
            &&& members[4] == text_member("bucket"@, record.bucket)
            &&& members[5] == text_member("key"@, record.key)
            &&& members[6] == text_member("destination"@, record.destination)
            &&& members[7] == text_member("region"@, record.region)
            &&& members[8].name == "path_style"@ && members[8].value == JsonValueView::Flag(
                record.path_style,
            )
            &&& members[9] == text_member("pq_kx"@, record.pq_kx)
            &&& members[10].name == "ca_bundle"@ && members[10].value == match record.ca_bundle {
                Some(bundle) => JsonValueView::Text(bundle),
                None => JsonValueView::Null,
            }
        }),
{
}

/// What the audit record of the completion tells, and in what order: a tag that the store
/// did not give is left out.
pub proof fn law_completion_members(record: AuditCompleteRecordView)
    ensures
        ({
            let members = complete_members(record);
            let tag = if record.etag is Some {
                1int
            } else {
                0
            };
            &&& members.len() == 9 + tag
            &&& members[0] == text_member("event"@, record.event)
            &&& members[1] == text_member("run_id"@, record.run_id)
            &&& members[2] == text_member("alias"@, record.alias)
            &&& members[3] == text_member("bucket"@, record.bucket)
            &&& members[4] == text_member("key"@, record.key)
            &&& members[5] == text_member("destination"@, record.destination)
            &&& members[6] == number_member("size"@, record.size)
            &&& record.etag matches Some(text) ==> members[7] == text_member("etag"@, text)
            &&& members[7 + tag] == number_member("duration_ms"@, record.duration_ms as nat)
            &&& members[8 + tag] == text_member("outcome"@, record.outcome)
        }),
{
}

/// A member is its name and its value.
pub proof fn law_members(name: Seq<char>, value: Seq<char>, n: nat)
    ensures
        text_member(name, value).name == name,
        text_member(name, value).value == JsonValueView::Text(value),
        number_member(name, n).name == name,
        number_member(name, n).value == JsonValueView::Number(n),
{
}

/// The models of the records hold all that the records hold.
pub proof fn law_record_models(
    download: DownloadRecord,
    failure: ErrorRecord,
    start: AuditStartRecord,
    complete: AuditCompleteRecord,
)
    ensures
        download@.status == download.status@,
        download@.record_type == download.record_type@,
        download@.bucket == download.bucket@,
        download@.key == download.key@,
        download@.destination == download.destination@,
        download@.size == download.size,
        same_option(download@.etag, download.etag),
        same_option(download@.content_type, download.content_type),
        same_option(download@.last_modified, download.last_modified),
        download@.duration_ms == download.duration_ms,
        failure@.status == failure.status@,
        failure@.error == failure.error@,
        start@.event == start.event@,
        start@.run_id == start.run_id@,
        start@.alias == start.alias@,
        start@.endpoint == start.endpoint@,
        start@.bucket == start.bucket@,
        start@.key == start.key@,
        start@.destination == start.destination@,
        start@.region == start.region@,
        start@.path_style == start.path_style,
        start@.pq_kx == start.pq_kx@,
        same_option(start@.ca_bundle, start.ca_bundle),
        complete@.event == complete.event@,
        complete@.run_id == complete.run_id@,
        complete@.alias == complete.alias@,
        complete@.bucket == complete.bucket@,
        complete@.key == complete.key@,
        complete@.destination == complete.destination@,
        complete@.size == complete.size,
        same_option(complete@.etag, complete.etag),
        complete@.duration_ms == complete.duration_ms,
        complete@.outcome == complete.outcome@,
{
}

/// Whether a model of an optional text holds that text.
pub open spec fn same_option(model: Option<Seq<char>>, text: Option<String>) -> bool {
    match text {
        Some(text) => model == Some(text@),
        None => model is None,
    }
}

} // verus!
