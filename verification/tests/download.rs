//! Whole downloads, step by step.
use s3_get::config::{McAlias, McConfig};
use s3_get::error::GetError;
use s3_get::path::FilePath;
use s3_get::record::{new_run_id, Timestamp};
use s3_get::session::{Action, Event, ObjectReply, Request, Stage};
use s3_get::steps::{advance, begin, begin_in, next_action};
use s3_get::system::System;

const SOURCE: &str = "myminio/docs-bucket/reports/2026/Q2/report.pdf";

fn asked(source: &str) -> Request {
    Request {
        source: source.to_string(),
        destination: None,
        config: Some(FilePath::from_text("/c.json")),
        region: None,
        ca_bundle: None,
        stdout: false,
        overwrite: false,
        verbose: false,
        run_id: new_run_id(),
        system: System::Unix,
    }
}

fn aliases() -> McConfig<String> {
    let myminio = McAlias {
        url: "https://minio.example.com".to_string(),
        access_key: "the access key".to_string(),
        secret_key: "the other key".to_string(),
        api: Some("S3v4".to_string()),
        path: Some("auto".to_string()),
    };
    let amazon = McAlias {
        url: "https://s3.amazonaws.com".to_string(),
        access_key: "a".to_string(),
        secret_key: "b".to_string(),
        api: None,
        path: None,
    };
    McConfig::new("10".to_string())
        .with("myminio".to_string(), myminio)
        .with("amazon".to_string(), amazon)
}

fn reply(content_length: Option<i64>) -> ObjectReply {
    ObjectReply {
        etag: Some("\"d41d8cd98f00b204e9800998ecf8427e\"".to_string()),
        content_type: Some("text/csv".to_string()),
        content_length,
        last_modified: Some(Timestamp::new(1_780_927_200, 0)),
    }
}

fn told(action: &Action<'_, String>) -> String {
    match action {
        Action::ReadMode { path } => format!("mode {}", path.show(System::Unix)),
        Action::ReadSize { path } => format!("size {}", path.show(System::Unix)),
        Action::ReadConfig { path } => format!("read {}", path.show(System::Unix)),
        Action::ParseConfig => "parse".to_string(),
        Action::ProbeDirectory { path } => format!("directory? {}", path.show(System::Unix)),
        Action::ProbeExists { path } => format!("exists? {}", path.show(System::Unix)),
        Action::ReadCaBundle { path } => format!("bundle {}", path.show(System::Unix)),
        Action::TrustCaBundle => "trust".to_string(),
        Action::Notice { line } => format!("notice {}", line),
        Action::OpenClient { settings } => {
            format!("client {} {} {}", settings.endpoint, settings.region, settings.path_style)
        }
        Action::EmitStart { record } => format!("start {}", record.destination),
        Action::GetObject { bucket, key } => format!("get {} {}", bucket, key),
        Action::ProbeLink { path } => format!("link? {}", path.show(System::Unix)),
        Action::CreateDirectories { path } => format!("mkdir {}", path.show(System::Unix)),
        Action::CreateFile { path } => format!("create {}", path.show(System::Unix)),
        Action::ReadChunk => "chunk".to_string(),
        Action::WriteChunk { to_stdout } => format!("write {}", to_stdout),
        Action::Flush { to_stdout } => format!("flush {}", to_stdout),
        Action::CloseFile => "close".to_string(),
        Action::ReadClock => "clock".to_string(),
        Action::EmitResult { record } => format!("result {}", record.size),
        Action::EmitComplete { record } => format!("complete {}", record.size),
        Action::Finish => "finish".to_string(),
        Action::Fail { record } => format!("fail {}", record.error),
    }
}

struct Run {
    request: Request,
    stage: Stage<String>,
}

impl Run {
    fn new(request: Request) -> Run {
        let stage = begin(&request);
        Run { request, stage }
    }

    fn told(&self) -> String {
        told(&next_action(&self.request, &self.stage))
    }

    /// Expects this action, and gives it this outcome.
    fn on(self, action: &str, event: Event<String>) -> Run {
        assert_eq!(self.told(), action);
        let stage = advance(&self.request, self.stage, event);
        Run { request: self.request, stage }
    }

    /// Expects the notice of this event, with these members behind the run.
    fn noticed(self, event: &str, members: &str) -> Run {
        let line = format!(
            "notice {{\"event\":\"{}\",\"run_id\":\"{}\"{}}}",
            event,
            self.request.run_id.as_str(),
            members
        );
        self.on(&line, Event::Done)
    }

    fn ends(self, action: &str) -> Run {
        assert_eq!(self.told(), action);
        let stage = advance(&self.request, self.stage, Event::Done);
        let run = Run { request: self.request, stage };
        assert_eq!(run.told(), action);
        run
    }

    /// Goes on to where the aliases are known.
    fn configured(self) -> Run {
        self.on("mode /c.json", Event::Mode(Some(0o100600)))
            .on("size /c.json", Event::Size(300))
            .on("read /c.json", Event::Done)
            .on("parse", Event::Config(aliases()))
    }

    /// Goes on to the request for the object, by way of a free destination.
    fn announced(self) -> Run {
        self.configured()
            .on("exists? ./report.pdf", Event::Answer(false))
            .on("client https://minio.example.com us-east-1 true", Event::Done)
            .on("start ./report.pdf", Event::Done)
    }

    /// Goes on to the body, by way of the current directory.
    fn opened(self, content_length: Option<i64>) -> Run {
        self.announced()
            .on(
                "get docs-bucket reports/2026/Q2/report.pdf",
                Event::Object(reply(content_length)),
            )
            .on("exists? .", Event::Answer(true))
            .on("create ./report.pdf", Event::Done)
    }
}

fn failed(cause: &str) -> Event<String> {
    Event::Failed(cause.to_string())
}

#[test]
fn a_file_is_downloaded() {
    Run::new(asked(SOURCE))
        .opened(Some(7))
        .on("chunk", Event::Chunk(4))
        .on("write false", Event::Done)
        .on("chunk", Event::Chunk(3))
        .on("write false", Event::Done)
        .on("chunk", Event::EndOfBody)
        .on("flush false", Event::Done)
        .on("close", Event::Done)
        .on("clock", Event::Elapsed(523))
        .on("result 7", Event::Done)
        .on("complete 7", Event::Done)
        .ends("finish");
}

#[test]
fn an_object_is_streamed_to_standard_output() {
    let mut request = asked(SOURCE);
    request.stdout = true;
    Run::new(request)
        .configured()
        .on("client https://minio.example.com us-east-1 true", Event::Done)
        .on("start <stdout>", Event::Done)
        .on("get docs-bucket reports/2026/Q2/report.pdf", Event::Object(reply(Some(2))))
        .on("chunk", Event::Chunk(2))
        .on("write true", Event::Done)
        .on("chunk", Event::EndOfBody)
        .on("flush true", Event::Done)
        .on("clock", Event::Elapsed(1))
        .on("complete 2", Event::Done)
        .ends("finish");
}

#[test]
fn the_start_record_is_complete() {
    let run = Run::new(asked(SOURCE))
        .configured()
        .on("exists? ./report.pdf", Event::Answer(false))
        .on("client https://minio.example.com us-east-1 true", Event::Done);
    match next_action(&run.request, &run.stage) {
        Action::EmitStart { record } => {
            assert_eq!(record.event, "get_object_start");
            assert_eq!(record.run_id, run.request.run_id.as_str());
            assert_eq!(record.alias, "myminio");
            assert_eq!(record.endpoint, "https://minio.example.com");
            assert_eq!(record.bucket, "docs-bucket");
            assert_eq!(record.key, "reports/2026/Q2/report.pdf");
            assert_eq!(record.destination, "./report.pdf");
            assert_eq!(record.region, "us-east-1");
            assert!(record.path_style);
            assert_eq!(record.pq_kx, "X25519MLKEM768");
            assert_eq!(record.ca_bundle, None);
        }
        other => panic!("{}", told(&other)),
    };
}

#[test]
fn the_result_and_completion_records_are_complete() {
    let run = Run::new(asked(SOURCE))
        .opened(Some(4096))
        .on("chunk", Event::Chunk(4096))
        .on("write false", Event::Done)
        .on("chunk", Event::EndOfBody)
        .on("flush false", Event::Done)
        .on("close", Event::Done)
        .on("clock", Event::Elapsed(347));
    match next_action(&run.request, &run.stage) {
        Action::EmitResult { record } => {
            assert_eq!(record.status, "success");
            assert_eq!(record.record_type, "download");
            assert_eq!(record.bucket, "docs-bucket");
            assert_eq!(record.key, "reports/2026/Q2/report.pdf");
            assert_eq!(record.destination, "./report.pdf");
            assert_eq!(record.size, 4096);
            assert_eq!(
                record.etag.as_deref(),
                Some("\"d41d8cd98f00b204e9800998ecf8427e\"")
            );
            assert_eq!(record.content_type.as_deref(), Some("text/csv"));
            assert_eq!(record.last_modified.as_deref(), Some("2026-06-08T14:00:00Z"));
            assert_eq!(record.duration_ms, 347);
        }
        other => panic!("{}", told(&other)),
    }
    let run = run.on("result 4096", Event::Done);
    match next_action(&run.request, &run.stage) {
        Action::EmitComplete { record } => {
            assert_eq!(record.event, "get_object_complete");
            assert_eq!(record.run_id, run.request.run_id.as_str());
            assert_eq!(record.alias, "myminio");
            assert_eq!(record.bucket, "docs-bucket");
            assert_eq!(record.key, "reports/2026/Q2/report.pdf");
            assert_eq!(record.destination, "./report.pdf");
            assert_eq!(record.size, 4096);
            assert_eq!(
                record.etag.as_deref(),
                Some("\"d41d8cd98f00b204e9800998ecf8427e\"")
            );
            assert_eq!(record.duration_ms, 347);
            assert_eq!(record.outcome, "success");
        }
        other => panic!("{}", told(&other)),
    };
}

#[test]
fn an_object_may_say_nothing_of_itself() {
    let silent = ObjectReply {
        etag: None,
        content_type: None,
        content_length: None,
        last_modified: None,
    };
    let run = Run::new(asked(SOURCE))
        .announced()
        .on("get docs-bucket reports/2026/Q2/report.pdf", Event::Object(silent))
        .on("exists? .", Event::Answer(true))
        .on("create ./report.pdf", Event::Done)
        .on("chunk", Event::EndOfBody)
        .on("flush false", Event::Done)
        .on("close", Event::Done)
        .on("clock", Event::Elapsed(0));
    match next_action(&run.request, &run.stage) {
        Action::EmitResult { record } => {
            assert_eq!(record.size, 0);
            assert!(record.etag.is_none());
            assert!(record.content_type.is_none());
            assert!(record.last_modified.is_none());
        }
        other => panic!("{}", told(&other)),
    }
    run.on("result 0", Event::Done).on("complete 0", Event::Done).ends("finish");
}

#[test]
fn the_client_gets_the_alias_and_the_timeouts() {
    let mut request = asked("amazon/b/k");
    request.region = Some("eu-west-1".to_string());
    request.overwrite = true;
    let run = Run::new(request).configured();
    match next_action(&run.request, &run.stage) {
        Action::OpenClient { settings } => {
            assert_eq!(settings.endpoint, "https://s3.amazonaws.com");
            assert_eq!(settings.region, "eu-west-1");
            assert!(!settings.path_style);
            assert_eq!(settings.access_key, "a");
            assert_eq!(settings.secret_key, "b");
            assert_eq!(settings.credentials_origin, "mc-config");
            assert_eq!(settings.connect_timeout_secs, 10);
            assert_eq!(settings.operation_timeout_secs, 300);
            assert_eq!(settings.attempt_timeout_secs, 120);
        }
        other => panic!("{}", told(&other)),
    };
}

#[test]
fn credentials_change_nothing_but_the_client() {
    let mut request = asked("amazon/b/k");
    request.overwrite = true;
    let other = McConfig::new("10".to_string()).with(
        "amazon".to_string(),
        McAlias {
            url: "https://s3.amazonaws.com".to_string(),
            access_key: "x".to_string(),
            secret_key: "y".to_string(),
            api: None,
            path: None,
        },
    );
    let run = Run::new(request)
        .on("mode /c.json", Event::Mode(Some(0o600)))
        .on("size /c.json", Event::Size(1))
        .on("read /c.json", Event::Done)
        .on("parse", Event::Config(other));
    match next_action(&run.request, &run.stage) {
        Action::OpenClient { settings } => {
            assert_eq!(settings.access_key, "x");
            assert_eq!(settings.secret_key, "y");
        }
        other => panic!("{}", told(&other)),
    }
    run.on("client https://s3.amazonaws.com us-east-1 false", Event::Done)
        .on("start ./k", Event::Done)
        .on("get b k", failed("refused"))
        .ends("fail GetObject request failed: refused");
}

#[test]
fn a_long_source_is_refused_first() {
    let run = Run::new(asked(&"x".repeat(2049)));
    run.ends("fail source string exceeds maximum allowed length (2048 chars)");
}

#[test]
fn a_download_without_home_directory_fails() {
    let mut request = asked(SOURCE);
    request.config = None;
    let stage = begin_in(&request, None);
    Run { request, stage }.ends("fail cannot determine home directory");
}

#[test]
fn a_download_reads_the_configuration_of_its_home() {
    let mut request = asked(SOURCE);
    request.config = None;
    let stage = begin_in(&request, Some(FilePath::from_text("/home/ann")));
    assert_eq!(Run { request, stage }.told(), "mode /home/ann/.mc/config.json");
}

#[test]
fn an_open_configuration_is_not_read() {
    Run::new(asked(SOURCE)).on("mode /c.json", Event::Mode(Some(0o100644))).ends(
        "fail /c.json is accessible by group/others (mode 644). \
         Expected 0600. Fix with: chmod 600 /c.json",
    );
}

#[test]
fn a_large_configuration_is_not_read() {
    Run::new(asked(SOURCE))
        .on("mode /c.json", Event::Mode(None))
        .on("size /c.json", Event::Size(1_048_577))
        .ends("fail config file /c.json exceeds maximum allowed size (1048576 bytes)");
}

#[test]
fn failures_with_the_configuration_are_told() {
    Run::new(asked(SOURCE))
        .on("mode /c.json", failed("No such file or directory (os error 2)"))
        .ends("fail cannot stat /c.json: No such file or directory (os error 2)");
    Run::new(asked(SOURCE))
        .on("mode /c.json", Event::Mode(None))
        .on("size /c.json", failed("gone"))
        .ends("fail cannot stat /c.json: gone");
    Run::new(asked(SOURCE))
        .on("mode /c.json", Event::Mode(None))
        .on("size /c.json", Event::Size(1_048_576))
        .on("read /c.json", failed("stream did not contain valid UTF-8"))
        .ends("fail failed to read /c.json: stream did not contain valid UTF-8");
    Run::new(asked(SOURCE))
        .on("mode /c.json", Event::Mode(None))
        .on("size /c.json", Event::Size(0))
        .on("read /c.json", Event::Done)
        .on("parse", failed("EOF while parsing a value at line 1 column 0"))
        .ends("fail failed to parse /c.json: EOF while parsing a value at line 1 column 0");
}

#[test]
fn an_unknown_alias_is_refused_briefly() {
    let run = Run::new(asked("bogus/b/k")).configured();
    assert!(matches!(run.stage, Stage::Failed { error: GetError::UnknownAlias { .. } }));
    match next_action(&run.request, &run.stage) {
        Action::Fail { record } => {
            assert_eq!(record.status, "error");
            assert_eq!(record.error, "alias 'bogus' not found in config");
        }
        other => panic!("{}", told(&other)),
    };
}

#[test]
fn an_unknown_alias_is_refused_at_length_on_request() {
    let mut request = asked("bogus/b/k");
    request.verbose = true;
    Run::new(request).configured().ends(
        "fail alias 'bogus' not found in /c.json  (known aliases: [\"myminio\", \"amazon\"])",
    );
}

#[test]
fn the_source_is_read_behind_the_configuration() {
    Run::new(asked("")).configured().ends("fail source must start with an alias name");
    Run::new(asked("myminio/b/folder/"))
        .configured()
        .ends("fail cannot derive filename from object key");
}

#[test]
fn an_existing_destination_is_kept() {
    Run::new(asked(SOURCE))
        .configured()
        .on("exists? ./report.pdf", Event::Answer(true))
        .ends("fail destination ./report.pdf already exists. Use --overwrite to replace.");
}

#[test]
fn an_existing_destination_is_replaced_on_request() {
    let mut request = asked(SOURCE);
    request.overwrite = true;
    let run = Run::new(request).configured();
    assert_eq!(run.told(), "client https://minio.example.com us-east-1 true");
}

#[test]
fn the_disk_says_whether_a_destination_is_a_directory() {
    for (is_dir, expected) in [(true, "exists? out/report.pdf"), (false, "exists? out")] {
        let mut request = asked(SOURCE);
        request.destination = Some(FilePath::from_text("out"));
        let run = Run::new(request).configured().on("directory? out", Event::Answer(is_dir));
        assert_eq!(run.told(), expected);
    }
    let mut request = asked(SOURCE);
    request.destination = Some(FilePath::from_text("./downloads/"));
    assert_eq!(Run::new(request).configured().told(), "exists? ./downloads/report.pdf");
}

#[test]
fn standard_output_asks_for_the_directory_too() {
    let mut request = asked(SOURCE);
    request.destination = Some(FilePath::from_text("out"));
    request.stdout = true;
    Run::new(request)
        .configured()
        .on("directory? out", Event::Answer(false))
        .on("client https://minio.example.com us-east-1 true", Event::Done)
        .on("start <stdout>", Event::Done);
}

#[test]
fn a_missing_directory_is_made() {
    let mut request = asked(SOURCE);
    request.destination = Some(FilePath::from_text("a/b/"));
    Run::new(request)
        .configured()
        .on("exists? a/b/report.pdf", Event::Answer(false))
        .on("client https://minio.example.com us-east-1 true", Event::Done)
        .on("start a/b/report.pdf", Event::Done)
        .on("get docs-bucket reports/2026/Q2/report.pdf", Event::Object(reply(None)))
        .on("exists? a/b", Event::Answer(false))
        .on("link? a/b", Event::Answer(false))
        .on("link? a", Event::Answer(false))
        .on("mkdir a/b", Event::Done)
        .on("create a/b/report.pdf", Event::Done)
        .on("chunk", Event::EndOfBody);
}

#[test]
fn a_directory_is_not_made_through_a_link() {
    for (answers, link) in [(vec![true], "/a/b"), (vec![false, true], "/a")] {
        let mut request = asked(SOURCE);
        request.destination = Some(FilePath::from_text("/a/b/"));
        request.overwrite = true;
        let mut run = Run::new(request)
            .configured()
            .on("client https://minio.example.com us-east-1 true", Event::Done)
            .on("start /a/b/report.pdf", Event::Done)
            .on("get docs-bucket reports/2026/Q2/report.pdf", Event::Object(reply(None)))
            .on("exists? /a/b", Event::Answer(false));
        for (answer, path) in answers.into_iter().zip(["link? /a/b", "link? /a"]) {
            run = run.on(path, Event::Answer(answer));
        }
        run.ends(&format!(
            "fail failed to create directory /a/b: {} is a symbolic link",
            link
        ));
    }
}

#[test]
fn every_directory_up_to_the_root_is_probed_for_links() {
    let mut request = asked(SOURCE);
    request.destination = Some(FilePath::from_text("/a/b/"));
    request.overwrite = true;
    Run::new(request)
        .configured()
        .on("client https://minio.example.com us-east-1 true", Event::Done)
        .on("start /a/b/report.pdf", Event::Done)
        .on("get docs-bucket reports/2026/Q2/report.pdf", Event::Object(reply(None)))
        .on("exists? /a/b", Event::Answer(false))
        .on("link? /a/b", Event::Answer(false))
        .on("link? /a", Event::Answer(false))
        .on("link? /", Event::Answer(false))
        .on("mkdir /a/b", Event::Done)
        .on("create /a/b/report.pdf", Event::Done);
}

#[test]
fn a_path_without_directory_needs_none() {
    let mut request = asked(SOURCE);
    request.destination = Some(FilePath::from_text("x"));
    request.overwrite = true;
    Run::new(request)
        .configured()
        .on("directory? x", Event::Answer(false))
        .on("client https://minio.example.com us-east-1 true", Event::Done)
        .on("start x", Event::Done)
        .on("get docs-bucket reports/2026/Q2/report.pdf", Event::Object(reply(None)))
        .on("create x", Event::Done);
}

#[test]
fn a_backslash_leaves_the_kind_of_a_destination_open() {
    let mut request = asked(SOURCE);
    request.destination = Some(FilePath::from_text("out\\"));
    let run = Run::new(request).configured().on("directory? out\\", Event::Answer(false));
    assert_eq!(run.told(), "exists? out\\");
}

#[test]
fn a_ca_bundle_is_vetted_trusted_and_announced() {
    let mut request = asked(SOURCE);
    request.ca_bundle = Some(FilePath::from_text("/ca.pem"));
    request.overwrite = true;
    let run = Run::new(request)
        .configured()
        .on("size /ca.pem", Event::Size(10_485_760))
        .on("bundle /ca.pem", Event::Done)
        .on("trust", Event::Done)
        .noticed("ca_bundle_loaded", ",\"path\":\"/ca.pem\"")
        .on("client https://minio.example.com us-east-1 true", Event::Done);
    match next_action(&run.request, &run.stage) {
        Action::EmitStart { record } => {
            assert_eq!(record.ca_bundle.as_deref(), Some("/ca.pem"))
        }
        other => panic!("{}", told(&other)),
    };
}

#[test]
fn a_ca_bundle_path_that_is_no_text_is_marked() {
    let mut request = asked(SOURCE);
    request.ca_bundle = Some(FilePath::from_bytes(vec![b'/', 0xfe]));
    request.overwrite = true;
    let run = Run::new(request)
        .configured()
        .on("size /\u{fffd}", Event::Size(1))
        .on("bundle /\u{fffd}", Event::Done)
        .on("trust", Event::Done);
    let run = Run { stage: advance(&run.request, run.stage, Event::Done), request: run.request }
        .on("client https://minio.example.com us-east-1 true", Event::Done);
    match next_action(&run.request, &run.stage) {
        Action::EmitStart { record } => assert_eq!(record.ca_bundle.as_deref(), Some("?")),
        other => panic!("{}", told(&other)),
    };
}

#[test]
fn failures_with_the_ca_bundle_are_told() {
    let with_bundle = || {
        let mut request = asked(SOURCE);
        request.ca_bundle = Some(FilePath::from_text("/ca.pem"));
        request.overwrite = true;
        Run::new(request).configured()
    };
    with_bundle()
        .on("size /ca.pem", failed("gone"))
        .ends("fail cannot stat CA bundle /ca.pem: gone");
    with_bundle()
        .on("size /ca.pem", Event::Size(10_485_761))
        .ends("fail CA bundle /ca.pem exceeds maximum allowed size (10485760 bytes)");
    with_bundle()
        .on("size /ca.pem", Event::Size(1))
        .on("bundle /ca.pem", failed("denied"))
        .ends("fail failed to read CA bundle /ca.pem: denied");
    with_bundle()
        .on("size /ca.pem", Event::Size(1))
        .on("bundle /ca.pem", Event::Done)
        .on("trust", failed("bad"))
        .ends("fail failed to build TLS context from CA bundle: bad");
}

#[test]
fn a_refused_request_is_told() {
    Run::new(asked(SOURCE))
        .announced()
        .on("get docs-bucket reports/2026/Q2/report.pdf", failed("service error"))
        .ends("fail GetObject request failed: service error");
    let mut request = asked(SOURCE);
    request.verbose = true;
    Run::new(request)
        .announced()
        .on("get docs-bucket reports/2026/Q2/report.pdf", failed("service error"))
        .ends(
            "fail GetObject failed: bucket=docs-bucket key=reports/2026/Q2/report.pdf: \
             service error",
        );
}

#[test]
fn failures_with_the_file_are_told() {
    Run::new(asked(SOURCE))
        .announced()
        .on("get docs-bucket reports/2026/Q2/report.pdf", Event::Object(reply(None)))
        .on("exists? .", Event::Answer(false))
        .on("link? .", Event::Answer(false))
        .on("mkdir .", failed("denied"))
        .ends("fail failed to create directory .: denied");
    Run::new(asked(SOURCE))
        .announced()
        .on("get docs-bucket reports/2026/Q2/report.pdf", Event::Object(reply(None)))
        .on("exists? .", Event::Answer(true))
        .on("create ./report.pdf", failed("denied"))
        .ends("fail failed to create ./report.pdf: denied");
    Run::new(asked(SOURCE))
        .opened(None)
        .on("chunk", failed("reset"))
        .ends("fail error reading object body: reset");
    Run::new(asked(SOURCE))
        .opened(None)
        .on("chunk", Event::Chunk(1))
        .on("write false", failed("full"))
        .ends("fail error writing to ./report.pdf: full");
    Run::new(asked(SOURCE))
        .opened(None)
        .on("chunk", Event::EndOfBody)
        .on("flush false", failed("full"))
        .ends("fail error flushing output file: full");
    Run::new(asked(SOURCE))
        .opened(None)
        .on("chunk", Event::EndOfBody)
        .on("flush false", Event::Done)
        .on("close", failed("full"))
        .ends("fail error closing output file: full");
}

#[test]
fn failures_with_standard_output_are_told() {
    let streaming = || {
        let mut request = asked(SOURCE);
        request.stdout = true;
        Run::new(request)
            .configured()
            .on("client https://minio.example.com us-east-1 true", Event::Done)
            .on("start <stdout>", Event::Done)
            .on("get docs-bucket reports/2026/Q2/report.pdf", Event::Object(reply(None)))
    };
    streaming()
        .on("chunk", Event::Chunk(1))
        .on("write true", failed("broken pipe"))
        .ends("fail error writing to stdout: broken pipe");
    streaming()
        .on("chunk", Event::EndOfBody)
        .on("flush true", failed("broken pipe"))
        .ends("fail error flushing stdout: broken pipe");
}

#[test]
fn a_record_that_cannot_be_printed_ends_the_download() {
    Run::new(asked(SOURCE))
        .configured()
        .on("exists? ./report.pdf", Event::Answer(false))
        .on("client https://minio.example.com us-east-1 true", Event::Done)
        .on("start ./report.pdf", failed("unprintable"))
        .ends("fail unprintable");
}

fn completed(content_length: Option<i64>, written: u64) -> Run {
    let complete = format!("complete {}", written);
    let result = format!("result {}", written);
    Run::new(asked(SOURCE))
        .opened(content_length)
        .on("chunk", Event::Chunk(written))
        .on("write false", Event::Done)
        .on("chunk", Event::EndOfBody)
        .on("flush false", Event::Done)
        .on("close", Event::Done)
        .on("clock", Event::Elapsed(9))
        .on(&result, Event::Done)
        .on(&complete, Event::Done)
}

#[test]
fn a_size_that_differs_is_told_behind_the_completion() {
    completed(Some(1_048_576), 1_048_000)
        .noticed("size_mismatch", ",\"expected\":1048576,\"actual\":1048000")
        .ends("finish");
}

#[test]
fn an_announced_length_of_zero_is_compared_too() {
    completed(Some(0), 5)
        .noticed("size_mismatch", ",\"expected\":0,\"actual\":5")
        .ends("finish");
}

#[test]
fn a_length_that_agrees_or_is_missing_is_not_told() {
    completed(Some(12), 12).ends("finish");
    completed(Some(0), 0).ends("finish");
    completed(None, 12).ends("finish");
}

#[test]
fn events_out_of_turn_change_nothing() {
    let run = Run::new(asked(SOURCE))
        .on("mode /c.json", Event::EndOfBody)
        .on("mode /c.json", Event::Done)
        .on("mode /c.json", Event::Answer(true))
        .announced()
        .on("get docs-bucket reports/2026/Q2/report.pdf", Event::Chunk(3));
    assert_eq!(run.told(), "get docs-bucket reports/2026/Q2/report.pdf");
}

#[test]
fn nothing_fails_where_nothing_can() {
    let run = Run::new(asked(SOURCE)).configured().on("exists? ./report.pdf", failed("odd"));
    assert_eq!(run.told(), "exists? ./report.pdf");
}

#[test]
fn the_bytes_are_counted_up_to_the_last() {
    let run = Run::new(asked(SOURCE))
        .opened(None)
        .on("chunk", Event::Chunk(u64::MAX - 1))
        .on("write false", Event::Done)
        .on("chunk", Event::Chunk(1))
        .on("write false", Event::Done);
    assert!(matches!(run.stage, Stage::Body { written: u64::MAX, .. }));
}

#[test]
fn failures_say_nothing_of_the_store() {
    let mut told = Vec::new();
    for url in ["https://one.example.com", "https://two.amazonaws.com"] {
        let alias = McAlias {
            url: url.to_string(),
            access_key: "k1".to_string(),
            secret_key: "k2".to_string(),
            api: None,
            path: None,
        };
        let mut request = asked("store/b/k");
        request.overwrite = true;
        let mut stage = begin(&request);
        for event in [
            Event::Mode(None),
            Event::Size(1),
            Event::Done,
            Event::Config(McConfig::new("10".to_string()).with("store".to_string(), alias)),
            Event::Done,
            Event::Done,
            failed("timed out"),
        ] {
            stage = advance(&request, stage, event);
        }
        match next_action(&request, &stage) {
            Action::Fail { record } => told.push(record.error),
            _ => panic!("it should have failed"),
        };
    }
    assert_eq!(told[0], "GetObject request failed: timed out");
    assert_eq!(told[0], told[1]);
}
