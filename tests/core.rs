use my_grpc_extensions::channel::{
    apply_ping_outcome, complete_request, ExecutionOutcome, GrpcChannelHolder, GrpcReadError,
    GrpcStatus, PingOutcome, PingResult, StatusCode,
};
use my_grpc_extensions::connect_url::{
    extract_domain_name, resolve_ssh_credentials, starts_with_case_insensitive, GrpcConnectUrl,
    OverSshSettings, ResolvedPrivateKey, SshAuth, SshCredentials,
};
use my_grpc_extensions::server_stream::split_into_chunks;
use my_grpc_extensions::connector::{
    generate_unix_socket_file, plan_connection, port_forward_key, ConnectPlan, ForwardAction,
    PortForwardsPool, CONNECT_ATTEMPTS,
};
use my_grpc_extensions::retry::RetryPolicy;
use my_grpc_extensions::streamed_request::StreamedRequestState;
use my_grpc_extensions::streamed_response::{
    collect_next, next_item, single_next, CollectStep, ReadOutcome,
};
use my_grpc_extensions::telemetry::{
    has_multiple_ids, telemetry_from_header, GrpcClientInterceptor, TelemetryContext,
};

fn status(code: StatusCode, message: &str) -> GrpcStatus {
    GrpcStatus {
        code,
        message: message.to_string(),
    }
}

fn live_holder() -> GrpcChannelHolder<u32> {
    let mut holder = GrpcChannelHolder::new();
    holder.set("test-service", "http://h:50051".to_string(), 7);
    holder
}

#[test]
fn test_extracting_domain_name() {
    assert_eq!(extract_domain_name("https://localhost:5000"), "localhost");

    assert_eq!(extract_domain_name("https://localhost"), "localhost");
}

#[test]
fn domain_name_without_scheme() {
    assert_eq!(extract_domain_name("host:80"), "host");
    assert_eq!(extract_domain_name(""), "");
}

#[test]
fn holder_keeps_one_channel() {
    let mut holder: GrpcChannelHolder<u32> = GrpcChannelHolder::new();
    assert!(holder.get().is_none());
    holder.set("svc", "a".to_string(), 1);
    holder.set("svc", "b".to_string(), 2);
    assert_eq!(holder.get(), Some(&2));
    let dropped = holder.drop_channel().unwrap();
    assert_eq!(dropped.host, "b");
    assert_eq!(dropped.service_name, "svc");
    assert!(holder.get().is_none());
    assert!(holder.drop_channel().is_none());
}

#[test]
fn happy_unary_keeps_channel() {
    let mut holder = live_holder();
    let result = complete_request(&mut holder, ExecutionOutcome::Finished(Ok(42)));
    assert_eq!(result.unwrap(), 42);
    assert_eq!(holder.get(), Some(&7));
}

#[test]
fn timeout_drops_channel() {
    let mut holder = live_holder();
    let result: Result<i32, GrpcReadError> = complete_request(&mut holder, ExecutionOutcome::TimedOut);
    assert!(matches!(result, Err(GrpcReadError::Timeout)));
    assert!(holder.get().is_none());
}

#[test]
fn unknown_status_drops_channel() {
    let mut holder = live_holder();
    let result: Result<i32, GrpcReadError> = complete_request(
        &mut holder,
        ExecutionOutcome::Finished(Err(status(StatusCode::Unknown, "x"))),
    );
    match result {
        Err(GrpcReadError::TonicStatus(s)) => {
            assert_eq!(s.code, StatusCode::Unknown);
            assert_eq!(s.message, "x");
        }
        other => panic!("unexpected {:?}", other),
    }
    assert!(holder.get().is_none());
}

#[test]
fn other_status_keeps_channel() {
    let mut holder = live_holder();
    let result: Result<i32, GrpcReadError> = complete_request(
        &mut holder,
        ExecutionOutcome::Finished(Err(status(StatusCode::Internal, "boom"))),
    );
    assert!(matches!(result, Err(GrpcReadError::TonicStatus(GrpcStatus { code: StatusCode::Internal, .. }))));
    assert_eq!(holder.get(), Some(&7));
}

#[test]
fn drop_if_needed_only_for_unknown() {
    let mut holder = live_holder();
    assert!(!holder.drop_channel_if_needed(&GrpcReadError::Timeout));
    assert!(!holder.drop_channel_if_needed(&GrpcReadError::TransportError("refused".to_string())));
    assert!(holder.get().is_some());
    assert!(holder.drop_channel_if_needed(&GrpcReadError::TonicStatus(status(StatusCode::Unknown, ""))));
    assert!(holder.get().is_none());
}

#[test]
fn ping_outcomes() {
    let mut holder = live_holder();
    assert_eq!(apply_ping_outcome(&mut holder, PingOutcome::Finished(PingResult::Success)), None);
    assert_eq!(holder.get(), Some(&7));
    assert_eq!(
        apply_ping_outcome(&mut holder, PingOutcome::Finished(PingResult::Timeout)),
        Some("Ping Timeout")
    );
    assert!(holder.get().is_none());
    let mut holder = live_holder();
    assert_eq!(apply_ping_outcome(&mut holder, PingOutcome::Panicked), Some("Ping Panic"));
    assert!(holder.get().is_none());
}

/// Runs a retry loop whose every try fails with `Internal`, counting tries.
fn run_failing(max_attempts: usize) -> (usize, Result<u32, GrpcReadError>) {
    let mut holder = live_holder();
    let mut policy = RetryPolicy::start(max_attempts);
    let mut invocations = 0;
    loop {
        invocations += 1;
        let result: Result<u32, GrpcReadError> = complete_request(
            &mut holder,
            ExecutionOutcome::Finished(Err(status(StatusCode::Internal, "fail"))),
        );
        if !policy.retry_after(result.is_ok()) {
            assert_eq!(holder.get(), Some(&7));
            return (invocations, result);
        }
    }
}

#[test]
fn retry_exhaustion_makes_exactly_n_tries() {
    let (invocations, result) = run_failing(3);
    assert_eq!(invocations, 3);
    assert!(matches!(result, Err(GrpcReadError::TonicStatus(GrpcStatus { code: StatusCode::Internal, .. }))));
}

#[test]
fn retry_budget_of_zero_still_tries_once() {
    let (invocations, _) = run_failing(0);
    assert_eq!(invocations, 1);
    let (invocations, _) = run_failing(1);
    assert_eq!(invocations, 1);
}

#[test]
fn retry_stops_on_success() {
    let mut policy = RetryPolicy::start(5);
    assert_eq!(policy.attempts_made_count(), 1);
    assert!(!policy.retry_after(true));
    assert_eq!(policy.attempts_made_count(), 1);
    assert!(policy.retry_after(false));
    assert_eq!(policy.attempts_made_count(), 2);
    assert!(policy.can_attempt());
    assert_eq!(CONNECT_ATTEMPTS, 4);
}

#[test]
fn telemetry_header_values() {
    assert_eq!(GrpcClientInterceptor::new(TelemetryContext::Empty).to_string(), None);
    assert_eq!(
        GrpcClientInterceptor::new(TelemetryContext::Single(-15)).to_string(),
        Some("-15".to_string())
    );
    assert_eq!(
        GrpcClientInterceptor::new(TelemetryContext::Multiple(vec![1, 22, -3])).to_string(),
        Some("1,22,-3".to_string())
    );
}

#[test]
fn telemetry_header_round_trip() {
    for ctx in [
        TelemetryContext::Single(i64::MAX),
        TelemetryContext::Single(i64::MIN),
        TelemetryContext::Multiple(vec![5, 6]),
    ] {
        let header = GrpcClientInterceptor::new(ctx.clone_for_test()).to_string();
        let back = telemetry_from_header(header.as_deref());
        assert_eq!(format!("{:?}", back), format!("{:?}", ctx));
    }
    let empty = GrpcClientInterceptor::new(TelemetryContext::Empty).to_string();
    assert!(matches!(telemetry_from_header(empty.as_deref()), TelemetryContext::Empty));
}

trait CloneForTest {
    fn clone_for_test(&self) -> Self;
}

impl CloneForTest for TelemetryContext {
    fn clone_for_test(&self) -> Self {
        match self {
            TelemetryContext::Empty => TelemetryContext::Empty,
            TelemetryContext::Single(id) => TelemetryContext::Single(*id),
            TelemetryContext::Multiple(ids) => TelemetryContext::Multiple(ids.clone()),
        }
    }
}

#[test]
fn telemetry_header_parsing_edge_cases() {
    assert!(matches!(telemetry_from_header(None), TelemetryContext::Empty));
    assert!(matches!(telemetry_from_header(Some("abc")), TelemetryContext::Empty));
    assert!(matches!(telemetry_from_header(Some("1,x")), TelemetryContext::Empty));
    assert!(matches!(telemetry_from_header(Some("1,,2")), TelemetryContext::Empty));
    assert!(matches!(telemetry_from_header(Some("1,")), TelemetryContext::Empty));
    assert!(matches!(telemetry_from_header(Some("")), TelemetryContext::Empty));
    assert_eq!(GrpcClientInterceptor::new(TelemetryContext::Multiple(vec![])).to_string(), None);
    assert!(matches!(telemetry_from_header(Some("+7")), TelemetryContext::Single(7)));
    assert!(matches!(telemetry_from_header(Some("9223372036854775808")), TelemetryContext::Empty));
    match telemetry_from_header(Some("1,-2,+3")) {
        TelemetryContext::Multiple(ids) => assert_eq!(ids, vec![1, -2, 3]),
        other => panic!("unexpected {:?}", other),
    }
    match telemetry_from_header(Some("4")) {
        TelemetryContext::Single(id) => assert_eq!(id, 4),
        other => panic!("unexpected {:?}", other),
    }
    assert!(has_multiple_ids(b"1,2"));
    assert!(!has_multiple_ids(b"12"));
    assert!(!has_multiple_ids(b""));
}

#[test]
fn stream_in_scenario() {
    let mut request: StreamedRequestState<&str> = StreamedRequestState::new_as_stream();
    assert_eq!(request.send("A"), None);
    assert_eq!(request.send("B"), None);
    assert!(!request.send_eof());
    assert!(request.has_ended());
    let flushed = request.set_sender();
    assert_eq!(flushed, vec!["A", "B"]);
    assert!(request.has_consumer());
}

#[test]
fn stream_forwards_after_attach() {
    let mut request: StreamedRequestState<u8> = StreamedRequestState::new_as_stream();
    assert_eq!(request.send(1), None);
    assert_eq!(request.set_sender(), vec![1]);
    assert_eq!(request.send(2), Some(2));
    assert_eq!(request.send(3), Some(3));
    assert!(request.send_eof());
    assert!(!request.send_eof());
    assert!(request.as_vec().is_none());
}

#[test]
fn materialized_request() {
    let mut request = StreamedRequestState::new_as_vec(vec![1, 2, 3]);
    assert!(!request.has_consumer());
    assert!(!request.is_stream_mode());
    request.attach_materialized();
    assert!(request.has_consumer());
    assert_eq!(request.as_vec(), Some(&vec![1, 2, 3]));
}

#[test]
fn response_reading_steps() {
    match next_item::<u8>(ReadOutcome::TimedOut, 1500) {
        Some(Err(s)) => {
            assert_eq!(s.code, StatusCode::Aborted);
            assert_eq!(s.message, "Timeout 1500ms");
        }
        other => panic!("unexpected {:?}", other),
    }
    assert!(next_item::<u8>(ReadOutcome::End, 1).is_none());
    assert!(matches!(next_item(ReadOutcome::Item(Ok(5u8)), 1), Some(Ok(5))));

    let mut items = Vec::new();
    assert!(matches!(collect_next(&mut items, ReadOutcome::Item(Ok(1))), CollectStep::Continue));
    assert!(matches!(collect_next(&mut items, ReadOutcome::Item(Ok(2))), CollectStep::Continue));
    assert!(matches!(collect_next(&mut items, ReadOutcome::End), CollectStep::Done));
    assert_eq!(items, vec![1, 2]);
    assert!(matches!(
        collect_next(&mut items, ReadOutcome::TimedOut),
        CollectStep::Failed(GrpcReadError::Timeout)
    ));
    assert!(matches!(
        collect_next(&mut items, ReadOutcome::Item(Err(status(StatusCode::Internal, "")))),
        CollectStep::Failed(GrpcReadError::TonicStatus(_))
    ));
    assert_eq!(items, vec![1, 2]);

    let mut found = None;
    assert!(matches!(single_next(&mut found, ReadOutcome::Item(Ok(9))), CollectStep::Continue));
    assert!(matches!(single_next(&mut found, ReadOutcome::End), CollectStep::Done));
    assert_eq!(found, Some(9));
}

#[test]
fn connect_url_classification() {
    let unix = GrpcConnectUrl::parse("/tmp/test.sock".to_string());
    assert!(unix.is_unix_socket());
    assert_eq!(unix.as_str(), "/tmp/test.sock");
    assert!(GrpcConnectUrl::parse("~/a.sock".to_string()).is_unix_socket());

    let tcp = GrpcConnectUrl::parse("http://h:50051".to_string());
    assert!(!tcp.is_unix_socket());
    assert!(!tcp.is_over_ssh());
    assert_eq!(tcp.as_str(), "http://h:50051");
    assert_eq!(tcp.get_grpc_host(), "http://h:50051");
    assert!(!tcp.is_grpc_tls_endpoint());
    assert!(tcp.get_ssh_credentials().is_none());

    assert!(GrpcConnectUrl::parse("HTTPS://secure:443".to_string()).is_grpc_tls_endpoint());
    assert!(starts_with_case_insensitive("HtTpS://x", "https"));
    assert!(!starts_with_case_insensitive("http", "https"));
}

fn ssh_settings(remote_port: Option<u16>) -> OverSshSettings {
    OverSshSettings {
        credentials: SshCredentials {
            user_name: "user".to_string(),
            host: "jump".to_string(),
            port: 22,
            line: "ssh:user@jump:22".to_string(),
            auth: SshAuth::Agent,
        },
        remote_resource: "http://remote:5000".to_string(),
        remote_host: "remote".to_string(),
        remote_port,
    }
}

#[test]
fn plan_for_each_kind_of_endpoint() {
    match plan_connection(&GrpcConnectUrl::parse("/tmp/s.sock".to_string()), None) {
        ConnectPlan::UnixSocket { path } => assert_eq!(path, "/tmp/s.sock"),
        other => panic!("unexpected {:?}", other),
    }
    match plan_connection(&GrpcConnectUrl::parse("https://host:443".to_string()), None) {
        ConnectPlan::Tcp { endpoint, tls_domain } => {
            assert_eq!(endpoint, "https://host:443");
            assert_eq!(tls_domain, Some("host".to_string()));
        }
        other => panic!("unexpected {:?}", other),
    }
    let url = GrpcConnectUrl::new_over_ssh("ssh:user@jump:22->http://remote:5000".to_string(), ssh_settings(Some(5000)));
    assert!(url.is_over_ssh());
    assert_eq!(url.get_grpc_host(), "http://remote:5000");
    assert_eq!(url.get_ssh_credentials().unwrap().user_name, "user");
    match plan_connection(&url, Some("/home/me")) {
        ConnectPlan::SshTunnel { socket_path, forward_key, remote_host, remote_port } => {
            assert_eq!(socket_path, "/home/me/grpc-user-jump_22--remote_5000.sock");
            assert_eq!(forward_key, "ssh:user@jump:22->http://remote:5000");
            assert_eq!(remote_host, "remote");
            assert_eq!(remote_port, Some(5000));
        }
        other => panic!("unexpected {:?}", other),
    }
}

#[test]
fn socket_file_without_home_or_port() {
    let settings = ssh_settings(None);
    assert_eq!(
        generate_unix_socket_file(&settings.credentials, "remote", None, None),
        "/tmp/grpc-user-jump_22--remote_.sock"
    );
}

#[test]
fn ssh_tunnel_reuse() {
    let key = port_forward_key("ssh:user@jump:22", "http://remote:5000");
    assert_eq!(key, "ssh:user@jump:22->http://remote:5000");
    let mut pool = PortForwardsPool::new();
    assert_eq!(pool.start_port_forward(&key, Some(5000)), ForwardAction::Start(5000));
    pool.record_started(key.clone());
    assert_eq!(pool.start_port_forward(&key, Some(5000)), ForwardAction::AlreadyOpen);
    pool.record_started(key.clone());
    assert!(pool.contains(&key));
    assert_eq!(pool.start_port_forward("other", None), ForwardAction::MissingPort);
}

#[test]
fn resolved_private_key_replaces_auth() {
    let settings = ssh_settings(Some(1));
    let kept = resolve_ssh_credentials(&settings.credentials, None);
    assert!(matches!(kept.auth, SshAuth::Agent));
    assert_eq!(kept.line, "ssh:user@jump:22");
    let key = ResolvedPrivateKey {
        content: "KEY".to_string(),
        pass_phrase: Some("pp".to_string()),
    };
    let resolved = resolve_ssh_credentials(&settings.credentials, Some(key));
    assert_eq!(resolved.user_name, "user");
    assert_eq!(resolved.host, "jump");
    assert_eq!(resolved.port, 22);
    match resolved.auth {
        SshAuth::PrivateKey { private_key, passphrase } => {
            assert_eq!(private_key, "KEY");
            assert_eq!(passphrase, Some("pp".to_string()));
        }
        other => panic!("unexpected {:?}", other),
    }
}

#[test]
fn chunks_of_server_stream() {
    assert_eq!(
        split_into_chunks(vec![1, 2, 3, 4, 5], 2),
        vec![vec![1, 2], vec![3, 4], vec![5]]
    );
    assert_eq!(split_into_chunks(vec![1, 2, 3], 3), vec![vec![1, 2, 3]]);
    assert_eq!(split_into_chunks(vec![7, 8], 0), vec![vec![7], vec![8]]);
    assert!(split_into_chunks(Vec::<u8>::new(), 4).is_empty());
}
