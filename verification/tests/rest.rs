//! HTTP response heads, bodies and their delivery.

use openshell_supervisor_network::l7::provider::BodyLength;
use openshell_supervisor_network::l7::rest::body::{
    BodyEvent, BodyMachine, BodySettings, BodyWant, TimeoutStep, Wait,
};
use openshell_supervisor_network::l7::rest::events::{
    http_response_middleware_block_finding_event, http_response_middleware_fail_open_finding_event,
    http_response_middleware_failure_event, http_response_middleware_invocation_events,
    EventAction, EventDisposition, HttpResponseInvocation,
};
use openshell_supervisor_network::l7::rest::head::{
    parse_connection_close, parse_connection_keep_alive, parse_observed_http_status_code,
    parse_status_code, response_is_event_stream, response_is_http_10, CredentialFields, HttpHeader,
    ResponseFieldError,
};
use openshell_supervisor_network::l7::rest::middleware::{
    deliver_response_units, BodyResult, Commitment, Description, FinishResult, MiddlewareRelay,
    Next, PreflightResult, RelayEvent, RelayFailure, Reply, SessionEnd, UnitDelivery,
};
use openshell_supervisor_network::l7::rest::output::{
    parse_chunk_size, parse_response_trailer, response_chunk, response_delivery_failure,
    response_middleware_denial, response_trailers, serialize_response_head,
    strip_response_integrity_headers, ChunkSizeError, HttpRequestTarget, MiddlewareDenial,
    ResponseFraming,
};
use openshell_supervisor_network::l7::rest::parsed_head::{
    parse_response_head_for_middleware, response_status_line, trailer_field_values,
};
use openshell_supervisor_network::l7::rest::payload::{
    PayloadAction, PayloadEvent, PayloadRead,
};
use openshell_supervisor_network::l7::rest::reader::{
    BufferedResponseReader, ExactStep, LineStep,
};
use openshell_supervisor_network::l7::rest::relay::{
    after_response_head, plan_delivery, response_facts, response_facts_of, AfterHead, BodyRelay, EndpointResult,
    HeadReader, HeadStep, RelayOutcome,
};

fn credentials() -> CredentialFields {
    CredentialFields {
        names: vec!["set-cookie".to_string()],
    }
}

fn header(name: &str, value: &str) -> HttpHeader {
    HttpHeader {
        name: name.to_string(),
        value: value.to_string(),
    }
}

fn target() -> HttpRequestTarget {
    HttpRequestTarget {
        scheme: "https".to_string(),
        method: "GET".to_string(),
        host: "api.example.com".to_string(),
        port: 443,
        path: "/v1/items".to_string(),
    }
}

#[test]
fn http_10_connection_persistence() {
    let default_close = "HTTP/1.0 200 OK\r\nServer: test\r\n\r\n";
    assert!(response_is_http_10(default_close));
    assert!(!parse_connection_keep_alive(default_close));

    let keep_alive = "HTTP/1.0 200 OK\r\nConnection: keep-alive\r\n\r\n";
    assert!(response_is_http_10(keep_alive));
    assert!(parse_connection_keep_alive(keep_alive));
}

#[test]
fn response_middleware_preflight_keeps_read_only_content_length() {
    let parsed = parse_response_head_for_middleware(
        b"HTTP/1.1 206 Partial Content\r\n\
          Content-Length: 5\r\n\
          Content-Encoding: gzip\r\n\
          Content-Range: bytes 0-4/10\r\n\
          Connection: x-hop\r\n\
          X-Hop: omitted\r\n\r\n",
        &vec![],
        &credentials(),
    )
    .expect("parse response head");

    assert_eq!(
        parsed.headers,
        vec![
            header("content-length", "5"),
            header("content-encoding", "gzip"),
            header("content-range", "bytes 0-4/10"),
        ]
    );

    let nominated = parse_response_head_for_middleware(
        b"HTTP/1.1 200 OK\r\nConnection: Content-Length\r\nContent-Length: 5\r\n\r\n",
        &vec![],
        &credentials(),
    )
    .expect("parse nominated response head");
    assert!(nominated.headers.is_empty());
}

#[test]
fn response_middleware_serializes_only_relay_owned_framing() {
    let headers = vec![
        header("content-length", "999"),
        header("Content-Length", "998"),
        header("content-type", "text/plain"),
    ];

    for (framing, expected) in [
        (
            ResponseFraming::Preserve(BodyLength::ContentLength(5)),
            Some("Content-Length: 5\r\n"),
        ),
        (
            ResponseFraming::ContentLength(9),
            Some("Content-Length: 9\r\n"),
        ),
        (ResponseFraming::Chunked, None),
        (ResponseFraming::Preserve(BodyLength::Absent), None),
    ] {
        let serialized = String::from_utf8(serialize_response_head(
            "HTTP/1.1 200 OK",
            &headers,
            &vec![],
            framing,
            false,
            &vec![],
        ))
        .expect("serialized response head");

        assert_eq!(
            serialized
                .lines()
                .filter(|line| line.to_ascii_lowercase().starts_with("content-length:"))
                .count(),
            usize::from(expected.is_some())
        );
        if let Some(expected) = expected {
            assert!(serialized.contains(expected));
        }
        if matches!(framing, ResponseFraming::Chunked) {
            assert!(serialized.contains("Transfer-Encoding: chunked\r\n"));
        }
    }
}

#[test]
fn head_lines_are_read() {
    let head = "HTTP/1.1 404 Not Found\r\nConnection: upgrade, close\r\nContent-Type: Text/Event-Stream; charset=utf-8\r\n\r\n";
    assert_eq!(parse_status_code(head), Some(404));
    assert_eq!(parse_observed_http_status_code(head), Some(404));
    assert!(parse_connection_close(head));
    assert!(response_is_event_stream(head));
    assert_eq!(parse_status_code("garbage"), None);
    assert_eq!(parse_observed_http_status_code("SPDY/1 200 OK\r\n"), None);
}

#[test]
fn middleware_sees_neither_credentials_nor_malformed_heads() {
    let parsed = parse_response_head_for_middleware(
        b"HTTP/1.1 200 OK\r\nSet-Cookie: a=b\r\nX-One:  1 \r\nTrailer: x-sum\r\n\r\n",
        &vec![Ok(vec!["x-sum".to_string()])],
        &credentials(),
    )
    .expect("parse response head");
    assert!(parsed.representable);
    assert_eq!(parsed.headers, vec![header("x-one", "1")]);
    assert_eq!(
        parsed.preserved_credential_headers,
        vec!["Set-Cookie: a=b".to_string()]
    );
    assert_eq!(parsed.declared_trailers, vec!["x-sum".to_string()]);

    let protected = parse_response_head_for_middleware(
        b"HTTP/1.1 200 OK\r\nTrailer: content-length\r\n\r\n",
        &vec![Ok(vec!["content-length".to_string()])],
        &credentials(),
    );
    assert!(matches!(protected, Err(ResponseFieldError::ProtectedTrailer)));
    let nameless = parse_response_head_for_middleware(
        b"HTTP/1.1 200 OK\r\nno field\r\n\r\n",
        &vec![],
        &credentials(),
    );
    assert!(matches!(nameless, Err(ResponseFieldError::MalformedField)));
    let name = parse_response_head_for_middleware(
        b"HTTP/1.1 200 OK\r\nbad name: x\r\n\r\n",
        &vec![],
        &credentials(),
    );
    assert!(matches!(name, Err(ResponseFieldError::FieldName)));
    let opaque = parse_response_head_for_middleware(
        b"HTTP/1.1 200 OK\r\nX: \xff\r\n\r\n",
        &vec![],
        &credentials(),
    )
    .expect("opaque head");
    assert!(!opaque.representable);
    assert!(matches!(
        response_status_line(b"HTTP/1.1 200 OK"),
        Err(ResponseFieldError::IncompleteStatusLine)
    ));
    assert_eq!(
        response_status_line(b"HTTP/1.1 200 OK\r\nX: 1\r\n\r\n").unwrap(),
        "HTTP/1.1 200 OK"
    );
}

#[test]
fn chunks_read_back() {
    assert_eq!(response_chunk(b"hello world, hello"), b"12\r\nhello world, hello\r\n".to_vec());
    assert!(response_chunk(b"").is_empty());
    assert_eq!(parse_chunk_size(b"12"), Ok(18));
    assert_eq!(parse_chunk_size(b"a; name=value"), Ok(10));
    assert_eq!(parse_chunk_size(b"x"), Err(ChunkSizeError::Number));
    assert_eq!(parse_chunk_size(b"\xff"), Err(ChunkSizeError::Encoding));
    assert_eq!(
        response_trailers(&vec![header("x-sum", "1")]),
        b"0\r\nx-sum: 1\r\n\r\n".to_vec()
    );
    assert_eq!(
        parse_response_trailer(b"X-Sum: 1", &vec![], &credentials()).unwrap(),
        header("x-sum", "1")
    );
    assert!(parse_response_trailer(b"Content-Length: 1", &vec![], &credentials()).is_err());
    assert!(parse_response_trailer(b"X-Hop: 1", &vec!["x-hop".to_string()], &credentials()).is_err());
}

#[test]
fn stale_integrity_headers_are_removed() {
    let mut headers = vec![header("ETag", "x"), header("server", "y")];
    strip_response_integrity_headers(&mut headers, &vec!["etag".to_string()]);
    assert_eq!(headers, vec![header("server", "y")]);
}

#[test]
fn denial_and_failure_responses_name_the_request() {
    let denial = MiddlewareDenial {
        config_name: "guard".to_string(),
        reason_code: Some("pii".to_string()),
    };
    let bytes = response_middleware_denial("GET", "policy", &target(), &denial);
    let text = String::from_utf8(bytes).unwrap();
    assert!(text.starts_with("HTTP/1.1 "));
    let (_, body) = text.split_once("\r\n\r\n").unwrap();
    let body: serde_json::Value = serde_json::from_str(body).unwrap();
    assert_eq!(body["host"], "api.example.com");
    assert_eq!(body["port"], 443);

    let head_only = response_delivery_failure("HEAD", "policy", &target());
    let text = String::from_utf8(head_only).unwrap();
    assert!(text.ends_with("\r\n\r\n"), "a HEAD response has no body");
}

#[test]
fn interim_heads_are_forwarded() {
    let mut reader = HeadReader::new(200);
    reader.extend(b"HTTP/1.1 103 Early Hints\r\n\r\nHTTP/1.1 200 OK\r\n");
    match reader.step() {
        HeadStep::Forward(head) => assert_eq!(head, b"HTTP/1.1 103 Early Hints\r\n\r\n".to_vec()),
        other => panic!("unexpected {other:?}"),
    }
    assert!(matches!(reader.step(), HeadStep::NeedMore));
    reader.extend(b"\r\nbody");
    assert!(matches!(reader.step(), HeadStep::Final(19)));
    assert_eq!(reader.into_bytes(), b"HTTP/1.1 200 OK\r\n\r\nbody".to_vec());

    let mut limited = HeadReader::new(8);
    limited.extend(b"HTTP/1.1 200 OK\r\n\r\n");
    assert!(matches!(limited.step(), HeadStep::TooLarge));
}

#[test]
fn delivery_follows_framing() {
    let facts = response_facts("HTTP/1.1 200 OK\r\nConnection: close\r\n\r\n");
    assert_eq!(facts.endpoint_result, EndpointResult::HttpResponseReceived);
    assert!(facts.server_wants_close);
    let buffered = b"HTTP/1.1 200 OK\r\nConnection: close\r\n\r\nhel";
    let delivery = plan_delivery(
        facts,
        false,
        BodyLength::ContentLength(5),
        buffered,
        buffered.len() - 3,
    );
    assert!(matches!(delivery.body, BodyRelay::Fixed(2)));
    assert_eq!(delivery.first, buffered.to_vec());
    assert_eq!(delivery.outcome, RelayOutcome::Reusable);
    let unframed = plan_delivery(
        facts,
        false,
        BodyLength::Absent,
        buffered,
        buffered.len() - 3,
    );
    assert!(matches!(
        unframed.body,
        BodyRelay::UntilEof { idle_timeout: true }
    ));
    assert_eq!(unframed.outcome, RelayOutcome::Consumed);

    assert_eq!(after_response_head(101, false, true), AfterHead::RefuseUpgrade);
    assert_eq!(after_response_head(101, true, true), AfterHead::ValidateUpgrade);
    assert_eq!(after_response_head(200, false, true), AfterHead::RunMiddleware);
    assert_eq!(after_response_head(200, false, false), AfterHead::Deliver);
}

#[test]
fn buffered_bytes_come_first() {
    let mut reader = BufferedResponseReader::new(b"abc");
    assert!(matches!(reader.exact_step(5), ExactStep::Need(5)));
    let buffered = reader.take_buffered(5).expect("buffered bytes");
    assert_eq!(buffered, b"abc".to_vec());
    reader.accept_exact(&buffered);
    assert!(matches!(reader.exact_step(5), ExactStep::Need(2)));
    assert!(matches!(reader.exact_step(4), ExactStep::Mismatch));
    reader.accept_exact(b"de");
    match reader.exact_step(5) {
        ExactStep::Complete(bytes) => assert_eq!(bytes, b"abcde".to_vec()),
        other => panic!("unexpected {other:?}"),
    }
    assert!(matches!(reader.push_line_byte(b'o', 10), LineStep::More));
    assert!(matches!(reader.push_line_byte(b'\r', 10), LineStep::More));
    match reader.push_line_byte(b'\n', 10) {
        LineStep::Line(line) => assert_eq!(line, b"o".to_vec()),
        other => panic!("unexpected {other:?}"),
    }
    assert!(reader.take_buffered(4).is_none());
}

fn settings(unit_limit: usize) -> BodySettings {
    BodySettings {
        unit_limit,
        event_stream: false,
        max_trailers: 1,
        connection_nominated: vec![],
        credentials: credentials(),
    }
}

#[test]
fn fixed_body_comes_in_units() {
    let mut machine = BodyMachine::start(BodyLength::ContentLength(5), false, settings(2));
    assert!(matches!(machine.want(), BodyWant::Payload { limit: 2, .. }));
    let step = machine.on(BodyEvent::Payload(b"ab".to_vec()));
    assert_eq!(step.units, vec![b"ab".to_vec()]);
    let step = machine.on(BodyEvent::Payload(b"cd".to_vec()));
    assert_eq!(step.units, vec![b"cd".to_vec()]);
    let step = machine.on(BodyEvent::Payload(b"e".to_vec()));
    assert_eq!(step.units, vec![b"e".to_vec()]);
    assert!(step.error.is_none());
    assert!(matches!(machine.want(), BodyWant::Finished));
}

#[test]
fn chunked_body_ends_with_its_trailers() {
    let mut machine = BodyMachine::start(BodyLength::Chunked, false, settings(8));
    let mut units: Vec<Vec<u8>> = Vec::new();
    for event in [
        BodyEvent::Line(b"3".to_vec()),
        BodyEvent::Payload(b"abc".to_vec()),
        BodyEvent::Exact(b"\r\n".to_vec()),
        BodyEvent::Line(b"0".to_vec()),
        BodyEvent::Line(b"X-Sum: 7".to_vec()),
        BodyEvent::Line(b"".to_vec()),
    ] {
        let step = machine.on(event);
        assert!(step.error.is_none(), "{:?}", step.error);
        units.extend(step.units);
    }
    assert!(matches!(machine.want(), BodyWant::Finished));
    assert_eq!(units.concat(), b"abc".to_vec());
    assert_eq!(machine.trailers, vec![header("x-sum", "7")]);

    let mut broken = BodyMachine::start(BodyLength::Chunked, false, settings(8));
    broken.on(BodyEvent::Line(b"1".to_vec()));
    broken.on(BodyEvent::Payload(b"a".to_vec()));
    let step = broken.on(BodyEvent::Exact(b"xx".to_vec()));
    assert!(step.error.is_some());
    let mut ended = BodyMachine::start(BodyLength::ContentLength(3), false, settings(8));
    assert!(ended.on(BodyEvent::Eof).error.is_some());
}

fn relay() -> MiddlewareRelay {
    MiddlewareRelay::start(
        "HTTP/1.1 200 OK",
        false,
        BodyLength::ContentLength(5),
        false,
        false,
    )
}

#[test]
fn session_is_relayed_and_finished() {
    let mut relay = relay();
    let decision = relay.advance(RelayEvent::Started {
        chain_empty: false,
        stale: false,
    });
    assert!(matches!(decision.next, Next::Describe));
    let decision = relay.advance(RelayEvent::Described {
        description: Description::Stages,
        stale: false,
    });
    assert!(matches!(decision.next, Next::Preflight));
    let decision = relay.advance(RelayEvent::Preflighted {
        preflight: PreflightResult::Session {
            whole_body: true,
            status_line_valid: true,
        },
        stale: false,
    });
    assert!(matches!(decision.next, Next::RelayBody));
    let decision = relay.advance(RelayEvent::BodyRelayed {
        body: BodyResult::Complete,
        committed: false,
        stale: false,
    });
    assert!(matches!(decision.next, Next::FinishSession));
    let decision = relay.advance(RelayEvent::SessionFinished {
        finish: FinishResult::Finished,
        stale: false,
    });
    assert!(matches!(decision.next, Next::Deliver { whole: true, .. }));
}

#[test]
fn refused_delivery_is_answered_only_before_commitment() {
    let mut blocked = relay();
    blocked.advance(RelayEvent::Started {
        chain_empty: false,
        stale: false,
    });
    blocked.advance(RelayEvent::Described {
        description: Description::Stages,
        stale: false,
    });
    let decision = blocked.advance(RelayEvent::Preflighted {
        preflight: PreflightResult::Blocked { denial: true, session: false },
        stale: false,
    });
    assert!(matches!(decision.reply, Some(Reply::Denial)));

    let mut committed = relay();
    committed.advance(RelayEvent::Started {
        chain_empty: false,
        stale: false,
    });
    committed.advance(RelayEvent::Described {
        description: Description::Stages,
        stale: false,
    });
    committed.advance(RelayEvent::Preflighted {
        preflight: PreflightResult::Session {
            whole_body: false,
            status_line_valid: true,
        },
        stale: false,
    });
    committed.advance(RelayEvent::HeadWritten { success: true });
    let decision = committed.advance(RelayEvent::BodyRelayed {
        body: BodyResult::MiddlewareStop { denial: true },
        committed: true,
        stale: false,
    });
    assert!(decision.reply.is_none());
    assert!(matches!(decision.end_session, Some(SessionEnd::MiddlewareDenial)));
    assert!(matches!(decision.report, Some(Commitment::AfterCommit)));
    assert!(matches!(
        decision.next,
        Next::Fail(RelayFailure::BodyAfterCommit)
    ));
}

#[test]
fn units_are_written_with_their_framing() {
    match deliver_response_units(false, &vec![b"ab".to_vec()], false, true, b"HEAD") {
        UnitDelivery::Write { commits, bytes } => {
            assert!(commits);
            assert!(bytes.starts_with(b"HEAD"));
            assert!(bytes.ends_with(b"2\r\nab\r\n"));
        }
        other => panic!("unexpected {other:?}"),
    }
    assert!(matches!(
        deliver_response_units(false, &vec![b"ab".to_vec()], true, true, b"HEAD"),
        UnitDelivery::Refused
    ));
    assert!(matches!(
        deliver_response_units(false, &vec![], false, true, b"HEAD"),
        UnitDelivery::Nothing
    ));
}

fn invocation(outcome: &str, failed: bool) -> HttpResponseInvocation {
    HttpResponseInvocation {
        config_name: "guard".to_string(),
        implementation: "openshell/regex".to_string(),
        outcome: outcome.to_string(),
        sequence: Some(2),
        input_size: 10,
        failed,
        failure_category: None,
    }
}

#[test]
fn invocations_become_events() {
    let events = http_response_middleware_invocation_events(
        "policy",
        &target(),
        200,
        &vec![invocation("BlockDelivery", false), invocation("Continue", false)],
    );
    assert_eq!(events.len(), 2);
    assert_eq!(events[0].action, EventAction::Denied);
    assert_eq!(events[0].disposition, EventDisposition::Blocked);
    assert_eq!(events[1].disposition, EventDisposition::Allowed);
    assert_eq!(events[1].sequence, 2);
    assert_eq!(events[1].method, "GET");
    assert_eq!(events[1].url_scheme, "https");
    assert_eq!(events[1].url_host, "api.example.com");
    assert_eq!(events[1].url_path, "/v1/items");
    assert_eq!((events[1].url_port, events[1].destination_port), (443, 443));
    assert_eq!(events[1].destination_domain, "api.example.com");
    assert_eq!(events[1].policy_name, "policy");
    assert_eq!(events[1].rule_type, "supervisor-middleware");
    let given = invocation("Continue", false);
    assert_eq!(events[1].config_name, given.config_name);
    assert_eq!(events[1].implementation, given.implementation);
    assert_eq!(events[1].input_bytes, given.input_size);
    assert!(!events[1].failed);
    assert!(http_response_middleware_block_finding_event(
        "policy",
        &target(),
        &invocation("BlockDelivery", false)
    )
    .is_some());
    assert!(http_response_middleware_block_finding_event(
        "policy",
        &target(),
        &invocation("Continue", false)
    )
    .is_none());
    assert!(http_response_middleware_fail_open_finding_event(
        "policy",
        &target(),
        &invocation("FailOpen", true)
    )
    .is_some());
    let failure = http_response_middleware_failure_event("policy", &target(), 200, true);
    assert!(!failure.message.is_empty());
}

#[test]
fn declared_trailers_and_nominated_names_are_gathered() {
    let head = b"HTTP/1.1 200 OK\r\n\
          Trailer: Digest, X-Sum\r\n\
          Connection: x-zeta, X-Alpha\r\n\
          trailer:X-Sum\r\n\
          connection: x-alpha\r\n\r\n";
    assert_eq!(
        trailer_field_values(head),
        vec![" Digest, X-Sum".to_string(), "X-Sum".to_string()]
    );
    let lists = vec![
        Ok(vec!["Digest".to_string(), "X-Sum".to_string()]),
        Ok(vec!["X-Sum".to_string()]),
    ];
    let parsed = parse_response_head_for_middleware(head, &lists, &credentials()).unwrap();
    assert_eq!(
        parsed.connection_nominated,
        vec!["x-alpha".to_string(), "x-zeta".to_string()]
    );
    assert_eq!(
        parsed.declared_trailers,
        vec!["digest".to_string(), "x-sum".to_string()]
    );

    let refused = vec![Err("empty token".to_string()), Ok(vec![])];
    assert_eq!(
        parse_response_head_for_middleware(head, &refused, &credentials()).err(),
        Some(ResponseFieldError::TokenList("empty token".to_string()))
    );
    assert_eq!(
        parse_response_head_for_middleware(head, &vec![Ok(vec![])], &credentials()).err(),
        Some(ResponseFieldError::TokenList(
            "HTTP response trailer list was not read".to_string()
        ))
    );
    let nominated = vec![Ok(vec!["X-Zeta".to_string()]), Ok(vec![])];
    assert_eq!(
        parse_response_head_for_middleware(head, &nominated, &credentials()).err(),
        Some(ResponseFieldError::ProtectedTrailer)
    );
}

#[test]
fn credential_lines_are_delivered_as_they_came() {
    let head = b"HTTP/1.1 200 OK\r\nSET-Cookie:  a=1 \r\nX-Kept: yes\r\n\r\n";
    let parsed = parse_response_head_for_middleware(head, &vec![], &credentials()).unwrap();
    assert_eq!(parsed.headers, vec![header("x-kept", "yes")]);
    let written = serialize_response_head(
        "HTTP/1.1 200 OK",
        &parsed.headers,
        &parsed.preserved_credential_headers,
        ResponseFraming::Chunked,
        true,
        &vec![],
    );
    assert_eq!(
        String::from_utf8(written).unwrap(),
        "HTTP/1.1 200 OK\r\nx-kept: yes\r\nSET-Cookie:  a=1 \r\n\
         Transfer-Encoding: chunked\r\nConnection: close\r\n\r\n"
    );
}

#[test]
fn any_connection_header_can_close() {
    assert!(parse_connection_close(
        "HTTP/1.1 200 OK\r\nConnection: keep-alive\r\nConnection: close\r\n\r\n"
    ));
    assert!(parse_connection_close(
        "HTTP/1.1 200 OK\r\nConnection: close\r\nConnection: keep-alive\r\n\r\n"
    ));
    assert!(!parse_connection_close(
        "HTTP/1.1 200 OK\r\nConnection: keep-alive\r\nX-Note: close\r\n\r\n"
    ));
}

#[test]
fn stale_blocked_preflight_ends_its_session() {
    let mut blocked = relay();
    blocked.advance(RelayEvent::Started {
        chain_empty: false,
        stale: false,
    });
    blocked.advance(RelayEvent::Described {
        description: Description::Stages,
        stale: false,
    });
    let decision = blocked.advance(RelayEvent::Preflighted {
        preflight: PreflightResult::Blocked {
            denial: true,
            session: true,
        },
        stale: true,
    });
    assert_eq!(decision.end_session, Some(SessionEnd::PolicyReload));
    assert!(decision.reply.is_none());
    assert!(matches!(decision.next, Next::Fail(RelayFailure::StalePolicy)));
}

#[test]
fn payload_waits_briefly_once_it_has_some() {
    let (mut read, action) = PayloadRead::start(4, false);
    assert!(matches!(
        action,
        PayloadAction::Read { limit: 4, starts_brief: false }
    ));
    assert!(matches!(
        read.on(PayloadEvent::TimedOut { whole_over: true }),
        PayloadAction::Expire
    ));
    assert!(matches!(
        read.on(PayloadEvent::Rechecked { brief_over: true }),
        PayloadAction::Read { limit: 4, starts_brief: false }
    ));
    assert!(matches!(
        read.on(PayloadEvent::Data(b"ab".to_vec())),
        PayloadAction::Read { limit: 2, starts_brief: true }
    ));
    assert!(matches!(
        read.on(PayloadEvent::TimedOut { whole_over: false }),
        PayloadAction::Recheck
    ));
    match read.on(PayloadEvent::Rechecked { brief_over: true }) {
        PayloadAction::HandOver(data) => assert_eq!(data, b"ab"),
        other => panic!("unexpected {other:?}"),
    }

    let (mut read, action) = PayloadRead::start(2, true);
    assert!(matches!(
        action,
        PayloadAction::Read { limit: 2, starts_brief: true }
    ));
    assert!(matches!(
        read.on(PayloadEvent::Data(b"a".to_vec())),
        PayloadAction::Read { limit: 1, starts_brief: false }
    ));
    match read.on(PayloadEvent::Data(b"b".to_vec())) {
        PayloadAction::HandOver(data) => assert_eq!(data, b"ab"),
        other => panic!("unexpected {other:?}"),
    }
    let (mut read, _) = PayloadRead::start(2, false);
    assert!(matches!(read.on(PayloadEvent::End), PayloadAction::Ended));
}

#[test]
fn framing_reads_expire_only_when_patient() {
    let brief = BodyWant::Line { wait: Wait::Coalesce };
    assert_eq!(brief.after_timeout(true), TimeoutStep::Report);
    let patient = BodyWant::Exact { length: 2, wait: Wait::Unlimited };
    assert_eq!(patient.after_timeout(true), TimeoutStep::Expire);
    assert_eq!(patient.after_timeout(false), TimeoutStep::Report);
    assert!(BodyEvent::Available(vec![]).carries_payload());
    assert!(!BodyEvent::Line(vec![]).carries_payload());
}

#[test]
fn head_bytes_say_how_the_response_ends() {
    let facts = response_facts_of(b"HTTP/1.0 200 OK\r\nX-Raw: \xff\r\n\r\n");
    assert!(facts.connection_closes() && !facts.server_wants_close);
    let facts =
        response_facts_of(b"HTTP/1.1 200 OK\r\nContent-Type: text/event-stream\r\n\r\n");
    assert!(!facts.connection_closes());
    assert!(facts.body_runs_until_end());
    let facts = response_facts_of(b"HTTP/1.1 200 OK\r\n\r\n");
    assert!(!facts.body_runs_until_end());
}

#[test]
fn input_that_ends_early_is_forwarded() {
    let mut reader = HeadReader::new(64);
    reader.extend(b"HTTP/1.1 2");
    assert!(matches!(reader.step(), HeadStep::NeedMore));
    let (rest, result, outcome) = reader.end();
    assert_eq!(rest, b"HTTP/1.1 2");
    assert_eq!(result, EndpointResult::TransportFailed);
    assert_eq!(outcome, RelayOutcome::Consumed);
}

#[test]
fn exact_read_of_another_length_is_a_mismatch() {
    let mut reader = BufferedResponseReader::new(b"");
    assert!(matches!(reader.exact_step(2), ExactStep::Need(2)));
    assert!(matches!(reader.exact_step(0), ExactStep::Mismatch));
    assert!(matches!(reader.exact_step(3), ExactStep::Mismatch));
}
