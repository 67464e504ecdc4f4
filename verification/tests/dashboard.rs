use anchorbell_engine::dashboard::request::{
    body_progress, find_head_end, head_progress, parse_head, read_head, request_body, BodyProgress,
    HeadProgress, RequestError, RequestHead, MAX_REQUEST_BYTES,
};
use anchorbell_engine::dashboard::{
    authorized, batch_runtime_status, bind_permitted, is_loopback_bind, launch_plan, parse_runtime_mode,
    reason_phrase, route, DashboardRoute, LaunchArg, LaunchRefusal, RuntimeMode, RuntimeStartRequest,
    SessionView,
};
use anchorbell_engine::execution::credentials::BinanceCredentials;
use anchorbell_engine::execution::environment::BinanceEnvironment;

fn request(mode: &str) -> RuntimeStartRequest {
    RuntimeStartRequest {
        mode: mode.to_string(),
        input: None,
        anchors: None,
        symbols: None,
        capital_cny: None,
        proxy: None,
        duration_secs: None,
        max_position: None,
        quantity: None,
        entry_threshold_bps: None,
        queue_ahead: None,
        trade_through: None,
        market_to_decision_ms: None,
        decision_to_exchange_ms: None,
        require_flat_at_end: None,
        allow_orders: None,
    }
}

fn session(environment: BinanceEnvironment, credentials: bool) -> SessionView {
    SessionView {
        environment,
        allow_production: false,
        allow_live_orders: true,
        credentials: credentials.then(|| BinanceCredentials {
            api_key: "key".to_string(),
            api_secret: "secret".to_string(),
        }),
        proxy: Some("http://proxy:8080".to_string()),
    }
}

fn text(args: &[LaunchArg]) -> Vec<String> {
    args.iter()
        .map(|arg| match arg {
            LaunchArg::Text(value) => value.clone(),
            LaunchArg::RunFile(name) => format!("<run>/{name}"),
            LaunchArg::RepoPath(path) => format!("<repo>/{path}"),
        })
        .collect()
}

#[test]
fn listening_address_and_credentials() {
    assert!(is_loopback_bind("127.0.0.1:8787"));
    assert!(is_loopback_bind("localhost:80"));
    assert!(is_loopback_bind("[::1]:8787"));
    assert!(!is_loopback_bind("0.0.0.0:8787"));
    assert!(!bind_permitted("0.0.0.0:8787", true, false));
    assert!(bind_permitted("0.0.0.0:8787", true, true));
    assert!(authorized(None, None, None, None));
    assert!(authorized(Some("Bearer abc"), None, Some("abc"), None));
    assert!(!authorized(Some("Bearer abd"), None, Some("abc"), None));
    assert!(!authorized(None, None, Some("abc"), None));
    assert!(authorized(Some("Bearer abc"), Some("t1"), Some("abc"), Some("t1")));
    assert!(!authorized(Some("Bearer abc"), Some("t2"), Some("abc"), Some("t1")));
    assert!(!authorized(Some("Bearer abc"), None, Some("abc"), Some("t1")));
}

#[test]
fn requests_are_routed_by_method_and_path() {
    assert_eq!(route("GET", "/", false), DashboardRoute::Index);
    assert_eq!(route("GET", "/api/status", true), DashboardRoute::Status);
    assert_eq!(route("GET", "/api/status", false), DashboardRoute::Unauthorized);
    assert_eq!(route("GET", "/health", false), DashboardRoute::HealthProbe);
    assert_eq!(route("GET", "/api/metrics/live", true), DashboardRoute::Metrics(RuntimeMode::Live));
    assert_eq!(route("GET", "/api/logs/backtest", true), DashboardRoute::Logs(RuntimeMode::Backtest));
    assert_eq!(route("POST", "/api/runtime/start", true), DashboardRoute::StartRuntime);
    assert_eq!(route("POST", "/api/check/tradfi-contract", true), DashboardRoute::TradfiContractCheck);
    assert_eq!(route("GET", "/api/runtime/start", true), DashboardRoute::NotFound);
    assert_eq!(route("DELETE", "/", true), DashboardRoute::NotFound);
    assert_eq!(route("POST", "/api/unknown", false), DashboardRoute::Unauthorized);
    assert_eq!(reason_phrase(200), "OK");
    assert_eq!(reason_phrase(401), "Unauthorized");
    assert_eq!(reason_phrase(409), "Error");
    assert_eq!(batch_runtime_status("running"), "running");
    assert_eq!(batch_runtime_status("failed"), "exited");
    assert_eq!(batch_runtime_status("queued"), "unknown");
}

#[test]
fn runtime_modes_are_trimmed_and_case_folded() {
    assert_eq!(parse_runtime_mode(" Live "), Some(RuntimeMode::Live));
    assert_eq!(parse_runtime_mode("SIMULATION"), Some(RuntimeMode::Simulation));
    assert_eq!(parse_runtime_mode("backtest"), Some(RuntimeMode::Backtest));
    assert_eq!(parse_runtime_mode("paper"), None);
    assert_eq!(RuntimeMode::Simulation.as_str(), "simulation");
}

#[test]
fn simulation_launch_uses_requested_or_profile_symbols() {
    let mut start = request("simulation");
    start.symbols = Some("BTCUSDT".to_string());
    start.duration_secs = Some(90);
    let plan = launch_plan(RuntimeMode::Simulation, &start, &session(BinanceEnvironment::Testnet, false), &Ok(vec![]))
        .unwrap();
    assert_eq!(plan.program, "anchorbell_simulation");
    assert_eq!(plan.output, Some("metrics.json"));
    assert!(plan.env.is_empty());
    let args = text(&plan.args);
    assert_eq!(&args[..5], &["--index-anchors", "--symbols", "BTCUSDT", "--environment", "production"]);
    assert_eq!(&args[9..13], &["--capital-cny", "10000", "--duration-secs", "90"]);
    assert_eq!(&args[21..23], &["--metrics", "<run>/metrics.json"]);
    assert_eq!(&args[args.len() - 2..], &["--proxy", "http://proxy:8080"]);

    let mut blank = request("simulation");
    blank.symbols = Some("  ".to_string());
    blank.proxy = Some(" ".to_string());
    let configured = Ok(vec!["AAPLUSDT".to_string(), "TSLAUSDT".to_string()]);
    let plan = launch_plan(RuntimeMode::Simulation, &blank, &session(BinanceEnvironment::Testnet, false), &configured)
        .unwrap();
    let args = text(&plan.args);
    assert_eq!(args[2], "AAPLUSDT,TSLAUSDT");
    assert_eq!(args.last().map(String::as_str), Some("200"));
    assert_eq!(
        launch_plan(RuntimeMode::Simulation, &blank, &session(BinanceEnvironment::Testnet, false), &Ok(vec![])),
        Err(LaunchRefusal::NoSimulationSymbols)
    );
    let refusal = launch_plan(
        RuntimeMode::Simulation,
        &blank,
        &session(BinanceEnvironment::Testnet, false),
        &Err("profile missing".to_string()),
    )
    .unwrap_err();
    assert_eq!(refusal, LaunchRefusal::SimulationProfile("profile missing".to_string()));
    assert_eq!(refusal.status(), 500);
}

#[test]
fn live_launch_needs_credentials_and_authorised_production() {
    let start = request("live");
    assert_eq!(
        launch_plan(RuntimeMode::Live, &start, &session(BinanceEnvironment::Testnet, false), &Ok(vec![])),
        Err(LaunchRefusal::MissingCredentials)
    );
    let refusal = launch_plan(RuntimeMode::Live, &start, &session(BinanceEnvironment::Production, true), &Ok(vec![]))
        .unwrap_err();
    assert_eq!(refusal, LaunchRefusal::ProductionNotAuthorized);
    assert_eq!(refusal.status(), 400);

    let read_only = launch_plan(RuntimeMode::Live, &start, &session(BinanceEnvironment::Testnet, true), &Ok(vec![]))
        .unwrap();
    let args = text(&read_only.args);
    assert_eq!(&args[..2], &["--environment", "testnet"]);
    assert_eq!(&args[8..14], &["--max-position", "1", "--quantity", "1", "--entry-threshold-bps", "0"]);
    assert!(!args.contains(&"--send-orders".to_string()));
    assert_eq!(read_only.env[2], ("ANCHORBELL_ENABLE_ORDER_SUBMISSION".to_string(), "0".to_string()));
    assert_eq!(read_only.env[3], ("ANCHORBELL_BINANCE_API_KEY".to_string(), "key".to_string()));
    assert_eq!(read_only.env.len(), 5);

    let mut sending = request("live");
    sending.allow_orders = Some(true);
    sending.max_position = Some(-3);
    let plan = launch_plan(RuntimeMode::Live, &sending, &session(BinanceEnvironment::Testnet, true), &Ok(vec![]))
        .unwrap();
    let args = text(&plan.args);
    assert_eq!(args[9], "-3");
    assert_eq!(args[18], "--send-orders");
    assert_eq!(
        plan.env.last(),
        Some(&("ANCHORBELL_LIVE_TRADING_CONFIRMATION".to_string(), "I_UNDERSTAND_REAL_FUNDS_RISK".to_string()))
    );
    assert_eq!(plan.output, None);
}

#[test]
fn backtest_launch_defaults() {
    let plan = launch_plan(RuntimeMode::Backtest, &request("backtest"), &session(BinanceEnvironment::Testnet, false), &Ok(vec![]))
        .unwrap();
    assert_eq!(plan.program, "anchorbell_backtest");
    assert_eq!(plan.output, Some("stdout.log"));
    let args = text(&plan.args);
    assert_eq!(args[1], "<repo>/target\\selected-market-records.jsonl");
    assert_eq!(args[3], "<repo>/target\\selected-current-index-anchors.csv");
    assert_eq!(args.last().map(String::as_str), Some("--require-flat-at-end"));
    assert!(!args.contains(&"--proxy".to_string()));
    let mut lenient = request("backtest");
    lenient.require_flat_at_end = Some(false);
    lenient.queue_ahead = Some(12);
    let args = text(
        &launch_plan(RuntimeMode::Backtest, &lenient, &session(BinanceEnvironment::Testnet, false), &Ok(vec![]))
            .unwrap()
            .args,
    );
    assert_eq!(args.last().map(String::as_str), Some("0"));
    assert!(args.windows(2).any(|w| w[0] == "--queue-ahead" && w[1] == "12"));
}

#[test]
fn request_head_framing() {
    let raw = b"GET / HTTP/1.1\r\n\r\nbody";
    assert_eq!(find_head_end(raw), Some(14));
    assert_eq!(head_progress(raw), HeadProgress::Complete(14));
    assert_eq!(head_progress(b"GET / HT"), HeadProgress::NeedMore);
    assert_eq!(head_progress(&vec![b'a'; MAX_REQUEST_BYTES + 1]), HeadProgress::TooLarge);
    assert_eq!(body_progress(22, 14, 4, false), BodyProgress::Complete);
    assert_eq!(body_progress(21, 14, 4, true), BodyProgress::NeedMore);
    assert_eq!(body_progress(MAX_REQUEST_BYTES + 1, 14, 5_000_000, true), BodyProgress::TooLarge);
    assert_eq!(body_progress(3, 14, 0, false), BodyProgress::NeedMore);
    assert_eq!(request_body(raw, 14, 4), b"body".to_vec());
    assert_eq!(read_head(&[0xff, 0xfe, b'\r'], 2), Err(RequestError::InvalidHeaders));
    assert_eq!(RequestError::TooLarge.message(), "request too large");
}

#[test]
fn request_head_is_read_like_the_server_reads_it() {
    let head = parse_head(
        "POST /api/session HTTP/1.1\r\nHost: x\r\nno colon here\r\nAuthorization: Bearer tok\r\nX-AnchorBell-Tenant:  t1 \r\ncontent-length: abc\r\nCONTENT-LENGTH: +7",
    )
    .unwrap();
    assert_eq!(
        head,
        RequestHead {
            method: "POST".to_string(),
            path: "/api/session".to_string(),
            authorization: Some("Bearer tok".to_string()),
            tenant_id: Some("t1".to_string()),
            content_length: 7,
        }
    );
    let plain = parse_head("\u{a0}GET\u{3000}/x\nAuthorization:a\nauthorization: b").unwrap();
    assert_eq!(plain.method, "GET");
    assert_eq!(plain.path, "/x");
    assert_eq!(plain.authorization, Some("a".to_string()));
    assert_eq!(plain.content_length, 0);
    assert_eq!(parse_head(""), Err(RequestError::MissingRequestLine));
    assert_eq!(parse_head("   \r\nHost: x"), Err(RequestError::MissingMethod));
    assert_eq!(parse_head("GET\r\nHost: x"), Err(RequestError::MissingPath));
    assert_eq!(parse_head("GET / HTTP/1.1\r\nContent-Length: 99999999999999999999999").unwrap().content_length, 0);
    let raw = b"GET /ready HTTP/1.1\r\nContent-Length: 2\r\n\r\nok";
    let end = find_head_end(raw).unwrap();
    let read = read_head(raw, end).unwrap();
    assert_eq!(read.path, "/ready");
    assert_eq!(request_body(raw, end, read.content_length), b"ok".to_vec());
}
