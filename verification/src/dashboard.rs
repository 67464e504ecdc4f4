//! Decisions of the local control dashboard: where it may listen, which
//! requests it authenticates, how a request is routed, how an HTTP request
//! head is framed and read, and how a runtime process is launched. The
//! dashboard's server performs the socket, file and process work.
pub mod request;

use crate::execution::credentials::BinanceCredentials;
use crate::execution::environment::{environment_name, BinanceEnvironment};
use crate::text::{has_prefix, lower_chars, starts_with, str_eq, trim_chars};
use vstd::prelude::*;
use vstd::string::*;

verus! {

/// A runtime the dashboard can start, stop and observe.
#[derive(Debug, Clone, Copy, PartialEq, Eq, Structural)]
pub enum RuntimeMode {
    Live,
    Simulation,
    Backtest,
}

impl RuntimeMode {
    pub open spec fn name(self) -> Seq<char> {
        match self {
            RuntimeMode::Live => "live"@,
            RuntimeMode::Simulation => "simulation"@,
            RuntimeMode::Backtest => "backtest"@,
        }
    }

    pub fn as_str(self) -> (r: &'static str)
        ensures
            r@ == self.name(),
    {
        match self {
            RuntimeMode::Live => "live",
            RuntimeMode::Simulation => "simulation",
            RuntimeMode::Backtest => "backtest",
        }
    }
}

/// The mode a request names, after trimming and ASCII lower-casing.
pub open spec fn runtime_mode_spec(text: Seq<char>) -> Option<RuntimeMode> {
    let t = lower_chars(trim_chars(text));
    if t == "live"@ {
        Some(RuntimeMode::Live)
    } else if t == "simulation"@ {
        Some(RuntimeMode::Simulation)
    } else if t == "backtest"@ {
        Some(RuntimeMode::Backtest)
    } else {
        None
    }
}

pub fn parse_runtime_mode(text: &str) -> (r: Option<RuntimeMode>)
    ensures
        r == runtime_mode_spec(text@),
{
    let t = crate::text::to_lower(crate::text::trim(text));
    if str_eq(t.as_str(), "live") {
        Some(RuntimeMode::Live)
    } else if str_eq(t.as_str(), "simulation") {
        Some(RuntimeMode::Simulation)
    } else if str_eq(t.as_str(), "backtest") {
        Some(RuntimeMode::Backtest)
    } else {
        None
    }
}

/// A loopback listening address: `127.0.0.1:`, `localhost:` or `[::1]:`.
pub open spec fn loopback_spec(address: Seq<char>) -> bool {
    has_prefix(address, "127.0.0.1:"@) || has_prefix(address, "localhost:"@) || has_prefix(
        address,
        "[::1]:"@,
    )
}

pub fn is_loopback_bind(address: &str) -> (r: bool)
    ensures
        r == loopback_spec(address@),
{
    starts_with(address, "127.0.0.1:") || starts_with(address, "localhost:") || starts_with(
        address,
        "[::1]:",
    )
}

/// The dashboard may listen on a loopback address, or elsewhere only with
/// both a token and a tenant identity configured.
pub fn bind_permitted(address: &str, has_token: bool, has_tenant: bool) -> (r: bool)
    ensures
        r == (loopback_spec(address@) || (has_token && has_tenant)),
{
    is_loopback_bind(address) || (has_token && has_tenant)
}

/// Whether a request carries the configured credentials: with a token
/// configured, the `Authorization` header must be exactly `Bearer <token>`;
/// with a tenant configured, the tenant header must name it.
pub open spec fn authorized_spec(
    authorization: Option<Seq<char>>,
    tenant: Option<Seq<char>>,
    expected_token: Option<Seq<char>>,
    expected_tenant: Option<Seq<char>>,
) -> bool {
    match expected_token {
        None => true,
        Some(token) => {
            &&& authorization == Some("Bearer "@ + token)
            &&& match expected_tenant {
                None => true,
                Some(t) => tenant == Some(t),
            }
        },
    }
}

pub open spec fn opt_view(o: Option<&str>) -> Option<Seq<char>> {
    match o {
        Some(s) => Some(s@),
        None => None,
    }
}

pub fn authorized(
    authorization: Option<&str>,
    tenant: Option<&str>,
    expected_token: Option<&str>,
    expected_tenant: Option<&str>,
) -> (r: bool)
    ensures
        r == authorized_spec(
            opt_view(authorization),
            opt_view(tenant),
            opt_view(expected_token),
            opt_view(expected_tenant),
        ),
{
    let token = match expected_token {
        None => {
            return true;
        },
        Some(token) => token,
    };
    let mut bearer = crate::text::owned("Bearer ");
    bearer.append(token);
    let token_ok = match authorization {
        Some(value) => str_eq(value, bearer.as_str()),
        None => false,
    };
    let tenant_ok = match expected_tenant {
        None => true,
        Some(expected) => match tenant {
            Some(value) => str_eq(value, expected),
            None => false,
        },
    };
    token_ok && tenant_ok
}

/// The handler a request reaches.
#[derive(Debug, Clone, Copy, PartialEq, Eq, Structural)]
pub enum DashboardRoute {
    /// An `/api/` request without the configured credentials.
    Unauthorized,
    Index,
    Styles,
    AppScript,
    Manifest,
    ServiceWorker,
    Status,
    Instruments,
    Platform,
    HealthProbe,
    LivenessProbe,
    ReadinessProbe,
    Metrics(RuntimeMode),
    Runtimes,
    Logs(RuntimeMode),
    StartRuntime,
    StopRuntime,
    UpdateSession,
    SaveCredentials,
    DeleteCredentials,
    ClearSession,
    MetadataCheck,
    MarketCheck,
    AccountCheck,
    TradfiContractCheck,
    OpenOrdersCheck,
    Backtest,
    NotFound,
}

pub open spec fn get_route(path: Seq<char>) -> DashboardRoute {
    if path == "/"@ {
        DashboardRoute::Index
    } else if path == "/styles.css"@ {
        DashboardRoute::Styles
    } else if path == "/app.js"@ {
        DashboardRoute::AppScript
    } else if path == "/manifest.webmanifest"@ {
        DashboardRoute::Manifest
    } else if path == "/sw.js"@ {
        DashboardRoute::ServiceWorker
    } else if path == "/api/status"@ {
        DashboardRoute::Status
    } else if path == "/api/instruments"@ {
        DashboardRoute::Instruments
    } else if path == "/api/platform"@ {
        DashboardRoute::Platform
    } else if path == "/health"@ {
        DashboardRoute::HealthProbe
    } else if path == "/live"@ {
        DashboardRoute::LivenessProbe
    } else if path == "/ready"@ {
        DashboardRoute::ReadinessProbe
    } else if path == "/api/metrics/simulation"@ {
        DashboardRoute::Metrics(RuntimeMode::Simulation)
    } else if path == "/api/metrics/live"@ {
        DashboardRoute::Metrics(RuntimeMode::Live)
    } else if path == "/api/metrics/backtest"@ {
        DashboardRoute::Metrics(RuntimeMode::Backtest)
    } else if path == "/api/runtimes"@ {
        DashboardRoute::Runtimes
    } else if path == "/api/logs/live"@ {
        DashboardRoute::Logs(RuntimeMode::Live)
    } else if path == "/api/logs/simulation"@ {
        DashboardRoute::Logs(RuntimeMode::Simulation)
    } else if path == "/api/logs/backtest"@ {
        DashboardRoute::Logs(RuntimeMode::Backtest)
    } else {
        DashboardRoute::NotFound
    }
}

pub open spec fn post_route(path: Seq<char>) -> DashboardRoute {
    if path == "/api/runtime/start"@ {
        DashboardRoute::StartRuntime
    } else if path == "/api/runtime/stop"@ {
        DashboardRoute::StopRuntime
    } else if path == "/api/session"@ {
        DashboardRoute::UpdateSession
    } else if path == "/api/credentials/save"@ {
        DashboardRoute::SaveCredentials
    } else if path == "/api/credentials/delete"@ {
        DashboardRoute::DeleteCredentials
    } else if path == "/api/session/clear"@ {
        DashboardRoute::ClearSession
    } else if path == "/api/check/metadata"@ {
        DashboardRoute::MetadataCheck
    } else if path == "/api/check/market"@ {
        DashboardRoute::MarketCheck
    } else if path == "/api/check/account"@ {
        DashboardRoute::AccountCheck
    } else if path == "/api/check/tradfi-contract"@ {
        DashboardRoute::TradfiContractCheck
    } else if path == "/api/check/open-orders"@ {
        DashboardRoute::OpenOrdersCheck
    } else if path == "/api/backtest"@ {
        DashboardRoute::Backtest
    } else {
        DashboardRoute::NotFound
    }
}

/// `/api/` requests need credentials; the rest is routed by method and
/// exact path.
pub open spec fn route_spec(method: Seq<char>, path: Seq<char>, authorized: bool) -> DashboardRoute {
    if has_prefix(path, "/api/"@) && !authorized {
        DashboardRoute::Unauthorized
    } else if method == "GET"@ {
        get_route(path)
    } else if method == "POST"@ {
        post_route(path)
    } else {
        DashboardRoute::NotFound
    }
}

fn get_route_of(path: &str) -> (r: DashboardRoute)
    ensures
        r == get_route(path@),
{
    if str_eq(path, "/") {
        DashboardRoute::Index
    } else if str_eq(path, "/styles.css") {
        DashboardRoute::Styles
    } else if str_eq(path, "/app.js") {
        DashboardRoute::AppScript
    } else if str_eq(path, "/manifest.webmanifest") {
        DashboardRoute::Manifest
    } else if str_eq(path, "/sw.js") {
        DashboardRoute::ServiceWorker
    } else if str_eq(path, "/api/status") {
        DashboardRoute::Status
    } else if str_eq(path, "/api/instruments") {
        DashboardRoute::Instruments
    } else if str_eq(path, "/api/platform") {
        DashboardRoute::Platform
    } else if str_eq(path, "/health") {
        DashboardRoute::HealthProbe
    } else if str_eq(path, "/live") {
        DashboardRoute::LivenessProbe
    } else if str_eq(path, "/ready") {
        DashboardRoute::ReadinessProbe
    } else if str_eq(path, "/api/metrics/simulation") {
        DashboardRoute::Metrics(RuntimeMode::Simulation)
    } else if str_eq(path, "/api/metrics/live") {
        DashboardRoute::Metrics(RuntimeMode::Live)
    } else if str_eq(path, "/api/metrics/backtest") {
        DashboardRoute::Metrics(RuntimeMode::Backtest)
    } else if str_eq(path, "/api/runtimes") {
        DashboardRoute::Runtimes
    } else if str_eq(path, "/api/logs/live") {
        DashboardRoute::Logs(RuntimeMode::Live)
    } else if str_eq(path, "/api/logs/simulation") {
        DashboardRoute::Logs(RuntimeMode::Simulation)
    } else if str_eq(path, "/api/logs/backtest") {
        DashboardRoute::Logs(RuntimeMode::Backtest)
    } else {
        DashboardRoute::NotFound
    }
}

fn post_route_of(path: &str) -> (r: DashboardRoute)
    ensures
        r == post_route(path@),
{
    if str_eq(path, "/api/runtime/start") {
        DashboardRoute::StartRuntime
    } else if str_eq(path, "/api/runtime/stop") {
        DashboardRoute::StopRuntime
    } else if str_eq(path, "/api/session") {
        DashboardRoute::UpdateSession
    } else if str_eq(path, "/api/credentials/save") {
        DashboardRoute::SaveCredentials
    } else if str_eq(path, "/api/credentials/delete") {
        DashboardRoute::DeleteCredentials
    } else if str_eq(path, "/api/session/clear") {
        DashboardRoute::ClearSession
    } else if str_eq(path, "/api/check/metadata") {
        DashboardRoute::MetadataCheck
    } else if str_eq(path, "/api/check/market") {
        DashboardRoute::MarketCheck
    } else if str_eq(path, "/api/check/account") {
        DashboardRoute::AccountCheck
    } else if str_eq(path, "/api/check/tradfi-contract") {
        DashboardRoute::TradfiContractCheck
    } else if str_eq(path, "/api/check/open-orders") {
        DashboardRoute::OpenOrdersCheck
    } else if str_eq(path, "/api/backtest") {
        DashboardRoute::Backtest
    } else {
        DashboardRoute::NotFound
    }
}

pub fn route(method: &str, path: &str, authorized: bool) -> (r: DashboardRoute)
    ensures
        r == route_spec(method@, path@, authorized),
{
    if starts_with(path, "/api/") && !authorized {
        DashboardRoute::Unauthorized
    } else if str_eq(method, "GET") {
        get_route_of(path)
    } else if str_eq(method, "POST") {
        post_route_of(path)
    } else {
        DashboardRoute::NotFound
    }
}

/// The reason phrase of a response status line.
pub open spec fn reason_phrase_spec(status: u16) -> Seq<char> {
    if status == 200 {
        "OK"@
    } else if status == 400 {
        "Bad Request"@
    } else if status == 401 {
        "Unauthorized"@
    } else if status == 404 {
        "Not Found"@
    } else if status == 500 {
        "Internal Server Error"@
    } else if status == 502 {
        "Bad Gateway"@
    } else {
        "Error"@
    }
}

pub fn reason_phrase(status: u16) -> (r: &'static str)
    ensures
        r@ == reason_phrase_spec(status),
{
    match status {
        200 => "OK",
        400 => "Bad Request",
        401 => "Unauthorized",
        404 => "Not Found",
        500 => "Internal Server Error",
        502 => "Bad Gateway",
        _ => "Error",
    }
}

/// How an externally managed simulation batch shows as a runtime status.
pub open spec fn batch_runtime_status_spec(batch_status: Seq<char>) -> Seq<char> {
    if batch_status == "running"@ {
        "running"@
    } else if batch_status == "completed"@ || batch_status == "failed"@ {
        "exited"@
    } else {
        "unknown"@
    }
}

pub fn batch_runtime_status(batch_status: &str) -> (r: &'static str)
    ensures
        r@ == batch_runtime_status_spec(batch_status@),
{
    if str_eq(batch_status, "running") {
        "running"
    } else if str_eq(batch_status, "completed") || str_eq(batch_status, "failed") {
        "exited"
    } else {
        "unknown"
    }
}


/// A request to start a runtime; absent settings take their defaults.
#[derive(Debug, Clone, PartialEq, Eq)]
pub struct RuntimeStartRequest {
    pub mode: String,
    pub input: Option<String>,
    pub anchors: Option<String>,
    pub symbols: Option<String>,
    pub capital_cny: Option<String>,
    pub proxy: Option<String>,
    pub duration_secs: Option<u64>,
    pub max_position: Option<i64>,
    pub quantity: Option<i64>,
    pub entry_threshold_bps: Option<i64>,
    pub queue_ahead: Option<i64>,
    pub trade_through: Option<i64>,
    pub market_to_decision_ms: Option<u64>,
    pub decision_to_exchange_ms: Option<u64>,
    pub require_flat_at_end: Option<bool>,
    pub allow_orders: Option<bool>,
}

/// What the dashboard session holds when a runtime is started.
#[derive(Debug, Clone, PartialEq, Eq)]
pub struct SessionView {
    pub environment: BinanceEnvironment,
    pub allow_production: bool,
    pub allow_live_orders: bool,
    pub credentials: Option<BinanceCredentials>,
    pub proxy: Option<String>,
}

/// One command-line argument of a runtime process.
#[derive(Debug, Clone, PartialEq, Eq)]
pub enum LaunchArg {
    Text(String),
    /// A file of that name in the run's own directory.
    RunFile(&'static str),
    /// A path taken relative to the repository unless it is absolute.
    RepoPath(String),
}

/// How a runtime process is started.
#[derive(Debug, Clone, PartialEq, Eq)]
pub struct LaunchPlan {
    pub program: &'static str,
    pub args: Vec<LaunchArg>,
    pub env: Vec<(String, String)>,
    /// The run-directory file the dashboard reads the runtime's results from.
    pub output: Option<&'static str>,
}

/// Why a runtime was not started.
#[derive(Debug, Clone, PartialEq, Eq)]
pub enum LaunchRefusal {
    /// The simulation profile lists no symbols.
    NoSimulationSymbols,
    /// The simulation profile could not be read.
    SimulationProfile(String),
    /// A live runtime needs credentials in the session.
    MissingCredentials,
    /// Production was not explicitly allowed in the session.
    ProductionNotAuthorized,
}

impl LaunchRefusal {
    /// The HTTP status the refusal is answered with.
    pub fn status(&self) -> (r: u16)
        ensures
            r == (match self {
                LaunchRefusal::NoSimulationSymbols | LaunchRefusal::SimulationProfile(_) => 500u16,
                _ => 400u16,
            }),
    {
        match self {
            LaunchRefusal::NoSimulationSymbols | LaunchRefusal::SimulationProfile(_) => 500,
            _ => 400,
        }
    }
}

pub enum ArgView {
    Text(Seq<char>),
    RunFile(Seq<char>),
    RepoPath(Seq<char>),
}

pub struct PlanView {
    pub program: Seq<char>,
    pub args: Seq<ArgView>,
    pub env: Seq<(Seq<char>, Seq<char>)>,
    pub output: Option<Seq<char>>,
}

pub enum RefusalView {
    NoSimulationSymbols,
    SimulationProfile(Seq<char>),
    MissingCredentials,
    ProductionNotAuthorized,
}

pub open spec fn arg_view(a: LaunchArg) -> ArgView {
    match a {
        LaunchArg::Text(s) => ArgView::Text(s@),
        LaunchArg::RunFile(s) => ArgView::RunFile(s@),
        LaunchArg::RepoPath(s) => ArgView::RepoPath(s@),
    }
}

pub open spec fn arg_views(args: Seq<LaunchArg>) -> Seq<ArgView> {
    args.map_values(|a: LaunchArg| arg_view(a))
}

pub open spec fn env_views(env: Seq<(String, String)>) -> Seq<(Seq<char>, Seq<char>)> {
    env.map_values(|e: (String, String)| (e.0@, e.1@))
}

pub open spec fn plan_view(p: LaunchPlan) -> PlanView {
    PlanView {
        program: p.program@,
        args: arg_views(p.args@),
        env: env_views(p.env@),
        output: match p.output {
            Some(o) => Some(o@),
            None => None,
        },
    }
}

pub open spec fn refusal_view(r: LaunchRefusal) -> RefusalView {
    match r {
        LaunchRefusal::NoSimulationSymbols => RefusalView::NoSimulationSymbols,
        LaunchRefusal::SimulationProfile(m) => RefusalView::SimulationProfile(m@),
        LaunchRefusal::MissingCredentials => RefusalView::MissingCredentials,
        LaunchRefusal::ProductionNotAuthorized => RefusalView::ProductionNotAuthorized,
    }
}

pub open spec fn outcome_view(r: Result<LaunchPlan, LaunchRefusal>) -> Result<PlanView, RefusalView> {
    match r {
        Ok(p) => Ok(plan_view(p)),
        Err(e) => Err(refusal_view(e)),
    }
}

pub open spec fn t(s: Seq<char>) -> ArgView {
    ArgView::Text(s)
}

pub open spec fn u64_or(v: Option<u64>, d: u64) -> Seq<char> {
    crate::text::dec_chars(
        match v {
            Some(x) => x,
            None => d,
        } as nat,
    )
}

pub open spec fn i64_or(v: Option<i64>, d: i64) -> Seq<char> {
    crate::text::signed_dec_chars(
        match v {
            Some(x) => x,
            None => d,
        } as int,
    )
}

pub open spec fn string_view(o: Option<String>) -> Option<Seq<char>> {
    match o {
        Some(s) => Some(s@),
        None => None,
    }
}

/// The request's proxy, else the session's; passed on when not blank.
pub open spec fn proxy_args(request: RuntimeStartRequest, session: SessionView) -> Seq<ArgView> {
    let chosen = match request.proxy {
        Some(p) => Some(p@),
        None => string_view(session.proxy),
    };
    match chosen {
        Some(p) => if trim_chars(p).len() > 0 {
            seq![t("--proxy"@), t(p)]
        } else {
            Seq::empty()
        },
        None => Seq::empty(),
    }
}

/// Symbols joined with commas.
pub open spec fn comma_joined(items: Seq<Seq<char>>) -> Seq<char>
    decreases items.len(),
{
    if items.len() == 0 {
        Seq::empty()
    } else if items.len() == 1 {
        items[0]
    } else {
        comma_joined(items.drop_last()) + ","@ + items.last()
    }
}

/// The symbols a simulation runs on: those requested when not blank, else
/// the profile's.
pub open spec fn simulation_symbols(
    request: RuntimeStartRequest,
    configured: Result<Seq<Seq<char>>, Seq<char>>,
) -> Result<Seq<char>, RefusalView> {
    match request.symbols {
        Some(s) if trim_chars(s@).len() > 0 => Ok(s@),
        _ => match configured {
            Ok(list) => if list.len() > 0 {
                Ok(comma_joined(list))
            } else {
                Err(RefusalView::NoSimulationSymbols)
            },
            Err(m) => Err(RefusalView::SimulationProfile(m)),
        },
    }
}

pub open spec fn simulation_args(request: RuntimeStartRequest, symbols: Seq<char>) -> Seq<ArgView> {
    seq![
        t("--index-anchors"@),
        t("--symbols"@),
        t(symbols),
        t("--environment"@),
        t("production"@),
        t("--price-scale"@),
        t("8"@),
        t("--quantity-scale"@),
        t("8"@),
        t("--capital-cny"@),
        t(
            match request.capital_cny {
                Some(c) => c@,
                None => "10000"@,
            },
        ),
        t("--duration-secs"@),
        t(u64_or(request.duration_secs, 0)),
        t("--records"@),
        ArgView::RunFile("records.jsonl"@),
        t("--market-records"@),
        ArgView::RunFile("market.jsonl"@),
        t("--anchor-report"@),
        ArgView::RunFile("anchors.json"@),
        t("--fx-records"@),
        ArgView::RunFile("fx.jsonl"@),
        t("--metrics"@),
        ArgView::RunFile("metrics.json"@),
        t("--fx-refresh-ms"@),
        t("30000"@),
        t("--fx-max-age-ms"@),
        t("120000"@),
        t("--metrics-refresh-ms"@),
        t("1000"@),
        t("--index-anchor-refresh-ms"@),
        t("60000"@),
        t("--max-mark-index-gap-bps"@),
        t("50"@),
        t("--maker-fee-ppm"@),
        t("200"@),
    ]
}

pub open spec fn live_sends_orders(request: RuntimeStartRequest, session: SessionView) -> bool {
    request.allow_orders == Some(true) && session.allow_live_orders
}

pub open spec fn live_args(request: RuntimeStartRequest, session: SessionView) -> Seq<ArgView> {
    seq![
        t("--environment"@),
        t(environment_name(session.environment)),
        t("--duration-secs"@),
        t(u64_or(request.duration_secs, 0)),
        t("--price-scale"@),
        t("8"@),
        t("--quantity-scale"@),
        t("8"@),
        t("--max-position"@),
        t(i64_or(request.max_position, 1)),
        t("--quantity"@),
        t(i64_or(request.quantity, 1)),
        t("--entry-threshold-bps"@),
        t(i64_or(request.entry_threshold_bps, 0)),
        t("--max-mark-index-gap-bps"@),
        t("50"@),
        t("--funding-lead-ms"@),
        t("300000"@),
    ] + (if live_sends_orders(request, session) {
        seq![t("--send-orders"@)]
    } else {
        Seq::empty()
    })
}

pub open spec fn key_env_name(e: BinanceEnvironment) -> Seq<char> {
    match e {
        BinanceEnvironment::Testnet => "ANCHORBELL_BINANCE_API_KEY"@,
        BinanceEnvironment::Production => "ANCHORBELL_BINANCE_LIVE_API_KEY"@,
    }
}

pub open spec fn secret_env_name(e: BinanceEnvironment) -> Seq<char> {
    match e {
        BinanceEnvironment::Testnet => "ANCHORBELL_BINANCE_API_SECRET"@,
        BinanceEnvironment::Production => "ANCHORBELL_BINANCE_LIVE_API_SECRET"@,
    }
}

pub open spec fn flag(b: bool) -> Seq<char> {
    if b {
        "1"@
    } else {
        "0"@
    }
}

pub open spec fn live_env(
    request: RuntimeStartRequest,
    session: SessionView,
    credentials: BinanceCredentials,
) -> Seq<(Seq<char>, Seq<char>)> {
    let send = live_sends_orders(request, session);
    seq![
        ("ANCHORBELL_BINANCE_ENV"@, environment_name(session.environment)),
        ("ANCHORBELL_ENABLE_PRODUCTION"@, flag(session.allow_production)),
        ("ANCHORBELL_ENABLE_ORDER_SUBMISSION"@, flag(send)),
        (key_env_name(session.environment), credentials.api_key@),
        (secret_env_name(session.environment), credentials.api_secret@),
    ] + (if send {
        seq![("ANCHORBELL_LIVE_TRADING_CONFIRMATION"@, "I_UNDERSTAND_REAL_FUNDS_RISK"@)]
    } else {
        Seq::empty()
    })
}

pub open spec fn backtest_args(request: RuntimeStartRequest) -> Seq<ArgView> {
    seq![
        t("--input"@),
        ArgView::RepoPath(
            match request.input {
                Some(p) => p@,
                None => "target\\selected-market-records.jsonl"@,
            },
        ),
        t("--anchors"@),
        ArgView::RepoPath(
            match request.anchors {
                Some(p) => p@,
                None => "target\\selected-current-index-anchors.csv"@,
            },
        ),
        t("--records"@),
        ArgView::RunFile("records.jsonl"@),
        t("--price-scale"@),
        t("8"@),
        t("--quantity-scale"@),
        t("8"@),
        t("--entry-threshold-bps"@),
        t(i64_or(request.entry_threshold_bps, 0)),
        t("--max-position"@),
        t(i64_or(request.max_position, 1)),
        t("--quantity"@),
        t(i64_or(request.quantity, 1)),
        t("--queue-ahead"@),
        t(i64_or(request.queue_ahead, 0)),
        t("--trade-through"@),
        t(i64_or(request.trade_through, 0)),
        t("--market-to-decision-ms"@),
        t(u64_or(request.market_to_decision_ms, 0)),
        t("--decision-to-exchange-ms"@),
        t(u64_or(request.decision_to_exchange_ms, 0)),
    ] + (if request.require_flat_at_end != Some(false) {
        seq![t("--require-flat-at-end"@)]
    } else {
        Seq::empty()
    })
}

/// How a runtime of `mode` is launched, or why it is not.
pub open spec fn launch_spec(
    mode: RuntimeMode,
    request: RuntimeStartRequest,
    session: SessionView,
    configured: Result<Seq<Seq<char>>, Seq<char>>,
) -> Result<PlanView, RefusalView> {
    match mode {
        RuntimeMode::Simulation => match simulation_symbols(request, configured) {
            Err(e) => Err(e),
            Ok(symbols) => Ok(
                PlanView {
                    program: "anchorbell_simulation"@,
                    args: simulation_args(request, symbols) + proxy_args(request, session),
                    env: Seq::empty(),
                    output: Some("metrics.json"@),
                },
            ),
        },
        RuntimeMode::Live => match session.credentials {
            None => Err(RefusalView::MissingCredentials),
            Some(credentials) => if session.environment == BinanceEnvironment::Production
                && !session.allow_production {
                Err(RefusalView::ProductionNotAuthorized)
            } else {
                Ok(
                    PlanView {
                        program: "anchorbell_live"@,
                        args: live_args(request, session) + proxy_args(request, session),
                        env: live_env(request, session, credentials),
                        output: None,
                    },
                )
            },
        },
        RuntimeMode::Backtest => Ok(
            PlanView {
                program: "anchorbell_backtest"@,
                args: backtest_args(request),
                env: Seq::empty(),
                output: Some("stdout.log"@),
            },
        ),
    }
}

pub open spec fn configured_view(c: Result<Vec<String>, String>) -> Result<Seq<Seq<char>>, Seq<char>> {
    match c {
        Ok(v) => Ok(v@.map_values(|s: String| s@)),
        Err(m) => Err(m@),
    }
}

fn push_text(args: &mut Vec<LaunchArg>, s: &str)
    ensures
        arg_views(final(args)@) == arg_views(old(args)@).push(t(s@)),
{
    let ghost before = args@;
    args.push(LaunchArg::Text(crate::text::owned(s)));
    assert(arg_views(args@) =~= arg_views(before).push(t(s@)));
}

fn push_string(args: &mut Vec<LaunchArg>, s: String)
    ensures
        arg_views(final(args)@) == arg_views(old(args)@).push(t(s@)),
{
    let ghost before = args@;
    let ghost v = s@;
    args.push(LaunchArg::Text(s));
    assert(arg_views(args@) =~= arg_views(before).push(t(v)));
}

fn push_run_file(args: &mut Vec<LaunchArg>, name: &'static str)
    ensures
        arg_views(final(args)@) == arg_views(old(args)@).push(ArgView::RunFile(name@)),
{
    let ghost before = args@;
    args.push(LaunchArg::RunFile(name));
    assert(arg_views(args@) =~= arg_views(before).push(ArgView::RunFile(name@)));
}

fn push_repo_path(args: &mut Vec<LaunchArg>, path: String)
    ensures
        arg_views(final(args)@) == arg_views(old(args)@).push(ArgView::RepoPath(path@)),
{
    let ghost before = args@;
    let ghost v = path@;
    args.push(LaunchArg::RepoPath(path));
    assert(arg_views(args@) =~= arg_views(before).push(ArgView::RepoPath(v)));
}

fn push_env(env: &mut Vec<(String, String)>, name: &str, value: &str)
    ensures
        env_views(final(env)@) == env_views(old(env)@).push((name@, value@)),
{
    let ghost before = env@;
    env.push((crate::text::owned(name), crate::text::owned(value)));
    assert(env_views(env@) =~= env_views(before).push((name@, value@)));
}

fn u64_text(v: Option<u64>, d: u64) -> (r: String)
    ensures
        r@ == u64_or(v, d),
{
    crate::text::u64_to_dec(
        match v {
            Some(x) => x,
            None => d,
        },
    )
}

fn i64_text(v: Option<i64>, d: i64) -> (r: String)
    ensures
        r@ == i64_or(v, d),
{
    crate::text::i64_to_dec(
        match v {
            Some(x) => x,
            None => d,
        },
    )
}

fn push_proxy(args: &mut Vec<LaunchArg>, request: &RuntimeStartRequest, session: &SessionView)
    ensures
        arg_views(final(args)@) == arg_views(old(args)@) + proxy_args(*request, *session),
{
    let chosen: Option<&String> = match &request.proxy {
        Some(p) => Some(p),
        None => match &session.proxy {
            Some(p) => Some(p),
            None => None,
        },
    };
    match chosen {
        Some(p) => {
            if crate::text::trim(p.as_str()).unicode_len() > 0 {
                let ghost before = arg_views(args@);
                push_text(args, "--proxy");
                push_string(args, p.clone());
                assert(arg_views(args@) =~= before + proxy_args(*request, *session));
            } else {
                assert(arg_views(args@) =~= arg_views(args@) + proxy_args(*request, *session));
            }
        },
        None => {
            assert(arg_views(args@) =~= arg_views(args@) + proxy_args(*request, *session));
        },
    }
}

fn join_commas(items: &Vec<String>) -> (r: String)
    ensures
        r@ == comma_joined(items@.map_values(|s: String| s@)),
{
    let ghost view = items@.map_values(|s: String| s@);
    let mut out = crate::text::owned("");
    proof {
        reveal_strlit("");
        assert(view.subrange(0, 0) =~= Seq::<Seq<char>>::empty());
    }
    let mut i: usize = 0;
    while i < items.len()
        invariant
            i <= items@.len(),
            view == items@.map_values(|s: String| s@),
            out@ == comma_joined(view.subrange(0, i as int)),
        decreases items@.len() - i,
    {
        if i > 0 {
            out.append(",");
        }
        out.append(items[i].as_str());
        proof {
            let next = view.subrange(0, i + 1);
            assert(next.drop_last() =~= view.subrange(0, i as int));
            if i == 0 {
                assert(comma_joined(next) == next[0]);
                assert(out@ =~= comma_joined(next));
            } else {
                assert(out@ =~= comma_joined(next));
            }
        }
        i = i + 1;
    }
    proof {
        assert(view.subrange(0, items@.len() as int) =~= view);
    }
    out
}

/// Plans the launch of a runtime of `mode` from the request, the session
/// and the simulation profile's symbols.
pub fn launch_plan(
    mode: RuntimeMode,
    request: &RuntimeStartRequest,
    session: &SessionView,
    configured: &Result<Vec<String>, String>,
) -> (r: Result<LaunchPlan, LaunchRefusal>)
    ensures
        outcome_view(r) == launch_spec(mode, *request, *session, configured_view(*configured)),
{
    match mode {
        RuntimeMode::Simulation => simulation_plan(request, session, configured),
        RuntimeMode::Live => live_plan(request, session),
        RuntimeMode::Backtest => Ok(backtest_plan(request)),
    }
}

#[verifier::spinoff_prover]
#[verifier::rlimit(40)]
fn simulation_plan(
    request: &RuntimeStartRequest,
    session: &SessionView,
    configured: &Result<Vec<String>, String>,
) -> (r: Result<LaunchPlan, LaunchRefusal>)
    ensures
        outcome_view(r) == launch_spec(
            RuntimeMode::Simulation,
            *request,
            *session,
            configured_view(*configured),
        ),
{
    let requested: Option<String> = match &request.symbols {
        Some(s) => if crate::text::trim(s.as_str()).unicode_len() > 0 {
            Some(s.clone())
        } else {
            None
        },
        None => None,
    };
    let symbols = match requested {
        Some(s) => s,
        None => match configured {
            Ok(list) => {
                if list.len() == 0 {
                    return Err(LaunchRefusal::NoSimulationSymbols);
                }
                join_commas(list)
            },
            Err(m) => {
                return Err(LaunchRefusal::SimulationProfile(m.clone()));
            },
        },
    };
    let ghost sv = symbols@;
    let capital = match &request.capital_cny {
        Some(c) => c.clone(),
        None => crate::text::owned("10000"),
    };
    let mut args: Vec<LaunchArg> = Vec::new();
    push_text(&mut args, "--index-anchors");
    push_text(&mut args, "--symbols");
    push_string(&mut args, symbols);
    push_text(&mut args, "--environment");
    push_text(&mut args, "production");
    push_text(&mut args, "--price-scale");
    push_text(&mut args, "8");
    push_text(&mut args, "--quantity-scale");
    push_text(&mut args, "8");
    push_text(&mut args, "--capital-cny");
    push_string(&mut args, capital);
    push_text(&mut args, "--duration-secs");
    push_string(&mut args, u64_text(request.duration_secs, 0));
    push_text(&mut args, "--records");
    push_run_file(&mut args, "records.jsonl");
    push_text(&mut args, "--market-records");
    push_run_file(&mut args, "market.jsonl");
    push_text(&mut args, "--anchor-report");
    push_run_file(&mut args, "anchors.json");
    push_text(&mut args, "--fx-records");
    push_run_file(&mut args, "fx.jsonl");
    push_text(&mut args, "--metrics");
    push_run_file(&mut args, "metrics.json");
    push_text(&mut args, "--fx-refresh-ms");
    push_text(&mut args, "30000");
    push_text(&mut args, "--fx-max-age-ms");
    push_text(&mut args, "120000");
    push_text(&mut args, "--metrics-refresh-ms");
    push_text(&mut args, "1000");
    push_text(&mut args, "--index-anchor-refresh-ms");
    push_text(&mut args, "60000");
    push_text(&mut args, "--max-mark-index-gap-bps");
    push_text(&mut args, "50");
    push_text(&mut args, "--maker-fee-ppm");
    push_text(&mut args, "200");
    assert(arg_views(args@) =~= simulation_args(*request, sv));
    push_proxy(&mut args, request, session);
    let plan = LaunchPlan {
        program: "anchorbell_simulation",
        args,
        env: Vec::new(),
        output: Some("metrics.json"),
    };
    assert(env_views(plan.env@) =~= Seq::<(Seq<char>, Seq<char>)>::empty());
    Ok(plan)
}

#[verifier::spinoff_prover]
#[verifier::rlimit(40)]
fn live_plan(request: &RuntimeStartRequest, session: &SessionView) -> (r: Result<
    LaunchPlan,
    LaunchRefusal,
>)
    ensures
        outcome_view(r) == launch_spec(
            RuntimeMode::Live,
            *request,
            *session,
            Err(Seq::<char>::empty()),
        ),
{
    let credentials = match &session.credentials {
        Some(c) => c,
        None => {
            return Err(LaunchRefusal::MissingCredentials);
        },
    };
    if session.environment == BinanceEnvironment::Production && !session.allow_production {
        return Err(LaunchRefusal::ProductionNotAuthorized);
    }
    let send = match request.allow_orders {
        Some(b) => b,
        None => false,
    } && session.allow_live_orders;
    let environment = session.environment.as_str();
    let mut args: Vec<LaunchArg> = Vec::new();
    push_text(&mut args, "--environment");
    push_text(&mut args, environment);
    push_text(&mut args, "--duration-secs");
    push_string(&mut args, u64_text(request.duration_secs, 0));
    push_text(&mut args, "--price-scale");
    push_text(&mut args, "8");
    push_text(&mut args, "--quantity-scale");
    push_text(&mut args, "8");
    push_text(&mut args, "--max-position");
    push_string(&mut args, i64_text(request.max_position, 1));
    push_text(&mut args, "--quantity");
    push_string(&mut args, i64_text(request.quantity, 1));
    push_text(&mut args, "--entry-threshold-bps");
    push_string(&mut args, i64_text(request.entry_threshold_bps, 0));
    push_text(&mut args, "--max-mark-index-gap-bps");
    push_text(&mut args, "50");
    push_text(&mut args, "--funding-lead-ms");
    push_text(&mut args, "300000");
    if send {
        push_text(&mut args, "--send-orders");
    }
    assert(arg_views(args@) =~= live_args(*request, *session));
    push_proxy(&mut args, request, session);
    let (key_name, secret_name) = session.environment.credential_env_names();
    let mut env: Vec<(String, String)> = Vec::new();
    push_env(&mut env, "ANCHORBELL_BINANCE_ENV", environment);
    push_env(&mut env, "ANCHORBELL_ENABLE_PRODUCTION", if session.allow_production { "1" } else { "0" });
    push_env(&mut env, "ANCHORBELL_ENABLE_ORDER_SUBMISSION", if send { "1" } else { "0" });
    push_env(&mut env, key_name, credentials.api_key.as_str());
    push_env(&mut env, secret_name, credentials.api_secret.as_str());
    if send {
        push_env(&mut env, "ANCHORBELL_LIVE_TRADING_CONFIRMATION", "I_UNDERSTAND_REAL_FUNDS_RISK");
    }
    assert(env_views(env@) =~= live_env(*request, *session, *credentials));
    Ok(LaunchPlan { program: "anchorbell_live", args, env, output: None })
}

#[verifier::spinoff_prover]
#[verifier::rlimit(40)]
fn backtest_plan(request: &RuntimeStartRequest) -> (r: LaunchPlan)
    ensures
        plan_view(r) == (PlanView {
            program: "anchorbell_backtest"@,
            args: backtest_args(*request),
            env: Seq::empty(),
            output: Some("stdout.log"@),
        }),
{
    let input = match &request.input {
        Some(p) => p.clone(),
        None => crate::text::owned("target\\selected-market-records.jsonl"),
    };
    let anchors = match &request.anchors {
        Some(p) => p.clone(),
        None => crate::text::owned("target\\selected-current-index-anchors.csv"),
    };
    let mut args: Vec<LaunchArg> = Vec::new();
    push_text(&mut args, "--input");
    push_repo_path(&mut args, input);
    push_text(&mut args, "--anchors");
    push_repo_path(&mut args, anchors);
    push_text(&mut args, "--records");
    push_run_file(&mut args, "records.jsonl");
    push_text(&mut args, "--price-scale");
    push_text(&mut args, "8");
    push_text(&mut args, "--quantity-scale");
    push_text(&mut args, "8");
    push_text(&mut args, "--entry-threshold-bps");
    push_string(&mut args, i64_text(request.entry_threshold_bps, 0));
    push_text(&mut args, "--max-position");
    push_string(&mut args, i64_text(request.max_position, 1));
    push_text(&mut args, "--quantity");
    push_string(&mut args, i64_text(request.quantity, 1));
    push_text(&mut args, "--queue-ahead");
    push_string(&mut args, i64_text(request.queue_ahead, 0));
    push_text(&mut args, "--trade-through");
    push_string(&mut args, i64_text(request.trade_through, 0));
    push_text(&mut args, "--market-to-decision-ms");
    push_string(&mut args, u64_text(request.market_to_decision_ms, 0));
    push_text(&mut args, "--decision-to-exchange-ms");
    push_string(&mut args, u64_text(request.decision_to_exchange_ms, 0));
    let flat = match request.require_flat_at_end {
        Some(b) => b,
        None => true,
    };
    if flat {
        push_text(&mut args, "--require-flat-at-end");
    }
    assert(arg_views(args@) =~= backtest_args(*request));
    let plan = LaunchPlan { program: "anchorbell_backtest", args, env: Vec::new(), output: Some("stdout.log") };
    assert(env_views(plan.env@) =~= Seq::<(Seq<char>, Seq<char>)>::empty());
    plan
}


/// Every `/api/` request without the configured credentials is refused,
/// whatever its method.
pub proof fn law_api_requires_authorization(method: Seq<char>, path: Seq<char>)
    requires
        has_prefix(path, "/api/"@),
    ensures
        route_spec(method, path, false) == DashboardRoute::Unauthorized,
{
}

/// A live runtime is only launched for production when the session allows
/// production, and it is told to submit orders (and given the risk
/// confirmation) exactly when both the request and the session allow
/// orders.
pub proof fn law_live_launch_respects_session(
    request: RuntimeStartRequest,
    session: SessionView,
    configured: Result<Seq<Seq<char>>, Seq<char>>,
)
    requires
        launch_spec(RuntimeMode::Live, request, session, configured) is Ok,
    ensures
        ({
            let plan = launch_spec(RuntimeMode::Live, request, session, configured)->Ok_0;
            let both = request.allow_orders == Some(true) && session.allow_live_orders;
            &&& session.environment == BinanceEnvironment::Production ==> session.allow_production
            &&& plan.env[2] == ("ANCHORBELL_ENABLE_ORDER_SUBMISSION"@, flag(both))
            &&& (plan.env.len() == 6 <==> both)
            &&& (plan.args.len() > 18 && plan.args[18] == t("--send-orders"@) <==> both)
        }),
{
    let plan = launch_spec(RuntimeMode::Live, request, session, configured)->Ok_0;
    reveal_strlit("--send-orders");
    reveal_strlit("--proxy");
    if !live_sends_orders(request, session) {
        let p = proxy_args(request, session);
        if p.len() > 0 {
            assert(plan.args[18] == t("--proxy"@));
            assert(("--proxy"@)[2] != ("--send-orders"@)[2]);
        }
    }
}

} // verus!
