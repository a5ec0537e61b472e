//! HTTP action client.
//!
//! The client decides what to send and what a reply means. Whoever holds the network
//! sends the request and hands the reply back.

use vstd::prelude::*;

use crate::address::{
    password_of, url_clear_password, url_clear_username, url_password, url_username, username_of,
    web_url, without_password, without_username,
};
use crate::clock::{nanos_since, Duration, Instant};
use crate::config::{ActionStepConfig, HttpConfig, HttpMethod};
use crate::json::{is_json, json_document, json_pointer_is, json_selects};
use crate::state::machine::ActionOutcome;

verus! {

/// Shared settings of all actions.
#[derive(Clone, Copy, Debug, PartialEq, Eq, Structural)]
pub struct ActionClient {
    /// Method of a request that names none.
    pub default_method: HttpMethod,
    /// Longest time that one request may take.
    pub request_timeout: Duration,
    /// Whether actions succeed without being sent.
    pub dry_run: bool,
}

/// An action URL taken apart.
#[derive(Debug)]
pub struct Address {
    /// User name, empty if the URL has none.
    pub username: String,
    /// Password, if the URL has one.
    pub password: Option<String>,
    /// The URL without user name and password.
    pub request_url: String,
}

/// The JSON value that a poll waits for.
#[derive(Debug)]
pub struct Expectation {
    /// JSON pointer to the value.
    pub pointer: String,
    /// JSON text of the value.
    pub expected: String,
}

/// User name and password of a request.
#[derive(Debug)]
pub struct Credentials {
    /// User name.
    pub username: String,
    /// Password, if there is one.
    pub password: Option<String>,
}

/// A request to send.
#[derive(Debug)]
pub struct Request {
    /// HTTP method.
    pub method: HttpMethod,
    /// URL without user name and password.
    pub url: String,
    /// Longest time that the request may take, where it is not that of the client.
    pub timeout: Option<Duration>,
    /// Credentials for basic authentication.
    pub basic_auth: Option<Credentials>,
    /// JSON value that the reply is compared with.
    pub expectation: Option<Expectation>,
}

/// What is to be done for an action.
#[derive(Debug)]
pub enum ActionPlan {
    /// Nothing: this is the outcome.
    Done(ActionOutcome),
    /// Send this request.
    Send(Request),
}

/// What is to be done about a response.
#[derive(Debug)]
pub enum ResponsePlan {
    /// Nothing: this is the outcome.
    Done(ActionOutcome),
    /// Read the body, which decides.
    ReadBody,
}

/// Why no complete response was received.
#[derive(Clone, Copy, Debug, PartialEq, Eq, Structural)]
pub struct TransportError {
    /// The time was up.
    pub is_timeout: bool,
    /// No connection was made.
    pub is_connect: bool,
    /// The request could not be sent.
    pub is_request: bool,
}

/// Whether an outcome is a failure with this status and this error.
pub open spec fn fails_with(
    outcome: ActionOutcome,
    status: Option<u16>,
    error: Option<Seq<char>>,
) -> bool {
    match outcome {
        ActionOutcome::Failure { status: actual_status, error: actual_error } => actual_status
            == status && actual_error.deep_view() == error,
        _ => false,
    }
}

/// Whether nothing is to be done for an action but to report this failure.
pub open spec fn gives_up(plan: ActionPlan, error: Seq<char>) -> bool {
    plan is Done && fails_with(plan->Done_0, None, Some(error))
}

/// An action URL without user name and password, if it is a URL that can do without.
pub open spec fn bare_url(url: Seq<char>) -> Option<Seq<char>> {
    match without_username(url) {
        Some(rest) => without_password(rest),
        None => None,
    }
}

/// Whether an address is that of a URL.
pub open spec fn is_address_of(address: Option<Address>, url: Seq<char>) -> bool {
    match address {
        Some(address) => {
            &&& Some(address.username@) == username_of(url)
            &&& address.password.deep_view() == password_of(url)
            &&& Some(address.request_url@) == bare_url(url)
        },
        None => bare_url(url) is None || username_of(url) is None,
    }
}

/// The time that a request may take: that left until the deadline, but no longer than
/// the client allows and no shorter than a millisecond.
pub open spec fn time_allowed(client: ActionClient, deadline: Instant, now: Instant) -> int {
    let left = nanos_since(deadline, now);
    let shorter = if left <= client.request_timeout.nanos {
        left
    } else {
        client.request_timeout.nanos as int
    };
    if shorter <= 1_000_000 {
        1_000_000
    } else {
        shorter
    }
}

/// Whether two expectations wait for the same value.
pub open spec fn same_expectation(a: Option<Expectation>, b: Option<Expectation>) -> bool {
    match (a, b) {
        (Some(a), Some(b)) => a.pointer@ == b.pointer@ && a.expected@ == b.expected@,
        (None, None) => true,
        _ => false,
    }
}

/// Whether a plan is what a client does to send a request to an address.
pub open spec fn plans(
    client: ActionClient,
    plan: ActionPlan,
    method: HttpMethod,
    address: Option<Address>,
    expectation: Option<Expectation>,
    deadline: Option<Instant>,
    now: Instant,
) -> bool {
    if address is None {
        gives_up(plan, "invalid_url"@)
    } else if client.dry_run {
        plan == ActionPlan::Done(ActionOutcome::Success { status: 204 })
    } else if deadline is Some && nanos_since(deadline->0, now) == 0 {
        gives_up(plan, "timeout"@)
    } else {
        &&& plan is Send
        &&& plan->Send_0.method == method
        &&& plan->Send_0.url@ == address->0.request_url@
        &&& match (plan->Send_0.timeout, deadline) {
            (Some(timeout), Some(deadline)) => timeout.nanos == time_allowed(client, deadline, now),
            (None, None) => true,
            _ => false,
        }
        &&& if address->0.username@.len() == 0 {
            plan->Send_0.basic_auth is None
        } else {
            &&& plan->Send_0.basic_auth is Some
            &&& plan->Send_0.basic_auth->0.username@ == address->0.username@
            &&& plan->Send_0.basic_auth->0.password.deep_view() == address->0.password.deep_view()
        }
        &&& same_expectation(plan->Send_0.expectation, expectation)
    }
}

/// The method of a step that sends a request.
pub open spec fn step_method(client: ActionClient, step: ActionStepConfig) -> HttpMethod {
    match step {
        ActionStepConfig::Request { method: Some(method), .. } => method,
        ActionStepConfig::Request { method: None, .. } => client.default_method,
        _ => HttpMethod::Get,
    }
}

/// Whether an expectation is that of a step.
pub open spec fn is_expectation_of(
    expectation: Option<Expectation>,
    step: ActionStepConfig,
) -> bool {
    match step {
        ActionStepConfig::WaitForJson { pointer, expected, .. } => expectation is Some
            && expectation->0.pointer@ == pointer@ && expectation->0.expected@ == expected@,
        _ => expectation is None,
    }
}

/// Whether an HTTP status reports success.
pub open spec fn is_success(status: u16) -> bool {
    200 <= status < 300
}

/// The word for a transport error.
pub open spec fn category_of(error: TransportError) -> Seq<char> {
    if error.is_timeout {
        "timeout"@
    } else if error.is_connect {
        "connect"@
    } else if error.is_request {
        "request"@
    } else {
        "network"@
    }
}

/// Whether an outcome is that of a poll whose reply is a JSON document or not, and holds
/// the expected value or not.
pub open spec fn polled(outcome: ActionOutcome, status: u16, document: bool, found: bool) -> bool {
    if !document {
        fails_with(outcome, Some(status), Some("invalid_json"@))
    } else if !found {
        outcome == ActionOutcome::Pending { status }
    } else {
        outcome == ActionOutcome::Success { status }
    }
}

impl ActionClient {
    /// Builds reusable action settings.
    pub fn new(config: &HttpConfig, dry_run: bool) -> (client: Self)
        ensures
            client.default_method == config.method,
            client.request_timeout == config.timeout,
            client.dry_run == dry_run,
    {
        ActionClient {
            default_method: config.method,
            request_timeout: config.timeout,
            dry_run,
        }
    }

    /// Decides what to do for one step of a sequence. A delay is no action.
    ///
    /// A request to a URL of the web is sent, unless its deadline has passed. In a dry run
    /// it succeeds unsent.
    pub fn execute(
        &self,
        action: &ActionStepConfig,
        deadline: Option<Instant>,
        now: Instant,
    ) -> (plan: ActionPlan)
        ensures
            action is Delay ==> gives_up(plan, "invalid_action"@),
            !(action is Delay) ==> exists|
                address: Option<Address>,
                expectation: Option<Expectation>,
            |
                is_address_of(address, action.target_url()->0) && is_expectation_of(
                    expectation,
                    *action,
                ) && #[trigger] plans(
                    *self,
                    plan,
                    step_method(*self, *action),
                    address,
                    expectation,
                    deadline,
                    now,
                ),
            self.dry_run ==> plan is Done,
            action.target_url() is Some && web_url(action.target_url()->0) ==> {
                &&& self.dry_run ==> plan == ActionPlan::Done(
                    ActionOutcome::Success { status: 204 },
                )
                &&& !self.dry_run && (deadline is None || nanos_since(deadline->0, now) > 0)
                    ==> plan is Send
            },
    {
        match action {
            ActionStepConfig::Request { method, url } => {
                let method: HttpMethod = match method {
                    Some(method) => *method,
                    None => self.default_method,
                };
                self.send(method, split_userinfo(url.as_str()), None, deadline, now)
            },
            ActionStepConfig::WaitForJson { url, pointer, expected, .. } => {
                let expectation = Expectation {
                    pointer: pointer.clone(),
                    expected: expected.clone(),
                };
                self.send(
                    HttpMethod::Get,
                    split_userinfo(url.as_str()),
                    Some(expectation),
                    deadline,
                    now,
                )
            },
            ActionStepConfig::Delay { .. } => give_up("invalid_action"),
        }
    }

    /// Decides what to do to send a request to an address, if there is one.
    ///
    /// User name and password become basic authentication. In a dry run every action
    /// succeeds unsent.
    pub fn send(
        &self,
        method: HttpMethod,
        address: Option<Address>,
        expectation: Option<Expectation>,
        deadline: Option<Instant>,
        now: Instant,
    ) -> (plan: ActionPlan)
        ensures
            plans(*self, plan, method, address, expectation, deadline, now),
    {
        let address = match address {
            Some(address) => address,
            None => {
                return give_up("invalid_url");
            },
        };
        if self.dry_run {
            return ActionPlan::Done(ActionOutcome::Success { status: 204 });
        }
        let timeout: Option<Duration> = match deadline {
            Some(deadline) => {
                let remaining: Duration = deadline.saturating_duration_since(now);
                if remaining.nanos == 0 {
                    return give_up("timeout");
                }
                Some(remaining.min(self.request_timeout).max(Duration::from_millis(1)))
            },
            None => None,
        };
        let basic_auth: Option<Credentials> = if address.username.as_str().unicode_len() == 0 {
            None
        } else {
            Some(Credentials { username: address.username, password: address.password })
        };
        ActionPlan::Send(
            Request { method, url: address.request_url, timeout, basic_auth, expectation },
        )
    }
}

/// Takes an action URL apart. There is no result for a text that is not a URL with a
/// host.
fn split_userinfo(url: &str) -> (address: Option<Address>)
    ensures
        is_address_of(address, url@),
        web_url(url@) ==> address is Some,
{
    let username = match url_username(url) {
        Some(username) => username,
        None => {
            return None;
        },
    };
    let password = url_password(url);
    let rest = match url_clear_username(url) {
        Some(rest) => rest,
        None => {
            return None;
        },
    };
    let request_url = match url_clear_password(rest.as_str()) {
        Some(request_url) => request_url,
        None => {
            return None;
        },
    };
    Some(Address { username, password, request_url })
}

fn failure(status: Option<u16>, error: &str) -> (outcome: ActionOutcome)
    ensures
        fails_with(outcome, status, Some(error@)),
{
    ActionOutcome::Failure { status, error: Some(error.to_owned()) }
}

fn give_up(error: &str) -> (plan: ActionPlan)
    ensures
        gives_up(plan, error@),
{
    ActionPlan::Done(failure(None, error))
}

/// Whether a plan is what is done about a response.
pub open spec fn answers(plan: ResponsePlan, status: u16, expects_json: bool) -> bool {
    if !is_success(status) {
        plan is Done && fails_with(plan->Done_0, Some(status), None)
    } else if expects_json {
        plan is ReadBody
    } else {
        plan == ResponsePlan::Done(ActionOutcome::Success { status })
    }
}

/// Decides what to do about a response: a status that does not report success is a
/// failure, and a poll looks at the body.
pub fn handle_response(status: u16, expects_json: bool) -> (plan: ResponsePlan)
    ensures
        answers(plan, status, expects_json),
{
    if !(200 <= status && status < 300) {
        ResponsePlan::Done(ActionOutcome::Failure { status: Some(status), error: None })
    } else if expects_json {
        ResponsePlan::ReadBody
    } else {
        ResponsePlan::Done(ActionOutcome::Success { status })
    }
}

/// The outcome of a poll whose response has this body.
pub fn handle_body(status: u16, body: &[u8], expectation: &Expectation) -> (outcome: ActionOutcome)
    ensures
        polled(
            outcome,
            status,
            json_document(body@),
            json_selects(body@, expectation.pointer@, expectation.expected@),
        ),
{
    let document: bool = is_json(body);
    let found: bool = json_pointer_is(
        body,
        expectation.pointer.as_str(),
        expectation.expected.as_str(),
    );
    judge_poll(status, document, found)
}

/// The outcome of a poll whose reply is a JSON document or not, and holds the expected
/// value or not.
pub fn judge_poll(status: u16, document: bool, found: bool) -> (outcome: ActionOutcome)
    ensures
        polled(outcome, status, document, found),
{
    if !document {
        failure(Some(status), "invalid_json")
    } else if !found {
        ActionOutcome::Pending { status }
    } else {
        ActionOutcome::Success { status }
    }
}

/// The outcome of an action for which no complete response was received. There is a
/// status if only the body is missing.
pub fn handle_error(status: Option<u16>, error: TransportError) -> (outcome: ActionOutcome)
    ensures
        fails_with(outcome, status, Some(category_of(error))),
{
    failure(status, error_category(error))
}

/// Returns the word for a transport error.
pub fn error_category(error: TransportError) -> (category: &'static str)
    ensures
        category@ == category_of(error),
{
    if error.is_timeout {
        "timeout"
    } else if error.is_connect {
        "connect"
    } else if error.is_request {
        "request"
    } else {
        "network"
    }
}

} // verus!
