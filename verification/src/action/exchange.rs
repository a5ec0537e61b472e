//! What is sent for an action and what is made of the reply.

use vstd::prelude::*;

use crate::action::http::{
    answers, bare_url, category_of, fails_with, is_address_of, is_expectation_of, is_success,
    plans, polled, step_method, ActionClient, ActionPlan, Address, Expectation, ResponsePlan,
    TransportError,
};
use crate::address::{password_of, username_of, without_password, without_username};
use crate::clock::Instant;
use crate::config::{ActionStepConfig, HttpMethod};
use crate::state::machine::ActionOutcome;

verus! {

/// Whether an outcome is a failure that says this word, without a status.
pub open spec fn says_why(outcome: ActionOutcome, word: Seq<char>) -> bool {
    outcome matches ActionOutcome::Failure { status, error } && status is None && error is Some
        && error->0@ == word
}

/// What is planned: a text that is no URL is refused, a dry run succeeds with status 204
/// and sends nothing, and a deadline that has come is a timeout. Everything else is sent.
pub proof fn law_plan_sends_unless_it_cannot(
    client: ActionClient,
    plan: ActionPlan,
    method: HttpMethod,
    address: Option<Address>,
    expectation: Option<Expectation>,
    deadline: Option<Instant>,
    now: Instant,
)
    requires
        plans(client, plan, method, address, expectation, deadline, now),
    ensures
        address is None ==> plan is Done && says_why(plan->Done_0, "invalid_url"@),
        address is Some && client.dry_run ==> plan is Done && plan->Done_0 is Success
            && plan->Done_0->Success_status == 204,
        address is Some && !client.dry_run && deadline is Some && deadline->0.nanos <= now.nanos
            ==> plan is Done && says_why(plan->Done_0, "timeout"@),
        address is Some && !client.dry_run && (deadline is None || deadline->0.nanos > now.nanos)
            ==> plan is Send,
{
}

/// What is sent: the method as asked, the URL without user name and password, these two as
/// basic authentication if there is a user name, and the value that the reply is compared
/// with. A request with a deadline may take the time that is left, but no longer than the
/// client allows, and at least a millisecond.
pub proof fn law_request_is_what_was_asked(
    client: ActionClient,
    plan: ActionPlan,
    method: HttpMethod,
    address: Option<Address>,
    expectation: Option<Expectation>,
    deadline: Option<Instant>,
    now: Instant,
)
    requires
        plans(client, plan, method, address, expectation, deadline, now),
        plan is Send,
    ensures
        address is Some,
        ({
            let request = plan->Send_0;
            let left = deadline->0.nanos - now.nanos;
            &&& request.method == method
            &&& request.url@ == address->0.request_url@
            &&& request.timeout is Some <==> deadline is Some
            &&& request.timeout matches Some(timeout) ==> {
                &&& timeout.nanos >= 1_000_000
                &&& timeout.nanos > 1_000_000 ==> timeout.nanos <= left && timeout.nanos
                    <= client.request_timeout.nanos
                &&& timeout.nanos == left || timeout.nanos == client.request_timeout.nanos
                    || timeout.nanos == 1_000_000
                &&& timeout.nanos == 1_000_000 ==> left <= 1_000_000
                    || client.request_timeout.nanos <= 1_000_000
            }
            &&& request.basic_auth is Some <==> address->0.username@.len() > 0
            &&& request.basic_auth matches Some(credentials) ==> {
                &&& credentials.username@ == address->0.username@
                &&& credentials.password is Some <==> address->0.password is Some
                &&& credentials.password is Some ==> credentials.password->0@
                    == address->0.password->0@
            }
            &&& request.expectation is Some <==> expectation is Some
            &&& expectation is Some ==> request.expectation->0.pointer@ == expectation->0.pointer@
                && request.expectation->0.expected@ == expectation->0.expected@
        }),
{
    let auth = plan->Send_0.basic_auth;
    if auth is Some {
        let sent = auth->0.password.deep_view();
        assert(sent == address->0.password.deep_view());
        if auth->0.password is Some {
            assert(sent == Some(auth->0.password->0@));
        }
        if address->0.password is Some {
            assert(sent == Some(address->0.password->0@));
        }
    }
}

/// A request is sent with its own method, or with that of the client if it has none, and
/// compares nothing. A wait polls with GET and compares with the value it waits for.
pub proof fn law_step_says_how_it_is_sent(
    client: ActionClient,
    step: ActionStepConfig,
    expectation: Option<Expectation>,
)
    requires
        is_expectation_of(expectation, step),
    ensures
        step matches ActionStepConfig::Request { method, .. } ==> expectation is None && (
        method is Some ==> step_method(client, step) == method->0) && (method is None
            ==> step_method(client, step) == client.default_method),
        step matches ActionStepConfig::WaitForJson { pointer, expected, .. } ==> step_method(
            client,
            step,
        ) == HttpMethod::Get && expectation is Some && expectation->0.pointer@ == pointer@
            && expectation->0.expected@ == expected@,
{
}

/// The address of a URL holds its user name, its password and what remains of it without
/// the two. There is one whenever both can be taken out.
pub proof fn law_address_takes_the_url_apart(url: Seq<char>, address: Option<Address>)
    requires
        is_address_of(address, url),
    ensures
        address is Some ==> {
            &&& username_of(url) == Some(address->0.username@)
            &&& address->0.password is Some <==> password_of(url) is Some
            &&& address->0.password is Some ==> password_of(url) == Some(address->0.password->0@)
            &&& without_username(url) is Some
            &&& without_password(without_username(url)->0) == Some(address->0.request_url@)
        },
        username_of(url) is Some && without_username(url) is Some && without_password(
            without_username(url)->0,
        ) is Some ==> address is Some,
        bare_url(url) is Some ==> without_username(url) is Some,
{
    if address is Some {
        let password = address->0.password.deep_view();
        if address->0.password is Some {
            assert(password == Some(address->0.password->0@));
        }
    }
}

/// The statuses that report success are those of the class 2xx.
pub proof fn law_success_is_a_class_of_statuses(status: u16)
    ensures
        is_success(status) <==> status / 100 == 2,
{
}

/// A poll succeeds when the reply holds the expected value, is to be repeated when the reply
/// is a document without it, and fails when the reply is no document. The status goes along.
pub proof fn law_poll_waits_for_the_value(
    outcome: ActionOutcome,
    status: u16,
    document: bool,
    found: bool,
)
    requires
        polled(outcome, status, document, found),
    ensures
        outcome is Success <==> document && found,
        outcome is Pending <==> document && !found,
        outcome is Failure <==> !document,
        outcome matches ActionOutcome::Success { status: reported } ==> reported == status,
        outcome matches ActionOutcome::Pending { status: reported } ==> reported == status,
        outcome matches ActionOutcome::Failure { status: reported, error } ==> reported == Some(
            status,
        ) && error is Some && error->0@ == "invalid_json"@,
{
    if let ActionOutcome::Failure { error, .. } = outcome {
        assert(error.deep_view() == Some("invalid_json"@));
    }
}

/// A failure carries its status and its error, if there is one.
pub proof fn law_failure_carries_its_cause(
    outcome: ActionOutcome,
    status: Option<u16>,
    error: Option<Seq<char>>,
)
    ensures
        fails_with(outcome, status, error) ==> outcome is Failure
            && outcome->Failure_status == status && (outcome->Failure_error is Some
            <==> error is Some) && (error is Some ==> outcome->Failure_error->0@ == error->0),
{
    if outcome is Failure && outcome->Failure_error is Some {
        assert(outcome->Failure_error.deep_view() == Some(outcome->Failure_error->0@));
    }
}

/// A timeout is called so whatever else went wrong, then a failed connection, then a
/// request that could not be sent.
pub proof fn law_transport_errors_have_words(error: TransportError)
    ensures
        error.is_timeout ==> category_of(error) == "timeout"@,
        !error.is_timeout && error.is_connect ==> category_of(error) == "connect"@,
        !error.is_timeout && !error.is_connect && error.is_request ==> category_of(error)
            == "request"@,
        !error.is_timeout && !error.is_connect && !error.is_request ==> category_of(error)
            == "network"@,
{
}

/// A response without a status of the class 2xx fails with that status, and no other words.
/// One with such a status succeeds with it, unless a value is waited for: then the body
/// decides.
pub proof fn law_status_decides_unless_a_value_is_awaited(
    plan: ResponsePlan,
    status: u16,
    expects_json: bool,
)
    requires
        answers(plan, status, expects_json),
    ensures
        plan is ReadBody <==> status / 100 == 2 && expects_json,
        plan matches ResponsePlan::Done(outcome) ==> {
            &&& !(outcome is Pending)
            &&& outcome is Success <==> status / 100 == 2
            &&& outcome matches ActionOutcome::Success { status: told } ==> told == status
            &&& outcome matches ActionOutcome::Failure { status: told, error } ==> told == Some(
                status,
            ) && error is None
        },
{
    if let ResponsePlan::Done(ActionOutcome::Failure { error, .. }) = plan {
        if error is Some {
            assert(error.deep_view() == Some(error->0@));
        }
    }
}

} // verus!
