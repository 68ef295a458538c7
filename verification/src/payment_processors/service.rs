//! Processor identities and the request/response rules of the processor
//! endpoints, separated from the network calls that the binary performs.

use vstd::prelude::*;
use vstd::string::StringExecFns;
use crate::strings::str_eq;
use super::structs::PaymentProcessorHealthCheckDTO;

verus! {

/// The two interchangeable settlement services this gateway talks to.
#[derive(Debug, Clone, Copy, PartialEq, Eq, Structural)]
pub enum PaymentProcessorServices {
    Default,
    Fallback,
}

/// Canonical lowercase name of a processor, used as a storage column value
/// and as the wire value of the buffer record.
pub open spec fn service_name(s: PaymentProcessorServices) -> Seq<char> {
    match s {
        PaymentProcessorServices::Default => "default"@,
        PaymentProcessorServices::Fallback => "fallback"@,
    }
}

/// Base URL compiled in for a processor, used when the deployment sets none.
pub open spec fn default_base_url(s: PaymentProcessorServices) -> Seq<char> {
    match s {
        PaymentProcessorServices::Default => "http://localhost:8001"@,
        PaymentProcessorServices::Fallback => "http://localhost:8002"@,
    }
}

/// Name of the environment variable that overrides a processor's base URL.
pub open spec fn base_url_key(s: PaymentProcessorServices) -> Seq<char> {
    match s {
        PaymentProcessorServices::Default => "PAYMENT_PROCESSOR_DEFAULT_URL"@,
        PaymentProcessorServices::Fallback => "PAYMENT_PROCESSOR_FALLBACK_URL"@,
    }
}

/// The processor a name designates; an unrecognized name designates Default.
pub open spec fn service_of_name(s: Seq<char>) -> PaymentProcessorServices {
    if s == "fallback"@ {
        PaymentProcessorServices::Fallback
    } else {
        PaymentProcessorServices::Default
    }
}

/// A canonical processor name is made of lowercase letters only.
pub proof fn lemma_service_name_chars(s: PaymentProcessorServices)
    ensures
        1 <= service_name(s).len() <= 8,
        forall|i: int|
            0 <= i < service_name(s).len() ==> 97 <= (#[trigger] service_name(s)[i]) as int
                <= 122,
{
    reveal_strlit("default");
    reveal_strlit("fallback");
    let n = service_name(s);
    match s {
        PaymentProcessorServices::Default => {
            assert(n =~= seq!['d', 'e', 'f', 'a', 'u', 'l', 't']);
            assert forall|i: int| 0 <= i < n.len() implies 97 <= (#[trigger] n[i]) as int
                <= 122 by {
                if i == 0 {
                    assert(n[i] == 'd');
                } else if i == 1 {
                    assert(n[i] == 'e');
                } else if i == 2 {
                    assert(n[i] == 'f');
                } else if i == 3 {
                    assert(n[i] == 'a');
                } else if i == 4 {
                    assert(n[i] == 'u');
                } else if i == 5 {
                    assert(n[i] == 'l');
                } else {
                    assert(n[i] == 't');
                }
            }
        },
        PaymentProcessorServices::Fallback => {
            assert(n =~= seq!['f', 'a', 'l', 'l', 'b', 'a', 'c', 'k']);
            assert forall|i: int| 0 <= i < n.len() implies 97 <= (#[trigger] n[i]) as int
                <= 122 by {
                if i == 0 {
                    assert(n[i] == 'f');
                } else if i == 1 {
                    assert(n[i] == 'a');
                } else if i == 2 {
                    assert(n[i] == 'l');
                } else if i == 3 {
                    assert(n[i] == 'l');
                } else if i == 4 {
                    assert(n[i] == 'b');
                } else if i == 5 {
                    assert(n[i] == 'a');
                } else if i == 6 {
                    assert(n[i] == 'c');
                } else {
                    assert(n[i] == 'k');
                }
            }
        },
    }
}

/// The two canonical names designate their own processors when read back.
pub proof fn lemma_service_name_round_trip(s: PaymentProcessorServices)
    ensures
        service_of_name(service_name(s)) == s,
{
    reveal_strlit("default");
    reveal_strlit("fallback");
    match s {
        PaymentProcessorServices::Default => {
            assert("default"@.len() != "fallback"@.len());
            assert(service_name(s) != "fallback"@);
        },
        PaymentProcessorServices::Fallback => {
        },
    }
}

impl PaymentProcessorServices {
    /// The canonical lowercase name, `"default"` or `"fallback"`.
    pub fn to_string(&self) -> (r: String)
        ensures
            r@ == service_name(*self),
    {
        match self {
            PaymentProcessorServices::Default => String::from_str("default"),
            PaymentProcessorServices::Fallback => String::from_str("fallback"),
        }
    }

    /// The environment variable consulted for this processor's base URL.
    pub fn env_key(&self) -> (r: String)
        ensures
            r@ == base_url_key(*self),
    {
        match self {
            PaymentProcessorServices::Default => String::from_str("PAYMENT_PROCESSOR_DEFAULT_URL"),
            PaymentProcessorServices::Fallback => String::from_str(
                "PAYMENT_PROCESSOR_FALLBACK_URL",
            ),
        }
    }

    /// The base URL: the deployment's override when one is set, else the
    /// compiled-in default.  The override is the value of the variable
    /// named by `env_key`, read by the caller.
    pub fn get_url(&self, env_override: &Option<String>) -> (r: String)
        ensures
            match env_override {
                Some(u) => r@ == u@,
                None => r@ == default_base_url(*self),
            },
    {
        match env_override {
            Some(u) => u.clone(),
            None => match self {
                PaymentProcessorServices::Default => String::from_str("http://localhost:8001"),
                PaymentProcessorServices::Fallback => String::from_str("http://localhost:8002"),
            },
        }
    }

    /// The processor a wire or storage name designates; unrecognized names
    /// fall back to Default.
    pub fn from_name(s: &str) -> (r: Self)
        ensures
            r == service_of_name(s@),
    {
        if str_eq(s, "fallback") {
            PaymentProcessorServices::Fallback
        } else {
            PaymentProcessorServices::Default
        }
    }
}

/// Where payment submissions for a processor go: `{base url}/payments`.
pub fn payments_url(base_url: &str) -> (r: String)
    ensures
        r@ == base_url@ + "/payments"@,
{
    let mut r = String::from_str(base_url);
    r.append("/payments");
    r
}

/// Where a processor reports its health: `{base url}/payments/service-health`.
pub fn health_url(base_url: &str) -> (r: String)
    ensures
        r@ == base_url@ + "/payments/service-health"@,
{
    let mut r = String::from_str(base_url);
    r.append("/payments/service-health");
    r
}

/// A submission succeeded exactly when the processor answered HTTP 200.
pub open spec fn submit_ok(status: u16) -> bool {
    status == 200
}

/// Turns the observed HTTP status of a submission into the submission's
/// outcome: 200 is success, anything else is a processing failure carrying
/// the status.  A transport failure, with no status at all, is reported as
/// a generic internal failure, status 500.
pub fn interpret_submit_status(status: Option<u16>) -> (r: Result<(), u16>)
    ensures
        match status {
            Some(code) => if submit_ok(code) {
                r is Ok
            } else {
                r == Result::<(), u16>::Err(code)
            },
            None => r == Result::<(), u16>::Err(500u16),
        },
{
    match status {
        Some(code) => if code == 200 {
            Ok(())
        } else {
            Err(code)
        },
        None => Err(500),
    }
}

/// What a health probe yields once the network round trip is done:
/// `Some(dto)` when the processor answered HTTP 200 with a body that
/// parsed, `None` for any non-200 answer, unparseable body or transport
/// error.  Errors never make a processor look healthy: they yield the
/// failing sentinel.
pub fn interpret_health_probe(probe: Option<PaymentProcessorHealthCheckDTO>) -> (r:
    PaymentProcessorHealthCheckDTO)
    ensures
        match probe {
            Some(dto) => r == dto,
            None => r.failing == true && r.min_response_time == i32::MAX,
        },
{
    match probe {
        Some(dto) => dto,
        None => PaymentProcessorHealthCheckDTO::failing_sentinel(),
    }
}

} // verus!
