//! What each request is answered with. The transport calls these with what
//! it received and sends what they return.

use vstd::prelude::*;
use vstd::string::StrSliceExecFns;
use vstd::utf8::encode_utf8;
use crate::error::AppError;
use crate::field::{Field, FIELD_COUNT};
use crate::exposition::is_catalog_exposition;
use crate::metrics::{message_wording, Metrics};
use crate::query::query_pairs;
use crate::decimal::{round_units, step};
use crate::values::{writes_of, writes_view, written, GaugeWrite};
use crate::weather::{decoded_units, misread, reports_first_misread, WeatherData};

verus! {

/// The content type of plain answers.
pub const TEXT_PLAIN: &'static str = "text/plain; charset=utf-8";

/// The content type of the text exposition format.
pub const EXPOSITION: &'static str = "text/plain; version=0.0.4; charset=utf-8";

/// The body that acknowledges a sample, and that reports good health.
pub const OK_BODY: &'static str = "ok";

/// The name under which an unusable registry is reported.
pub const GLOBAL: &'static str = "global";

/// An answer: status, content type and body.
#[derive(Debug, Clone, PartialEq, Eq)]
pub struct Response {
    pub status: u16,
    pub content_type: &'static str,
    pub body: Vec<u8>,
}

/// A sample that was taken in: the acknowledgment, and the overwrites that
/// the sample asks of the gauges.
#[derive(Debug, Clone, PartialEq, Eq)]
pub struct Accepted {
    pub body: &'static str,
    pub writes: Vec<GaugeWrite>,
}

/// Whether `e` reports that the registry is unusable for the reason
/// `reason`: under the name `global`, with the reason worded as a failure
/// that is nothing but a message.
pub open spec fn reports_unavailable(e: AppError, reason: Seq<char>) -> bool {
    e matches AppError::MetricRegistrationError { name, cause } && name@ == GLOBAL@ && cause@
        == "Error: "@ + reason
}

/// The overwrites that the pairs `pairs` ask for among the first `count`
/// quantities of the catalog: for each quantity sent, in catalog order, the
/// value sent, rounded to the gauge's precision.
pub open spec fn planned_writes(pairs: Seq<(Seq<char>, Seq<char>)>, count: int) -> Seq<
    (Field, int),
>
    decreases count,
{
    if count <= 0 {
        Seq::empty()
    } else {
        let field = Field::spec_at(count - 1);
        match decoded_units(pairs, field) {
            Some(units) => planned_writes(pairs, count - 1).push(
                (field, round_units(units, step(field.spec_places()))),
            ),
            None => planned_writes(pairs, count - 1),
        }
    }
}

/// A sample that holds what the pairs send asks for the overwrites that the
/// pairs ask for.
pub proof fn lemma_planned_writes(pairs: Seq<(Seq<char>, Seq<char>)>, data: WeatherData, count: int)
    requires
        forall|field: Field| data.units(field) == decoded_units(pairs, field),
    ensures
        writes_of(data, count) == planned_writes(pairs, count),
    decreases count,
{
    if count > 0 {
        lemma_planned_writes(pairs, data, count - 1);
        assert(written(data, Field::spec_at(count - 1)) == written(data, Field::spec_at(count - 1)));
    }
}

/// The registry, if it was constructed; else the failure that answers a
/// request that needs it, with the reason kept from the construction.
pub fn metrics<'a>(global: Result<&'a Metrics, &'a String>) -> (r: Result<&'a Metrics, AppError>)
    ensures
        match global {
            Ok(registry) => r == Ok::<&Metrics, AppError>(registry),
            Err(cause) => r matches Err(e) && reports_unavailable(e, cause@),
        },
{
    match global {
        Ok(registry) => Ok(registry),
        Err(cause) => Err(
            AppError::MetricRegistrationError {
                name: GLOBAL,
                cause: message_wording(cause.as_str()),
            },
        ),
    }
}

/// Takes in one sample sent as a query string: decodes it, then asks the
/// registry for the overwrites. A query that cannot be split or a value that
/// is misread fails before the registry is looked at, so such a request
/// asks for no overwrite at all.
pub fn handle_weather_data(global: Result<&Metrics, &String>, query: &str) -> (r: Result<
    Accepted,
    AppError,
>)
    ensures
        match query_pairs(query@) {
            Err(wording) => r matches Err(AppError::SerializeError(cause)) && cause@ == wording,
            Ok(pairs) => if exists|field: Field| misread(pairs, field) {
                r matches Err(e) && reports_first_misread(pairs, e)
            } else {
                match global {
                    Err(cause) => r matches Err(e) && reports_unavailable(e, cause@),
                    Ok(_) => {
                        &&& r matches Ok(accepted)
                        &&& accepted.body@ == OK_BODY@
                        &&& writes_view(accepted.writes@) == planned_writes(
                            pairs,
                            FIELD_COUNT as int,
                        )
                    },
                }
            },
        },
{
    let data = match WeatherData::from_query(query) {
        Ok(data) => data,
        Err(e) => {
            return Err(e);
        },
    };
    let registry = match metrics(global) {
        Ok(registry) => registry,
        Err(e) => {
            return Err(e);
        },
    };
    let writes = registry.update(&data);
    proof {
        lemma_planned_writes(query_pairs(query@)->Ok_0, data, FIELD_COUNT as int);
    }
    Ok(Accepted { body: OK_BODY, writes })
}

/// Answers a scrape: the encoding of the gauges as they are at the call,
/// under the content type of the exposition format.
pub fn handle_metrics(global: Result<&Metrics, &String>) -> (r: Result<Response, AppError>)
    ensures
        match global {
            Err(cause) => r matches Err(e) && reports_unavailable(e, cause@),
            Ok(_) => {
                &&& r matches Ok(response)
                &&& response.status == 200
                &&& response.content_type@ == EXPOSITION@
                &&& is_catalog_exposition(response.body@)
            },
        },
{
    let registry = match metrics(global) {
        Ok(registry) => registry,
        Err(e) => {
            return Err(e);
        },
    };
    match registry.encode() {
        Ok(body) => Ok(Response { status: 200, content_type: EXPOSITION, body }),
        Err(e) => Err(e),
    }
}

/// Answers a health check. A process that serves has constructed its
/// registry, so the answer is always healthy.
pub fn handle_health() -> (response: Response)
    ensures
        response.status == 200,
        response.content_type@ == TEXT_PLAIN@,
        response.body@ == encode_utf8(OK_BODY@),
{
    Response { status: 200, content_type: TEXT_PLAIN, body: OK_BODY.as_bytes_vec() }
}

/// The answer to a request that failed: 400 with the wording of the failure
/// where the sender's parameters could not be read, 500 with it otherwise.
pub fn error_response(error: &AppError) -> (response: Response)
    ensures
        response.status == error.spec_status(),
        response.content_type@ == TEXT_PLAIN@,
        response.body@ == encode_utf8(error.spec_message()),
{
    let text = error.message();
    Response { status: error.status(), content_type: TEXT_PLAIN, body: text.as_str().as_bytes_vec() }
}

} // verus!
