//! From a query string to a sample.

use vstd::prelude::*;
use crate::error::AppError;
use crate::weather::{decodes_to, pairs_view, WeatherData};

verus! {

/// `serde_urlencoded::de::Error`, carried as it is and turned into its
/// wording.
#[verifier::external_type_specification]
#[verifier::external_body]
pub struct ExQueryError(serde_urlencoded::de::Error);

/// The wording of a failure to split a query string, as its `Display`
/// writes it.
pub uninterp spec fn query_error_wording(error: serde_urlencoded::de::Error) -> Seq<char>;

/// The pairs of key and value that a query string in the
/// `application/x-www-form-urlencoded` syntax holds, in order and
/// percent-decoded; for a string that cannot be split, the wording of the
/// failure.
pub uninterp spec fn query_pairs(query: Seq<char>) -> Result<
    Seq<(Seq<char>, Seq<char>)>,
    Seq<char>,
>;

/// `serde_urlencoded::from_str`, asked for a list of pairs of strings: the
/// pairs that the query string holds, or the failure to split it.
#[verifier::external_body]
fn split_query(query: &str) -> (r: Result<Vec<(String, String)>, serde_urlencoded::de::Error>)
    ensures
        match r {
            Ok(pairs) => query_pairs(query@) == Ok::<Seq<(Seq<char>, Seq<char>)>, Seq<char>>(
                pairs_view(pairs@),
            ),
            Err(e) => query_pairs(query@) == Err::<Seq<(Seq<char>, Seq<char>)>, Seq<char>>(
                query_error_wording(e),
            ),
        },
{
    serde_urlencoded::from_str::<Vec<(String, String)>>(query)
}

/// `Display` of `serde_urlencoded::de::Error`, through `to_string`: the
/// wording of the failure.
#[verifier::external_body]
fn query_error_text(error: &serde_urlencoded::de::Error) -> (text: String)
    ensures
        text@ == query_error_wording(*error),
{
    error.to_string()
}

/// What decoding a query string must give: what decoding its pairs gives,
/// or `SerializeError` with the wording of the failure if it cannot be
/// split into pairs.
pub open spec fn query_decodes_to(query: Seq<char>, r: Result<WeatherData, AppError>) -> bool {
    match query_pairs(query) {
        Ok(pairs) => decodes_to(pairs, r),
        Err(wording) => r matches Err(AppError::SerializeError(cause)) && cause@ == wording,
    }
}

impl WeatherData {
    /// Decodes a sample from a query string such as
    /// `tempf=72.5&humidity=45`. The empty string gives the sample in which
    /// nothing is present.
    pub fn from_query(query: &str) -> (r: Result<WeatherData, AppError>)
        ensures
            query_decodes_to(query@, r),
    {
        match split_query(query) {
            Ok(pairs) => WeatherData::from_pairs(&pairs),
            Err(e) => Err(AppError::SerializeError(query_error_text(&e))),
        }
    }
}

} // verus!
