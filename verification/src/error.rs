//! What can go wrong, and how each failure is worded and answered.

use vstd::prelude::*;
use vstd::string::StringExecFns;

verus! {

/// A failure of the pipeline.
#[derive(Debug, Clone, PartialEq, Eq)]
pub enum AppError {
    /// The value sent under a key of the catalog does not read as the kind
    /// of number that the key stands for.
    ParseError { key: String, value: String },
    /// The raw parameters could not be brought into pairs of key and value.
    SerializeError(String),
    /// The gauges could not be written in the exposition format.
    MetricsEncodeError(String),
    /// A gauge could not be created or registered.
    MetricRegistrationError { name: &'static str, cause: String },
    /// The transport failed.
    ServerError(String),
}

impl AppError {
    /// The wording of the failure: what failed, then the key or name
    /// concerned and the cause.
    pub open spec fn spec_message(self) -> Seq<char> {
        match self {
            AppError::ParseError { key, value } => "failed to parse weather data: invalid value '"@
                + value@ + "' for '"@ + key@ + "'"@,
            AppError::SerializeError(cause) => "failed to serialize query params: "@ + cause@,
            AppError::MetricsEncodeError(cause) => "failed to encode metrics: "@ + cause@,
            AppError::MetricRegistrationError { name, cause } => "failed to register metric '"@
                + name@ + "': "@ + cause@,
            AppError::ServerError(cause) => "server error: "@ + cause@,
        }
    }

    /// Whether the sender is at fault: its parameters could not be read.
    pub open spec fn is_client_error(self) -> bool {
        self is ParseError || self is SerializeError
    }

    /// The status that answers the failure: 400 where the sender is at
    /// fault, 500 otherwise.
    pub open spec fn spec_status(self) -> u16 {
        if self.is_client_error() {
            400
        } else {
            500
        }
    }

    /// The wording of the failure.
    pub fn message(&self) -> (text: String)
        ensures
            text@ == self.spec_message(),
    {
        match self {
            AppError::ParseError { key, value } => {
                let mut text = String::from_str("failed to parse weather data: invalid value '");
                text.append(value.as_str());
                text.append("' for '");
                text.append(key.as_str());
                text.append("'");
                text
            },
            AppError::SerializeError(cause) => {
                let mut text = String::from_str("failed to serialize query params: ");
                text.append(cause.as_str());
                text
            },
            AppError::MetricsEncodeError(cause) => {
                let mut text = String::from_str("failed to encode metrics: ");
                text.append(cause.as_str());
                text
            },
            AppError::MetricRegistrationError { name, cause } => {
                let mut text = String::from_str("failed to register metric '");
                text.append(name);
                text.append("': ");
                text.append(cause.as_str());
                text
            },
            AppError::ServerError(cause) => {
                let mut text = String::from_str("server error: ");
                text.append(cause.as_str());
                text
            },
        }
    }

    /// The status that answers the failure.
    pub fn status(&self) -> (code: u16)
        ensures
            code == self.spec_status(),
    {
        match self {
            AppError::ParseError { .. } | AppError::SerializeError(_) => 400,
            _ => 500,
        }
    }
}

} // verus!
