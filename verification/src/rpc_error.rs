//! Errors as JSON-RPC peers see them.

use vstd::prelude::*;
use crate::foreign::{acp_invalid_params, mcp_internal_error, ErrorParts};
use crate::json::{Json, JsonView};

verus! {

/// An error that answers a JSON-RPC request.
#[derive(Debug, PartialEq)]
pub struct RpcError {
    pub code: i32,
    pub message: String,
    pub data: Option<Json>,
}

/// What an error says.
pub struct RpcErrorView {
    pub code: int,
    pub message: Seq<char>,
    pub data: Option<JsonView>,
}

impl View for RpcError {
    type V = RpcErrorView;

    open spec fn view(&self) -> RpcErrorView {
        RpcErrorView {
            code: self.code as int,
            message: self.message@,
            data: match self.data {
                Some(json) => Some(json@),
                None => None,
            },
        }
    }
}

/// The error that refuses a request for what it asks, with the reason as its data.
pub open spec fn invalid_params_view(data: Seq<char>) -> RpcErrorView {
    RpcErrorView { code: -32602, message: "Invalid params"@, data: Some(JsonView::Str(data)) }
}

/// The error for what went wrong while a request was carried out.
pub open spec fn internal_error_view(message: Seq<char>, data: JsonView) -> RpcErrorView {
    RpcErrorView { code: -32603, message, data: Some(data) }
}

impl RpcError {
    /// Refuses a request for what it asks, with the reason as the error's data.
    pub fn invalid_params(data: &str) -> (error: RpcError)
        ensures
            error@ == invalid_params_view(data@),
            error.code == -32602,
            error.message@ == "Invalid params"@,
            error.data matches Some(json) && json@ == JsonView::Str(data@),
    {
        RpcError::from_parts(acp_invalid_params(data))
    }

    /// Reports what went wrong while a request was carried out.
    pub fn internal_error(message: &str, data: Json) -> (error: RpcError)
        ensures
            error@ == internal_error_view(message@, data@),
            error.code == -32603,
            error.message@ == message@,
            error.data matches Some(json) && json@ == data@,
    {
        RpcError::from_parts(mcp_internal_error(message.to_owned(), data.into_value()))
    }

    fn from_parts(parts: ErrorParts) -> (error: RpcError)
        ensures
            error.code == parts.code,
            error.message == parts.message,
            match (parts.data, error.data) {
                (Some(value), Some(json)) => json@ == crate::foreign::value_json(value),
                (None, None) => true,
                _ => false,
            },
    {
        let data: Option<Json> = match parts.data {
            Some(value) => Some(Json::from_value(value)),
            None => None,
        };
        RpcError { code: parts.code, message: parts.message, data }
    }
}

/// What an error says is what its fields hold.
pub proof fn lemma_error_says_what_it_holds(error: RpcError)
    ensures
        error@.code == error.code,
        error@.message == error.message@,
        match error.data {
            Some(json) => error@.data == Some(json@),
            None => error@.data is None,
        },
{
}

/// An error keeps the reason that it is given: the code and the message tell whose fault it is,
/// and errors for two reasons are told apart by their data.
pub proof fn lemma_errors_keep_their_reason(
    reason: Seq<char>,
    message: Seq<char>,
    data: JsonView,
    other: JsonView,
)
    ensures
        invalid_params_view(reason).code == -32602,
        invalid_params_view(reason).message == "Invalid params"@,
        invalid_params_view(reason).data == Some(JsonView::Str(reason)),
        internal_error_view(message, data).code == -32603,
        internal_error_view(message, data).message == message,
        internal_error_view(message, data).data == Some(data),
        data != other ==> internal_error_view(message, data) != internal_error_view(message, other),
{
}

} // verus!
