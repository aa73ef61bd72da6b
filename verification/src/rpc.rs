//! JSON-RPC messages.

use vstd::prelude::*;
use crate::json::lemma_added_member;
use crate::json::lemma_other_member;
use crate::json::members_count;
use crate::json::opt_tree;
use crate::json::Json;
use crate::json::JsonTree;

verus! {

/// A request or, without an id, a notification of the client.
pub struct JsonRpcRequest {
    pub id: Option<Json>,
    pub method: Option<String>,
    pub params: Option<Json>,
}

/// The reply to a request.
pub struct JsonRpcResponse {
    pub jsonrpc: &'static str,
    pub id: Json,
    pub result: Option<Json>,
    pub error: Option<Json>,
}

/// A notification of the adapter.
pub struct JsonRpcNotification {
    pub jsonrpc: &'static str,
    pub method: String,
    pub params: Json,
}

pub struct ResponseView {
    pub jsonrpc: Seq<char>,
    pub id: JsonTree,
    pub result: Option<JsonTree>,
    pub error: Option<JsonTree>,
}

pub struct NotificationView {
    pub jsonrpc: Seq<char>,
    pub method: Seq<char>,
    pub params: JsonTree,
}

impl View for JsonRpcResponse {
    type V = ResponseView;

    open spec fn view(&self) -> ResponseView {
        ResponseView {
            jsonrpc: self.jsonrpc@,
            id: self.id@,
            result: opt_tree(self.result),
            error: opt_tree(self.error),
        }
    }
}

impl View for JsonRpcNotification {
    type V = NotificationView;

    open spec fn view(&self) -> NotificationView {
        NotificationView {
            jsonrpc: self.jsonrpc@,
            method: self.method@,
            params: self.params@,
        }
    }
}

impl ResponseView {
    /// The reply with a result.
    pub open spec fn success(id: JsonTree, result: JsonTree) -> ResponseView {
        ResponseView { jsonrpc: "2.0"@, id, result: Some(result), error: None }
    }

    /// The reply with an error.
    pub open spec fn failure(id: JsonTree, code: Seq<char>, message: Seq<char>) -> ResponseView {
        ResponseView {
            jsonrpc: "2.0"@,
            id,
            result: None,
            error: Some(
                JsonTree::object().with("code"@, JsonTree::Number(code)).with(
                    "message"@,
                    JsonTree::Text(message),
                ),
            ),
        }
    }
}

impl JsonRpcResponse {
    /// The reply with a result.
    pub fn success(id: Json, result: Json) -> (r: JsonRpcResponse)
        ensures
            r@ == ResponseView::success(id@, result@),
    {
        JsonRpcResponse { jsonrpc: "2.0", id, result: Some(result), error: None }
    }

    /// The reply with an error: its code, by its numeral, and its message.
    pub fn failure(id: Json, code: &str, message: &str) -> (r: JsonRpcResponse)
        ensures
            r@ == ResponseView::failure(id@, code@, message@),
    {
        let error = Json::object().with("code", Json::number(code)).with(
            "message",
            Json::text(message),
        );
        JsonRpcResponse { jsonrpc: "2.0", id, result: None, error: Some(error) }
    }
}

/// A reply has the id of its request and either the result that was given or an error with
/// the code and the message that were given.
pub proof fn replies_carry_what_is_said(
    id: JsonTree,
    result: JsonTree,
    code: Seq<char>,
    message: Seq<char>,
)
    ensures
        ({
            let reply = ResponseView::success(id, result);
            &&& reply.jsonrpc == "2.0"@
            &&& reply.id == id
            &&& reply.result == Some(result)
            &&& reply.error is None
        }),
        ({
            let reply = ResponseView::failure(id, code, message);
            &&& reply.jsonrpc == "2.0"@
            &&& reply.id == id
            &&& reply.result is None
            &&& reply.error is Some
            &&& reply.error->0.get("code"@) == Some(JsonTree::Number(code))
            &&& reply.error->0.text_member("message"@) == Some(message)
            &&& members_count(reply.error->0, 2)
        }),
{
    broadcast use {lemma_added_member, lemma_other_member};

    reveal_strlit("code");
    reveal_strlit("message");
    assert("code"@.len() != "message"@.len());
}

} // verus!
