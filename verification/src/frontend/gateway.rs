//! The way from the requests of clients to the messages of a node and back.

use vstd::prelude::*;

use crate::messages::{
    GetRequest, GetResponse, GetValueInput, GetValueOutput, ProposeValueInput, PutRequest,
    PutResponse,
};
use crate::text::{joined, decimal, decimal_text};

verus! {

/// Where a node on the same machine serves its peers.
pub fn loopback_uri(port: u16) -> (uri: String)
    ensures
        uri@ == "http://[::1]:"@ + decimal_text(port as nat),
{
    joined("http://[::1]:", decimal(port as u64).as_str())
}

/// The connection to the node, if there is one yet. The error is the text of a failed
/// precondition.
pub fn client<C>(connection: Option<C>) -> (result: Result<C, String>)
    ensures
        match result {
            Ok(client) => connection == Some(client),
            Err(message) => connection is None && message@ == "No Raft client initialized"@,
        },
{
    match connection {
        Some(client) => Ok(client),
        None => Err("No Raft client initialized".to_owned()),
    }
}

/// The message that writes what a client puts.
pub fn put_input(request: PutRequest) -> (input: ProposeValueInput)
    ensures
        input.request_id == request.request_id,
        input.values == request.values,
{
    ProposeValueInput { request_id: request.request_id, values: request.values }
}

/// The answer to a client that puts, once the node has written the values.
pub fn put_response(request_id: String) -> (response: PutResponse)
    ensures
        response.request_id == request_id,
        response.success,
{
    PutResponse { request_id, success: true }
}

/// The message that reads what a client gets.
pub fn get_input(request: GetRequest) -> (input: GetValueInput)
    ensures
        input.request_id == request.request_id,
        input.keys == request.keys,
{
    GetValueInput { request_id: request.request_id, keys: request.keys }
}

/// The answer to a client that gets, once the node has read the values.
pub fn get_response(request_id: String, output: GetValueOutput) -> (response: GetResponse)
    ensures
        response.request_id == request_id,
        response.success,
        response.values == output.values,
{
    GetResponse { request_id, success: true, values: output.values }
}

} // verus!
