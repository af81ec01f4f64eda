use vstd::prelude::*;
use cosmwasm_std::{Empty, Response};

verus! {

#[verifier::external_type_specification]
#[verifier::external_body]
#[verifier::reject_recursive_types(T)]
pub struct ExResponse<T>(Response<T>);

#[verifier::external_type_specification]
#[verifier::external_body]
pub struct ExEmpty(Empty);

/// The attributes of a response's `wasm` event, in order, as (key, value).
pub uninterp spec fn response_attributes(r: Response) -> Seq<(Seq<char>, Seq<char>)>;

/// The number of messages that a response asks the chain to execute.
pub uninterp spec fn response_message_count(r: Response) -> nat;

/// Whether a string may be an attribute key: keys that start with an
/// underscore are reserved.
pub open spec fn valid_attribute_key(key: Seq<char>) -> bool {
    key.len() == 0 || key[0] != '_'
}

/// `cosmwasm_std::Response::new`: a response with no attribute and no message.
#[verifier::external_body]
pub(crate) fn empty_response() -> (r: Response)
    ensures
        response_attributes(r) == Seq::<(Seq<char>, Seq<char>)>::empty(),
        response_message_count(r) == 0,
{
    Response::new()
}

/// `cosmwasm_std::Response::add_attribute`: appends the attribute (key, value)
/// at the end of the response's attributes and leaves its messages alone.
/// The key must not start with an underscore (the call panics on such keys in
/// debug builds).
#[verifier::external_body]
pub(crate) fn with_attribute(r: Response, key: &str, value: String) -> (out: Response)
    requires
        valid_attribute_key(key@),
    ensures
        response_attributes(out) == response_attributes(r).push((key@, value@)),
        response_message_count(out) == response_message_count(r),
{
    r.add_attribute(key, value)
}

} // verus!
