//! Client-side bookkeeping of a request to an endpoint: how it is made, and
//! the state of its answer.
use std::sync::Arc;
use vstd::prelude::*;
use crate::routing::{method_is_idempotent, HttpMethod};

verus! {

/// `anyhow::Error`, the error a failed request carries; opaque here.
#[verifier::external_type_specification]
#[verifier::external_body]
pub struct ExAnyhowError(anyhow::Error);

/// Another handle on the same shared error.
///
/// Trusted: calls `Arc::clone`, which makes another pointer to the same
/// allocation, so the result holds the same error.
#[verifier::external_body]
fn share_error(e: &Arc<anyhow::Error>) -> (r: Arc<anyhow::Error>)
    ensures
        r == *e,
{
    Arc::clone(e)
}

/// The state of a request's answer.
#[derive(Clone, Debug)]
pub enum FetchRequest<T> {
    /// Failed
    Failed(Arc<anyhow::Error>),
    /// Ready
    Ready(T),
    /// Loading
    Pending,
    /// Not yet requested
    Waiting,
}

impl<T> Default for FetchRequest<T> {
    fn default() -> (r: FetchRequest<T>)
        ensures
            r is Waiting,
    {
        FetchRequest::Waiting
    }
}

impl<T: Clone> FetchRequest<T> {
    /// The outcome once the request has settled: the value, or the error;
    /// `None` while it is pending or not yet made.
    pub fn get(&self) -> (res: Option<Result<T, Arc<anyhow::Error>>>)
        ensures
            match self {
                FetchRequest::Failed(e) => res == Some(Err::<T, Arc<anyhow::Error>>(*e)),
                FetchRequest::Ready(t) => res matches Some(Ok(c)) && cloned(*t, c),
                FetchRequest::Pending | FetchRequest::Waiting => res is None,
            },
    {
        match self {
            FetchRequest::Failed(e) => Some(Err(share_error(e))),
            FetchRequest::Ready(t) => Some(Ok(t.clone())),
            FetchRequest::Pending => None,
            FetchRequest::Waiting => None,
        }
    }
}

/// The state of a request once its answer has arrived: the value that was
/// read, or the error that stopped it (sending, or reading the answer).
pub fn settle<T>(outcome: Result<T, Arc<anyhow::Error>>) -> (r: FetchRequest<T>)
    ensures
        match outcome {
            Ok(v) => r == FetchRequest::<T>::Ready(v),
            Err(e) => r == FetchRequest::<T>::Failed(e),
        },
{
    match outcome {
        Ok(v) => FetchRequest::Ready(v),
        Err(e) => FetchRequest::Failed(e),
    }
}

/// The method a client uses for an endpoint: `PUT` for an idempotent one,
/// `POST` otherwise.
pub fn fetch_method(idempotent: bool) -> (m: HttpMethod)
    ensures
        idempotent ==> m is Put,
        !idempotent ==> m is Post,
{
    if idempotent {
        HttpMethod::Put
    } else {
        HttpMethod::Post
    }
}

/// The address of endpoint `name` under `base_url`: `{base_url}/api/{name}`.
pub fn fetch_url(base_url: &str, name: &str) -> (res: String)
    ensures
        res@ == base_url@ + "/api/"@ + name@,
{
    let mut s = String::from_str(base_url);
    s.append("/api/");
    s.append(name);
    s
}

/// The headers of a request made with the bearer token `token`: a kept-alive
/// connection (ten minutes) and the token.
pub fn fetch_headers(token: &str) -> (res: Vec<(String, String)>)
    ensures
        res@.len() == 3,
        res@[0].0@ == "Connection"@ && res@[0].1@ == "Keep-Alive"@,
        res@[1].0@ == "Keep-Alive"@ && res@[1].1@ == "timeout=600"@,
        res@[2].0@ == "Authorization"@ && res@[2].1@ == "Bearer "@ + token@,
{
    let mut v: Vec<(String, String)> = Vec::new();
    v.push((String::from_str("Connection"), String::from_str("Keep-Alive")));
    v.push((String::from_str("Keep-Alive"), String::from_str("timeout=600")));
    let mut auth = String::from_str("Bearer ");
    auth.append(token);
    v.push((String::from_str("Authorization"), auth));
    v
}

/// The method a client picks for an endpoint has the endpoint's
/// idempotence, which is what the router matches requests on.
pub proof fn law_fetch_method_matches_endpoint(idempotent: bool, m: HttpMethod)
    requires
        idempotent ==> m is Put,
        !idempotent ==> m is Post,
    ensures
        method_is_idempotent(m) == idempotent,
        !(m is Get),
{
}

} // verus!
