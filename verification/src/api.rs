//! The request and response shapes the handler works with. The surrounding
//! process turns HTTP requests into `Request` values (identity header,
//! routing inputs, parsed body) and serializes `ApiResponse` values back out.

use vstd::prelude::*;

use crate::model::{ShoppingList, ShoppingListItem};

verus! {

/// The HTTP methods the service distinguishes; anything else never matches
/// a route.
#[derive(Clone, Copy, PartialEq, Eq, Structural, Debug)]
pub enum Method {
    Get,
    Post,
    Delete,
    Other,
}

/// A request body after JSON decoding. `Malformed` stands for a body that
/// did not decode into the shape the route expects.
pub enum RequestBody {
    Empty,
    CreateList { name: String, description: Option<String>, shared: Option<bool> },
    AddItem { product_id: Option<String>, name: String, quantity: Option<i32> },
    Malformed,
}

/// One inbound request: method, raw path, the caller identity taken from the
/// identity header (absent when the header is missing), and the body.
pub struct Request {
    pub method: Method,
    pub path: String,
    pub user: Option<String>,
    pub body: RequestBody,
}

/// What the service answers.
#[derive(Debug, PartialEq)]
pub enum ApiResponse {
    /// `GET /health`: fixed success payload.
    Health,
    /// `GET /lists`: every list the caller may read, newest-updated first.
    ListCollection(Vec<ShoppingList>),
    /// `GET /lists/{id}`: the list and its items, unchecked first then by name.
    ListDetail { list: ShoppingList, items: Vec<ShoppingListItem> },
    /// `POST /lists`: echo of the stored id, name and sharing flag.
    Created { id: String, name: String, shared: bool },
    /// `POST /lists/{id}/items`: echo of the stored id, name and quantity.
    ItemAdded { id: String, name: String, quantity: i32 },
    /// `DELETE /lists/{id}`: success whether or not a row went away.
    Deleted,
    /// The target list is absent or not readable by the caller, or no route
    /// matched; the two are indistinguishable on purpose.
    NotFound,
    /// The identity header was missing on a route that needs it.
    AuthError,
    /// The body did not decode into the shape the route expects.
    BadRequest,
}

/// The HTTP status each response is sent with.
pub open spec fn spec_status_code(r: ApiResponse) -> u16 {
    match r {
        ApiResponse::NotFound => 404,
        ApiResponse::AuthError => 400,
        ApiResponse::BadRequest => 400,
        _ => 200,
    }
}

impl ApiResponse {
    /// The HTTP status this response is sent with.
    pub fn status_code(&self) -> (s: u16)
        ensures
            s == spec_status_code(*self),
    {
        match self {
            ApiResponse::NotFound => 404,
            ApiResponse::AuthError => 400,
            ApiResponse::BadRequest => 400,
            _ => 200,
        }
    }
}

} // verus!
