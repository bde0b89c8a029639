//! A GraphQL request, and the media provider's identity query.

use vstd::prelude::*;
use std::collections::HashMap;

verus! {

/// The query for the numeric id of the signed-in viewer.
pub const GET_IDENTITY_QUERY: &'static str = "\nquery GetIdentity {\n    Viewer {\n        id\n    }\n}\n";

/// A GraphQL request; an empty operation name and absent variables are left
/// out when it is sent.
pub struct GraphQLRequest {
    pub query: String,
    pub operation_name: String,
    pub variables: Option<HashMap<String, String>>,
}

impl GraphQLRequest {
    /// The request for the signed-in viewer's id.
    pub fn viewer_identity() -> (r: GraphQLRequest)
        ensures
            r.query@ == GET_IDENTITY_QUERY@,
            r.operation_name@.len() == 0,
            r.variables is None,
    {
        proof {
            reveal_strlit("");
        }
        GraphQLRequest {
            query: GET_IDENTITY_QUERY.to_owned(),
            operation_name: "".to_owned(),
            variables: None,
        }
    }
}

} // verus!
