use vstd::prelude::*;
use vstd::string::*;

verus! {

/// Where and how a REST backend is reached: the endpoint and the headers
/// sent with every request.
#[derive(Debug, PartialEq, Eq)]
pub struct Connection {
    pub endpoint: String,
    pub headers: Vec<(String, String)>,
}

pub open spec fn rest_suffix() -> Seq<char> {
    seq!['/', 'r', 'e', 's', 't', '/', 'v', '1', '/']
}

pub open spec fn api_key_header() -> Seq<char> {
    seq!['a', 'p', 'i', 'k', 'e', 'y']
}

pub open spec fn authorization_header() -> Seq<char> {
    seq!['A', 'u', 't', 'h', 'o', 'r', 'i', 'z', 'a', 't', 'i', 'o', 'n']
}

pub open spec fn bearer_prefix() -> Seq<char> {
    seq!['B', 'e', 'a', 'r', 'e', 'r', ' ']
}

impl Connection {
    /// The connection to the REST interface under `url`, authenticated by
    /// `key`: the endpoint is `url` followed by `/rest/v1/`, and the key goes
    /// in an `apikey` header and, as a bearer token, in `Authorization`.
    pub fn new(url: &str, key: &str) -> (r: Connection)
        ensures
            r.endpoint@ == url@ + rest_suffix(),
            r.headers@.len() == 2,
            r.headers@[0].0@ == api_key_header(),
            r.headers@[0].1@ == key@,
            r.headers@[1].0@ == authorization_header(),
            r.headers@[1].1@ == bearer_prefix() + key@,
    {
        proof {
            reveal_strlit("/rest/v1/");
            reveal_strlit("apikey");
            reveal_strlit("Authorization");
            reveal_strlit("Bearer ");
        }
        let endpoint = String::from_str(url).concat("/rest/v1/");
        let mut headers: Vec<(String, String)> = Vec::new();
        headers.push((String::from_str("apikey"), String::from_str(key)));
        headers.push((String::from_str("Authorization"), String::from_str("Bearer ").concat(key)));
        Connection { endpoint, headers }
    }
}

} // verus!
