//! A stored-and-replayed HTTP response: exactly what the idempotency store
//! persists, byte for byte.

use vstd::prelude::*;
use vstd::string::StringExecFns;

verus! {

/// One response header: a name/value pair. Duplicates are allowed and order
/// is preserved by the containing response.
pub struct Header {
    pub name: String,
    pub value: String,
}

impl View for Header {
    type V = (Seq<char>, Seq<char>);

    open spec fn view(&self) -> (Seq<char>, Seq<char>) {
        (self.name@, self.value@)
    }
}

impl Header {
    /// An exact copy of the header.
    pub fn duplicate(&self) -> (r: Header)
        ensures
            r@ == self@,
    {
        Header { name: String::from_str(self.name.as_str()), value: String::from_str(self.value.as_str()) }
    }
}

/// The mathematical content of a response: status code, header pairs in
/// order, and the body bytes.
#[verifier::ext_equal]
pub struct ResponseModel {
    pub status: u16,
    pub headers: Seq<(Seq<char>, Seq<char>)>,
    pub body: Seq<u8>,
}

/// An HTTP response as the store keeps it. A replayed response compares equal
/// to the first one at the model level: same status, same headers in the same
/// order, same body bytes.
pub struct HttpResponse {
    pub status: u16,
    pub headers: Vec<Header>,
    pub body: Vec<u8>,
}

impl View for HttpResponse {
    type V = ResponseModel;

    open spec fn view(&self) -> ResponseModel {
        ResponseModel {
            status: self.status,
            headers: self.headers@.map_values(|h: Header| h@),
            body: self.body@,
        }
    }
}

impl HttpResponse {
    /// An exact copy of the response: the replayed bytes are identical to the
    /// stored ones.
    pub fn duplicate(&self) -> (r: HttpResponse)
        ensures
            r@ == self@,
    {
        let mut headers: Vec<Header> = Vec::new();
        let n = self.headers.len();
        for i in 0..n
            invariant
                n == self.headers@.len(),
                headers@.len() == i,
                forall|j: int| 0 <= j < i ==> headers@[j]@ == self.headers@[j]@,
        {
            headers.push(self.headers[i].duplicate());
        }
        let mut body: Vec<u8> = Vec::new();
        let m = self.body.len();
        for i in 0..m
            invariant
                m == self.body@.len(),
                body@.len() == i,
                forall|j: int| 0 <= j < i ==> body@[j] == self.body@[j],
        {
            body.push(self.body[i]);
        }
        let r = HttpResponse { status: self.status, headers, body };
        proof {
            assert(r@.headers =~= self@.headers);
            assert(r@.body =~= self@.body);
        }
        r
    }
}

/// The redirect a successful publish stores and replays: a 303 "see other"
/// response pointing at the given location, with an empty body.
pub fn see_other(location: &str) -> (r: HttpResponse)
    ensures
        r@.status == 303,
        r@.headers.len() == 1,
        r@.headers[0].0 == "Location"@,
        r@.headers[0].1 == location@,
        r@.body.len() == 0,
{
    let header = Header { name: String::from_str("Location"), value: String::from_str(location) };
    let mut headers: Vec<Header> = Vec::new();
    headers.push(header);
    HttpResponse { status: 303, headers, body: Vec::new() }
}

} // verus!
