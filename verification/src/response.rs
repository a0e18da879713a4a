//! Responses, as plain values.

use vstd::prelude::*;
use vstd::string::*;
use vstd::utf8::*;

verus! {

/// A response to a client.
pub struct Response {
    pub status: u16,
    pub headers: Vec<(String, String)>,
    pub body: Vec<u8>,
}

/// A response, as the contracts speak of it.
#[verifier::ext_equal]
pub struct ResponseModel {
    pub status: u16,
    pub headers: Seq<(Seq<char>, Seq<char>)>,
    pub body: Seq<u8>,
}

impl View for Response {
    type V = ResponseModel;

    open spec fn view(&self) -> ResponseModel {
        ResponseModel {
            status: self.status,
            headers: self.headers@.map_values(|h: (String, String)| (h.0@, h.1@)),
            body: self.body@,
        }
    }
}

/// A response with a text and no headers.
pub open spec fn text_response_spec(status: u16, text: Seq<char>) -> ResponseModel {
    ResponseModel { status, headers: Seq::empty(), body: encode_utf8(text) }
}

/// A response with a text and no headers.
pub fn text_response(status: u16, text: &str) -> (r: Response)
    ensures
        r@ == text_response_spec(status, text@),
{
    let r = Response { status, headers: Vec::new(), body: text.as_bytes_vec() };
    assert(r@.headers =~= Seq::<(Seq<char>, Seq<char>)>::empty());
    r
}

/// A response with a text has that status, the whole text as its body, and no headers.
pub proof fn law_text_is_sent_whole(status: u16, text: Seq<char>)
    ensures
        text_response_spec(status, text).status == status,
        text_response_spec(status, text).headers.len() == 0,
        text_response_spec(status, text).body == encode_utf8(text),
{
}

/// A response is what its fields hold: its status, its whole body, and each header with its name and
/// value, in order.
pub proof fn law_response_is_its_fields(response: Response)
    ensures
        response@.status == response.status,
        response@.body == response.body@,
        response@.headers.len() == response.headers@.len(),
        forall|i: int|
            0 <= i < response.headers@.len() ==> #[trigger] response@.headers[i] == (
                response.headers@[i].0@,
                response.headers@[i].1@,
            ),
{
}

} // verus!
