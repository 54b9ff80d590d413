//! Setting the body of a response.

use vstd::prelude::*;

use crate::json::{json_text_of, json_to_string};
use crate::response::content_type::ContentType;
use crate::response::{Response, ResponseView};

verus! {

impl Response {
    /// Sets the body of the response and the `Content-Type` header.
    /// `Content-Length` is added at serialization time.
    pub fn body(&mut self, body: Vec<u8>, content_type: ContentType)
        requires
            old(self).wf(),
        ensures
            final(self).wf(),
            final(self)@ == (ResponseView {
                headers: old(self)@.headers.insert("Content-Type"@, content_type.spec_text()),
                body: body@,
                ..old(self)@
            }),
    {
        let ct = content_type.to_string();
        self.set_header("Content-Type", ct.as_str());
        self.set_raw_body(body);
    }

    /// Sets the body of the response to a text value, with content type
    /// `text/plain`.
    pub fn body_text(&mut self, text: &str)
        requires
            old(self).wf(),
        ensures
            final(self).wf(),
            final(self)@ == (ResponseView {
                headers: old(self)@.headers.insert("Content-Type"@, "text/plain"@),
                body: vstd::utf8::encode_utf8(text@),
                ..old(self)@
            }),
    {
        self.body(text.as_bytes_vec(), ContentType::Text);
    }

    /// Sets the body of the response to the text of a JSON value, with
    /// content type `application/json`.
    pub fn body_json(&mut self, data: serde_json::Value)
        requires
            old(self).wf(),
        ensures
            final(self).wf(),
            final(self)@ == (ResponseView {
                headers: old(self)@.headers.insert("Content-Type"@, "application/json"@),
                body: vstd::utf8::encode_utf8(json_text_of(data)),
                ..old(self)@
            }),
    {
        let json = json_to_string(&data);
        self.body(json.as_str().as_bytes_vec(), ContentType::Json);
    }
}

} // verus!
