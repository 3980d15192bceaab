//! The example-replay transport: a sender that answers from the
//! interaction's recorded examples instead of the network, and is a
//! pure function of the interaction.  The live network transport lives
//! outside the library and implements the same trait.
use vstd::prelude::*;

use crate::data::{
    spec_get_id, Interaction, InteractionView, Request, RequestView, Response, ResponseView,
    Sender,
};
use crate::table::{dict_get, DupView};

verus! {

/// The canned answer for a request without a matching example.
pub open spec fn canned_response(r: RequestView) -> ResponseView {
    ResponseView {
        request_id: Some(spec_get_id(r)),
        headers: None,
        status_code: Some("200"@),
        body: Some("{ \"ok\": true }"@),
        vars: None,
    }
}

/// What the dry sender answers: the example under the configured key,
/// or the canned answer.
pub open spec fn dry_response(example: Seq<char>, i: InteractionView) -> ResponseView {
    match i.examples {
        Some(exs) => match dict_get(exs, example) {
            Some(r) => r,
            None => canned_response(i.request),
        },
        None => canned_response(i.request),
    }
}

/// A transport stub that replays recorded examples by key.
pub struct DrySender {
    pub example: String,
}

impl DrySender {
    /// A dry sender answering with the example under `example`.
    pub fn new(example: &str) -> (s: Self)
        ensures
            s.example@ == example@,
    {
        DrySender { example: example.to_owned() }
    }
}

/// The canned answer, built.
fn canned_exec(request: &Request) -> (r: Response)
    ensures
        r@ == canned_response(request@),
{
    Response {
        request_id: Some(request.get_id()),
        headers: None,
        status_code: Some("200".to_owned()),
        body: Some("{ \"ok\": true }".to_owned()),
        vars: None,
    }
}

impl Sender for DrySender {
    open spec fn is_deterministic(&self) -> bool {
        true
    }

    open spec fn send_model(&self, interaction: InteractionView) -> Result<ResponseView, Seq<char>> {
        Ok(dry_response(self.example@, interaction))
    }

    fn send(&self, interaction: &Interaction) -> (r: Result<Response, String>) {
        match &interaction.examples {
            Some(exs) => match exs.get(self.example.as_str()) {
                Some(ex) => Ok(ex.dup()),
                None => Ok(canned_exec(&interaction.request)),
            },
            None => Ok(canned_exec(&interaction.request)),
        }
    }
}

} // verus!
