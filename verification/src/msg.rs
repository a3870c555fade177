//! The render service protocol: one framed request at a time over a binary
//! channel, answered by an image payload or an error message. A failed
//! render answers with an error response and the loop goes on.

use vstd::prelude::*;
use crate::easy::{RenderConfig, RenderConfigView};
use crate::errors::Error;

verus! {

/// A request of the render service.
#[derive(Debug, PartialEq)]
pub enum Request {
    /// Render a map from inline source text.
    RenderMap { source: String },
}

impl Request {
    /// The request's source text.
    pub open spec fn source_view(&self) -> Seq<char> {
        match self {
            Request::RenderMap { source } => source@,
        }
    }
}

/// What a finished render yields for the response: the encoded foreground
/// image, the encoded background image when one was asked for, and the
/// render's diagnostics.
pub struct RenderOutput {
    pub fg: Vec<u8>,
    pub bg: Option<Vec<u8>>,
    pub warnings: Option<String>,
    pub script_output: Option<String>,
}

/// A response of the render service.
pub enum Response {
    /// A finished render: image bytes and diagnostics.
    Image { fg: Vec<u8>, bg: Option<Vec<u8>>, warnings: Option<String>, script_output: Option<String> },
    /// A failed render, described by its message.
    Error(String),
}

/// Applies one request to the render configuration: the request's inline
/// source replaces whatever source was set.
pub fn apply_request(cfg: &mut RenderConfig, req: &Request)
    ensures
        final(cfg)@ == (RenderConfigView { source: Some(req.source_view()), ..old(cfg)@ }),
{
    match req {
        Request::RenderMap { source } => cfg.source(source.as_str()),
    }
}

/// Builds the response for one render outcome: success answers with the
/// images, failure with the error's message. Every outcome has a response,
/// so a failed request never ends the service loop.
pub fn response_for(outcome: Result<RenderOutput, Error>) -> (r: Response)
    ensures
        match outcome {
            Ok(out) => r == (Response::Image {
                fg: out.fg,
                bg: out.bg,
                warnings: out.warnings,
                script_output: out.script_output,
            }),
            Err(e) => r matches Response::Error(m) && m@ == e.message_spec(),
        },
{
    match outcome {
        Ok(out) => Response::Image {
            fg: out.fg,
            bg: out.bg,
            warnings: out.warnings,
            script_output: out.script_output,
        },
        Err(e) => Response::Error(e.message()),
    }
}

} // verus!
