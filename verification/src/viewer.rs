//! Decisions of the browser viewer: it renders with a pipeline built from a shader that it
//! fetches from a package, and renders without one until the shader is there.
use vstd::prelude::*;
use vstd::utf8::{decode_utf8, valid_utf8};

use crate::file::ReadResult;
use crate::source::SourceAction;

verus! {

/// `std::str::from_utf8`: the text that `bytes` encode, or `None` when they are not valid
/// UTF-8. The contract states the result with vstd's UTF-8 specification.
#[verifier::external_body]
fn utf8_str(bytes: &[u8]) -> (r: Option<&str>)
    ensures
        r is Some <==> valid_utf8(bytes@),
        r matches Some(s) ==> s@ == decode_utf8(bytes@),
{
    std::str::from_utf8(bytes).ok()
}

/// Identifier of the viewer's built-in shader in the viewer's package.
pub const SHADER_ID: u128 = 0xbacc2ba1;

/// Identifier of an additional resource that the viewer fetches from its package.
pub const EXTRA_RESOURCE_ID: u128 = 0x1f063ad4;

/// The requests the viewer sends to its package's source when it starts: a get of the shader,
/// answered to `on_shader`, then a get of the additional resource, answered to `discard`.
pub fn start_requests(on_shader: u64, discard: u64) -> (r: Vec<SourceAction>)
    ensures
        r@.len() == 2,
        r@[0] matches SourceAction::Get { id, on_result } && id == SHADER_ID && on_result == on_shader,
        r@[1] matches SourceAction::Get { id, on_result } && id == EXTRA_RESOURCE_ID && on_result == discard,
{
    let mut requests: Vec<SourceAction> = Vec::new();
    requests.push(SourceAction::Get { id: SHADER_ID, on_result: on_shader });
    requests.push(SourceAction::Get { id: EXTRA_RESOURCE_ID, on_result: discard });
    requests
}

/// A message to the viewer.
pub enum ViewerMessage {
    /// The shader's data, read from the package.
    ShaderFetched(ReadResult),
    /// Draw a frame.
    Tick,
}

/// What the viewer asks the renderer to do.
pub enum ViewerStep {
    /// Build the render pipeline from the shader source.
    CreatePipeline(String),
    /// Draw a frame, with the render pipeline where there is one.
    Render { with_pipeline: bool },
}

/// Errors of the viewer.
#[derive(Clone, Copy, Debug, PartialEq, Eq, Structural)]
pub enum ViewerError {
    /// The fetched shader is not valid UTF-8.
    ShaderNotUtf8,
}

/// State of the viewer.
pub struct ViewerState {
    /// A render pipeline has been built.
    pub has_pipeline: bool,
}

impl ViewerState {
    /// A viewer without a render pipeline.
    pub fn new() -> (r: ViewerState)
        ensures
            !r.has_pipeline,
    {
        ViewerState { has_pipeline: false }
    }

    /// Handles one message: a shader becomes a pipeline, a tick becomes a frame.
    pub fn process(&mut self, message: ViewerMessage) -> (r: Result<ViewerStep, ViewerError>)
        ensures
            match message {
                ViewerMessage::ShaderFetched(result) => if valid_utf8(result.data@) {
                    &&& r matches Ok(ViewerStep::CreatePipeline(s)) && s@ == decode_utf8(result.data@)
                    &&& final(self).has_pipeline
                } else {
                    &&& r == Err::<ViewerStep, ViewerError>(ViewerError::ShaderNotUtf8)
                    &&& final(self).has_pipeline == old(self).has_pipeline
                },
                ViewerMessage::Tick => {
                    &&& r matches Ok(ViewerStep::Render { with_pipeline }) && with_pipeline == old(self).has_pipeline
                    &&& final(self).has_pipeline == old(self).has_pipeline
                },
            },
    {
        match message {
            ViewerMessage::ShaderFetched(result) => {
                match utf8_str(result.data.as_slice()) {
                    Some(text) => {
                        self.has_pipeline = true;
                        Ok(ViewerStep::CreatePipeline(text.to_owned()))
                    },
                    None => Err(ViewerError::ShaderNotUtf8),
                }
            },
            ViewerMessage::Tick => Ok(ViewerStep::Render { with_pipeline: self.has_pipeline }),
        }
    }
}

} // verus!
