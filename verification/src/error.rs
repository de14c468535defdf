use vstd::prelude::*;
use vstd::string::StringExecFns;

verus! {

/// Why the renderer could not start or could not draw a frame.
#[derive(Debug)]
pub enum RendererError {
    InitFailed(String),
    RenderFailed(String),
    Surface(String),
}

impl RendererError {
    /// The text that describes the error: a fixed prefix for its kind
    /// followed by the detail it carries.
    pub open spec fn message(self) -> Seq<char> {
        match self {
            RendererError::InitFailed(d) => "Initialization failed: "@ + d@,
            RendererError::RenderFailed(d) => "Render failed: "@ + d@,
            RendererError::Surface(d) => "Surface error: "@ + d@,
        }
    }

    /// Renders the error as the text shown to the user.
    pub fn to_string(&self) -> (s: String)
        ensures
            s@ == self.message(),
    {
        match self {
            RendererError::InitFailed(d) => String::from_str("Initialization failed: ").concat(
                d.as_str(),
            ),
            RendererError::RenderFailed(d) => String::from_str("Render failed: ").concat(d.as_str()),
            RendererError::Surface(d) => String::from_str("Surface error: ").concat(d.as_str()),
        }
    }
}

/// The text of every renderer error ends with the detail it carries.
pub proof fn lemma_message_ends_with_detail(e: RendererError)
    ensures
        ({
            let d = match e {
                RendererError::InitFailed(d) => d@,
                RendererError::RenderFailed(d) => d@,
                RendererError::Surface(d) => d@,
            };
            &&& e.message().len() >= d.len()
            &&& e.message().subrange(e.message().len() - d.len(), e.message().len() as int) == d
        }),
{
    let d = match e {
        RendererError::InitFailed(d) => d@,
        RendererError::RenderFailed(d) => d@,
        RendererError::Surface(d) => d@,
    };
    let m = e.message();
    assert(m.subrange(m.len() - d.len(), m.len() as int) =~= d);
}

} // verus!
