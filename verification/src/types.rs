//! Plain data shapes exchanged with the protocol caller: the inbound request
//! forms, the popup request handed to the delivery layer, and the structured
//! response record.

use vstd::prelude::*;
use crate::strutil::{spec_trim_trailing_slashes, trim_trailing_slashes};

verus! {

/// Inbound interaction request from the protocol caller.
pub struct ZhiRequest {
    pub message: String,
    pub predefined_options: Vec<String>,
    pub is_markdown: bool,
    pub working_directory: Option<String>,
}

/// Inbound memory-tool request.
pub struct JiyiRequest {
    pub action: String,
    pub project_path: String,
    pub content: String,
    pub category: String,
}

/// Inbound code-search request.
pub struct AcemcpRequest {
    pub project_root_path: String,
    pub query: String,
}

/// A fully resolved interaction request, ready for delivery to a channel.
pub struct PopupRequest {
    pub id: String,
    pub message: String,
    pub predefined_options: Option<Vec<String>>,
    pub is_markdown: bool,
    pub bot_name: Option<String>,
    pub session_id: Option<String>,
}

/// Structured response record consumed by the protocol caller.
pub struct McpResponse {
    pub user_input: Option<String>,
    pub selected_options: Vec<String>,
    pub images: Vec<ImageAttachment>,
    pub metadata: ResponseMetadata,
}

/// An image carried in a response (always absent on the chat-channel path).
pub struct ImageAttachment {
    pub data: String,
    pub media_type: String,
    pub filename: Option<String>,
}

/// Mathematical image of an image record.
pub ghost struct ImageModel {
    pub data: Seq<char>,
    pub media_type: Seq<char>,
    pub filename: Option<Seq<char>>,
}

impl View for ImageAttachment {
    type V = ImageModel;

    open spec fn view(&self) -> ImageModel {
        ImageModel {
            data: self.data@,
            media_type: self.media_type@,
            filename: self.filename.deep_view(),
        }
    }
}

impl DeepView for ImageAttachment {
    type V = ImageModel;

    open spec fn deep_view(&self) -> ImageModel {
        self.view()
    }
}

/// Response metadata: when, for which request, and through which channel kind.
pub struct ResponseMetadata {
    pub timestamp: Option<String>,
    pub request_id: Option<String>,
    pub source: Option<String>,
}

/// One content block of a legacy-format response.
pub struct McpResponseContent {
    pub content_type: String,
    pub text: Option<String>,
    pub source: Option<ImageSource>,
}

/// Image payload of a legacy-format response content block.
pub struct ImageSource {
    pub source_type: String,
    pub media_type: String,
    pub data: String,
}

/// Default memory category when the request names none.
pub fn default_category() -> (r: String)
    ensures
        r@ == "context"@,
{
    String::from_str("context")
}

/// The first session-id candidate that is present: the request's working
/// directory, then the host-provided candidates in their order, then the
/// generated fallback.
pub open spec fn spec_first_candidate(
    working_directory: Option<Seq<char>>,
    env_session: Option<Seq<char>>,
    working_dir_env: Option<Seq<char>>,
    current_dir: Option<Seq<char>>,
    generated: Seq<char>,
) -> Seq<char> {
    match working_directory {
        Some(s) => s,
        None => match env_session {
            Some(s) => s,
            None => match working_dir_env {
                Some(s) => s,
                None => match current_dir {
                    Some(s) => s,
                    None => generated,
                },
            },
        },
    }
}

/// Picks the session id for a request: the first present candidate, with
/// trailing path separators normalized away so that the same directory
/// always yields the same session id.
pub fn resolve_session_id(
    working_directory: &Option<String>,
    env_session: &Option<String>,
    working_dir_env: &Option<String>,
    current_dir: &Option<String>,
    generated: &str,
) -> (r: String)
    ensures
        r@ == spec_trim_trailing_slashes(
            spec_first_candidate(
                working_directory.deep_view(),
                env_session.deep_view(),
                working_dir_env.deep_view(),
                current_dir.deep_view(),
                generated@,
            ),
        ),
{
    let chosen: &str = if let Some(s) = working_directory {
        s.as_str()
    } else if let Some(s) = env_session {
        s.as_str()
    } else if let Some(s) = working_dir_env {
        s.as_str()
    } else if let Some(s) = current_dir {
        s.as_str()
    } else {
        generated
    };
    trim_trailing_slashes(chosen)
}

/// Builds the resolved popup request for delivery: an empty option list
/// becomes absence, the channel is left to the router, and the session id
/// rides along for binding-based routing.
pub fn make_popup_request(
    id: String,
    message: String,
    predefined_options: Vec<String>,
    is_markdown: bool,
    session_id: Option<String>,
) -> (r: PopupRequest)
    ensures
        r.id == id,
        r.message == message,
        r.predefined_options == if predefined_options.len() == 0 {
            None::<Vec<String>>
        } else {
            Some(predefined_options)
        },
        r.is_markdown == is_markdown,
        r.bot_name is None,
        r.session_id == session_id,
{
    let options = if predefined_options.len() == 0 {
        None
    } else {
        Some(predefined_options)
    };
    PopupRequest {
        id,
        message,
        predefined_options: options,
        is_markdown,
        bot_name: None,
        session_id,
    }
}

} // verus!
