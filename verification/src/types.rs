//! Plain data carried between the application's subsystems.

use vstd::prelude::*;
use vstd::string::*;

verus! {

/// Why an autostart operation failed.
pub enum AutostartError {
    EnableFailed(String),
    DisableFailed(String),
    StatusCheckFailed(String),
}

/// The message text of an autostart error.
pub open spec fn spec_autostart_message(e: AutostartError) -> Seq<char> {
    match e {
        AutostartError::EnableFailed(s) => "Failed to enable autostart: "@ + s@,
        AutostartError::DisableFailed(s) => "Failed to disable autostart: "@ + s@,
        AutostartError::StatusCheckFailed(s) => "Failed to check autostart status: "@ + s@,
    }
}

impl AutostartError {
    /// The message shown for this error.
    pub fn message(&self) -> (r: String)
        ensures
            r@ == spec_autostart_message(*self),
    {
        let mut r: String;
        match self {
            AutostartError::EnableFailed(s) => {
                r = String::from_str("Failed to enable autostart: ");
                r.append(s.as_str());
            }
            AutostartError::DisableFailed(s) => {
                r = String::from_str("Failed to disable autostart: ");
                r.append(s.as_str());
            }
            AutostartError::StatusCheckFailed(s) => {
                r = String::from_str("Failed to check autostart status: ");
                r.append(s.as_str());
            }
        }
        r
    }
}

/// One generated image in the gallery.
pub struct GeneratedImage {
    pub id: String,
    pub prompt: String,
    pub image_path: String,
    pub timestamp: i64,
    pub model_id: String,
    pub size: String,
    pub num_inference_steps: Option<i32>,
}

/// The gallery of generated images.
pub struct GeneratedImagesStorage {
    pub images: Vec<GeneratedImage>,
}

impl Default for GeneratedImagesStorage {
    /// An empty gallery.
    fn default() -> (r: Self)
        ensures
            r.images@.len() == 0,
    {
        GeneratedImagesStorage { images: Vec::new() }
    }
}

/// The status of the model server and what it has loaded.
pub struct OvmsStatus {
    pub status: String,
    pub loaded_models: Vec<String>,
}

/// How often a scheduled task repeats.
pub struct RepeatInterval {
    pub value: u32,
    pub unit: TimeUnit,
}

/// The unit of a repeat interval.
#[derive(Debug, Clone, Copy, PartialEq, Eq, Structural)]
pub enum TimeUnit {
    Minutes,
    Hours,
    Days,
    Weeks,
}

/// How a scheduled task's run ended.
#[derive(Debug, Clone, Copy, PartialEq, Eq, Structural)]
pub enum ExecutionStatus {
    Success,
    Failed,
    Skipped,
}

/// A request to add or edit an external tool server.
pub struct AddServerRequest {
    pub name: String,
    pub command: Option<String>,
    pub args: Option<Vec<String>>,
    pub env: Option<Vec<(String, String)>>,
    pub url: Option<String>,
    pub auto_connect: bool,
}

} // verus!
