//! Application-wide constants.

use vstd::prelude::*;

verus! {

/// Default text chunk size for document processing.
pub const DEFAULT_CHUNK_SIZE: usize = 1000;

/// Default text chunk overlap for document processing.
pub const DEFAULT_CHUNK_OVERLAP: usize = 200;

/// Default search result limit.
pub const DEFAULT_SEARCH_LIMIT: usize = 10;

/// Default model search limit.
pub const DEFAULT_MODEL_SEARCH_LIMIT: u32 = 20;

/// Maximum model search limit.
pub const MAX_MODEL_SEARCH_LIMIT: u32 = 100;

/// OVMS download URL.
pub const OVMS_DOWNLOAD_URL: &'static str =
    "https://github.com/openvinotoolkit/model_server/releases/download/v2025.4/ovms_windows_python_off.zip";

/// OVMS zip file name.
pub const OVMS_ZIP_FILE: &'static str = "ovms_windows_python_off.zip";

/// OVMS executable name.
pub const OVMS_EXE_NAME: &'static str = "ovms.exe";

/// OVMS config file name.
pub const OVMS_CONFIG_FILE: &'static str = "models_config.json";

/// Default OVMS port.
pub const OVMS_DEFAULT_PORT: u16 = 1114;

/// OVMS API base URL.
pub const OVMS_API_BASE: &'static str = "http://localhost:1114";

/// OVMS OpenAI-compatible API path.
pub const OVMS_OPENAI_PATH: &'static str = "/v3";

/// Default embedding model name.
pub const DEFAULT_EMBEDDING_MODEL: &'static str = "bge-base-en-v1.5-int8-ov";

/// OpenVINO organization name on HuggingFace.
pub const OPENVINO_ORG: &'static str = "OpenVINO";

/// Default chat session title.
pub const DEFAULT_CHAT_TITLE: &'static str = "New Chat";

/// Maximum chat title length, in characters.
pub const MAX_CHAT_TITLE_LENGTH: usize = 60;

/// Minimum chat title length before truncation, in characters.
pub const MIN_CHAT_TITLE_LENGTH: usize = 40;

/// Download timeout (seconds).
pub const DOWNLOAD_TIMEOUT_SECS: u64 = 600;

/// Maximum download retries.
pub const MAX_DOWNLOAD_RETRIES: u8 = 3;

/// Log retention days.
pub const LOG_RETENTION_DAYS: i64 = 30;

/// Archive retention days.
pub const ARCHIVE_RETENTION_DAYS: i64 = 90;

/// User agent for HTTP requests.
pub const USER_AGENT: &'static str = "SparrowAI/1.0";

/// HuggingFace API base URL.
pub const HUGGINGFACE_API_BASE: &'static str = "https://huggingface.co/api";

/// Default log level filter.
pub const DEFAULT_LOG_FILTER: &'static str = "info,sparrow=debug";

} // verus!
