use sparrow::constants::{
    DEFAULT_CHUNK_SIZE, DEFAULT_CHUNK_OVERLAP, OVMS_DOWNLOAD_URL, DEFAULT_EMBEDDING_MODEL,
};
use sparrow::paths::{get_sparrow_dir, get_chat_sessions_path, get_openvino_model_path};
use sparrow::models::{normalize_model_id, get_models_dir_from_option};
use sparrow::logs::extract_date_from_filename;
use sparrow::chunk::chunk_text;
use sparrow::skills::{slugify, default_slug};
use sparrow::titles::{generate_chat_title, truncate_content};
use sparrow::modelcat::{
    ModelType, ModelInfo, map_pipeline_tag_to_model_type, detect_parsers, render_template,
    detect_task_type,
};
use sparrow::toolcfg::{BuiltinToolRegistry, BuiltinToolsConfig};
use sparrow::types::{AutostartError, GeneratedImagesStorage};

#[test]
fn test_constants_defined() {
    assert!(DEFAULT_CHUNK_SIZE > 0);
    assert!(DEFAULT_CHUNK_OVERLAP < DEFAULT_CHUNK_SIZE);
    assert!(!OVMS_DOWNLOAD_URL.is_empty());
    assert!(!DEFAULT_EMBEDDING_MODEL.is_empty());
}

#[test]
fn test_get_sparrow_dir() {
    let path = get_sparrow_dir("/home/someone");
    assert!(path.ends_with(".sparrow"));
    assert_eq!(path, "/home/someone/.sparrow");
}

#[test]
fn test_paths_compose() {
    assert_eq!(get_chat_sessions_path("/h"), "/h/.sparrow/chat_sessions.json");
    assert_eq!(get_openvino_model_path("/h", "m"), "/h/.sparrow/models/OpenVINO/m");
}

#[test]
fn test_normalize_model_id() {
    assert_eq!(normalize_model_id("model-name"), "OpenVINO/model-name");
    assert_eq!(normalize_model_id("OpenVINO/model-name"), "OpenVINO/model-name");
}

#[test]
fn test_get_models_dir_from_option() {
    assert_eq!(get_models_dir_from_option("/h", Some("/elsewhere".to_string())), "/elsewhere");
    assert_eq!(get_models_dir_from_option("/h", None), "/h/.sparrow/models");
}

#[test]
fn test_extract_date_from_filename() {
    assert_eq!(extract_date_from_filename("sparrow.2024-01-15.log"), Some("2024-01-15".to_string()));
    assert_eq!(extract_date_from_filename("sparrow.2024-12-31.log"), Some("2024-12-31".to_string()));
    assert_eq!(extract_date_from_filename("invalid-format.log"), None);
    assert_eq!(extract_date_from_filename("sparrow.log"), None);
    assert_eq!(extract_date_from_filename("other.2024-01-15.log"), None);
}

#[test]
fn test_chunk_text() {
    let text = "This is a test text that should be chunked properly.";
    let chunks = chunk_text(text, 20, 5);
    assert!(!chunks.is_empty());
    assert!(chunks[0].len() <= 20);
}

#[test]
fn test_chunk_text_exact() {
    let chunks = chunk_text("abcdefgh", 4, 1);
    assert_eq!(chunks, vec!["abcd".to_string(), "defg".to_string(), "gh".to_string()]);
    let empty: Vec<String> = chunk_text("", 4, 1);
    assert!(empty.is_empty());
    // All-whitespace windows are dropped.
    let sparse = chunk_text("ab      cd", 4, 1);
    assert_eq!(sparse, vec!["ab  ".to_string(), "  cd".to_string()]);
}

#[test]
fn test_slugify() {
    assert_eq!(slugify("Hello World!"), "hello-world");
    assert_eq!(slugify("  My--Fancy Skill  "), "my-fancy-skill");
    assert_eq!(slugify("---"), "");
    assert_eq!(default_slug(), "");
}

#[test]
fn test_generate_chat_title_short() {
    assert_eq!(generate_chat_title("  hello there  "), "Hello there");
}

#[test]
fn test_generate_chat_title_truncates_at_word() {
    let content = "what is the meaning of life the universe and everything else in the world";
    let title = generate_chat_title(content);
    assert_eq!(title, "What is the meaning of life the universe and everything...");
    assert!(title.len() <= 63);
}

#[test]
fn test_generate_chat_title_strips_punctuation_before_ellipsis() {
    // The 60-character cut lands right after a comma; the comma goes.
    let content = "aaaaaaaaaaaaaaaaaaaaaaaaaaaaaaaaaaaaaaaaaaaaaaaaaaaaaaaaaa, bbbb";
    let title = generate_chat_title(content);
    assert!(title.ends_with("..."));
    assert!(!title.contains(",..."));
}

#[test]
fn test_truncate_content() {
    assert_eq!(truncate_content("short", 10), "short");
    assert_eq!(truncate_content("one two three four", 9), "one two...");
    assert_eq!(truncate_content("abcdefghij", 4), "abcd...");
}

#[test]
fn test_model_type_as_str() {
    assert_eq!(ModelType::Text.as_str(), "text");
    assert_eq!(ModelType::Reranker.as_str(), "reranker");
    assert_eq!(ModelType::TextToSpeech.as_str(), "text-to-speech");
}

#[test]
fn test_map_pipeline_tag_to_model_type() {
    assert_eq!(map_pipeline_tag_to_model_type("text-generation"), Some(ModelType::Text));
    assert_eq!(map_pipeline_tag_to_model_type("feature-extraction"), Some(ModelType::Embedding));
    assert_eq!(map_pipeline_tag_to_model_type("reranking"), Some(ModelType::Reranker));
    assert_eq!(map_pipeline_tag_to_model_type("something-else"), None);
}

#[test]
fn test_detect_parsers() {
    assert_eq!(
        detect_parsers("OpenAI/GPT-OSS-20b"),
        (Some("gptoss".to_string()), Some("gptoss".to_string()))
    );
    assert_eq!(detect_parsers("Qwen2.5-Coder-7B"), (Some("qwen3coder".to_string()), None));
    assert_eq!(detect_parsers("Qwen2.5-7B"), (Some("hermes3".to_string()), None));
    assert_eq!(detect_parsers("Meta-Llama-3-8B"), (Some("llama3".to_string()), None));
    assert_eq!(detect_parsers("unknown-model"), (None, None));
}

#[test]
fn test_render_template() {
    let params = vec![
        ("name".to_string(), "alpha".to_string()),
        ("device".to_string(), "CPU".to_string()),
    ];
    assert_eq!(
        render_template("model {{name}} on {{device}} ({{name}})", &params),
        "model alpha on CPU (alpha)"
    );
    assert_eq!(render_template("no placeholders", &params), "no placeholders");
}

fn hub_info(id: &str, pipeline_tag: Option<&str>, tags: Vec<&str>) -> ModelInfo {
    ModelInfo {
        id: id.to_string(),
        author: None,
        sha: None,
        pipeline_tag: pipeline_tag.map(|s| s.to_string()),
        tags: tags.into_iter().map(|s| s.to_string()).collect(),
        downloads: None,
        likes: None,
        created_at: None,
        last_modified: None,
        collections: None,
        siblings: Vec::new(),
    }
}

#[test]
fn test_detect_task_type() {
    assert_eq!(
        detect_task_type(&hub_info("m", Some("text-generation"), vec![])),
        Some("text_generation".to_string())
    );
    assert_eq!(
        detect_task_type(&hub_info("m", Some("text-classification"), vec!["rerank-base"])),
        Some("rerank_ov".to_string())
    );
    assert_eq!(
        detect_task_type(&hub_info("Cross-ReRanker", Some("text-classification"), vec![])),
        Some("rerank_ov".to_string())
    );
    // A text classifier with no rerank evidence falls through to the tags.
    assert_eq!(
        detect_task_type(&hub_info("m", Some("text-classification"), vec!["causal-lm"])),
        Some("text_generation".to_string())
    );
    assert_eq!(
        detect_task_type(&hub_info("m", None, vec!["a-tts-model"])),
        Some("text2speech".to_string())
    );
    assert_eq!(detect_task_type(&hub_info("m", None, vec!["nothing"])), None);
}

#[test]
fn test_merged_with_registry() {
    let registry = BuiltinToolRegistry::new();
    let mut config = BuiltinToolsConfig::from_registry(&registry);
    config.set_tool_enabled("get_current_time".to_string(), false);
    config.set_tool_enabled("gone_tool".to_string(), false);
    let merged = config.merged_with_registry(&registry);
    // The recorded setting for a registered tool is kept.
    assert!(!merged.is_tool_enabled("get_current_time"));
    assert!(merged.is_tool_enabled("get_system_info"));
    // The stale entry is dropped, so the name falls back to the default.
    assert!(merged.is_tool_enabled("gone_tool"));
    assert!(!merged.get_enabled_tools().contains(&"gone_tool".to_string()));
}

#[test]
fn test_builtin_tool_registry() {
    let registry = BuiltinToolRegistry::new();
    let tools = registry.list_tools();
    assert_eq!(tools.len(), 4);
    assert!(registry.get_tool("get_current_time").is_some());
    assert!(registry.get_tool("no_such_tool").is_none());
    let hidden: Vec<&str> = tools
        .iter()
        .filter(|t| t.hidden_from_task_creation)
        .map(|t| t.name.as_str())
        .collect();
    assert_eq!(hidden, vec!["create_task"]);
}

#[test]
fn test_builtin_tools_config() {
    let registry = BuiltinToolRegistry::new();
    let mut config = BuiltinToolsConfig::from_registry(&registry);
    assert!(config.is_tool_enabled("get_current_time"));
    // An unknown tool defaults to enabled.
    assert!(config.is_tool_enabled("not-registered"));
    config.set_tool_enabled("get_current_time".to_string(), false);
    assert!(!config.is_tool_enabled("get_current_time"));
    let enabled = config.get_enabled_tools();
    assert!(!enabled.contains(&"get_current_time".to_string()));
    assert!(enabled.contains(&"list_directory".to_string()));
    assert_eq!(
        BuiltinToolsConfig::config_path("/h"),
        "/h/.sparrow/builtin_tools_config.json"
    );
}

#[test]
fn test_autostart_error_message() {
    let e = AutostartError::EnableFailed("denied".to_string());
    assert_eq!(e.message(), "Failed to enable autostart: denied");
}

#[test]
fn test_generated_images_storage_default() {
    let storage = GeneratedImagesStorage::default();
    assert!(storage.images.is_empty());
}
