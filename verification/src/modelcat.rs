//! Model catalogue data: the model type taxonomy, the mapping from pipeline
//! tags, and parser detection from model identifiers.

use vstd::prelude::*;
use vstd::string::*;
use crate::text::{spec_contains_sub, spec_replace, str_to_chars, chars_to_string, contains_sub,
    replace_all, str_eq};
use crate::skills::{lower_of, lowercase};

verus! {

/// The kind of model, as stored in local metadata.
#[derive(Debug, Clone, Copy, PartialEq, Eq, Structural)]
pub enum ModelType {
    Text,
    ImageToText,
    Embedding,
    Reranker,
    ImageGeneration,
    SpeechToText,
    TextToSpeech,
}

/// The metadata tag of a model type.
pub open spec fn spec_model_type_str(t: ModelType) -> Seq<char> {
    match t {
        ModelType::Text => "text"@,
        ModelType::ImageToText => "image-to-text"@,
        ModelType::Embedding => "embedding"@,
        ModelType::Reranker => "reranker"@,
        ModelType::ImageGeneration => "image-generation"@,
        ModelType::SpeechToText => "speech-to-text"@,
        ModelType::TextToSpeech => "text-to-speech"@,
    }
}

impl ModelType {
    /// The metadata tag of this model type.
    pub fn as_str(&self) -> (r: &'static str)
        ensures
            r@ == spec_model_type_str(*self),
    {
        match self {
            ModelType::Text => "text",
            ModelType::ImageToText => "image-to-text",
            ModelType::Embedding => "embedding",
            ModelType::Reranker => "reranker",
            ModelType::ImageGeneration => "image-generation",
            ModelType::SpeechToText => "speech-to-text",
            ModelType::TextToSpeech => "text-to-speech",
        }
    }
}

/// The model type a HuggingFace pipeline tag maps to, if any.
pub open spec fn spec_map_pipeline_tag(tag: Seq<char>) -> Option<ModelType> {
    if tag == "text-generation"@ {
        Some(ModelType::Text)
    } else if tag == "image-text-to-text"@ {
        Some(ModelType::ImageToText)
    } else if tag == "feature-extraction"@ {
        Some(ModelType::Embedding)
    } else if tag == "reranking"@ {
        Some(ModelType::Reranker)
    } else if tag == "text-to-image"@ {
        Some(ModelType::ImageGeneration)
    } else if tag == "automatic-speech-recognition"@ {
        Some(ModelType::SpeechToText)
    } else if tag == "text-to-speech"@ {
        Some(ModelType::TextToSpeech)
    } else {
        None
    }
}

/// Maps a HuggingFace pipeline tag to the local model type.
pub fn map_pipeline_tag_to_model_type(pipeline_tag: &str) -> (r: Option<ModelType>)
    ensures
        r == spec_map_pipeline_tag(pipeline_tag@),
{
    if str_eq(pipeline_tag, "text-generation") {
        Some(ModelType::Text)
    } else if str_eq(pipeline_tag, "image-text-to-text") {
        Some(ModelType::ImageToText)
    } else if str_eq(pipeline_tag, "feature-extraction") {
        Some(ModelType::Embedding)
    } else if str_eq(pipeline_tag, "reranking") {
        Some(ModelType::Reranker)
    } else if str_eq(pipeline_tag, "text-to-image") {
        Some(ModelType::ImageGeneration)
    } else if str_eq(pipeline_tag, "automatic-speech-recognition") {
        Some(ModelType::SpeechToText)
    } else if str_eq(pipeline_tag, "text-to-speech") {
        Some(ModelType::TextToSpeech)
    } else {
        None
    }
}

/// Locally stored metadata about one model.
pub struct ModelMetadata {
    pub model_id: String,
    pub model_type: ModelType,
    pub pipeline_tag: String,
    pub commit_sha: Option<String>,
}

/// One file of a model repository.
pub struct ModelSibling {
    pub rfilename: String,
}

/// What the model hub reports about a model.
pub struct ModelInfo {
    pub id: String,
    pub author: Option<String>,
    pub sha: Option<String>,
    pub pipeline_tag: Option<String>,
    pub tags: Vec<String>,
    pub downloads: Option<u64>,
    pub likes: Option<u64>,
    pub created_at: Option<String>,
    pub last_modified: Option<String>,
    pub collections: Option<Vec<String>>,
    pub siblings: Vec<ModelSibling>,
}

/// A page of model search results.
pub struct SearchResult {
    pub model_ids: Vec<String>,
    pub total_count: Option<u64>,
}

/// Whether a locally downloaded model is current.
pub struct ModelUpdateInfo {
    pub model_id: String,
    pub is_latest: bool,
    pub local_commit: Option<String>,
    pub remote_commit: Option<String>,
    pub needs_update: bool,
}

/// Parameters for generating a model server graph definition.
pub struct GraphGenerationParams {
    pub task_type: Option<String>,
    pub target_device: Option<String>,
    pub enable_prefix_caching: Option<bool>,
    pub cache_size: Option<u32>,
    pub max_num_seqs: Option<u32>,
    pub kv_cache_precision: Option<String>,
    pub max_num_batched_tokens: Option<u32>,
    pub dynamic_split_fuse: Option<bool>,
    pub pipeline_type: Option<String>,
    pub normalize: Option<bool>,
    pub pooling: Option<String>,
    pub truncate: Option<bool>,
    pub num_streams: Option<u32>,
    pub resolution: Option<String>,
    pub guidance_scale: Option<String>,
    pub num_images_per_prompt: Option<String>,
    pub max_resolution: Option<String>,
    pub default_resolution: Option<String>,
    pub max_num_images_per_prompt: Option<u32>,
    pub default_num_inference_steps: Option<u32>,
    pub max_num_inference_steps: Option<u32>,
}

/// The tool parser and reasoning parser a model id calls for, by well-known
/// substrings of the lowercased id.
pub open spec fn spec_detect_parsers(id: Seq<char>) -> (Option<Seq<char>>, Option<Seq<char>>) {
    let l = lower_of(id);
    if spec_contains_sub(l, "gpt-oss"@) {
        (Some("gptoss"@), Some("gptoss"@))
    } else if spec_contains_sub(l, "qwen"@) && spec_contains_sub(l, "coder"@) {
        (Some("qwen3coder"@), None)
    } else if spec_contains_sub(l, "qwen"@) || spec_contains_sub(l, "hermes"@) {
        (Some("hermes3"@), None)
    } else if spec_contains_sub(l, "llama"@) {
        (Some("llama3"@), None)
    } else if spec_contains_sub(l, "mistral"@) {
        (Some("mistral"@), None)
    } else if spec_contains_sub(l, "phi"@) {
        (Some("phi4"@), None)
    } else {
        (None, None)
    }
}

/// Detects the tool parser and reasoning parser from a model id.
pub fn detect_parsers(model_id: &str) -> (r: (Option<String>, Option<String>))
    ensures
        ({
            let s = spec_detect_parsers(model_id@);
            &&& (match r.0 {
                Some(x) => s.0 matches Some(v) && x@ == v,
                None => s.0 is None,
            })
            &&& (match r.1 {
                Some(x) => s.1 matches Some(v) && x@ == v,
                None => s.1 is None,
            })
        }),
{
    proof {
        reveal_strlit("gpt-oss");
        reveal_strlit("qwen");
        reveal_strlit("coder");
        reveal_strlit("hermes");
        reveal_strlit("llama");
        reveal_strlit("mistral");
        reveal_strlit("phi");
    }
    let lowered = lowercase(model_id);
    let l = str_to_chars(lowered.as_str());
    let gpt_oss = str_to_chars("gpt-oss");
    let qwen = str_to_chars("qwen");
    let coder = str_to_chars("coder");
    let hermes = str_to_chars("hermes");
    let llama = str_to_chars("llama");
    let mistral = str_to_chars("mistral");
    let phi = str_to_chars("phi");
    if contains_sub(l.as_slice(), gpt_oss.as_slice()) {
        (Some(String::from_str("gptoss")), Some(String::from_str("gptoss")))
    } else if contains_sub(l.as_slice(), qwen.as_slice()) && contains_sub(
        l.as_slice(),
        coder.as_slice(),
    ) {
        (Some(String::from_str("qwen3coder")), None)
    } else if contains_sub(l.as_slice(), qwen.as_slice()) || contains_sub(
        l.as_slice(),
        hermes.as_slice(),
    ) {
        (Some(String::from_str("hermes3")), None)
    } else if contains_sub(l.as_slice(), llama.as_slice()) {
        (Some(String::from_str("llama3")), None)
    } else if contains_sub(l.as_slice(), mistral.as_slice()) {
        (Some(String::from_str("mistral")), None)
    } else if contains_sub(l.as_slice(), phi.as_slice()) {
        (Some(String::from_str("phi4")), None)
    } else {
        (None, None)
    }
}

/// The placeholder that a template parameter named `key` fills.
pub open spec fn spec_placeholder(key: Seq<char>) -> Seq<char> {
    "{{"@ + key + "}}"@
}

/// The template after the first `n` parameters have been substituted, in
/// order; each substitution replaces every occurrence of `{{key}}` by the
/// parameter's value.
pub open spec fn spec_render_template(template: Seq<char>, params: Seq<(String, String)>) -> Seq<
    char,
>
    decreases params.len(),
{
    if params.len() == 0 {
        template
    } else {
        spec_replace(
            spec_render_template(template, params.drop_last()),
            spec_placeholder(params.last().0@),
            params.last().1@,
        )
    }
}

/// Substitutes every `{{key}}` placeholder of the template by the matching
/// parameter value, parameters applied in order.
pub fn render_template(template: &str, params: &Vec<(String, String)>) -> (r: String)
    ensures
        r@ == spec_render_template(template@, params@),
{
    let mut result = str_to_chars(template);
    let mut i: usize = 0;
    while i < params.len()
        invariant
            0 <= i <= params@.len(),
            result@ == spec_render_template(template@, params@.take(i as int)),
        decreases params@.len() - i,
    {
        proof {
            assert(params@.take(i + 1).drop_last() =~= params@.take(i as int));
            assert(params@.take(i + 1).last() == params@[i as int]);
        }
        let mut placeholder = str_to_chars("{{");
        let mut key = str_to_chars(params[i].0.as_str());
        let mut close = str_to_chars("}}");
        placeholder.append(&mut key);
        placeholder.append(&mut close);
        proof {
            reveal_strlit("{{");
            assert(placeholder@ =~= spec_placeholder(params@[i as int].0@));
        }
        let value = str_to_chars(params[i].1.as_str());
        result = replace_all(result.as_slice(), placeholder.as_slice(), value.as_slice());
        i = i + 1;
    }
    proof {
        assert(params@.take(params@.len() as int) =~= params@);
    }
    chars_to_string(result.as_slice())
}

/// The task a tag implies, by well-known substrings of the lowercased tag.
pub open spec fn spec_tag_task(tag: Seq<char>) -> Option<Seq<char>> {
    let l = lower_of(tag);
    if spec_contains_sub(l, "text-generation"@) || spec_contains_sub(l, "causal-lm"@) {
        Some("text_generation"@)
    } else if spec_contains_sub(l, "embedding"@) || spec_contains_sub(l, "feature-extraction"@) {
        Some("embeddings_ov"@)
    } else if spec_contains_sub(l, "rerank"@) {
        Some("rerank_ov"@)
    } else if spec_contains_sub(l, "text-to-speech"@) || spec_contains_sub(l, "tts"@) {
        Some("text2speech"@)
    } else if spec_contains_sub(l, "speech-to-text"@) || spec_contains_sub(l, "stt"@)
        || spec_contains_sub(l, "asr"@) {
        Some("speech2text"@)
    } else if spec_contains_sub(l, "text-to-image"@) || spec_contains_sub(l, "stable-diffusion"@) {
        Some("image_generation"@)
    } else {
        None
    }
}

/// The first task any tag implies, scanning in order.
pub open spec fn spec_first_tag_task(tags: Seq<String>, i: int) -> Option<Seq<char>>
    decreases tags.len() - i,
    when 0 <= i
{
    if i >= tags.len() {
        None
    } else {
        match spec_tag_task(tags[i]@) {
            Some(x) => Some(x),
            None => spec_first_tag_task(tags, i + 1),
        }
    }
}

/// Whether some tag mentions reranking, verbatim.
pub open spec fn spec_any_tag_rerank(tags: Seq<String>) -> bool {
    exists|i: int| 0 <= i < tags.len() && spec_contains_sub(#[trigger] tags[i]@, "rerank"@)
}

/// The serving task a model calls for: decided by its pipeline tag where that
/// is conclusive — a text classifier counts as a reranker only when its tags
/// or its id say so — and otherwise by scanning its tags.
pub open spec fn spec_detect_task_type(info: ModelInfo) -> Option<Seq<char>> {
    let from_pipeline: Option<Seq<char>> = match info.pipeline_tag {
        Some(pt) => {
            if pt@ == "text-generation"@ {
                Some("text_generation"@)
            } else if pt@ == "feature-extraction"@ || pt@ == "sentence-similarity"@ {
                Some("embeddings_ov"@)
            } else if pt@ == "text-classification"@ {
                if spec_any_tag_rerank(info.tags@) || spec_contains_sub(
                    lower_of(info.id@),
                    "rerank"@,
                ) {
                    Some("rerank_ov"@)
                } else {
                    None
                }
            } else if pt@ == "text-to-speech"@ {
                Some("text2speech"@)
            } else if pt@ == "automatic-speech-recognition"@ {
                Some("speech2text"@)
            } else if pt@ == "text-to-image"@ {
                Some("image_generation"@)
            } else {
                None
            }
        },
        None => None,
    };
    match from_pipeline {
        Some(x) => Some(x),
        None => spec_first_tag_task(info.tags@, 0),
    }
}

/// Detects the serving task type from what the model hub reports.
pub fn detect_task_type(model_info: &ModelInfo) -> (r: Option<String>)
    ensures
        match r {
            Some(x) => spec_detect_task_type(*model_info) matches Some(v) && x@ == v,
            None => spec_detect_task_type(*model_info) is None,
        },
{
    proof {
        reveal_strlit("rerank");
    }
    let from_pipeline: Option<String> = match &model_info.pipeline_tag {
        Some(pt) => {
            if str_eq(pt.as_str(), "text-generation") {
                Some(String::from_str("text_generation"))
            } else if str_eq(pt.as_str(), "feature-extraction") || str_eq(
                pt.as_str(),
                "sentence-similarity",
            ) {
                Some(String::from_str("embeddings_ov"))
            } else if str_eq(pt.as_str(), "text-classification") {
                if any_tag_rerank(&model_info.tags) || id_mentions_rerank(model_info.id.as_str()) {
                    Some(String::from_str("rerank_ov"))
                } else {
                    None
                }
            } else if str_eq(pt.as_str(), "text-to-speech") {
                Some(String::from_str("text2speech"))
            } else if str_eq(pt.as_str(), "automatic-speech-recognition") {
                Some(String::from_str("speech2text"))
            } else if str_eq(pt.as_str(), "text-to-image") {
                Some(String::from_str("image_generation"))
            } else {
                None
            }
        },
        None => None,
    };
    match from_pipeline {
        Some(x) => Some(x),
        None => first_tag_task(&model_info.tags),
    }
}

/// Whether some tag mentions reranking.
fn any_tag_rerank(tags: &Vec<String>) -> (r: bool)
    ensures
        r == spec_any_tag_rerank(tags@),
{
    proof {
        reveal_strlit("rerank");
    }
    let pat = str_to_chars("rerank");
    let mut i: usize = 0;
    while i < tags.len()
        invariant
            0 <= i <= tags@.len(),
            pat@ == "rerank"@,
            pat@.len() > 0,
            forall|j: int| 0 <= j < i ==> !spec_contains_sub(#[trigger] tags@[j]@, "rerank"@),
        decreases tags@.len() - i,
    {
        let tag = str_to_chars(tags[i].as_str());
        if contains_sub(tag.as_slice(), pat.as_slice()) {
            return true;
        }
        i = i + 1;
    }
    false
}

/// Whether the lowercased model id mentions reranking.
fn id_mentions_rerank(id: &str) -> (r: bool)
    ensures
        r == spec_contains_sub(lower_of(id@), "rerank"@),
{
    proof {
        reveal_strlit("rerank");
    }
    let lowered = lowercase(id);
    let l = str_to_chars(lowered.as_str());
    let pat = str_to_chars("rerank");
    contains_sub(l.as_slice(), pat.as_slice())
}

/// The first task any tag implies.
fn first_tag_task(tags: &Vec<String>) -> (r: Option<String>)
    ensures
        match r {
            Some(x) => spec_first_tag_task(tags@, 0) matches Some(v) && x@ == v,
            None => spec_first_tag_task(tags@, 0) is None,
        },
{
    let mut i: usize = 0;
    loop
        invariant_except_break
            spec_first_tag_task(tags@, 0) == spec_first_tag_task(tags@, i as int),
        invariant
            0 <= i <= tags@.len(),
        ensures
            spec_first_tag_task(tags@, 0) == spec_first_tag_task(tags@, i as int),
            i >= tags@.len() || spec_tag_task(tags@[i as int]@) is Some,
        decreases tags@.len() - i,
    {
        if i >= tags.len() {
            break;
        }
        if tag_task(tags[i].as_str()).is_some() {
            break;
        }
        i = i + 1;
    }
    if i >= tags.len() {
        return None;
    }
    tag_task(tags[i].as_str())
}

/// The task one tag implies, by substrings of its lowercased text.
fn tag_task(tag: &str) -> (r: Option<String>)
    ensures
        match r {
            Some(x) => spec_tag_task(tag@) matches Some(v) && x@ == v,
            None => spec_tag_task(tag@) is None,
        },
{
    proof {
        reveal_strlit("text-generation");
        reveal_strlit("causal-lm");
        reveal_strlit("embedding");
        reveal_strlit("feature-extraction");
        reveal_strlit("rerank");
        reveal_strlit("text-to-speech");
        reveal_strlit("tts");
        reveal_strlit("speech-to-text");
        reveal_strlit("stt");
        reveal_strlit("asr");
        reveal_strlit("text-to-image");
        reveal_strlit("stable-diffusion");
    }
    let lowered = lowercase(tag);
    let l = str_to_chars(lowered.as_str());
    if contains_sub(l.as_slice(), str_to_chars("text-generation").as_slice()) || contains_sub(
        l.as_slice(),
        str_to_chars("causal-lm").as_slice(),
    ) {
        Some(String::from_str("text_generation"))
    } else if contains_sub(l.as_slice(), str_to_chars("embedding").as_slice()) || contains_sub(
        l.as_slice(),
        str_to_chars("feature-extraction").as_slice(),
    ) {
        Some(String::from_str("embeddings_ov"))
    } else if contains_sub(l.as_slice(), str_to_chars("rerank").as_slice()) {
        Some(String::from_str("rerank_ov"))
    } else if contains_sub(l.as_slice(), str_to_chars("text-to-speech").as_slice())
        || contains_sub(l.as_slice(), str_to_chars("tts").as_slice()) {
        Some(String::from_str("text2speech"))
    } else if contains_sub(l.as_slice(), str_to_chars("speech-to-text").as_slice())
        || contains_sub(l.as_slice(), str_to_chars("stt").as_slice()) || contains_sub(
        l.as_slice(),
        str_to_chars("asr").as_slice(),
    ) {
        Some(String::from_str("speech2text"))
    } else if contains_sub(l.as_slice(), str_to_chars("text-to-image").as_slice())
        || contains_sub(l.as_slice(), str_to_chars("stable-diffusion").as_slice()) {
        Some(String::from_str("image_generation"))
    } else {
        None
    }
}

} // verus!
