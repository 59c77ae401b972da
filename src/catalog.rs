//! The choices offered for summarization: models per backend and languages.
use vstd::prelude::*;
use crate::text::str_eq;

verus! {

/// A model a backend offers: its identifier and its display label.
#[derive(Clone, Debug)]
pub struct ModelOption {
    pub value: String,
    pub label: String,
}

/// A summary language: its code and its display label.
#[derive(Clone, Debug)]
pub struct LanguageOption {
    pub value: String,
    pub label: String,
}

pub open spec fn model_view(m: ModelOption) -> (Seq<char>, Seq<char>) {
    (m.value@, m.label@)
}

pub open spec fn language_view(l: LanguageOption) -> (Seq<char>, Seq<char>) {
    (l.value@, l.label@)
}

/// The models offered for a backend named in lower case; none for an
/// unknown name.
pub open spec fn model_table(provider: Seq<char>) -> Seq<(Seq<char>, Seq<char>)> {
    if provider == "gemini"@ {
        seq![
            ("gemini-2.5-flash-preview-05-20"@, "Gemini 2.5 Flash Preview"@),
            ("gemini-2.5-pro-preview-05-06"@, "Gemini 2.5 Pro Preview"@),
            ("gemini-2.0-flash"@, "Gemini 2.0 Flash"@),
            ("gemini-2.0-flash-lite"@, "Gemini 2.0 Flash Lite"@),
            ("gemini-1.5-flash"@, "Gemini 1.5 Flash"@),
            ("gemini-1.5-pro"@, "Gemini 1.5 Pro"@),
        ]
    } else if provider == "openai"@ {
        seq![
            ("gpt-4.1-mini"@, "GPT-4.1 Mini"@),
            ("gpt-4.1"@, "GPT-4.1"@),
            ("gpt-4.1-nano"@, "GPT-4.1 Nano"@),
            ("gpt-4o"@, "GPT-4o"@),
            ("gpt-4o-mini"@, "GPT-4o Mini"@),
            ("o3-mini"@, "o3-mini (Reasoning)"@),
            ("o1"@, "o1 (Reasoning)"@),
        ]
    } else if provider == "ollama"@ {
        seq![
            ("llama3.3"@, "Llama 3.3 70B"@),
            ("llama3.2"@, "Llama 3.2"@),
            ("llama3.1"@, "Llama 3.1"@),
            ("gemma3"@, "Gemma 3"@),
            ("gemma2"@, "Gemma 2"@),
            ("qwen3"@, "Qwen 3"@),
            ("qwen2.5"@, "Qwen 2.5"@),
            ("mistral"@, "Mistral"@),
            ("phi4"@, "Phi 4"@),
            ("deepseek-r1"@, "DeepSeek R1"@),
        ]
    } else {
        Seq::empty()
    }
}

/// The lowercase form of a text.
pub uninterp spec fn lower_of(s: Seq<char>) -> Seq<char>;

/// Relies on `str::to_lowercase`: the lowercase form of a text, which
/// depends on its characters alone.
#[verifier::external_body]
fn lowercase(s: &str) -> (r: String)
    ensures
        r@ == lower_of(s@),
{
    s.to_lowercase()
}

fn model(value: &str, label: &str) -> (r: ModelOption)
    ensures
        model_view(r) == (value@, label@),
{
    ModelOption { value: String::from_str(value), label: String::from_str(label) }
}

/// The models offered for a backend whose name is given in lower case.
pub fn models_for(provider: &str) -> (r: Vec<ModelOption>)
    ensures
        r@.map_values(|m: ModelOption| model_view(m)) == model_table(provider@),
{
    let mut r: Vec<ModelOption> = Vec::new();
    if str_eq(provider, "gemini") {
        r.push(model("gemini-2.5-flash-preview-05-20", "Gemini 2.5 Flash Preview"));
        r.push(model("gemini-2.5-pro-preview-05-06", "Gemini 2.5 Pro Preview"));
        r.push(model("gemini-2.0-flash", "Gemini 2.0 Flash"));
        r.push(model("gemini-2.0-flash-lite", "Gemini 2.0 Flash Lite"));
        r.push(model("gemini-1.5-flash", "Gemini 1.5 Flash"));
        r.push(model("gemini-1.5-pro", "Gemini 1.5 Pro"));
    } else if str_eq(provider, "openai") {
        r.push(model("gpt-4.1-mini", "GPT-4.1 Mini"));
        r.push(model("gpt-4.1", "GPT-4.1"));
        r.push(model("gpt-4.1-nano", "GPT-4.1 Nano"));
        r.push(model("gpt-4o", "GPT-4o"));
        r.push(model("gpt-4o-mini", "GPT-4o Mini"));
        r.push(model("o3-mini", "o3-mini (Reasoning)"));
        r.push(model("o1", "o1 (Reasoning)"));
    } else if str_eq(provider, "ollama") {
        r.push(model("llama3.3", "Llama 3.3 70B"));
        r.push(model("llama3.2", "Llama 3.2"));
        r.push(model("llama3.1", "Llama 3.1"));
        r.push(model("gemma3", "Gemma 3"));
        r.push(model("gemma2", "Gemma 2"));
        r.push(model("qwen3", "Qwen 3"));
        r.push(model("qwen2.5", "Qwen 2.5"));
        r.push(model("mistral", "Mistral"));
        r.push(model("phi4", "Phi 4"));
        r.push(model("deepseek-r1", "DeepSeek R1"));
    }
    assert(r@.map_values(|m: ModelOption| model_view(m)) =~= model_table(provider@));
    r
}

/// The models offered for a backend, its name taken in any case.
pub fn get_ai_models(provider: String) -> (r: Vec<ModelOption>)
    ensures
        r@.map_values(|m: ModelOption| model_view(m)) == model_table(lower_of(provider@)),
{
    let p = lowercase(provider.as_str());
    models_for(p.as_str())
}

/// The summary languages offered, `auto` first.
pub open spec fn language_table() -> Seq<(Seq<char>, Seq<char>)> {
    seq![
        ("auto"@, "Auto (Same as video)"@),
        ("en"@, "English"@),
        ("vi"@, "Vietnamese"@),
        ("ja"@, "Japanese"@),
        ("ko"@, "Korean"@),
        ("zh"@, "Chinese"@),
        ("es"@, "Spanish"@),
        ("fr"@, "French"@),
        ("de"@, "German"@),
        ("pt"@, "Portuguese"@),
        ("ru"@, "Russian"@),
    ]
}

fn language(value: &str, label: &str) -> (r: LanguageOption)
    ensures
        language_view(r) == (value@, label@),
{
    LanguageOption { value: String::from_str(value), label: String::from_str(label) }
}

pub fn get_summary_languages() -> (r: Vec<LanguageOption>)
    ensures
        r@.map_values(|l: LanguageOption| language_view(l)) == language_table(),
{
    let mut r: Vec<LanguageOption> = Vec::new();
    r.push(language("auto", "Auto (Same as video)"));
    r.push(language("en", "English"));
    r.push(language("vi", "Vietnamese"));
    r.push(language("ja", "Japanese"));
    r.push(language("ko", "Korean"));
    r.push(language("zh", "Chinese"));
    r.push(language("es", "Spanish"));
    r.push(language("fr", "French"));
    r.push(language("de", "German"));
    r.push(language("pt", "Portuguese"));
    r.push(language("ru", "Russian"));
    assert(r@.map_values(|l: LanguageOption| language_view(l)) =~= language_table());
    r
}

} // verus!
