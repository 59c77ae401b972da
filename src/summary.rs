//! The summarization client: one prompt for every backend, one request and
//! one response reading per backend, errors in one shape.
use vstd::prelude::*;
use crate::text::{chars_of, digit_char, str_eq, string_of, trim, trim_end_char, trim_end_char_str, trim_str};

verus! {

/// The backends a summary can come from.
#[derive(Clone, Copy, Debug, PartialEq, Eq, Structural)]
pub enum AIProvider {
    Gemini,
    OpenAI,
    Ollama,
}

impl Default for AIProvider {
    fn default() -> (r: Self)
        ensures
            r == AIProvider::Gemini,
    {
        AIProvider::Gemini
    }
}

/// How long a summary should be.
#[derive(Clone, Copy, Debug, PartialEq, Eq, Structural)]
pub enum SummaryStyle {
    /// Two or three sentences.
    Short,
    /// Bullet points with the key information.
    Detailed,
}

impl Default for SummaryStyle {
    fn default() -> (r: Self)
        ensures
            r == SummaryStyle::Short,
    {
        SummaryStyle::Short
    }
}

/// The local backend's address where none is configured.
pub const DEFAULT_OLLAMA_URL: &'static str = "http://localhost:11434";

/// The model used where none was chosen.
pub const DEFAULT_MODEL: &'static str = "gemini-2.0-flash";

/// Summarization settings.
#[derive(Clone, Debug)]
pub struct AIConfig {
    pub enabled: bool,
    pub provider: AIProvider,
    pub api_key: Option<String>,
    pub model: String,
    pub ollama_url: Option<String>,
    pub summary_style: SummaryStyle,
    /// `auto`, or a language code such as `en` or `vi`.
    pub summary_language: String,
}

impl Default for AIConfig {
    fn default() -> (r: Self)
        ensures
            !r.enabled,
            r.provider == AIProvider::Gemini,
            r.api_key is None,
            r.model@ == DEFAULT_MODEL@,
            r.ollama_url is Some && (r.ollama_url->0)@ == DEFAULT_OLLAMA_URL@,
            r.summary_style == SummaryStyle::Short,
            r.summary_language@ == "auto"@,
    {
        AIConfig {
            enabled: false,
            provider: AIProvider::Gemini,
            api_key: None,
            model: String::from_str(DEFAULT_MODEL),
            ollama_url: Some(String::from_str(DEFAULT_OLLAMA_URL)),
            summary_style: SummaryStyle::Short,
            summary_language: String::from_str("auto"),
        }
    }
}

/// A generated summary, with the backend and model that wrote it.
#[derive(Clone, Debug)]
pub struct SummaryResult {
    pub summary: String,
    pub provider: String,
    pub model: String,
}

/// What can go wrong while summarizing.
#[derive(Clone, Debug)]
pub enum AIError {
    NoApiKey,
    NoTranscript,
    ApiError(String),
    NetworkError(String),
    ParseError(String),
}

/// The message shown for an error.
pub open spec fn error_message(e: AIError) -> Seq<char> {
    match e {
        AIError::NoApiKey => "API key not configured. Please add your API key in Settings."@,
        AIError::NoTranscript => "No transcript available for this video."@,
        AIError::ApiError(m) => "AI API error: "@ + m@,
        AIError::NetworkError(m) => "Network error: "@ + m@,
        AIError::ParseError(m) => "Failed to parse response: "@ + m@,
    }
}

impl AIError {
    /// The message shown for this error.
    pub fn message(&self) -> (r: String)
        ensures
            r@ == error_message(*self),
    {
        match self {
            AIError::NoApiKey => String::from_str(
                "API key not configured. Please add your API key in Settings.",
            ),
            AIError::NoTranscript => String::from_str("No transcript available for this video."),
            AIError::ApiError(m) => {
                let mut s = String::from_str("AI API error: ");
                s.append(m.as_str());
                s
            },
            AIError::NetworkError(m) => {
                let mut s = String::from_str("Network error: ");
                s.append(m.as_str());
                s
            },
            AIError::ParseError(m) => {
                let mut s = String::from_str("Failed to parse response: ");
                s.append(m.as_str());
                s
            },
        }
    }
}

/// The most characters of a transcript that go into a prompt.
pub const TRANSCRIPT_BUDGET: usize = 8000;

pub open spec fn style_instruction(style: SummaryStyle) -> Seq<char> {
    match style {
        SummaryStyle::Short => "Provide a concise summary in 2-3 sentences."@,
        SummaryStyle::Detailed =>
            "Provide a detailed summary with bullet points covering the main topics and key takeaways."@,
    }
}

/// The display name of a language code; an unknown code stands for itself.
pub open spec fn language_name(code: Seq<char>) -> Seq<char> {
    if code == "en"@ {
        "English"@
    } else if code == "vi"@ {
        "Vietnamese"@
    } else if code == "ja"@ {
        "Japanese"@
    } else if code == "ko"@ {
        "Korean"@
    } else if code == "zh"@ {
        "Chinese"@
    } else if code == "es"@ {
        "Spanish"@
    } else if code == "fr"@ {
        "French"@
    } else if code == "de"@ {
        "German"@
    } else if code == "pt"@ {
        "Portuguese"@
    } else if code == "ru"@ {
        "Russian"@
    } else {
        code
    }
}

pub open spec fn language_instruction(language: Seq<char>) -> Seq<char> {
    if language == "auto"@ {
        "Respond in the same language as the transcript."@
    } else {
        "Respond in "@ + language_name(language) + "."@
    }
}

/// The transcript cut to the budget, with a marker where it was cut.
pub open spec fn clipped_transcript(t: Seq<char>) -> Seq<char> {
    if t.len() > TRANSCRIPT_BUDGET {
        t.take(TRANSCRIPT_BUDGET as int) + "... [truncated]"@
    } else {
        t
    }
}

/// The prompt for a transcript, the same for every backend.
pub open spec fn prompt_for(transcript: Seq<char>, style: SummaryStyle, language: Seq<char>) -> Seq<
    char,
> {
    "You are a helpful assistant that summarizes video content.\n\n"@ + style_instruction(style)
        + "\n"@ + language_instruction(language) + "\n\nHere is the video transcript:\n\n"@
        + clipped_transcript(transcript) + "\n\nSummary:"@
}

fn language_name_exec(code: &str) -> (r: String)
    ensures
        r@ == language_name(code@),
{
    if str_eq(code, "en") {
        String::from_str("English")
    } else if str_eq(code, "vi") {
        String::from_str("Vietnamese")
    } else if str_eq(code, "ja") {
        String::from_str("Japanese")
    } else if str_eq(code, "ko") {
        String::from_str("Korean")
    } else if str_eq(code, "zh") {
        String::from_str("Chinese")
    } else if str_eq(code, "es") {
        String::from_str("Spanish")
    } else if str_eq(code, "fr") {
        String::from_str("French")
    } else if str_eq(code, "de") {
        String::from_str("German")
    } else if str_eq(code, "pt") {
        String::from_str("Portuguese")
    } else if str_eq(code, "ru") {
        String::from_str("Russian")
    } else {
        String::from_str(code)
    }
}

/// The prompt for `transcript`: a style directive, a language directive
/// (`auto` keeps the transcript's own language), then the transcript, cut
/// to `TRANSCRIPT_BUDGET` characters with a marker.
pub fn build_prompt(transcript: &str, style: &SummaryStyle, language: &str) -> (r: String)
    ensures
        r@ == prompt_for(transcript@, *style, language@),
{
    let mut s = String::from_str("You are a helpful assistant that summarizes video content.\n\n");
    match style {
        SummaryStyle::Short => s.append("Provide a concise summary in 2-3 sentences."),
        SummaryStyle::Detailed => s.append(
            "Provide a detailed summary with bullet points covering the main topics and key takeaways.",
        ),
    }
    s.append("\n");
    if str_eq(language, "auto") {
        s.append("Respond in the same language as the transcript.");
    } else {
        s.append("Respond in ");
        let name = language_name_exec(language);
        s.append(name.as_str());
        s.append(".");
    }
    s.append("\n\nHere is the video transcript:\n\n");
    let v = chars_of(transcript);
    if v.len() > TRANSCRIPT_BUDGET {
        let head = string_of(&v, 0, TRANSCRIPT_BUDGET);
        assert(v@.subrange(0, TRANSCRIPT_BUDGET as int) =~= transcript@.take(
            TRANSCRIPT_BUDGET as int,
        ));
        s.append(head.as_str());
        s.append("... [truncated]");
    } else {
        s.append(transcript);
    }
    s.append("\n\nSummary:");
    assert(s@ =~= prompt_for(transcript@, *style, language@));
    s
}

/// A lowercase hexadecimal digit.
pub open spec fn hex_digit(d: nat) -> char {
    if d < 10 {
        digit_char(d)
    } else if d == 10 {
        'a'
    } else if d == 11 {
        'b'
    } else if d == 12 {
        'c'
    } else if d == 13 {
        'd'
    } else if d == 14 {
        'e'
    } else {
        'f'
    }
}

/// How a character stands inside a JSON string literal: quote and
/// backslash escaped, the usual short escapes for backspace, tab, line
/// feed, form feed and carriage return, `\u00XX` for the other control
/// characters, every other character as it is.
pub open spec fn json_escaped_char(c: char) -> Seq<char> {
    let u = c as u32;
    if c == '"' {
        seq!['\\', '"']
    } else if c == '\\' {
        seq!['\\', '\\']
    } else if u == 0x08 {
        seq!['\\', 'b']
    } else if u == 0x09 {
        seq!['\\', 't']
    } else if u == 0x0a {
        seq!['\\', 'n']
    } else if u == 0x0c {
        seq!['\\', 'f']
    } else if u == 0x0d {
        seq!['\\', 'r']
    } else if u < 0x20 {
        seq!['\\', 'u', '0', '0', hex_digit((u / 16) as nat), hex_digit((u % 16) as nat)]
    } else {
        seq![c]
    }
}

pub open spec fn json_escaped(s: Seq<char>) -> Seq<char>
    decreases s.len(),
{
    if s.len() == 0 {
        Seq::empty()
    } else {
        json_escaped(s.drop_last()) + json_escaped_char(s.last())
    }
}

/// The JSON string literal that stands for a text.
pub open spec fn json_quoted(s: Seq<char>) -> Seq<char> {
    seq!['"'] + json_escaped(s) + seq!['"']
}

/// Relies on `serde_json::to_string` on a `str`: the text quoted, with the
/// escapes of serde_json's escape table. Serializing a `str` into memory
/// cannot fail.
#[verifier::external_body]
fn json_string(s: &str) -> (r: String)
    ensures
        r@ == json_quoted(s@),
{
    serde_json::to_string(s).unwrap_or_default()
}

/// Whether a text is a JSON document.
pub uninterp spec fn json_parses(doc: Seq<char>) -> bool;

/// The string that a JSON document holds at a JSON pointer, if it holds a
/// string there.
pub uninterp spec fn json_text_at(doc: Seq<char>, pointer: Seq<char>) -> Option<Seq<char>>;

/// Relies on `serde_json::from_str` into a `serde_json::Value`, then
/// `Value::pointer` and `Value::as_str`: the string at a JSON pointer of a
/// document, or the parser's error message where the text is no JSON.
#[verifier::external_body]
fn text_at(doc: &str, pointer: &str) -> (r: Result<Option<String>, String>)
    ensures
        r is Ok <==> json_parses(doc@),
        match r {
            Ok(t) => match json_text_at(doc@, pointer@) {
                Some(x) => t is Some && (t->0)@ == x,
                None => t is None,
            },
            Err(_) => true,
        },
{
    let v: serde_json::Value = serde_json::from_str(doc).map_err(|e| e.to_string())?;
    Ok(v.pointer(pointer).and_then(serde_json::Value::as_str).map(String::from))
}

/// A backend with what it needs to be reached.
#[derive(Clone, Debug)]
pub enum Backend {
    Gemini { api_key: String },
    OpenAI { api_key: String },
    Ollama { base_url: String },
}

/// An HTTP POST to make.
#[derive(Clone, Debug)]
pub struct HttpRequest {
    pub url: String,
    pub headers: Vec<(String, String)>,
    pub body: String,
}

/// A summarization call ready to be sent.
#[derive(Clone, Debug)]
pub struct SummaryCall {
    pub backend: Backend,
    pub model: String,
    pub request: HttpRequest,
}

pub open spec fn provider_name(b: Backend) -> Seq<char> {
    match b {
        Backend::Gemini { .. } => "Gemini"@,
        Backend::OpenAI { .. } => "OpenAI"@,
        Backend::Ollama { .. } => "Ollama"@,
    }
}

pub open spec fn endpoint(b: Backend, model: Seq<char>) -> Seq<char> {
    match b {
        Backend::Gemini { api_key } => "https://generativelanguage.googleapis.com/v1beta/models/"@
            + model + ":generateContent?key="@ + api_key@,
        Backend::OpenAI { .. } => "https://api.openai.com/v1/chat/completions"@,
        Backend::Ollama { base_url } => trim_end_char(base_url@, '/') + "/api/generate"@,
    }
}

/// A backend's request body around the JSON literals of the model and the
/// prompt.
pub open spec fn body_frame(b: Backend, quoted_model: Seq<char>, quoted_prompt: Seq<char>) -> Seq<
    char,
> {
    match b {
        Backend::Gemini { .. } => "{\"contents\":[{\"parts\":[{\"text\":"@ + quoted_prompt
            + "}]}],\"generationConfig\":{\"temperature\":0.7,\"maxOutputTokens\":1024}}"@,
        Backend::OpenAI { .. } => "{\"model\":"@ + quoted_model
            + ",\"messages\":[{\"role\":\"user\",\"content\":"@ + quoted_prompt
            + "}],\"temperature\":0.7,\"max_tokens\":1024}"@,
        Backend::Ollama { .. } => "{\"model\":"@ + quoted_model + ",\"prompt\":"@ + quoted_prompt
            + ",\"stream\":false,\"options\":{\"temperature\":0.7}}"@,
    }
}

pub open spec fn request_body(b: Backend, model: Seq<char>, prompt: Seq<char>) -> Seq<char> {
    body_frame(b, json_quoted(model), json_quoted(prompt))
}

/// The request body of a backend, given the model and the prompt already
/// written as JSON string literals.
pub fn frame_body(backend: &Backend, quoted_model: &str, quoted_prompt: &str) -> (r: String)
    ensures
        r@ == body_frame(*backend, quoted_model@, quoted_prompt@),
{
    match backend {
        Backend::Gemini { .. } => {
            let mut body = String::from_str("{\"contents\":[{\"parts\":[{\"text\":");
            body.append(quoted_prompt);
            body.append("}]}],\"generationConfig\":{\"temperature\":0.7,\"maxOutputTokens\":1024}}");
            body
        },
        Backend::OpenAI { .. } => {
            let mut body = String::from_str("{\"model\":");
            body.append(quoted_model);
            body.append(",\"messages\":[{\"role\":\"user\",\"content\":");
            body.append(quoted_prompt);
            body.append("}],\"temperature\":0.7,\"max_tokens\":1024}");
            body
        },
        Backend::Ollama { .. } => {
            let mut body = String::from_str("{\"model\":");
            body.append(quoted_model);
            body.append(",\"prompt\":");
            body.append(quoted_prompt);
            body.append(",\"stream\":false,\"options\":{\"temperature\":0.7}}");
            body
        },
    }
}

/// The headers of a request, as (name, value) texts.
pub open spec fn request_headers(b: Backend) -> Seq<(Seq<char>, Seq<char>)> {
    match b {
        Backend::OpenAI { api_key } => seq![
            ("Content-Type"@, "application/json"@),
            ("Authorization"@, "Bearer "@ + api_key@),
        ],
        _ => seq![("Content-Type"@, "application/json"@)],
    }
}

pub open spec fn headers_view(h: Seq<(String, String)>) -> Seq<(Seq<char>, Seq<char>)> {
    h.map_values(|p: (String, String)| (p.0@, p.1@))
}

/// Whether a configuration names a cloud backend but holds no credential.
pub open spec fn lacks_key(config: AIConfig) -> bool {
    config.provider != AIProvider::Ollama && config.api_key is None
}

/// The backend that a configuration selects: a cloud backend needs a
/// credential; the local one takes its address, or the default address.
pub fn select_backend(config: &AIConfig) -> (r: Result<Backend, AIError>)
    ensures
        match config.provider {
            AIProvider::Gemini => match config.api_key {
                Some(k) => r matches Ok(Backend::Gemini { api_key }) && api_key@ == k@,
                None => r matches Err(AIError::NoApiKey),
            },
            AIProvider::OpenAI => match config.api_key {
                Some(k) => r matches Ok(Backend::OpenAI { api_key }) && api_key@ == k@,
                None => r matches Err(AIError::NoApiKey),
            },
            AIProvider::Ollama => r matches Ok(Backend::Ollama { base_url }) && base_url@ == match
            config.ollama_url {
                Some(u) => u@,
                None => DEFAULT_OLLAMA_URL@,
            },
        },
{
    match config.provider {
        AIProvider::Gemini => match &config.api_key {
            Some(k) => Ok(Backend::Gemini { api_key: String::from_str(k.as_str()) }),
            None => Err(AIError::NoApiKey),
        },
        AIProvider::OpenAI => match &config.api_key {
            Some(k) => Ok(Backend::OpenAI { api_key: String::from_str(k.as_str()) }),
            None => Err(AIError::NoApiKey),
        },
        AIProvider::Ollama => {
            let base_url = match &config.ollama_url {
                Some(u) => String::from_str(u.as_str()),
                None => String::from_str(DEFAULT_OLLAMA_URL),
            };
            Ok(Backend::Ollama { base_url })
        },
    }
}

fn header(name: &str, value: &str) -> (r: (String, String))
    ensures
        r.0@ == name@,
        r.1@ == value@,
{
    (String::from_str(name), String::from_str(value))
}

/// The HTTP request that asks `backend` to answer `prompt` with `model`.
pub fn request_for(backend: &Backend, model: &str, prompt: &str) -> (r: HttpRequest)
    ensures
        r.url@ == endpoint(*backend, model@),
        headers_view(r.headers@) == request_headers(*backend),
        r.body@ == request_body(*backend, model@, prompt@),
{
    let quoted_model = json_string(model);
    let quoted_prompt = json_string(prompt);
    let body = frame_body(backend, quoted_model.as_str(), quoted_prompt.as_str());
    let mut headers: Vec<(String, String)> = Vec::new();
    headers.push(header("Content-Type", "application/json"));
    let url = match backend {
        Backend::Gemini { api_key } => {
            let mut url = String::from_str(
                "https://generativelanguage.googleapis.com/v1beta/models/",
            );
            url.append(model);
            url.append(":generateContent?key=");
            url.append(api_key.as_str());
            url
        },
        Backend::OpenAI { api_key } => {
            let mut bearer = String::from_str("Bearer ");
            bearer.append(api_key.as_str());
            headers.push(header("Authorization", bearer.as_str()));
            String::from_str("https://api.openai.com/v1/chat/completions")
        },
        Backend::Ollama { base_url } => {
            let mut url = trim_end_char_str(base_url.as_str(), '/');
            url.append("/api/generate");
            url
        },
    };
    assert(headers_view(headers@) =~= request_headers(*backend));
    HttpRequest { url, headers, body }
}

/// The summary for the text found in a response, if it had one.
pub fn summary_from_text(backend: &Backend, model: &str, text: Option<&str>) -> (r: Result<
    SummaryResult,
    AIError,
>)
    ensures
        match text {
            Some(t) => r matches Ok(s) && s.summary@ == trim(t@) && s.provider@ == provider_name(
                *backend,
            ) && s.model@ == model@,
            None => r matches Err(AIError::ParseError(m)) && m@ == "No text in response"@,
        },
{
    match text {
        Some(t) => {
            let provider = match backend {
                Backend::Gemini { .. } => String::from_str("Gemini"),
                Backend::OpenAI { .. } => String::from_str("OpenAI"),
                Backend::Ollama { .. } => String::from_str("Ollama"),
            };
            Ok(SummaryResult { summary: trim_str(t), provider, model: String::from_str(model) })
        },
        None => Err(AIError::ParseError(String::from_str("No text in response"))),
    }
}

/// Where the generated text stands in a backend's response.
pub open spec fn response_pointer(b: Backend) -> Seq<char> {
    match b {
        Backend::Gemini { .. } => "/candidates/0/content/parts/0/text"@,
        Backend::OpenAI { .. } => "/choices/0/message/content"@,
        Backend::Ollama { .. } => "/response"@,
    }
}

/// Whether an HTTP status is a success (2xx).
pub open spec fn is_success(status: u16) -> bool {
    200 <= status <= 299
}

/// What a backend's answer means: a failure status is an `ApiError` with
/// the status and the body; otherwise the body is parsed and the text read
/// at the backend's place, or a `ParseError` where either step fails.
pub fn read_response(
    backend: &Backend,
    model: &str,
    status: u16,
    status_text: &str,
    body: &str,
) -> (r: Result<SummaryResult, AIError>)
    ensures
        !is_success(status) ==> (r matches Err(AIError::ApiError(m)) && m@ == "Status "@
            + status_text@ + ": "@ + body@),
        is_success(status) && !json_parses(body@) ==> (r matches Err(AIError::ParseError(_))),
        is_success(status) && json_parses(body@) ==> match json_text_at(
            body@,
            response_pointer(*backend),
        ) {
            Some(t) => r matches Ok(s) && s.summary@ == trim(t) && s.provider@ == provider_name(
                *backend,
            ) && s.model@ == model@,
            None => r matches Err(AIError::ParseError(m)) && m@ == "No text in response"@,
        },
{
    if status < 200 || status > 299 {
        let mut m = String::from_str("Status ");
        m.append(status_text);
        m.append(": ");
        m.append(body);
        return Err(AIError::ApiError(m));
    }
    let pointer = match backend {
        Backend::Gemini { .. } => "/candidates/0/content/parts/0/text",
        Backend::OpenAI { .. } => "/choices/0/message/content",
        Backend::Ollama { .. } => "/response",
    };
    match text_at(body, pointer) {
        Ok(Some(t)) => summary_from_text(backend, model, Some(t.as_str())),
        Ok(None) => summary_from_text(backend, model, None),
        Err(msg) => Err(AIError::ParseError(msg)),
    }
}

/// The error for a request that did not get an answer.
pub fn network_error(backend: &Backend, detail: &str) -> (r: AIError)
    ensures
        r matches AIError::NetworkError(m) && m@ == match *backend {
            Backend::Ollama { base_url } => "Failed to connect to Ollama at "@ + base_url@ + ": "@
                + detail@,
            _ => detail@,
        },
{
    match backend {
        Backend::Ollama { base_url } => {
            let mut m = String::from_str("Failed to connect to Ollama at ");
            m.append(base_url.as_str());
            m.append(": ");
            m.append(detail);
            AIError::NetworkError(m)
        },
        _ => AIError::NetworkError(String::from_str(detail)),
    }
}

/// The call that summarizes `transcript` under `config`. A transcript that
/// is empty or all whitespace is refused before anything is sent, then a
/// missing credential; otherwise the call is built from the one prompt.
pub fn plan_summary(config: &AIConfig, transcript: &str) -> (r: Result<SummaryCall, AIError>)
    ensures
        trim(transcript@).len() == 0 ==> r matches Err(AIError::NoTranscript),
        trim(transcript@).len() > 0 && lacks_key(*config) ==> r matches Err(AIError::NoApiKey),
        trim(transcript@).len() > 0 && !lacks_key(*config) ==> r is Ok,
        r matches Ok(c) ==> {
            let prompt = prompt_for(transcript@, config.summary_style, config.summary_language@);
            &&& c.model@ == config.model@
            &&& c.request.url@ == endpoint(c.backend, config.model@)
            &&& headers_view(c.request.headers@) == request_headers(c.backend)
            &&& c.request.body@ == request_body(c.backend, config.model@, prompt)
            &&& match config.provider {
                AIProvider::Gemini => c.backend matches Backend::Gemini { api_key }
                    && config.api_key is Some && api_key@ == (config.api_key->0)@,
                AIProvider::OpenAI => c.backend matches Backend::OpenAI { api_key }
                    && config.api_key is Some && api_key@ == (config.api_key->0)@,
                AIProvider::Ollama => c.backend matches Backend::Ollama { base_url }
                    && base_url@ == match config.ollama_url {
                    Some(u) => u@,
                    None => DEFAULT_OLLAMA_URL@,
                },
            }
        },
{
    let t = trim_str(transcript);
    if t.as_str().is_empty() {
        return Err(AIError::NoTranscript);
    }
    let backend = match select_backend(config) {
        Ok(b) => b,
        Err(e) => {
            return Err(e);
        },
    };
    let prompt = build_prompt(transcript, &config.summary_style, config.summary_language.as_str());
    let request = request_for(&backend, config.model.as_str(), prompt.as_str());
    Ok(SummaryCall { backend, model: String::from_str(config.model.as_str()), request })
}

/// Summaries are made only when the configuration enables them.
pub fn ensure_enabled(config: &AIConfig) -> (r: Result<(), String>)
    ensures
        config.enabled ==> r is Ok,
        !config.enabled ==> (r matches Err(m) && m@
            == "AI features are disabled. Enable them in Settings."@),
{
    if config.enabled {
        Ok(())
    } else {
        Err(String::from_str("AI features are disabled. Enable them in Settings."))
    }
}

/// The transcript sent to check that a backend answers.
pub const CONNECTION_PROBE: &'static str = "This is a test video about programming tutorials.";

/// The report of a successful connection check.
pub fn connection_message(result: &SummaryResult) -> (r: String)
    ensures
        r@ == "Connection successful! Using "@ + result.provider@ + " with model "@
            + result.model@,
{
    let mut s = String::from_str("Connection successful! Using ");
    s.append(result.provider.as_str());
    s.append(" with model ");
    s.append(result.model.as_str());
    s
}

} // verus!
