use youwee::catalog::{get_ai_models, get_summary_languages, models_for};

#[test]
fn models_by_backend_name_in_any_case() {
    let g = get_ai_models("GeMiNi".to_string());
    assert_eq!(g.len(), 6);
    assert_eq!(g[2].value, "gemini-2.0-flash");
    assert_eq!(g[2].label, "Gemini 2.0 Flash");
    let o = get_ai_models("OPENAI".to_string());
    assert_eq!(o.len(), 7);
    assert_eq!(o[6].label, "o1 (Reasoning)");
    let l = get_ai_models("ollama".to_string());
    assert_eq!(l.len(), 10);
    assert_eq!(l[9].value, "deepseek-r1");
    assert!(get_ai_models("other".to_string()).is_empty());
    assert!(models_for("Gemini").is_empty());
}

#[test]
fn summary_languages() {
    let l = get_summary_languages();
    assert_eq!(l.len(), 11);
    assert_eq!(l[0].value, "auto");
    assert_eq!(l[0].label, "Auto (Same as video)");
    assert_eq!(l[10].label, "Russian");
}
