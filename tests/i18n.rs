use kairos_auth::common::Language;
use kairos_auth::i18n::{
    get_default_language, get_language_translations, get_translation, language_code, language_from_tag,
    language_name, use_translation, Translations,
};

#[test]
fn test_language_codes() {
    assert_eq!(Language::Spanish.code(), "es");
    assert_eq!(Language::Portuguese.code(), "pt");
    assert_eq!(Language::English.code(), "en");
}

#[test]
fn test_translations() {
    assert_eq!(
        get_translation(Language::Spanish, "app.title"),
        "Kairos - Trazabilidad Agrícola"
    );
    assert_eq!(
        get_translation(Language::Portuguese, "app.title"),
        "Kairos - Rastreabilidade Agrícola"
    );
    assert_eq!(
        get_translation(Language::English, "app.title"),
        "Kairos - Agricultural Traceability"
    );
}

#[test]
fn translation_falls_back_to_english_then_key() {
    assert_eq!(get_translation(Language::French, "auth.login"), "Login");
    assert_eq!(get_translation(Language::Spanish, "no.such.key"), "no.such.key");
    assert_eq!(get_translation(Language::Portuguese, "auth.password"), "Senha");
}

#[test]
fn language_tables_exist_for_three_languages() {
    let es = get_language_translations(Language::Spanish).unwrap();
    assert_eq!(es.language, Language::Spanish);
    assert_eq!(es.get("lots.create"), Some("Crear Lote"));
    assert_eq!(es.messages.len(), 15);
    assert!(get_language_translations(Language::German).is_none());
    assert!(get_language_translations(Language::English).is_some());
}

#[test]
fn translations_latest_entry_wins() {
    let mut t = Translations::new(Language::Korean);
    assert_eq!(t.get("a"), None);
    t.add("a", "first");
    t.add("b", "other");
    assert_eq!(t.get("a"), Some("first"));
    t.add("a", "second");
    assert_eq!(t.get("a"), Some("second"));
    assert_eq!(t.get("b"), Some("other"));
}

#[test]
fn language_codes_and_names() {
    assert_eq!(language_code(&Language::Chinese), "zh");
    assert_eq!(language_code(&Language::Korean), "ko");
    assert_eq!(language_name(&Language::Spanish), "Español");
    assert_eq!(language_name(&Language::Japanese), "日本語");
    assert_eq!(Language::German.to_str(), "de");
}

#[test]
fn language_code_round_trip() {
    let all = [
        Language::English,
        Language::Spanish,
        Language::Portuguese,
        Language::French,
        Language::German,
        Language::Italian,
        Language::Russian,
        Language::Chinese,
        Language::Japanese,
        Language::Korean,
    ];
    for l in all {
        assert_eq!(Language::from_code(l.to_str()), Some(l));
        assert_eq!(l.to_str().parse::<Language>(), Ok(l));
    }
    assert_eq!(Language::from_code("xx"), None);
    assert_eq!(Language::from_code("esp"), None);
    assert_eq!(Language::default(), Language::Spanish);
}

#[test]
fn default_language_prefers_saved_choice() {
    let tags = vec!["en-US".to_string()];
    assert_eq!(get_default_language(Some("pt"), &tags), Language::Portuguese);
    assert_eq!(get_default_language(Some("de"), &tags), Language::German);
}

#[test]
fn default_language_from_browser_tags() {
    let tags = vec!["fr-FR".to_string(), "ES-es".to_string(), "en".to_string()];
    assert_eq!(get_default_language(None, &tags), Language::Spanish);
    let upper = vec!["EN-GB".to_string()];
    assert_eq!(get_default_language(Some("xx"), &upper), Language::English);
    let pt = vec!["pt-BR".to_string()];
    assert_eq!(get_default_language(None, &pt), Language::Portuguese);
}

#[test]
fn default_language_falls_back_to_spanish() {
    assert_eq!(get_default_language(None, &Vec::new()), Language::Spanish);
    let tags = vec!["fr".to_string(), "d".to_string()];
    assert_eq!(get_default_language(Some("zz"), &tags), Language::Spanish);
}

#[test]
fn language_tags() {
    assert_eq!(language_from_tag("es-mx"), Some(Language::Spanish));
    assert_eq!(language_from_tag("en"), Some(Language::English));
    assert_eq!(language_from_tag("e"), None);
    assert_eq!(language_from_tag("EN"), None);
}

#[test]
fn short_texts() {
    assert_eq!(use_translation(Language::French, "app.title"), "Kairos");
    assert_eq!(use_translation(Language::Spanish, "app.welcome"), "Bienvenido");
    assert_eq!(use_translation(Language::Portuguese, "app.welcome"), "Bem-vindo");
    assert_eq!(use_translation(Language::English, "app.welcome"), "Welcome");
    assert_eq!(use_translation(Language::Korean, "app.welcome"), "Welcome");
    assert_eq!(use_translation(Language::Spanish, "lots.list"), "lots.list");
}
