use erusert::models::EruModel;
use erusert::setup::{
    LanguageConfig, LanguageMode, Personalization, SetupAction, SetupEvent, SetupStage,
    SetupWizard, DECLINED_DANGEROUS_MODEL, DEFAULT_MODEL_INDEX, DEFAULT_NAME,
};

fn personalization() -> Personalization {
    Personalization {
        tone: "calm".to_string(),
        humor_level: "lanang".to_string(),
        formality: "casual".to_string(),
        custom_instructions: "be kind".to_string(),
    }
}

#[test]
fn language_config_from_mode() {
    let english = LanguageConfig::from_mode(LanguageMode::English);
    assert!(matches!(english.mode, LanguageMode::English));
    assert_eq!(english.dictionary_url, None);
    assert_eq!(english.wikipedia_url, None);

    let custom = LanguageConfig::from_mode(LanguageMode::Custom {
        dict_url: "https://dict.example".to_string(),
        wiki_url: "https://id.wikipedia.org".to_string(),
    });
    assert_eq!(custom.dictionary_url, Some("https://dict.example".to_string()));
    assert_eq!(custom.wikipedia_url, Some("https://id.wikipedia.org".to_string()));
}

#[test]
fn wizard_english_path_saves_config() {
    let (mut w, a) = SetupWizard::new();
    assert_eq!(a, SetupAction::AskDefaultLanguage { default_yes: true });
    assert_eq!(w.step(SetupEvent::Answer(true)), SetupAction::AskName);
    assert_eq!(DEFAULT_NAME, "Erusert");
    assert_eq!(w.step(SetupEvent::Text("TestEru".to_string())), SetupAction::Personalize);
    assert_eq!(w.config.erusert_name, "TestEru");
    assert_eq!(
        w.step(SetupEvent::Personalized(personalization())),
        SetupAction::ChooseModel { default_index: DEFAULT_MODEL_INDEX }
    );
    assert_eq!(DEFAULT_MODEL_INDEX, 1);
    assert_eq!(w.step(SetupEvent::Selected(1)), SetupAction::AskDownload { default_yes: true });
    assert_eq!(w.step(SetupEvent::Answer(true)), SetupAction::Download);
    assert_eq!(w.config.model, EruModel::Assistant);
    assert_eq!(w.step(SetupEvent::Done), SetupAction::Save);
    assert_eq!(w.step(SetupEvent::Done), SetupAction::Finish);
    assert_eq!(w.stage, SetupStage::Finished);
    let config = w.into_result().unwrap();
    assert_eq!(config.erusert_name, "TestEru");
    assert_eq!(config.personalization.humor_level, "lanang");
    assert!(matches!(config.model, EruModel::Assistant));
    assert!(matches!(config.language.mode, LanguageMode::English));
}

#[test]
fn wizard_custom_language_and_skipped_download() {
    let (mut w, _) = SetupWizard::new();
    assert_eq!(w.step(SetupEvent::Answer(false)), SetupAction::AskDictionaryUrl);
    assert_eq!(w.step(SetupEvent::Text("https://d.example".to_string())), SetupAction::AskWikipediaUrl);
    assert_eq!(w.step(SetupEvent::Text("https://w.example".to_string())), SetupAction::AskName);
    w.step(SetupEvent::Text("Eru".to_string()));
    w.step(SetupEvent::Personalized(personalization()));
    assert_eq!(w.step(SetupEvent::Selected(4)), SetupAction::AskDownload { default_yes: true });
    assert_eq!(w.step(SetupEvent::Answer(false)), SetupAction::Save);
    assert_eq!(w.step(SetupEvent::Done), SetupAction::Finish);
    let config = w.into_result().unwrap();
    assert_eq!(config.model, EruModel::AvlEru);
    assert_eq!(config.language.dictionary_url, Some("https://d.example".to_string()));
    assert_eq!(config.language.wikipedia_url, Some("https://w.example".to_string()));
    match config.language.mode {
        LanguageMode::Custom { dict_url, wiki_url } => {
            assert_eq!(dict_url, "https://d.example");
            assert_eq!(wiki_url, "https://w.example");
        }
        LanguageMode::English => panic!("expected a custom language"),
    }
}

#[test]
fn wizard_declined_dangerous_model_aborts() {
    let (mut w, _) = SetupWizard::new();
    w.step(SetupEvent::Answer(true));
    w.step(SetupEvent::Text("Eru".to_string()));
    w.step(SetupEvent::Personalized(personalization()));
    assert_eq!(
        w.step(SetupEvent::Selected(0)),
        SetupAction::ConfirmDangerous { default_yes: false }
    );
    assert_eq!(w.step(SetupEvent::Answer(false)), SetupAction::Finish);
    assert_eq!(
        w.into_result().err(),
        Some("User aborted dangerous model selection".to_string())
    );
    assert_eq!(DECLINED_DANGEROUS_MODEL, "User aborted dangerous model selection");
}

#[test]
fn wizard_confirmed_dangerous_model_is_kept() {
    let (mut w, _) = SetupWizard::new();
    w.step(SetupEvent::Answer(true));
    w.step(SetupEvent::Text("Eru".to_string()));
    w.step(SetupEvent::Personalized(personalization()));
    w.step(SetupEvent::Selected(0));
    assert_eq!(w.step(SetupEvent::Answer(true)), SetupAction::AskDownload { default_yes: true });
    w.step(SetupEvent::Answer(false));
    w.step(SetupEvent::Done);
    assert_eq!(w.into_result().unwrap().model, EruModel::FullStrium);
}

#[test]
fn wizard_failure_ends_with_message() {
    let (mut w, _) = SetupWizard::new();
    w.step(SetupEvent::Answer(true));
    assert_eq!(w.step(SetupEvent::Failed("io error".to_string())), SetupAction::Finish);
    // A finished wizard ignores further answers.
    assert_eq!(w.step(SetupEvent::Text("late".to_string())), SetupAction::Finish);
    assert_eq!(w.into_result().err(), Some("io error".to_string()));
}

#[test]
fn wizard_ignores_answers_that_do_not_fit() {
    let (mut w, _) = SetupWizard::new();
    assert_eq!(
        w.step(SetupEvent::Text("stray".to_string())),
        SetupAction::AskDefaultLanguage { default_yes: true }
    );
    assert_eq!(w.stage, SetupStage::AskLanguage);
    assert_eq!(w.step(SetupEvent::Done), SetupAction::AskDefaultLanguage { default_yes: true });
}

#[test]
fn save_failure_is_reported() {
    let (mut w, _) = SetupWizard::new();
    w.step(SetupEvent::Answer(true));
    w.step(SetupEvent::Text("Eru".to_string()));
    w.step(SetupEvent::Personalized(Personalization::default()));
    w.step(SetupEvent::Selected(2));
    w.step(SetupEvent::Answer(false));
    assert_eq!(w.step(SetupEvent::Failed("disk full".to_string())), SetupAction::Finish);
    assert_eq!(w.into_result().err(), Some("disk full".to_string()));
}
