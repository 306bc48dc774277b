use vstd::prelude::*;
use crate::models::EruModel;

verus! {

// ---------------------------------------------------------------------------
// The configuration
// ---------------------------------------------------------------------------

/// Everything the setup wizard decides, saved between sessions.
#[derive(Debug, Clone)]
pub struct ErusertConfig {
    pub language: LanguageConfig,
    pub erusert_name: String,
    pub personalization: Personalization,
    pub model: EruModel,
}

/// The language the companion works in, with the links a custom language
/// needs.
#[derive(Debug, Clone)]
pub struct LanguageConfig {
    pub mode: LanguageMode,
    pub dictionary_url: Option<String>,
    pub wikipedia_url: Option<String>,
}

/// English, or a custom language given by a dictionary and a Wikipedia link.
#[derive(Debug, Clone)]
pub enum LanguageMode {
    English,
    Custom { dict_url: String, wiki_url: String },
}

/// How the companion talks, as set in the personalisation editor.
#[derive(Debug, Clone)]
pub struct Personalization {
    pub tone: String,
    pub humor_level: String,
    pub formality: String,
    pub custom_instructions: String,
}

impl Default for Personalization {
    fn default() -> (r: Self)
        ensures
            r.tone@ == Seq::<char>::empty(),
            r.humor_level@ == Seq::<char>::empty(),
            r.formality@ == Seq::<char>::empty(),
            r.custom_instructions@ == Seq::<char>::empty(),
    {
        Personalization {
            tone: String::new(),
            humor_level: String::new(),
            formality: String::new(),
            custom_instructions: String::new(),
        }
    }
}

/// The language configuration for a mode: the links of a custom language are
/// repeated in `dictionary_url` and `wikipedia_url`; English has none.
pub open spec fn language_for(mode: LanguageMode) -> LanguageConfig {
    match mode {
        LanguageMode::English => LanguageConfig {
            mode: LanguageMode::English,
            dictionary_url: None,
            wikipedia_url: None,
        },
        LanguageMode::Custom { dict_url, wiki_url } => LanguageConfig {
            mode: LanguageMode::Custom { dict_url, wiki_url },
            dictionary_url: Some(dict_url),
            wikipedia_url: Some(wiki_url),
        },
    }
}

/// A language configuration whose links agree with its mode.
pub open spec fn language_consistent(c: LanguageConfig) -> bool {
    c == language_for(c.mode)
}

impl LanguageConfig {
    /// The configuration for a language mode.
    pub fn from_mode(mode: LanguageMode) -> (r: LanguageConfig)
        ensures
            r == language_for(mode),
            language_consistent(r),
    {
        match mode {
            LanguageMode::English => LanguageConfig {
                mode: LanguageMode::English,
                dictionary_url: None,
                wikipedia_url: None,
            },
            LanguageMode::Custom { dict_url, wiki_url } => {
                let d = dict_url.clone();
                let w = wiki_url.clone();
                LanguageConfig {
                    mode: LanguageMode::Custom { dict_url, wiki_url },
                    dictionary_url: Some(d),
                    wikipedia_url: Some(w),
                }
            },
        }
    }
}


// ---------------------------------------------------------------------------
// The setup wizard
// ---------------------------------------------------------------------------

/// The name offered when the user names the companion.
pub const DEFAULT_NAME: &'static str = "Erusert";

/// The error reported when the user declines the dangerous model.
pub const DECLINED_DANGEROUS_MODEL: &'static str = "User aborted dangerous model selection";

/// The models offered by the wizard, in menu order.
pub open spec fn model_menu() -> Seq<EruModel> {
    seq![
        EruModel::FullStrium,
        EruModel::Assistant,
        EruModel::TerminalEru,
        EruModel::Exathry,
        EruModel::AvlEru,
    ]
}

/// The menu position selected when the user just confirms.
pub const DEFAULT_MODEL_INDEX: usize = 1;

/// The models offered by the wizard, in menu order.
pub fn model_choices() -> (r: Vec<EruModel>)
    ensures
        r@ == model_menu(),
{
    let mut v = Vec::new();
    v.push(EruModel::FullStrium);
    v.push(EruModel::Assistant);
    v.push(EruModel::TerminalEru);
    v.push(EruModel::Exathry);
    v.push(EruModel::AvlEru);
    assert(v@ =~= model_menu());
    v
}

fn menu_model(i: usize) -> (r: EruModel)
    requires
        i < model_menu().len(),
    ensures
        r == model_menu()[i as int],
{
    match i {
        0 => EruModel::FullStrium,
        1 => EruModel::Assistant,
        2 => EruModel::TerminalEru,
        3 => EruModel::Exathry,
        _ => EruModel::AvlEru,
    }
}

/// Where the wizard stands: each stage waits for one answer.
#[derive(Debug, Clone, Copy, PartialEq, Eq, Structural)]
pub enum SetupStage {
    AskLanguage,
    AskDictionaryUrl,
    AskWikipediaUrl,
    AskName,
    Personalize,
    ChooseModel,
    ConfirmDangerous,
    AskDownload,
    Downloading,
    Saving,
    Finished,
}

/// What the wizard asks the caller to do next.
#[derive(Debug, Clone, Copy, PartialEq, Eq, Structural)]
pub enum SetupAction {
    /// Ask whether to use English, with this answer preselected.
    AskDefaultLanguage { default_yes: bool },
    /// Ask for the dictionary link of a custom language.
    AskDictionaryUrl,
    /// Ask for the Wikipedia link of a custom language.
    AskWikipediaUrl,
    /// Ask for the companion's name, offering `DEFAULT_NAME`.
    AskName,
    /// Run the personalisation editor for the chosen name.
    Personalize,
    /// Let the user pick from `model_choices`, with this position preselected.
    ChooseModel { default_index: usize },
    /// Ask whether the user really wants the dangerous model.
    ConfirmDangerous { default_yes: bool },
    /// Ask whether to download the model now.
    AskDownload { default_yes: bool },
    /// Download the chosen model.
    Download,
    /// Save the configuration.
    Save,
    /// The wizard is over; its result is ready.
    Finish,
}

/// What the caller reports back.
pub enum SetupEvent {
    /// A yes/no answer.
    Answer(bool),
    /// A line of text.
    Text(String),
    /// The personalisation editor's result.
    Personalized(Personalization),
    /// The menu position chosen.
    Selected(usize),
    /// The download or the save completed.
    Done,
    /// A prompt, the editor or the save failed with this message.
    Failed(String),
}

/// Why the wizard ended without a configuration.
pub enum SetupFailure {
    /// The user would not confirm the dangerous model.
    DeclinedDangerousModel,
    /// A step failed with this message.
    Interrupted(String),
}

/// The setup wizard: the configuration as answered so far, the stage it
/// waits in and, once it has ended in failure, why.
pub struct SetupWizard {
    pub stage: SetupStage,
    pub dict_url: String,
    pub config: ErusertConfig,
    pub failure: Option<SetupFailure>,
}

/// The request that waits for the answer of a stage.
pub open spec fn action_for(stage: SetupStage) -> SetupAction {
    match stage {
        SetupStage::AskLanguage => SetupAction::AskDefaultLanguage { default_yes: true },
        SetupStage::AskDictionaryUrl => SetupAction::AskDictionaryUrl,
        SetupStage::AskWikipediaUrl => SetupAction::AskWikipediaUrl,
        SetupStage::AskName => SetupAction::AskName,
        SetupStage::Personalize => SetupAction::Personalize,
        SetupStage::ChooseModel => SetupAction::ChooseModel { default_index: DEFAULT_MODEL_INDEX },
        SetupStage::ConfirmDangerous => SetupAction::ConfirmDangerous { default_yes: false },
        SetupStage::AskDownload => SetupAction::AskDownload { default_yes: true },
        SetupStage::Downloading => SetupAction::Download,
        SetupStage::Saving => SetupAction::Save,
        SetupStage::Finished => SetupAction::Finish,
    }
}

/// The wizard after one answer. An answer that does not fit the stage leaves
/// the wizard as it is; a failure ends any stage that is not over.
pub open spec fn next_state(w: SetupWizard, ev: SetupEvent) -> SetupWizard {
    match (w.stage, ev) {
        (SetupStage::Finished, _) => w,
        (_, SetupEvent::Failed(msg)) => SetupWizard {
            stage: SetupStage::Finished,
            failure: Some(SetupFailure::Interrupted(msg)),
            ..w
        },
        (SetupStage::AskLanguage, SetupEvent::Answer(english)) => if english {
            SetupWizard {
                stage: SetupStage::AskName,
                config: ErusertConfig { language: language_for(LanguageMode::English), ..w.config },
                ..w
            }
        } else {
            SetupWizard { stage: SetupStage::AskDictionaryUrl, ..w }
        },
        (SetupStage::AskDictionaryUrl, SetupEvent::Text(url)) => SetupWizard {
            stage: SetupStage::AskWikipediaUrl,
            dict_url: url,
            ..w
        },
        (SetupStage::AskWikipediaUrl, SetupEvent::Text(url)) => SetupWizard {
            stage: SetupStage::AskName,
            config: ErusertConfig {
                language: language_for(LanguageMode::Custom { dict_url: w.dict_url, wiki_url: url }),
                ..w.config
            },
            ..w
        },
        (SetupStage::AskName, SetupEvent::Text(name)) => SetupWizard {
            stage: SetupStage::Personalize,
            config: ErusertConfig { erusert_name: name, ..w.config },
            ..w
        },
        (SetupStage::Personalize, SetupEvent::Personalized(p)) => SetupWizard {
            stage: SetupStage::ChooseModel,
            config: ErusertConfig { personalization: p, ..w.config },
            ..w
        },
        (SetupStage::ChooseModel, SetupEvent::Selected(i)) => if i < model_menu().len() {
            let m = model_menu()[i as int];
            SetupWizard {
                stage: if m == EruModel::FullStrium {
                    SetupStage::ConfirmDangerous
                } else {
                    SetupStage::AskDownload
                },
                config: ErusertConfig { model: m, ..w.config },
                ..w
            }
        } else {
            w
        },
        (SetupStage::ConfirmDangerous, SetupEvent::Answer(sure)) => if sure {
            SetupWizard { stage: SetupStage::AskDownload, ..w }
        } else {
            SetupWizard {
                stage: SetupStage::Finished,
                failure: Some(SetupFailure::DeclinedDangerousModel),
                ..w
            }
        },
        (SetupStage::AskDownload, SetupEvent::Answer(now)) => SetupWizard {
            stage: if now {
                SetupStage::Downloading
            } else {
                SetupStage::Saving
            },
            ..w
        },
        (SetupStage::Downloading, SetupEvent::Done) => SetupWizard { stage: SetupStage::Saving, ..w },
        (SetupStage::Saving, SetupEvent::Done) => SetupWizard { stage: SetupStage::Finished, ..w },
        _ => w,
    }
}

/// The wizard after a sequence of answers.
pub open spec fn run(w: SetupWizard, evs: Seq<SetupEvent>) -> SetupWizard
    decreases evs.len(),
{
    if evs.len() == 0 {
        w
    } else {
        next_state(run(w, evs.drop_last()), evs.last())
    }
}

/// An answer the wizard can take in its stage: a menu position lies in the
/// menu.
pub open spec fn answer_fits(w: SetupWizard, ev: SetupEvent) -> bool {
    (w.stage == SetupStage::ChooseModel && ev is Selected) ==> ev->Selected_0 < model_menu().len()
}

impl SetupWizard {
    /// The wizard's invariant: the language links agree with the language
    /// mode, and a failure has ended the wizard.
    pub open spec fn wf(self) -> bool {
        &&& language_consistent(self.config.language)
        &&& self.failure is Some ==> self.stage == SetupStage::Finished
    }

    /// A new wizard, which first asks about the language.
    pub fn new() -> (r: (SetupWizard, SetupAction))
        ensures
            r.0.wf(),
            r.0.stage == SetupStage::AskLanguage,
            r.0.failure is None,
            r.1 == action_for(r.0.stage),
    {
        let config = ErusertConfig {
            language: LanguageConfig::from_mode(LanguageMode::English),
            erusert_name: String::new(),
            personalization: Personalization::default(),
            model: EruModel::Assistant,
        };
        let w = SetupWizard {
            stage: SetupStage::AskLanguage,
            dict_url: String::new(),
            config,
            failure: None,
        };
        (w, SetupAction::AskDefaultLanguage { default_yes: true })
    }

    /// Takes one answer and tells what to do next.
    pub fn step(&mut self, event: SetupEvent) -> (action: SetupAction)
        requires
            old(self).wf(),
            answer_fits(*old(self), event),
        ensures
            *final(self) == next_state(*old(self), event),
            final(self).wf(),
            action == action_for(final(self).stage),
    {
        let stage = self.stage;
        match stage {
            SetupStage::Finished => {
                return SetupAction::Finish;
            },
            _ => {},
        }
        match event {
            SetupEvent::Failed(msg) => {
                self.stage = SetupStage::Finished;
                self.failure = Some(SetupFailure::Interrupted(msg));
            },
            SetupEvent::Answer(yes) => {
                match stage {
                    SetupStage::AskLanguage => {
                        if yes {
                            self.config.language = LanguageConfig::from_mode(LanguageMode::English);
                            self.stage = SetupStage::AskName;
                        } else {
                            self.stage = SetupStage::AskDictionaryUrl;
                        }
                    },
                    SetupStage::ConfirmDangerous => {
                        if yes {
                            self.stage = SetupStage::AskDownload;
                        } else {
                            self.stage = SetupStage::Finished;
                            self.failure = Some(SetupFailure::DeclinedDangerousModel);
                        }
                    },
                    SetupStage::AskDownload => {
                        if yes {
                            self.stage = SetupStage::Downloading;
                        } else {
                            self.stage = SetupStage::Saving;
                        }
                    },
                    _ => {},
                }
            },
            SetupEvent::Text(text) => {
                match stage {
                    SetupStage::AskDictionaryUrl => {
                        self.dict_url = text;
                        self.stage = SetupStage::AskWikipediaUrl;
                    },
                    SetupStage::AskWikipediaUrl => {
                        let dict = self.dict_url.clone();
                        self.config.language = LanguageConfig::from_mode(
                            LanguageMode::Custom { dict_url: dict, wiki_url: text },
                        );
                        self.stage = SetupStage::AskName;
                    },
                    SetupStage::AskName => {
                        self.config.erusert_name = text;
                        self.stage = SetupStage::Personalize;
                    },
                    _ => {},
                }
            },
            SetupEvent::Personalized(p) => {
                match stage {
                    SetupStage::Personalize => {
                        self.config.personalization = p;
                        self.stage = SetupStage::ChooseModel;
                    },
                    _ => {},
                }
            },
            SetupEvent::Selected(i) => {
                match stage {
                    SetupStage::ChooseModel => {
                        let m = menu_model(i);
                        self.config.model = m;
                        if m.is_dangerous() {
                            self.stage = SetupStage::ConfirmDangerous;
                        } else {
                            self.stage = SetupStage::AskDownload;
                        }
                    },
                    _ => {},
                }
            },
            SetupEvent::Done => {
                match stage {
                    SetupStage::Downloading => {
                        self.stage = SetupStage::Saving;
                    },
                    SetupStage::Saving => {
                        self.stage = SetupStage::Finished;
                    },
                    _ => {},
                }
            },
        }
        Self::action_of(self.stage)
    }

    /// The request that waits for the answer of a stage.
    pub fn action_of(stage: SetupStage) -> (r: SetupAction)
        ensures
            r == action_for(stage),
    {
        match stage {
            SetupStage::AskLanguage => SetupAction::AskDefaultLanguage { default_yes: true },
            SetupStage::AskDictionaryUrl => SetupAction::AskDictionaryUrl,
            SetupStage::AskWikipediaUrl => SetupAction::AskWikipediaUrl,
            SetupStage::AskName => SetupAction::AskName,
            SetupStage::Personalize => SetupAction::Personalize,
            SetupStage::ChooseModel => SetupAction::ChooseModel { default_index: DEFAULT_MODEL_INDEX },
            SetupStage::ConfirmDangerous => SetupAction::ConfirmDangerous { default_yes: false },
            SetupStage::AskDownload => SetupAction::AskDownload { default_yes: true },
            SetupStage::Downloading => SetupAction::Download,
            SetupStage::Saving => SetupAction::Save,
            SetupStage::Finished => SetupAction::Finish,
        }
    }

    /// The outcome of a finished wizard: the configuration, or why there is
    /// none.
    pub fn into_result(self) -> (r: Result<ErusertConfig, String>)
        requires
            self.stage == SetupStage::Finished,
        ensures
            match self.failure {
                None => r == Ok::<ErusertConfig, String>(self.config),
                Some(SetupFailure::DeclinedDangerousModel) => r is Err && r->Err_0@
                    == DECLINED_DANGEROUS_MODEL@,
                Some(SetupFailure::Interrupted(msg)) => r == Err::<ErusertConfig, String>(msg),
            },
    {
        match self.failure {
            None => Ok(self.config),
            Some(SetupFailure::DeclinedDangerousModel) => Err(
                String::from_str(DECLINED_DANGEROUS_MODEL),
            ),
            Some(SetupFailure::Interrupted(msg)) => Err(msg),
        }
    }
}


// ---------------------------------------------------------------------------
// Laws of the wizard
// ---------------------------------------------------------------------------

/// Every answer keeps the wizard's invariant.
pub proof fn law_answer_keeps_wf(w: SetupWizard, ev: SetupEvent)
    requires
        w.wf(),
    ensures
        next_state(w, ev).wf(),
{
}

/// Every sequence of answers keeps the wizard's invariant; in particular the
/// language links of the configuration agree with its language mode.
pub proof fn law_run_keeps_wf(w: SetupWizard, evs: Seq<SetupEvent>)
    requires
        w.wf(),
    ensures
        run(w, evs).wf(),
        language_consistent(run(w, evs).config.language),
    decreases evs.len(),
{
    if evs.len() > 0 {
        law_run_keeps_wf(w, evs.drop_last());
        law_answer_keeps_wf(run(w, evs.drop_last()), evs.last());
    }
}

/// A finished wizard ignores every further answer.
pub proof fn law_finished_is_final(w: SetupWizard, ev: SetupEvent)
    requires
        w.stage == SetupStage::Finished,
    ensures
        next_state(w, ev) == w,
{
}

/// A failure ends any wizard that is not over, with that message.
pub proof fn law_failure_ends_wizard(w: SetupWizard, msg: String)
    requires
        w.stage != SetupStage::Finished,
    ensures
        next_state(w, SetupEvent::Failed(msg)).stage == SetupStage::Finished,
        next_state(w, SetupEvent::Failed(msg)).failure == Some(SetupFailure::Interrupted(msg)),
        next_state(w, SetupEvent::Failed(msg)).config == w.config,
{
}

/// The wizard only reports success once the configuration has been saved:
/// the one step into a successful end is a completed save.
pub proof fn law_success_follows_save(w: SetupWizard, ev: SetupEvent)
    requires
        w.stage != SetupStage::Finished,
        next_state(w, ev).stage == SetupStage::Finished,
        next_state(w, ev).failure is None,
    ensures
        w.stage == SetupStage::Saving,
        ev == SetupEvent::Done,
{
}

/// Declining the dangerous model ends the wizard without a configuration.
pub proof fn law_declining_dangerous_model_aborts(w: SetupWizard)
    requires
        w.stage == SetupStage::ConfirmDangerous,
    ensures
        next_state(w, SetupEvent::Answer(false)).stage == SetupStage::Finished,
        next_state(w, SetupEvent::Answer(false)).failure == Some(
            SetupFailure::DeclinedDangerousModel,
        ),
{
}

/// The wizard holds the dangerous model past its confirmation question, or
/// has ended successfully with it.
pub open spec fn committed_to_dangerous(w: SetupWizard) -> bool {
    &&& w.config.model == EruModel::FullStrium
    &&& {
        ||| w.stage == SetupStage::AskDownload
        ||| w.stage == SetupStage::Downloading
        ||| w.stage == SetupStage::Saving
        ||| (w.stage == SetupStage::Finished && w.failure is None)
    }
}

/// The `i`-th answer was a yes to the dangerous-model question.
pub open spec fn confirmed_dangerous_at(w0: SetupWizard, evs: Seq<SetupEvent>, i: int) -> bool {
    &&& 0 <= i < evs.len()
    &&& run(w0, evs.take(i)).stage == SetupStage::ConfirmDangerous
    &&& evs[i] == SetupEvent::Answer(true)
}

/// The dangerous model is only kept, downloaded, saved or returned after the
/// user has said yes to the question whether they are sure.
pub proof fn law_dangerous_model_needs_confirmation(w0: SetupWizard, evs: Seq<SetupEvent>)
    requires
        w0.stage == SetupStage::AskLanguage,
        committed_to_dangerous(run(w0, evs)),
    ensures
        exists|i: int| confirmed_dangerous_at(w0, evs, i),
    decreases evs.len(),
{
    if evs.len() > 0 {
        let p = evs.drop_last();
        let e = evs.last();
        let pre = run(w0, p);
        if committed_to_dangerous(pre) {
            law_dangerous_model_needs_confirmation(w0, p);
            let i = choose|i: int| confirmed_dangerous_at(w0, p, i);
            assert(evs.take(i) =~= p.take(i));
            assert(confirmed_dangerous_at(w0, evs, i));
        } else {
            assert(pre.stage == SetupStage::ConfirmDangerous);
            assert(evs.take(p.len() as int) =~= p);
            assert(confirmed_dangerous_at(w0, evs, p.len() as int));
        }
    }
}

/// Choosing from the menu keeps the chosen model; only the dangerous model
/// leads to the confirmation question, every other model straight to the
/// download question.
pub proof fn law_only_dangerous_choice_is_questioned(w: SetupWizard, i: usize)
    requires
        w.stage == SetupStage::ChooseModel,
        i < model_menu().len(),
    ensures
        next_state(w, SetupEvent::Selected(i)).config.model == model_menu()[i as int],
        next_state(w, SetupEvent::Selected(i)).stage == SetupStage::ConfirmDangerous
            <==> model_menu()[i as int] == EruModel::FullStrium,
        model_menu()[i as int] != EruModel::FullStrium ==> next_state(
            w,
            SetupEvent::Selected(i),
        ).stage == SetupStage::AskDownload,
{
}

/// The menu lists the models in the order of their letters, `A` to `E`.
pub proof fn law_menu_follows_letters(i: int)
    requires
        0 <= i < model_menu().len(),
    ensures
        crate::models::menu_letter(model_menu()[i]) as u32 == 'A' as u32 + i,
{
}

/// Whenever the wizard asks whether the user is sure, the model in question
/// is the dangerous one.
pub proof fn law_confirmation_only_for_dangerous_model(w0: SetupWizard, evs: Seq<SetupEvent>)
    requires
        w0.stage == SetupStage::AskLanguage,
    ensures
        run(w0, evs).stage == SetupStage::ConfirmDangerous ==> run(w0, evs).config.model
            == EruModel::FullStrium,
    decreases evs.len(),
{
    if evs.len() > 0 {
        law_confirmation_only_for_dangerous_model(w0, evs.drop_last());
    }
}

/// Answering the language question: yes chooses English, with no links, and
/// moves on to the name; no asks for the dictionary link.
pub proof fn law_language_answer(w: SetupWizard, english: bool)
    requires
        w.stage == SetupStage::AskLanguage,
    ensures
        english ==> next_state(w, SetupEvent::Answer(english)).config.language.mode is English
            && next_state(w, SetupEvent::Answer(english)).config.language.dictionary_url is None
            && next_state(w, SetupEvent::Answer(english)).config.language.wikipedia_url is None
            && next_state(w, SetupEvent::Answer(english)).stage == SetupStage::AskName,
        !english ==> next_state(w, SetupEvent::Answer(english)).stage == SetupStage::AskDictionaryUrl,
{
}

/// The two links given for a custom language become the language's
/// dictionary and Wikipedia links, in that order.
pub proof fn law_custom_language_links(w: SetupWizard, dict: String, wiki: String)
    requires
        w.stage == SetupStage::AskDictionaryUrl,
    ensures
        ({
            let w1 = next_state(w, SetupEvent::Text(dict));
            let w2 = next_state(w1, SetupEvent::Text(wiki));
            &&& w1.stage == SetupStage::AskWikipediaUrl
            &&& w2.stage == SetupStage::AskName
            &&& w2.config.language.dictionary_url == Some(dict)
            &&& w2.config.language.wikipedia_url == Some(wiki)
            &&& w2.config.language.mode == (LanguageMode::Custom { dict_url: dict, wiki_url: wiki })
        }),
{
}

/// The name and the personalisation given are the ones kept.
pub proof fn law_answers_are_kept(w: SetupWizard, name: String, p: Personalization)
    ensures
        w.stage == SetupStage::AskName ==> next_state(w, SetupEvent::Text(name)).config.erusert_name
            == name && next_state(w, SetupEvent::Text(name)).stage == SetupStage::Personalize,
        w.stage == SetupStage::Personalize ==> next_state(
            w,
            SetupEvent::Personalized(p),
        ).config.personalization == p && next_state(w, SetupEvent::Personalized(p)).stage
            == SetupStage::ChooseModel,
{
}

/// The download question: yes downloads before saving, no saves at once;
/// neither changes the configuration.
pub proof fn law_download_answer(w: SetupWizard, now: bool)
    requires
        w.stage == SetupStage::AskDownload,
    ensures
        next_state(w, SetupEvent::Answer(now)).stage == if now {
            SetupStage::Downloading
        } else {
            SetupStage::Saving
        },
        next_state(w, SetupEvent::Answer(now)).config == w.config,
{
}

} // verus!
