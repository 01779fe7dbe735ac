//! Delegation settings of a session.
//!
//! Each session can set the model, the provider, the timeout and the models it may use for
//! delegated tasks. What it leaves open is taken from the `[delegate]` section of the
//! configuration file.

use vstd::hash_map::StringHashMap;
use vstd::prelude::*;

use crate::config::{DelegateConfig, DelegateConfigView};
use crate::text::{join, same_text};

verus! {

/// Delegation settings of one session.
#[derive(Debug, PartialEq)]
pub struct DelegateSessionConfig {
    /// The model for delegated tasks; `None` leaves it to the file.
    pub delegate_model: Option<String>,
    /// The provider of that model; `None` leaves it to the file.
    pub delegate_provider: Option<String>,
    /// The timeout in minutes; `None` leaves it to the file.
    pub timeout_minutes: Option<u32>,
    /// Whether delegation is on; `None` leaves it to the file.
    pub enabled: Option<bool>,
    /// The models that tasks may be delegated to; `None` leaves them to the file. An empty list
    /// places no restriction.
    pub allowed_models: Option<Vec<String>>,
}

/// The contents of a [`DelegateSessionConfig`].
pub struct DelegateSessionConfigView {
    pub delegate_model: Option<Seq<char>>,
    pub delegate_provider: Option<Seq<char>>,
    pub timeout_minutes: Option<u32>,
    pub enabled: Option<bool>,
    pub allowed_models: Option<Seq<Seq<char>>>,
}

impl View for DelegateSessionConfig {
    type V = DelegateSessionConfigView;

    open spec fn view(&self) -> DelegateSessionConfigView {
        DelegateSessionConfigView {
            delegate_model: self.delegate_model.deep_view(),
            delegate_provider: self.delegate_provider.deep_view(),
            timeout_minutes: self.timeout_minutes,
            enabled: self.enabled,
            allowed_models: self.allowed_models.deep_view(),
        }
    }
}

impl DeepView for DelegateSessionConfig {
    type V = DelegateSessionConfigView;

    open spec fn deep_view(&self) -> DelegateSessionConfigView {
        self@
    }
}

impl Clone for DelegateSessionConfig {
    fn clone(&self) -> (copy: Self)
        ensures
            copy@ == self@,
    {
        DelegateSessionConfig {
            delegate_model: self.delegate_model.clone(),
            delegate_provider: self.delegate_provider.clone(),
            timeout_minutes: self.timeout_minutes,
            enabled: self.enabled,
            allowed_models: self.allowed_models.clone(),
        }
    }
}

/// The settings of a session that leaves everything to the file.
pub open spec fn unset() -> DelegateSessionConfigView {
    DelegateSessionConfigView {
        delegate_model: None,
        delegate_provider: None,
        timeout_minutes: None,
        enabled: None,
        allowed_models: None,
    }
}

impl Default for DelegateSessionConfig {
    /// Everything is left to the file.
    fn default() -> (config: Self)
        ensures
            config@ == unset(),
    {
        DelegateSessionConfig {
            delegate_model: None,
            delegate_provider: None,
            timeout_minutes: None,
            enabled: None,
            allowed_models: None,
        }
    }
}

/// The delegation settings of all sessions that have any, by session id.
pub struct SessionDelegateConfigs {
    configs: StringHashMap<DelegateSessionConfig>,
}

impl View for SessionDelegateConfigs {
    type V = Map<Seq<char>, DelegateSessionConfigView>;

    closed spec fn view(&self) -> Map<Seq<char>, DelegateSessionConfigView> {
        self.configs@.map_values(|config: DelegateSessionConfig| config@)
    }
}

impl SessionDelegateConfigs {
    /// No session has settings.
    pub fn new() -> (configs: Self)
        ensures
            configs@ == Map::<Seq<char>, DelegateSessionConfigView>::empty(),
    {
        let configs = SessionDelegateConfigs { configs: StringHashMap::new() };
        assert(configs@ =~= Map::empty());
        configs
    }
}

/// The settings of the given session, if it has any.
pub open spec fn settings_of(
    configs: Map<Seq<char>, DelegateSessionConfigView>,
    session_id: Seq<char>,
) -> Option<DelegateSessionConfigView> {
    if configs.contains_key(session_id) {
        Some(configs[session_id])
    } else {
        None
    }
}

/// The settings of all sessions once those of one are recorded or, with `None`, cleared.
pub open spec fn recorded(
    configs: Map<Seq<char>, DelegateSessionConfigView>,
    session_id: Seq<char>,
    config: Option<DelegateSessionConfigView>,
) -> Map<Seq<char>, DelegateSessionConfigView> {
    match config {
        Some(config) => configs.insert(session_id, config),
        None => configs.remove(session_id),
    }
}

/// Record a session's delegation settings as a whole, or clear them with `None`. A field that is
/// `None` is left to the file.
pub fn record_session_delegate_config(
    configs: &mut SessionDelegateConfigs,
    session_id: &str,
    config: Option<DelegateSessionConfig>,
)
    ensures
        final(configs)@ == recorded(old(configs)@, session_id@, config.deep_view()),
{
    match config {
        Some(config) => {
            let ghost now = config@;
            configs.configs.insert(session_id.to_owned(), config);
            assert(configs@ =~= old(configs)@.insert(session_id@, now));
        },
        None => {
            configs.configs.remove(session_id);
            assert(configs@ =~= old(configs)@.remove(session_id@));
        },
    }
}

/// The field after an update: a value that is given replaces the one before, `None` keeps it.
pub open spec fn updated<T>(before: Option<T>, update: Option<Option<T>>) -> Option<T> {
    match update {
        Some(value) => value,
        None => before,
    }
}

/// The settings after an update, field by field.
pub open spec fn updated_settings(
    before: Option<DelegateSessionConfigView>,
    delegate_model: Option<Option<Seq<char>>>,
    delegate_provider: Option<Option<Seq<char>>>,
    timeout_minutes: Option<Option<u32>>,
    enabled: Option<Option<bool>>,
    allowed_models: Option<Option<Seq<Seq<char>>>>,
) -> DelegateSessionConfigView {
    let base = match before {
        Some(config) => config,
        None => unset(),
    };
    DelegateSessionConfigView {
        delegate_model: updated(base.delegate_model, delegate_model),
        delegate_provider: updated(base.delegate_provider, delegate_provider),
        timeout_minutes: updated(base.timeout_minutes, timeout_minutes),
        enabled: updated(base.enabled, enabled),
        allowed_models: updated(base.allowed_models, allowed_models),
    }
}

/// Update specific fields of a session's delegation settings. A field that is `None` keeps its
/// value; a field that is `Some(None)` is left to the file from now on.
pub fn update_session_delegate_config(
    configs: &mut SessionDelegateConfigs,
    session_id: &str,
    delegate_model: Option<Option<String>>,
    delegate_provider: Option<Option<String>>,
    timeout_minutes: Option<Option<u32>>,
    enabled: Option<Option<bool>>,
    allowed_models: Option<Option<Vec<String>>>,
)
    ensures
        final(configs)@ == old(configs)@.insert(
            session_id@,
            updated_settings(
                settings_of(old(configs)@, session_id@),
                delegate_model.deep_view(),
                delegate_provider.deep_view(),
                timeout_minutes,
                enabled,
                allowed_models.deep_view(),
            ),
        ),
{
    let mut config = match session_delegate_config(configs, session_id) {
        Some(config) => config,
        None => DelegateSessionConfig::default(),
    };
    if let Some(model) = delegate_model {
        config.delegate_model = model;
    }
    if let Some(provider) = delegate_provider {
        config.delegate_provider = provider;
    }
    if let Some(timeout) = timeout_minutes {
        config.timeout_minutes = timeout;
    }
    if let Some(flag) = enabled {
        config.enabled = flag;
    }
    if let Some(models) = allowed_models {
        config.allowed_models = models;
    }
    let ghost now = config@;
    configs.configs.insert(session_id.to_owned(), config);
    assert(configs@ =~= old(configs)@.insert(session_id@, now));
}

/// Look up a session's delegation settings, if any.
pub fn session_delegate_config(configs: &SessionDelegateConfigs, session_id: &str) -> (config:
    Option<DelegateSessionConfig>)
    ensures
        config.deep_view() == settings_of(configs@, session_id@),
{
    match configs.configs.get(session_id) {
        Some(config) => Some(config.clone()),
        None => None,
    }
}

/// Drop a session's settings entirely, at the end of the session.
pub fn forget_session_delegate_config(configs: &mut SessionDelegateConfigs, session_id: &str)
    ensures
        final(configs)@ == old(configs)@.remove(session_id@),
{
    configs.configs.remove(session_id);
    assert(configs@ =~= old(configs)@.remove(session_id@));
}

/// What the session settings say, else what the file says.
pub open spec fn own_or<T>(own: Option<T>, file: T) -> T {
    match own {
        Some(value) => value,
        None => file,
    }
}

/// The settings of a session, with nothing set if it has none.
pub open spec fn own_settings(
    configs: Map<Seq<char>, DelegateSessionConfigView>,
    session_id: Seq<char>,
) -> DelegateSessionConfigView {
    own_or(settings_of(configs, session_id), unset())
}

/// The delegate model in force for a session: its own, else the file's, if there is one.
pub open spec fn model_for(
    configs: Map<Seq<char>, DelegateSessionConfigView>,
    file: DelegateConfigView,
    session_id: Seq<char>,
) -> Option<Seq<char>> {
    match own_settings(configs, session_id).delegate_model {
        Some(model) => Some(model),
        None => file.delegate_model,
    }
}

/// The delegate provider in force for a session: its own, else the file's, if there is one.
pub open spec fn provider_for(
    configs: Map<Seq<char>, DelegateSessionConfigView>,
    file: DelegateConfigView,
    session_id: Seq<char>,
) -> Option<Seq<char>> {
    match own_settings(configs, session_id).delegate_provider {
        Some(provider) => Some(provider),
        None => file.delegate_provider,
    }
}

/// The timeout in force for a session, in minutes.
pub open spec fn timeout_for(
    configs: Map<Seq<char>, DelegateSessionConfigView>,
    file: DelegateConfigView,
    session_id: Seq<char>,
) -> u32 {
    own_or(own_settings(configs, session_id).timeout_minutes, file.timeout_minutes)
}

/// The list of allowed models in force for a session.
pub open spec fn allowed_for(
    configs: Map<Seq<char>, DelegateSessionConfigView>,
    file: DelegateConfigView,
    session_id: Seq<char>,
) -> Seq<Seq<char>> {
    own_or(own_settings(configs, session_id).allowed_models, file.allowed_models)
}

/// Whether delegation is on for a session.
pub open spec fn enabled_for(
    configs: Map<Seq<char>, DelegateSessionConfigView>,
    file: DelegateConfigView,
    session_id: Seq<char>,
) -> bool {
    own_or(own_settings(configs, session_id).enabled, file.enabled)
}

/// Resolve the delegate model for a session: its own settings come first, then the file, then
/// there is none.
pub fn effective_delegate_model(
    configs: &SessionDelegateConfigs,
    file: &DelegateConfig,
    session_id: &str,
) -> (model: Option<String>)
    ensures
        model.deep_view() == model_for(configs@, file@, session_id@),
{
    if let Some(config) = session_delegate_config(configs, session_id) {
        if let Some(model) = config.delegate_model {
            return Some(model);
        }
    }
    file.delegate_model.clone()
}

/// Resolve the delegate provider for a session.
pub fn effective_delegate_provider(
    configs: &SessionDelegateConfigs,
    file: &DelegateConfig,
    session_id: &str,
) -> (provider: Option<String>)
    ensures
        provider.deep_view() == provider_for(configs@, file@, session_id@),
{
    if let Some(config) = session_delegate_config(configs, session_id) {
        if let Some(provider) = config.delegate_provider {
            return Some(provider);
        }
    }
    file.delegate_provider.clone()
}

/// Resolve the timeout of delegated tasks for a session, in minutes.
pub fn effective_delegate_timeout(
    configs: &SessionDelegateConfigs,
    file: &DelegateConfig,
    session_id: &str,
) -> (timeout: u32)
    ensures
        timeout == timeout_for(configs@, file@, session_id@),
{
    if let Some(config) = session_delegate_config(configs, session_id) {
        if let Some(timeout) = config.timeout_minutes {
            return timeout;
        }
    }
    file.timeout_minutes
}

/// Get the list of allowed models for a session: its own settings come first, then the file.
pub fn allowed_models(
    configs: &SessionDelegateConfigs,
    file: &DelegateConfig,
    session_id: &str,
) -> (models: Vec<String>)
    ensures
        models.deep_view() == allowed_for(configs@, file@, session_id@),
{
    if let Some(config) = session_delegate_config(configs, session_id) {
        if let Some(models) = config.allowed_models {
            return models;
        }
    }
    file.allowed_models.clone()
}

/// Check whether delegation is enabled for a session: its own settings come first, then the
/// file.
pub fn effective_enabled(
    configs: &SessionDelegateConfigs,
    file: &DelegateConfig,
    session_id: &str,
) -> (enabled: bool)
    ensures
        enabled == enabled_for(configs@, file@, session_id@),
{
    if let Some(config) = session_delegate_config(configs, session_id) {
        if let Some(flag) = config.enabled {
            return flag;
        }
    }
    file.enabled
}

/// Whether a session may delegate to a model: the list in force is empty, or the model is on it,
/// or it is the delegate model of the file or of the session.
pub open spec fn model_allowed(
    configs: Map<Seq<char>, DelegateSessionConfigView>,
    file: DelegateConfigView,
    session_id: Seq<char>,
    model: Seq<char>,
) -> bool {
    ||| allowed_for(configs, file, session_id).len() == 0
    ||| file.delegate_model == Some(model)
    ||| own_settings(configs, session_id).delegate_model == Some(model)
    ||| allowed_for(configs, file, session_id).contains(model)
}

/// What is said of a model that is not allowed.
pub open spec fn refusal(model: Seq<char>, allowed: Seq<Seq<char>>) -> Seq<char> {
    "Model '"@ + model + "' is not in the allowed list. Allowed models: "@ + crate::text::joined(
        allowed,
        ", "@,
    )
}

/// Whether one of the texts is the given one.
fn holds(list: &Vec<String>, text: &str) -> (found: bool)
    ensures
        found == list.deep_view().contains(text@),
{
    let mut i: usize = 0;
    while i < list.len()
        invariant
            i <= list.len(),
            forall|k: int| 0 <= k < i ==> #[trigger] list.deep_view()[k] != text@,
        decreases list.len() - i,
    {
        if same_text(&list[i], text) {
            assert(list.deep_view()[i as int] == text@);
            return true;
        }
        i += 1;
    }
    false
}

/// Validate that a session may delegate to a model. An empty list of allowed models is no
/// restriction, and the delegate models of the file and of the session are always allowed.
pub fn validate_model_allowed(
    configs: &SessionDelegateConfigs,
    file: &DelegateConfig,
    session_id: &str,
    model: &str,
) -> (result: Result<(), String>)
    ensures
        result is Ok <==> model_allowed(configs@, file@, session_id@, model@),
        result matches Err(message) ==> message@ == refusal(
            model@,
            allowed_for(configs@, file@, session_id@),
        ),
{
    let allowed = allowed_models(configs, file, session_id);
    assert(allowed.deep_view().len() == allowed.len());
    if allowed.len() == 0 {
        return Ok(());
    }
    if let Some(default_model) = &file.delegate_model {
        if same_text(model, default_model) {
            return Ok(());
        }
    }
    if let Some(config) = session_delegate_config(configs, session_id) {
        if let Some(session_model) = config.delegate_model {
            if same_text(model, &session_model) {
                return Ok(());
            }
        }
    }
    if holds(&allowed, model) {
        Ok(())
    } else {
        let mut message = String::new();
        message.append("Model '");
        message.append(model);
        message.append("' is not in the allowed list. Allowed models: ");
        message.append(&join(&allowed, ", "));
        assert(message@ =~= refusal(model@, allowed.deep_view()));
        Err(message)
    }
}

/// What is recorded for a session is read back, and clearing it forgets it.
pub proof fn law_recorded_settings_are_read_back(
    configs: Map<Seq<char>, DelegateSessionConfigView>,
    session_id: Seq<char>,
    config: Option<DelegateSessionConfigView>,
)
    ensures
        settings_of(recorded(configs, session_id, config), session_id) == config,
{
}

/// Recording, clearing or forgetting the settings of one session leaves those of all others as
/// they were.
pub proof fn law_sessions_are_independent(
    configs: Map<Seq<char>, DelegateSessionConfigView>,
    session_id: Seq<char>,
    config: Option<DelegateSessionConfigView>,
    other: Seq<char>,
)
    requires
        other != session_id,
    ensures
        settings_of(recorded(configs, session_id, config), other) == settings_of(configs, other),
        own_settings(recorded(configs, session_id, config), other) == own_settings(configs, other),
{
}

/// An update decides what it mentions: the value given is in force, a value cleared is the
/// file's again, and what is not mentioned stays in force.
pub proof fn law_update_decides(
    configs: Map<Seq<char>, DelegateSessionConfigView>,
    file: DelegateConfigView,
    session_id: Seq<char>,
    delegate_model: Option<Option<Seq<char>>>,
    delegate_provider: Option<Option<Seq<char>>>,
    timeout_minutes: Option<Option<u32>>,
    enabled: Option<Option<bool>>,
    models: Option<Option<Seq<Seq<char>>>>,
)
    ensures
        ({
            let after = configs.insert(
                session_id,
                updated_settings(
                    settings_of(configs, session_id),
                    delegate_model,
                    delegate_provider,
                    timeout_minutes,
                    enabled,
                    models,
                ),
            );
            &&& model_for(after, file, session_id) == match delegate_model {
                Some(Some(model)) => Some(model),
                Some(None) => file.delegate_model,
                None => model_for(configs, file, session_id),
            }
            &&& provider_for(after, file, session_id) == match delegate_provider {
                Some(Some(provider)) => Some(provider),
                Some(None) => file.delegate_provider,
                None => provider_for(configs, file, session_id),
            }
            &&& timeout_for(after, file, session_id) == match timeout_minutes {
                Some(Some(timeout)) => timeout,
                Some(None) => file.timeout_minutes,
                None => timeout_for(configs, file, session_id),
            }
            &&& enabled_for(after, file, session_id) == match enabled {
                Some(Some(flag)) => flag,
                Some(None) => file.enabled,
                None => enabled_for(configs, file, session_id),
            }
            &&& allowed_for(after, file, session_id) == match models {
                Some(Some(list)) => list,
                Some(None) => file.allowed_models,
                None => allowed_for(configs, file, session_id),
            }
        }),
{
}

/// A session whose settings are forgotten follows the file in everything.
pub proof fn law_forgotten_session_follows_the_file(
    configs: Map<Seq<char>, DelegateSessionConfigView>,
    file: DelegateConfigView,
    session_id: Seq<char>,
)
    ensures
        ({
            let after = configs.remove(session_id);
            &&& model_for(after, file, session_id) == file.delegate_model
            &&& provider_for(after, file, session_id) == file.delegate_provider
            &&& timeout_for(after, file, session_id) == file.timeout_minutes
            &&& allowed_for(after, file, session_id) == file.allowed_models
            &&& enabled_for(after, file, session_id) == file.enabled
        }),
{
}

/// The delegate model in force for a session is always allowed, whatever the list says.
pub proof fn law_model_in_force_is_allowed(
    configs: Map<Seq<char>, DelegateSessionConfigView>,
    file: DelegateConfigView,
    session_id: Seq<char>,
)
    ensures
        model_for(configs, file, session_id) matches Some(model) ==> model_allowed(
            configs,
            file,
            session_id,
            model,
        ),
{
}

/// What a session has set decides for it, and the file decides what it has left open.
pub proof fn law_own_settings_come_first(
    configs: Map<Seq<char>, DelegateSessionConfigView>,
    file: DelegateConfigView,
    session_id: Seq<char>,
)
    ensures
        model_for(configs, file, session_id) == if configs.contains_key(session_id)
            && configs[session_id].delegate_model is Some {
            configs[session_id].delegate_model
        } else {
            file.delegate_model
        },
        provider_for(configs, file, session_id) == if configs.contains_key(session_id)
            && configs[session_id].delegate_provider is Some {
            configs[session_id].delegate_provider
        } else {
            file.delegate_provider
        },
        timeout_for(configs, file, session_id) == if configs.contains_key(session_id)
            && configs[session_id].timeout_minutes is Some {
            configs[session_id].timeout_minutes->0
        } else {
            file.timeout_minutes
        },
        allowed_for(configs, file, session_id) == if configs.contains_key(session_id)
            && configs[session_id].allowed_models is Some {
            configs[session_id].allowed_models->0
        } else {
            file.allowed_models
        },
        enabled_for(configs, file, session_id) == if configs.contains_key(session_id)
            && configs[session_id].enabled is Some {
            configs[session_id].enabled->0
        } else {
            file.enabled
        },
{
}

/// The settings of a session are what is kept for it; recording replaces them as a whole, and
/// clearing removes them. A session without settings has none of them set.
pub proof fn law_settings_are_kept(
    configs: Map<Seq<char>, DelegateSessionConfigView>,
    session_id: Seq<char>,
    config: DelegateSessionConfigView,
)
    ensures
        configs.contains_key(session_id) ==> settings_of(configs, session_id) == Some(
            configs[session_id],
        ),
        !configs.contains_key(session_id) ==> settings_of(configs, session_id) is None,
        recorded(configs, session_id, Some(config)) == configs.insert(session_id, config),
        recorded(configs, session_id, None) == configs.remove(session_id),
        unset().delegate_model is None,
        unset().delegate_provider is None,
        unset().timeout_minutes is None,
        unset().enabled is None,
        unset().allowed_models is None,
{
}

/// An update changes the fields it mentions, to the value it gives or to none, and no others; a
/// session without settings starts with none of them set.
pub proof fn law_update_changes_what_it_mentions(
    before: Option<DelegateSessionConfigView>,
    delegate_model: Option<Option<Seq<char>>>,
    delegate_provider: Option<Option<Seq<char>>>,
    timeout_minutes: Option<Option<u32>>,
    enabled: Option<Option<bool>>,
    models: Option<Option<Seq<Seq<char>>>>,
)
    ensures
        ({
            let after = updated_settings(
                before,
                delegate_model,
                delegate_provider,
                timeout_minutes,
                enabled,
                models,
            );
            &&& delegate_model matches Some(value) ==> after.delegate_model == value
            &&& delegate_provider matches Some(value) ==> after.delegate_provider == value
            &&& timeout_minutes matches Some(value) ==> after.timeout_minutes == value
            &&& enabled matches Some(value) ==> after.enabled == value
            &&& models matches Some(value) ==> after.allowed_models == value
            &&& before matches Some(config) ==> {
                &&& delegate_model is None ==> after.delegate_model == config.delegate_model
                &&& delegate_provider is None ==> after.delegate_provider
                    == config.delegate_provider
                &&& timeout_minutes is None ==> after.timeout_minutes == config.timeout_minutes
                &&& enabled is None ==> after.enabled == config.enabled
                &&& models is None ==> after.allowed_models == config.allowed_models
            }
            &&& before is None ==> {
                &&& delegate_model is None ==> after.delegate_model is None
                &&& delegate_provider is None ==> after.delegate_provider is None
                &&& timeout_minutes is None ==> after.timeout_minutes is None
                &&& enabled is None ==> after.enabled is None
                &&& models is None ==> after.allowed_models is None
            }
        }),
{
}

/// A model is refused exactly when the list in force is not empty, the model is not on it, and
/// it is the delegate model neither of the file nor of the session. The list in force is the
/// session's, if it has set one, else the file's.
pub proof fn law_model_is_refused_exactly_when(
    configs: Map<Seq<char>, DelegateSessionConfigView>,
    file: DelegateConfigView,
    session_id: Seq<char>,
    model: Seq<char>,
)
    ensures
        ({
            let list = if configs.contains_key(session_id)
                && configs[session_id].allowed_models is Some {
                configs[session_id].allowed_models->0
            } else {
                file.allowed_models
            };
            !model_allowed(configs, file, session_id, model) <==> {
                &&& list.len() > 0
                &&& !list.contains(model)
                &&& file.delegate_model != Some(model)
                &&& configs.contains_key(session_id) ==> configs[session_id].delegate_model != Some(
                    model,
                )
            }
        }),
{
}

/// A refusal names the model in full and, at its end, all the models that are allowed.
pub proof fn law_refusal_names_the_models(model: Seq<char>, allowed: Seq<Seq<char>>)
    ensures
        ({
            let before = "Model '"@;
            let between = "' is not in the allowed list. Allowed models: "@;
            let list = crate::text::joined(allowed, ", "@);
            let said = refusal(model, allowed);
            &&& said.len() == before.len() + model.len() + between.len() + list.len()
            &&& said.take(before.len() as int) == before
            &&& said.skip(before.len() as int).take(model.len() as int) == model
            &&& said.skip(before.len() as int + model.len()).take(between.len() as int) == between
            &&& said.skip(said.len() - list.len()) == list
        }),
{
    let before = "Model '"@;
    let between = "' is not in the allowed list. Allowed models: "@;
    let list = crate::text::joined(allowed, ", "@);
    let said = refusal(model, allowed);
    assert(said.take(before.len() as int) =~= before);
    assert(said.skip(before.len() as int).take(model.len() as int) =~= model);
    assert(said.skip(before.len() as int + model.len()).take(between.len() as int) =~= between);
    assert(said.skip(said.len() - list.len()) =~= list);
}

/// The contents of a session's settings are those of their fields.
pub proof fn law_contents_are_those_of_the_fields(config: DelegateSessionConfig)
    ensures
        config@.delegate_model == config.delegate_model.deep_view(),
        config@.delegate_provider == config.delegate_provider.deep_view(),
        config@.timeout_minutes == config.timeout_minutes,
        config@.enabled == config.enabled,
        config@.allowed_models == config.allowed_models.deep_view(),
        config.deep_view() == config@,
{
}

} // verus!
