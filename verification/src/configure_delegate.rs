//! Changing and showing the delegation settings of a session.

use vstd::prelude::*;

use crate::config::{DelegateConfig, DelegateConfigView};
use crate::session_delegate_config::{
    allowed_models, effective_delegate_model, effective_delegate_timeout, session_delegate_config,
    update_session_delegate_config, validate_model_allowed, DelegateSessionConfig,
    DelegateSessionConfigView, SessionDelegateConfigs,
};
use crate::text::{join, number_text, trim};

verus! {

/// What the model is told about the tool that configures delegation.
pub const CONFIGURE_DELEGATE_DESCRIPTION: &'static str =
    "Configure the delegate model settings at runtime. Use this to set which model handles delegated tasks, change the provider, or adjust the timeout. Settings persist for the current session and override the config file. Pass empty string or 0 to clear a setting and fall back to the config file.";

/// The JSON schema of the arguments of the tool that configures delegation.
pub const CONFIGURE_DELEGATE_PARAMETERS: &'static str = r#"{
    "type": "object",
    "properties": {
        "delegate_model": {
            "type": "string",
            "description": "Model to use for delegation (e.g. \"opus-4-8\", \"gpt-5.5\"). Pass empty string to clear and fall back to config file."
        },
        "delegate_provider": {
            "type": "string",
            "description": "Provider for the delegate model (e.g. \"openai\", \"anthropic\"). Pass empty string to clear."
        },
        "timeout_minutes": {
            "type": "integer",
            "description": "Timeout in minutes for delegated tasks. Pass 0 to clear and fall back to config file (default: 30)."
        }
    }
}"#;

/// The tool that configures delegation at runtime: it sets or clears the delegate model, the
/// provider and the timeout of a session, without a change to the configuration file.
pub struct ConfigureDelegateTool;

/// The arguments of [`ConfigureDelegateTool`].
#[derive(Debug, PartialEq)]
pub struct ConfigureDelegateInput {
    /// The model for delegated tasks; a blank one clears the setting.
    pub delegate_model: Option<String>,
    /// The provider of that model; a blank one clears the setting.
    pub delegate_provider: Option<String>,
    /// The timeout in minutes; `0` clears the setting.
    pub timeout_minutes: Option<u32>,
}

/// The contents of a [`ConfigureDelegateInput`].
pub struct ConfigureDelegateInputView {
    pub delegate_model: Option<Seq<char>>,
    pub delegate_provider: Option<Seq<char>>,
    pub timeout_minutes: Option<u32>,
}

impl View for ConfigureDelegateInput {
    type V = ConfigureDelegateInputView;

    open spec fn view(&self) -> ConfigureDelegateInputView {
        ConfigureDelegateInputView {
            delegate_model: self.delegate_model.deep_view(),
            delegate_provider: self.delegate_provider.deep_view(),
            timeout_minutes: self.timeout_minutes,
        }
    }
}

/// The update that a text asks for: a blank one clears the setting, any other sets it to the text
/// without the white space at its ends, and none leaves it alone.
pub open spec fn normalized_text(value: Option<Seq<char>>) -> Option<Option<Seq<char>>> {
    match value {
        Some(text) => if crate::text::blank(text) {
            Some(None)
        } else {
            Some(Some(crate::text::trimmed(text)))
        },
        None => None,
    }
}

/// The update that a number asks for: `0` clears the setting, any other sets it, and none leaves
/// it alone.
pub open spec fn normalized_number(value: Option<u32>) -> Option<Option<u32>> {
    match value {
        Some(n) => if n == 0 {
            Some(None)
        } else {
            Some(Some(n))
        },
        None => None,
    }
}

/// Normalize: treat an empty or blank string as clearing the setting.
pub fn normalize_opt_string(v: Option<String>) -> (update: Option<Option<String>>)
    ensures
        update.deep_view() == normalized_text(v.deep_view()),
{
    match v {
        Some(s) => {
            let text = trim(&s);
            proof {
                crate::text::law_blank_trims_to_nothing(s@);
            }
            if text.as_str().is_empty() {
                Some(None)
            } else {
                Some(Some(text))
            }
        },
        None => None,
    }
}

/// Normalize: treat 0 as clearing the setting.
pub fn normalize_opt_u32(v: Option<u32>) -> (update: Option<Option<u32>>)
    ensures
        update == normalized_number(v),
{
    match v {
        Some(n) => if n == 0 {
            Some(None)
        } else {
            Some(Some(n))
        },
        None => None,
    }
}

/// A model as it is shown.
pub open spec fn shown_model(model: Option<Seq<char>>) -> Seq<char> {
    match model {
        Some(model) => model,
        None => "(not set)"@,
    }
}

/// The lines on the model and the timeout in force.
pub open spec fn shown_basics(model: Option<Seq<char>>, timeout_minutes: u32) -> Seq<char> {
    "**Delegate model:** "@ + shown_model(model) + "\n**Timeout:** "@ + crate::text::decimal(
        timeout_minutes as nat,
    ) + " minutes\n"@
}

/// The line on the allowed models.
pub open spec fn shown_allowed(allowed: Seq<Seq<char>>) -> Seq<char> {
    if allowed.len() > 0 {
        "\n**Allowed models:** "@ + crate::text::joined(allowed, ", "@) + "\n"@
    } else {
        "\n**Allowed models:** (all models — no restriction set)\n"@
    }
}

/// One line, if there is something to say in it.
pub open spec fn line_of(before: Seq<char>, what: Option<Seq<char>>, after: Seq<char>) -> Seq<char> {
    match what {
        Some(what) => before + what + after,
        None => Seq::empty(),
    }
}

/// The lines on what the session sets itself.
pub open spec fn shown_overrides(settings: Option<DelegateSessionConfigView>) -> Seq<char> {
    match settings {
        Some(config) => {
            "\n**Session overrides active:**\n"@ + line_of(
                "- model: "@,
                config.delegate_model,
                "\n"@,
            ) + line_of("- provider: "@, config.delegate_provider, "\n"@) + line_of(
                "- timeout: "@,
                match config.timeout_minutes {
                    Some(n) => Some(crate::text::decimal(n as nat)),
                    None => None,
                },
                " min\n"@,
            )
        },
        None => "\n**No session overrides.** Using config file values.\n"@,
    }
}

/// The line on what the file says.
pub open spec fn shown_file(file: DelegateConfigView) -> Seq<char> {
    line_of("\n**Config file:** model="@, file.delegate_model, ""@) + line_of(
        ", provider="@,
        file.delegate_provider,
        ""@,
    ) + ", timeout="@ + crate::text::decimal(file.timeout_minutes as nat) + "min\n"@
}

/// All that is shown of a session's settings.
pub open spec fn settings_report(
    configs: Map<Seq<char>, DelegateSessionConfigView>,
    file: DelegateConfigView,
    session_id: Seq<char>,
) -> Seq<char> {
    "## Current Delegate Configuration\n\n"@ + shown_basics(
        crate::session_delegate_config::model_for(configs, file, session_id),
        crate::session_delegate_config::timeout_for(configs, file, session_id),
    ) + shown_allowed(crate::session_delegate_config::allowed_for(configs, file, session_id))
        + shown_overrides(crate::session_delegate_config::settings_of(configs, session_id))
        + shown_file(file)
}

/// What is said if the model is not allowed.
pub open spec fn setting_refused(model: Seq<char>, allowed: Seq<Seq<char>>) -> Seq<char> {
    "Cannot set delegate model: "@ + crate::session_delegate_config::refusal(model, allowed)
        + "\n\nAvailable models: "@ + crate::text::joined(allowed, ", "@)
}

/// What is said once the settings are changed.
pub open spec fn setting_confirmed(model: Option<Seq<char>>, timeout_minutes: u32) -> Seq<char> {
    "Delegate configuration updated for this session.\n\n"@ + shown_basics(model, timeout_minutes)
        + "\nChanges persist for this session only. Use `configure_delegate` again to change them."@
}

/// Whether the arguments ask for a change.
pub open spec fn asks_for_change(input: ConfigureDelegateInputView) -> bool {
    input.delegate_model is Some || input.delegate_provider is Some || input.timeout_minutes is Some
}

/// Whether the arguments name a model that the session may not delegate to.
pub open spec fn asks_for_forbidden_model(
    configs: Map<Seq<char>, DelegateSessionConfigView>,
    file: DelegateConfigView,
    session_id: Seq<char>,
    input: ConfigureDelegateInputView,
) -> bool {
    match normalized_text(input.delegate_model) {
        Some(Some(model)) => !crate::session_delegate_config::model_allowed(
            configs,
            file,
            session_id,
            model,
        ),
        _ => false,
    }
}

/// The settings of all sessions after a call of the tool: a call that asks for no change or for
/// a model that is not allowed changes nothing.
pub open spec fn configured(
    configs: Map<Seq<char>, DelegateSessionConfigView>,
    file: DelegateConfigView,
    session_id: Seq<char>,
    input: ConfigureDelegateInputView,
) -> Map<Seq<char>, DelegateSessionConfigView> {
    if asks_for_change(input) && !asks_for_forbidden_model(configs, file, session_id, input) {
        configs.insert(
            session_id,
            crate::session_delegate_config::updated_settings(
                crate::session_delegate_config::settings_of(configs, session_id),
                normalized_text(input.delegate_model),
                normalized_text(input.delegate_provider),
                normalized_number(input.timeout_minutes),
                None,
                None,
            ),
        )
    } else {
        configs
    }
}

/// The output of a call of the tool.
pub open spec fn configure_output(
    configs: Map<Seq<char>, DelegateSessionConfigView>,
    file: DelegateConfigView,
    session_id: Seq<char>,
    input: ConfigureDelegateInputView,
) -> Seq<char> {
    if !asks_for_change(input) {
        settings_report(configs, file, session_id)
    } else if asks_for_forbidden_model(configs, file, session_id, input) {
        setting_refused(
            crate::text::trimmed(input.delegate_model->0),
            crate::session_delegate_config::allowed_for(configs, file, session_id),
        )
    } else {
        let after = configured(configs, file, session_id, input);
        setting_confirmed(
            crate::session_delegate_config::model_for(after, file, session_id),
            crate::session_delegate_config::timeout_for(after, file, session_id),
        )
    }
}

/// Appends the lines on the model and the timeout in force.
fn push_basics(out: &mut String, model: &Option<String>, timeout_minutes: u32)
    ensures
        final(out)@ == old(out)@ + shown_basics(model.deep_view(), timeout_minutes),
{
    out.append("**Delegate model:** ");
    match model {
        Some(model) => out.append(model),
        None => out.append("(not set)"),
    }
    out.append("\n**Timeout:** ");
    out.append(&number_text(timeout_minutes as u64, 10));
    out.append(" minutes\n");
    assert(out@ =~= old(out)@ + shown_basics(model.deep_view(), timeout_minutes));
}

/// Appends the line on the allowed models.
fn push_allowed(out: &mut String, allowed: &Vec<String>)
    ensures
        final(out)@ == old(out)@ + shown_allowed(allowed.deep_view()),
{
    assert(allowed.deep_view().len() == allowed.len());
    if allowed.len() > 0 {
        out.append("\n**Allowed models:** ");
        out.append(&join(allowed, ", "));
        out.append("\n");
    } else {
        out.append("\n**Allowed models:** (all models — no restriction set)\n");
    }
    assert(out@ =~= old(out)@ + shown_allowed(allowed.deep_view()));
}

/// Appends one line, if there is something to say in it.
fn push_line(out: &mut String, before: &str, what: &Option<String>, after: &str)
    ensures
        final(out)@ == old(out)@ + line_of(before@, what.deep_view(), after@),
{
    if let Some(what) = what {
        out.append(before);
        out.append(what);
        out.append(after);
    }
    assert(out@ =~= old(out)@ + line_of(before@, what.deep_view(), after@));
}

/// Appends the lines on what the session sets itself.
fn push_overrides(out: &mut String, settings: &Option<DelegateSessionConfig>)
    ensures
        final(out)@ == old(out)@ + shown_overrides(settings.deep_view()),
{
    match settings {
        Some(config) => {
            out.append("\n**Session overrides active:**\n");
            push_line(out, "- model: ", &config.delegate_model, "\n");
            push_line(out, "- provider: ", &config.delegate_provider, "\n");
            let timeout = match config.timeout_minutes {
                Some(n) => Some(number_text(n as u64, 10)),
                None => None,
            };
            push_line(out, "- timeout: ", &timeout, " min\n");
        },
        None => {
            out.append("\n**No session overrides.** Using config file values.\n");
        },
    }
    assert(out@ =~= old(out)@ + shown_overrides(settings.deep_view()));
}

/// Appends the line on what the file says.
fn push_file(out: &mut String, file: &DelegateConfig)
    ensures
        final(out)@ == old(out)@ + shown_file(file@),
{
    push_line(out, "\n**Config file:** model=", &file.delegate_model, "");
    push_line(out, ", provider=", &file.delegate_provider, "");
    out.append(", timeout=");
    out.append(&number_text(file.timeout_minutes as u64, 10));
    out.append("min\n");
    assert(out@ =~= old(out)@ + shown_file(file@));
}

/// All that is shown of a session's settings.
fn report_settings(
    configs: &SessionDelegateConfigs,
    file: &DelegateConfig,
    session_id: &str,
) -> (out: String)
    ensures
        out@ == settings_report(configs@, file@, session_id@),
{
    let settings = session_delegate_config(configs, session_id);
    let model = effective_delegate_model(configs, file, session_id);
    let timeout = effective_delegate_timeout(configs, file, session_id);
    let allowed = allowed_models(configs, file, session_id);
    let mut out = "## Current Delegate Configuration\n\n".to_owned();
    push_basics(&mut out, &model, timeout);
    push_allowed(&mut out, &allowed);
    push_overrides(&mut out, &settings);
    push_file(&mut out, file);
    out
}

impl ConfigureDelegateTool {
    /// The tool.
    pub fn new() -> (tool: Self)
        ensures
            tool == ConfigureDelegateTool,
    {
        ConfigureDelegateTool
    }

    /// The name under which the model calls the tool.
    pub fn name(&self) -> (name: &'static str)
        ensures
            name@ == "configure_delegate"@,
    {
        "configure_delegate"
    }

    /// What the model is told about the tool.
    pub fn description(&self) -> (description: &'static str)
        ensures
            description@ == CONFIGURE_DELEGATE_DESCRIPTION@,
    {
        CONFIGURE_DELEGATE_DESCRIPTION
    }

    /// The JSON schema of the tool's arguments, as JSON text.
    pub fn parameters_schema(&self) -> (schema: &'static str)
        ensures
            schema@ == CONFIGURE_DELEGATE_PARAMETERS@,
    {
        CONFIGURE_DELEGATE_PARAMETERS
    }

    /// Change the settings of a session as the arguments ask, and say what is in force; or show
    /// the settings, if the arguments ask for no change.
    pub fn execute(
        &self,
        configs: &mut SessionDelegateConfigs,
        file: &DelegateConfig,
        params: ConfigureDelegateInput,
        session_id: &str,
    ) -> (output: String)
        ensures
            final(configs)@ == configured(old(configs)@, file@, session_id@, params@),
            output@ == configure_output(old(configs)@, file@, session_id@, params@),
    {
        let model = normalize_opt_string(params.delegate_model);
        let provider = normalize_opt_string(params.delegate_provider);
        let timeout = normalize_opt_u32(params.timeout_minutes);
        if model.is_none() && provider.is_none() && timeout.is_none() {
            return report_settings(configs, file, session_id);
        }
        if let Some(Some(model)) = &model {
            if let Err(refusal) = validate_model_allowed(configs, file, session_id, model) {
                let allowed = allowed_models(configs, file, session_id);
                let mut output = "Cannot set delegate model: ".to_owned();
                output.append(&refusal);
                output.append("\n\nAvailable models: ");
                output.append(&join(&allowed, ", "));
                return output;
            }
        }
        update_session_delegate_config(configs, session_id, model, provider, timeout, None, None);
        let effective_model = effective_delegate_model(configs, file, session_id);
        let effective_timeout = effective_delegate_timeout(configs, file, session_id);
        let mut output = "Delegate configuration updated for this session.\n\n".to_owned();
        push_basics(&mut output, &effective_model, effective_timeout);
        output.append(
            "\nChanges persist for this session only. Use `configure_delegate` again to change them.",
        );
        output
    }
}

/// A call that is carried out decides the model, the provider and the timeout in force: one that
/// is given is in force, one that is cleared is the file's again, and one that is not mentioned
/// stays. Whether delegation is on and which models are allowed is not touched.
pub proof fn law_settings_override_the_file(
    configs: Map<Seq<char>, DelegateSessionConfigView>,
    file: DelegateConfigView,
    session_id: Seq<char>,
    input: ConfigureDelegateInputView,
)
    requires
        !asks_for_forbidden_model(configs, file, session_id, input),
    ensures
        ({
            let after = configured(configs, file, session_id, input);
            &&& crate::session_delegate_config::model_for(after, file, session_id) == match input.delegate_model {
                Some(text) => if crate::text::blank(text) {
                    file.delegate_model
                } else {
                    Some(crate::text::trimmed(text))
                },
                None => crate::session_delegate_config::model_for(configs, file, session_id),
            }
            &&& crate::session_delegate_config::provider_for(after, file, session_id)
                == match input.delegate_provider {
                Some(text) => if crate::text::blank(text) {
                    file.delegate_provider
                } else {
                    Some(crate::text::trimmed(text))
                },
                None => crate::session_delegate_config::provider_for(configs, file, session_id),
            }
            &&& crate::session_delegate_config::timeout_for(after, file, session_id) == match input.timeout_minutes {
                Some(n) => if n == 0 {
                    file.timeout_minutes
                } else {
                    n
                },
                None => crate::session_delegate_config::timeout_for(configs, file, session_id),
            }
            &&& crate::session_delegate_config::enabled_for(after, file, session_id)
                == crate::session_delegate_config::enabled_for(configs, file, session_id)
            &&& crate::session_delegate_config::allowed_for(after, file, session_id)
                == crate::session_delegate_config::allowed_for(configs, file, session_id)
        }),
{
}

/// A call touches the settings of its own session alone.
pub proof fn law_other_sessions_keep_their_settings(
    configs: Map<Seq<char>, DelegateSessionConfigView>,
    file: DelegateConfigView,
    session_id: Seq<char>,
    input: ConfigureDelegateInputView,
    other: Seq<char>,
)
    requires
        other != session_id,
    ensures
        crate::session_delegate_config::settings_of(
            configured(configs, file, session_id, input),
            other,
        ) == crate::session_delegate_config::settings_of(configs, other),
{
}

/// A text that is white space alone clears a setting, `0` clears one too, and any other value
/// sets it: a text to what stands between the white space at its ends, a number to itself. What
/// is not given asks for nothing.
pub proof fn law_arguments_are_normalized(
    before: Seq<char>,
    core: Seq<char>,
    after: Seq<char>,
    n: u32,
)
    requires
        forall|i: int| 0 <= i < before.len() ==> crate::text::white_space(#[trigger] before[i]),
        forall|i: int| 0 <= i < after.len() ==> crate::text::white_space(#[trigger] after[i]),
        core.len() > 0,
        !crate::text::white_space(core[0]),
        !crate::text::white_space(core.last()),
    ensures
        normalized_text(Some(before + core + after)) == Some(Some(core)),
        normalized_text(Some(before)) == Some(None::<Seq<char>>),
        normalized_text(None) is None,
        normalized_number(Some(n)) == Some(
            if n > 0 {
                Some(n)
            } else {
                None
            },
        ),
        normalized_number(None) is None,
{
    let text = before + core + after;
    crate::text::law_trimmed_is_the_core(before, core, after);
    assert(text[before.len() as int] == core[0]);
    assert(!crate::text::blank(text));
}

/// A call that names a model is refused exactly when the list of allowed models in force is not
/// empty, the model is not on it, and it is the delegate model neither of the file nor of the
/// session. A refused call changes nothing and says which model it was and which are allowed;
/// after any other the model in force is the one named, and the output says so.
pub proof fn law_named_model_is_set_unless_forbidden(
    configs: Map<Seq<char>, DelegateSessionConfigView>,
    file: DelegateConfigView,
    session_id: Seq<char>,
    input: ConfigureDelegateInputView,
    before: Seq<char>,
    model: Seq<char>,
    after: Seq<char>,
)
    requires
        input.delegate_model == Some(before + model + after),
        forall|i: int| 0 <= i < before.len() ==> crate::text::white_space(#[trigger] before[i]),
        forall|i: int| 0 <= i < after.len() ==> crate::text::white_space(#[trigger] after[i]),
        model.len() > 0,
        !crate::text::white_space(model[0]),
        !crate::text::white_space(model.last()),
    ensures
        ({
            let list = if configs.contains_key(session_id)
                && configs[session_id].allowed_models is Some {
                configs[session_id].allowed_models->0
            } else {
                file.allowed_models
            };
            let forbidden = {
                &&& list.len() > 0
                &&& !list.contains(model)
                &&& file.delegate_model != Some(model)
                &&& configs.contains_key(session_id) ==> configs[session_id].delegate_model != Some(
                    model,
                )
            };
            let now = configured(configs, file, session_id, input);
            let output = configure_output(configs, file, session_id, input);
            &&& forbidden ==> {
                &&& now == configs
                &&& output == "Cannot set delegate model: "@ + ("Model '"@ + model
                    + "' is not in the allowed list. Allowed models: "@ + crate::text::joined(
                    list,
                    ", "@,
                )) + "\n\nAvailable models: "@ + crate::text::joined(list, ", "@)
            }
            &&& !forbidden ==> {
                let opening =
                    "Delegate configuration updated for this session.\n\n"@ + "**Delegate model:** "@;
                &&& now.contains_key(session_id)
                &&& now[session_id].delegate_model == Some(model)
                &&& crate::session_delegate_config::model_for(now, file, session_id) == Some(model)
                &&& output.take(opening.len() as int) == opening
                &&& output.skip(opening.len() as int).take(model.len() as int) == model
            }
        }),
{
    law_arguments_are_normalized(before, model, after, 0);
    crate::text::law_trimmed_is_the_core(before, model, after);
    let now = configured(configs, file, session_id, input);
    let output = configure_output(configs, file, session_id, input);
    let opening =
        "Delegate configuration updated for this session.\n\n"@ + "**Delegate model:** "@;
    crate::session_delegate_config::law_model_is_refused_exactly_when(
        configs,
        file,
        session_id,
        model,
    );
    if crate::session_delegate_config::model_allowed(configs, file, session_id, model) {
        assert(output.take(opening.len() as int) =~= opening);
        assert(output.skip(opening.len() as int).take(model.len() as int) =~= model);
    }
}

/// An empty list of allowed models forbids nothing: with it in force, no call is refused.
pub proof fn law_empty_list_forbids_nothing(
    configs: Map<Seq<char>, DelegateSessionConfigView>,
    file: DelegateConfigView,
    session_id: Seq<char>,
    input: ConfigureDelegateInputView,
)
    requires
        if configs.contains_key(session_id) && configs[session_id].allowed_models is Some {
            configs[session_id].allowed_models->0.len() == 0
        } else {
            file.allowed_models.len() == 0
        },
    ensures
        !asks_for_forbidden_model(configs, file, session_id, input),
        input.delegate_model is Some ==> configured(
            configs,
            file,
            session_id,
            input,
        ).contains_key(session_id),
{
}

/// A call without a model, or with a blank one, is never refused; a call without any argument
/// changes nothing.
pub proof fn law_only_a_named_model_is_refused(
    configs: Map<Seq<char>, DelegateSessionConfigView>,
    file: DelegateConfigView,
    session_id: Seq<char>,
    input: ConfigureDelegateInputView,
)
    ensures
        asks_for_change(input) <==> input.delegate_model is Some || input.delegate_provider is Some
            || input.timeout_minutes is Some,
        asks_for_forbidden_model(configs, file, session_id, input) ==> input.delegate_model is Some
            && !crate::text::blank(input.delegate_model->0),
        input.delegate_model is None && input.delegate_provider is None && input.timeout_minutes
            is None ==> configured(configs, file, session_id, input) == configs,
{
}

/// A call that is carried out touches the record of its own session alone, and there the model,
/// the provider and the timeout it mentions: a blank text or `0` clears, another value sets.
/// Which models are allowed and whether delegation is on stays as the session had it.
pub proof fn law_call_changes_what_it_mentions(
    configs: Map<Seq<char>, DelegateSessionConfigView>,
    file: DelegateConfigView,
    session_id: Seq<char>,
    input: ConfigureDelegateInputView,
)
    requires
        input.delegate_model is Some || input.delegate_provider is Some || input.timeout_minutes
            is Some,
        !asks_for_forbidden_model(configs, file, session_id, input),
    ensures
        ({
            let now = configured(configs, file, session_id, input);
            let known = configs.contains_key(session_id);
            let was = configs[session_id];
            &&& now.contains_key(session_id)
            &&& now == configs.insert(session_id, now[session_id])
            &&& now[session_id].delegate_model == if input.delegate_model is Some {
                if crate::text::blank(input.delegate_model->0) {
                    None
                } else {
                    Some(crate::text::trimmed(input.delegate_model->0))
                }
            } else if known {
                was.delegate_model
            } else {
                None
            }
            &&& now[session_id].delegate_provider == if input.delegate_provider is Some {
                if crate::text::blank(input.delegate_provider->0) {
                    None
                } else {
                    Some(crate::text::trimmed(input.delegate_provider->0))
                }
            } else if known {
                was.delegate_provider
            } else {
                None
            }
            &&& now[session_id].timeout_minutes == if input.timeout_minutes is Some {
                if input.timeout_minutes->0 == 0 {
                    None
                } else {
                    input.timeout_minutes
                }
            } else if known {
                was.timeout_minutes
            } else {
                None
            }
            &&& now[session_id].enabled == if known {
                was.enabled
            } else {
                None
            }
            &&& now[session_id].allowed_models == if known {
                was.allowed_models
            } else {
                None
            }
        }),
{
}

/// After a call that is carried out the output gives the model and the timeout that are now in
/// force: the session's, else the file's.
pub proof fn law_confirmation_gives_what_is_in_force(
    configs: Map<Seq<char>, DelegateSessionConfigView>,
    file: DelegateConfigView,
    session_id: Seq<char>,
    input: ConfigureDelegateInputView,
)
    requires
        input.delegate_model is Some || input.delegate_provider is Some || input.timeout_minutes
            is Some,
        !asks_for_forbidden_model(configs, file, session_id, input),
    ensures
        ({
            let own = configured(configs, file, session_id, input)[session_id];
            let model = if own.delegate_model is Some {
                own.delegate_model->0
            } else if file.delegate_model is Some {
                file.delegate_model->0
            } else {
                "(not set)"@
            };
            let minutes = if own.timeout_minutes is Some {
                own.timeout_minutes->0
            } else {
                file.timeout_minutes
            };
            configure_output(configs, file, session_id, input)
                == "Delegate configuration updated for this session.\n\n"@
                + "**Delegate model:** "@ + model + "\n**Timeout:** "@ + crate::text::number(
                minutes as nat,
                10,
            ) + " minutes\n"@
                + "\nChanges persist for this session only. Use `configure_delegate` again to change them."@
        }),
{
    let own = configured(configs, file, session_id, input)[session_id];
    let model = if own.delegate_model is Some {
        own.delegate_model->0
    } else if file.delegate_model is Some {
        file.delegate_model->0
    } else {
        "(not set)"@
    };
    let minutes = if own.timeout_minutes is Some {
        own.timeout_minutes->0
    } else {
        file.timeout_minutes
    };
    assert(configure_output(configs, file, session_id, input)
        =~= "Delegate configuration updated for this session.\n\n"@ + "**Delegate model:** "@
        + model + "\n**Timeout:** "@ + crate::text::number(minutes as nat, 10) + " minutes\n"@
        + "\nChanges persist for this session only. Use `configure_delegate` again to change them."@);
}

/// A call without any argument shows, in this order: the model and the timeout in force, the
/// models that are allowed or that all are, what the session has set itself or that it has set
/// nothing, and what the file says. Each text stands there in full, each number in decimal.
pub proof fn law_report_shows_all_settings(
    configs: Map<Seq<char>, DelegateSessionConfigView>,
    file: DelegateConfigView,
    session_id: Seq<char>,
    input: ConfigureDelegateInputView,
)
    requires
        input.delegate_model is None,
        input.delegate_provider is None,
        input.timeout_minutes is None,
    ensures
        ({
            let known = configs.contains_key(session_id);
            let own = configs[session_id];
            let model = if known && own.delegate_model is Some {
                own.delegate_model->0
            } else if file.delegate_model is Some {
                file.delegate_model->0
            } else {
                "(not set)"@
            };
            let minutes = if known && own.timeout_minutes is Some {
                own.timeout_minutes->0
            } else {
                file.timeout_minutes
            };
            let list = if known && own.allowed_models is Some {
                own.allowed_models->0
            } else {
                file.allowed_models
            };
            let in_force = "**Delegate model:** "@ + model + "\n**Timeout:** "@
                + crate::text::number(minutes as nat, 10) + " minutes\n"@;
            let allowed = if list.len() == 0 {
                "\n**Allowed models:** (all models — no restriction set)\n"@
            } else {
                "\n**Allowed models:** "@ + crate::text::joined(list, ", "@) + "\n"@
            };
            let overrides = if !known {
                "\n**No session overrides.** Using config file values.\n"@
            } else {
                "\n**Session overrides active:**\n"@ + (if own.delegate_model is Some {
                    "- model: "@ + own.delegate_model->0 + "\n"@
                } else {
                    Seq::empty()
                }) + (if own.delegate_provider is Some {
                    "- provider: "@ + own.delegate_provider->0 + "\n"@
                } else {
                    Seq::empty()
                }) + (if own.timeout_minutes is Some {
                    "- timeout: "@ + crate::text::number(own.timeout_minutes->0 as nat, 10)
                        + " min\n"@
                } else {
                    Seq::empty()
                })
            };
            let in_file = (if file.delegate_model is Some {
                "\n**Config file:** model="@ + file.delegate_model->0
            } else {
                Seq::empty()
            }) + (if file.delegate_provider is Some {
                ", provider="@ + file.delegate_provider->0
            } else {
                Seq::empty()
            }) + ", timeout="@ + crate::text::number(file.timeout_minutes as nat, 10)
                + "min\n"@;
            configure_output(configs, file, session_id, input)
                == "## Current Delegate Configuration\n\n"@ + in_force + allowed + overrides
                + in_file
        }),
{
    reveal_strlit("");
    let in_file = (if file.delegate_model is Some {
        "\n**Config file:** model="@ + file.delegate_model->0
    } else {
        Seq::empty()
    }) + (if file.delegate_provider is Some {
        ", provider="@ + file.delegate_provider->0
    } else {
        Seq::empty()
    }) + ", timeout="@ + crate::text::number(file.timeout_minutes as nat, 10) + "min\n"@;
    assert(""@ =~= Seq::empty());
    assert(shown_file(file) =~= in_file);
}

/// The contents of the arguments are those of their fields.
pub proof fn law_contents_are_those_of_the_fields(input: ConfigureDelegateInput)
    ensures
        input@.delegate_model == input.delegate_model.deep_view(),
        input@.delegate_provider == input.delegate_provider.deep_view(),
        input@.timeout_minutes == input.timeout_minutes,
{
}

} // verus!
