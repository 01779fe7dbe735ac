//! Text mangling: sensitive words are replaced before a text goes to the provider, and restored
//! in what comes back. This hides sensitive data from the provider while keeping the
//! conversation intact.
//!
//! Each session can have mangling settings of its own; what it leaves open is taken from the
//! configuration file.

use vstd::hash_map::StringHashMap;
use vstd::prelude::*;

use crate::config::{MangleConfig, MangleConfigView, MangleMapping, MangleMappingView};
use crate::json::{parse_json, JsonValue, JsonValueView};
use crate::message::{ContentBlock, Message};
use crate::replace::replace_all;

verus! {

/// Mangling settings of one session.
#[derive(Debug)]
pub struct MangleSessionConfig {
    /// Whether mangling is on for this session; `None` leaves it to the file.
    pub enabled: Option<bool>,
    /// The mappings for this session; `None` leaves them to the file.
    pub mappings: Option<Vec<MangleMapping>>,
}

/// The contents of a [`MangleSessionConfig`].
pub struct MangleSessionConfigView {
    pub enabled: Option<bool>,
    pub mappings: Option<Seq<MangleMappingView>>,
}

impl View for MangleSessionConfig {
    type V = MangleSessionConfigView;

    open spec fn view(&self) -> MangleSessionConfigView {
        MangleSessionConfigView { enabled: self.enabled, mappings: self.mappings.deep_view() }
    }
}

impl Clone for MangleSessionConfig {
    fn clone(&self) -> (copy: Self)
        ensures
            copy@ == self@,
    {
        MangleSessionConfig { enabled: self.enabled, mappings: self.mappings.clone() }
    }
}

impl Default for MangleSessionConfig {
    /// Everything is left to the file.
    fn default() -> (config: Self)
        ensures
            config@ == unset(),
    {
        MangleSessionConfig { enabled: None, mappings: None }
    }
}

/// The settings of a session that leaves everything to the file.
pub open spec fn unset() -> MangleSessionConfigView {
    MangleSessionConfigView { enabled: None, mappings: None }
}

/// The mangling settings of all sessions that have any, by session id.
pub struct SessionMangleConfigs {
    configs: StringHashMap<MangleSessionConfig>,
}

impl View for SessionMangleConfigs {
    type V = Map<Seq<char>, MangleSessionConfigView>;

    closed spec fn view(&self) -> Map<Seq<char>, MangleSessionConfigView> {
        self.configs@.map_values(|config: MangleSessionConfig| config@)
    }
}

impl SessionMangleConfigs {
    /// No session has settings.
    pub fn new() -> (configs: Self)
        ensures
            configs@ == Map::<Seq<char>, MangleSessionConfigView>::empty(),
    {
        let configs = SessionMangleConfigs { configs: StringHashMap::new() };
        assert(configs@ =~= Map::empty());
        configs
    }
}

/// The settings of the given session, if it has any.
pub open spec fn settings_of(
    configs: Map<Seq<char>, MangleSessionConfigView>,
    session_id: Seq<char>,
) -> Option<MangleSessionConfigView> {
    if configs.contains_key(session_id) {
        Some(configs[session_id])
    } else {
        None
    }
}

/// Look up a session's mangling settings, if any.
pub fn session_mangle_config(configs: &SessionMangleConfigs, session_id: &str) -> (config: Option<
    MangleSessionConfig,
>)
    ensures
        match config {
            Some(config) => settings_of(configs@, session_id@) == Some(config@),
            None => settings_of(configs@, session_id@) is None,
        },
{
    match configs.configs.get(session_id) {
        Some(config) => Some(config.clone()),
        None => None,
    }
}

/// The settings after an update: a field that is given replaces the one before, `None` keeps it.
pub open spec fn updated_settings(
    before: Option<MangleSessionConfigView>,
    enabled: Option<Option<bool>>,
    mappings: Option<Option<Seq<MangleMappingView>>>,
) -> MangleSessionConfigView {
    let base = match before {
        Some(config) => config,
        None => unset(),
    };
    MangleSessionConfigView {
        enabled: match enabled {
            Some(flag) => flag,
            None => base.enabled,
        },
        mappings: match mappings {
            Some(list) => list,
            None => base.mappings,
        },
    }
}

/// Record mangling settings for a session. A field that is `None` keeps its value; a field that
/// is `Some(None)` is left to the file from now on.
pub fn update_session_mangle_config(
    configs: &mut SessionMangleConfigs,
    session_id: &str,
    enabled: Option<Option<bool>>,
    mappings: Option<Option<Vec<MangleMapping>>>,
)
    ensures
        final(configs)@ == old(configs)@.insert(
            session_id@,
            updated_settings(settings_of(old(configs)@, session_id@), enabled, mappings.deep_view()),
        ),
{
    let mut config = match session_mangle_config(configs, session_id) {
        Some(config) => config,
        None => MangleSessionConfig::default(),
    };
    if let Some(flag) = enabled {
        config.enabled = flag;
    }
    if let Some(list) = mappings {
        config.mappings = list;
    }
    let ghost before = configs@;
    let ghost now = config@;
    configs.configs.insert(session_id.to_owned(), config);
    assert(configs@ =~= before.insert(session_id@, now));
}

/// Forget a session's mangling settings.
pub fn forget_session_mangle_config(configs: &mut SessionMangleConfigs, session_id: &str)
    ensures
        final(configs)@ == old(configs)@.remove(session_id@),
{
    configs.configs.remove(session_id);
    assert(configs@ =~= old(configs)@.remove(session_id@));
}

/// Whether mangling is on for a session: what the session says, else what the file says.
pub open spec fn enabled_for(
    configs: Map<Seq<char>, MangleSessionConfigView>,
    file: MangleConfigView,
    session_id: Seq<char>,
) -> bool {
    match settings_of(configs, session_id) {
        Some(MangleSessionConfigView { enabled: Some(flag), .. }) => flag,
        _ => file.enabled,
    }
}

/// The mappings for a session: those of the session, else those of the file.
pub open spec fn mappings_for(
    configs: Map<Seq<char>, MangleSessionConfigView>,
    file: MangleConfigView,
    session_id: Seq<char>,
) -> Seq<MangleMappingView> {
    match settings_of(configs, session_id) {
        Some(MangleSessionConfigView { mappings: Some(list), .. }) => list,
        _ => file.mappings,
    }
}

/// Check whether mangling is enabled for a session: the session's settings come first, then the
/// file.
pub fn effective_mangle_enabled(
    configs: &SessionMangleConfigs,
    file: &MangleConfig,
    session_id: &str,
) -> (enabled: bool)
    ensures
        enabled == enabled_for(configs@, file@, session_id@),
{
    if let Some(config) = session_mangle_config(configs, session_id) {
        if let Some(flag) = config.enabled {
            return flag;
        }
    }
    file.enabled
}

/// Get the mappings in force for a session: the session's own, or the file's if it has none.
pub fn effective_mangle_mappings(
    configs: &SessionMangleConfigs,
    file: &MangleConfig,
    session_id: &str,
) -> (mappings: Vec<MangleMapping>)
    ensures
        mappings.deep_view() == mappings_for(configs@, file@, session_id@),
{
    if let Some(config) = session_mangle_config(configs, session_id) {
        if let Some(mappings) = config.mappings {
            return mappings;
        }
    }
    file.mappings.clone()
}

/// Whether a mapping replaces anything: one with an empty side is passed over.
pub open spec fn active(mapping: MangleMappingView) -> bool {
    mapping.sensitive.len() > 0 && mapping.replacement.len() > 0
}

/// `text` with the sensitive word of one mapping replaced.
pub open spec fn applied(text: Seq<char>, mapping: MangleMappingView) -> Seq<char> {
    if active(mapping) {
        crate::replace::replaced(text, mapping.sensitive, mapping.replacement)
    } else {
        text
    }
}

/// `text` with the replacement of one mapping written back as its sensitive word.
pub open spec fn undone(text: Seq<char>, mapping: MangleMappingView) -> Seq<char> {
    if active(mapping) {
        crate::replace::replaced(text, mapping.replacement, mapping.sensitive)
    } else {
        text
    }
}

/// `text` with all mappings applied, from the first to the last.
pub open spec fn mangled(text: Seq<char>, mappings: Seq<MangleMappingView>) -> Seq<char>
    decreases mappings.len(),
{
    if mappings.len() == 0 {
        text
    } else {
        applied(mangled(text, mappings.drop_last()), mappings.last())
    }
}

/// `text` with all mappings undone, from the last to the first.
pub open spec fn demangled(text: Seq<char>, mappings: Seq<MangleMappingView>) -> Seq<char>
    decreases mappings.len(),
{
    if mappings.len() == 0 {
        text
    } else {
        demangled(undone(text, mappings.last()), mappings.drop_last())
    }
}

/// What a text of the session becomes on its way to the provider.
pub open spec fn mangled_for(
    configs: Map<Seq<char>, MangleSessionConfigView>,
    file: MangleConfigView,
    session_id: Seq<char>,
    text: Seq<char>,
) -> Seq<char> {
    if enabled_for(configs, file, session_id) {
        mangled(text, mappings_for(configs, file, session_id))
    } else {
        text
    }
}

/// What a text from the provider becomes on its way to the session.
pub open spec fn demangled_for(
    configs: Map<Seq<char>, MangleSessionConfigView>,
    file: MangleConfigView,
    session_id: Seq<char>,
    text: Seq<char>,
) -> Seq<char> {
    if enabled_for(configs, file, session_id) {
        demangled(text, mappings_for(configs, file, session_id))
    } else {
        text
    }
}

/// Mangle text: replace all sensitive words with their replacements. The text is returned as it
/// is if mangling is off for the session.
pub fn mangle_text(
    configs: &SessionMangleConfigs,
    file: &MangleConfig,
    text: &str,
    session_id: &str,
) -> (result: String)
    ensures
        result@ == mangled_for(configs@, file@, session_id@, text@),
{
    if !effective_mangle_enabled(configs, file, session_id) {
        return text.to_owned();
    }
    let mappings = effective_mangle_mappings(configs, file, session_id);
    let ghost views = mappings.deep_view();
    let mut result = text.to_owned();
    let mut i: usize = 0;
    assert(views.take(0) =~= Seq::empty());
    while i < mappings.len()
        invariant
            i <= mappings.len(),
            views == mappings.deep_view(),
            result@ == mangled(text@, views.take(i as int)),
        decreases mappings.len() - i,
    {
        let mapping = &mappings[i];
        assert(views.take(i + 1).drop_last() =~= views.take(i as int));
        assert(views.take(i + 1).last() == mapping@);
        if !mapping.sensitive.as_str().is_empty() && !mapping.replacement.as_str().is_empty() {
            result = replace_all(&result, &mapping.sensitive, &mapping.replacement);
        }
        i += 1;
    }
    assert(views.take(views.len() as int) =~= views);
    result
}

/// Demangle text: write all replacements back as their sensitive words. The text is returned as
/// it is if mangling is off for the session.
pub fn demangle_text(
    configs: &SessionMangleConfigs,
    file: &MangleConfig,
    text: &str,
    session_id: &str,
) -> (result: String)
    ensures
        result@ == demangled_for(configs@, file@, session_id@, text@),
{
    if !effective_mangle_enabled(configs, file, session_id) {
        return text.to_owned();
    }
    let mappings = effective_mangle_mappings(configs, file, session_id);
    let ghost views = mappings.deep_view();
    let mut result = text.to_owned();
    let mut i: usize = mappings.len();
    assert(views.take(views.len() as int) =~= views);
    // The last mapping is undone first, so that each replacement is looked for in the text in
    // which it was written.
    while i > 0
        invariant
            i <= mappings.len(),
            views == mappings.deep_view(),
            demangled(text@, views) == demangled(result@, views.take(i as int)),
        decreases i,
    {
        i -= 1;
        let mapping = &mappings[i];
        assert(views.take(i + 1).drop_last() =~= views.take(i as int));
        assert(views.take(i + 1).last() == mapping@);
        if !mapping.sensitive.as_str().is_empty() && !mapping.replacement.as_str().is_empty() {
            result = replace_all(&result, &mapping.replacement, &mapping.sensitive);
        }
    }
    assert(views.take(0) =~= Seq::empty());
    result
}

/// What a JSON value becomes on its way to the provider: every string in it is mangled; numbers,
/// flags, nulls, the names of members and the shape stay.
pub open spec fn mangled_value_for(
    configs: Map<Seq<char>, MangleSessionConfigView>,
    file: MangleConfigView,
    session_id: Seq<char>,
    value: JsonValueView,
) -> JsonValueView
    decreases value,
{
    match value {
        JsonValueView::Text(text) => JsonValueView::Text(
            mangled_for(configs, file, session_id, text),
        ),
        JsonValueView::List(items) => JsonValueView::List(
            Seq::new(
                items.len(),
                |i: int|
                    if 0 <= i < items.len() {
                        mangled_value_for(configs, file, session_id, items[i])
                    } else {
                        JsonValueView::Null
                    },
            ),
        ),
        JsonValueView::Object(members) => JsonValueView::Object(
            Seq::new(
                members.len(),
                |i: int|
                    if 0 <= i < members.len() {
                        (
                            members[i].0,
                            mangled_value_for(configs, file, session_id, members[i].1),
                        )
                    } else {
                        (Seq::empty(), JsonValueView::Null)
                    },
            ),
        ),
        _ => value,
    }
}

/// Mangle every string in a JSON value.
pub fn mangle_value(
    configs: &SessionMangleConfigs,
    file: &MangleConfig,
    value: &JsonValue,
    session_id: &str,
) -> (result: JsonValue)
    ensures
        result@ == mangled_value_for(configs@, file@, session_id@, value@),
    decreases value,
{
    match value {
        JsonValue::Null => JsonValue::Null,
        JsonValue::Bool(flag) => JsonValue::Bool(*flag),
        JsonValue::Number { text, whole } => JsonValue::Number { text: text.clone(), whole: *whole },
        JsonValue::Text(text) => JsonValue::Text(mangle_text(configs, file, text, session_id)),
        JsonValue::List(items) => {
            let ghost expected = mangled_value_for(configs@, file@, session_id@, value@)->List_0;
            let mut list: Vec<JsonValue> = Vec::new();
            let mut i: usize = 0;
            while i < items.len()
                invariant
                    i <= items.len(),
                    i == list.len(),
                    decreases_to!(value => items@),
                    expected.len() == items.len(),
                    forall|k: int|
                        0 <= k < items.len() ==> #[trigger] expected[k] == mangled_value_for(
                            configs@,
                            file@,
                            session_id@,
                            items@[k]@,
                        ),
                    forall|k: int| 0 <= k < i ==> (#[trigger] list@[k])@ == expected[k],
                decreases items.len() - i,
            {
                assert(decreases_to!(items@ => items@[i as int]));
                list.push(mangle_value(configs, file, &items[i], session_id));
                i += 1;
            }
            let result = JsonValue::List(list);
            assert(result@->List_0 =~= expected);
            result
        },
        JsonValue::Object(members) => {
            let ghost expected = mangled_value_for(configs@, file@, session_id@, value@)->Object_0;
            let mut list: Vec<(String, JsonValue)> = Vec::new();
            let mut i: usize = 0;
            while i < members.len()
                invariant
                    i <= members.len(),
                    i == list.len(),
                    decreases_to!(value => members@),
                    expected.len() == members.len(),
                    forall|k: int|
                        0 <= k < members.len() ==> #[trigger] expected[k] == (
                            members@[k].0@,
                            mangled_value_for(configs@, file@, session_id@, members@[k].1@),
                        ),
                    forall|k: int|
                        0 <= k < i ==> ((#[trigger] list@[k]).0@, list@[k].1@) == expected[k],
                decreases members.len() - i,
            {
                assert(decreases_to!(members@ => members@[i as int]));
                assert(decreases_to!(members@[i as int] => members@[i as int].1));
                let member = mangle_value(configs, file, &members[i].1, session_id);
                list.push((members[i].0.clone(), member));
                i += 1;
            }
            let result = JsonValue::Object(list);
            assert(result@->Object_0 =~= expected);
            result
        },
    }
}

/// What a string of arguments is sent as once it has become `text` and that was parsed: the value
/// that was read, with every string in it mangled, or the text itself if it is no JSON.
pub open spec fn input_after(
    configs: Map<Seq<char>, MangleSessionConfigView>,
    file: MangleConfigView,
    session_id: Seq<char>,
    text: Seq<char>,
    parsed: Result<JsonValueView, Seq<char>>,
) -> JsonValueView {
    match parsed {
        Ok(value) => mangled_value_for(configs, file, session_id, value),
        Err(_) => JsonValueView::Text(text),
    }
}

/// What a string of arguments is sent as once it has become `text` and that was parsed.
pub fn reparsed_input(
    configs: &SessionMangleConfigs,
    file: &MangleConfig,
    text: String,
    parsed: Result<JsonValue, String>,
    session_id: &str,
) -> (result: JsonValue)
    ensures
        result@ == input_after(
            configs@,
            file@,
            session_id@,
            text@,
            crate::json::outcome(parsed),
        ),
{
    match parsed {
        Ok(value) => mangle_value(configs, file, &value, session_id),
        Err(_) => JsonValue::Text(text),
    }
}

/// What the arguments of a tool call become on their way to the provider. Arguments that come as
/// one string are mangled as a text, and sent as the JSON value that the text then denotes if it
/// denotes one. In a JSON value every string is mangled; in one that was read from a text, too,
/// for a word can stand in it that the text spells with escapes.
pub open spec fn mangled_input_for(
    configs: Map<Seq<char>, MangleSessionConfigView>,
    file: MangleConfigView,
    session_id: Seq<char>,
    input: JsonValueView,
) -> JsonValueView {
    match input {
        JsonValueView::Text(before) => {
            let text = mangled_for(configs, file, session_id, before);
            input_after(configs, file, session_id, text, crate::json::json_document(text))
        },
        _ => mangled_value_for(configs, file, session_id, input),
    }
}

/// Mangle the arguments of a tool call.
pub fn mangle_input(
    configs: &SessionMangleConfigs,
    file: &MangleConfig,
    input: &JsonValue,
    session_id: &str,
) -> (result: JsonValue)
    ensures
        result@ == mangled_input_for(configs@, file@, session_id@, input@),
{
    match input {
        JsonValue::Text(before) => {
            let text = mangle_text(configs, file, before, session_id);
            let parsed = parse_json(&text);
            reparsed_input(configs, file, text, parsed, session_id)
        },
        _ => mangle_value(configs, file, input, session_id),
    }
}

/// Whether `after` is `before` with its text on its way to the provider and all else as it was.
/// Images and blocks of one provider alone are not mangled.
pub open spec fn block_mangled_for(
    configs: Map<Seq<char>, MangleSessionConfigView>,
    file: MangleConfigView,
    session_id: Seq<char>,
    before: ContentBlock,
    after: ContentBlock,
) -> bool {
    match before {
        ContentBlock::Text { text, cache_control } => {
            &&& after matches ContentBlock::Text { text: t, cache_control: c }
            &&& t@ == mangled_for(configs, file, session_id, text@)
            &&& c == cache_control
        },
        ContentBlock::Reasoning { text } => {
            &&& after matches ContentBlock::Reasoning { text: t }
            &&& t@ == mangled_for(configs, file, session_id, text@)
        },
        ContentBlock::ReasoningTrace { text } => {
            &&& after matches ContentBlock::ReasoningTrace { text: t }
            &&& t@ == mangled_for(configs, file, session_id, text@)
        },
        ContentBlock::AnthropicThinking { thinking, signature } => {
            &&& after matches ContentBlock::AnthropicThinking { thinking: t, signature: s }
            &&& t@ == mangled_for(configs, file, session_id, thinking@)
            &&& s == signature
        },
        ContentBlock::ToolUse { id, name, input } => {
            &&& after matches ContentBlock::ToolUse { id: i, name: n, input: v }
            &&& i == id
            &&& n == name
            &&& v@ == mangled_input_for(configs, file, session_id, input@)
        },
        ContentBlock::ToolResult { tool_use_id, content, is_error } => {
            &&& after matches ContentBlock::ToolResult { tool_use_id: i, content: c, is_error: e }
            &&& i == tool_use_id
            &&& c@ == mangled_for(configs, file, session_id, content@)
            &&& e == is_error
        },
        _ => after == before,
    }
}

/// Whether `after` is `before` on its way to the provider: as it was if mangling is off for the
/// session, else with each of its blocks mangled and all else as it was.
pub open spec fn message_mangled_for(
    configs: Map<Seq<char>, MangleSessionConfigView>,
    file: MangleConfigView,
    session_id: Seq<char>,
    before: Message,
    after: Message,
) -> bool {
    if enabled_for(configs, file, session_id) {
        &&& after.role == before.role
        &&& after.timestamp == before.timestamp
        &&& after.tool_duration_ms == before.tool_duration_ms
        &&& after.content.len() == before.content.len()
        &&& forall|i: int|
            #![trigger before.content[i]]
            #![trigger after.content[i]]
            0 <= i < before.content.len() ==> block_mangled_for(
                configs,
                file,
                session_id,
                before.content[i],
                after.content[i],
            )
    } else {
        after == before
    }
}

/// Mangle one block of a message.
fn mangle_block(
    configs: &SessionMangleConfigs,
    file: &MangleConfig,
    block: &mut ContentBlock,
    session_id: &str,
)
    ensures
        block_mangled_for(configs@, file@, session_id@, *old(block), *final(block)),
{
    match block {
        ContentBlock::Text { text, .. } => {
            *text = mangle_text(configs, file, text, session_id);
        },
        ContentBlock::Reasoning { text } => {
            *text = mangle_text(configs, file, text, session_id);
        },
        ContentBlock::ReasoningTrace { text } => {
            *text = mangle_text(configs, file, text, session_id);
        },
        ContentBlock::AnthropicThinking { thinking, .. } => {
            *thinking = mangle_text(configs, file, thinking, session_id);
        },
        ContentBlock::ToolUse { input, .. } => {
            *input = mangle_input(configs, file, input, session_id);
        },
        ContentBlock::ToolResult { content, .. } => {
            *content = mangle_text(configs, file, content, session_id);
        },
        _ => {},
    }
}

/// Mangle all text content in a provider-bound message. The message stays as it is if mangling
/// is off for the session.
pub fn mangle_message(
    configs: &SessionMangleConfigs,
    file: &MangleConfig,
    msg: &mut Message,
    session_id: &str,
)
    ensures
        message_mangled_for(configs@, file@, session_id@, *old(msg), *final(msg)),
{
    if !effective_mangle_enabled(configs, file, session_id) {
        return;
    }
    let ghost before = *msg;
    let mut i: usize = 0;
    while i < msg.content.len()
        invariant
            i <= msg.content.len(),
            msg.role == before.role,
            msg.timestamp == before.timestamp,
            msg.tool_duration_ms == before.tool_duration_ms,
            msg.content.len() == before.content.len(),
            forall|k: int|
                0 <= k < i ==> block_mangled_for(
                    configs@,
                    file@,
                    session_id@,
                    #[trigger] before.content[k],
                    msg.content[k],
                ),
            forall|k: int| i <= k < msg.content.len() ==> msg.content[k] == #[trigger] before.content[k],
        decreases msg.content.len() - i,
    {
        mangle_block(configs, file, &mut msg.content[i], session_id);
        i += 1;
    }
}

/// The contents of a session's settings are those of their fields.
pub proof fn law_contents_are_those_of_the_fields(config: MangleSessionConfig)
    ensures
        config@.enabled == config.enabled,
        config@.mappings == config.mappings.deep_view(),
{
}

} // verus!
