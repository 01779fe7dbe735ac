//! The sections of the configuration file that the library reads.

use vstd::prelude::*;

verus! {

/// One sensitive word and the text written in its place.
#[derive(Debug)]
pub struct MangleMapping {
    /// The word to hide from the provider.
    pub sensitive: String,
    /// What the provider sees instead.
    pub replacement: String,
}

/// The texts of a [`MangleMapping`].
pub struct MangleMappingView {
    pub sensitive: Seq<char>,
    pub replacement: Seq<char>,
}

impl View for MangleMapping {
    type V = MangleMappingView;

    open spec fn view(&self) -> MangleMappingView {
        MangleMappingView { sensitive: self.sensitive@, replacement: self.replacement@ }
    }
}

impl DeepView for MangleMapping {
    type V = MangleMappingView;

    open spec fn deep_view(&self) -> MangleMappingView {
        self@
    }
}

impl Clone for MangleMapping {
    fn clone(&self) -> (copy: Self)
        ensures
            copy@ == self@,
    {
        MangleMapping {
            sensitive: self.sensitive.clone(),
            replacement: self.replacement.clone(),
        }
    }
}

/// The `[mangle]` section.
#[derive(Debug)]
pub struct MangleConfig {
    /// Whether mangling is on.
    pub enabled: bool,
    /// The mappings, in the order in which they are applied.
    pub mappings: Vec<MangleMapping>,
}

/// The contents of a [`MangleConfig`].
pub struct MangleConfigView {
    pub enabled: bool,
    pub mappings: Seq<MangleMappingView>,
}

impl View for MangleConfig {
    type V = MangleConfigView;

    open spec fn view(&self) -> MangleConfigView {
        MangleConfigView { enabled: self.enabled, mappings: self.mappings.deep_view() }
    }
}

impl Default for MangleConfig {
    /// Mangling is off, with nothing to replace.
    fn default() -> (config: Self)
        ensures
            !config@.enabled,
            config@.mappings == Seq::<MangleMappingView>::empty(),
    {
        let config = MangleConfig { enabled: false, mappings: Vec::new() };
        assert(config@.mappings =~= Seq::empty());
        config
    }
}

/// The `[delegate]` section.
#[derive(Debug)]
pub struct DelegateConfig {
    /// Whether delegation is on.
    pub enabled: bool,
    /// The model that delegated tasks go to.
    pub delegate_model: Option<String>,
    /// The provider of that model.
    pub delegate_provider: Option<String>,
    /// How long a delegated task may take.
    pub timeout_minutes: u32,
    /// The models that tasks may be delegated to; an empty list places no restriction.
    pub allowed_models: Vec<String>,
}

/// The contents of a [`DelegateConfig`].
pub struct DelegateConfigView {
    pub enabled: bool,
    pub delegate_model: Option<Seq<char>>,
    pub delegate_provider: Option<Seq<char>>,
    pub timeout_minutes: u32,
    pub allowed_models: Seq<Seq<char>>,
}

impl View for DelegateConfig {
    type V = DelegateConfigView;

    open spec fn view(&self) -> DelegateConfigView {
        DelegateConfigView {
            enabled: self.enabled,
            delegate_model: self.delegate_model.deep_view(),
            delegate_provider: self.delegate_provider.deep_view(),
            timeout_minutes: self.timeout_minutes,
            allowed_models: self.allowed_models.deep_view(),
        }
    }
}

/// The contents of a mapping and of the two sections are those of their fields.
pub proof fn law_contents_are_those_of_the_fields(
    mapping: MangleMapping,
    mangle: MangleConfig,
    delegate: DelegateConfig,
)
    ensures
        mapping@.sensitive == mapping.sensitive@,
        mapping@.replacement == mapping.replacement@,
        mapping.deep_view() == mapping@,
        mangle@.enabled == mangle.enabled,
        mangle@.mappings == mangle.mappings.deep_view(),
        mangle@.mappings.len() == mangle.mappings.len(),
        forall|i: int|
            0 <= i < mangle.mappings.len() ==> #[trigger] mangle@.mappings[i] == mangle.mappings[i]@,
        delegate@.enabled == delegate.enabled,
        delegate@.delegate_model == delegate.delegate_model.deep_view(),
        delegate@.delegate_provider == delegate.delegate_provider.deep_view(),
        delegate@.timeout_minutes == delegate.timeout_minutes,
        delegate@.allowed_models == delegate.allowed_models.deep_view(),
{
}

} // verus!
