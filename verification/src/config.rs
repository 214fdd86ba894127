//! The configuration that decides whether and how import paths are rewritten.

use vstd::prelude::*;

verus! {

/// One rewrite rule: when `enable` is set, `source` is replaced by `target`
/// in the paths of side-effect-only imports.
///
/// Nothing is required of the two strings. In particular an empty `source`
/// is a valid rule; it matches nowhere.
#[derive(Debug, Clone, PartialEq, Eq)]
pub struct TransformModuleVisitorConfig {
    pub enable: bool,
    pub source: String,
    pub target: String,
}

/// The mathematical content of a [`TransformModuleVisitorConfig`].
pub struct ConfigView {
    pub enable: bool,
    pub source: Seq<char>,
    pub target: Seq<char>,
}

impl View for TransformModuleVisitorConfig {
    type V = ConfigView;

    open spec fn view(&self) -> ConfigView {
        ConfigView { enable: self.enable, source: self.source@, target: self.target@ }
    }
}

/// The content of a configuration that may be missing.
pub open spec fn option_view(config: Option<TransformModuleVisitorConfig>) -> Option<ConfigView> {
    match config {
        Some(c) => Some(c@),
        None => None,
    }
}

impl ConfigView {
    /// The rule that rewrites nothing: switched off, with both strings empty.
    pub open spec fn disabled() -> ConfigView {
        ConfigView { enable: false, source: Seq::empty(), target: Seq::empty() }
    }

    /// The rule in force for a payload that decoded to `decoded`, where `None`
    /// stands for a payload that was missing or could not be decoded.
    pub open spec fn or_disabled(decoded: Option<ConfigView>) -> ConfigView {
        match decoded {
            Some(config) => config,
            None => ConfigView::disabled(),
        }
    }
}

impl TransformModuleVisitorConfig {
    /// The canonical disabled configuration.
    pub fn disabled() -> (config: Self)
        ensures
            config@ == ConfigView::disabled(),
    {
        TransformModuleVisitorConfig { enable: false, source: String::new(), target: String::new() }
    }

    /// Settles on the configuration for one run.
    ///
    /// A decoded configuration is used as it is, without trimming or any
    /// other validation. A payload that was missing or could not be decoded
    /// (`None`) is no error: the run falls back on [`Self::disabled`] and
    /// rewrites nothing.
    pub fn or_disabled(decoded: Option<Self>) -> (config: Self)
        ensures
            config@ == ConfigView::or_disabled(option_view(decoded)),
            decoded matches Some(d) ==> config == d,
    {
        match decoded {
            Some(config) => config,
            None => Self::disabled(),
        }
    }
}

} // verus!
