//! The visitor that rewrites import paths.

use vstd::prelude::*;
use crate::ast::{ImportDecl, ImportDeclView, Program};
use crate::config::{option_view, ConfigView, TransformModuleVisitorConfig};
use crate::text::{lemma_replace_all_fixed, occurs_in, replace_all, substitute};

verus! {

/// Whether a visitor holding `config` rewrites the path of `decl`: it holds
/// a configuration, the configuration is switched on, and the declaration
/// introduces no binding.
pub open spec fn applies(config: Option<ConfigView>, decl: ImportDeclView) -> bool {
    &&& config matches Some(c)
    &&& c.enable
    &&& decl.specifiers.len() == 0
}

/// What a visitor holding `config` makes of `decl`.
///
/// Where the visitor applies, every occurrence of the source string in the
/// path gives way to the target string, wherever in the path it stands; a
/// leading occurrence is not asked for. Everything else stays.
pub open spec fn rewrite_import(config: Option<ConfigView>, decl: ImportDeclView) -> ImportDeclView {
    if applies(config, decl) {
        ImportDeclView {
            specifiers: decl.specifiers,
            src: replace_all(decl.src, config->0.source, config->0.target),
        }
    } else {
        decl
    }
}

/// What a visitor holding `config` makes of a whole program: each import
/// declaration is rewritten by itself, in place.
pub open spec fn rewrite_program(config: Option<ConfigView>, program: Seq<ImportDeclView>) -> Seq<
    ImportDeclView,
> {
    program.map_values(|decl: ImportDeclView| rewrite_import(config, decl))
}

/// Whether a visit by a visitor holding `config` would leave `decl` as it is:
/// the visitor does not apply, or its rule is idle (an empty source string,
/// or one that is replaced by itself), or the path does not hold the source
/// string.
pub open spec fn settled(config: Option<ConfigView>, decl: ImportDeclView) -> bool {
    applies(config, decl) ==> {
        let c = config->0;
        c.source.len() == 0 || c.source == c.target || !occurs_in(decl.src, c.source)
    }
}

/// A visit changes a declaration if and only if the declaration is not
/// settled.
pub proof fn lemma_rewrite_import_fixed(config: Option<ConfigView>, decl: ImportDeclView)
    ensures
        rewrite_import(config, decl) == decl <==> settled(config, decl),
{
    if applies(config, decl) {
        lemma_replace_all_fixed(decl.src, config->0.source, config->0.target);
    }
}

/// A walk changes a program if and only if one of its declarations is not
/// settled.
pub proof fn lemma_rewrite_program_fixed(config: Option<ConfigView>, program: Seq<ImportDeclView>)
    ensures
        rewrite_program(config, program) == program <==> forall|i: int|
            0 <= i < program.len() ==> settled(config, #[trigger] program[i]),
{
    let walked = rewrite_program(config, program);
    assert forall|i: int| 0 <= i < program.len() implies (walked[i] == program[i] <==> settled(
        config,
        #[trigger] program[i],
    )) by {
        lemma_rewrite_import_fixed(config, program[i]);
    }
    if forall|i: int| 0 <= i < program.len() ==> settled(config, #[trigger] program[i]) {
        assert(walked =~= program);
    }
}

/// A visitor without a configuration, or with one that is switched off,
/// leaves every program as it is.
pub proof fn lemma_idle_visitor(config: Option<ConfigView>, program: Seq<ImportDeclView>)
    requires
        config matches Some(c) ==> !c.enable,
    ensures
        rewrite_program(config, program) == program,
{
    assert(rewrite_program(config, program) =~= program);
}

/// An import declaration that introduces a binding is left as it is,
/// whatever the configuration.
pub proof fn lemma_specifier_guard(
    config: Option<ConfigView>,
    program: Seq<ImportDeclView>,
    i: int,
)
    requires
        0 <= i < program.len(),
        program[i].specifiers.len() > 0,
    ensures
        rewrite_program(config, program)[i] == program[i],
{
}

/// A walk neither adds nor drops a declaration, and touches no list of
/// bindings: only paths change.
pub proof fn lemma_only_paths_change(config: Option<ConfigView>, program: Seq<ImportDeclView>)
    ensures
        rewrite_program(config, program).len() == program.len(),
        forall|i: int|
            0 <= i < program.len() ==> (#[trigger] rewrite_program(config, program)[i]).specifiers
                == program[i].specifiers,
{
}

/// Rewrites import paths under a configuration that is fixed for the walk.
/// Without a configuration it changes nothing.
pub struct TransformModuleVisitor {
    pub config: Option<TransformModuleVisitorConfig>,
}

impl View for TransformModuleVisitor {
    type V = Option<ConfigView>;

    open spec fn view(&self) -> Option<ConfigView> {
        option_view(self.config)
    }
}

impl TransformModuleVisitor {
    /// Visits one import declaration and rewrites its path where the visitor
    /// applies.
    ///
    /// The rule is a substring rule, not a prefix rule: every occurrence of
    /// the source string is replaced, wherever in the path it stands, and
    /// the path need not begin with it.
    pub fn visit_mut_import_decl(&mut self, import_decl: &mut ImportDecl)
        ensures
            *final(self) == *old(self),
            final(import_decl)@ == rewrite_import(old(self)@, old(import_decl)@),
    {
        if let Some(config) = &self.config {
            if config.enable {
                if import_decl.specifiers.len() == 0 {
                    let source = substitute(
                        import_decl.src.as_str(),
                        config.source.as_str(),
                        config.target.as_str(),
                    );
                    import_decl.src = source;
                }
            }
        }
    }

    /// Walks a program once, from the first import declaration to the last.
    pub fn visit_mut_program(&mut self, program: &mut Program)
        ensures
            *final(self) == *old(self),
            final(program)@ == rewrite_program(old(self)@, old(program)@),
    {
        let n = program.imports.len();
        let mut i: usize = 0;
        while i < n
            invariant
                *self == *old(self),
                i <= n,
                n == program.imports.len(),
                n == old(program).imports.len(),
                forall|j: int|
                    0 <= j < i ==> program.imports[j]@ == rewrite_import(
                        old(self)@,
                        #[trigger] old(program).imports[j]@,
                    ),
                forall|j: int| i <= j < n ==> program.imports[j] == old(program).imports[j],
            decreases n - i,
        {
            self.visit_mut_import_decl(&mut program.imports[i]);
            i = i + 1;
        }
        assert(program@ =~= rewrite_program(old(self)@, old(program)@));
    }
}

} // verus!
