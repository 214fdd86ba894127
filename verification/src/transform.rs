//! The entry point: one run of the rewrite over one program.

use vstd::prelude::*;
use crate::ast::{ImportDeclView, Program};
use crate::config::{option_view, ConfigView, TransformModuleVisitorConfig};
use crate::text::{lemma_replace_all_clears, seams_stay_clear};
use crate::visitor::{
    lemma_idle_visitor, lemma_rewrite_program_fixed, rewrite_program, settled,
    TransformModuleVisitor,
};

verus! {

/// The program that one run makes of `program`, for a configuration payload
/// that decoded to `decoded`. `None` stands for a payload that was missing
/// or could not be decoded; the run then goes by the disabled configuration.
pub open spec fn transform(program: Seq<ImportDeclView>, decoded: Option<ConfigView>) -> Seq<
    ImportDeclView,
> {
    rewrite_program(Some(ConfigView::or_disabled(decoded)), program)
}

/// Without a usable configuration, or with one that is switched off, a run
/// hands the program back as it was.
pub proof fn lemma_transform_disabled(program: Seq<ImportDeclView>, decoded: Option<ConfigView>)
    requires
        decoded matches Some(c) ==> !c.enable,
    ensures
        transform(program, decoded) == program,
{
    lemma_idle_visitor(Some(ConfigView::or_disabled(decoded)), program);
}

/// A run leaves every import declaration that introduces a binding as it
/// was, whatever the configuration.
pub proof fn lemma_transform_keeps_bound_imports(
    program: Seq<ImportDeclView>,
    decoded: Option<ConfigView>,
    i: int,
)
    requires
        0 <= i < program.len(),
        program[i].specifiers.len() > 0,
    ensures
        transform(program, decoded)[i] == program[i],
{
}

/// A second run changes nothing, provided that every declaration is settled
/// after the first.
///
/// The proviso matters. A target string that does not hold the source string
/// is not enough: where kept text meets an inserted target, a new occurrence
/// of the source can form, and the second run rewrites it.
pub proof fn lemma_transform_twice(program: Seq<ImportDeclView>, decoded: Option<ConfigView>)
    requires
        forall|i: int|
            0 <= i < program.len() ==> settled(
                Some(ConfigView::or_disabled(decoded)),
                #[trigger] transform(program, decoded)[i],
            ),
    ensures
        transform(transform(program, decoded), decoded) == transform(program, decoded),
{
    let config = Some(ConfigView::or_disabled(decoded));
    lemma_rewrite_program_fixed(config, transform(program, decoded));
}

/// A second run changes nothing, whatever the program, under a rule whose
/// seams stay clear.
pub proof fn lemma_transform_twice_clear(program: Seq<ImportDeclView>, decoded: Option<ConfigView>)
    requires
        decoded matches Some(c) ==> !c.enable || seams_stay_clear(c.source, c.target),
    ensures
        transform(transform(program, decoded), decoded) == transform(program, decoded),
{
    let config = ConfigView::or_disabled(decoded);
    assert forall|i: int| 0 <= i < program.len() implies settled(
        Some(config),
        #[trigger] transform(program, decoded)[i],
    ) by {
        if config.enable {
            lemma_replace_all_clears(program[i].src, config.source, config.target);
        }
    }
    lemma_transform_twice(program, decoded);
}

/// A second run does change the program where a declaration is not settled
/// after the first.
pub proof fn lemma_transform_twice_differs(
    program: Seq<ImportDeclView>,
    decoded: Option<ConfigView>,
    i: int,
)
    requires
        0 <= i < program.len(),
        !settled(Some(ConfigView::or_disabled(decoded)), transform(program, decoded)[i]),
    ensures
        transform(transform(program, decoded), decoded) != transform(program, decoded),
{
    let config = Some(ConfigView::or_disabled(decoded));
    lemma_rewrite_program_fixed(config, transform(program, decoded));
}

/// Runs the rewrite once over `program` and hands the program back.
///
/// `config` is what the configuration payload decoded to, `None` where the
/// payload was missing or could not be decoded. That case is no error: the
/// run falls back on the disabled configuration and changes nothing.
pub fn process_transform(program: Program, config: Option<TransformModuleVisitorConfig>) -> (out:
    Program)
    ensures
        out@ == transform(program@, option_view(config)),
        (config matches Some(c) ==> !c.enable) ==> out@ == program@,
        out@.len() == program@.len(),
        forall|i: int|
            0 <= i < program@.len() && program@[i].specifiers.len() > 0 ==> out@[i] == program@[i],
{
    proof {
        let decoded = option_view(config);
        if decoded matches Some(c) ==> !c.enable {
            lemma_transform_disabled(program@, decoded);
        }
    }
    let config = TransformModuleVisitorConfig::or_disabled(config);
    let mut visitor = TransformModuleVisitor { config: Some(config) };
    let mut program = program;
    visitor.visit_mut_program(&mut program);
    program
}

} // verus!
