//! The part of a program that the rewrite reads and writes.

use vstd::prelude::*;

verus! {

/// A binding that an import declaration introduces.
#[derive(Debug, Clone, Copy, PartialEq, Eq, Structural)]
pub enum ImportSpecifier {
    /// `import { a } from "m"`
    Named,
    /// `import a from "m"`
    Default,
    /// `import * as a from "m"`
    Namespace,
}

/// An import declaration: the bindings it introduces and the path of the
/// module it names. One without bindings is imported for its side effects
/// only.
#[derive(Debug, Clone, PartialEq, Eq)]
pub struct ImportDecl {
    pub specifiers: Vec<ImportSpecifier>,
    pub src: String,
}

/// The mathematical content of an [`ImportDecl`].
pub struct ImportDeclView {
    pub specifiers: Seq<ImportSpecifier>,
    pub src: Seq<char>,
}

impl View for ImportDecl {
    type V = ImportDeclView;

    open spec fn view(&self) -> ImportDeclView {
        ImportDeclView { specifiers: self.specifiers@, src: self.src@ }
    }
}

/// The import declarations of one source file, in document order.
///
/// Whatever else the file holds is out of the rewrite's sight and has no
/// place here.
#[derive(Debug, Clone, PartialEq, Eq)]
pub struct Program {
    pub imports: Vec<ImportDecl>,
}

impl View for Program {
    type V = Seq<ImportDeclView>;

    open spec fn view(&self) -> Seq<ImportDeclView> {
        self.imports@.map_values(|decl: ImportDecl| decl@)
    }
}

} // verus!
