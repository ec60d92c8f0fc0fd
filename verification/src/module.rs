//! A module's top-level declarations, as far as export pruning reads them.
//!
//! The host walks its syntax tree once and hands over one [`Declaration`]
//! per binding or export specifier, in source order. The passes decide on
//! that list; the host then rewrites its tree to match.

use vstd::prelude::*;
use crate::names::clone_names;

verus! {

/// How a declaration takes part in the module's export surface.
#[derive(Debug, PartialEq, Eq)]
pub enum Export {
    /// Not exported.
    Private,
    /// Exported under this name. The default export goes by the name `default`.
    Named(String),
    /// Exported in a form that does not spell out a name, such as a wildcard
    /// re-export. The passes cannot decide on it.
    Unrecognized,
}

/// The mathematical value of an [`Export`].
pub ghost enum ExportView {
    Private,
    Named(Seq<char>),
    Unrecognized,
}

impl View for Export {
    type V = ExportView;

    open spec fn view(&self) -> ExportView {
        match self {
            Export::Private => ExportView::Private,
            Export::Named(name) => ExportView::Named(name@),
            Export::Unrecognized => ExportView::Unrecognized,
        }
    }
}

/// One top-level declaration of a module.
#[derive(Debug, PartialEq, Eq)]
pub struct Declaration {
    /// The host's handle for the declaration in its syntax tree.
    pub id: usize,
    /// The name it binds in module scope, if it binds one. A re-export from
    /// another module and a bare statement bind none.
    pub binding: Option<String>,
    /// Its part in the export surface.
    pub export: Export,
    /// The module-scope names that its code refers to.
    pub references: Vec<String>,
}

/// The mathematical value of a [`Declaration`].
pub ghost struct DeclarationView {
    pub id: usize,
    pub binding: Option<Seq<char>>,
    pub export: ExportView,
    pub references: Seq<Seq<char>>,
}

impl View for Declaration {
    type V = DeclarationView;

    open spec fn view(&self) -> DeclarationView {
        DeclarationView {
            id: self.id,
            binding: match self.binding {
                Some(name) => Some(name@),
                None => None,
            },
            export: self.export@,
            references: self.references.deep_view(),
        }
    }
}

impl DeepView for Declaration {
    type V = DeclarationView;

    open spec fn deep_view(&self) -> DeclarationView {
        self@
    }
}

impl DeclarationView {
    /// The same declaration without its export clause.
    pub open spec fn demoted(self) -> DeclarationView {
        DeclarationView { export: ExportView::Private, ..self }
    }
}

impl Clone for Export {
    fn clone(&self) -> (r: Self)
        ensures
            r@ == self@,
    {
        match self {
            Export::Private => Export::Private,
            Export::Named(name) => Export::Named(name.clone()),
            Export::Unrecognized => Export::Unrecognized,
        }
    }
}

impl Clone for Declaration {
    fn clone(&self) -> (r: Self)
        ensures
            r@ == self@,
    {
        Declaration {
            id: self.id,
            binding: match &self.binding {
                Some(name) => Some(name.clone()),
                None => None,
            },
            export: self.export.clone(),
            references: clone_names(&self.references),
        }
    }
}

impl Declaration {
    /// A copy of the declaration without its export clause.
    pub fn demoted(&self) -> (r: Self)
        ensures
            r@ == self@.demoted(),
    {
        Declaration {
            id: self.id,
            binding: match &self.binding {
                Some(name) => Some(name.clone()),
                None => None,
            },
            export: Export::Private,
            references: clone_names(&self.references),
        }
    }

    /// Whether the declaration binds `name`.
    pub fn binds(&self, name: &String) -> (r: bool)
        ensures
            r == (self@.binding == Some(name@)),
    {
        match &self.binding {
            Some(bound) => *bound == *name,
            None => false,
        }
    }
}

/// The top-level declarations of one module, in source order.
#[derive(Debug, PartialEq, Eq)]
pub struct Module {
    pub declarations: Vec<Declaration>,
}

impl View for Module {
    type V = Seq<DeclarationView>;

    open spec fn view(&self) -> Seq<DeclarationView> {
        self.declarations.deep_view()
    }
}

impl Clone for Module {
    fn clone(&self) -> (r: Self)
        ensures
            r@ == self@,
    {
        let mut declarations: Vec<Declaration> = Vec::new();
        let mut i: usize = 0;
        while i < self.declarations.len()
            invariant
                i <= self.declarations.len(),
                declarations.len() == i,
                forall|k: int| 0 <= k < i ==> declarations@[k]@ == self.declarations@[k]@,
            decreases self.declarations.len() - i,
        {
            declarations.push(self.declarations[i].clone());
            i += 1;
        }
        assert(declarations.deep_view() =~= self.declarations.deep_view());
        Module { declarations }
    }
}

/// The names that a module exports, in source order.
pub open spec fn export_surface(module: Seq<DeclarationView>) -> Seq<Seq<char>>
    decreases module.len(),
{
    if module.len() == 0 {
        Seq::empty()
    } else {
        let front = export_surface(module.drop_last());
        match module.last().export {
            ExportView::Named(name) => front.push(name),
            _ => front,
        }
    }
}

impl Module {
    /// The names that the module exports, in source order.
    pub fn exported_names(&self) -> (names: Vec<String>)
        ensures
            names.deep_view() == export_surface(self@),
    {
        let mut names: Vec<String> = Vec::new();
        let mut i: usize = 0;
        assert(self@.take(0) =~= Seq::<DeclarationView>::empty());
        assert(names.deep_view() =~= Seq::<Seq<char>>::empty());
        while i < self.declarations.len()
            invariant
                i <= self.declarations.len(),
                names.deep_view() == export_surface(self@.take(i as int)),
            decreases self.declarations.len() - i,
        {
            let ghost front = names.deep_view();
            assert(self@.take(i + 1).drop_last() =~= self@.take(i as int));
            assert(self@.take(i + 1).last() == self.declarations@[i as int]@);
            match &self.declarations[i].export {
                Export::Named(name) => {
                    names.push(name.clone());
                    assert(names.deep_view() =~= front.push(name@));
                },
                _ => {},
            }
            i += 1;
        }
        assert(self@.take(i as int) =~= self@);
        names
    }
}

} // verus!
