//! Static components: services that the whole world shares, such as a score.

use crate::component::link_views;
use crate::save::{LinkField, LinkFieldView};
use vstd::prelude::*;

verus! {

/// A shared component of a type that the host defines. The engine keeps its
/// data and its links to other shared components; the host runs its behaviour
/// once in every frame.
#[derive(Clone, Debug)]
pub struct StaticComponent {
    pub name: String,
    pub fields: String,
    pub links: Vec<LinkField>,
}

/// The mathematical model of a static component.
pub struct StaticComponentView {
    pub name: Seq<char>,
    pub fields: Seq<char>,
    pub links: Seq<LinkFieldView>,
}

impl View for StaticComponent {
    type V = StaticComponentView;

    open spec fn view(&self) -> StaticComponentView {
        StaticComponentView { name: self.name@, fields: self.fields@, links: link_views(self.links@) }
    }
}

impl StaticComponent {
    /// What stands in for a shared component of the type `name` until the
    /// component itself is there: no data, no links.
    pub fn placeholder(name: String) -> (r: Self)
        ensures
            r@ == (StaticComponentView { name: name@, fields: "null"@, links: Seq::empty() }),
    {
        let r = StaticComponent { name, fields: "null".to_string(), links: Vec::new() };
        assert(link_views(r.links@) =~= Seq::empty());
        r
    }
}

/// The data of a score keeper, the static component that a game most often
/// has: how many points were made, and whether the game is over.
#[derive(Clone, Copy, Debug, PartialEq, Eq, Structural)]
pub struct Score {
    pub over: bool,
    pub score: u32,
}

impl Score {
    /// No points, and the game is on.
    pub fn new() -> (r: Self)
        ensures
            r == (Score { over: false, score: 0 }),
    {
        Self { score: 0, over: false }
    }
}

/// The handle of a shared component: its place among the shared components
/// of a registry.
#[derive(Clone, Copy, Debug, PartialEq, Eq, Structural)]
pub struct Container {
    pub internal: usize,
}

} // verus!
