//! The records of a graph description, as an outside decoder hands them over.
use vstd::prelude::*;

verus! {

/// A processing node: a unique name and the component type it runs.
#[derive(Debug, Clone)]
pub struct NodeSpec {
    pub name: String,
    pub sort: String,
}

/// A directed edge between two named ports; an empty selection means a plain port.
#[derive(Debug, Clone)]
pub struct EdgeSpec {
    pub o_name: String,
    pub o_port: String,
    pub o_selection: String,
    pub i_name: String,
    pub i_port: String,
    pub i_selection: String,
}

/// An initial packet: its destination and its `contract:value~option` directive.
#[derive(Debug, Clone)]
pub struct IipSpec {
    pub comp: String,
    pub port: String,
    pub selection: String,
    pub iip: String,
}

/// A whole graph description.
#[derive(Debug, Clone)]
pub struct Graph {
    pub nodes: Vec<NodeSpec>,
    pub edges: Vec<EdgeSpec>,
    pub iips: Vec<IipSpec>,
}

/// One port of one component, with the selection key of an array port.
#[derive(Debug, Clone)]
pub struct Endpoint {
    pub comp: String,
    pub port: String,
    pub selection: Option<String>,
}

/// The mathematical form of an endpoint.
pub type EndV = (Seq<char>, Seq<char>, Option<Seq<char>>);

/// An empty selection key stands for a plain port.
pub open spec fn sel_of(s: Seq<char>) -> Option<Seq<char>> {
    if s.len() == 0 {
        None
    } else {
        Some(s)
    }
}

pub open spec fn opt_view(o: Option<String>) -> Option<Seq<char>> {
    match o {
        Some(s) => Some(s@),
        None => None,
    }
}

impl View for Endpoint {
    type V = EndV;

    open spec fn view(&self) -> EndV {
        (self.comp@, self.port@, opt_view(self.selection))
    }
}

impl EdgeSpec {
    /// The producer endpoint of the edge.
    pub open spec fn src(&self) -> EndV {
        (self.o_name@, self.o_port@, sel_of(self.o_selection@))
    }

    /// The consumer endpoint of the edge.
    pub open spec fn dst(&self) -> EndV {
        (self.i_name@, self.i_port@, sel_of(self.i_selection@))
    }
}

impl IipSpec {
    /// The endpoint the packet is meant for.
    pub open spec fn target(&self) -> EndV {
        (self.comp@, self.port@, sel_of(self.selection@))
    }
}

fn opt_string_eq(a: &Option<String>, b: &Option<String>) -> (r: bool)
    ensures
        r == (opt_view(*a) == opt_view(*b)),
{
    match a {
        Some(x) => match b {
            Some(y) => x.eq(y),
            None => false,
        },
        None => b.is_none(),
    }
}

impl Endpoint {
    /// A copy with the same view.
    pub fn duplicate(&self) -> (r: Endpoint)
        ensures
            r@ == self@,
    {
        let selection = match &self.selection {
            Some(s) => Some(s.clone()),
            None => None,
        };
        Endpoint { comp: self.comp.clone(), port: self.port.clone(), selection }
    }

    /// Whether two endpoints name the same port and selection.
    pub fn same(&self, o: &Endpoint) -> (r: bool)
        ensures
            r == (self@ == o@),
    {
        self.comp == o.comp && self.port == o.port && opt_string_eq(&self.selection, &o.selection)
    }
}

/// `Some(s)` for a non-empty selection key, `None` for an empty one.
pub fn selection_of(s: &String) -> (r: Option<String>)
    ensures
        opt_view(r) == sel_of(s@),
{
    if s.as_str().is_empty() {
        None
    } else {
        Some(s.clone())
    }
}

impl EdgeSpec {
    /// The producer endpoint of the edge.
    pub fn source(&self) -> (r: Endpoint)
        ensures
            r@ == self.src(),
    {
        Endpoint { comp: self.o_name.clone(), port: self.o_port.clone(), selection: selection_of(&self.o_selection) }
    }

    /// The consumer endpoint of the edge.
    pub fn destination(&self) -> (r: Endpoint)
        ensures
            r@ == self.dst(),
    {
        Endpoint { comp: self.i_name.clone(), port: self.i_port.clone(), selection: selection_of(&self.i_selection) }
    }
}

} // verus!
