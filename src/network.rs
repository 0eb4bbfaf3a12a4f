//! The wiring registry: component instances, array-port slots and links.
use vstd::prelude::*;
use crate::error::LoadError;
use crate::graph::{EndV, EdgeSpec, Endpoint, NodeSpec};
use crate::directive::{chars_of, string_of};

verus! {

/// One running node of the network, tagged with its component type.
#[derive(Debug, Clone)]
pub struct ComponentInstance {
    pub name: String,
    pub sort: String,
}

/// A producer endpoint bound to a consumer endpoint.
#[derive(Debug, Clone)]
pub struct Link {
    pub from: Endpoint,
    pub to: Endpoint,
}

/// The network as wired so far. Besides the listed components there is
/// always one synthetic relay, `exterior`, whose single output port leads to
/// `exterior` when it has been bound.
#[derive(Debug, Clone)]
pub struct Network {
    pub components: Vec<ComponentInstance>,
    pub out_slots: Vec<Endpoint>,
    pub in_slots: Vec<Endpoint>,
    pub links: Vec<Link>,
    pub exterior: Option<Endpoint>,
}

/// The name of the synthetic relay component.
pub open spec fn exterior_name() -> Seq<char> {
    seq!['e', 'x', 't', 'e', 'r', 'i', 'o', 'r']
}

pub open spec fn node_names(nodes: Seq<NodeSpec>) -> Seq<Seq<char>> {
    nodes.map_values(|n: NodeSpec| n.name@)
}

/// Node names that are pairwise distinct and leave the relay's name free.
pub open spec fn names_ok(names: Seq<Seq<char>>) -> bool {
    names.no_duplicates() && !names.contains(exterior_name())
}

/// A slot list after registering `s`: it grows only when `s` is new.
pub open spec fn register(slots: Seq<EndV>, s: EndV) -> Seq<EndV> {
    if slots.contains(s) {
        slots
    } else {
        slots.push(s)
    }
}

pub open spec fn string_views(v: Seq<String>) -> Seq<Seq<char>> {
    v.map_values(|s: String| s@)
}

pub open spec fn slot_views(v: Seq<Endpoint>) -> Seq<EndV> {
    v.map_values(|e: Endpoint| e@)
}

impl Network {
    pub open spec fn names(&self) -> Seq<Seq<char>> {
        self.components@.map_values(|c: ComponentInstance| c.name@)
    }

    pub open spec fn has_comp(&self, n: Seq<char>) -> bool {
        self.names().contains(n)
    }

    pub open spec fn outs(&self) -> Seq<EndV> {
        slot_views(self.out_slots@)
    }

    pub open spec fn ins(&self) -> Seq<EndV> {
        slot_views(self.in_slots@)
    }

    /// A packet sent at `from` is delivered at `to`.
    pub open spec fn routes_to(&self, from: EndV, to: EndV) -> bool {
        exists|i: int| 0 <= i < self.links@.len() && #[trigger] self.links@[i].from@ == from && self.links@[i].to@ == to
    }

    /// Well-formed: unique names, no slot listed twice, one link per producer endpoint.
    pub open spec fn wf(&self) -> bool {
        &&& names_ok(self.names())
        &&& self.outs().no_duplicates()
        &&& self.ins().no_duplicates()
        &&& forall|i: int, j: int|
            0 <= i < self.links@.len() && 0 <= j < self.links@.len() && i != j
                ==> #[trigger] self.links@[i].from@ != #[trigger] self.links@[j].from@
    }

    /// Whether a component of that name was declared.
    pub fn find_comp(&self, n: &String) -> (r: bool)
        ensures
            r == self.has_comp(n@),
    {
        let mut i: usize = 0;
        while i < self.components.len()
            invariant
                i <= self.components.len(),
                forall|j: int| 0 <= j < i ==> self.components@[j].name@ != n@,
            decreases self.components.len() - i,
        {
            if self.components[i].name == *n {
                assert(self.names()[i as int] == n@);
                return true;
            }
            i = i + 1;
        }
        proof {
            if self.has_comp(n@) {
                let k = self.names().index_of(n@);
                assert(self.components@[k].name@ == n@);
            }
        }
        false
    }
}

/// Whether `e` is among `v`, by value.
pub(crate) fn contains_endpoint(v: &Vec<Endpoint>, e: &Endpoint) -> (r: bool)
    ensures
        r == slot_views(v@).contains(e@),
{
    let mut i: usize = 0;
    while i < v.len()
        invariant
            i <= v.len(),
            forall|j: int| 0 <= j < i ==> v@[j]@ != e@,
        decreases v.len() - i,
    {
        if v[i].same(e) {
            assert(slot_views(v@)[i as int] == e@);
            return true;
        }
        i = i + 1;
    }
    proof {
        if slot_views(v@).contains(e@) {
            let k = slot_views(v@).index_of(e@);
            assert(v@[k]@ == e@);
        }
    }
    false
}

/// Adds `e` to `v` unless it is already there.
fn register_slot(v: &mut Vec<Endpoint>, e: &Endpoint)
    requires
        slot_views(old(v)@).no_duplicates(),
    ensures
        slot_views(final(v)@) == register(slot_views(old(v)@), e@),
        slot_views(final(v)@).no_duplicates(),
{
    if !contains_endpoint(v, e) {
        v.push(e.duplicate());
        proof {
            assert(slot_views(v@) =~= slot_views(old(v)@).push(e@));
        }
    }
}

/// A readable cause: `prefix` followed by `name`.
pub(crate) fn describe(prefix: &str, name: &String) -> (r: String)
    ensures
        r@ == prefix@ + name@,
{
    let mut v = chars_of(prefix);
    let mut w = chars_of(name.as_str());
    v.append(&mut w);
    string_of(&v)
}

impl Network {
    /// Every instance name: the declared components, then the relay.
    pub open spec fn instances(&self) -> Seq<Seq<char>> {
        self.names().push(exterior_name())
    }

    /// Creates one instance per node, plus the relay; fails on a repeated name.
    pub fn build(nodes: &Vec<NodeSpec>) -> (r: Result<Network, LoadError>)
        ensures
            r is Err <==> !names_ok(node_names(nodes@)),
            r is Err ==> r->Err_0 is DuplicateNode,
            r matches Ok(net) ==> {
                &&& net.wf()
                &&& net.components@.len() == nodes@.len()
                &&& forall|i: int| 0 <= i < nodes@.len() ==> #[trigger] net.components@[i].name@ == nodes@[i].name@
                &&& forall|i: int| 0 <= i < nodes@.len() ==> #[trigger] net.components@[i].sort@ == nodes@[i].sort@
                &&& net.names() == node_names(nodes@)
                &&& net.instances().len() == nodes@.len() + 1
                &&& net.instances().no_duplicates()
                &&& net.out_slots@.len() == 0
                &&& net.in_slots@.len() == 0
                &&& net.links@.len() == 0
                &&& net.exterior is None
            },
    {
        let ext = string_of(&chars_of("exterior"));
        proof {
            reveal_strlit("exterior");
            assert(ext@ == exterior_name());
        }
        let mut comps: Vec<ComponentInstance> = Vec::new();
        let mut i: usize = 0;
        while i < nodes.len()
            invariant
                i <= nodes.len(),
                comps@.len() == i,
                ext@ == exterior_name(),
                forall|k: int| 0 <= k < i ==> #[trigger] comps@[k].name@ == nodes@[k].name@,
                forall|k: int| 0 <= k < i ==> #[trigger] comps@[k].sort@ == nodes@[k].sort@,
                names_ok(node_names(nodes@.take(i as int))),
            decreases nodes.len() - i,
        {
            let name = &nodes[i].name;
            let ghost names = node_names(nodes@);
            assert(node_names(nodes@.take(i as int)) =~= names.take(i as int));
            if *name == ext {
                proof {
                    assert(names[i as int] == exterior_name());
                }
                return Err(LoadError::DuplicateNode(describe("duplicate node ", name)));
            }
            let mut k: usize = 0;
            while k < i
                invariant
                    k <= i < nodes.len(),
                    comps@.len() == i,
                    names == node_names(nodes@),
                    names.len() == nodes@.len(),
                    name@ == names[i as int],
                    forall|m: int| 0 <= m < i ==> #[trigger] comps@[m].name@ == nodes@[m].name@,
                    forall|m: int| 0 <= m < k ==> names[m] != names[i as int],
                decreases i - k,
            {
                if comps[k].name == *name {
                    proof {
                        assert(names[k as int] == names[i as int]);
                        assert(!names.no_duplicates());
                    }
                    return Err(LoadError::DuplicateNode(describe("duplicate node ", name)));
                }
                k = k + 1;
            }
            let ghost before = comps@;
            comps.push(ComponentInstance { name: name.clone(), sort: nodes[i].sort.clone() });
            proof {
                assert forall|k: int| 0 <= k < i + 1 implies #[trigger] comps@[k].sort@ == nodes@[k].sort@ by {
                    if k < i {
                        assert(comps@[k] == before[k]);
                    }
                }
                assert forall|k: int| 0 <= k < i + 1 implies #[trigger] comps@[k].name@ == nodes@[k].name@ by {
                    if k < i {
                        assert(comps@[k] == before[k]);
                    }
                }
            }
            i = i + 1;
            proof {
                let t = names.take(i as int);
                assert(node_names(nodes@.take(i as int)) =~= t);
                assert forall|a: int, b: int| 0 <= a < t.len() && 0 <= b < t.len() && a != b
                    implies t[a] != t[b] by {
                    assert(names.take(i - 1).no_duplicates());
                    if a < i - 1 && b < i - 1 {
                        assert(names.take(i - 1)[a] == t[a]);
                        assert(names.take(i - 1)[b] == t[b]);
                    }
                }
                assert(!t.contains(exterior_name())) by {
                    if t.contains(exterior_name()) {
                        let j = t.index_of(exterior_name());
                        if j < i - 1 {
                            assert(names.take(i - 1)[j] == t[j]);
                        }
                    }
                }
            }
        }
        let net = Network {
            components: comps,
            out_slots: Vec::new(),
            in_slots: Vec::new(),
            links: Vec::new(),
            exterior: None,
        };
        proof {
            assert(nodes@.take(nodes@.len() as int) =~= nodes@);
            assert(net.names() =~= node_names(nodes@));
            assert(net.outs() =~= Seq::<EndV>::empty());
            assert(net.ins() =~= Seq::<EndV>::empty());
            let inst = net.instances();
            assert forall|a: int, b: int| 0 <= a < inst.len() && 0 <= b < inst.len() && a != b
                implies inst[a] != inst[b] by {
                if a == inst.len() - 1 {
                    assert(net.names().contains(inst[b]));
                } else if b == inst.len() - 1 {
                    assert(net.names().contains(inst[a]));
                }
            }
        }
        Ok(net)
    }

    /// The names of all instances, the relay last.
    pub fn instance_names(&self) -> (r: Vec<String>)
        ensures
            string_views(r@) == self.instances(),
    {
        let mut out: Vec<String> = Vec::new();
        let mut i: usize = 0;
        while i < self.components.len()
            invariant
                i <= self.components.len(),
                string_views(out@) == self.names().take(i as int),
            decreases self.components.len() - i,
        {
            let ghost before = out@;
            out.push(self.components[i].name.clone());
            proof {
                assert(string_views(out@) =~= string_views(before).push(self.components@[i as int].name@));
                assert(self.names().take(i + 1) =~= self.names().take(i as int).push(self.names()[i as int]));
            }
            i = i + 1;
        }
        let ext = string_of(&chars_of("exterior"));
        proof {
            reveal_strlit("exterior");
        }
        let ghost before = out@;
        out.push(ext);
        proof {
            assert(ext@ == exterior_name());
            assert(string_views(out@) =~= string_views(before).push(ext@));
            assert(self.names().take(self.names().len() as int) =~= self.names());
        }
        out
    }
}

/// The index of the link that leaves `from`, if there is one.
fn find_link(links: &Vec<Link>, from: &Endpoint) -> (r: Option<usize>)
    ensures
        r matches Some(i) ==> i < links@.len() && links@[i as int].from@ == from@,
        r is None ==> forall|j: int| 0 <= j < links@.len() ==> #[trigger] links@[j].from@ != from@,
{
    let mut i: usize = 0;
    while i < links.len()
        invariant
            i <= links.len(),
            forall|j: int| 0 <= j < i ==> #[trigger] links@[j].from@ != from@,
        decreases links.len() - i,
    {
        if links[i].from.same(from) {
            return Some(i);
        }
        i = i + 1;
    }
    None
}

impl Network {
    /// Binds the producer endpoint `from` to `to`, replacing an earlier binding of `from`.
    fn set_link(&mut self, from: Endpoint, to: Endpoint)
        requires
            old(self).wf(),
        ensures
            final(self).wf(),
            final(self).components == old(self).components,
            final(self).out_slots == old(self).out_slots,
            final(self).in_slots == old(self).in_slots,
            final(self).exterior == old(self).exterior,
            final(self).routes_to(from@, to@),
            forall|t: EndV| #[trigger] final(self).routes_to(from@, t) ==> t == to@,
            forall|f: EndV, t: EndV| f != from@ ==> (#[trigger] final(self).routes_to(f, t) == old(self).routes_to(f, t)),
    {
        let ghost before = self.links@;
        match find_link(&self.links, &from) {
            Some(i) => {
                let ghost fv = from@;
                let ghost tv = to@;
                self.links.set(i, Link { from, to });
                proof {
                    assert(self.links@[i as int].from@ == fv);
                    assert forall|f: EndV, t: EndV| f != fv implies
                        (#[trigger] self.routes_to(f, t) == old(self).routes_to(f, t)) by {
                        if self.routes_to(f, t) {
                            let k = choose|k: int| 0 <= k < self.links@.len() && #[trigger] self.links@[k].from@ == f && self.links@[k].to@ == t;
                            assert(before[k].from@ == f);
                        }
                        if old(self).routes_to(f, t) {
                            let k = choose|k: int| 0 <= k < before.len() && #[trigger] before[k].from@ == f && before[k].to@ == t;
                            assert(self.links@[k].from@ == f);
                        }
                    }
                    assert forall|t: EndV| #[trigger] self.routes_to(fv, t) implies t == tv by {
                        let k = choose|k: int| 0 <= k < self.links@.len() && #[trigger] self.links@[k].from@ == fv && self.links@[k].to@ == t;
                        if k != i {
                            assert(before[k].from@ == before[i as int].from@);
                        }
                    }
                }
                return;
            },
            None => {},
        }
        let ghost fv = from@;
        let ghost tv = to@;
        self.links.push(Link { from, to });
        proof {
            let n = before.len() as int;
            assert(self.links@[n].from@ == fv);
            assert forall|f: EndV, t: EndV| f != fv implies
                (#[trigger] self.routes_to(f, t) == old(self).routes_to(f, t)) by {
                if self.routes_to(f, t) {
                    let k = choose|k: int| 0 <= k < self.links@.len() && #[trigger] self.links@[k].from@ == f && self.links@[k].to@ == t;
                    assert(before[k].from@ == f);
                }
                if old(self).routes_to(f, t) {
                    let k = choose|k: int| 0 <= k < before.len() && #[trigger] before[k].from@ == f && before[k].to@ == t;
                    assert(self.links@[k].from@ == f);
                }
            }
            assert forall|t: EndV| #[trigger] self.routes_to(fv, t) implies t == tv by {
                let k = choose|k: int| 0 <= k < self.links@.len() && #[trigger] self.links@[k].from@ == fv && self.links@[k].to@ == t;
                if k != n {
                    assert(before[k].from@ == fv);
                }
            }
        }
    }

    /// Wires one edge. With no selection on either side the plain ports are
    /// bound; a producer selection is registered on the output array, a
    /// consumer selection on the input array (registering a known key again
    /// changes nothing), and the keyed endpoints are bound. Both components
    /// must exist; otherwise nothing changes.
    pub fn connect_edge(&mut self, e: &EdgeSpec) -> (r: Result<(), LoadError>)
        requires
            old(self).wf(),
        ensures
            r is Err <==> !(old(self).has_comp(e.o_name@) && old(self).has_comp(e.i_name@)),
            r is Err ==> r->Err_0 is UnknownEndpoint && *final(self) == *old(self),
            r is Ok ==> {
                &&& final(self).wf()
                &&& final(self).components == old(self).components
                &&& final(self).exterior == old(self).exterior
                &&& final(self).outs() == if e.o_selection@.len() == 0 {
                    old(self).outs()
                } else {
                    register(old(self).outs(), e.src())
                }
                &&& final(self).ins() == if e.i_selection@.len() == 0 {
                    old(self).ins()
                } else {
                    register(old(self).ins(), e.dst())
                }
                &&& final(self).routes_to(e.src(), e.dst())
                &&& forall|t: EndV| #[trigger] final(self).routes_to(e.src(), t) ==> t == e.dst()
                &&& forall|f: EndV, t: EndV|
                    f != e.src() ==> (#[trigger] final(self).routes_to(f, t) == old(self).routes_to(f, t))
            },
    {
        if !self.find_comp(&e.o_name) {
            return Err(LoadError::UnknownEndpoint(describe("unknown component ", &e.o_name)));
        }
        if !self.find_comp(&e.i_name) {
            return Err(LoadError::UnknownEndpoint(describe("unknown component ", &e.i_name)));
        }
        let from = e.source();
        let to = e.destination();
        if from.selection.is_some() {
            register_slot(&mut self.out_slots, &from);
        }
        if to.selection.is_some() {
            register_slot(&mut self.in_slots, &to);
        }
        self.set_link(from, to);
        Ok(())
    }
}

/// Both ends of the edge name declared components.
pub open spec fn edge_known(names: Seq<Seq<char>>, e: EdgeSpec) -> bool {
    names.contains(e.o_name@) && names.contains(e.i_name@)
}

/// Where the last edge leaving `from` leads: later edges rebind earlier ones.
pub open spec fn last_target(edges: Seq<EdgeSpec>, from: EndV) -> Option<EndV>
    decreases edges.len(),
{
    if edges.len() == 0 {
        None
    } else if edges.last().src() == from {
        Some(edges.last().dst())
    } else {
        last_target(edges.drop_last(), from)
    }
}

/// The output-array slots that the edges register, in order of first use.
pub open spec fn outs_after(edges: Seq<EdgeSpec>) -> Seq<EndV>
    decreases edges.len(),
{
    if edges.len() == 0 {
        Seq::empty()
    } else if edges.last().o_selection@.len() == 0 {
        outs_after(edges.drop_last())
    } else {
        register(outs_after(edges.drop_last()), edges.last().src())
    }
}

/// The input-array slots that the edges register, in order of first use.
pub open spec fn ins_after(edges: Seq<EdgeSpec>) -> Seq<EndV>
    decreases edges.len(),
{
    if edges.len() == 0 {
        Seq::empty()
    } else if edges.last().i_selection@.len() == 0 {
        ins_after(edges.drop_last())
    } else {
        register(ins_after(edges.drop_last()), edges.last().dst())
    }
}

impl Network {
    /// Builds the network of `nodes` and wires `edges` in order, stopping at
    /// the first failure; no partly wired network is returned.
    pub fn load(nodes: &Vec<NodeSpec>, edges: &Vec<EdgeSpec>) -> (r: Result<Network, LoadError>)
        ensures
            r is Err <==> !names_ok(node_names(nodes@))
                || exists|k: int| 0 <= k < edges@.len() && !edge_known(node_names(nodes@), #[trigger] edges@[k]),
            r is Err ==> (r->Err_0 is DuplicateNode <==> !names_ok(node_names(nodes@))),
            r is Err ==> (r->Err_0 is DuplicateNode || r->Err_0 is UnknownEndpoint),
            r matches Ok(net) ==> {
                &&& net.wf()
                &&& net.names() == node_names(nodes@)
                &&& net.components@.len() == nodes@.len()
                &&& forall|i: int| 0 <= i < nodes@.len() ==> #[trigger] net.components@[i].sort@ == nodes@[i].sort@
                &&& net.outs() == outs_after(edges@)
                &&& net.ins() == ins_after(edges@)
                &&& forall|f: EndV, t: EndV| #[trigger] net.routes_to(f, t) <==> last_target(edges@, f) == Some(t)
                &&& net.exterior is None
            },
    {
        let mut net = match Network::build(nodes) {
            Ok(n) => n,
            Err(e) => return Err(e),
        };
        let ghost names = node_names(nodes@);
        proof {
            assert(edges@.take(0) =~= Seq::<EdgeSpec>::empty());
            assert(net.outs() =~= Seq::<EndV>::empty());
            assert(net.ins() =~= Seq::<EndV>::empty());
        }
        let mut i: usize = 0;
        while i < edges.len()
            invariant
                i <= edges.len(),
                net.wf(),
                names_ok(names),
                net.names() == names,
                names == node_names(nodes@),
                net.components@.len() == nodes@.len(),
                forall|j: int| 0 <= j < nodes@.len() ==> #[trigger] net.components@[j].sort@ == nodes@[j].sort@,
                forall|k: int| 0 <= k < i ==> edge_known(names, #[trigger] edges@[k]),
                net.outs() == outs_after(edges@.take(i as int)),
                net.ins() == ins_after(edges@.take(i as int)),
                forall|f: EndV, t: EndV| #[trigger] net.routes_to(f, t) <==> last_target(edges@.take(i as int), f) == Some(t),
                net.exterior is None,
            decreases edges.len() - i,
        {
            let ghost prev = net;
            match net.connect_edge(&edges[i]) {
                Ok(()) => {},
                Err(e) => return Err(e),
            }
            proof {
                let t = edges@.take(i + 1);
                assert(t.drop_last() =~= edges@.take(i as int));
                assert(t.last() == edges@[i as int]);
                assert forall|f: EndV, x: EndV| #[trigger] net.routes_to(f, x) <==> last_target(t, f) == Some(x) by {
                    if f != edges@[i as int].src() {
                        assert(net.routes_to(f, x) == prev.routes_to(f, x));
                    } else {
                        if net.routes_to(f, x) {
                            assert(x == edges@[i as int].dst());
                        }
                    }
                }
            }
            i = i + 1;
        }
        proof {
            assert(edges@.take(edges@.len() as int) =~= edges@);
        }
        Ok(net)
    }
}

} // verus!
