//! Initial packets: what each one needs before it can enter the network.
use vstd::prelude::*;
use crate::directive::{camel_spec, chars_of, split_input, split_spec, string_of, to_camel_case};
use crate::error::LoadError;
use crate::graph::{opt_view, EndV, Endpoint, Graph, IipSpec};
use crate::network::{describe, edge_known, ins_after, last_target, names_ok, node_names, outs_after, Network};

verus! {

/// An initial packet ready for injection: its resolved destination, its
/// parsed directive and the normalized identifier of its contract.
#[derive(Debug, Clone)]
pub struct IipPlan {
    pub target: Endpoint,
    pub contract: String,
    pub value: String,
    pub option: Option<String>,
    pub identifier: String,
}

/// The three messages handed to the packet builder, in this order.
#[derive(Debug, Clone)]
pub struct Emission {
    pub path: String,
    pub contract: String,
    pub value: String,
}

/// The destination exists: a declared component for a plain port, a
/// registered input-array slot for a selection.
pub open spec fn target_known(net: Network, iip: IipSpec) -> bool {
    target_known_in(net.names(), net.ins(), iip)
}

/// `target_known` over the component names and input-array slots alone.
pub open spec fn target_known_in(names: Seq<Seq<char>>, ins: Seq<EndV>, iip: IipSpec) -> bool {
    if iip.selection@.len() == 0 {
        names.contains(iip.comp@)
    } else {
        ins.contains(iip.target())
    }
}

/// The packet can be planned: its directive parses, names a contract, and its
/// destination exists.
pub open spec fn plan_ok(net: Network, iip: IipSpec) -> bool {
    &&& split_spec(iip.iip@) matches Some(t) && t.0.len() > 0
    &&& target_known(net, iip)
}

/// `p` is the plan of `iip`.
pub open spec fn plan_of(iip: IipSpec, p: IipPlan) -> bool {
    &&& p.target@ == iip.target()
    &&& split_spec(iip.iip@) == Some((p.contract@, p.value@, opt_view(p.option)))
    &&& p.identifier@ == camel_spec(p.contract@)
}

/// Where the registry's answer `reply` points: the contract file of that store entry.
pub open spec fn path_spec(reply: Seq<char>) -> Seq<char> {
    "/nix/store/"@ + reply + "/src/contract.capnp"@
}

/// Parses the directive of `iip` and resolves its destination in `net`.
pub fn plan_iip(net: &Network, iip: &IipSpec) -> (r: Result<IipPlan, LoadError>)
    ensures
        r is Ok <==> plan_ok(*net, *iip),
        r matches Ok(p) ==> plan_of(*iip, p),
        split_spec(iip.iip@) is None ==> r matches Err(LoadError::MalformedIip(_)),
        split_spec(iip.iip@) matches Some(t) && t.0.len() == 0 ==> r matches Err(LoadError::MissingDelimiter(_)),
        split_spec(iip.iip@) matches Some(t) && t.0.len() > 0 && !target_known(*net, *iip)
            ==> r matches Err(LoadError::UnknownEndpoint(_)),
{
    let (contract, value, option) = match split_input(iip.iip.as_str()) {
        Ok(t) => t,
        Err(e) => return Err(e),
    };
    if contract.as_str().is_empty() {
        return Err(LoadError::MissingDelimiter(describe("empty contract in ", &iip.iip)));
    }
    let known = if iip.selection.as_str().is_empty() {
        net.find_comp(&iip.comp)
    } else {
        let t = Endpoint { comp: iip.comp.clone(), port: iip.port.clone(), selection: Some(iip.selection.clone()) };
        net.find_in_slot(&t)
    };
    if !known {
        return Err(LoadError::UnknownEndpoint(describe("unknown destination ", &iip.comp)));
    }
    let selection = if iip.selection.as_str().is_empty() {
        None
    } else {
        Some(iip.selection.clone())
    };
    let identifier = to_camel_case(contract.as_str());
    let target = Endpoint { comp: iip.comp.clone(), port: iip.port.clone(), selection };
    Ok(IipPlan { target, contract, value, option, identifier })
}

/// The storage path of a contract from the registry's answer; an empty answer
/// means the contract could not be resolved.
pub fn resolve_path(reply: &str) -> (r: Result<String, LoadError>)
    ensures
        r is Err <==> reply@.len() == 0,
        r is Err ==> r->Err_0 is MissingDelimiter,
        r matches Ok(p) ==> p@ == path_spec(reply@),
{
    if reply.is_empty() {
        return Err(LoadError::MissingDelimiter(string_of(&chars_of("contract could not be resolved"))));
    }
    let mut v = chars_of("/nix/store/");
    let mut w = chars_of(reply);
    let mut z = chars_of("/src/contract.capnp");
    v.append(&mut w);
    v.append(&mut z);
    Ok(string_of(&v))
}

/// The three messages for the packet builder: resolved path, normalized
/// contract identifier, raw value.
pub fn emission(plan: &IipPlan, reply: &str) -> (r: Result<Emission, LoadError>)
    ensures
        r is Err <==> reply@.len() == 0,
        r is Err ==> r->Err_0 is MissingDelimiter,
        r matches Ok(m) ==> m.path@ == path_spec(reply@) && m.contract@ == plan.identifier@
            && m.value@ == plan.value@,
{
    let path = match resolve_path(reply) {
        Ok(p) => p,
        Err(e) => return Err(e),
    };
    Ok(Emission { path, contract: plan.identifier.clone(), value: plan.value.clone() })
}

impl Network {
    /// Whether `t` is a registered input-array slot.
    pub fn find_in_slot(&self, t: &Endpoint) -> (r: bool)
        ensures
            r == self.ins().contains(t@),
    {
        crate::network::contains_endpoint(&self.in_slots, t)
    }

    /// Leads the relay's output port to `target`; the target must exist.
    pub fn bind_exterior(&mut self, target: &Endpoint) -> (r: Result<(), LoadError>)
        ensures
            r is Ok <==> (match target.selection {
                None => old(self).has_comp(target.comp@),
                Some(_) => old(self).ins().contains(target@),
            }),
            r is Err ==> r->Err_0 is UnknownEndpoint && *final(self) == *old(self),
            r is Ok ==> (final(self).exterior matches Some(x) && x@ == target@),
            final(self).components == old(self).components,
            final(self).out_slots == old(self).out_slots,
            final(self).in_slots == old(self).in_slots,
            final(self).links == old(self).links,
    {
        let known = match &target.selection {
            None => self.find_comp(&target.comp),
            Some(_) => self.find_in_slot(target),
        };
        if !known {
            return Err(LoadError::UnknownEndpoint(describe("unknown destination ", &target.comp)));
        }
        self.exterior = Some(target.duplicate());
        Ok(())
    }
}

/// A loaded graph: the wired network and, in file order, the plan of each initial packet.
#[derive(Debug, Clone)]
pub struct Loaded {
    pub network: Network,
    pub plans: Vec<IipPlan>,
}

/// The whole description can be loaded.
pub open spec fn graph_ok(g: Graph) -> bool {
    let names = node_names(g.nodes@);
    &&& names_ok(names)
    &&& forall|k: int| 0 <= k < g.edges@.len() ==> edge_known(names, #[trigger] g.edges@[k])
    &&& forall|k: int| 0 <= k < g.iips@.len() ==> iip_ok_in(names, ins_after(g.edges@), #[trigger] g.iips@[k])
}

/// `plan_ok` over the component names and input-array slots alone.
pub open spec fn iip_ok_in(names: Seq<Seq<char>>, ins: Seq<EndV>, iip: IipSpec) -> bool {
    &&& split_spec(iip.iip@) matches Some(t) && t.0.len() > 0
    &&& target_known_in(names, ins, iip)
}

/// Builds and wires the network, then plans every initial packet in order.
/// The first problem aborts the load.
pub fn load_graph(g: &Graph) -> (r: Result<Loaded, LoadError>)
    ensures
        r is Err <==> !graph_ok(*g),
        r is Err ==> (r->Err_0 is DuplicateNode <==> !names_ok(node_names(g.nodes@))),
        r matches Ok(l) ==> {
            &&& l.network.wf()
            &&& l.network.names() == node_names(g.nodes@)
            &&& forall|i: int| 0 <= i < g.nodes@.len() ==> #[trigger] l.network.components@[i].sort@ == g.nodes@[i].sort@
            &&& l.network.outs() == outs_after(g.edges@)
            &&& l.network.ins() == ins_after(g.edges@)
            &&& forall|f: EndV, t: EndV| #[trigger] l.network.routes_to(f, t) <==> last_target(g.edges@, f) == Some(t)
            &&& l.network.exterior is None
            &&& l.plans@.len() == g.iips@.len()
            &&& forall|k: int| 0 <= k < g.iips@.len() ==> plan_of(g.iips@[k], #[trigger] l.plans@[k])
        },
{
    let network = match Network::load(&g.nodes, &g.edges) {
        Ok(n) => n,
        Err(e) => return Err(e),
    };
    let mut plans: Vec<IipPlan> = Vec::new();
    let mut i: usize = 0;
    while i < g.iips.len()
        invariant
            i <= g.iips.len(),
            plans@.len() == i,
            network.names() == node_names(g.nodes@),
            names_ok(node_names(g.nodes@)),
            network.ins() == ins_after(g.edges@),
            forall|k: int| 0 <= k < i ==> iip_ok_in(network.names(), network.ins(), #[trigger] g.iips@[k]),
            forall|k: int| 0 <= k < i ==> plan_of(g.iips@[k], #[trigger] plans@[k]),
        decreases g.iips.len() - i,
    {
        match plan_iip(&network, &g.iips[i]) {
            Ok(p) => plans.push(p),
            Err(e) => return Err(e),
        }
        i = i + 1;
    }
    Ok(Loaded { network, plans })
}

} // verus!
