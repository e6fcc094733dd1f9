//! The node registry and the scaling workflow: every node keeps a snapshot of
//! all known storage nodes and the designated index node; scaling provisions
//! a new unit, deploys the program image with a seeded registry, and only a
//! fully successful run registers the new node locally.
use vstd::prelude::*;

verus! {

broadcast use vstd::string::group_string_axioms;

/// Whether a sequence of node ids holds `id`.
pub open spec fn has_node(s: Seq<String>, id: Seq<char>) -> bool {
    exists|i: int| 0 <= i < s.len() && #[trigger] s[i]@ == id
}

/// A well-formed node set lists each node id once.
pub open spec fn wf_nodes(s: Seq<String>) -> bool {
    forall|i: int, j: int| 0 <= i < j < s.len() ==> s[i]@ != s[j]@
}

/// A registry snapshot: the known storage nodes and the index node.
pub struct NodeInfo {
    pub all_nodes: Vec<String>,
    pub index_node: String,
}

/// A registry snapshot with the node set flattened to an ordered sequence,
/// the read-only projection handed to callers.
pub struct NodeInfoVec {
    pub all_nodes: Vec<String>,
    pub index_node: String,
}

/// The seed handed to a node at creation or upgrade.
pub struct InstallArgs {
    pub node_info: Option<NodeInfo>,
}

impl NodeInfo {
    /// The registry invariant: each node id is held once.
    pub open spec fn wf(&self) -> bool {
        wf_nodes(self.all_nodes@)
    }

    /// A registry that knows no nodes and an empty index-node name.
    pub fn new() -> (r: NodeInfo)
        ensures
            r.all_nodes@ == Seq::<String>::empty(),
            r.index_node@ == Seq::<char>::empty(),
            r.wf(),
    {
        NodeInfo { all_nodes: Vec::new(), index_node: String::new() }
    }

    /// Whether this registry already knows a node id.
    pub fn knows(&self, id: &String) -> (r: bool)
        ensures
            r == has_node(self.all_nodes@, id@),
    {
        let n = self.all_nodes.len();
        let mut i: usize = 0;
        while i < n
            invariant
                i <= n,
                n == self.all_nodes@.len(),
                forall|j: int| 0 <= j < i ==> #[trigger] self.all_nodes@[j]@ != id@,
            decreases n - i,
        {
            if self.all_nodes[i].eq(id) {
                return true;
            }
            i = i + 1;
        }
        false
    }

    /// Add one node id; ids already known are kept once, so the registry
    /// invariant is preserved.
    pub fn insert_node(&mut self, id: String)
        ensures
            final(self).index_node == old(self).index_node,
            has_node(old(self).all_nodes@, id@) ==> final(self).all_nodes@ == old(
                self,
            ).all_nodes@,
            !has_node(old(self).all_nodes@, id@) ==> final(self).all_nodes@ == old(
                self,
            ).all_nodes@.push(id),
            old(self).wf() ==> final(self).wf(),
    {
        let ghost s0 = self.all_nodes@;
        if !self.knows(&id) {
            self.all_nodes.push(id);
            proof {
                if wf_nodes(s0) {
                    assert forall|i: int, j: int|
                        0 <= i < j < self.all_nodes@.len() implies self.all_nodes@[i]@
                        != self.all_nodes@[j]@ by {
                        if j < s0.len() {
                            assert(self.all_nodes@[i] == s0[i]);
                            assert(self.all_nodes@[j] == s0[j]);
                        } else {
                            assert(self.all_nodes@[i] == s0[i]);
                            assert(self.all_nodes@[j] == id);
                        }
                    }
                }
            }
        }
    }
}

/// The terminal states of one scaling run: a fully successful
/// provision-deploy-register chain, or a terminal failure from any stage.
#[derive(PartialEq, Eq, Structural, Clone, Copy, Debug)]
pub enum ScaleStatus {
    /// The run was requested; no collaborator call has completed yet.
    Requested,
    /// The platform provisioned a new unit.
    Provisioned,
    /// The program image was deployed into the new unit.
    Deployed,
    /// The local registry gained the new unit id: terminal success.
    Registered,
    /// A collaborator call failed or timed out: terminal, no registry change.
    Failed,
}

/// Initialize a node's registry: a seeded snapshot replaces the current one,
/// no seed keeps it.
pub fn init_canister(current: NodeInfo, args: InstallArgs) -> (r: NodeInfo)
    ensures
        match args.node_info {
            Some(seed) => r == seed,
            None => r == current,
        },
{
    match args.node_info {
        Some(seed) => seed,
        None => current,
    }
}

/// Read-only registry snapshot: the node set as an ordered sequence plus the
/// index node.
pub fn node_info(info: &NodeInfo) -> (r: NodeInfoVec)
    ensures
        r.all_nodes@.len() == info.all_nodes@.len(),
        forall|i: int| 0 <= i < info.all_nodes@.len() ==> #[trigger] r.all_nodes@[i]@
            == info.all_nodes@[i]@,
        r.index_node@ == info.index_node@,
        info.wf() ==> wf_nodes(r.all_nodes@),
{
    let mut out: Vec<String> = Vec::new();
    let n = info.all_nodes.len();
    let mut i: usize = 0;
    while i < n
        invariant
            i <= n,
            n == info.all_nodes@.len(),
            out@.len() == i,
            forall|j: int| 0 <= j < i ==> #[trigger] out@[j]@ == info.all_nodes@[j]@,
        decreases n - i,
    {
        out.push(info.all_nodes[i].clone());
        i = i + 1;
    }
    NodeInfoVec { all_nodes: out, index_node: info.index_node.clone() }
}

/// The registry seed deployed into a freshly provisioned unit: the current
/// node set plus the new unit id, under the same index node.
pub fn scale_prepare(info: &NodeInfo, new_id: &String) -> (r: NodeInfo)
    ensures
        r.index_node@ == info.index_node@,
        info.wf() ==> r.wf(),
        has_node(info.all_nodes@, new_id@) ==> r.all_nodes@ == info.all_nodes@,
        !has_node(info.all_nodes@, new_id@) ==> r.all_nodes@.len() == info.all_nodes@.len() + 1
            && r.all_nodes@.subrange(0, info.all_nodes@.len() as int) == info.all_nodes@
            && r.all_nodes@[info.all_nodes@.len() as int]@ == new_id@,
{
    let mut seeded = NodeInfo {
        all_nodes: clone_nodes(&info.all_nodes),
        index_node: info.index_node.clone(),
    };
    let ghost before = seeded.all_nodes@;
    proof {
        assert forall|i: int| 0 <= i < before.len() implies #[trigger] before[i]@
            == info.all_nodes@[i]@ by {}
        assert(before =~= info.all_nodes@);
        if has_node(info.all_nodes@, new_id@) {
            let w = choose|i: int|
                0 <= i < info.all_nodes@.len() && #[trigger] info.all_nodes@[i]@ == new_id@;
            assert(before[w]@ == new_id@);
        }
        if has_node(before, new_id@) {
            let w = choose|i: int| 0 <= i < before.len() && #[trigger] before[i]@ == new_id@;
            assert(info.all_nodes@[w]@ == new_id@);
        }
    }
    seeded.insert_node(new_id.clone());
    proof {
        if !has_node(info.all_nodes@, new_id@) {
            assert(seeded.all_nodes@.subrange(0, info.all_nodes@.len() as int) =~= info.all_nodes@);
        }
    }
    seeded
}

fn clone_nodes(v: &Vec<String>) -> (r: Vec<String>)
    ensures
        r@ == v@,
{
    let mut out: Vec<String> = Vec::new();
    let n = v.len();
    let mut i: usize = 0;
    while i < n
        invariant
            i <= n,
            n == v@.len(),
            out@ == v@.subrange(0, i as int),
        decreases n - i,
    {
        out.push(v[i].clone());
        proof {
            assert(out@ =~= v@.subrange(0, i as int + 1));
        }
        i = i + 1;
    }
    proof {
        assert(v@.subrange(0, n as int) =~= v@);
    }
    out
}

/// One full scaling run over its collaborators' reported outcomes: a failed
/// provision or deploy is terminal and leaves the registry untouched; only
/// the successful chain registers the new unit id, and never moves the index
/// node.
pub fn scale_up(info: &mut NodeInfo, provisioned: Option<String>, deploy_ok: bool) -> (r:
    ScaleStatus)
    ensures
        final(info).index_node == old(info).index_node,
        old(info).wf() ==> final(info).wf(),
        match provisioned {
            None => r == ScaleStatus::Failed && final(info).all_nodes@ == old(info).all_nodes@,
            Some(id) => if !deploy_ok {
                r == ScaleStatus::Failed && final(info).all_nodes@ == old(info).all_nodes@
            } else {
                r == ScaleStatus::Registered && (if has_node(
                    old(info).all_nodes@,
                    id@,
                ) {
                    final(info).all_nodes@ == old(info).all_nodes@
                } else {
                    final(info).all_nodes@ == old(info).all_nodes@.push(id)
                })
            },
        },
{
    match provisioned {
        None => ScaleStatus::Failed,
        Some(id) => {
            if !deploy_ok {
                ScaleStatus::Failed
            } else {
                info.insert_node(id);
                ScaleStatus::Registered
            }
        },
    }
}

/// Transfer a channel's ownership to another node. The behavior is declared
/// but intentionally unimplemented upstream: the call always reports failure
/// and changes nothing; the exactly-once ownership contract is future work.
pub fn migrate_to_node(node_id: String) -> (r: Result<(), ()>)
    ensures
        r is Err,
{
    Err(())
}

/// The periodic maintenance tick: a reserved extension point that performs no
/// action.
pub fn heartbeat() {
}

} // verus!
