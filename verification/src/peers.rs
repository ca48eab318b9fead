//! The peer nodes that a node knows.
use crate::status::Status;
use crate::text::{byte_count, byte_len, trim, trimmed};
use vstd::prelude::*;

verus! {

/// The addresses of the known peers, each once, in the order in which they registered.
pub struct PeerList {
    nodes: Vec<String>,
}

impl View for PeerList {
    type V = Seq<Seq<char>>;

    closed spec fn view(&self) -> Seq<Seq<char>> {
        self.nodes@.map_values(|n: String| n@)
    }
}

/// Whether `node` can be registered: 1 to 128 bytes once trimmed.
pub open spec fn peer_accepted(node: Seq<char>) -> bool {
    trimmed(node).len() > 0 && byte_len(trimmed(node)) <= 128
}

/// The peers once `node` asked to be registered.
pub open spec fn peers_after(peers: Seq<Seq<char>>, node: Seq<char>) -> Seq<Seq<char>> {
    if peer_accepted(node) && !peers.contains(trimmed(node)) {
        peers.push(trimmed(node))
    } else {
        peers
    }
}

impl PeerList {
    /// No peer is listed twice.
    pub open spec fn wf(&self) -> bool {
        self@.no_duplicates()
    }

    /// A list without peers.
    pub fn new() -> (p: PeerList)
        ensures
            p.wf(),
            p@ == Seq::<Seq<char>>::empty(),
    {
        let p = PeerList { nodes: Vec::new() };
        assert(p@ =~= Seq::<Seq<char>>::empty());
        p
    }

    /// The number of peers.
    pub fn len(&self) -> (n: usize)
        ensures
            n == self@.len(),
    {
        self.nodes.len()
    }

    /// Whether `node` is listed.
    fn lists(&self, node: &str) -> (b: bool)
        ensures
            b == self@.contains(node@),
    {
        let name = node.to_owned();
        let mut i: usize = 0;
        while i < self.nodes.len()
            invariant
                i <= self.nodes.len(),
                name@ == node@,
                forall|j: int| 0 <= j < i ==> #[trigger] self@[j] != node@,
            decreases self.nodes.len() - i,
        {
            if self.nodes[i] == name {
                assert(self@[i as int] == node@);
                return true;
            }
            i = i + 1;
        }
        false
    }

    /// Lists the node at `node_address`, unless it is listed or its address is refused.
    pub fn register_peer_node(&mut self, node_address: &str) -> (s: Status)
        requires
            old(self).wf(),
        ensures
            final(self).wf(),
            final(self)@ == peers_after(old(self)@, node_address@),
            s == if peer_accepted(node_address@) {
                Status::Created
            } else {
                Status::BadRequest
            },
    {
        let node = trim(node_address);
        if node.is_empty() || byte_count(node) > 128 {
            return Status::BadRequest;
        }
        if !self.lists(node) {
            self.nodes.push(node.to_owned());
            assert(self@ =~= old(self)@.push(node@));
        }
        Status::Created
    }

    /// The addresses of the peers.
    pub fn get_peer_nodes(&self) -> (nodes: Vec<String>)
        ensures
            nodes@.map_values(|n: String| n@) == self@,
    {
        let mut nodes: Vec<String> = Vec::new();
        let mut i: usize = 0;
        while i < self.nodes.len()
            invariant
                i <= self.nodes.len(),
                nodes.len() == i,
                forall|j: int| 0 <= j < i ==> nodes@[j] == self.nodes@[j],
            decreases self.nodes.len() - i,
        {
            nodes.push(self.nodes[i].clone());
            i = i + 1;
        }
        assert(nodes@.map_values(|n: String| n@) =~= self@);
        nodes
    }
}

/// Registering the same node again changes nothing.
pub proof fn law_registering_twice(peers: Seq<Seq<char>>, node: Seq<char>)
    ensures
        peers_after(peers_after(peers, node), node) == peers_after(peers, node),
{
    let once = peers_after(peers, node);
    if peer_accepted(node) && !peers.contains(trimmed(node)) {
        assert(once[peers.len() as int] == trimmed(node));
    }
}

/// Registering keeps the peers that are listed, in their places, and adds one at most.
pub proof fn law_registering_keeps_order(peers: Seq<Seq<char>>, node: Seq<char>)
    ensures
        peers.is_prefix_of(peers_after(peers, node)),
        peers_after(peers, node).len() <= peers.len() + 1,
        peers.no_duplicates() ==> peers_after(peers, node).no_duplicates(),
{
}

/// A node is registered exactly where its trimmed address takes 1 to 128 bytes. It comes
/// last, unless it is listed already; nothing else changes. Any other one is answered with
/// `BadRequest` and changes nothing.
pub proof fn law_registration(node_address: &str)
    ensures
        forall|peers: &mut PeerList, s: Status| #[trigger]
            call_ensures(PeerList::register_peer_node, (peers, node_address), s) ==> {
                let node = trimmed(node_address@);
                let sound = node.len() > 0 && byte_len(node) <= 128;
                &&& sound <==> s == Status::Created
                &&& !sound <==> s == Status::BadRequest
                &&& sound ==> final(peers)@.contains(node)
                &&& sound && !peers@.contains(node) ==> final(peers)@ == peers@.push(node)
                &&& !sound || peers@.contains(node) ==> final(peers)@ == peers@
            },
{
    assert forall|peers: &mut PeerList, s: Status| #[trigger]
        call_ensures(PeerList::register_peer_node, (peers, node_address), s) implies {
        let node = trimmed(node_address@);
        let sound = node.len() > 0 && byte_len(node) <= 128;
        &&& sound <==> s == Status::Created
        &&& !sound <==> s == Status::BadRequest
        &&& sound ==> final(peers)@.contains(node)
        &&& sound && !peers@.contains(node) ==> final(peers)@ == peers@.push(node)
        &&& !sound || peers@.contains(node) ==> final(peers)@ == peers@
    } by {
        let node = trimmed(node_address@);
        if node.len() > 0 && byte_len(node) <= 128 && !peers@.contains(node) {
            assert(final(peers)@ == peers@.push(node));
            assert(final(peers)@[peers@.len() as int] == node);
        }
    }
}

/// The peers are handed out all, in the order in which they are listed, and a new list has
/// none.
pub proof fn law_peers_are_handed_out(
    peers: &PeerList,
    nodes: Vec<String>,
    n: usize,
    fresh: PeerList,
)
    requires
        call_ensures(PeerList::get_peer_nodes, (peers,), nodes),
        call_ensures(PeerList::len, (peers,), n),
        call_ensures(PeerList::new, (), fresh),
    ensures
        nodes@.len() == peers@.len(),
        n == peers@.len(),
        forall|i: int| 0 <= i < peers@.len() ==> (#[trigger] nodes@[i])@ == peers@[i],
        fresh@.len() == 0,
{
    let views = nodes@.map_values(|n: String| n@);
    assert(views.len() == nodes@.len());
    assert forall|i: int| 0 <= i < peers@.len() implies (#[trigger] nodes@[i])@ == peers@[i] by {
        assert(views[i] == nodes@[i]@);
    }
}

} // verus!
