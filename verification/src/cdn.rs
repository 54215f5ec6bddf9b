//! CDN nodes listed by the launcher information, and the choice of a node.

use vstd::prelude::*;
use crate::error::{WwError, ErrorKind, network_error};
use crate::json::{Json, member, str_member, int_of, array_of};

verus! {

/// One CDN node of the launcher information (`default.cdnList`).
#[derive(Debug)]
pub struct CdnNode {
    /// Base URL of the node.
    pub url: String,
    /// Priority (field `P`); the larger, the more preferred.
    pub priority: i64,
    /// Flag `K1`.
    pub k1: i64,
    /// Flag `K2`.
    pub k2: i64,
    /// Whether this is the node chosen automatically: of the nodes with
    /// `K1 == 1` and `K2 == 1`, the one with the highest priority.
    pub recommended: bool,
}

/// Whether a node may be chosen automatically.
pub open spec fn eligible(n: CdnNode) -> bool {
    n.k1 == 1 && n.k2 == 1
}

/// Whether node `i` is the automatic choice: an eligible node with the
/// highest priority among eligible nodes, and the last such node in the list.
pub open spec fn is_best(nodes: Seq<CdnNode>, i: int) -> bool {
    &&& 0 <= i < nodes.len()
    &&& eligible(nodes[i])
    &&& forall|j: int| 0 <= j < nodes.len() && eligible(#[trigger] nodes[j]) ==> nodes[j].priority <= nodes[i].priority
    &&& forall|j: int| i < j < nodes.len() && eligible(#[trigger] nodes[j]) ==> nodes[j].priority < nodes[i].priority
}

/// Whether some node may be chosen automatically.
pub open spec fn has_eligible(nodes: Seq<CdnNode>) -> bool {
    exists|j: int| 0 <= j < nodes.len() && eligible(#[trigger] nodes[j])
}

/// The automatic choice is unique.
pub proof fn lemma_best_unique(nodes: Seq<CdnNode>, i: int, k: int)
    requires
        is_best(nodes, i),
        is_best(nodes, k),
    ensures
        i == k,
{
    if i < k {
        assert(nodes[k].priority < nodes[i].priority);
        assert(nodes[i].priority <= nodes[k].priority);
    } else if k < i {
        assert(nodes[i].priority < nodes[k].priority);
        assert(nodes[k].priority <= nodes[i].priority);
    }
}

/// Only a node with `K1 == 1` and `K2 == 1` can be the automatic choice, and
/// it has the highest priority among such nodes, the last of them on a tie;
/// a node with any other `K1` or `K2` is never chosen.
pub proof fn lemma_choice_has_both_flags(nodes: Seq<CdnNode>, i: int)
    ensures
        is_best(nodes, i) ==> nodes[i].k1 == 1 && nodes[i].k2 == 1
            && (forall|j: int| 0 <= j < nodes.len() && (#[trigger] nodes[j]).k1 == 1 && nodes[j].k2 == 1
                ==> nodes[j].priority <= nodes[i].priority)
            && (forall|j: int| i < j < nodes.len() && (#[trigger] nodes[j]).k1 == 1 && nodes[j].k2 == 1
                ==> nodes[j].priority < nodes[i].priority),
        0 <= i < nodes.len() && (nodes[i].k1 != 1 || nodes[i].k2 != 1) ==> !is_best(nodes, i),
{
}

/// Some node is chosen automatically exactly when some node has `K1 == 1`
/// and `K2 == 1`.
pub proof fn lemma_choice_exists(nodes: Seq<CdnNode>)
    ensures
        has_eligible(nodes) <==> exists|j: int| 0 <= j < nodes.len() && (#[trigger] nodes[j]).k1 == 1 && nodes[j].k2 == 1,
{
}

/// Whether a node is the automatic choice depends only on the flags and
/// priorities of the nodes.
proof fn lemma_best_same_keys(a: Seq<CdnNode>, b: Seq<CdnNode>, i: int)
    requires
        a.len() == b.len(),
        forall|m: int|
            #![trigger a[m]]
            0 <= m < a.len() ==> a[m].priority == b[m].priority && a[m].k1 == b[m].k1 && a[m].k2 == b[m].k2,
    ensures
        is_best(a, i) == is_best(b, i),
{
    if 0 <= i < a.len() {
        assert(a[i].priority == b[i].priority);
    }
    if is_best(b, i) {
        assert forall|m: int| 0 <= m < a.len() && eligible(#[trigger] a[m]) implies a[m].priority <= a[i].priority by {
            assert(eligible(b[m]));
        }
        assert forall|m: int| i < m < a.len() && eligible(#[trigger] a[m]) implies a[m].priority < a[i].priority by {
            assert(eligible(b[m]));
        }
    }
    if is_best(a, i) {
        assert forall|m: int| 0 <= m < b.len() && eligible(#[trigger] b[m]) implies b[m].priority <= b[i].priority by {
            assert(a[m].priority == b[m].priority);
            assert(eligible(a[m]));
        }
        assert forall|m: int| i < m < b.len() && eligible(#[trigger] b[m]) implies b[m].priority < b[i].priority by {
            assert(a[m].priority == b[m].priority);
            assert(eligible(a[m]));
        }
    }
}

/// The index of the automatic choice among `nodes`, if any node is eligible.
pub fn best_node(nodes: &Vec<CdnNode>) -> (r: Option<usize>)
    ensures
        match r {
            Some(i) => is_best(nodes@, i as int),
            None => !has_eligible(nodes@),
        },
        r matches Some(i) ==> nodes@[i as int].k1 == 1 && nodes@[i as int].k2 == 1
            && (forall|j: int| 0 <= j < nodes@.len() && (#[trigger] nodes@[j]).k1 == 1 && nodes@[j].k2 == 1
                ==> nodes@[j].priority <= nodes@[i as int].priority)
            && (forall|j: int| i < j < nodes@.len() && (#[trigger] nodes@[j]).k1 == 1 && nodes@[j].k2 == 1
                ==> nodes@[j].priority < nodes@[i as int].priority),
        r is None <==> forall|j: int| 0 <= j < nodes@.len() ==> !((#[trigger] nodes@[j]).k1 == 1 && nodes@[j].k2 == 1),
{
    let mut best: Option<usize> = None;
    let mut i: usize = 0;
    while i < nodes.len()
        invariant
            i <= nodes@.len(),
            match best {
                Some(b) => {
                    &&& b < i
                    &&& eligible(nodes@[b as int])
                    &&& forall|j: int| 0 <= j < i && eligible(#[trigger] nodes@[j]) ==> nodes@[j].priority <= nodes@[b as int].priority
                    &&& forall|j: int| b < j < i && eligible(#[trigger] nodes@[j]) ==> nodes@[j].priority < nodes@[b as int].priority
                },
                None => forall|j: int| 0 <= j < i ==> !eligible(#[trigger] nodes@[j]),
            },
        decreases nodes@.len() - i,
    {
        let n = &nodes[i];
        if n.k1 == 1 && n.k2 == 1 {
            match best {
                Some(b) => {
                    if n.priority >= nodes[b].priority {
                        best = Some(i);
                    }
                },
                None => {
                    best = Some(i);
                },
            }
        }
        i = i + 1;
    }
    best
}

/// The URL of the node chosen automatically; an error when no node is eligible.
pub fn recommended_cdn(nodes: &Vec<CdnNode>) -> (r: Result<String, WwError>)
    ensures
        match r {
            Ok(u) => exists|i: int| is_best(nodes@, i) && nodes@[i].url@ == u@,
            Err(e) => !has_eligible(nodes@) && e@ == (ErrorKind::Network, "没有可用的 CDN 节点"@),
        },
        r matches Ok(u) ==> exists|i: int| 0 <= i < nodes@.len() && (#[trigger] nodes@[i]).url@ == u@
            && nodes@[i].k1 == 1 && nodes@[i].k2 == 1,
        r is Err <==> forall|j: int| 0 <= j < nodes@.len() ==> !((#[trigger] nodes@[j]).k1 == 1 && nodes@[j].k2 == 1),
{
    match best_node(nodes) {
        Some(i) => Ok(nodes[i].url.clone()),
        None => Err(network_error("没有可用的 CDN 节点")),
    }
}

/// The node that the JSON value `n` describes, before the automatic choice:
/// its `url` (which it must have), and `P`, `K1`, `K2`, each 0 when absent or
/// not an `i64`.
pub open spec fn node_fields(n: Json) -> Option<(Seq<char>, i64, i64, i64)> {
    match str_member(n, "url"@) {
        Some(u) => Some((
            u,
            match int_of(member(n, "P"@)) { Some(p) => p, None => 0 },
            match int_of(member(n, "K1"@)) { Some(p) => p, None => 0 },
            match int_of(member(n, "K2"@)) { Some(p) => p, None => 0 },
        )),
        None => None,
    }
}

/// The CDN node entries of the launcher information `info`.
pub open spec fn cdn_entries(info: Json) -> Option<Seq<Json>> {
    match member(info, "default"@) {
        Some(d) => array_of(member(d, "cdnList"@)),
        None => None,
    }
}

/// The error that reading the CDN list of `info` ends in, if any.
pub open spec fn cdn_list_error(info: Json) -> Option<(ErrorKind, Seq<char>)> {
    match member(info, "default"@) {
        None => Some((ErrorKind::Network, "launcher info 缺少 'default' 字段"@)),
        Some(d) => match array_of(member(d, "cdnList"@)) {
            None => Some((ErrorKind::Network, "CDN 列表为空"@)),
            Some(items) => if exists|i: int| 0 <= i < items.len() && node_fields(#[trigger] items[i]) is None {
                Some((ErrorKind::Network, "CDN 节点缺少 url"@))
            } else {
                None
            },
        },
    }
}

/// Whether `list` is the CDN list that the launcher information with node
/// entries `items` describes, with the automatic choice marked.
pub open spec fn is_cdn_list(items: Seq<Json>, list: Seq<CdnNode>) -> bool {
    &&& list.len() == items.len()
    &&& forall|i: int|
        #![trigger list[i]]
        0 <= i < list.len() ==> {
            &&& node_fields(items[i]) == Some((list[i].url@, list[i].priority, list[i].k1, list[i].k2))
            &&& list[i].recommended == is_best(list, i)
        }
}

fn parse_node(n: &Json) -> (r: Option<CdnNode>)
    ensures
        match r {
            Some(c) => node_fields(*n) == Some((c.url@, c.priority, c.k1, c.k2)) && !c.recommended,
            None => node_fields(*n) is None,
        },
{
    match n.str_member("url") {
        None => None,
        Some(url) => {
            let priority: i64 = match n.int_member("P") { Some(p) => p, None => 0 };
            let k1: i64 = match n.int_member("K1") { Some(p) => p, None => 0 };
            let k2: i64 = match n.int_member("K2") { Some(p) => p, None => 0 };
            Some(CdnNode { url, priority, k1, k2, recommended: false })
        },
    }
}

/// The CDN nodes of the launcher information `info`, with the automatic
/// choice marked.
pub fn cdn_list_from_info(info: &Json) -> (r: Result<Vec<CdnNode>, WwError>)
    ensures
        match r {
            Ok(list) => cdn_list_error(*info) is None && (cdn_entries(*info) matches Some(items)
                && is_cdn_list(items, list@)),
            Err(e) => cdn_list_error(*info) == Some(e@),
        },
        r matches Ok(list) ==> forall|i: int| 0 <= i < list@.len() && (#[trigger] list@[i]).recommended
            ==> list@[i].k1 == 1 && list@[i].k2 == 1
                && forall|j: int| 0 <= j < list@.len() && (#[trigger] list@[j]).k1 == 1 && list@[j].k2 == 1
                    ==> list@[j].priority <= list@[i].priority,
{
    let default_info = match info.get("default") {
        Some(d) => d,
        None => return Err(network_error("launcher info 缺少 'default' 字段")),
    };
    let items = match default_info.get("cdnList") {
        Some(v) => match v.as_array() {
            Some(a) => a,
            None => return Err(network_error("CDN 列表为空")),
        },
        None => return Err(network_error("CDN 列表为空")),
    };
    let mut nodes: Vec<CdnNode> = Vec::new();
    let mut i: usize = 0;
    while i < items.len()
        invariant
            i <= items@.len(),
            cdn_entries(*info) == Some(items@),
            nodes@.len() == i,
            forall|j: int| 0 <= j < i ==> node_fields(#[trigger] items@[j])
                == Some((nodes@[j].url@, nodes@[j].priority, nodes@[j].k1, nodes@[j].k2)),
        decreases items@.len() - i,
    {
        match parse_node(&items[i]) {
            Some(n) => nodes.push(n),
            None => {
                proof {
                    assert(node_fields(items@[i as int]) is None);
                    assert(exists|j: int| 0 <= j < items@.len() && node_fields(#[trigger] items@[j]) is None);
                }
                return Err(network_error("CDN 节点缺少 url"));
            },
        }
        i = i + 1;
    }
    let best = best_node(&nodes);
    let mut list: Vec<CdnNode> = Vec::new();
    let mut k: usize = 0;
    while k < nodes.len()
        invariant
            k <= nodes@.len(),
            nodes@.len() == items@.len(),
            list@.len() == k,
            forall|j: int| 0 <= j < nodes@.len() ==> node_fields(#[trigger] items@[j])
                == Some((nodes@[j].url@, nodes@[j].priority, nodes@[j].k1, nodes@[j].k2)),
            forall|j: int|
                #![trigger list@[j]]
                0 <= j < k ==> {
                    &&& list@[j].url@ == nodes@[j].url@
                    &&& list@[j].priority == nodes@[j].priority
                    &&& list@[j].k1 == nodes@[j].k1
                    &&& list@[j].k2 == nodes@[j].k2
                    &&& list@[j].recommended == (best == Some(j as usize))
                },
        decreases nodes@.len() - k,
    {
        let n = &nodes[k];
        let rec = match best {
            Some(b) => b == k,
            None => false,
        };
        list.push(CdnNode { url: n.url.clone(), priority: n.priority, k1: n.k1, k2: n.k2, recommended: rec });
        k = k + 1;
    }
    proof {
        assert forall|j: int| 0 <= j < list@.len() implies #[trigger] list@[j].recommended == is_best(list@, j) by {
            lemma_best_same_keys(list@, nodes@, j);
            match best {
                Some(b) => {
                    if is_best(nodes@, j) {
                        lemma_best_unique(nodes@, j, b as int);
                    }
                },
                None => {
                    if is_best(nodes@, j) {
                        assert(eligible(nodes@[j]));
                    }
                },
            }
        }
        assert forall|j: int| 0 <= j < list@.len() implies node_fields(items@[j])
            == Some((list@[j].url@, list@[j].priority, list@[j].k1, list@[j].k2)) by {
            assert(list@[j].url@ == nodes@[j].url@);
            assert(node_fields(items@[j]) == Some((nodes@[j].url@, nodes@[j].priority, nodes@[j].k1, nodes@[j].k2)));
        }
    }
    Ok(list)
}

/// In a marked CDN list, the node chosen automatically is the single node
/// marked as recommended; when no node is eligible, none is marked.
pub proof fn lemma_recommended_is_choice(items: Seq<Json>, list: Seq<CdnNode>)
    requires
        is_cdn_list(items, list),
    ensures
        forall|i: int| 0 <= i < list.len() ==> ((#[trigger] list[i]).recommended <==> is_best(list, i)),
        forall|i: int, k: int| 0 <= i < list.len() && 0 <= k < list.len()
            && (#[trigger] list[i]).recommended && (#[trigger] list[k]).recommended ==> i == k,
        !has_eligible(list) ==> forall|i: int| 0 <= i < list.len() ==> !(#[trigger] list[i]).recommended,
{
    assert forall|i: int, k: int| 0 <= i < list.len() && 0 <= k < list.len()
        && (#[trigger] list[i]).recommended && (#[trigger] list[k]).recommended implies i == k by {
        lemma_best_unique(list, i, k);
    }
    assert forall|i: int| 0 <= i < list.len() implies ((#[trigger] list[i]).recommended <==> is_best(list, i)) by {}
    if !has_eligible(list) {
        assert forall|i: int| 0 <= i < list.len() implies !(#[trigger] list[i]).recommended by {
            if list[i].recommended {
                assert(eligible(list[i]));
            }
        }
    }
}

} // verus!
