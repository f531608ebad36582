//! Labels of clustered observations.

use vstd::prelude::*;

use crate::text::{dec_str, owned, push_decimal};

verus! {

/// The label of a cluster assignment: "cluster_" and the cluster's number,
/// or "noise" for an observation in no cluster.
pub open spec fn cluster_label_of(c: Option<usize>) -> Seq<char> {
    match c {
        Some(id) => "cluster_"@ + dec_str(id as nat),
        None => "noise"@,
    }
}

/// Clustering of observation texts; the clusters themselves are computed
/// around the library, in floating point.
pub struct ClusterEngine;

impl ClusterEngine {
    /// One label per observation that has a cluster assignment (the shorter of
    /// the two lists decides how many), in order.
    pub fn extract_pattern_labels(observations: &Vec<String>, clusters: &Vec<Option<usize>>) -> (r: Vec<String>)
        ensures
            r@.len() == if observations@.len() <= clusters@.len() { observations@.len() } else { clusters@.len() },
            forall|i: int| 0 <= i < r@.len() ==> (#[trigger] r@[i])@ == cluster_label_of(clusters@[i]),
    {
        let n = if observations.len() <= clusters.len() { observations.len() } else { clusters.len() };
        let mut r: Vec<String> = Vec::new();
        let mut i: usize = 0;
        while i < n
            invariant
                n <= clusters@.len(),
                i <= n,
                r@.len() == i,
                forall|k: int| 0 <= k < i ==> (#[trigger] r@[k])@ == cluster_label_of(clusters@[k]),
            decreases n - i,
        {
            let label = match clusters[i] {
                Some(id) => {
                    let mut l = owned("cluster_");
                    push_decimal(&mut l, id as u64);
                    l
                },
                None => owned("noise"),
            };
            r.push(label);
            i = i + 1;
        }
        r
    }
}

} // verus!
