use tdg_rust::clustering::ClusterEngine;

#[test]
fn test_extract_pattern_labels() {
    let observations = vec!["obs1".to_string(), "obs2".to_string(), "obs3".to_string()];
    let clusters = vec![Some(0), Some(0), None];

    let labels = ClusterEngine::extract_pattern_labels(&observations, &clusters);
    assert_eq!(labels, vec!["cluster_0", "cluster_0", "noise"]);
}

#[test]
fn pattern_labels_follow_the_shorter_list() {
    let observations = vec!["a".to_string(), "b".to_string()];
    let clusters = vec![Some(12), None, Some(3)];
    assert_eq!(ClusterEngine::extract_pattern_labels(&observations, &clusters), vec!["cluster_12", "noise"]);
    assert!(ClusterEngine::extract_pattern_labels(&vec![], &clusters).is_empty());
}
