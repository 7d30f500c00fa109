use alexandria::clusters::{
    assign_to_cluster, check_cohesion, check_merge, compute_activation_targets, second_seed,
    split_round, ClusterAssignment, ClusterInfo, Groups, MaintenanceAction,
    MergeCheck, SPLIT_ROUNDS,
};
use alexandria::ranking::{
    does_reach, is_short_of, rank_by_similarity, score_of_bits, MINUS_ONE, NOT_A_NUMBER,
};
use alexandria::recall::{
    broad_recall, focused_recall, ClusterWithMembers, FactSummary, RecallScope, ScopeHandle,
};
use alexandria::server::{AlexandriaServer, RemindersSettings};
use alexandria::time::Zone;
use alexandria::tools::RecallParams;

fn score(x: f32) -> i64 {
    score_of_bits(x.to_bits())
}

fn cosine(a: &[f32], b: &[f32]) -> f32 {
    let dot: f32 = a.iter().zip(b).map(|(x, y)| x * y).sum();
    let norm = |v: &[f32]| v.iter().map(|x| x * x).sum::<f32>().sqrt();
    dot / (norm(a) * norm(b))
}

fn info(id: &str, centroid: &[f32], embedding: &[f32]) -> ClusterInfo {
    ClusterInfo {
        id: id.into(),
        similarity: score(cosine(embedding, centroid)),
        member_count: 5,
    }
}

fn average(centroid: &[f32], members: &[Vec<f32>]) -> i64 {
    let sum: f32 = members.iter().map(|m| cosine(m, centroid)).sum();
    score(sum / members.len() as f32)
}

// --- scores ---

#[test]
fn scores_order_like_the_numbers() {
    let line = [-2.0f32, -1.0, -0.5, -f32::MIN_POSITIVE, 0.0, 0.25, 0.3, 1.0, f32::INFINITY];
    for pair in line.windows(2) {
        assert!(score(pair[0]) < score(pair[1]), "{pair:?}");
    }
    assert_eq!(score(-0.0), score(0.0));
    assert_eq!(score(-1.0), MINUS_ONE);
    assert_eq!(score(f32::NAN), NOT_A_NUMBER);
}

#[test]
fn what_is_not_a_number_reaches_and_falls_short_of_nothing() {
    for other in [score(0.5), NOT_A_NUMBER] {
        assert!(!does_reach(NOT_A_NUMBER, other));
        assert!(!does_reach(other, NOT_A_NUMBER));
        assert!(!is_short_of(NOT_A_NUMBER, other));
        assert!(!is_short_of(other, NOT_A_NUMBER));
    }
    assert!(does_reach(score(0.5), score(0.5)));
    assert!(is_short_of(score(0.4), score(0.5)));
}

#[test]
fn ranking_is_stable_and_limited() {
    let scores = vec![score(0.2), score(0.9), score(0.2), score(0.5)];
    assert_eq!(rank_by_similarity(&scores, 10), vec![1, 3, 0, 2]);
    assert_eq!(rank_by_similarity(&scores, 2), vec![1, 3]);
    assert_eq!(rank_by_similarity(&vec![], 2), Vec::<usize>::new());
}

// --- assignment ---

#[test]
fn test_assign_to_existing_cluster() {
    let embedding = vec![0.9, 0.1, 0.0]; // close to c1
    let clusters = vec![info("c1", &[1.0, 0.0, 0.0], &embedding)];

    let result = assign_to_cluster(&clusters, score(0.75));
    assert!(matches!(result, ClusterAssignment::Existing(id) if id == "c1"));
}

#[test]
fn test_create_new_cluster_when_no_match() {
    let embedding = vec![0.0, 0.0, 1.0]; // far from c1
    let clusters = vec![info("c1", &[1.0, 0.0, 0.0], &embedding)];

    let result = assign_to_cluster(&clusters, score(0.75));
    assert!(matches!(result, ClusterAssignment::NewCluster));
}

#[test]
fn test_assign_empty_clusters() {
    let result = assign_to_cluster(&vec![], score(0.5));
    assert!(matches!(result, ClusterAssignment::NewCluster));
}

#[test]
fn the_first_of_two_equally_close_clusters_is_joined() {
    let e = [1.0, 0.0];
    let clusters = vec![
        info("far", &[0.0, 1.0], &e),
        info("first", &[1.0, 0.0], &e),
        info("second", &[1.0, 0.0], &e),
    ];
    let result = assign_to_cluster(&clusters, score(1.0));
    assert!(matches!(result, ClusterAssignment::Existing(id) if id == "first"));
}

// --- maintenance ---

#[test]
fn test_healthy_cluster_no_split() {
    let centroid = vec![1.0, 0.0, 0.0];
    let members = vec![
        vec![0.95, 0.05, 0.0],
        vec![0.9, 0.1, 0.0],
        vec![0.92, 0.08, 0.0],
        vec![0.88, 0.12, 0.0],
    ];
    let result = check_cohesion("c1", members.len(), average(&centroid, &members), score(0.6));
    assert!(matches!(result, MaintenanceAction::Healthy));
}

/// Two-means with the library's decisions around plain arithmetic.
fn split(members: &[Vec<f32>]) -> Groups {
    let dims = members[0].len();
    let distances = members
        .iter()
        .map(|m| score(1.0 - cosine(m, &members[0])))
        .collect();
    let mut a = members[0].clone();
    let mut b = members[second_seed(&distances)].clone();
    let mut round = 0;
    loop {
        let to = |c: &[f32]| members.iter().map(|m| score(cosine(m, c))).collect();
        let settled = split_round(round, &to(&a), &to(&b));
        let mean = |at: &[usize]| -> Vec<f32> {
            (0..dims)
                .map(|d| at.iter().map(|i| members[*i][d]).sum::<f32>() / at.len() as f32)
                .collect()
        };
        if settled.recentre_a {
            a = mean(&settled.groups.group_a);
        }
        if settled.recentre_b {
            b = mean(&settled.groups.group_b);
        }
        match settled.next {
            Some(n) => round = n,
            None => return settled.groups,
        }
    }
}

#[test]
fn test_diffuse_cluster_splits() {
    // Two distinct groups forced into one cluster
    let centroid = vec![0.5, 0.5, 0.0]; // midpoint
    let members = vec![
        vec![1.0, 0.0, 0.0],
        vec![0.95, 0.05, 0.0],
        vec![0.0, 1.0, 0.0],
        vec![0.05, 0.95, 0.0],
        vec![0.98, 0.02, 0.0],
        vec![0.02, 0.98, 0.0],
    ];
    match check_cohesion("c1", members.len(), average(&centroid, &members), score(0.85)) {
        MaintenanceAction::Split { cluster_id } => assert_eq!(cluster_id, "c1"),
        MaintenanceAction::Healthy => panic!("Expected split, got healthy"),
    }
    let groups = split(&members);
    assert!(!groups.group_a.is_empty());
    assert!(!groups.group_b.is_empty());
    assert_eq!(groups.group_a.len() + groups.group_b.len(), 6);
    assert_eq!(groups.group_a, vec![0, 1, 4]);
    assert_eq!(groups.group_b, vec![2, 3, 5]);
}

#[test]
fn a_split_settles_for_a_fixed_number_of_rounds() {
    let near = vec![score(0.9), score(0.8)];
    let far = vec![score(0.1), score(0.2)];
    let first = split_round(0, &near, &far);
    assert_eq!(first.next, Some(1));
    assert_eq!(first.groups.group_a, vec![0, 1]);
    assert!(first.recentre_a);
    // Nobody is on the other side, so its centre stays.
    assert!(!first.recentre_b);
    assert_eq!(split_round(SPLIT_ROUNDS - 1, &near, &far).next, None);
}

#[test]
fn test_too_few_members_no_split() {
    let centroid = vec![0.5, 0.5];
    let members = vec![vec![1.0, 0.0], vec![0.0, 1.0]];
    // Even if diffuse, <4 members = no split
    let result = check_cohesion("c1", members.len(), average(&centroid, &members), score(0.9));
    assert!(matches!(result, MaintenanceAction::Healthy));
}

#[test]
fn test_merge_similar_clusters() {
    let c_a = vec![1.0, 0.0, 0.0];
    let c_b = vec![0.98, 0.02, 0.0]; // very similar
    match check_merge("c1", 5, "c2", 3, score(cosine(&c_a, &c_b)), score(0.9)) {
        MergeCheck::Merge { keep_id, remove_id } => {
            assert_eq!(keep_id, "c1"); // more members
            assert_eq!(remove_id, "c2");
        }
        MergeCheck::Distinct => panic!("Expected merge"),
    }
}

#[test]
fn test_no_merge_distinct_clusters() {
    let c_a = vec![1.0, 0.0, 0.0];
    let c_b = vec![0.0, 1.0, 0.0]; // very different
    let result = check_merge("c1", 5, "c2", 3, score(cosine(&c_a, &c_b)), score(0.9));
    assert!(matches!(result, MergeCheck::Distinct));
}

#[test]
fn the_larger_cluster_stays_and_the_first_of_two_equal_ones() {
    match check_merge("c1", 2, "c2", 3, score(0.9), score(0.9)) {
        MergeCheck::Merge { keep_id, remove_id } => {
            assert_eq!((keep_id.as_str(), remove_id.as_str()), ("c2", "c1"));
        }
        MergeCheck::Distinct => panic!("Expected merge"),
    }
    match check_merge("c1", 3, "c2", 3, score(0.9), score(0.9)) {
        MergeCheck::Merge { keep_id, .. } => assert_eq!(keep_id, "c1"),
        MergeCheck::Distinct => panic!("Expected merge"),
    }
}

#[test]
fn the_order_of_two_clusters_does_not_decide_which_stays() {
    for (first, second) in [(("c1", 2), ("c2", 3)), (("c2", 3), ("c1", 2))] {
        match check_merge(first.0, first.1, second.0, second.1, score(0.95), score(0.9)) {
            MergeCheck::Merge { keep_id, remove_id } => {
                assert_eq!((keep_id.as_str(), remove_id.as_str()), ("c2", "c1"));
            }
            MergeCheck::Distinct => panic!("Expected merge"),
        }
        let far = check_merge(first.0, first.1, second.0, second.1, score(0.5), score(0.9));
        assert!(matches!(far, MergeCheck::Distinct));
    }
}

// --- activation ---

struct Warmed {
    id: String,
    heat_delta: f32,
    hop: u32,
}

fn targets(neighbors: &[(&str, u32, f32)], factor: f32, max_hops: u32) -> Vec<Warmed> {
    let hops = neighbors.iter().map(|n| n.1).collect();
    let heat: Vec<f32> = neighbors
        .iter()
        .map(|n| 1.0 * factor.powi(n.1 as i32) * n.2)
        .collect();
    let scores = heat.iter().map(|h| score(*h)).collect();
    compute_activation_targets(&hops, &scores, max_hops, score(0.001))
        .into_iter()
        .map(|i| Warmed {
            id: neighbors[i].0.to_string(),
            heat_delta: heat[i],
            hop: neighbors[i].1,
        })
        .collect()
}

#[test]
fn test_single_hop_activation() {
    let targets = targets(&[("fact:b", 1, 1.0)], 0.3, 2);
    assert_eq!(targets.len(), 1);
    assert!((targets[0].heat_delta - 0.3).abs() < 0.001);
    assert_eq!(targets[0].hop, 1);
}

#[test]
fn test_two_hop_activation() {
    let targets = targets(&[("fact:b", 1, 1.0), ("fact:c", 2, 1.0)], 0.3, 2);
    assert_eq!(targets.len(), 2);

    let hop1 = targets.iter().find(|t| t.hop == 1).unwrap();
    let hop2 = targets.iter().find(|t| t.hop == 2).unwrap();

    // Hop 1: 1.0 * 0.3^1 = 0.3
    assert!((hop1.heat_delta - 0.3).abs() < 0.001);
    // Hop 2: 1.0 * 0.3^2 = 0.09
    assert!((hop2.heat_delta - 0.09).abs() < 0.001);
}

#[test]
fn test_beyond_max_hops_filtered() {
    let targets = targets(&[("fact:b", 1, 1.0), ("fact:c", 2, 1.0)], 0.3, 1);
    assert_eq!(targets.len(), 1);
    assert_eq!(targets[0].id, "fact:b");
}

#[test]
fn test_edge_strength_modulates() {
    let targets = targets(&[("fact:b", 1, 0.5)], 0.3, 2); // half strength
    // 1.0 * 0.3 * 0.5 = 0.15
    assert!((targets[0].heat_delta - 0.15).abs() < 0.001);
}

#[test]
fn test_negligible_activation_filtered() {
    let targets = targets(&[("fact:b", 3, 0.05)], 0.1, 3); // 1.0 * 0.1^3 * 0.05 = 0.00005
    assert!(targets.is_empty()); // Filtered as negligible
}

// --- recall ---

fn member(id: &str, content: &str, embedding: &[f32], query: &[f32]) -> FactSummary {
    FactSummary {
        id: id.into(),
        content: content.into(),
        similarity: score(cosine(query, embedding)),
        weighted: score(cosine(query, embedding) * 1.0),
    }
}

/// A cluster of one member, which is as warm as the cluster.
fn cluster_of_one(id: &str, embedding: &[f32], heat: f32, query: &[f32]) -> ClusterWithMembers {
    let similarity = cosine(query, embedding);
    ClusterWithMembers {
        id: id.into(),
        similarity: score(similarity),
        members: vec![FactSummary {
            id: format!("fact:{id}"),
            content: id.into(),
            similarity: score(similarity),
            weighted: score(similarity * heat),
        }],
    }
}

#[test]
fn a_warm_cluster_outranks_a_closer_cold_one() {
    let query = [1.0, 0.0];
    let clusters = vec![
        cluster_of_one("A", &[0.8, 0.6], 1.0, &query),
        cluster_of_one("B", &[0.6, 0.8], 5.0, &query),
    ];
    let found = broad_recall(&clusters, 5, score(0.3)).clusters;
    let ids: Vec<&str> = found.iter().map(|c| c.cluster_id.as_str()).collect();
    assert_eq!(ids, vec!["B", "A"]);
    // What is reported is the similarity, not the key.
    assert_eq!(found[0].similarity, score(cosine(&query, &[0.6, 0.8])));
    let even = vec![
        cluster_of_one("A", &[0.8, 0.6], 1.0, &query),
        cluster_of_one("B", &[0.6, 0.8], 1.0, &query),
    ];
    assert_eq!(broad_recall(&even, 1, score(0.3)).clusters[0].cluster_id, "A");
}

#[test]
fn test_scope_handle_roundtrip() {
    let embedding: Vec<u32> = [0.1f32, 0.2, 0.3].iter().map(|x| x.to_bits()).collect();
    let handle = ScopeHandle::for_cluster("cluster:abc123", embedding, 1234567890);
    let floats: Vec<serde_json::Value> = handle
        .query_embedding
        .iter()
        .map(|b| serde_json::Value::from(f32::from_bits(*b)))
        .collect();
    let mut fields = serde_json::Map::new();
    fields.insert("cluster_id".into(), handle.cluster_id.as_str().into());
    fields.insert("depth".into(), handle.depth.into());
    fields.insert("query_embedding".into(), floats.into());
    fields.insert("issued_at".into(), handle.issued_at.into());
    let bytes = serde_json::to_vec(&serde_json::Value::Object(fields)).unwrap();

    let encoded = ScopeHandle::encode(&bytes);
    assert!(encoded
        .chars()
        .all(|c| c.is_ascii_alphanumeric() || c == '-' || c == '_'));
    let decoded = ScopeHandle::decode(&encoded).unwrap();
    assert_eq!(decoded, bytes);
    let decoded: serde_json::Value = serde_json::from_slice(&decoded).unwrap();
    assert_eq!(decoded["cluster_id"], "cluster:abc123");
    assert_eq!(decoded["depth"], 0);
    assert_eq!(decoded["query_embedding"][1].as_f64().unwrap() as f32, 0.2f32);
}

#[test]
fn a_handle_has_a_fixed_text() {
    assert_eq!(ScopeHandle::encode(&vec![0xfb, 0xff, 0x00]), "-_8A");
    assert_eq!(ScopeHandle::decode("-_8A").unwrap(), vec![0xfb, 0xff, 0x00]);
    assert!(!ScopeHandle::decode("no padding==").unwrap_err().message().is_empty());
}

#[test]
fn test_broad_recall_returns_cluster_matches() {
    let query = vec![0.95, 0.05, 0.0]; // auth-related
    let clusters = vec![ClusterWithMembers {
        id: "c1".into(),
        similarity: score(cosine(&query, &[1.0, 0.0, 0.0])),
        members: vec![
            member("f1", "OAuth tokens", &[0.9, 0.1, 0.0], &query),
            member("f2", "JWT signing", &[0.8, 0.2, 0.0], &query),
        ],
    }];
    let result = broad_recall(&clusters, 5, score(0.3));

    assert!(!result.clusters.is_empty());
    assert!(result.clusters[0].representative_memories.len() <= 3);
    assert_eq!(result.clusters[0].cluster_id, "c1");
    assert_eq!(result.clusters[0].representative_memories[0].id, "f1");
}

#[test]
fn test_focused_recall_narrows_within_cluster() {
    let query = vec![1.0, 0.0];
    let cluster_data = ClusterWithMembers {
        id: "c1".into(),
        similarity: score(1.0),
        members: vec![
            member("f1", "close match", &[0.9, 0.1], &query),
            member("f2", "medium match", &[0.5, 0.5], &query),
            member("f3", "far match", &[0.1, 0.9], &query),
        ],
    };
    let result = focused_recall(&cluster_data);

    assert_eq!(result.memories.len(), 3);
    // First result should be the closest match
    assert_eq!(result.memories[0].id, "f1");
}

fn server() -> AlexandriaServer {
    AlexandriaServer::new(
        score(0.75),
        score(0.3),
        score(0.6),
        RemindersSettings {
            tz: Zone::utc(),
            escalation_hours: 24,
        },
    )
}

#[test]
fn a_recall_is_focused_exactly_with_a_handle() {
    let ask = |h: Option<&str>| {
        server().do_recall(&RecallParams {
            query: "q".into(),
            scope_handle: h.map(String::from),
        })
    };
    assert!(matches!(ask(None), Ok(RecallScope::Broad)));
    match ask(Some("-_8A")) {
        Ok(RecallScope::Focused { handle }) => assert_eq!(handle, vec![0xfb, 0xff, 0x00]),
        other => panic!("{other:?}"),
    }
    assert!(ask(Some("!!")).is_err());
}

#[test]
fn a_broad_recall_drops_distant_and_empty_clusters() {
    let query = [1.0, 0.0];
    let cluster = |id: &str, at: &[f32], members: Vec<FactSummary>| ClusterWithMembers {
        id: id.into(),
        similarity: score(cosine(&query, at)),
        members,
    };
    let clusters = vec![
        cluster("distant", &[0.1, 1.0], vec![member("x", "", &[1.0, 0.0], &query)]),
        cluster("empty", &[1.0, 0.0], vec![]),
        cluster("good", &[0.9, 0.3], vec![member("y", "", &[0.5, 0.5], &query)]),
        cluster("best", &[0.8, 0.6], vec![member("z", "", &[1.0, 0.1], &query)]),
    ];
    let found: Vec<String> = server()
        .recall_broadly(&clusters)
        .clusters
        .into_iter()
        .map(|c| c.cluster_id)
        .collect();
    assert_eq!(found, vec!["best", "good"]);
}
