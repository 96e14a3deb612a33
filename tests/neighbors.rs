use boids::config::Position;
use boids::neighbors::neighbor_indices;

#[test]
fn self_is_excluded_and_order_is_kept() {
    let ids: Vec<u128> = vec![100, 200, 300, 400];
    let found: Vec<usize> = vec![3, 1, 0, 2];
    assert_eq!(neighbor_indices(&found, &ids, 1), vec![3, 0, 2]);
}

#[test]
fn every_record_sharing_the_identity_is_excluded() {
    let ids: Vec<u128> = vec![7, 9, 7];
    let found: Vec<usize> = vec![0, 1, 2];
    assert_eq!(neighbor_indices(&found, &ids, 0), vec![1]);
}

#[test]
fn empty_query_gives_no_neighbors() {
    let ids: Vec<u128> = vec![1];
    let found: Vec<usize> = Vec::new();
    assert!(neighbor_indices(&found, &ids, 0).is_empty());
}

#[test]
fn isolated_agent_has_no_neighbors() {
    let ids: Vec<u128> = vec![1, 2];
    let found: Vec<usize> = vec![0];
    assert!(neighbor_indices(&found, &ids, 0).is_empty());
}

#[test]
fn mutual_queries_give_mutual_neighbors() {
    let ids: Vec<u128> = vec![11, 22, 33];
    let around_a: Vec<usize> = vec![0, 1];
    let around_b: Vec<usize> = vec![1, 0, 2];
    assert!(neighbor_indices(&around_a, &ids, 0).contains(&1));
    assert!(neighbor_indices(&around_b, &ids, 1).contains(&0));
}

#[test]
fn position_holds_its_coordinates() {
    let p = Position::new(-5, 120);
    assert_eq!(p.x, -5);
    assert_eq!(p.y, 120);
    assert_eq!(p, Position { x: -5, y: 120 });
}

#[test]
fn failed_query_gives_no_neighbors() {
    let ids: Vec<u128> = vec![1, 2, 3];
    assert!(boids::neighbors::neighbors_from_query(None, &ids, 0).is_empty());
}

#[test]
fn query_naming_an_unknown_index_gives_no_neighbors() {
    let ids: Vec<u128> = vec![1, 2, 3];
    let found = Some(vec![1, 7, 2]);
    assert!(boids::neighbors::neighbors_from_query(found, &ids, 0).is_empty());
}

#[test]
fn successful_query_keeps_the_others() {
    let ids: Vec<u128> = vec![1, 2, 3];
    let found = Some(vec![2, 0, 1]);
    assert_eq!(boids::neighbors::neighbors_from_query(found, &ids, 0), vec![2, 1]);
}
