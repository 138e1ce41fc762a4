use aprz::deps::{build_transitive_deps, collect_dependencies, count_transitive_dependencies, select_target_packages, DepEdge, DepGraph, DependencyKind};
use aprz::options::DependencyType;

fn edge(target: usize, kinds: &[DependencyKind]) -> DepEdge {
    DepEdge { target, kinds: kinds.to_vec() }
}

// 0: root; 1: normal dep; 2: dev dep; 3: build dep; 4: dep of 1; 5: dev dep of 1 (not followed);
// 6: unknown package reached from 4; 7: dep of 6 (not followed since 6 is unknown)
fn sample() -> DepGraph {
    DepGraph {
        known: vec![true, true, true, true, true, true, false, true],
        edges: vec![
            Some(vec![edge(1, &[DependencyKind::Normal]), edge(2, &[DependencyKind::Development]), edge(3, &[DependencyKind::Build])]),
            Some(vec![edge(4, &[DependencyKind::Normal]), edge(5, &[DependencyKind::Development])]),
            Some(vec![edge(4, &[DependencyKind::Normal])]),
            None,
            Some(vec![edge(6, &[DependencyKind::Normal]), edge(1, &[DependencyKind::Normal])]),
            None,
            Some(vec![edge(7, &[DependencyKind::Normal])]),
            None,
        ],
    }
}

fn sorted(mut v: Vec<usize>) -> Vec<usize> {
    v.sort();
    v
}

#[test]
fn standard_dependencies_are_followed_transitively() {
    let g = sample();
    assert_eq!(sorted(build_transitive_deps(&g, 0, DependencyType::Standard)), vec![1, 4]);
}

#[test]
fn dev_dependencies_apply_at_the_first_hop_only() {
    let g = sample();
    assert_eq!(sorted(build_transitive_deps(&g, 0, DependencyType::Dev)), vec![1, 2, 4]);
    assert_eq!(sorted(build_transitive_deps(&g, 0, DependencyType::Build)), vec![3]);
}

#[test]
fn unresolved_root_has_no_dependencies() {
    let g = sample();
    assert!(build_transitive_deps(&g, 3, DependencyType::Standard).is_empty());
}

#[test]
fn package_selection() {
    let members = ["a", "b", "c"];
    assert_eq!(select_target_packages(&members, Some(1), &["c", "a"], false), Ok(vec![0, 2]));
    assert_eq!(
        select_target_packages(&members, Some(1), &["z"], false),
        Err("package 'z' not found in workspace".to_string())
    );
    assert_eq!(select_target_packages(&members, Some(1), &[], true), Ok(vec![0, 1, 2]));
    assert_eq!(select_target_packages(&members, Some(1), &[], false), Ok(vec![1]));
    assert_eq!(select_target_packages(&members, None, &[], false), Ok(vec![0, 1, 2]));
}

#[test]
fn transitive_count_follows_every_edge() {
    let g = sample();
    // from 0: 1, 2, 3, 4, 5, 6 and 7 (all kinds, and through 6 too)
    assert_eq!(count_transitive_dependencies(&g, 0), 7);
    // from 1: 4, 5, 6, 7, and 1 itself through the cycle 1 -> 4 -> 1
    assert_eq!(count_transitive_dependencies(&g, 1), 5);
    // a package with no resolved dependencies
    assert_eq!(count_transitive_dependencies(&g, 3), 0);
    assert_eq!(count_transitive_dependencies(&g, 6), 1);
}

#[test]
fn collecting_for_targets_and_types() {
    let g = sample();
    // no list: all types, standard first, then dev, then build
    let all = collect_dependencies(&g, &[0], None);
    assert_eq!(all.len(), 6);
    assert_eq!(sorted(all[0..2].to_vec()), vec![1, 4]);
    assert_eq!(sorted(all[2..5].to_vec()), vec![1, 2, 4]);
    assert_eq!(all[5..].to_vec(), vec![3]);
    // an empty list also means all types
    assert_eq!(collect_dependencies(&g, &[0], Some(&[])).len(), 6);
    // only build dependencies
    assert_eq!(collect_dependencies(&g, &[0], Some(&[DependencyType::Build])), vec![3]);
    // two targets, standard only: 0 gives 1 and 4, 2 gives 4 and 1
    let two = collect_dependencies(&g, &[0, 2], Some(&[DependencyType::Standard]));
    assert_eq!(sorted(two), vec![1, 1, 4, 4]);
}
