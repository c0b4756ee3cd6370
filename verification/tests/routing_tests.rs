use irontrack::math::routing::{
    map_to_lines, nearest_neighbor, reverse_segment, routable_lines, route_tour, two_opt,
};

/// Endpoints of parallel lines `j`: start `(j * gap, 0)`, end `(j * gap, 1)`.
fn endpoints(n: usize, gap: f64) -> Vec<(f64, f64)> {
    let mut p = Vec::new();
    for j in 0..n {
        p.push((j as f64 * gap, 0.0));
        p.push((j as f64 * gap, 1.0));
    }
    p
}

fn dist(a: (f64, f64), b: (f64, f64)) -> f64 {
    ((a.0 - b.0).powi(2) + (a.1 - b.1).powi(2)).sqrt()
}

fn matrices(p: &[(f64, f64)], launch: (f64, f64)) -> (Vec<u64>, Vec<Vec<u64>>) {
    let l = p.iter().map(|&q| dist(launch, q).to_bits()).collect();
    let m = p
        .iter()
        .map(|&a| p.iter().map(|&b| dist(a, b).to_bits()).collect())
        .collect();
    (l, m)
}

#[test]
fn nearest_neighbor_flies_parallel_lines_as_serpentine() {
    let p = endpoints(4, 0.5);
    let (l, m) = matrices(&p, (0.0, 0.0));
    let (order, rev) = nearest_neighbor(&l, &m);
    assert_eq!(order, vec![0, 1, 2, 3]);
    assert_eq!(rev, vec![false, true, false, true]);
}

#[test]
fn nearest_neighbor_enters_at_closest_end() {
    let p = endpoints(2, 10.0);
    // Launch next to the end of line 1.
    let (l, m) = matrices(&p, (10.0, 1.2));
    let (order, rev) = nearest_neighbor(&l, &m);
    assert_eq!(order, vec![1, 0]);
    assert_eq!(rev, vec![true, false]);
}

#[test]
fn nearest_neighbor_empty_and_single() {
    let (order, rev) = nearest_neighbor(&Vec::new(), &Vec::new());
    assert!(order.is_empty() && rev.is_empty());
    let p = endpoints(1, 1.0);
    let (l, m) = matrices(&p, (0.0, 5.0));
    assert_eq!(nearest_neighbor(&l, &m), (vec![0], vec![true]));
}

#[test]
fn reversing_a_segment_flips_order_and_directions() {
    let mut order = vec![0, 1, 2, 3, 4];
    let mut rev = vec![false, false, true, false, false];
    reverse_segment(&mut order, &mut rev, 0, 3);
    assert_eq!(order, vec![0, 3, 2, 1, 4]);
    assert_eq!(rev, vec![false, true, false, true, false]);
    reverse_segment(&mut order, &mut rev, 0, 3);
    assert_eq!(order, vec![0, 1, 2, 3, 4]);
    assert_eq!(rev, vec![false, false, true, false, false]);
}

#[test]
fn two_opt_applies_improving_reversals_only() {
    // A tour that crosses itself: 0 → 2 → 1 → 3 over lines on a row.
    let p = endpoints(4, 1.0);
    let cost = |o: &Vec<usize>, r: &Vec<bool>| -> f64 {
        let mut c = 0.0;
        for k in 0..o.len() - 1 {
            let exit = if r[k] { p[2 * o[k]] } else { p[2 * o[k] + 1] };
            let entry = if r[k + 1] { p[2 * o[k + 1] + 1] } else { p[2 * o[k + 1]] };
            c += dist(exit, entry);
        }
        c
    };
    let mut order = vec![0, 2, 1, 3];
    let mut rev = vec![false, true, false, true];
    let before = cost(&order, &rev);
    two_opt(&mut order, &mut rev, |o: &Vec<usize>, r: &Vec<bool>, i: usize, j: usize| {
        let mut o2 = o.clone();
        let mut r2 = r.clone();
        reverse_segment(&mut o2, &mut r2, i, j);
        cost(o, r) - cost(&o2, &r2) > 1e-3
    });
    let after = cost(&order, &rev);
    assert!(after < before);
    let mut sorted = order.clone();
    sorted.sort();
    assert_eq!(sorted, vec![0, 1, 2, 3]);
}

#[test]
fn two_opt_stops_at_a_tour_with_no_approved_reversal() {
    // Approve a reversal when it moves a smaller line index to position i+1.
    let approve = |o: &Vec<usize>, _r: &Vec<bool>, i: usize, j: usize| o[j] < o[i + 1];
    let mut order = vec![0, 4, 3, 2, 1, 5];
    let mut rev = vec![false; 6];
    two_opt(&mut order, &mut rev, approve);
    for i in 0..order.len() - 1 {
        for j in i + 2..order.len() {
            assert!(!approve(&order, &rev, i, j));
        }
    }
    assert_eq!(order, vec![0, 1, 2, 3, 4, 5]);
}

#[test]
fn two_opt_leaves_short_tours_alone() {
    let mut order = vec![1, 0];
    let mut rev = vec![true, false];
    two_opt(&mut order, &mut rev, |_o: &Vec<usize>, _r: &Vec<bool>, _i: usize, _j: usize| true);
    assert_eq!(order, vec![1, 0]);
    assert_eq!(rev, vec![true, false]);
}

#[test]
fn only_lines_with_two_points_are_routed() {
    let valid = routable_lines(&vec![5, 1, 0, 2, 7]);
    assert_eq!(valid, vec![0, 3, 4]);
    assert_eq!(map_to_lines(&valid, &vec![2, 0, 1]), vec![4, 0, 3]);
}

#[test]
fn route_tour_flies_a_single_line_forward() {
    let p = endpoints(1, 1.0);
    // The end of the line is closer, yet a lone line is flown forward.
    let (l, m) = matrices(&p, (0.0, 5.0));
    assert_eq!(route_tour(&l, &m, |_o: &Vec<usize>, _r: &Vec<bool>, _i: usize, _j: usize| true), (vec![0], vec![false]));
    let (o, r) = route_tour(&Vec::new(), &Vec::new(), |_o: &Vec<usize>, _r: &Vec<bool>, _i: usize, _j: usize| true);
    assert!(o.is_empty() && r.is_empty());
}

#[test]
fn route_tour_without_approved_reversal_is_the_nearest_neighbour_tour() {
    let p = vec![(3.0, 0.0), (3.0, 1.0), (0.0, 0.0), (0.0, 1.0), (7.0, 0.0), (7.0, 1.0), (1.0, 0.0), (1.0, 1.0)];
    let (l, m) = matrices(&p, (0.0, -1.0));
    let nn = nearest_neighbor(&l, &m);
    assert_eq!(route_tour(&l, &m, |_o: &Vec<usize>, _r: &Vec<bool>, _i: usize, _j: usize| false), nn);
}

#[test]
fn route_tour_flies_every_line_once() {
    let p = vec![(3.0, 0.0), (3.0, 1.0), (0.0, 0.0), (0.0, 1.0), (7.0, 0.0), (7.0, 1.0), (1.0, 0.0), (1.0, 1.0)];
    let (l, m) = matrices(&p, (0.0, -1.0));
    // Approve every reversal: the tour still holds each line once.
    let (o, r) = route_tour(&l, &m, |_o: &Vec<usize>, _r: &Vec<bool>, _i: usize, _j: usize| true);
    let mut sorted = o.clone();
    sorted.sort();
    assert_eq!(sorted, vec![0, 1, 2, 3]);
    assert_eq!(r.len(), 4);
}
