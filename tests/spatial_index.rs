use fluidpong::particle::Particle;
use fluidpong::spatial_grid::SpatialGrid2D;
use fluidpong::vector::Vec2;

const R: i64 = 10_000_000;

fn at(x: i64, y: i64) -> Particle {
    Particle::new(Vec2::new(x, y), 1_000_000)
}

fn positions(ps: &[Particle]) -> Vec<(i64, i64)> {
    let mut v: Vec<(i64, i64)> = ps.iter().map(|p| (p.position.x, p.position.y)).collect();
    v.sort();
    v
}

#[test]
fn inserted_entry_is_found_at_its_position() {
    let mut g = SpatialGrid2D::new(R);
    g.insert(at(12_000_000, -3_000_000));
    g.insert(at(-40_000_000, 7_000_000));
    let found = g.query(Vec2::new(12_000_000, -3_000_000));
    assert_eq!(positions(&found), vec![(12_000_000, -3_000_000)]);
    let found = g.query(Vec2::new(-40_000_000, 7_000_000));
    assert_eq!(positions(&found), vec![(-40_000_000, 7_000_000)]);
}

#[test]
fn query_keeps_entries_within_radius() {
    let mut g = SpatialGrid2D::new(R);
    for x in [0, 5_000_000, 10_000_000, 15_000_000, 25_000_000, -10_000_001].iter() {
        g.insert(at(*x, 0));
    }
    let found = g.query(Vec2::new(0, 0));
    assert_eq!(positions(&found), vec![(0, 0), (5_000_000, 0), (10_000_000, 0)]);
    let idx = g.query_indices(Vec2::new(0, 0));
    assert_eq!(idx, vec![0, 1, 2]);
}

#[test]
fn query_on_empty_grid_is_empty() {
    let g: SpatialGrid2D<Particle> = SpatialGrid2D::new(R);
    assert!(g.query(Vec2::new(0, 0)).is_empty());
}

#[test]
fn recompute_refiles_moved_entries() {
    let mut g = SpatialGrid2D::new(R);
    g.insert(at(0, 0));
    g.insert(at(1_000_000, 0));
    let mut moved = g.iter().clone();
    moved[0].position = Vec2::new(50_000_000, 50_000_000);
    g.set_entries(moved);
    assert!(g.query(Vec2::new(50_000_000, 50_000_000)).is_empty());
    g.recompute();
    assert_eq!(positions(&g.query(Vec2::new(50_000_000, 50_000_000))), vec![(50_000_000, 50_000_000)]);
    assert_eq!(positions(&g.query(Vec2::new(0, 0))), vec![(1_000_000, 0)]);
    assert_eq!(g.len(), 2);
}

#[test]
fn clear_removes_everything() {
    let mut g = SpatialGrid2D::new(R);
    g.insert(at(0, 0));
    g.clear();
    assert_eq!(g.len(), 0);
    assert!(g.query(Vec2::new(0, 0)).is_empty());
}

#[test]
fn cells_round_down() {
    let g: SpatialGrid2D<Particle> = SpatialGrid2D::new(R);
    assert_eq!(g.cell_key(Vec2::new(-1, 25_000_000)), (-1, 2));
    assert_eq!(g.cell_key(Vec2::new(-10_000_000, 9_999_999)), (-1, 0));
    assert_eq!(g.radius(), R);
}
