use lifes_end::cells::{Cell, CellSet};
use lifes_end::gol_grid::LifeGrid;
use lifes_end::random::GameRng;

fn grid_with(cells: &[Cell], bounds: (i32, i32)) -> LifeGrid {
    let mut grid = LifeGrid::new(bounds);
    grid.add_pattern(&cells.to_vec(), (0, 0));
    grid
}

fn alive_sorted(grid: &LifeGrid) -> Vec<Cell> {
    let mut v = grid.alive_cells().as_vec().clone();
    v.sort();
    v
}

fn adjacent(a: Cell, b: Cell) -> bool {
    a != b && (a.0 - b.0).abs() <= 1 && (a.1 - b.1).abs() <= 1
}

#[test]
fn new_grid_is_empty() {
    let grid = LifeGrid::new((31, 21));
    assert_eq!(grid.cell_count(), 0);
    assert_eq!(grid.bounds(), (31, 21));
    assert!(grid.alive_cells().is_empty());
}

#[test]
fn add_pattern_shifts_cells() {
    let mut grid = LifeGrid::new((31, 21));
    grid.add_pattern(&vec![(0, 0), (1, 0), (2, 0)], (5, -3));
    assert_eq!(alive_sorted(&grid), vec![(5, -3), (6, -3), (7, -3)]);
    grid.add_pattern(&vec![(0, 0), (1, 0), (2, 0)], (5, -3));
    assert_eq!(grid.cell_count(), 3);
}

#[test]
fn clear_radius_keeps_cells_strictly_outside() {
    let mut grid = grid_with(&[(0, 0), (3, 0), (3, 4), (4, 4), (0, 6)], (31, 21));
    grid.clear_radius((0, 0), 5);
    // 3*3+4*4 = 25 is not beyond 25, so (3, 4) is cleared; 4*4+4*4 = 32 and 36 remain.
    assert_eq!(alive_sorted(&grid), vec![(0, 6), (4, 4)]);
}

#[test]
fn remove_cell_reports_presence() {
    let mut grid = grid_with(&[(1, 1)], (31, 21));
    assert!(grid.remove_cell((1, 1)));
    assert!(!grid.remove_cell((1, 1)));
    assert!(!grid.is_alive((1, 1)));
}

#[test]
fn blinker_oscillates() {
    let mut rng = GameRng::default();
    let mut grid = grid_with(&[(0, 0), (1, 0), (2, 0)], (31, 21));
    grid.tick(&mut rng);
    assert_eq!(alive_sorted(&grid), vec![(1, -1), (1, 0), (1, 1)]);
    grid.tick(&mut rng);
    assert_eq!(alive_sorted(&grid), vec![(0, 0), (1, 0), (2, 0)]);
}

#[test]
fn block_is_still_until_it_stagnates() {
    let mut rng = GameRng::default();
    let block = vec![(0, 0), (0, 1), (1, 0), (1, 1)];
    let mut grid = grid_with(&block, (31, 21));
    for _ in 0..15 {
        grid.tick(&mut rng);
        assert_eq!(alive_sorted(&grid), block);
    }
    // On the sixteenth generation every block cell is stale and spawns a neighbour:
    // each of the four still has a free neighbour at its turn.
    grid.tick(&mut rng);
    let after = alive_sorted(&grid);
    for c in &block {
        assert!(after.contains(c));
    }
    assert_eq!(after.len(), 8);
    for c in &after {
        if !block.contains(c) {
            assert!(block.iter().any(|b| adjacent(*b, *c)));
        }
    }
}

#[test]
fn glider_travels_diagonally() {
    let mut rng = GameRng::default();
    let glider = vec![(0, 0), (1, 0), (2, 0), (2, 1), (1, 2)];
    let mut grid = grid_with(&glider, (31, 21));
    for _ in 0..4 {
        grid.tick(&mut rng);
    }
    let mut moved: Vec<Cell> = glider.iter().map(|c| (c.0 + 1, c.1 - 1)).collect();
    moved.sort();
    assert_eq!(alive_sorted(&grid), moved);
}

#[test]
fn cells_outside_the_arena_die() {
    let mut rng = GameRng::default();
    // A blinker on the edge: its vertical phase would need rows beyond the bound.
    let mut grid = grid_with(&[(0, 2), (1, 2), (2, 2)], (5, 2));
    grid.tick(&mut rng);
    assert_eq!(alive_sorted(&grid), vec![(1, 1), (1, 2)]);
}

#[test]
fn lonely_cells_die() {
    let mut rng = GameRng::default();
    let mut grid = grid_with(&[(0, 0), (5, 5)], (31, 21));
    grid.tick(&mut rng);
    assert_eq!(grid.cell_count(), 0);
}

#[test]
fn find_groups_splits_by_eight_connectivity() {
    let grid = grid_with(&[(0, 0), (1, 1), (2, 2), (10, 10), (10, 11), (-5, 0)], (31, 21));
    let mut groups = grid.find_groups();
    for g in groups.iter_mut() {
        g.sort();
    }
    groups.sort();
    assert_eq!(groups, vec![vec![(-5, 0)], vec![(0, 0), (1, 1), (2, 2)], vec![(10, 10), (10, 11)]]);
}

#[test]
fn find_groups_of_empty_colony() {
    let grid = LifeGrid::new((31, 21));
    assert!(grid.find_groups().is_empty());
}

#[test]
fn tick_without_stagnation_keeps_the_rule() {
    let mut rng = GameRng::default();
    let mut grid = grid_with(&[(0, 0), (1, 0), (2, 0)], (31, 21));
    grid.tick(&mut rng);
    assert_eq!(alive_sorted(&grid), vec![(1, -1), (1, 0), (1, 1)]);
}

#[test]
fn nuke_empties_small_groups() {
    let mut rng = GameRng::default();
    let mut grid = grid_with(&[(0, 0), (1, 0), (2, 0), (7, 7)], (10, 10));
    grid.nuke(&mut rng);
    assert_eq!(grid.cell_count(), 0);
}

#[test]
fn nuke_deletes_three_and_grows_five() {
    let mut rng = GameRng::default();
    let square: Vec<Cell> = (0..3).flat_map(|x| (0..3).map(move |y| (x, y))).collect();
    let mut grid = grid_with(&square, (31, 21));
    grid.nuke(&mut rng);
    let after = alive_sorted(&grid);
    let lost = square.iter().filter(|c| !after.contains(c)).count();
    let grown: Vec<Cell> = after.iter().copied().filter(|c| !square.contains(c)).collect();
    assert_eq!(lost, 3);
    assert_eq!(grown.len(), 5);
    for c in &grown {
        assert!(square.iter().any(|o| after.contains(o) && adjacent(*o, *c)));
    }
}

#[test]
fn nuke_of_empty_colony_changes_nothing() {
    let mut rng = GameRng::default();
    let mut grid = LifeGrid::new((31, 21));
    grid.nuke(&mut rng);
    assert_eq!(grid.cell_count(), 0);
}

#[test]
fn nuke_deletes_at_most_three_per_group() {
    let mut rng = GameRng::default();
    let row: Vec<Cell> = (0..10).map(|x| (x, 0)).collect();
    let pair = vec![(0, 10), (1, 10)];
    let mut cells = row.clone();
    cells.extend(pair.iter().copied());
    let mut grid = grid_with(&cells, (31, 21));
    grid.nuke(&mut rng);
    let after = alive_sorted(&grid);
    let lost_row = row.iter().filter(|c| !after.contains(c)).count();
    let lost_pair = pair.iter().filter(|c| !after.contains(c)).count();
    assert_eq!(lost_row, 3);
    assert_eq!(lost_pair, 2);
    for c in &after {
        if !cells.contains(c) {
            assert!(c.0.abs() <= 31 && c.1.abs() <= 21);
            assert!(cells.iter().any(|o| after.contains(o) && adjacent(*o, *c)));
        }
    }
}

#[test]
fn nuke_on_single_cells_removes_them() {
    let mut rng = GameRng::default();
    let mut grid = grid_with(&[(0, 0), (10, 10), (-10, 5)], (31, 21));
    grid.nuke(&mut rng);
    assert_eq!(grid.cell_count(), 0);
}

#[test]
fn swarm_limit_is_inclusive() {
    let grid = grid_with(&[(0, 0), (1, 0), (2, 0)], (31, 21));
    assert!(grid.swarm_limit_reached(3));
    assert!(!grid.swarm_limit_reached(4));
}

#[test]
fn sync_plan_lists_stale_and_missing_cells() {
    let grid = grid_with(&[(0, 0), (1, 0), (2, 0)], (31, 21));
    let shown: Vec<Cell> = vec![(5, 5), (1, 0), (7, 7)];
    let (stale, mut missing) = grid.sync_plan(&shown);
    missing.sort();
    assert_eq!(stale, vec![0, 2]);
    assert_eq!(missing, vec![(0, 0), (2, 0)]);
}

#[test]
fn cell_set_basics() {
    let mut s = CellSet::new();
    assert!(s.insert((1, 2)));
    assert!(!s.insert((1, 2)));
    assert_eq!(s.len(), 1);
    assert_eq!(s.count_neighbors((2, 2)), 1);
    assert_eq!(s.count_neighbors((1, 2)), 0);
    assert!(s.remove((1, 2)));
    assert!(s.is_empty());
}

#[test]
fn life_step_is_rule_b3s23() {
    // An L-tromino: the missing corner is born, every cell survives.
    let grid = grid_with(&[(0, 0), (1, 0), (0, 1)], (31, 21));
    let mut next = grid.life_step().as_vec().clone();
    next.sort();
    assert_eq!(next, vec![(0, 0), (0, 1), (1, 0), (1, 1)]);
}

#[test]
fn sorted_cells_orders_lexicographically() {
    let v = vec![(2, 0), (-1, 5), (2, -3), (0, 0)];
    assert_eq!(lifes_end::cells::sorted_cells(&v), vec![(-1, 5), (0, 0), (2, -3), (2, 0)]);
}

#[test]
fn spawn_options_follow_the_neighbour_order() {
    let empty = CellSet::new();
    let all = LifeGrid::mutation_candidates(&empty, (0, 0), (31, 21));
    assert_eq!(all, vec![(-1, -1), (-1, 0), (-1, 1), (0, -1), (0, 1), (1, -1), (1, 0), (1, 1)]);
    let mut taken = CellSet::new();
    taken.insert((-1, -1));
    assert_eq!(LifeGrid::spawn_pick(&taken, (0, 0), (31, 21), 0), (-1, 0));
    // The arena edge removes the options beyond it.
    assert_eq!(LifeGrid::spawn_pick(&empty, (1, 1), (1, 1), 0), (0, 0));
}

#[test]
fn regrowth_choices_list_each_member_and_direction() {
    let grid = grid_with(&[(0, 0), (1, 0)], (31, 21));
    let mut orig = CellSet::new();
    for c in [(0, 0), (1, 0), (2, 0)] {
        orig.insert(c);
    }
    let ways = grid.regrowth_choices(&orig, &vec![(0, 0), (1, 0)]);
    assert_eq!(
        ways,
        vec![
            (-1, -1), (-1, 0), (-1, 1), (0, -1), (0, 1), (1, -1), (1, 1),
            (0, -1), (0, 1), (1, -1), (1, 1), (2, -1), (2, 1),
        ]
    );
    assert!(!ways.contains(&(2, 0)));
}
