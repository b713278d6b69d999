use lifes_end::cells::Cell;
use lifes_end::gol_grid::LifeGrid;
use lifes_end::level_config::{
    beacon, blinker, build_level_grid, enemy_count, get_level, glider, has_wave, lwss, mutate_pattern,
    mutation_count, pick_pattern, pulsar, growth_choices, grow_with, pattern_at, tier_size, r_pentomino, toad, wave_enemy_count, CurrentLevel, PatternPlacement,
    WaveConfig, WaveTrigger,
};
use lifes_end::random::GameRng;

fn shares_edge(a: Cell, b: Cell) -> bool {
    (a.0 - b.0).abs() + (a.1 - b.1).abs() == 1
}

fn tier(level: usize) -> Vec<Vec<Cell>> {
    if level <= 3 {
        vec![blinker(), toad(), glider()]
    } else if level <= 6 {
        vec![blinker(), toad(), beacon(), glider()]
    } else if level <= 10 {
        vec![toad(), glider(), beacon(), r_pentomino(), lwss()]
    } else {
        vec![glider(), toad(), beacon(), r_pentomino(), lwss(), pulsar()]
    }
}

#[test]
fn classic_patterns() {
    assert_eq!(glider(), vec![(0, 0), (1, 0), (2, 0), (2, 1), (1, 2)]);
    assert_eq!(blinker(), vec![(0, 0), (1, 0), (2, 0)]);
    assert_eq!(toad(), vec![(1, 0), (2, 0), (3, 0), (0, 1), (1, 1), (2, 1)]);
    assert_eq!(beacon(), vec![(0, 0), (1, 0), (0, 1), (3, 2), (2, 3), (3, 3)]);
    assert_eq!(r_pentomino(), vec![(1, 0), (2, 0), (0, 1), (1, 1), (1, 2)]);
    assert_eq!(lwss().len(), 9);
    assert_eq!(pulsar().len(), 48);
    assert!(pulsar().iter().all(|c| (0..=12).contains(&c.0) && (0..=12).contains(&c.1)));
}

#[test]
fn pick_pattern_stays_in_tier() {
    let mut rng = GameRng::default();
    for level in [1usize, 3, 4, 6, 7, 10, 11, 20] {
        for _ in 0..20 {
            let p = pick_pattern(&mut rng, level);
            assert!(tier(level).contains(&p), "level {}", level);
        }
    }
}

#[test]
fn mutate_pattern_grows_by_neighbours() {
    let mut rng = GameRng::default();
    let base = glider();
    let mut cells = base.clone();
    mutate_pattern(&mut cells, 4, &mut rng);
    assert_eq!(cells.len(), base.len() + 4);
    assert_eq!(&cells[..base.len()], &base[..]);
    for t in base.len()..cells.len() {
        assert!(!cells[..t].contains(&cells[t]));
        assert!(cells[..t].iter().any(|c| shares_edge(*c, cells[t])));
    }
}

#[test]
fn growth_choices_of_a_cell_are_its_edge_neighbours() {
    let options = growth_choices(&vec![(0, 0)]);
    assert_eq!(options, vec![(-1, 0), (0, -1), (0, 1), (1, 0)]);
}

#[test]
fn grow_with_takes_the_indexed_choice() {
    let mut cells = vec![(0, 0), (1, 0)];
    grow_with(&mut cells, 0);
    assert_eq!(cells, vec![(0, 0), (1, 0), (-1, 0)]);
    let mut cells = vec![(0, 0), (1, 0)];
    grow_with(&mut cells, 5);
    assert_eq!(cells, vec![(0, 0), (1, 0), (2, 0)]);
}

#[test]
fn pattern_at_lists_each_tier() {
    assert_eq!(tier_size(1), 3);
    assert_eq!(pattern_at(1, 2), glider());
    assert_eq!(pattern_at(5, 2), beacon());
    assert_eq!(pattern_at(8, 3), r_pentomino());
    assert_eq!(tier_size(11), 6);
    assert_eq!(pattern_at(11, 5), pulsar());
}

#[test]
fn mutate_empty_pattern_adds_nothing() {
    let mut rng = GameRng::default();
    let mut cells: Vec<Cell> = Vec::new();
    mutate_pattern(&mut cells, 3, &mut rng);
    assert!(cells.is_empty());
}

#[test]
fn level_formulas() {
    assert_eq!(enemy_count(1), 4);
    assert_eq!(enemy_count(2), 5);
    assert_eq!(mutation_count(1), 1);
    assert_eq!(mutation_count(2), 1);
    assert_eq!(mutation_count(3), 2);
    assert_eq!(mutation_count(4), 2);
    assert_eq!(mutation_count(5), 3);
    assert!(!has_wave(0));
    assert!(!has_wave(1));
    assert!(has_wave(3));
    assert!(!has_wave(4));
    assert!(has_wave(6));
    assert_eq!(wave_enemy_count(3), 1);
    assert_eq!(wave_enemy_count(8), 3);
}

#[test]
fn get_level_places_and_mutates_enemies() {
    let mut rng = GameRng::default();
    let level = 5;
    let offsets: Vec<Cell> = (0..enemy_count(level) as i32).map(|i| (i * 3, -i)).collect();
    let (patterns, waves) = get_level(level, &mut rng, &offsets, &Vec::new());
    assert_eq!(patterns.len(), 8);
    assert!(waves.is_empty());
    let mutated = mutation_count(level);
    for (i, p) in patterns.iter().enumerate() {
        assert_eq!(p.offset, offsets[i]);
        if i < mutated {
            assert!(tier(level).iter().any(|b| p.cells.len() == b.len() + mutated && p.cells[..b.len()] == b[..]));
        } else {
            assert!(tier(level).contains(&p.cells));
        }
    }
}

#[test]
fn get_level_wave_every_third_level() {
    let mut rng = GameRng::default();
    let level = 6;
    let offsets: Vec<Cell> = vec![(0, 0); enemy_count(level)];
    let wave_offsets: Vec<Cell> = vec![(20, 1), (-20, 2)];
    let (patterns, waves) = get_level(level, &mut rng, &offsets, &wave_offsets);
    assert_eq!(patterns.len(), 9);
    assert_eq!(waves.len(), 1);
    match waves[0].trigger {
        WaveTrigger::CellCountBelow(n) => assert_eq!(n, 9),
    }
    assert_eq!(waves[0].patterns.len(), 2);
    assert_eq!(waves[0].patterns[1].offset, (-20, 2));
}

#[test]
fn build_level_grid_clears_spawn_area() {
    let patterns = vec![
        PatternPlacement { cells: blinker(), offset: (-1, 0) },
        PatternPlacement { cells: glider(), offset: (10, 10) },
    ];
    let grid = build_level_grid((31, 21), &patterns, 5);
    let mut alive = grid.alive_cells().as_vec().clone();
    alive.sort();
    assert_eq!(alive, vec![(10, 10), (11, 10), (11, 12), (12, 10), (12, 11)]);
}

#[test]
fn waves_arrive_when_colony_is_small() {
    let mut grid = LifeGrid::new((31, 21));
    grid.add_pattern(&blinker(), (0, 0));
    let mut level = CurrentLevel {
        level_number: 3,
        waves_remaining: vec![
            WaveConfig {
                trigger: WaveTrigger::CellCountBelow(3),
                patterns: vec![PatternPlacement { cells: blinker(), offset: (10, 0) }],
            },
            WaveConfig {
                trigger: WaveTrigger::CellCountBelow(4),
                patterns: vec![PatternPlacement { cells: blinker(), offset: (-10, 0) }],
            },
        ],
    };
    level.trigger_waves(&mut grid);
    assert_eq!(level.waves_remaining.len(), 1);
    assert_eq!(grid.cell_count(), 6);
    assert!(grid.is_alive((-10, 0)));
    assert!(!grid.is_alive((10, 0)));
    level.trigger_waves(&mut grid);
    assert_eq!(level.waves_remaining.len(), 1);
}

#[test]
fn level_progression() {
    let first = CurrentLevel::first();
    assert_eq!(first.level_number, 1);
    let second = CurrentLevel::after(Some(&first));
    assert_eq!(second.level_number, 2);
    assert_eq!(CurrentLevel::after(None).level_number, 1);
    assert_eq!(CurrentLevel::number_or_first(Some(&second)), 2);
    assert_eq!(CurrentLevel::number_or_first(None), 1);
}

#[test]
fn level_cleared_needs_everything_gone() {
    let grid = LifeGrid::new((31, 21));
    let level = CurrentLevel::first();
    assert!(level.is_cleared(&grid, 0));
    assert!(!level.is_cleared(&grid, 1));
    let mut busy = LifeGrid::new((31, 21));
    busy.add_pattern(&blinker(), (0, 0));
    assert!(!level.is_cleared(&busy, 0));
}

#[test]
fn pick_pattern_draws_vary() {
    let mut rng = GameRng::default();
    let picks: Vec<Vec<Cell>> = (0..200).map(|_| pick_pattern(&mut rng, 20)).collect();
    for p in tier(20) {
        assert!(picks.contains(&p));
    }
}
