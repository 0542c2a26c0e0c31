use conway_rust::conway_engine::ConwayEngine;

/// Collects the whole grid as one flat vector of cell values.
fn snapshot(engine: &ConwayEngine) -> Vec<usize> {
    let (rows, columns) = engine.get_grid_dimensions();
    let mut cells = Vec::new();
    for row in 0..rows {
        for column in 0..columns {
            cells.push(engine.get_cell(row, column));
        }
    }
    cells
}

#[test]
fn test_isolated_cell_dies() {
    // a single live cell has zero live neighbors and dies after one step
    let lines = vec![
        "3, 3".to_string(),
        "0,0,0".to_string(),
        "0,1,0".to_string(),
        "0,0,0".to_string(),
    ];
    let mut engine = ConwayEngine::new(Some(lines), "isolated", 0, 0).unwrap();
    engine.take_step();
    assert_eq!(snapshot(&engine), vec![0; 9]);
}

#[test]
fn test_blinker_oscillates() {
    // the default pattern is a vertical three-cell bar: one step turns it
    // horizontal, a second step restores the original configuration
    let mut engine = ConwayEngine::new(None, "", 0, 0).unwrap();
    let start = snapshot(&engine);
    engine.take_step();
    let expected_mid = vec![
        0, 0, 0, 0, 0,
        0, 0, 0, 0, 0,
        0, 1, 1, 1, 0,
        0, 0, 0, 0, 0,
        0, 0, 0, 0, 0,
    ];
    assert_eq!(snapshot(&engine), expected_mid);
    engine.take_step();
    assert_eq!(snapshot(&engine), start);
}

#[test]
fn test_diagonal_first_step_pinned() {
    // a five-cell diagonal on a 5x5 grid: the two end cells die (one live
    // neighbor), the three middle cells survive (two), and nothing is born
    let lines = vec![
        "5, 5".to_string(),
        "1,0,0,0,0".to_string(),
        "0,1,0,0,0".to_string(),
        "0,0,1,0,0".to_string(),
        "0,0,0,1,0".to_string(),
        "0,0,0,0,1".to_string(),
    ];
    let mut engine = ConwayEngine::new(Some(lines), "diagonal", 0, 0).unwrap();
    engine.take_step();
    let expected = vec![
        0, 0, 0, 0, 0,
        0, 1, 0, 0, 0,
        0, 0, 1, 0, 0,
        0, 0, 0, 1, 0,
        0, 0, 0, 0, 0,
    ];
    assert_eq!(snapshot(&engine), expected);
}

#[test]
fn test_block_still_life() {
    // a two-by-two block is stable: every step leaves it unchanged
    let lines = vec![
        "4, 4".to_string(),
        "0,0,0,0".to_string(),
        "0,1,1,0".to_string(),
        "0,1,1,0".to_string(),
        "0,0,0,0".to_string(),
    ];
    let mut engine = ConwayEngine::new(Some(lines), "block", 0, 0).unwrap();
    let start = snapshot(&engine);
    for _ in 0..4 {
        engine.take_step();
        assert_eq!(snapshot(&engine), start);
    }
}

#[test]
fn test_step_budget_of_one() {
    let lines = vec![
        "3, 3".to_string(),
        "0,0,0".to_string(),
        "0,1,0".to_string(),
        "0,0,0".to_string(),
    ];
    let mut engine = ConwayEngine::new(Some(lines), "budget", 0, 1).unwrap();
    assert!(!engine.is_simulation_non_stop());
    assert!(!engine.is_simulation_ended());
    assert_eq!(engine.get_number_of_steps(), 1);
    // the step that exhausts the budget still applies the rule
    engine.take_step();
    assert!(engine.is_simulation_ended());
    assert_eq!(engine.get_number_of_steps(), 0);
    assert_eq!(snapshot(&engine), vec![0; 9]);
    // once ended, further steps change nothing and count nothing down
    let frozen = snapshot(&engine);
    engine.take_step();
    engine.take_step();
    assert!(engine.is_simulation_ended());
    assert_eq!(engine.get_number_of_steps(), 0);
    assert_eq!(snapshot(&engine), frozen);
}

#[test]
fn test_rich_cell_values_survive() {
    // any value greater than zero is live; a surviving cell keeps its
    // value rather than being reset to 1
    let lines = vec![
        "2, 2".to_string(),
        "9,1".to_string(),
        "1,1".to_string(),
    ];
    let mut engine = ConwayEngine::new(Some(lines), "values", 0, 0).unwrap();
    engine.take_step();
    // each cell of the block has exactly three live neighbors and survives
    assert_eq!(snapshot(&engine), vec![9, 1, 1, 1]);
}

#[test]
fn test_non_stop_never_ends() {
    let mut engine = ConwayEngine::new(None, "", 0, 0).unwrap();
    assert!(engine.is_simulation_non_stop());
    for _ in 0..10 {
        engine.take_step();
        assert!(!engine.is_simulation_ended());
        assert_eq!(engine.get_number_of_steps(), 0);
    }
}
