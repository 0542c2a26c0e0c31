use conway_rust::conway_engine::generate_default_file_array;
use conway_rust::conway_engine::generate_grid;
use conway_rust::conway_engine::parse_header;
use conway_rust::conway_engine::ConwayEngine;
use conway_rust::conway_engine::PatternError;

/// The text of a pattern describing a diagonal of five live cells.
fn diagonal_lines() -> Vec<String> {
    vec![
        "5, 5, 1, 20".to_string(),
        "1,0,0,0,0".to_string(),
        "0,1,0,0,0".to_string(),
        "0,0,1,0,0".to_string(),
        "0,0,0,1,0".to_string(),
        "0,0,0,0,1".to_string(),
    ]
}

/// The text of a pattern describing the vertical-bar oscillator.
fn oscillator_lines() -> Vec<String> {
    vec![
        "5, 5, 1, 20".to_string(),
        "0,0,0,0,0".to_string(),
        "0,0,1,0,0".to_string(),
        "0,0,1,0,0".to_string(),
        "0,0,1,0,0".to_string(),
        "0,0,0,0,0".to_string(),
    ]
}

#[test]
fn test_new() {
    let engine =
        ConwayEngine::new(Some(diagonal_lines()), "test-files/test.txt", 0, 0).unwrap();
    for row in 0..engine.get_grid_dimensions().0 {
        let mut row_s: String = "".to_string();
        for column in 0..engine.get_grid_dimensions().1 {
            row_s += &engine.get_cell(row, column).to_string();
        }
        println!("{}", row_s);
    }
    assert_eq!(engine.get_cell(0, 0), 1);
    assert_eq!(engine.get_cell(1, 1), 1);
    assert_eq!(engine.get_cell(2, 2), 1);
    assert_eq!(engine.get_cell(3, 3), 1);
    assert_eq!(engine.get_cell(4, 4), 1);

    // no readable source: the default oscillator takes over
    let engine = ConwayEngine::new(None, "", 0, 0).unwrap();
    for row in 0..engine.get_grid_dimensions().0 {
        let mut row_s: String = "".to_string();
        for column in 0..engine.get_grid_dimensions().1 {
            row_s += &engine.get_cell(row, column).to_string();
        }
        println!("{}", row_s);
    }
    assert_eq!(engine.get_cell(1, 2), 1);
    assert_eq!(engine.get_cell(2, 2), 1);
    assert_eq!(engine.get_cell(3, 2), 1);
}

#[test]
fn test_parse_header() {
    let data = parse_header("5, 5, 5, 5".to_string(), 0, 0);
    assert!(data.is_ok());
    let data = data.unwrap();
    assert_eq!(data, (5, 5, 5, 5));

    let data = parse_header("1, 2, 3, 4, 6".to_string(), 0, 0);
    assert!(data.is_ok());
    let data = data.unwrap();
    assert_eq!(data, (1, 2, 3, 4));

    let data = parse_header("5, 5, 20, 1".to_string(), 0, 0);
    assert!(data.is_ok());
    let data = data.unwrap();
    assert_eq!(data, (5, 5, 20, 1));

    let data = parse_header("5, 5, 5".to_string(), 0, 0);
    assert!(data.is_ok());
    let data = data.unwrap();
    assert_eq!(data, (5, 5, 5, 0));

    let data = parse_header("5, 5".to_string(), 0, 0);
    assert!(data.is_ok());
    let data = data.unwrap();
    assert_eq!(data, (5, 5, 0, 0));

    let data = parse_header("5".to_string(), 0, 0);
    assert!(data.is_err());
}

#[test]
fn test_parse_header_errors() {
    // every rejection is a header parse failure
    assert_eq!(
        parse_header("".to_string(), 1, 2).unwrap_err(),
        PatternError::HeaderParse
    );
    assert_eq!(
        parse_header("a, 5".to_string(), 0, 0).unwrap_err(),
        PatternError::HeaderParse
    );
    assert_eq!(
        parse_header("5, 5, x".to_string(), 0, 0).unwrap_err(),
        PatternError::HeaderParse
    );
    assert_eq!(
        parse_header("5, 5, 1, -3".to_string(), 0, 0).unwrap_err(),
        PatternError::HeaderParse
    );
    // a value beyond the host integer width does not parse
    assert_eq!(
        parse_header("99999999999999999999999, 5".to_string(), 0, 0).unwrap_err(),
        PatternError::HeaderParse
    );
    // defaults fill in the missing fields
    assert_eq!(parse_header("3, 4".to_string(), 7, 9).unwrap(), (3, 4, 7, 9));
    assert_eq!(parse_header("5, 5, 1, 20".to_string(), 0, 0).unwrap(), (5, 5, 1, 20));
    // whitespace around a field is ignored
    assert_eq!(
        parse_header("  3\t, 4 , 5 , 6 ".to_string(), 0, 0).unwrap(),
        (3, 4, 5, 6)
    );
}

#[test]
fn test_empty_generated_grid() {
    let test_grid: Vec<String> = Vec::new();
    let grid = generate_grid(5, 5, test_grid);
    assert!(grid.is_ok());
    let grid = grid.unwrap();
    let test_grid_cells: Vec<usize> = vec![
        0, 0, 0, 0, 0, 0, 0, 0, 0, 0, 0, 0, 0, 0, 0, 0, 0, 0, 0, 0, 0, 0, 0, 0, 0,
    ];
    for row_index in 0..grid.size().0 {
        for column_index in 0..grid.size().1 {
            assert_eq!(
                grid.get(row_index, column_index).unwrap(),
                &test_grid_cells[row_index * grid.size().1 + column_index]
            );
        }
    }
}

#[test]
fn test_generate_grid() {
    let test_grid: Vec<String> = vec![
        "1,0,0,0,0".to_string(),
        "0,1,0,0,0".to_string(),
        "0,0,1,0,0".to_string(),
        "0,0,0,1,0".to_string(),
        "0,0,0,0,1".to_string(),
    ];
    let test_grid_cells: Vec<usize> = vec![
        1, 0, 0, 0, 0, 0, 1, 0, 0, 0, 0, 0, 1, 0, 0, 0, 0, 0, 1, 0, 0, 0, 0, 0, 1,
    ];
    let grid = generate_grid(5, 5, test_grid);
    assert!(grid.is_ok());
    let grid = grid.unwrap();
    for row_index in 0..grid.size().0 {
        for column_index in 0..grid.size().1 {
            assert_eq!(
                grid.get(row_index, column_index).unwrap(),
                &test_grid_cells[row_index * grid.size().1 + column_index]
            );
        }
    }

    let test_grid: Vec<String> = vec![
        "1,0,0,0,0".to_string(),
        "0,1,0,0,0".to_string(),
        "0,0,1,0,0".to_string(),
        "0,0,0,1,0".to_string(),
        "0,0,0,0,1".to_string(),
    ];
    let grid = generate_grid(4, 5, test_grid);
    assert!(grid.is_err());

    let test_grid: Vec<String> = vec![
        "1,0,0,0,0".to_string(),
        "0,1,0,0,0".to_string(),
        "0,0,1,0,0".to_string(),
        "0,0,0,1,0".to_string(),
        "0,0,0,0,1".to_string(),
    ];
    let grid = generate_grid(5, 4, test_grid);
    assert!(grid.is_err());

    let test_grid: Vec<String> = vec![
        "1,0,0,0,0".to_string(),
        "0,1,0,0,0".to_string(),
        "0,0,a,0,0".to_string(),
        "0,0,0,1,0".to_string(),
        "0,0,0,0,1".to_string(),
    ];
    let grid = generate_grid(5, 5, test_grid);
    assert!(grid.is_err());
}

#[test]
fn test_generate_grid_error_kinds() {
    // one data row too many
    assert_eq!(
        generate_grid(1, 3, vec!["1,1,1".to_string(), "0,0,0".to_string()]).unwrap_err(),
        PatternError::RowOverflow
    );
    // one field too many within a row
    assert_eq!(
        generate_grid(2, 2, vec!["1,0,1".to_string()]).unwrap_err(),
        PatternError::ColumnOverflow
    );
    // a cell that is not a non-negative integer
    assert_eq!(
        generate_grid(2, 2, vec!["1,x".to_string()]).unwrap_err(),
        PatternError::CellParse
    );
    // missing trailing fields are tolerated and stay dead
    let grid = generate_grid(2, 3, vec!["5".to_string()]).unwrap();
    assert_eq!(*grid.get(0, 0).unwrap(), 5);
    assert_eq!(*grid.get(0, 1).unwrap(), 0);
    assert_eq!(*grid.get(1, 2).unwrap(), 0);
}

#[test]
fn test_engine_new_errors() {
    // an unparseable header is reported, not fatal
    let e = ConwayEngine::new(Some(vec!["5".to_string()]), "src", 0, 0);
    assert_eq!(e.unwrap_err(), PatternError::HeaderParse);
    // no lines at all: no header to read
    let e = ConwayEngine::new(Some(Vec::new()), "src", 0, 0);
    assert_eq!(e.unwrap_err(), PatternError::HeaderParse);
    // dimensions beyond the host's address width
    let e = ConwayEngine::new(
        Some(vec!["4294967296, 4294967296".to_string()]),
        "src",
        0,
        0,
    );
    assert_eq!(e.unwrap_err(), PatternError::GridTooLarge);
    // bad cell data surfaces the grid generator's error
    let e = ConwayEngine::new(Some(vec!["2, 2".to_string(), "1,b".to_string()]), "src", 0, 0);
    assert_eq!(e.unwrap_err(), PatternError::CellParse);
}

#[test]
fn test_get_title_string() {
    let engine =
        ConwayEngine::new(Some(oscillator_lines()), "test-files/test2.txt", 0, 0).unwrap();
    assert_eq!(
        engine.get_title_string(),
        "Conway-rust v0.3.0: test-files/test2.txt"
    );

    let engine = ConwayEngine::new(
        Some(vec!["5, 5".to_string(), "0,1,1,1,0".to_string()]),
        "test-files/glider_test.txt",
        0,
        0,
    )
    .unwrap();
    assert_eq!(
        engine.get_title_string(),
        "Conway-rust v0.3.0: test-files/glider_test.txt -- non-stop"
    );

    let mut engine = ConwayEngine::new(
        Some(vec!["5, 5".to_string(), "0,1,1,1,0".to_string()]),
        "test-files/glider_test.txt",
        0,
        1,
    )
    .unwrap();
    engine.take_step();
    assert_eq!(
        engine.get_title_string(),
        "Conway-rust v0.3.0: test-files/glider_test.txt -- simulation ended"
    );

    let engine = ConwayEngine::new(None, "test-files/no-file.txt", 0, 1).unwrap();
    assert_eq!(
        engine.get_title_string(),
        "Conway-rust v0.3.0: No file found, using default pattern"
    );

    let engine = ConwayEngine::new(None, "test-files/no-file.txt", 0, 0).unwrap();
    assert_eq!(
        engine.get_title_string(),
        "Conway-rust v0.3.0: No file found, using default pattern -- non-stop"
    );

    let mut engine = ConwayEngine::new(None, "test-files/no-file.txt", 0, 1).unwrap();
    engine.take_step();
    assert_eq!(
        engine.get_title_string(),
        "Conway-rust v0.3.0: No file found, using default pattern -- simulation ended"
    );
}

#[test]
fn test_default_pattern_layout() {
    // the fallback is the documented 5x5 oscillator: a vertical bar at
    // column 2, rows 1 through 3, and the sentinel display name
    let engine = ConwayEngine::new(None, "ignored", 3, 0).unwrap();
    assert_eq!(engine.get_name().as_str(), "No file found, using default pattern");
    assert_eq!(engine.get_grid_dimensions(), (5, 5));
    for row in 0..5 {
        for column in 0..5 {
            let expected = if column == 2 && row >= 1 && row <= 3 { 1 } else { 0 };
            assert_eq!(engine.get_cell(row, column), expected);
        }
    }
    assert!(engine.is_simulation_non_stop());
    assert!(!engine.is_simulation_ended());
    let lines = generate_default_file_array();
    assert_eq!(lines[0], "5, 5");
    assert_eq!(lines.len(), 6);
}

#[test]
fn test_update_rate_duration() {
    let engine = ConwayEngine::new(Some(oscillator_lines()), "src", 0, 0).unwrap();
    // the oscillator header sets one second between generations
    assert_eq!(engine.get_update_rate_duration().as_secs(), 1);
    let engine = ConwayEngine::new(Some(vec!["2, 2".to_string()]), "src", 42, 0).unwrap();
    assert_eq!(engine.get_update_rate_duration().as_secs(), 42);
}

#[test]
fn test_get_cell_out_of_bounds_is_zero() {
    let engine = ConwayEngine::new(Some(diagonal_lines()), "src", 0, 0).unwrap();
    assert_eq!(engine.get_cell(0, 0), 1);
    assert_eq!(engine.get_cell(5, 0), 0);
    assert_eq!(engine.get_cell(0, 5), 0);
    assert_eq!(engine.get_cell(1000, 1000), 0);
}
