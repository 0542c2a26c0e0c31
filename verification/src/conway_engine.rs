//! The simulation engine for Conway's Game of Life, together with the
//! loader that turns a textual pattern description into an initial grid and
//! run parameters.
//!
//! The pattern text is line oriented: a header `rows, columns[, update
//! rate[, steps]]` followed by one comma-separated line of cell values per
//! row. Lines starting with `#` are comments. Malformed input is reported
//! as a typed [`PatternError`] instead of aborting, so a caller can fall
//! back to the built-in default pattern.

use crate::grid::Grid;
use crate::text::digits_value;
use crate::text::is_digit_string;
use crate::text::parse_usize_digits;
use crate::text::split_commas;
use crate::text::split_on_commas;
use crate::text::trim_spaces;
use crate::text::trimmed;
use std::time::Duration;
use vstd::prelude::*;
use vstd::string::StrSliceExecFns;
use vstd::string::StringExecFns;

verus! {

/// Why a pattern description was rejected.
#[derive(Clone, Copy, Debug, PartialEq, Eq, Structural)]
pub enum PatternError {
    /// The header line is missing, has fewer than two fields, or a present
    /// field is not a non-negative integer.
    HeaderParse,
    /// More data rows were supplied than the header's row count.
    RowOverflow,
    /// A data row holds more values than the header's column count.
    ColumnOverflow,
    /// A cell value is not a non-negative integer.
    CellParse,
    /// The declared dimensions describe more cells than this host can
    /// address.
    GridTooLarge,
}

/// A header or cell field parses when, after trimming, it is a non-empty
/// run of decimal digits whose value fits in `usize`.
pub open spec fn field_ok(f: Seq<char>) -> bool {
    is_digit_string(trimmed(f)) && digits_value(trimmed(f)) <= usize::MAX
}

/// The value a field denotes.
pub open spec fn field_value(f: Seq<char>) -> int {
    digits_value(trimmed(f))
}

/// The outcome of parsing a header line: `(row count, column count, update
/// rate, step budget)`, where the third and fourth fall back to the given
/// defaults when absent. `None` when fewer than two fields are present or
/// any present field among the first four does not parse; fields beyond
/// the fourth are ignored.
pub open spec fn spec_parse_header(
    line: Seq<char>,
    default_update_rate: int,
    default_steps: int,
) -> Option<(int, int, int, int)> {
    let fields = split_commas(line);
    if fields.len() < 2 {
        None
    } else if !field_ok(fields[0]) || !field_ok(fields[1]) {
        None
    } else if fields.len() >= 3 && !field_ok(fields[2]) {
        None
    } else if fields.len() >= 4 && !field_ok(fields[3]) {
        None
    } else {
        Some(
            (
                field_value(fields[0]),
                field_value(fields[1]),
                if fields.len() >= 3 {
                    field_value(fields[2])
                } else {
                    default_update_rate
                },
                if fields.len() >= 4 {
                    field_value(fields[3])
                } else {
                    default_steps
                },
            ),
        )
    }
}

/// Parses the header line of a pattern description into `(row count,
/// column count, update rate, step budget)`. The first two fields are
/// mandatory; the last two fall back to the supplied defaults when absent.
pub fn parse_header(header_line: String, default_update_rate: usize, default_steps: usize) -> (r:
    Result<(usize, usize, usize, usize), PatternError>)
    ensures
        r is Ok <==> spec_parse_header(
            header_line@,
            default_update_rate as int,
            default_steps as int,
        ) is Some,
        r is Ok ==> spec_parse_header(
            header_line@,
            default_update_rate as int,
            default_steps as int,
        ) == Some(
            (
                r->Ok_0.0 as int,
                r->Ok_0.1 as int,
                r->Ok_0.2 as int,
                r->Ok_0.3 as int,
            ),
        ),
        r is Err ==> r->Err_0 == PatternError::HeaderParse,
{
    let fields = split_on_commas(header_line.as_str());
    if fields.len() < 2 {
        return Err(PatternError::HeaderParse);
    }
    let row_size = match parse_usize_digits(trim_spaces(fields[0].as_str())) {
        Some(v) => v,
        None => {
            return Err(PatternError::HeaderParse);
        },
    };
    let column_size = match parse_usize_digits(trim_spaces(fields[1].as_str())) {
        Some(v) => v,
        None => {
            return Err(PatternError::HeaderParse);
        },
    };
    let update_rate = if fields.len() >= 3 {
        match parse_usize_digits(trim_spaces(fields[2].as_str())) {
            Some(v) => v,
            None => {
                return Err(PatternError::HeaderParse);
            },
        }
    } else {
        default_update_rate
    };
    let number_of_steps = if fields.len() >= 4 {
        match parse_usize_digits(trim_spaces(fields[3].as_str())) {
            Some(v) => v,
            None => {
                return Err(PatternError::HeaderParse);
            },
        }
    } else {
        default_steps
    };
    Ok((row_size, column_size, update_rate, number_of_steps))
}

/// The built-in fallback pattern: a 5x5 grid holding a vertical bar of
/// three live cells in the middle column, a period-two oscillator.
pub open spec fn default_pattern_lines() -> Seq<Seq<char>> {
    seq![
        "5, 5"@,
        "0,0,0,0,0"@,
        "0,0,1,0,0"@,
        "0,0,1,0,0"@,
        "0,0,1,0,0"@,
        "0,0,0,0,0"@,
    ]
}

/// Builds the textual description of the built-in fallback pattern, header
/// line first.
pub fn generate_default_file_array() -> (r: Vec<String>)
    ensures
        r.deep_view() == default_pattern_lines(),
{
    let mut default_vec: Vec<String> = Vec::new();
    default_vec.push("5, 5".to_owned());
    default_vec.push("0,0,0,0,0".to_owned());
    default_vec.push("0,0,1,0,0".to_owned());
    default_vec.push("0,0,1,0,0".to_owned());
    default_vec.push("0,0,1,0,0".to_owned());
    default_vec.push("0,0,0,0,0".to_owned());
    proof {
        assert(default_vec.deep_view() =~~= default_pattern_lines());
    }
    default_vec
}

/// A comment line starts with `#` and carries no pattern data.
pub open spec fn is_comment_line(l: Seq<char>) -> bool {
    l.len() > 0 && l[0] == '#'
}

/// The non-comment lines of `ls`, in order.
pub open spec fn non_comment_lines(ls: Seq<Seq<char>>) -> Seq<Seq<char>>
    decreases ls.len(),
{
    if ls.len() == 0 {
        Seq::<Seq<char>>::empty()
    } else {
        let rest = non_comment_lines(ls.drop_last());
        if is_comment_line(ls.last()) {
            rest
        } else {
            rest.push(ls.last())
        }
    }
}

/// Keeps the non-comment lines of a pattern description, in order.
pub fn filter_comment_lines(lines: Vec<String>) -> (r: Vec<String>)
    ensures
        r.deep_view() == non_comment_lines(lines.deep_view()),
{
    let mut kept: Vec<String> = Vec::new();
    let mut i: usize = 0;
    proof {
        assert(lines.deep_view().take(0) =~~= Seq::<Seq<char>>::empty());
        assert(kept.deep_view() =~~= non_comment_lines(lines.deep_view().take(0)));
    }
    while i < lines.len()
        invariant
            0 <= i <= lines.len(),
            kept.deep_view() == non_comment_lines(lines.deep_view().take(i as int)),
        decreases lines.len() - i,
    {
        let ghost prev = lines.deep_view().take(i as int);
        let ghost cur = lines.deep_view()[i as int];
        proof {
            assert(cur == lines@[i as int]@);
            assert(lines.deep_view().take(i + 1).drop_last() =~~= prev);
            assert(lines.deep_view().take(i + 1).last() == cur);
            assert(lines.deep_view().take(i + 1).len() == i + 1);
        }
        let line = &lines[i];
        let keep = if line.as_str().unicode_len() > 0 {
            line.as_str().get_char(0) != '#'
        } else {
            true
        };
        if keep {
            kept.push(line.clone());
            proof {
                assert(!is_comment_line(cur));
                assert(kept.deep_view() =~~= non_comment_lines(prev).push(cur));
            }
        } else {
            proof {
                assert(is_comment_line(cur));
            }
        }
        i = i + 1;
    }
    proof {
        assert(lines.deep_view().take(lines@.len() as int) =~~= lines.deep_view());
    }
    kept
}

/// Whether a data row fits the grid: no more fields than columns, and every
/// field a parseable cell value.
pub open spec fn row_ok(line: Seq<char>, cols: int) -> bool {
    let fs = split_commas(line);
    fs.len() <= cols && forall|j: int| 0 <= j < fs.len() ==> field_ok(#[trigger] fs[j])
}

/// Scans the data rows from `i` on and reports the first reason the grid
/// cannot be built, or `None` when the remaining rows are all acceptable.
/// Rows are checked in order; within a row, the row index is checked before
/// the field count, and the field count before the field values.
pub open spec fn spec_generate_error(
    rows: int,
    cols: int,
    lines: Seq<Seq<char>>,
    i: int,
) -> Option<PatternError>
    decreases lines.len() - i,
{
    if i < 0 || i >= lines.len() {
        None
    } else if i >= rows {
        Some(PatternError::RowOverflow)
    } else if split_commas(lines[i]).len() > cols {
        Some(PatternError::ColumnOverflow)
    } else if !(forall|j: int|
        0 <= j < split_commas(lines[i]).len() ==> field_ok(#[trigger] split_commas(lines[i])[j])) {
        Some(PatternError::CellParse)
    } else {
        spec_generate_error(rows, cols, lines, i + 1)
    }
}

/// The value a successfully built grid holds at `(r, c)`: the parsed field
/// when row `r` supplies a column `c`, and the zero fill (dead) otherwise.
pub open spec fn spec_cell_value(lines: Seq<Seq<char>>, r: int, c: int) -> int {
    if 0 <= r < lines.len() && 0 <= c < split_commas(lines[r]).len() {
        field_value(split_commas(lines[r])[c])
    } else {
        0
    }
}

/// Builds the initial grid from the data rows of a pattern description.
/// Rows beyond those supplied, and columns beyond those a row supplies,
/// stay at the zero fill; surplus rows or fields are errors.
pub fn generate_grid(row_size: usize, column_size: usize, grid_lines: Vec<String>) -> (r: Result<
    Grid<usize>,
    PatternError,
>)
    requires
        row_size * column_size <= usize::MAX,
    ensures
        r is Ok <==> spec_generate_error(
            row_size as int,
            column_size as int,
            grid_lines.deep_view(),
            0,
        ) is None,
        r is Err ==> Some(r->Err_0) == spec_generate_error(
            row_size as int,
            column_size as int,
            grid_lines.deep_view(),
            0,
        ),
        r is Ok ==> r->Ok_0.wf() && r->Ok_0.rows() == row_size && r->Ok_0.cols() == column_size,
        r is Ok ==> forall|rr: int, cc: int|
            r->Ok_0.in_bounds(rr, cc) ==> #[trigger] r->Ok_0.cell(rr, cc) as int == spec_cell_value(
                grid_lines.deep_view(),
                rr,
                cc,
            ),
{
    let ghost dv = grid_lines.deep_view();
    let ghost rows = row_size as int;
    let ghost cols = column_size as int;
    let mut grid: Grid<usize> = Grid::new(row_size, column_size, 0);
    let mut row_counter: usize = 0;
    proof {
        assert forall|rr: int, cc: int| grid.in_bounds(rr, cc) implies #[trigger] grid.cell(
            rr,
            cc,
        ) as int == 0 by {
            crate::grid::lemma_flat_index_bound(rr, cc, rows, cols);
        }
    }
    while row_counter < grid_lines.len()
        invariant
            0 <= row_counter <= grid_lines@.len(),
            dv == grid_lines.deep_view(),
            dv.len() == grid_lines@.len(),
            rows == row_size as int,
            cols == column_size as int,
            row_size * column_size <= usize::MAX,
            grid.wf(),
            grid.rows() == rows,
            grid.cols() == cols,
            spec_generate_error(rows, cols, dv, 0) == spec_generate_error(
                rows,
                cols,
                dv,
                row_counter as int,
            ),
            forall|rr: int, cc: int|
                grid.in_bounds(rr, cc) ==> #[trigger] grid.cell(rr, cc) as int == (if rr
                    < row_counter as int {
                    spec_cell_value(dv, rr, cc)
                } else {
                    0
                }),
        decreases grid_lines@.len() - row_counter,
    {
        if row_counter >= row_size {
            return Err(PatternError::RowOverflow);
        }
        let line_data = split_on_commas(grid_lines[row_counter].as_str());
        if line_data.len() > column_size {
            return Err(PatternError::ColumnOverflow);
        }
        let ghost fs = split_commas(dv[row_counter as int]);
        proof {
            assert(line_data.deep_view() == fs);
        }
        let mut column_counter: usize = 0;
        while column_counter < line_data.len()
            invariant
                0 <= column_counter <= line_data@.len(),
                line_data.deep_view() == fs,
                line_data@.len() == fs.len(),
                fs.len() <= cols,
                row_counter < grid_lines@.len(),
                dv == grid_lines.deep_view(),
                dv.len() == grid_lines@.len(),
                fs == split_commas(dv[row_counter as int]),
                row_counter < row_size,
                rows == row_size as int,
                cols == column_size as int,
                row_size * column_size <= usize::MAX,
                grid.wf(),
                grid.rows() == rows,
                grid.cols() == cols,
                spec_generate_error(rows, cols, dv, 0) == spec_generate_error(
                    rows,
                    cols,
                    dv,
                    row_counter as int,
                ),
                forall|j: int| 0 <= j < column_counter as int ==> field_ok(#[trigger] fs[j]),
                forall|rr: int, cc: int|
                    grid.in_bounds(rr, cc) ==> #[trigger] grid.cell(rr, cc) as int == (if rr
                        < row_counter as int || (rr == row_counter as int && cc
                        < column_counter as int) {
                        spec_cell_value(dv, rr, cc)
                    } else {
                        0
                    }),
            decreases line_data@.len() - column_counter,
        {
            let data = match parse_usize_digits(trim_spaces(line_data[column_counter].as_str())) {
                Some(v) => v,
                None => {
                    proof {
                        let bad = column_counter as int;
                        assert(fs == split_commas(dv[row_counter as int]));
                        assert(0 <= bad < split_commas(dv[row_counter as int]).len());
                        assert(!field_ok(split_commas(dv[row_counter as int])[bad]));
                        assert(spec_generate_error(rows, cols, dv, row_counter as int) == Some(
                            PatternError::CellParse,
                        ));
                    }
                    return Err(PatternError::CellParse);
                },
            };
            proof {
                assert(trimmed(line_data@[column_counter as int]@) == trimmed(
                    fs[column_counter as int],
                ));
                assert(field_ok(fs[column_counter as int]));
                assert(data as int == spec_cell_value(dv, row_counter as int, column_counter as int));
            }
            let set_result = grid.set(row_counter, column_counter, data);
            proof {
                assert(set_result is Ok);
            }
            column_counter = column_counter + 1;
        }
        proof {
            assert(spec_generate_error(rows, cols, dv, row_counter as int) == spec_generate_error(
                rows,
                cols,
                dv,
                row_counter as int + 1,
            ));
        }
        row_counter = row_counter + 1;
    }
    Ok(grid)
}

/// The display name an engine reports when no pattern source was available
/// and the built-in default pattern is in use.
pub open spec fn fallback_name() -> Seq<char> {
    "No file found, using default pattern"@
}

/// The lines the engine is built from: the supplied pattern text, or the
/// built-in default pattern when no source was available.
pub open spec fn engine_input_lines(file_data: Option<Vec<String>>) -> Seq<Seq<char>> {
    match file_data {
        Some(data) => data.deep_view(),
        None => default_pattern_lines(),
    }
}

/// The display name the engine takes: the source identifier when the source
/// was available, and a fixed sentinel otherwise.
pub open spec fn engine_input_name(file_data: Option<Vec<String>>, source_name: Seq<char>) -> Seq<
    char,
> {
    if file_data is Some {
        source_name
    } else {
        fallback_name()
    }
}

/// Why engine construction fails on the given lines, or `None` when it
/// succeeds: a missing or malformed header first, then dimensions beyond
/// what this host can address, then the first bad data row.
pub open spec fn spec_engine_new_error(
    lines: Seq<Seq<char>>,
    default_update_rate: int,
    default_steps: int,
) -> Option<PatternError> {
    if lines.len() == 0 {
        Some(PatternError::HeaderParse)
    } else {
        match spec_parse_header(lines[0], default_update_rate, default_steps) {
            None => Some(PatternError::HeaderParse),
            Some(h) => {
                if h.0 * h.1 > usize::MAX {
                    Some(PatternError::GridTooLarge)
                } else {
                    spec_generate_error(h.0, h.1, lines.skip(1), 0)
                }
            },
        }
    }
}

/// The Game-of-Life rule for one cell, over the complete prior generation:
/// a live cell (value > 0) with fewer than 2 or more than 3 live neighbors
/// dies; a dead cell (value 0) with exactly 3 live neighbors becomes alive
/// with value 1; every other cell keeps its value unchanged.
pub open spec fn step_cell(g: Grid<usize>, r: int, c: int) -> usize {
    let n = g.neighbor_count(r, c);
    let v = g.cell(r, c);
    if v > 0 && (n < 2 || n > 3) {
        0usize
    } else if v == 0 && n == 3 {
        1usize
    } else {
        v
    }
}

/// Runs Conway's Game of Life over one owned grid: each call to
/// [`take_step`](ConwayEngine::take_step) replaces the grid with the next
/// generation, until an optional step budget runs out.
#[derive(Debug)]
pub struct ConwayEngine {
    grid: Grid<usize>,
    update_rate: usize,
    number_of_steps: usize,
    simulation_ended: bool,
    simulation_non_stop: bool,
    name: String,
}

impl ConwayEngine {
    /// The grid holding the current generation.
    pub closed spec fn spec_grid(&self) -> Grid<usize> {
        self.grid
    }

    /// Seconds between generations, as loaded.
    pub closed spec fn spec_update_rate(&self) -> int {
        self.update_rate as int
    }

    /// Remaining steps of the budget; stays 0 in non-stop mode.
    pub closed spec fn spec_steps(&self) -> int {
        self.number_of_steps as int
    }

    /// Whether the simulation has ended; once true, stepping is a no-op.
    pub closed spec fn spec_ended(&self) -> bool {
        self.simulation_ended
    }

    /// Whether the engine runs without a step budget.
    pub closed spec fn spec_non_stop(&self) -> bool {
        self.simulation_non_stop
    }

    /// The display name of the loaded source.
    pub closed spec fn spec_name(&self) -> Seq<char> {
        self.name@
    }

    /// Engine invariant: the grid is well-formed; a non-stop engine holds
    /// no budget and never ends; a budgeted engine has ended exactly when
    /// its budget reached zero, so the budget of a running engine is
    /// positive and never counts below zero.
    pub open spec fn wf(&self) -> bool {
        &&& self.spec_grid().wf()
        &&& self.spec_non_stop() ==> self.spec_steps() == 0 && !self.spec_ended()
        &&& !self.spec_non_stop() ==> (self.spec_ended() <==> self.spec_steps() == 0)
    }

    /// Builds an engine from the lines of a pattern source, or from the
    /// built-in default pattern when `file_data` is `None` (the source
    /// could not be read). The update rate and step budget fall back to the
    /// given defaults when the header does not supply them; a step budget
    /// of 0 selects non-stop mode.
    pub fn new(
        file_data: Option<Vec<String>>,
        source_name: &str,
        default_update_rate: usize,
        default_steps: usize,
    ) -> (r: Result<ConwayEngine, PatternError>)
        ensures
            r is Ok <==> spec_engine_new_error(
                engine_input_lines(file_data),
                default_update_rate as int,
                default_steps as int,
            ) is None,
            r is Err ==> Some(r->Err_0) == spec_engine_new_error(
                engine_input_lines(file_data),
                default_update_rate as int,
                default_steps as int,
            ),
            r is Ok ==> ({
                let lines = engine_input_lines(file_data);
                let h = spec_parse_header(
                    lines[0],
                    default_update_rate as int,
                    default_steps as int,
                )->0;
                let e = r->Ok_0;
                &&& e.wf()
                &&& e.spec_grid().rows() == h.0
                &&& e.spec_grid().cols() == h.1
                &&& forall|rr: int, cc: int|
                    e.spec_grid().in_bounds(rr, cc) ==> #[trigger] e.spec_grid().cell(rr, cc) as int
                        == spec_cell_value(lines.skip(1), rr, cc)
                &&& e.spec_update_rate() == h.2
                &&& e.spec_steps() == h.3
                &&& e.spec_non_stop() == (h.3 == 0)
                &&& !e.spec_ended()
                &&& e.spec_name() == engine_input_name(file_data, source_name@)
            }),
    {
        let (mut file_lines, name): (Vec<String>, String) = match file_data {
            Some(data) => (data, source_name.to_owned()),
            None => (generate_default_file_array(), "No file found, using default pattern".to_owned()),
        };
        if file_lines.len() == 0 {
            return Err(PatternError::HeaderParse);
        }
        let ghost all_lines = file_lines.deep_view();
        let header_line = file_lines.remove(0);
        proof {
            assert(file_lines.deep_view() =~~= all_lines.skip(1));
        }
        let header_data = match parse_header(header_line, default_update_rate, default_steps) {
            Ok(h) => h,
            Err(e) => {
                return Err(e);
            },
        };
        let row_size = header_data.0;
        let column_size = header_data.1;
        let update_rate = header_data.2;
        let number_of_steps = header_data.3;
        if row_size.checked_mul(column_size).is_none() {
            return Err(PatternError::GridTooLarge);
        }
        let grid = match generate_grid(row_size, column_size, file_lines) {
            Ok(g) => g,
            Err(e) => {
                return Err(e);
            },
        };
        Ok(
            ConwayEngine {
                grid,
                update_rate,
                number_of_steps,
                simulation_ended: false,
                simulation_non_stop: number_of_steps == 0,
                name,
            },
        )
    }

    /// Advances the simulation by one generation, unless it has ended.
    ///
    /// The next generation is computed into a fresh grid while the current
    /// one is read, then swapped in: every cell's next value is a function
    /// of the complete prior generation, never of a half-updated one. Under
    /// a step budget the budget is decremented first, and the engine ends
    /// when it reaches zero; the generation that exhausts the budget is
    /// still applied. Once ended, the call changes nothing, forever; a
    /// non-stop engine never ends.
    pub fn take_step(&mut self)
        requires
            old(self).wf(),
        ensures
            final(self).wf(),
            old(self).spec_ended() ==> *final(self) == *old(self),
            !old(self).spec_ended() ==> ({
                let g0 = old(self).spec_grid();
                let g1 = final(self).spec_grid();
                &&& g1.rows() == g0.rows()
                &&& g1.cols() == g0.cols()
                &&& forall|r: int, c: int|
                    g1.in_bounds(r, c) ==> #[trigger] g1.cell(r, c) == step_cell(g0, r, c)
                &&& final(self).spec_non_stop() == old(self).spec_non_stop()
                &&& final(self).spec_update_rate() == old(self).spec_update_rate()
                &&& final(self).spec_name() == old(self).spec_name()
                &&& (old(self).spec_non_stop() ==> final(self).spec_steps() == 0
                    && !final(self).spec_ended())
                &&& (!old(self).spec_non_stop() ==> final(self).spec_steps()
                    == old(self).spec_steps() - 1
                    && (final(self).spec_ended() <==> old(self).spec_steps() == 1))
            }),
    {
        if self.simulation_ended {
            return ;
        }
        // Only count the budget down outside non-stop mode; the invariant
        // guarantees it is still positive here.
        if !self.simulation_non_stop {
            self.number_of_steps = self.number_of_steps - 1;
            if self.get_number_of_steps() == 0 {
                self.simulation_ended = true;
            }
        }
        let ghost mid = *self;
        let mut next_grid = self.grid.clone();
        let (row_size, column_size) = self.grid.size();
        let mut row_index: usize = 0;
        while row_index < row_size
            invariant
                *self == mid,
                mid.grid.wf(),
                0 <= row_index <= row_size,
                row_size == mid.grid.rows(),
                column_size == mid.grid.cols(),
                next_grid.wf(),
                next_grid.rows() == mid.grid.rows(),
                next_grid.cols() == mid.grid.cols(),
                forall|r: int, c: int|
                    next_grid.in_bounds(r, c) ==> #[trigger] next_grid.cell(r, c) == (if r
                        < row_index as int {
                        step_cell(mid.grid, r, c)
                    } else {
                        mid.grid.cell(r, c)
                    }),
            decreases row_size - row_index,
        {
            let mut column_index: usize = 0;
            while column_index < column_size
                invariant
                    *self == mid,
                    mid.grid.wf(),
                    0 <= row_index < row_size,
                    0 <= column_index <= column_size,
                    row_size == mid.grid.rows(),
                    column_size == mid.grid.cols(),
                    next_grid.wf(),
                    next_grid.rows() == mid.grid.rows(),
                    next_grid.cols() == mid.grid.cols(),
                    forall|r: int, c: int|
                        next_grid.in_bounds(r, c) ==> #[trigger] next_grid.cell(r, c) == (if r
                            < row_index as int || (r == row_index as int && c
                            < column_index as int) {
                            step_cell(mid.grid, r, c)
                        } else {
                            mid.grid.cell(r, c)
                        }),
                decreases column_size - column_index,
            {
                let number_of_neighbors = match self.grid.get_number_of_neighbors(
                    row_index,
                    column_index,
                ) {
                    Ok(n) => n,
                    Err(_err) => {
                        // Unreachable: the loop bounds keep the center in
                        // bounds.
                        assert(false);
                        0
                    },
                };
                let cell_status = match self.grid.get(row_index, column_index) {
                    Ok(data) => *data,
                    Err(_err) => {
                        assert(false);
                        0
                    },
                };
                if (number_of_neighbors < 2 || number_of_neighbors > 3) && cell_status > 0 {
                    // Underpopulation or overpopulation: the cell dies.
                    let set_result = next_grid.set(row_index, column_index, 0);
                    proof {
                        assert(set_result is Ok);
                    }
                } else if number_of_neighbors == 3 && cell_status == 0 {
                    // Reproduction: the cell becomes alive.
                    let set_result = next_grid.set(row_index, column_index, 1);
                    proof {
                        assert(set_result is Ok);
                    }
                }
                column_index = column_index + 1;
            }
            row_index = row_index + 1;
        }
        // Swap in the completed next generation.
        self.grid = next_grid;
    }

    /// Remaining steps of the budget.
    pub fn get_number_of_steps(&self) -> (n: usize)
        ensures
            n == self.spec_steps(),
    {
        self.number_of_steps
    }

    /// Whether the simulation has ended.
    pub fn is_simulation_ended(&self) -> (b: bool)
        ensures
            b == self.spec_ended(),
    {
        self.simulation_ended
    }

    /// Whether the engine runs without a step budget.
    pub fn is_simulation_non_stop(&self) -> (b: bool)
        ensures
            b == self.spec_non_stop(),
    {
        self.simulation_non_stop
    }

    /// The display name of the loaded source: the source identifier, or a
    /// fixed sentinel when the default pattern is in use.
    pub fn get_name(&self) -> (n: &String)
        ensures
            n@ == self.spec_name(),
    {
        &self.name
    }

    /// The grid dimensions as `(row count, column count)`.
    pub fn get_grid_dimensions(&self) -> (d: (usize, usize))
        ensures
            d.0 == self.spec_grid().rows(),
            d.1 == self.spec_grid().cols(),
    {
        self.grid.size()
    }

    /// The window title for the engine's current state: a fixed version
    /// prefix, the display name, and a suffix naming non-stop mode or a
    /// finished simulation.
    pub open spec fn spec_title(&self) -> Seq<char> {
        "Conway-rust v0.3.0: "@ + self.spec_name() + (if self.spec_non_stop() {
            " -- non-stop"@
        } else if self.spec_ended() {
            " -- simulation ended"@
        } else {
            Seq::<char>::empty()
        })
    }

    /// Composes the title describing the engine's current state.
    pub fn get_title_string(&self) -> (t: String)
        ensures
            t@ == self.spec_title(),
    {
        let mut title = "Conway-rust v0.3.0: ".to_owned();
        title.append(self.name.as_str());
        if self.simulation_non_stop {
            title.append(" -- non-stop");
        } else if self.simulation_ended {
            title.append(" -- simulation ended");
        }
        proof {
            assert(title@ =~= self.spec_title());
        }
        title
    }

    /// The update interval as a duration of `spec_update_rate()` whole
    /// seconds.
    ///
    /// Relies on `std::time::Duration::new` to build that duration; vstd
    /// gives `Duration` no model, so nothing is stated of the returned
    /// value, and callers use it for pacing only.
    #[verifier::external_body]
    pub fn get_update_rate_duration(&self) -> Duration {
        Duration::new(self.update_rate as u64, 0)
    }

    /// The value stored at `(row_index, column_index)`, or 0 for an
    /// out-of-bounds coordinate: display layers may probe freely without
    /// risking a failure.
    pub fn get_cell(&self, row_index: usize, column_index: usize) -> (v: usize)
        requires
            self.wf(),
        ensures
            v == if self.spec_grid().in_bounds(row_index as int, column_index as int) {
                self.spec_grid().cell(row_index as int, column_index as int)
            } else {
                0
            },
    {
        match self.grid.get(row_index, column_index) {
            Ok(data) => *data,
            Err(_err) => 0,
        }
    }
}

} // verus!
