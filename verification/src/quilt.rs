//! Quilt geometry: how a quilt is divided into view tiles, where each view
//! index lands in the grid, and the stitcher that copies the rendered views
//! into the final quilt image.

use vstd::prelude::*;
use vstd::arithmetic::div_mod::{
    lemma_fundamental_div_mod, lemma_fundamental_div_mod_converse, lemma_mod_bound,
};
use crate::color::Rgb;
use crate::images::{PixelImage, lemma_grid_index_bounds};
use crate::text::str_eq;

verus! {

/// Target quilt shape for one display device: tile grid and total resolution
/// in pixels (width, height).
#[derive(Clone, Copy, Debug, PartialEq, Eq)]
pub struct QuiltSettings {
    pub columns: u32,
    pub rows: u32,
    pub resolution: (u32, u32),
}

impl Default for QuiltSettings {
    fn default() -> (r: Self)
        ensures
            r.columns == 0,
            r.rows == 0,
            r.resolution == (0u32, 0u32),
    {
        QuiltSettings { columns: 0, rows: 0, resolution: (0, 0) }
    }
}

/// Grid row occupied by view `i`: rows fill top to bottom in index order.
pub open spec fn grid_row(i: int, columns: u32) -> int {
    i / (columns as int)
}

/// Grid column occupied by view `i`: columns fill right to left within a row.
pub open spec fn grid_col(i: int, columns: u32) -> int {
    columns - 1 - i % (columns as int)
}

/// Side lengths of one view tile: the quilt resolution divided by the grid,
/// truncating.
pub fn view_dimensions(settings: &QuiltSettings) -> (r: (u32, u32))
    requires
        settings.columns >= 1,
        settings.rows >= 1,
    ensures
        r.0 == settings.resolution.0 as int / settings.columns as int,
        r.1 == settings.resolution.1 as int / settings.rows as int,
{
    (settings.resolution.0 / settings.columns, settings.resolution.1 / settings.rows)
}

/// The quilt built from truncated tiles measures the requested resolution
/// rounded down to a multiple of the grid: tiling a `w / c`-wide tile `c`
/// times spans `w - w % c` pixels.
pub proof fn lemma_quilt_dimension_law(extent: u32, cells: u32)
    requires
        cells >= 1,
    ensures
        (extent as int / cells as int) * (cells as int) == extent as int - extent as int % (
        cells as int),
{
    lemma_fundamental_div_mod(extent as int, cells as int);
}

/// In a two-column, one-row quilt, view 0 occupies the right cell and view 1
/// the left cell.
pub proof fn lemma_stitch_placement_two_views()
    ensures
        grid_row(0, 2) == 0,
        grid_col(0, 2) == 1,
        grid_row(1, 2) == 0,
        grid_col(1, 2) == 0,
{
}

/// Every view index lands inside the grid.
pub proof fn lemma_grid_cell_bounds(i: int, columns: u32, rows: u32)
    requires
        columns >= 1,
        rows >= 1,
        0 <= i < columns as int * rows as int,
    ensures
        0 <= grid_row(i, columns) < rows as int,
        0 <= grid_col(i, columns) < columns as int,
{
    let c = columns as int;
    lemma_mod_bound(i, c);
    lemma_fundamental_div_mod(i, c);
    let q = i / c;
    assert(0 <= q < rows as int) by (nonlinear_arith)
        requires
            i == c * q + (i % c),
            0 <= i % c < c,
            0 <= i,
            i < c * (rows as int),
            c >= 1,
    ;
}

/// No two view indices share a grid cell.
pub proof fn lemma_grid_mapping_injective(i: int, j: int, columns: u32)
    requires
        columns >= 1,
        0 <= i,
        0 <= j,
        grid_row(i, columns) == grid_row(j, columns),
        grid_col(i, columns) == grid_col(j, columns),
    ensures
        i == j,
{
    let c = columns as int;
    lemma_fundamental_div_mod(i, c);
    lemma_fundamental_div_mod(j, c);
}

/// Pixels of distinct view cells never overlap in the quilt: two in-tile
/// coordinates under distinct view indices map to distinct quilt coordinates.
pub proof fn lemma_view_cells_disjoint(
    columns: u32,
    vw: int,
    vh: int,
    i: int,
    j: int,
    x1: int,
    y1: int,
    x2: int,
    y2: int,
)
    requires
        columns >= 1,
        0 <= i,
        0 <= j,
        i != j,
        0 <= x1 < vw,
        0 <= x2 < vw,
        0 <= y1 < vh,
        0 <= y2 < vh,
    ensures
        !(grid_col(i, columns) * vw + x1 == grid_col(j, columns) * vw + x2 && grid_row(i, columns)
            * vh + y1 == grid_row(j, columns) * vh + y2),
{
    let c = columns as int;
    lemma_mod_bound(i, c);
    lemma_mod_bound(j, c);
    if grid_col(i, columns) * vw + x1 == grid_col(j, columns) * vw + x2 && grid_row(i, columns)
        * vh + y1 == grid_row(j, columns) * vh + y2 {
        let xx = grid_col(i, columns) * vw + x1;
        lemma_fundamental_div_mod_converse(xx, vw, grid_col(i, columns), x1);
        lemma_fundamental_div_mod_converse(xx, vw, grid_col(j, columns), x2);
        let yy = grid_row(i, columns) * vh + y1;
        lemma_fundamental_div_mod_converse(yy, vh, grid_row(i, columns), y1);
        lemma_fundamental_div_mod_converse(yy, vh, grid_row(j, columns), y2);
        lemma_grid_mapping_injective(i, j, columns);
    }
}

/// The grid mapping alone determines the whole quilt: every quilt pixel
/// lies in exactly one view's cell, so two quilts that hold the same views
/// in the same grid agree pixel for pixel. The order in which the views
/// were rendered or written can therefore not affect the stitched result.
pub proof fn lemma_stitch_determined(
    views: Seq<PixelImage>,
    columns: u32,
    rows: u32,
    vw: int,
    vh: int,
    q1: PixelImage,
    q2: PixelImage,
    xx: int,
    yy: int,
)
    requires
        columns >= 1,
        rows >= 1,
        views.len() == columns as int * rows as int,
        forall|i: int, x: int, y: int|
            0 <= i < views.len() && 0 <= x < vw && 0 <= y < vh ==> #[trigger] views[i].pixel_at(
                x,
                y,
            ) == q1.pixel_at(grid_col(i, columns) * vw + x, grid_row(i, columns) * vh + y),
        forall|i: int, x: int, y: int|
            0 <= i < views.len() && 0 <= x < vw && 0 <= y < vh ==> #[trigger] views[i].pixel_at(
                x,
                y,
            ) == q2.pixel_at(grid_col(i, columns) * vw + x, grid_row(i, columns) * vh + y),
        0 <= xx < vw * columns as int,
        0 <= yy < vh * rows as int,
    ensures
        q1.pixel_at(xx, yy) == q2.pixel_at(xx, yy),
{
    let c = columns as int;
    assert(vw >= 1 && vh >= 1) by (nonlinear_arith)
        requires
            0 <= xx,
            xx < vw * (columns as int),
            0 <= yy,
            yy < vh * (rows as int),
            columns >= 1,
            rows >= 1,
    ;
    let a = xx % vw;
    let cq = xx / vw;
    let b = yy % vh;
    let rq = yy / vh;
    lemma_mod_bound(xx, vw);
    lemma_fundamental_div_mod(xx, vw);
    lemma_mod_bound(yy, vh);
    lemma_fundamental_div_mod(yy, vh);
    assert(0 <= cq < c) by (nonlinear_arith)
        requires
            xx == vw * cq + a,
            0 <= a < vw,
            0 <= xx,
            xx < vw * c,
    ;
    assert(0 <= rq < rows as int) by (nonlinear_arith)
        requires
            yy == vh * rq + b,
            0 <= b < vh,
            0 <= yy,
            yy < vh * (rows as int),
    ;
    let i = rq * c + (c - 1 - cq);
    assert(0 <= i < c * (rows as int)) by (nonlinear_arith)
        requires
            i == rq * c + (c - 1 - cq),
            0 <= rq < rows as int,
            0 <= c - 1 - cq < c,
            c >= 1,
    ;
    lemma_fundamental_div_mod_converse(i, c, rq, c - 1 - cq);
    assert(grid_row(i, columns) == rq);
    assert(grid_col(i, columns) == cq);
    assert(views[i].pixel_at(a, b) == q1.pixel_at(cq * vw + a, rq * vh + b));
    assert(views[i].pixel_at(a, b) == q2.pixel_at(cq * vw + a, rq * vh + b));
    assert(cq * vw + a == xx) by (nonlinear_arith)
        requires
            xx == vw * cq + a,
    ;
    assert(rq * vh + b == yy) by (nonlinear_arith)
        requires
            yy == vh * rq + b,
    ;
}

/// Copies the rendered views into the final quilt: view `i` fills the tile
/// in grid row `i / columns` and grid column `columns - 1 - i % columns`
/// (rows top to bottom, columns right to left).
#[verifier::loop_isolation(false)]
pub fn stitch_quilt(views: &Vec<PixelImage>, columns: u32, rows: u32) -> (quilt: PixelImage)
    requires
        columns >= 1,
        rows >= 1,
        columns as int * rows as int <= u32::MAX as int,
        views@.len() == columns as int * rows as int,
        forall|i: int| 0 <= i < views@.len() ==> (#[trigger] views@[i]).wf(),
        forall|i: int| 0 <= i < views@.len() ==> (#[trigger] views@[i]).width == views@[0].width,
        forall|i: int| 0 <= i < views@.len() ==> (#[trigger] views@[i]).height == views@[0].height,
        views@[0].width as int * columns as int <= u32::MAX as int,
        views@[0].height as int * rows as int <= u32::MAX as int,
        (views@[0].width as int * columns as int) * (views@[0].height as int * rows as int)
            <= usize::MAX as int,
    ensures
        quilt.wf(),
        quilt.width as int == views@[0].width as int * columns as int,
        quilt.height as int == views@[0].height as int * rows as int,
        forall|i: int, x: int, y: int|
            0 <= i < views@.len() && 0 <= x < views@[0].width && 0 <= y < views@[0].height
                ==> #[trigger] views@[i].pixel_at(x, y) == quilt.pixel_at(
                grid_col(i, columns) * views@[0].width as int + x,
                grid_row(i, columns) * views@[0].height as int + y,
            ),
{
    proof {
        assert(columns as int * rows as int >= 1) by (nonlinear_arith)
            requires
                columns >= 1,
                rows >= 1,
        ;
    }
    let vw: u32 = views[0].width();
    let vh: u32 = views[0].height();
    let quilt_width: u32 = vw * columns;
    let quilt_height: u32 = vh * rows;
    let mut quilt = PixelImage::new(quilt_width, quilt_height, Rgb { r: 0, g: 0, b: 0 });
    let mut i: usize = 0;
    while i < views.len()
        invariant
            i <= views@.len(),
            quilt.wf(),
            quilt.width == quilt_width,
            quilt.height == quilt_height,
            forall|j: int, a: int, b: int|
                0 <= j < i && 0 <= a < vw && 0 <= b < vh ==> #[trigger] views@[j].pixel_at(a, b)
                    == quilt.pixel_at(
                    grid_col(j, columns) * vw as int + a,
                    grid_row(j, columns) * vh as int + b,
                ),
        decreases views@.len() - i,
    {
        proof {
            lemma_grid_cell_bounds(i as int, columns, rows);
        }
        let iu: u32 = i as u32;
        let row: u32 = iu / columns;
        let col: u32 = columns - 1 - iu % columns;
        proof {
            assert(row as int * vh as int <= u32::MAX as int) by (nonlinear_arith)
                requires
                    (row as int) < rows as int,
                    0 <= vh as int,
                    vh as int * rows as int <= u32::MAX as int,
            ;
            assert(col as int * vw as int <= u32::MAX as int) by (nonlinear_arith)
                requires
                    (col as int) < columns as int,
                    0 <= vw as int,
                    vw as int * columns as int <= u32::MAX as int,
            ;
        }
        let y_start: u32 = row * vh;
        let x_start: u32 = col * vw;
        let mut y: u32 = 0;
        while y < vh
            invariant
                y <= vh,
                quilt.wf(),
                quilt.width == quilt_width,
                quilt.height == quilt_height,
                forall|j: int, a: int, b: int|
                    0 <= j < i && 0 <= a < vw && 0 <= b < vh ==> #[trigger] views@[j].pixel_at(
                        a,
                        b,
                    ) == quilt.pixel_at(
                        grid_col(j, columns) * vw as int + a,
                        grid_row(j, columns) * vh as int + b,
                    ),
                forall|a: int, b: int|
                    0 <= a < vw && 0 <= b < y ==> #[trigger] views@[i as int].pixel_at(a, b)
                        == quilt.pixel_at(x_start + a, y_start + b),
            decreases vh - y,
        {
            let mut x: u32 = 0;
            while x < vw
                invariant
                    x <= vw,
                    y < vh,
                    quilt.wf(),
                    quilt.width == quilt_width,
                    quilt.height == quilt_height,
                    forall|j: int, a: int, b: int|
                        0 <= j < i && 0 <= a < vw && 0 <= b < vh ==> #[trigger] views@[j].pixel_at(
                            a,
                            b,
                        ) == quilt.pixel_at(
                            grid_col(j, columns) * vw as int + a,
                            grid_row(j, columns) * vh as int + b,
                        ),
                    forall|a: int, b: int|
                        0 <= a < vw && 0 <= b < y ==> #[trigger] views@[i as int].pixel_at(a, b)
                            == quilt.pixel_at(x_start + a, y_start + b),
                    forall|a: int|
                        0 <= a < x ==> #[trigger] views@[i as int].pixel_at(a, y as int)
                            == quilt.pixel_at(x_start + a, y_start + y),
                decreases vw - x,
            {
                proof {
                    lemma_grid_index_bounds(vw as int, columns as int, x as int, col as int);
                    lemma_grid_index_bounds(vh as int, rows as int, y as int, row as int);
                }
                let px = views[i].get_pixel(x, y);
                quilt.put_pixel(x_start + x, y_start + y, px);
                proof {
                    assert forall|j: int, a: int, b: int|
                        0 <= j < i && 0 <= a < vw && 0 <= b < vh implies #[trigger] views@[
                        j].pixel_at(a, b) == quilt.pixel_at(
                        grid_col(j, columns) * vw as int + a,
                        grid_row(j, columns) * vh as int + b,
                    ) by {
                        lemma_view_cells_disjoint(
                            columns,
                            vw as int,
                            vh as int,
                            j,
                            i as int,
                            a,
                            b,
                            x as int,
                            y as int,
                        );
                        lemma_grid_cell_bounds(j, columns, rows);
                        lemma_grid_index_bounds(vw as int, columns as int, a, grid_col(j, columns));
                        lemma_grid_index_bounds(vh as int, rows as int, b, grid_row(j, columns));
                    }
                    assert forall|a: int, b: int|
                        0 <= a < vw && 0 <= b < y implies #[trigger] views@[i as int].pixel_at(
                        a,
                        b,
                    ) == quilt.pixel_at(x_start + a, y_start + b) by {
                        lemma_grid_index_bounds(vw as int, columns as int, a, col as int);
                        lemma_grid_index_bounds(vh as int, rows as int, b, row as int);
                    }
                    assert forall|a: int|
                        0 <= a < x implies #[trigger] views@[i as int].pixel_at(a, y as int)
                        == quilt.pixel_at(x_start + a, y_start + y) by {
                        lemma_grid_index_bounds(vw as int, columns as int, a, col as int);
                    }
                }
                x = x + 1;
            }
            y = y + 1;
        }
        i = i + 1;
    }
    quilt
}

/// One display device preset: the quilt grid and resolution that the named
/// device expects.
pub open spec fn spec_quilt_settings(name: Seq<char>) -> Option<QuiltSettings> {
    if name == "Looking Glass Go"@ || name == "go"@ {
        Some(QuiltSettings { columns: 10, rows: 6, resolution: (4092u32, 4092u32) })
    } else if name == "Looking Glass Portrait"@ || name == "portrait"@ {
        Some(QuiltSettings { columns: 8, rows: 6, resolution: (3360u32, 3360u32) })
    } else if name == "Looking Glass 16\" Landscape"@ || name == "16l"@ {
        Some(QuiltSettings { columns: 7, rows: 7, resolution: (5999u32, 5999u32) })
    } else if name == "Looking Glass 16\" Portrait"@ || name == "16p"@ {
        Some(QuiltSettings { columns: 11, rows: 6, resolution: (5995u32, 6000u32) })
    } else if name == "Looking Glass 32\" Landscape"@ || name == "32l"@ {
        Some(QuiltSettings { columns: 7, rows: 7, resolution: (8190u32, 8190u32) })
    } else if name == "Looking Glass 32\" Portrait"@ || name == "32p"@ {
        Some(QuiltSettings { columns: 11, rows: 6, resolution: (8184u32, 8184u32) })
    } else if name == "Looking Glass 65\""@ || name == "65"@ {
        Some(QuiltSettings { columns: 8, rows: 9, resolution: (8192u32, 8192u32) })
    } else {
        None
    }
}

/// Looks a device name or alias up in the preset table.
pub fn get_quilt_settings(device: &str) -> (r: Option<QuiltSettings>)
    ensures
        r == spec_quilt_settings(device@),
{
    if str_eq(device, "Looking Glass Go") || str_eq(device, "go") {
        Some(QuiltSettings { columns: 10, rows: 6, resolution: (4092, 4092) })
    } else if str_eq(device, "Looking Glass Portrait") || str_eq(device, "portrait") {
        Some(QuiltSettings { columns: 8, rows: 6, resolution: (3360, 3360) })
    } else if str_eq(device, "Looking Glass 16\" Landscape") || str_eq(device, "16l") {
        Some(QuiltSettings { columns: 7, rows: 7, resolution: (5999, 5999) })
    } else if str_eq(device, "Looking Glass 16\" Portrait") || str_eq(device, "16p") {
        Some(QuiltSettings { columns: 11, rows: 6, resolution: (5995, 6000) })
    } else if str_eq(device, "Looking Glass 32\" Landscape") || str_eq(device, "32l") {
        Some(QuiltSettings { columns: 7, rows: 7, resolution: (8190, 8190) })
    } else if str_eq(device, "Looking Glass 32\" Portrait") || str_eq(device, "32p") {
        Some(QuiltSettings { columns: 11, rows: 6, resolution: (8184, 8184) })
    } else if str_eq(device, "Looking Glass 65\"") || str_eq(device, "65") {
        Some(QuiltSettings { columns: 8, rows: 9, resolution: (8192, 8192) })
    } else {
        None
    }
}

/// A quilt configuration the boundary layer must reject before rendering.
#[derive(Clone, Copy, PartialEq, Eq, Structural, Debug)]
pub enum ConfigError {
    UnknownDevice,
    MissingColumns,
    MissingRows,
    MissingWidth,
    MissingHeight,
}

/// How a device name and the explicit grid options resolve to settings: a
/// named device must be in the preset table; without one, all four custom
/// numbers must be present.
pub open spec fn spec_resolve_quilt_settings(
    device: Option<Seq<char>>,
    columns: Option<u32>,
    rows: Option<u32>,
    width: Option<u32>,
    height: Option<u32>,
) -> Result<QuiltSettings, ConfigError> {
    match device {
        Some(name) => match spec_quilt_settings(name) {
            Some(s) => Ok(s),
            None => Err(ConfigError::UnknownDevice),
        },
        None => match (columns, rows, width, height) {
            (None, _, _, _) => Err(ConfigError::MissingColumns),
            (Some(_), None, _, _) => Err(ConfigError::MissingRows),
            (Some(_), Some(_), None, _) => Err(ConfigError::MissingWidth),
            (Some(_), Some(_), Some(_), None) => Err(ConfigError::MissingHeight),
            (Some(c), Some(r), Some(w), Some(h)) => Ok(
                QuiltSettings { columns: c, rows: r, resolution: (w, h) },
            ),
        },
    }
}

/// Resolves the quilt settings from a device name or from explicit grid
/// numbers, reporting exactly which part is missing or unknown.
pub fn resolve_quilt_settings(
    device: &Option<String>,
    columns: Option<u32>,
    rows: Option<u32>,
    width: Option<u32>,
    height: Option<u32>,
) -> (r: Result<QuiltSettings, ConfigError>)
    ensures
        r == spec_resolve_quilt_settings(
            match device {
                Some(d) => Some(d@),
                None => None,
            },
            columns,
            rows,
            width,
            height,
        ),
{
    match device {
        Some(name) => match get_quilt_settings(name.as_str()) {
            Some(s) => Ok(s),
            None => Err(ConfigError::UnknownDevice),
        },
        None => {
            let c = match columns {
                Some(c) => c,
                None => {
                    return Err(ConfigError::MissingColumns);
                },
            };
            let r = match rows {
                Some(r) => r,
                None => {
                    return Err(ConfigError::MissingRows);
                },
            };
            let w = match width {
                Some(w) => w,
                None => {
                    return Err(ConfigError::MissingWidth);
                },
            };
            let h = match height {
                Some(h) => h,
                None => {
                    return Err(ConfigError::MissingHeight);
                },
            };
            Ok(QuiltSettings { columns: c, rows: r, resolution: (w, h) })
        },
    }
}

} // verus!
