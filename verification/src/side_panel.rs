//! The sprite picker: the sprites that a sheet is cut into, in the order in
//! which the picker shows them.

use crate::editor::Editor;
use crate::types::ColumnOrientation;
use crate::types::SheetSize;
use crate::types::SpriteUV;
use crate::types::SpritesheetInfo;
use vstd::arithmetic::div_mod::lemma_fundamental_div_mod;
use vstd::arithmetic::div_mod::lemma_fundamental_div_mod_converse;
use vstd::prelude::*;

verus! {

/// How many of the offsets `0`, `step`, `2 * step`, ... lie below `extent`.
pub open spec fn offset_count(extent: int, step: int) -> int {
    if extent % step == 0 {
        extent / step
    } else {
        extent / step + 1
    }
}

/// The sprites of a grid that is walked line by line: `outer_step` apart
/// along the lines' axis and `inner_step` apart within a line. With
/// `outer_is_row` the lines run along the sheet's height, and the offset of
/// a line is a sprite's `row`; else the lines run along the width, and the
/// offset of a line is a sprite's `col`.
pub open spec fn grid_cells(
    info: SpritesheetInfo,
    outer_extent: int,
    outer_step: int,
    inner_extent: int,
    inner_step: int,
    outer_is_row: bool,
) -> Seq<SpriteUV> {
    let lines = offset_count(outer_extent, outer_step);
    let per_line = offset_count(inner_extent, inner_step);
    Seq::new(
        (lines * per_line) as nat,
        |k: int|
            {
                let outer = ((k / per_line) * outer_step) as i64;
                let inner = ((k % per_line) * inner_step) as i64;
                if outer_is_row {
                    info.spec_sprite_uv(outer, inner)
                } else {
                    info.spec_sprite_uv(inner, outer)
                }
            },
    )
}

/// The sprites that the picker shows, in its order.
///
/// A sprite stands at every `width / num_rows` pixels along the sheet's
/// width and every `height / num_cols` pixels along its height. In the
/// major orientation the picker walks along the height first, offset of
/// the width by offset; in the minor orientation along the width first.
pub open spec fn selector_cells(
    info: SpritesheetInfo,
    sheet: SheetSize,
    orientation: ColumnOrientation,
) -> Seq<SpriteUV> {
    let step_x = sheet.width as int / info.num_rows as int;
    let step_y = sheet.height as int / info.num_cols as int;
    match orientation {
        ColumnOrientation::Major => grid_cells(
            info,
            sheet.width as int,
            step_x,
            sheet.height as int,
            step_y,
            true,
        ),
        ColumnOrientation::Minor => grid_cells(
            info,
            sheet.height as int,
            step_y,
            sheet.width as int,
            step_x,
            false,
        ),
    }
}

/// An offset lies below the extent exactly when its number is below the
/// count of such offsets.
proof fn lemma_offset_count(extent: int, step: int, i: int)
    requires
        extent >= 0,
        step >= 1,
        i >= 0,
    ensures
        offset_count(extent, step) >= 0,
        i * step < extent <==> i < offset_count(extent, step),
{
    lemma_fundamental_div_mod(extent, step);
    let q = extent / step;
    let r = extent % step;
    assert(extent == step * q + r);
    assert(0 <= r < step);
    assert(q >= 0) by (nonlinear_arith)
        requires
            extent == step * q + r,
            0 <= r < step,
            extent >= 0,
            step >= 1,
    ;
    assert(i * step < extent <==> (i < q || (i == q && r > 0))) by (nonlinear_arith)
        requires
            extent == step * q + r,
            0 <= r < step,
            step >= 1,
            i >= 0,
            q >= 0,
    ;
}

/// The sprites of a grid, line by line.
fn grid(
    info: SpritesheetInfo,
    outer_extent: u32,
    outer_step: u32,
    inner_extent: u32,
    inner_step: u32,
    outer_is_row: bool,
) -> (cells: Vec<SpriteUV>)
    requires
        outer_step >= 1,
        inner_step >= 1,
    ensures
        cells@ == grid_cells(
            info,
            outer_extent as int,
            outer_step as int,
            inner_extent as int,
            inner_step as int,
            outer_is_row,
        ),
{
    let ghost all = grid_cells(
        info,
        outer_extent as int,
        outer_step as int,
        inner_extent as int,
        inner_step as int,
        outer_is_row,
    );
    let ghost lines = offset_count(outer_extent as int, outer_step as int);
    let ghost per_line = offset_count(inner_extent as int, inner_step as int);
    let mut cells: Vec<SpriteUV> = Vec::new();
    let mut outer: u64 = 0;
    let ghost mut line: int = 0;
    proof {
        lemma_offset_count(outer_extent as int, outer_step as int, 0);
        lemma_offset_count(inner_extent as int, inner_step as int, 0);
        assert(lines * per_line >= 0) by (nonlinear_arith)
            requires
                lines >= 0,
                per_line >= 0,
        ;
        assert(0 * per_line == 0);
        assert(all.take(0) =~= Seq::<SpriteUV>::empty());
    }
    while outer < outer_extent as u64
        invariant
            outer_step >= 1,
            inner_step >= 1,
            all == grid_cells(
                info,
                outer_extent as int,
                outer_step as int,
                inner_extent as int,
                inner_step as int,
                outer_is_row,
            ),
            lines == offset_count(outer_extent as int, outer_step as int),
            per_line == offset_count(inner_extent as int, inner_step as int),
            lines >= 0,
            per_line >= 0,
            0 <= line <= lines,
            outer == line * outer_step,
            outer <= outer_extent + outer_step,
            0 <= line * per_line <= all.len(),
            cells@ == all.take(line * per_line),
        decreases outer_extent + outer_step - outer,
    {
        proof {
            lemma_offset_count(outer_extent as int, outer_step as int, line);
            assert((line + 1) * per_line == line * per_line + per_line) by (nonlinear_arith);
            assert((line + 1) * per_line <= lines * per_line) by (nonlinear_arith)
                requires
                    line + 1 <= lines,
                    per_line >= 0,
            ;
        }
        let mut inner: u64 = 0;
        let ghost mut place: int = 0;
        while inner < inner_extent as u64
            invariant
                inner_step >= 1,
                all == grid_cells(
                    info,
                    outer_extent as int,
                    outer_step as int,
                    inner_extent as int,
                    inner_step as int,
                    outer_is_row,
                ),
                lines == offset_count(outer_extent as int, outer_step as int),
                per_line == offset_count(inner_extent as int, inner_step as int),
                0 <= line < lines,
                outer == line * outer_step,
                outer < outer_extent,
                0 <= place <= per_line,
                inner == place * inner_step,
                inner <= inner_extent + inner_step,
                line * per_line + per_line <= all.len(),
                0 <= line * per_line,
                cells@ == all.take(line * per_line + place),
            decreases inner_extent + inner_step - inner,
        {
            proof {
                lemma_offset_count(inner_extent as int, inner_step as int, place);
                let k = line * per_line + place;
                lemma_fundamental_div_mod_converse(k, per_line, line, place);
                assert(all.take(k + 1) =~= all.take(k).push(all[k]));
            }
            let uv = if outer_is_row {
                info.sprite_uv(outer as i64, inner as i64)
            } else {
                info.sprite_uv(inner as i64, outer as i64)
            };
            cells.push(uv);
            inner = inner + inner_step as u64;
            proof {
                assert((place + 1) * inner_step == place * inner_step + inner_step)
                    by (nonlinear_arith);
                place = place + 1;
            }
        }
        proof {
            lemma_offset_count(inner_extent as int, inner_step as int, place);
        }
        outer = outer + outer_step as u64;
        proof {
            assert((line + 1) * outer_step == line * outer_step + outer_step) by (nonlinear_arith);
            line = line + 1;
        }
    }
    proof {
        lemma_offset_count(outer_extent as int, outer_step as int, line);
        assert(all.take(all.len() as int) =~= all);
    }
    cells
}

/// The sprites that the picker shows for a sheet, in its order.
///
/// The sheet must be at least as many pixels wide as it has rows, and as
/// many pixels high as it has columns, so that sprites are a pixel or more
/// apart.
pub fn sprite_selector_cells(
    info: SpritesheetInfo,
    sheet: SheetSize,
    orientation: ColumnOrientation,
) -> (cells: Vec<SpriteUV>)
    requires
        info.wf(),
        sheet.width >= info.num_rows,
        sheet.height >= info.num_cols,
    ensures
        cells@ == selector_cells(info, sheet, orientation),
{
    let step_x = sheet.width / (info.num_rows as u32);
    let step_y = sheet.height / (info.num_cols as u32);
    proof {
        lemma_fundamental_div_mod(sheet.width as int, info.num_rows as int);
        lemma_fundamental_div_mod(sheet.height as int, info.num_cols as int);
        assert(step_x >= 1) by (nonlinear_arith)
            requires
                sheet.width as int == (info.num_rows as int) * (step_x as int) + (sheet.width as int
                    % info.num_rows as int),
                0 <= (sheet.width as int % info.num_rows as int) < info.num_rows as int,
                sheet.width >= info.num_rows,
                step_x >= 0,
        ;
        assert(step_y >= 1) by (nonlinear_arith)
            requires
                sheet.height as int == (info.num_cols as int) * (step_y as int) + (
                sheet.height as int % info.num_cols as int),
                0 <= (sheet.height as int % info.num_cols as int) < info.num_cols as int,
                sheet.height >= info.num_cols,
                step_y >= 0,
        ;
    }
    match orientation {
        ColumnOrientation::Major => grid(info, sheet.width, step_x, sheet.height, step_y, true),
        ColumnOrientation::Minor => grid(info, sheet.height, step_y, sheet.width, step_x, false),
    }
}

impl Editor {
    /// Whether the picker can cut the loaded sheet into sprites: a sheet is
    /// loaded, and it is at least as many pixels wide as it has rows and as
    /// many pixels high as it has columns.
    pub open spec fn can_pick(&self) -> bool {
        &&& self@.sheet is Some
        &&& self@.sheet->0.width >= self@.spritesheet_info.num_rows
        &&& self@.sheet->0.height >= self@.spritesheet_info.num_cols
    }

    /// The sprites that the picker shows for the loaded sheet, in its
    /// order; none where the sheet cannot be cut into sprites.
    pub fn side_panel_sprite_selector(&self) -> (cells: Vec<SpriteUV>)
        requires
            self.wf(),
        ensures
            self.can_pick() ==> cells@ == selector_cells(
                self@.spritesheet_info,
                self@.sheet->0,
                self@.spritesheet_col_orientation,
            ),
            !self.can_pick() ==> cells@.len() == 0,
    {
        match self.sheet {
            Some(sheet) => {
                if sheet.width >= self.spritesheet_info.num_rows as u32 && sheet.height
                    >= self.spritesheet_info.num_cols as u32 {
                    sprite_selector_cells(
                        self.spritesheet_info,
                        sheet,
                        self.spritesheet_col_orientation,
                    )
                } else {
                    Vec::new()
                }
            },
            None => Vec::new(),
        }
    }
}

} // verus!
