//! The plain data the editor works on: grid cells, sprite references, the
//! spritesheet settings, the tool modes and the logged edit actions.

use vstd::prelude::*;

verus! {

/// One cell of the grid. The grid has no bounds; a cell is the key under
/// which every layer files its entry.
#[derive(Copy, Clone, PartialEq, Eq, Hash, Debug, Structural)]
pub struct HashableVec2 {
    pub x: i64,
    pub y: i64,
}

/// A reference to one sprite of the loaded spritesheet.
///
/// `row` and `col` are the pixel offsets of the sprite's corner along the
/// sheet's width and height; `num_rows` and `num_cols` are the divisions of
/// the sheet that were in force when the reference was made, and give the
/// sprite's extent. The normalized texture rectangle that a renderer wants
/// runs from `(row / width, col / height)` and is `1 / num_rows` wide and
/// `1 / num_cols` high. Two references are equal exactly when all four
/// components are equal.
#[derive(Copy, Clone, PartialEq, Eq, Hash, Debug, Structural)]
pub struct SpriteUV {
    pub row: i64,
    pub col: i64,
    pub num_rows: u8,
    pub num_cols: u8,
}

/// The pixel dimensions of the loaded spritesheet image.
#[derive(Copy, Clone, PartialEq, Eq, Hash, Debug, Structural)]
pub struct SheetSize {
    pub width: u32,
    pub height: u32,
}

/// How the spritesheet is cut into sprites, and how large one grid cell is
/// drawn.
#[derive(Copy, Clone, PartialEq, Eq, Debug, Structural)]
pub struct SpritesheetInfo {
    pub sprite_size: u16,
    pub num_rows: u8,
    pub num_cols: u8,
}

impl SpritesheetInfo {
    /// The ranges that bounded user input keeps the settings in.
    pub open spec fn wf(&self) -> bool {
        &&& 1 <= self.sprite_size <= 1024
        &&& 1 <= self.num_rows
        &&& 1 <= self.num_cols
    }

    /// Whether the settings are within their ranges.
    pub fn is_valid(&self) -> (ok: bool)
        ensures
            ok == self.wf(),
    {
        1 <= self.sprite_size && self.sprite_size <= 1024 && 1 <= self.num_rows && 1
            <= self.num_cols
    }

    /// The reference to the sprite whose corner lies at the given pixel
    /// offsets, under these divisions.
    pub open spec fn spec_sprite_uv(&self, row: i64, col: i64) -> SpriteUV {
        SpriteUV { row, col, num_rows: self.num_rows, num_cols: self.num_cols }
    }

    /// The reference to the sprite whose corner lies at the given pixel
    /// offsets, under these divisions.
    #[verifier::when_used_as_spec(spec_sprite_uv)]
    pub fn sprite_uv(&self, row: i64, col: i64) -> (uv: SpriteUV)
        ensures
            uv == self.spec_sprite_uv(row, col),
    {
        SpriteUV { row, col, num_rows: self.num_rows, num_cols: self.num_cols }
    }
}

impl Default for SpritesheetInfo {
    fn default() -> (info: Self)
        ensures
            info == (SpritesheetInfo { sprite_size: 32, num_rows: 10, num_cols: 10 }),
            info.wf(),
    {
        SpritesheetInfo { sprite_size: 32, num_rows: 10, num_cols: 10 }
    }
}

/// The tool that pointer events on the grid are routed to.
#[derive(Copy, Clone, PartialEq, Eq, Debug, Structural)]
pub enum Mode {
    DrawBackground,
    DrawForeground,
    Collision,
    Entity,
}

impl Mode {
    /// The mode that follows this one in the cycle background, foreground,
    /// collision, entity, and background again.
    pub open spec fn spec_next(self) -> Mode {
        match self {
            Mode::DrawBackground => Mode::DrawForeground,
            Mode::DrawForeground => Mode::Collision,
            Mode::Collision => Mode::Entity,
            Mode::Entity => Mode::DrawBackground,
        }
    }

    /// The mode that follows this one in the cycle.
    #[verifier::when_used_as_spec(spec_next)]
    pub fn next(self) -> (m: Mode)
        ensures
            m == self.spec_next(),
    {
        match self {
            Mode::DrawBackground => Mode::DrawForeground,
            Mode::DrawForeground => Mode::Collision,
            Mode::Collision => Mode::Entity,
            Mode::Entity => Mode::DrawBackground,
        }
    }

    /// Whether this is one of the two tile-painting modes.
    pub open spec fn is_draw(self) -> bool {
        self == Mode::DrawBackground || self == Mode::DrawForeground
    }
}

/// The order in which the sprite picker walks the sheet.
#[derive(Copy, Clone, PartialEq, Eq, Debug, Structural)]
pub enum ColumnOrientation {
    Major,
    Minor,
}

/// One logged edit, with what is needed to undo it.
///
/// The two paint actions carry the cell, the brush, the sprite that the cell
/// held before (if any) and whether the edit was a drag step. The entity
/// action carries the label that the cell held before (if any).
#[derive(Debug, PartialEq, Eq)]
pub enum Action {
    ClickForeground(HashableVec2, SpriteUV, Option<SpriteUV>, bool),
    ClickBackground(HashableVec2, SpriteUV, Option<SpriteUV>, bool),
    ClickCollision(HashableVec2),
    ClickEntity(HashableVec2, Option<String>),
}

/// What an [`Action`] is in contracts: the same edit, with a label given by
/// its characters.
pub enum ActionView {
    ClickForeground(HashableVec2, SpriteUV, Option<SpriteUV>, bool),
    ClickBackground(HashableVec2, SpriteUV, Option<SpriteUV>, bool),
    ClickCollision(HashableVec2),
    ClickEntity(HashableVec2, Option<Seq<char>>),
}

impl Clone for Action {
    fn clone(&self) -> (copy: Self)
        ensures
            copy@ == self@,
    {
        match self {
            Action::ClickForeground(cell, uv, prev, drag) => Action::ClickForeground(
                *cell,
                *uv,
                *prev,
                *drag,
            ),
            Action::ClickBackground(cell, uv, prev, drag) => Action::ClickBackground(
                *cell,
                *uv,
                *prev,
                *drag,
            ),
            Action::ClickCollision(cell) => Action::ClickCollision(*cell),
            Action::ClickEntity(cell, prev) => Action::ClickEntity(
                *cell,
                match prev {
                    Some(label) => Some(label.clone()),
                    None => None,
                },
            ),
        }
    }
}

impl View for Action {
    type V = ActionView;

    open spec fn view(&self) -> ActionView {
        match *self {
            Action::ClickForeground(cell, uv, prev, drag) => ActionView::ClickForeground(
                cell,
                uv,
                prev,
                drag,
            ),
            Action::ClickBackground(cell, uv, prev, drag) => ActionView::ClickBackground(
                cell,
                uv,
                prev,
                drag,
            ),
            Action::ClickCollision(cell) => ActionView::ClickCollision(cell),
            Action::ClickEntity(cell, prev) => ActionView::ClickEntity(
                cell,
                match prev {
                    Some(label) => Some(label@),
                    None => None,
                },
            ),
        }
    }
}

} // verus!
