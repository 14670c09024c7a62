//! A level: the bricks that a grid of tiles lays out.

use vstd::prelude::*;
use crate::engine::resource_manager::texture::Texture;
use crate::engine::resource_manager::ResourceManager;
use crate::engine::sprite_renderer::{Sprite, SpriteRenderer};
use crate::game::game_object::GameObject;
use crate::game::tile_map::{
    grid_view, lemma_accepted_grid_shape, parse_tiles, rectangular, tile_grid, LevelError,
};
use crate::math::{units, Color, Vec2};

verus! {

/// The bricks of a level, row by row from the top and, within a row, from
/// the left.
#[derive(Debug)]
pub struct GameLevel {
    pub bricks: Vec<GameObject>,
}

/// The tint of a brick. Tile 1 is the solid block; tiles 2 to 5 are the
/// destructible tiers; any other brick is white.
pub open spec fn tier_color(tile: u8) -> Color {
    if tile == 1 {
        Color { r: 800, g: 800, b: 700 }
    } else if tile == 2 {
        Color { r: 200, g: 600, b: 1000 }
    } else if tile == 3 {
        Color { r: 0, g: 700, b: 0 }
    } else if tile == 4 {
        Color { r: 800, g: 800, b: 400 }
    } else if tile == 5 {
        Color { r: 1000, g: 800, b: 0 }
    } else {
        Color::white()
    }
}

/// The brick that tile `tile`, which is not 0, makes in column `col` of row
/// `row`, where every cell of the grid measures `unit`.
pub open spec fn brick_at(
    tile: u8,
    col: int,
    row: int,
    unit: Vec2,
    solid_sprite: Option<Texture>,
    block_sprite: Option<Texture>,
) -> GameObject {
    GameObject {
        position: Vec2 { x: (unit.x * col) as i64, y: (unit.y * row) as i64 },
        size: unit,
        velocity: Vec2 { x: 0, y: 0 },
        color: tier_color(tile),
        rotation: 0,
        is_solid: tile == 1,
        destroyed: false,
        sprite: if tile == 1 {
            solid_sprite
        } else {
            block_sprite
        },
    }
}

/// The bricks of one row of tiles, from the left. Tile 0 leaves its cell empty.
pub open spec fn row_bricks(
    tiles: Seq<u8>,
    row: int,
    unit: Vec2,
    solid_sprite: Option<Texture>,
    block_sprite: Option<Texture>,
) -> Seq<GameObject>
    decreases tiles.len(),
{
    if tiles.len() == 0 {
        Seq::empty()
    } else {
        let before = row_bricks(tiles.drop_last(), row, unit, solid_sprite, block_sprite);
        if tiles.last() == 0 {
            before
        } else {
            before.push(
                brick_at(tiles.last(), tiles.len() - 1, row, unit, solid_sprite, block_sprite),
            )
        }
    }
}

/// The bricks of a grid, row by row from the top.
pub open spec fn grid_bricks(
    grid: Seq<Seq<u8>>,
    unit: Vec2,
    solid_sprite: Option<Texture>,
    block_sprite: Option<Texture>,
) -> Seq<GameObject>
    decreases grid.len(),
{
    if grid.len() == 0 {
        Seq::empty()
    } else {
        grid_bricks(grid.drop_last(), unit, solid_sprite, block_sprite) + row_bricks(
            grid.last(),
            grid.len() - 1,
            unit,
            solid_sprite,
            block_sprite,
        )
    }
}

/// The extent of one cell when the grid is stretched over a region of
/// `level_width` by `level_height` pixels, rounded down to whole units.
pub open spec fn brick_unit(grid: Seq<Seq<u8>>, level_width: u32, level_height: u32) -> Vec2 {
    Vec2 {
        x: (units(level_width) / (grid[0].len() as int)) as i64,
        y: (units(level_height) / (grid.len() as int)) as i64,
    }
}

/// Some cell holds the solid block.
pub open spec fn holds_solid(grid: Seq<Seq<u8>>) -> bool {
    exists|r: int, c: int| 0 <= r < grid.len() && 0 <= c < grid[r].len() && #[trigger] grid[r][c] == 1
}

/// Some cell holds a destructible brick.
pub open spec fn holds_destructible(grid: Seq<Seq<u8>>) -> bool {
    exists|r: int, c: int| 0 <= r < grid.len() && 0 <= c < grid[r].len() && #[trigger] grid[r][c] > 1
}

/// The texture filed under `name`, if any.
pub open spec fn texture_named(textures: Map<Seq<char>, Texture>, name: Seq<char>) -> Option<
    Texture,
> {
    if textures.contains_key(name) {
        Some(textures[name])
    } else {
        None
    }
}

/// The bricks of the level that `text` describes, stretched over a region of
/// `level_width` by `level_height` pixels, or why there is no such level.
/// Solid blocks wear the texture named `block_solid`, all other bricks the
/// one named `block`; a level is refused if it needs one that is not loaded.
pub open spec fn level_bricks(
    text: Seq<u8>,
    level_width: u32,
    level_height: u32,
    textures: Map<Seq<char>, Texture>,
) -> Result<Seq<GameObject>, LevelError> {
    match tile_grid(text) {
        Err(error) => Err(error),
        Ok(grid) => {
            let solid_sprite = texture_named(textures, "block_solid"@);
            let block_sprite = texture_named(textures, "block"@);
            if (holds_solid(grid) && solid_sprite is None) || (holds_destructible(grid)
                && block_sprite is None) {
                Err(LevelError::TextureNotLoaded)
            } else {
                Ok(
                    grid_bricks(
                        grid,
                        brick_unit(grid, level_width, level_height),
                        solid_sprite,
                        block_sprite,
                    ),
                )
            }
        },
    }
}

/// What a row of bricks adds to a frame: the sprites of those that are not
/// destroyed, in their order.
pub open spec fn visible_sprites(bricks: Seq<GameObject>) -> Seq<Sprite>
    decreases bricks.len(),
{
    if bricks.len() == 0 {
        Seq::empty()
    } else if bricks.last().destroyed {
        visible_sprites(bricks.drop_last())
    } else {
        visible_sprites(bricks.drop_last()) + bricks.last().sprites()
    }
}

/// Brick `b` lies inside the region of `width` by `height` units whose
/// top-left corner is the origin.
pub open spec fn inside(b: GameObject, width: int, height: int) -> bool {
    &&& b.size.non_negative()
    &&& 0 <= b.position.x
    &&& b.position.x + b.size.x <= width
    &&& 0 <= b.position.y
    &&& b.position.y + b.size.y <= height
}

proof fn lemma_cell_fits(total: int, count: int, index: int)
    by (nonlinear_arith)
    requires
        0 <= total,
        0 <= index < count,
    ensures
        0 <= total / count,
        0 <= (total / count) * index,
        (total / count) * index + total / count <= total,
{
}

fn tier_tint(tile: u8) -> (color: Color)
    ensures
        color == tier_color(tile),
{
    if tile == 1 {
        Color { r: 800, g: 800, b: 700 }
    } else if tile == 2 {
        Color { r: 200, g: 600, b: 1000 }
    } else if tile == 3 {
        Color { r: 0, g: 700, b: 0 }
    } else if tile == 4 {
        Color { r: 800, g: 800, b: 400 }
    } else if tile == 5 {
        Color { r: 1000, g: 800, b: 0 }
    } else {
        Color { r: 1000, g: 1000, b: 1000 }
    }
}

impl GameLevel {
    /// Every brick lies inside the region of `width` by `height` units at the origin.
    pub open spec fn within(&self, width: int, height: int) -> bool {
        forall|i: int| 0 <= i < self.bricks@.len() ==> inside(#[trigger] self.bricks@[i], width, height)
    }

    /// Every brick that can be destroyed has been.
    pub open spec fn completed(&self) -> bool {
        forall|i: int|
            0 <= i < self.bricks@.len() ==> (#[trigger] self.bricks@[i]).is_solid
                || self.bricks@[i].destroyed
    }

    /// Lays out the bricks of a grid of tiles over a region of `level_width` by
    /// `level_height` pixels.
    pub fn from_tiles(
        grid: &Vec<Vec<u8>>,
        level_width: u32,
        level_height: u32,
        solid_sprite: Option<Texture>,
        block_sprite: Option<Texture>,
    ) -> (built: Result<GameLevel, LevelError>)
        requires
            grid@.len() > 0,
            grid@[0]@.len() > 0,
            rectangular(grid_view(grid)),
        ensures
            match built {
                Ok(level) => {
                    &&& !(holds_solid(grid_view(grid)) && solid_sprite is None)
                    &&& !(holds_destructible(grid_view(grid)) && block_sprite is None)
                    &&& level.bricks@ == grid_bricks(
                        grid_view(grid),
                        brick_unit(grid_view(grid), level_width, level_height),
                        solid_sprite,
                        block_sprite,
                    )
                    &&& level.within(units(level_width), units(level_height))
                },
                Err(error) => {
                    &&& error == LevelError::TextureNotLoaded
                    &&& ((holds_solid(grid_view(grid)) && solid_sprite is None) || (
                    holds_destructible(grid_view(grid)) && block_sprite is None))
                },
            },
    {
        let ghost tiles = grid_view(grid);
        let rows: usize = grid.len();
        let cols: usize = grid[0].len();
        let width: u64 = level_width as u64 * 1000;
        let height: u64 = level_height as u64 * 1000;
        let unit_width: u64 = width / (cols as u64);
        let unit_height: u64 = height / (rows as u64);
        let ghost unit = brick_unit(tiles, level_width, level_height);
        assert(unit.x == unit_width && unit.y == unit_height) by {
            assert(tiles[0].len() == cols);
            lemma_cell_fits(width as int, cols as int, 0);
            lemma_cell_fits(height as int, rows as int, 0);
        }
        let mut bricks: Vec<GameObject> = Vec::new();
        let mut y: usize = 0;
        assert(tiles.take(0) =~= Seq::<Seq<u8>>::empty());
        while y < rows
            invariant
                y <= rows,
                rows == grid@.len(),
                cols == grid@[0]@.len(),
                cols > 0,
                tiles == grid_view(grid),
                rectangular(tiles),
                width == units(level_width),
                height == units(level_height),
                unit_width == width / (cols as u64),
                unit_height == height / (rows as u64),
                unit == (Vec2 { x: unit_width as i64, y: unit_height as i64 }),
                bricks@ == grid_bricks(tiles.take(y as int), unit, solid_sprite, block_sprite),
                forall|i: int| 0 <= i < bricks@.len() ==> inside(#[trigger] bricks@[i], width as int, height as int),
                forall|r: int, c: int|
                    0 <= r < y && 0 <= c < cols ==> (#[trigger] tiles[r][c] == 1
                        ==> solid_sprite is Some) && (tiles[r][c] > 1 ==> block_sprite is Some),
            decreases rows - y,
        {
            let row: &Vec<u8> = &grid[y];
            assert(row@ == tiles[y as int]);
            assert(row@.len() == cols);
            let ghost above = bricks@;
            let mut x: usize = 0;
            assert(row@.take(0) =~= Seq::<u8>::empty());
            assert(above + Seq::<GameObject>::empty() =~= above);
            while x < cols
                invariant
                    x <= cols,
                    y < rows,
                    rows == grid@.len(),
                    cols == row@.len(),
                    row@ == tiles[y as int],
                    tiles == grid_view(grid),
                    width == units(level_width),
                    height == units(level_height),
                    unit_width == width / (cols as u64),
                    unit_height == height / (rows as u64),
                    unit == (Vec2 { x: unit_width as i64, y: unit_height as i64 }),
                    bricks@ == above + row_bricks(
                        row@.take(x as int),
                        y as int,
                        unit,
                        solid_sprite,
                        block_sprite,
                    ),
                    forall|i: int| 0 <= i < bricks@.len() ==> inside(#[trigger] bricks@[i], width as int, height as int),
                    forall|c: int|
                        0 <= c < x ==> (#[trigger] row@[c] == 1 ==> solid_sprite is Some) && (
                        row@[c] > 1 ==> block_sprite is Some),
                decreases cols - x,
            {
                let tile: u8 = row[x];
                let ghost upto = row@.take(x as int + 1);
                assert(upto.drop_last() =~= row@.take(x as int));
                assert(upto.last() == tile);
                if tile != 0 {
                    let sprite: Option<Texture> = if tile == 1 {
                        solid_sprite
                    } else {
                        block_sprite
                    };
                    if sprite.is_none() {
                        assert(tiles[y as int][x as int] == tile);
                        return Err(LevelError::TextureNotLoaded);
                    }
                    proof {
                        lemma_cell_fits(width as int, cols as int, x as int);
                        lemma_cell_fits(height as int, rows as int, y as int);
                    }
                    let brick = GameObject {
                        position: Vec2 {
                            x: (unit_width * (x as u64)) as i64,
                            y: (unit_height * (y as u64)) as i64,
                        },
                        size: Vec2 { x: unit_width as i64, y: unit_height as i64 },
                        velocity: Vec2 { x: 0, y: 0 },
                        color: tier_tint(tile),
                        rotation: 0,
                        is_solid: tile == 1,
                        destroyed: false,
                        sprite,
                    };
                    assert(brick == brick_at(
                        tile,
                        x as int,
                        y as int,
                        unit,
                        solid_sprite,
                        block_sprite,
                    ));
                    bricks.push(brick);
                    assert(bricks@ =~= above + row_bricks(
                        upto,
                        y as int,
                        unit,
                        solid_sprite,
                        block_sprite,
                    ));
                }
                x += 1;
            }
            assert(row@.take(cols as int) =~= row@);
            let ghost done = tiles.take(y as int + 1);
            assert(done.drop_last() =~= tiles.take(y as int));
            assert(done.last() == row@);
            y += 1;
        }
        assert(tiles.take(rows as int) =~= tiles);
        Ok(GameLevel { bricks })
    }

    /// Builds the level that `level_data` describes, stretched over a region
    /// of `level_width` by `level_height` pixels.
    pub fn build(
        level_data: &[u8],
        level_width: u32,
        level_height: u32,
        resource_manager: &ResourceManager,
    ) -> (built: Result<GameLevel, LevelError>)
        ensures
            match built {
                Ok(level) => {
                    &&& level_bricks(
                        level_data@,
                        level_width,
                        level_height,
                        resource_manager.textures@,
                    ) == Ok::<Seq<GameObject>, LevelError>(level.bricks@)
                    &&& level.within(units(level_width), units(level_height))
                },
                Err(error) => level_bricks(
                    level_data@,
                    level_width,
                    level_height,
                    resource_manager.textures@,
                ) == Err::<Seq<GameObject>, LevelError>(error),
            },
    {
        let grid = match parse_tiles(level_data) {
            Ok(grid) => grid,
            Err(error) => {
                return Err(error);
            },
        };
        proof {
            lemma_accepted_grid_shape(level_data@);
            assert(grid_view(&grid)[0] == grid@[0]@);
        }
        let solid_sprite = resource_manager.get_texture("block_solid");
        let block_sprite = resource_manager.get_texture("block");
        GameLevel::from_tiles(&grid, level_width, level_height, solid_sprite, block_sprite)
    }

    /// Adds the bricks that are not destroyed to the frame.
    pub fn draw(&self, sprite_renderer: &mut SpriteRenderer)
        ensures
            final(sprite_renderer).width == old(sprite_renderer).width,
            final(sprite_renderer).height == old(sprite_renderer).height,
            final(sprite_renderer).sprites@ == old(sprite_renderer).sprites@ + visible_sprites(
                self.bricks@,
            ),
    {
        let ghost before = sprite_renderer.sprites@;
        let mut i: usize = 0;
        assert(self.bricks@.take(0) =~= Seq::<GameObject>::empty());
        assert(before + Seq::<Sprite>::empty() =~= before);
        while i < self.bricks.len()
            invariant
                i <= self.bricks@.len(),
                sprite_renderer.width == old(sprite_renderer).width,
                sprite_renderer.height == old(sprite_renderer).height,
                before == old(sprite_renderer).sprites@,
                sprite_renderer.sprites@ == before + visible_sprites(self.bricks@.take(i as int)),
            decreases self.bricks@.len() - i,
        {
            let ghost upto = self.bricks@.take(i as int + 1);
            assert(upto.drop_last() =~= self.bricks@.take(i as int));
            assert(upto.last() == self.bricks@[i as int]);
            if !self.bricks[i].destroyed {
                self.bricks[i].draw(sprite_renderer);
                assert(sprite_renderer.sprites@ =~= before + visible_sprites(upto));
            }
            i += 1;
        }
        assert(self.bricks@.take(i as int) =~= self.bricks@);
    }

    /// Whether the level is cleared: every brick is solid or destroyed. Solid
    /// bricks never count against it, and a level without bricks is cleared.
    pub fn is_completed(&self) -> (done: bool)
        ensures
            done == self.completed(),
    {
        let mut i: usize = 0;
        while i < self.bricks.len()
            invariant
                i <= self.bricks@.len(),
                forall|k: int|
                    0 <= k < i ==> (#[trigger] self.bricks@[k]).is_solid || self.bricks@[k].destroyed,
            decreases self.bricks@.len() - i,
        {
            if !(self.bricks[i].is_solid || self.bricks[i].destroyed) {
                return false;
            }
            i += 1;
        }
        true
    }

    pub fn mut_bricks(&mut self) -> (bricks: &mut Vec<GameObject>)
        ensures
            *bricks == old(self).bricks,
            *final(self) == (GameLevel { bricks: *final(bricks) }),
    {
        &mut self.bricks
    }
}

/// A level is cleared exactly when each of its bricks that is not solid is
/// destroyed: solid bricks never count against it.
pub proof fn lemma_solid_bricks_never_count(level: &GameLevel)
    ensures
        level.completed() <==> forall|i: int|
            0 <= i < level.bricks@.len() && !(#[trigger] level.bricks@[i]).is_solid
                ==> level.bricks@[i].destroyed,
{
    if level.completed() {
        assert forall|i: int|
            0 <= i < level.bricks@.len() && !(#[trigger] level.bricks@[i]).is_solid
                implies level.bricks@[i].destroyed by {}
    }
}

/// A level without a solid brick, all of whose bricks are destroyed, is cleared.
pub proof fn lemma_cleared_when_all_destroyed(level: &GameLevel)
    requires
        forall|i: int|
            0 <= i < level.bricks@.len() ==> !(#[trigger] level.bricks@[i]).is_solid
                && level.bricks@[i].destroyed,
    ensures
        level.completed(),
{
}

/// A level of solid bricks only is cleared, though none of them is ever destroyed.
pub proof fn lemma_cleared_when_all_solid(level: &GameLevel)
    requires
        forall|i: int| 0 <= i < level.bricks@.len() ==> (#[trigger] level.bricks@[i]).is_solid,
    ensures
        level.completed(),
{
}

} // verus!
