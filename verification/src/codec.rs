//! The binary level file.
//!
//! Everything is little-endian. Three `u64` section lengths come first: the
//! byte lengths of the background, foreground and collision sections. The
//! two tile sections hold 20-byte records (`i64` x, `i64` y, `i16` row,
//! `i16` col), the collision section holds 16-byte records (`i64` x, `i64`
//! y), and the rest of the file holds the entities: `i64` x, `i64` y, a
//! `u64` label length and that many bytes of UTF-8.

use crate::cell_map::CellMap;
use crate::sets::CellSet;
use crate::types::HashableVec2;
use crate::types::SpriteUV;
use vstd::bytes::spec_u16_from_le_bytes;
use vstd::bytes::spec_u16_to_le_bytes;
use vstd::bytes::spec_u64_from_le_bytes;
use vstd::bytes::spec_u64_to_le_bytes;
use vstd::bytes::u16_from_le_bytes;
use vstd::bytes::u16_to_le_bytes;
use vstd::bytes::u64_from_le_bytes;
use vstd::bytes::u64_to_le_bytes;
use vstd::prelude::*;
use vstd::slice::slice_subrange;
use vstd::slice::slice_to_vec;
use vstd::utf8::decode_utf8;
use vstd::utf8::encode_utf8;
use vstd::utf8::valid_utf8;

verus! {

/// Why a byte sequence is no level file.
#[derive(Copy, Clone, PartialEq, Eq, Debug, Structural)]
pub enum DecodeError {
    /// Fewer than the 24 bytes of the three section lengths.
    TruncatedHeader,
    /// A section length reaches beyond the end of the file.
    SectionOutOfRange,
    /// The file ends inside an entity record.
    TruncatedEntity,
    /// A label is not UTF-8.
    InvalidLabel,
}

/// One record of a tile section: the cell, and the pixel offsets of the
/// sprite in the sheet.
#[derive(Copy, Clone, PartialEq, Eq, Debug, Structural)]
pub struct TileRecord {
    pub cell: HashableVec2,
    pub row: i16,
    pub col: i16,
}

/// The records of a level file, section by section, in file order.
pub struct Level {
    pub background: Vec<TileRecord>,
    pub foreground: Vec<TileRecord>,
    pub collision: Vec<HashableVec2>,
    pub entities: Vec<(HashableVec2, String)>,
}

/// What a [`Level`] is in contracts: the same records, each label given by
/// its characters.
#[verifier::ext_equal]
pub struct LevelView {
    pub background: Seq<TileRecord>,
    pub foreground: Seq<TileRecord>,
    pub collision: Seq<HashableVec2>,
    pub entities: Seq<(HashableVec2, Seq<char>)>,
}

/// The entity records with each label given by its characters.
pub open spec fn entities_view(entities: Seq<(HashableVec2, String)>) -> Seq<
    (HashableVec2, Seq<char>),
> {
    entities.map_values(|e: (HashableVec2, String)| (e.0, e.1@))
}

impl View for Level {
    type V = LevelView;

    open spec fn view(&self) -> LevelView {
        LevelView {
            background: self.background@,
            foreground: self.foreground@,
            collision: self.collision@,
            entities: entities_view(self.entities@),
        }
    }
}

/// The nearest 16-bit value to a pixel offset.
pub open spec fn clamp_i16(x: i64) -> i16 {
    if x < -32768 {
        -32768i16
    } else if x > 32767 {
        32767i16
    } else {
        x as i16
    }
}

/// The record that a layer entry is saved as: its cell, and the sprite's
/// pixel offsets brought into 16 bits.
pub open spec fn tile_record(entry: (HashableVec2, SpriteUV)) -> TileRecord {
    TileRecord { cell: entry.0, row: clamp_i16(entry.1.row), col: clamp_i16(entry.1.col) }
}

/// The records that the entries of a tile layer are saved as.
pub open spec fn tile_records(entries: Seq<(HashableVec2, SpriteUV)>) -> Seq<TileRecord> {
    entries.map_values(|e: (HashableVec2, SpriteUV)| tile_record(e))
}

/// The eight bytes of a signed 64-bit number.
pub open spec fn i64_bytes(x: i64) -> Seq<u8> {
    spec_u64_to_le_bytes(x as u64)
}

/// The two bytes of a signed 16-bit number.
pub open spec fn i16_bytes(x: i16) -> Seq<u8> {
    spec_u16_to_le_bytes(x as u16)
}

/// The 16 bytes of a cell.
pub open spec fn cell_bytes(cell: HashableVec2) -> Seq<u8> {
    i64_bytes(cell.x) + i64_bytes(cell.y)
}

/// The 20 bytes of a tile record.
pub open spec fn tile_bytes(record: TileRecord) -> Seq<u8> {
    cell_bytes(record.cell) + i16_bytes(record.row) + i16_bytes(record.col)
}

/// The bytes of an entity record.
pub open spec fn entity_bytes(entity: (HashableVec2, Seq<char>)) -> Seq<u8> {
    cell_bytes(entity.0) + spec_u64_to_le_bytes(encode_utf8(entity.1).len() as u64) + encode_utf8(
        entity.1,
    )
}

/// The parts one after the other.
pub open spec fn concat_all(parts: Seq<Seq<u8>>) -> Seq<u8>
    decreases parts.len(),
{
    if parts.len() == 0 {
        Seq::empty()
    } else {
        parts.first() + concat_all(parts.drop_first())
    }
}

/// The bytes of a tile section.
pub open spec fn tiles_bytes(records: Seq<TileRecord>) -> Seq<u8> {
    concat_all(records.map_values(|r: TileRecord| tile_bytes(r)))
}

/// The bytes of a collision section.
pub open spec fn cells_bytes(cells: Seq<HashableVec2>) -> Seq<u8> {
    concat_all(cells.map_values(|c: HashableVec2| cell_bytes(c)))
}

/// The bytes of an entity section.
pub open spec fn entities_bytes(entities: Seq<(HashableVec2, Seq<char>)>) -> Seq<u8> {
    concat_all(entities.map_values(|e: (HashableVec2, Seq<char>)| entity_bytes(e)))
}

/// The bytes of a level file.
pub open spec fn level_bytes(level: LevelView) -> Seq<u8> {
    spec_u64_to_le_bytes(tiles_bytes(level.background).len() as u64) + spec_u64_to_le_bytes(
        tiles_bytes(level.foreground).len() as u64,
    ) + spec_u64_to_le_bytes(cells_bytes(level.collision).len() as u64) + tiles_bytes(
        level.background,
    ) + tiles_bytes(level.foreground) + cells_bytes(level.collision) + entities_bytes(
        level.entities,
    )
}

/// The unsigned 64-bit number whose eight bytes start at `at`.
pub open spec fn u64_at(bytes: Seq<u8>, at: int) -> u64 {
    spec_u64_from_le_bytes(bytes.subrange(at, at + 8))
}

/// The signed 64-bit number whose eight bytes start at `at`.
pub open spec fn i64_at(bytes: Seq<u8>, at: int) -> i64 {
    u64_at(bytes, at) as i64
}

/// The signed 16-bit number whose two bytes start at `at`.
pub open spec fn i16_at(bytes: Seq<u8>, at: int) -> i16 {
    spec_u16_from_le_bytes(bytes.subrange(at, at + 2)) as i16
}

/// The cell whose 16 bytes start at `at`.
pub open spec fn cell_at(bytes: Seq<u8>, at: int) -> HashableVec2 {
    HashableVec2 { x: i64_at(bytes, at), y: i64_at(bytes, at + 8) }
}

/// The tile record whose 20 bytes start at `at`.
pub open spec fn tile_at(bytes: Seq<u8>, at: int) -> TileRecord {
    TileRecord { cell: cell_at(bytes, at), row: i16_at(bytes, at + 16), col: i16_at(bytes, at + 18) }
}

/// The `count` tile records that start at `at`.
pub open spec fn tiles_at(bytes: Seq<u8>, at: int, count: int) -> Seq<TileRecord> {
    Seq::new(count as nat, |i: int| tile_at(bytes, at + 20 * i))
}

/// The `count` cells that start at `at`.
pub open spec fn cells_at(bytes: Seq<u8>, at: int, count: int) -> Seq<HashableVec2> {
    Seq::new(count as nat, |i: int| cell_at(bytes, at + 16 * i))
}

/// The entity records from `at` to the end of the file, or the reason why
/// the first record that is none cannot be read.
pub open spec fn entities_at(bytes: Seq<u8>, at: int) -> Result<
    Seq<(HashableVec2, Seq<char>)>,
    DecodeError,
>
    decreases bytes.len() - at,
{
    if at >= bytes.len() {
        Ok(Seq::empty())
    } else if bytes.len() - at < 24 {
        Err(DecodeError::TruncatedEntity)
    } else {
        let label_len = u64_at(bytes, at + 16) as int;
        let label = bytes.subrange(at + 24, at + 24 + label_len);
        if label_len > bytes.len() - at - 24 {
            Err(DecodeError::TruncatedEntity)
        } else if !valid_utf8(label) {
            Err(DecodeError::InvalidLabel)
        } else {
            match entities_at(bytes, at + 24 + label_len) {
                Ok(rest) => Ok(seq![(cell_at(bytes, at), decode_utf8(label))] + rest),
                Err(e) => Err(e),
            }
        }
    }
}

/// The level that a byte sequence holds, or the reason why it holds none.
///
/// A section holds as many records as fit into its length; bytes of a
/// section that are left over belong to no record.
pub open spec fn parse_level(bytes: Seq<u8>) -> Result<LevelView, DecodeError> {
    if bytes.len() < 24 {
        Err(DecodeError::TruncatedHeader)
    } else {
        let len_bg = u64_at(bytes, 0) as int;
        let len_fg = u64_at(bytes, 8) as int;
        let len_collision = u64_at(bytes, 16) as int;
        if len_bg > bytes.len() - 24 || len_fg > bytes.len() - 24 - len_bg || len_collision
            > bytes.len() - 24 - len_bg - len_fg {
            Err(DecodeError::SectionOutOfRange)
        } else {
            match entities_at(bytes, 24 + len_bg + len_fg + len_collision) {
                Ok(entities) => Ok(
                    LevelView {
                        background: tiles_at(bytes, 24, len_bg / 20),
                        foreground: tiles_at(bytes, 24 + len_bg, len_fg / 20),
                        collision: cells_at(bytes, 24 + len_bg + len_fg, len_collision / 16),
                        entities,
                    },
                ),
                Err(e) => Err(e),
            }
        }
    }
}

/// Appending a part appends its bytes.
pub proof fn lemma_concat_all_push(parts: Seq<Seq<u8>>, part: Seq<u8>)
    ensures
        concat_all(parts.push(part)) == concat_all(parts) + part,
    decreases parts.len(),
{
    if parts.len() == 0 {
        let single = parts.push(part);
        assert(single.drop_first().len() == 0);
        assert(concat_all(single) == single.first() + concat_all(single.drop_first()));
        assert(concat_all(single) =~= concat_all(parts) + part);
    } else {
        assert(parts.push(part).drop_first() =~= parts.drop_first().push(part));
        lemma_concat_all_push(parts.drop_first(), part);
        assert(concat_all(parts.push(part)) =~= concat_all(parts) + part);
    }
}

/// The nearest 16-bit value to a pixel offset.
fn clamp_to_i16(x: i64) -> (r: i16)
    ensures
        r == clamp_i16(x),
{
    if x < -32768 {
        -32768
    } else if x > 32767 {
        32767
    } else {
        x as i16
    }
}

/// Appends the 16 bytes of `cell` to `buffer`.
fn push_cell(buffer: &mut Vec<u8>, cell: HashableVec2)
    ensures
        final(buffer)@ == old(buffer)@ + cell_bytes(cell),
{
    let mut x = u64_to_le_bytes(#[verifier::truncate] (cell.x as u64));
    let mut y = u64_to_le_bytes(#[verifier::truncate] (cell.y as u64));
    buffer.append(&mut x);
    buffer.append(&mut y);
    proof {
        assert(buffer@ =~= old(buffer)@ + cell_bytes(cell));
    }
}

/// The bytes of the tile section that a layer is saved as.
fn encode_tiles(layer: &CellMap<SpriteUV>) -> (section: Vec<u8>)
    ensures
        section@ == tiles_bytes(tile_records(layer.entries())),
{
    let mut section: Vec<u8> = Vec::new();
    let n = layer.len();
    let ghost parts = tile_records(layer.entries()).map_values(|r: TileRecord| tile_bytes(r));
    let mut i: usize = 0;
    proof {
        assert(parts.take(0) =~= Seq::<Seq<u8>>::empty());
    }
    while i < n
        invariant
            n == layer.entries().len(),
            i <= n,
            parts == tile_records(layer.entries()).map_values(|r: TileRecord| tile_bytes(r)),
            section@ == concat_all(parts.take(i as int)),
        decreases n - i,
    {
        let cell = layer.cell_at(i);
        let uv = *layer.value_at(i);
        let ghost before = section@;
        push_cell(&mut section, cell);
        let mut row = u16_to_le_bytes(#[verifier::truncate] (clamp_to_i16(uv.row) as u16));
        let mut col = u16_to_le_bytes(#[verifier::truncate] (clamp_to_i16(uv.col) as u16));
        section.append(&mut row);
        section.append(&mut col);
        proof {
            let record = tile_record(layer.entries()[i as int]);
            assert(parts[i as int] == tile_bytes(record));
            assert(section@ =~= before + tile_bytes(record));
            assert(parts.take(i + 1) =~= parts.take(i as int).push(parts[i as int]));
            lemma_concat_all_push(parts.take(i as int), parts[i as int]);
        }
        i += 1;
    }
    proof {
        assert(parts.take(n as int) =~= parts);
    }
    section
}

/// The bytes of the collision section that a set of cells is saved as.
fn encode_cells(cells: &CellSet) -> (section: Vec<u8>)
    ensures
        section@ == cells_bytes(cells.entries()),
{
    let mut section: Vec<u8> = Vec::new();
    let n = cells.len();
    let ghost parts = cells.entries().map_values(|c: HashableVec2| cell_bytes(c));
    let mut i: usize = 0;
    proof {
        assert(parts.take(0) =~= Seq::<Seq<u8>>::empty());
    }
    while i < n
        invariant
            n == cells.entries().len(),
            i <= n,
            parts == cells.entries().map_values(|c: HashableVec2| cell_bytes(c)),
            section@ == concat_all(parts.take(i as int)),
        decreases n - i,
    {
        let cell = cells.cell_at(i);
        push_cell(&mut section, cell);
        proof {
            assert(parts.take(i + 1) =~= parts.take(i as int).push(parts[i as int]));
            lemma_concat_all_push(parts.take(i as int), parts[i as int]);
        }
        i += 1;
    }
    proof {
        assert(parts.take(n as int) =~= parts);
    }
    section
}

/// The bytes of the entity section that an entity layer is saved as.
fn encode_entities(layer: &CellMap<String>) -> (section: Vec<u8>)
    ensures
        section@ == entities_bytes(layer.entries()),
{
    let mut section: Vec<u8> = Vec::new();
    let n = layer.len();
    let ghost parts = layer.entries().map_values(|e: (HashableVec2, Seq<char>)| entity_bytes(e));
    let mut i: usize = 0;
    proof {
        assert(parts.take(0) =~= Seq::<Seq<u8>>::empty());
    }
    while i < n
        invariant
            n == layer.entries().len(),
            i <= n,
            parts == layer.entries().map_values(|e: (HashableVec2, Seq<char>)| entity_bytes(e)),
            section@ == concat_all(parts.take(i as int)),
        decreases n - i,
    {
        let cell = layer.cell_at(i);
        let label = layer.value_at(i);
        let ghost before = section@;
        push_cell(&mut section, cell);
        let mut text = slice_to_vec(label.as_str().as_bytes());
        let mut label_len = u64_to_le_bytes(text.len() as u64);
        section.append(&mut label_len);
        section.append(&mut text);
        proof {
            let entity = layer.entries()[i as int];
            assert(entity.1 == label@);
            assert(section@ =~= before + entity_bytes(entity));
            assert(parts.take(i + 1) =~= parts.take(i as int).push(parts[i as int]));
            lemma_concat_all_push(parts.take(i as int), parts[i as int]);
        }
        i += 1;
    }
    proof {
        assert(parts.take(n as int) =~= parts);
    }
    section
}

/// The level file that holds the four layers: each tile entry as its
/// record, each collision cell, each entity with its label, in the order of
/// the layers' entries.
pub fn encode_level(
    background: &CellMap<SpriteUV>,
    foreground: &CellMap<SpriteUV>,
    collision: &CellSet,
    entities: &CellMap<String>,
) -> (bytes: Vec<u8>)
    ensures
        bytes@ == level_bytes(
            (LevelView {
                background: tile_records(background.entries()),
                foreground: tile_records(foreground.entries()),
                collision: collision.entries(),
                entities: entities.entries(),
            }),
        ),
{
    let mut bg = encode_tiles(background);
    let mut fg = encode_tiles(foreground);
    let mut cells = encode_cells(collision);
    let mut tail = encode_entities(entities);
    let mut bytes = u64_to_le_bytes(bg.len() as u64);
    let mut len_fg = u64_to_le_bytes(fg.len() as u64);
    let mut len_collision = u64_to_le_bytes(cells.len() as u64);
    bytes.append(&mut len_fg);
    bytes.append(&mut len_collision);
    bytes.append(&mut bg);
    bytes.append(&mut fg);
    bytes.append(&mut cells);
    bytes.append(&mut tail);
    bytes
}

/// The result of reading further entity records after `read`.
pub open spec fn after_entities(
    read: Seq<(HashableVec2, Seq<char>)>,
    rest: Result<Seq<(HashableVec2, Seq<char>)>, DecodeError>,
) -> Result<Seq<(HashableVec2, Seq<char>)>, DecodeError> {
    match rest {
        Ok(more) => Ok(read + more),
        Err(e) => Err(e),
    }
}

/// Turns bytes into the string that they encode, if they are UTF-8.
///
/// This is `String::from_utf8` of the standard library. It is taken on
/// trust that it accepts exactly the byte sequences that are valid UTF-8,
/// and that the UTF-8 encoding of the string it returns is the sequence it
/// was given.
#[verifier::external_body]
fn string_from_utf8(bytes: Vec<u8>) -> (text: Option<String>)
    ensures
        text is Some <==> valid_utf8(bytes@),
        text matches Some(s) ==> encode_utf8(s@) == bytes@,
{
    match String::from_utf8(bytes) {
        Ok(s) => Some(s),
        Err(_) => None,
    }
}

/// The unsigned 64-bit number whose eight bytes start at `at`.
fn read_u64(bytes: &[u8], at: usize) -> (x: u64)
    requires
        at + 8 <= bytes@.len() <= usize::MAX,
    ensures
        x == u64_at(bytes@, at as int),
{
    u64_from_le_bytes(slice_subrange(bytes, at, at + 8))
}

/// The signed 16-bit number whose two bytes start at `at`.
fn read_i16(bytes: &[u8], at: usize) -> (x: i16)
    requires
        at + 2 <= bytes@.len() <= usize::MAX,
    ensures
        x == i16_at(bytes@, at as int),
{
    #[verifier::truncate]
    (u16_from_le_bytes(slice_subrange(bytes, at, at + 2)) as i16)
}

/// The cell whose 16 bytes start at `at`.
fn read_cell(bytes: &[u8], at: usize) -> (cell: HashableVec2)
    requires
        at + 16 <= bytes@.len() <= usize::MAX,
    ensures
        cell == cell_at(bytes@, at as int),
{
    let x = #[verifier::truncate]
    (read_u64(bytes, at) as i64);
    let y = #[verifier::truncate]
    (read_u64(bytes, at + 8) as i64);
    HashableVec2 { x, y }
}

/// The `count` tile records that start at `at`.
fn decode_tiles(bytes: &[u8], at: usize, count: usize) -> (records: Vec<TileRecord>)
    requires
        at + 20 * count <= bytes@.len() <= usize::MAX,
    ensures
        records@ == tiles_at(bytes@, at as int, count as int),
{
    let mut records: Vec<TileRecord> = Vec::new();
    let mut i: usize = 0;
    while i < count
        invariant
            at + 20 * count <= bytes@.len() <= usize::MAX,
            i <= count,
            records@ == tiles_at(bytes@, at as int, i as int),
        decreases count - i,
    {
        let start = at + 20 * i;
        let record = TileRecord {
            cell: read_cell(bytes, start),
            row: read_i16(bytes, start + 16),
            col: read_i16(bytes, start + 18),
        };
        records.push(record);
        proof {
            assert(records@ =~= tiles_at(bytes@, at as int, i + 1));
        }
        i += 1;
    }
    records
}

/// The `count` cells that start at `at`.
fn decode_cells(bytes: &[u8], at: usize, count: usize) -> (cells: Vec<HashableVec2>)
    requires
        at + 16 * count <= bytes@.len() <= usize::MAX,
    ensures
        cells@ == cells_at(bytes@, at as int, count as int),
{
    let mut cells: Vec<HashableVec2> = Vec::new();
    let mut i: usize = 0;
    while i < count
        invariant
            at + 16 * count <= bytes@.len() <= usize::MAX,
            i <= count,
            cells@ == cells_at(bytes@, at as int, i as int),
        decreases count - i,
    {
        let cell = read_cell(bytes, at + 16 * i);
        cells.push(cell);
        proof {
            assert(cells@ =~= cells_at(bytes@, at as int, i + 1));
        }
        i += 1;
    }
    cells
}

/// The entity records from `at` to the end of the file.
fn decode_entities(bytes: &[u8], at: usize) -> (r: Result<Vec<(HashableVec2, String)>, DecodeError>)
    requires
        at <= bytes@.len(),
    ensures
        match r {
            Ok(entities) => entities_at(bytes@, at as int) == Ok::<_, DecodeError>(
                entities_view(entities@),
            ),
            Err(e) => entities_at(bytes@, at as int) == Err::<Seq<(HashableVec2, Seq<char>)>, _>(e),
        },
{
    let mut entities: Vec<(HashableVec2, String)> = Vec::new();
    let n = bytes.len();
    let mut index = at;
    proof {
        assert(entities_view(entities@) =~= Seq::empty());
        assert(Seq::<(HashableVec2, Seq<char>)>::empty() + entities_at(bytes@, at as int)->Ok_0
            =~= entities_at(bytes@, at as int)->Ok_0);
    }
    while index < n
        invariant
            n == bytes@.len(),
            at <= index <= n,
            after_entities(entities_view(entities@), entities_at(bytes@, index as int))
                == entities_at(bytes@, at as int),
        decreases n - index,
    {
        if n - index < 24 {
            return Err(DecodeError::TruncatedEntity);
        }
        let cell = read_cell(bytes, index);
        let label_len = read_u64(bytes, index + 16);
        if label_len > (n - index - 24) as u64 {
            return Err(DecodeError::TruncatedEntity);
        }
        let label_len = label_len as usize;
        let raw = slice_to_vec(slice_subrange(bytes, index + 24, index + 24 + label_len));
        match string_from_utf8(raw) {
            None => {
                return Err(DecodeError::InvalidLabel);
            },
            Some(label) => {
                proof {
                    let text = bytes@.subrange(index + 24, index + 24 + label_len);
                    vstd::utf8::encode_utf8_decode_utf8(label@);
                    assert(decode_utf8(text) == label@);
                    let read = entities_view(entities@);
                    let entity = (cell, label@);
                    let next = entities_at(bytes@, index + 24 + label_len);
                    assert(entities_view(entities@.push((cell, label))) =~= read.push(entity));
                    if next is Ok {
                        assert(read + (seq![entity] + next->Ok_0) =~= read.push(entity)
                            + next->Ok_0);
                    }
                }
                entities.push((cell, label));
                index = index + 24 + label_len;
            },
        }
    }
    proof {
        assert(entities_view(entities@) + Seq::<(HashableVec2, Seq<char>)>::empty()
            =~= entities_view(entities@));
    }
    Ok(entities)
}

/// Reads a level file.
///
/// The result is the level that the bytes hold, or the reason why they hold
/// none: the file is shorter than its header, a section length reaches
/// beyond its end, it ends inside an entity record, or a label is not
/// UTF-8.
pub fn decode_level(bytes: &[u8]) -> (r: Result<Level, DecodeError>)
    ensures
        match r {
            Ok(level) => parse_level(bytes@) == Ok::<_, DecodeError>(level@),
            Err(e) => parse_level(bytes@) == Err::<LevelView, _>(e),
        },
{
    let n = bytes.len();
    if n < 24 {
        return Err(DecodeError::TruncatedHeader);
    }
    let len_bg = read_u64(bytes, 0);
    let len_fg = read_u64(bytes, 8);
    let len_collision = read_u64(bytes, 16);
    if len_bg > (n - 24) as u64 {
        return Err(DecodeError::SectionOutOfRange);
    }
    let len_bg = len_bg as usize;
    if len_fg > (n - 24 - len_bg) as u64 {
        return Err(DecodeError::SectionOutOfRange);
    }
    let len_fg = len_fg as usize;
    if len_collision > (n - 24 - len_bg - len_fg) as u64 {
        return Err(DecodeError::SectionOutOfRange);
    }
    let len_collision = len_collision as usize;
    match decode_entities(bytes, 24 + len_bg + len_fg + len_collision) {
        Err(e) => Err(e),
        Ok(entities) => {
            let background = decode_tiles(bytes, 24, len_bg / 20);
            let foreground = decode_tiles(bytes, 24 + len_bg, len_fg / 20);
            let collision = decode_cells(bytes, 24 + len_bg + len_fg, len_collision / 16);
            Ok(Level { background, foreground, collision, entities })
        },
    }
}

} // verus!
