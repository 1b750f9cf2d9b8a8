use vstd::prelude::*;
use crate::combat_map::CombatMap;
use crate::floor::DungeonFloor;
use crate::terrain::Terrain;

verus! {

/// `String::push` appends the character to the end of the string.
pub assume_specification[ String::push ](s: &mut String, c: char)
    ensures
        final(s)@ == old(s)@.push(c),
;

impl CombatMap {
    /// The `i`-th character of the room's text: eleven lines of eleven
    /// glyphs, each line closed by a line feed.
    pub open spec fn text_char(&self, i: int) -> char {
        if i % 12 == 11 {
            '\n'
        } else {
            Terrain::of_byte(self.area_at(i % 12, i / 12)).glyph()
        }
    }

    /// The room as text, one glyph to the tile.
    pub fn to_text(&self) -> (text: String)
        ensures
            text@.len() == 132,
            forall|i: int| 0 <= i < 132 ==> #[trigger] text@[i] == self.text_char(i),
    {
        let mut text = String::new();
        let mut y: usize = 0;
        while y < 11
            invariant
                y <= 11,
                text@.len() == y * 12,
                forall|i: int| 0 <= i < text@.len() ==> #[trigger] text@[i] == self.text_char(i),
            decreases 11 - y,
        {
            let mut x: usize = 0;
            while x < 11
                invariant
                    x <= 11,
                    y < 11,
                    text@.len() == y * 12 + x,
                    forall|i: int| 0 <= i < text@.len() ==> #[trigger] text@[i] == self.text_char(i),
                decreases 11 - x,
            {
                text.push(Terrain::from_code(self.area[y][x]).symbol());
                x += 1;
            }
            text.push('\n');
            y += 1;
        }
        text
    }
}

impl DungeonFloor {
    /// The `i`-th character of the floor's text: eight lines of eight glyphs,
    /// each line closed by a line feed.
    pub open spec fn text_char(&self, i: int) -> char {
        if i % 9 == 8 {
            '\n'
        } else {
            self.block_at(i % 9, i / 9).glyph()
        }
    }

    /// The floor as text, one glyph to the block.
    pub fn to_text(&self) -> (text: String)
        ensures
            text@.len() == 72,
            forall|i: int| 0 <= i < 72 ==> #[trigger] text@[i] == self.text_char(i),
    {
        let mut text = String::new();
        let mut y: usize = 0;
        while y < 8
            invariant
                y <= 8,
                text@.len() == y * 9,
                forall|i: int| 0 <= i < text@.len() ==> #[trigger] text@[i] == self.text_char(i),
            decreases 8 - y,
        {
            let mut x: usize = 0;
            while x < 8
                invariant
                    x <= 8,
                    y < 8,
                    text@.len() == y * 9 + x,
                    forall|i: int| 0 <= i < text@.len() ==> #[trigger] text@[i] == self.text_char(i),
                decreases 8 - x,
            {
                text.push(self.block(x, y).symbol());
                x += 1;
            }
            text.push('\n');
            y += 1;
        }
        text
    }
}

} // verus!
