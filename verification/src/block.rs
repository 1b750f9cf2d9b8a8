use vstd::prelude::*;

verus! {

/// What one 11 by 11 tile cell of a dungeon level holds.
#[derive(Copy, Clone, PartialEq, Eq, Structural, Debug)]
pub enum DungeonBlock {
    Corridor,
    UpLadder,
    DownLadder,
    UpDownLadder,
    Chest(u8),
    Fountain(u8),
    Trap(u8),
    OpenChest,
    Field(u8),
    Wall,
    SecretDoor,
    Door,
    Room(u8),
    Unknown,
}

impl DungeonBlock {
    /// The block that a byte of a level grid stands for: the high nibble picks
    /// the variant, the low nibble is kept where the variant has a payload.
    pub open spec fn of_byte(b: u8) -> DungeonBlock {
        let kind = b as int / 16;
        let low = (b as int % 16) as u8;
        if kind == 0 {
            DungeonBlock::Corridor
        } else if kind == 1 || kind == 3 {
            DungeonBlock::UpDownLadder
        } else if kind == 2 {
            DungeonBlock::DownLadder
        } else if kind == 4 {
            DungeonBlock::Chest(low)
        } else if kind == 5 {
            DungeonBlock::Fountain(low)
        } else if kind == 6 {
            DungeonBlock::Trap(low)
        } else if kind == 7 {
            DungeonBlock::OpenChest
        } else if kind == 8 {
            DungeonBlock::Field(low)
        } else if kind == 10 || kind == 15 {
            DungeonBlock::Room(low)
        } else if kind == 11 || kind == 12 {
            DungeonBlock::Wall
        } else if kind == 13 {
            DungeonBlock::SecretDoor
        } else if kind == 14 {
            DungeonBlock::Door
        } else {
            DungeonBlock::Unknown
        }
    }

    /// Glyph that stands for the block in a text dump; a room shows its
    /// number as one hexadecimal digit.
    pub open spec fn glyph(self) -> char {
        match self {
            DungeonBlock::Corridor => '.',
            DungeonBlock::UpLadder => '<',
            DungeonBlock::DownLadder => '>',
            DungeonBlock::UpDownLadder => '\u{2194}',
            DungeonBlock::Chest(_) => '$',
            DungeonBlock::Fountain(_) => '{',
            DungeonBlock::Trap(_) => '^',
            DungeonBlock::OpenChest => '$',
            DungeonBlock::Field(_) => '*',
            DungeonBlock::Wall => '#',
            DungeonBlock::SecretDoor => '+',
            DungeonBlock::Door => '|',
            DungeonBlock::Room(n) => hex_digit(n),
            DungeonBlock::Unknown => '?',
        }
    }

    pub fn from_byte(b: u8) -> (r: DungeonBlock)
        ensures
            r == DungeonBlock::of_byte(b),
            r matches DungeonBlock::Room(n) ==> n < 16,
    {
        let kind: u8 = b >> 4;
        let low: u8 = b & 0xf;
        assert(kind == b / 16 && low == b % 16) by (bit_vector)
            requires
                kind == b >> 4,
                low == b & 0xf,
        ;
        match kind {
            0 => DungeonBlock::Corridor,
            1 => DungeonBlock::UpDownLadder,
            2 => DungeonBlock::DownLadder,
            3 => DungeonBlock::UpDownLadder,
            4 => DungeonBlock::Chest(low),
            5 => DungeonBlock::Fountain(low),
            6 => DungeonBlock::Trap(low),
            7 => DungeonBlock::OpenChest,
            8 => DungeonBlock::Field(low),
            10 => DungeonBlock::Room(low),
            11 => DungeonBlock::Wall,
            12 => DungeonBlock::Wall,
            13 => DungeonBlock::SecretDoor,
            14 => DungeonBlock::Door,
            15 => DungeonBlock::Room(low),
            _ => DungeonBlock::Unknown,
        }
    }

    pub fn symbol(self) -> (c: char)
        ensures
            c == self.glyph(),
    {
        match self {
            DungeonBlock::Corridor => '.',
            DungeonBlock::UpLadder => '<',
            DungeonBlock::DownLadder => '>',
            DungeonBlock::UpDownLadder => '\u{2194}',
            DungeonBlock::Chest(_) => '$',
            DungeonBlock::Fountain(_) => '{',
            DungeonBlock::Trap(_) => '^',
            DungeonBlock::OpenChest => '$',
            DungeonBlock::Field(_) => '*',
            DungeonBlock::Wall => '#',
            DungeonBlock::SecretDoor => '+',
            DungeonBlock::Door => '|',
            DungeonBlock::Room(n) => hex_digit_of(n),
            DungeonBlock::Unknown => '?',
        }
    }
}

impl From<u8> for DungeonBlock {
    fn from(b: u8) -> (r: DungeonBlock) {
        DungeonBlock::from_byte(b)
    }
}

impl vstd::std_specs::convert::FromSpecImpl<u8> for DungeonBlock {
    open spec fn obeys_from_spec() -> bool {
        true
    }

    open spec fn from_spec(b: u8) -> DungeonBlock {
        DungeonBlock::of_byte(b)
    }
}

/// The lower-case hexadecimal digit of a number below 16, and `?` above.
pub open spec fn hex_digit(n: u8) -> char {
    if n == 0 {
        '0'
    } else if n == 1 {
        '1'
    } else if n == 2 {
        '2'
    } else if n == 3 {
        '3'
    } else if n == 4 {
        '4'
    } else if n == 5 {
        '5'
    } else if n == 6 {
        '6'
    } else if n == 7 {
        '7'
    } else if n == 8 {
        '8'
    } else if n == 9 {
        '9'
    } else if n == 10 {
        'a'
    } else if n == 11 {
        'b'
    } else if n == 12 {
        'c'
    } else if n == 13 {
        'd'
    } else if n == 14 {
        'e'
    } else if n == 15 {
        'f'
    } else {
        '?'
    }
}

pub fn hex_digit_of(n: u8) -> (c: char)
    ensures
        c == hex_digit(n),
{
    match n {
        0 => '0',
        1 => '1',
        2 => '2',
        3 => '3',
        4 => '4',
        5 => '5',
        6 => '6',
        7 => '7',
        8 => '8',
        9 => '9',
        10 => 'a',
        11 => 'b',
        12 => 'c',
        13 => 'd',
        14 => 'e',
        15 => 'f',
        _ => '?',
    }
}

} // verus!
