use vstd::prelude::*;

verus! {

/// The kinds of terrain that a tile of the game can show.
#[derive(Copy, Clone, PartialEq, Eq, Structural, Debug)]
pub enum Terrain {
    DeepWater, Water, Shoals, Swamp, Grass, Brush, Desert, HeavyBrush, Trees,
    TropicalForest, Foothills, Mountains, HighPeaks, SmallHut, CodexShrine,
    Keep, Village, Towne, Castle, Cave, Mine, Dungeon, Shrine, RuinedShrine,
    Lighthouse, Oasis, Bridge, Road, Roof, CrystalSphere, LighthouseLight,
    HollowStump, PlowedPatch, Crops, Tree, Cactus, Gargoyle, WoodenPlanks,
    Codex, Mast, Rail, Cobble, Pillar, Pier, ArrowSlit, Window, Rocks,
    StoneWall, SecretDoor, BrickWall, Crenellations, Anvil, Spyglass,
    WindowShelf, PottedPlant, Bookshelf, Guardian, River, StrangeWall,
    Pendulum, Stocks, Manacles, Grate, Archway, Cannonballs, Grave,
    Gravestone, Rack, Trapdoor, Harpsichord, Guillotine, Lava, Chair, Table,
    MagicDoor, MagicWindowDoor, Portcullis, TableWithFood, Mirror,
    MirrorReflection, BrokenMirror, Sign, Well, HitchingPost, Logs, Marker,
    Desk, Barrel, Cask, VanityTable, Pitcher, Carpet, Bed, ChestOfDrawers,
    EndTable, Footlocker, Torch, Brazier, Spit, Cannon, Door, LockedDoor,
    WindowDoor, LockedWindowDoor, Fireplace, StreetLamp, Candelabrum, Stove,
    Stairs, Ladder, Fence, Waterfall, Fountain, MoonGate, Flame,
    CollapsedDungeon, Flagpole, Hourglass, Standard, ProvisionerSign,
    GovernmentSign, ArmourySign, HealerSign, StableSign, GuildSign, InnSign,
    ApothecarySign, ShipwrightSign, GrandfatherClock, Bellows, Wall, Darkness,
    Chest, Unknown,
}

impl Terrain {
    /// The tile number under which the atlas holds the first picture of this
    /// terrain.
    pub open spec fn tile_id(self) -> nat {
        match self {
            Terrain::DeepWater => 1,
            Terrain::Water => 2,
            Terrain::Shoals => 3,
            Terrain::Swamp => 4,
            Terrain::Grass => 5,
            Terrain::Brush => 6,
            Terrain::Desert => 7,
            Terrain::HeavyBrush => 8,
            Terrain::Trees => 9,
            Terrain::TropicalForest => 10,
            Terrain::Foothills => 11,
            Terrain::Mountains => 12,
            Terrain::HighPeaks => 13,
            Terrain::SmallHut => 16,
            Terrain::CodexShrine => 17,
            Terrain::Keep => 18,
            Terrain::Village => 19,
            Terrain::Towne => 20,
            Terrain::Castle => 21,
            Terrain::Cave => 22,
            Terrain::Mine => 23,
            Terrain::Dungeon => 24,
            Terrain::Shrine => 25,
            Terrain::RuinedShrine => 26,
            Terrain::Lighthouse => 27,
            Terrain::Oasis => 28,
            Terrain::Bridge => 29,
            Terrain::Road => 32,
            Terrain::Roof => 39,
            Terrain::CrystalSphere => 41,
            Terrain::LighthouseLight => 42,
            Terrain::HollowStump => 43,
            Terrain::PlowedPatch => 44,
            Terrain::Crops => 45,
            Terrain::Tree => 46,
            Terrain::Cactus => 47,
            Terrain::Gargoyle => 56,
            Terrain::WoodenPlanks => 64,
            Terrain::Codex => 65,
            Terrain::Mast => 66,
            Terrain::Rail => 67,
            Terrain::Cobble => 68,
            Terrain::Pillar => 70,
            Terrain::Pier => 71,
            Terrain::ArrowSlit => 74,
            Terrain::Window => 75,
            Terrain::Rocks => 76,
            Terrain::StoneWall => 77,
            Terrain::SecretDoor => 78,
            Terrain::BrickWall => 79,
            Terrain::Crenellations => 80,
            Terrain::Anvil => 88,
            Terrain::Spyglass => 89,
            Terrain::WindowShelf => 90,
            Terrain::PottedPlant => 91,
            Terrain::Bookshelf => 92,
            Terrain::Guardian => 94,
            Terrain::River => 96,
            Terrain::StrangeWall => 112,
            Terrain::Pendulum => 128,
            Terrain::Stocks => 132,
            Terrain::Manacles => 133,
            Terrain::Grate => 134,
            Terrain::Archway => 135,
            Terrain::Cannonballs => 136,
            Terrain::Grave => 137,
            Terrain::Gravestone => 138,
            Terrain::Rack => 139,
            Terrain::Trapdoor => 140,
            Terrain::Harpsichord => 141,
            Terrain::Guillotine => 142,
            Terrain::Lava => 143,
            Terrain::Chair => 144,
            Terrain::Table => 148,
            Terrain::MagicDoor => 150,
            Terrain::MagicWindowDoor => 151,
            Terrain::Portcullis => 152,
            Terrain::TableWithFood => 153,
            Terrain::Mirror => 157,
            Terrain::MirrorReflection => 158,
            Terrain::BrokenMirror => 159,
            Terrain::Sign => 160,
            Terrain::Well => 161,
            Terrain::HitchingPost => 162,
            Terrain::Logs => 163,
            Terrain::Marker => 164,
            Terrain::Desk => 165,
            Terrain::Barrel => 166,
            Terrain::Cask => 167,
            Terrain::VanityTable => 168,
            Terrain::Pitcher => 169,
            Terrain::Carpet => 170,
            Terrain::Bed => 171,
            Terrain::ChestOfDrawers => 173,
            Terrain::EndTable => 174,
            Terrain::Footlocker => 175,
            Terrain::Torch => 176,
            Terrain::Brazier => 178,
            Terrain::Spit => 179,
            Terrain::Cannon => 180,
            Terrain::Door => 184,
            Terrain::LockedDoor => 185,
            Terrain::WindowDoor => 186,
            Terrain::LockedWindowDoor => 187,
            Terrain::Fireplace => 188,
            Terrain::StreetLamp => 189,
            Terrain::Candelabrum => 190,
            Terrain::Stove => 191,
            Terrain::Stairs => 196,
            Terrain::Ladder => 200,
            Terrain::Fence => 202,
            Terrain::Waterfall => 212,
            Terrain::Fountain => 216,
            Terrain::MoonGate => 220,
            Terrain::Flame => 222,
            Terrain::CollapsedDungeon => 223,
            Terrain::Flagpole => 224,
            Terrain::Hourglass => 232,
            Terrain::Standard => 236,
            Terrain::ProvisionerSign => 240,
            Terrain::GovernmentSign => 241,
            Terrain::ArmourySign => 242,
            Terrain::HealerSign => 243,
            Terrain::StableSign => 244,
            Terrain::GuildSign => 245,
            Terrain::InnSign => 246,
            Terrain::ApothecarySign => 247,
            Terrain::ShipwrightSign => 248,
            Terrain::GrandfatherClock => 249,
            Terrain::Bellows => 252,
            Terrain::Wall => 254,
            Terrain::Darkness => 255,
            Terrain::Chest => 257,
            Terrain::Unknown => 258,
        }
    }

    /// The terrain that a tile number below 256 shows. Several numbers may show
    /// one terrain (animation frames, orientations).
    pub open spec fn of_byte(code: u8) -> Terrain {
        if code == 0 {
            Terrain::Unknown
        } else if code == 1 {
            Terrain::DeepWater
        } else if code == 2 {
            Terrain::Water
        } else if code == 3 {
            Terrain::Shoals
        } else if code == 4 {
            Terrain::Swamp
        } else if code == 5 {
            Terrain::Grass
        } else if code == 6 {
            Terrain::Brush
        } else if code == 7 {
            Terrain::Desert
        } else if code == 8 {
            Terrain::HeavyBrush
        } else if code == 9 {
            Terrain::Trees
        } else if code == 10 {
            Terrain::TropicalForest
        } else if code == 11 {
            Terrain::Foothills
        } else if code == 12 {
            Terrain::Mountains
        } else if code == 13 {
            Terrain::HighPeaks
        } else if 14 <= code <= 15 {
            Terrain::Foothills
        } else if code == 16 {
            Terrain::SmallHut
        } else if code == 17 {
            Terrain::CodexShrine
        } else if code == 18 {
            Terrain::Keep
        } else if code == 19 {
            Terrain::Village
        } else if code == 20 {
            Terrain::Towne
        } else if code == 21 {
            Terrain::Castle
        } else if code == 22 {
            Terrain::Cave
        } else if code == 23 {
            Terrain::Mine
        } else if code == 24 {
            Terrain::Dungeon
        } else if code == 25 {
            Terrain::Shrine
        } else if code == 26 {
            Terrain::RuinedShrine
        } else if code == 27 {
            Terrain::Lighthouse
        } else if code == 28 {
            Terrain::Oasis
        } else if code == 29 {
            Terrain::Bridge
        } else if 30 <= code <= 31 {
            Terrain::Desert
        } else if 32 <= code <= 38 {
            Terrain::Road
        } else if 39 <= code <= 40 {
            Terrain::Roof
        } else if code == 41 {
            Terrain::CrystalSphere
        } else if code == 42 {
            Terrain::LighthouseLight
        } else if code == 43 {
            Terrain::HollowStump
        } else if code == 44 {
            Terrain::PlowedPatch
        } else if code == 45 {
            Terrain::Crops
        } else if code == 46 {
            Terrain::Tree
        } else if code == 47 {
            Terrain::Cactus
        } else if 48 <= code <= 51 {
            Terrain::Grass
        } else if 52 <= code <= 55 {
            Terrain::Shoals
        } else if code == 56 {
            Terrain::Gargoyle
        } else if 57 <= code <= 63 {
            Terrain::Castle
        } else if code == 64 {
            Terrain::WoodenPlanks
        } else if code == 65 {
            Terrain::Codex
        } else if code == 66 {
            Terrain::Mast
        } else if code == 67 {
            Terrain::Rail
        } else if 68 <= code <= 69 {
            Terrain::Cobble
        } else if code == 70 {
            Terrain::Pillar
        } else if code == 71 {
            Terrain::Pier
        } else if 72 <= code <= 73 {
            Terrain::WoodenPlanks
        } else if code == 74 {
            Terrain::ArrowSlit
        } else if code == 75 {
            Terrain::Window
        } else if code == 76 {
            Terrain::Rocks
        } else if code == 77 {
            Terrain::StoneWall
        } else if code == 78 {
            Terrain::SecretDoor
        } else if code == 79 {
            Terrain::BrickWall
        } else if 80 <= code <= 87 {
            Terrain::Crenellations
        } else if code == 88 {
            Terrain::Anvil
        } else if code == 89 {
            Terrain::Spyglass
        } else if code == 90 {
            Terrain::WindowShelf
        } else if code == 91 {
            Terrain::PottedPlant
        } else if 92 <= code <= 93 {
            Terrain::Bookshelf
        } else if 94 <= code <= 95 {
            Terrain::Guardian
        } else if 96 <= code <= 105 {
            Terrain::River
        } else if 106 <= code <= 107 {
            Terrain::Bridge
        } else if 108 <= code <= 111 {
            Terrain::River
        } else if 112 <= code <= 127 {
            Terrain::StrangeWall
        } else if 128 <= code <= 131 {
            Terrain::Pendulum
        } else if code == 132 {
            Terrain::Stocks
        } else if code == 133 {
            Terrain::Manacles
        } else if code == 134 {
            Terrain::Grate
        } else if code == 135 {
            Terrain::Archway
        } else if code == 136 {
            Terrain::Cannonballs
        } else if code == 137 {
            Terrain::Grave
        } else if code == 138 {
            Terrain::Gravestone
        } else if code == 139 {
            Terrain::Rack
        } else if code == 140 {
            Terrain::Trapdoor
        } else if code == 141 {
            Terrain::Harpsichord
        } else if code == 142 {
            Terrain::Guillotine
        } else if code == 143 {
            Terrain::Lava
        } else if 144 <= code <= 147 {
            Terrain::Chair
        } else if 148 <= code <= 150 {
            Terrain::Table
        } else if code == 151 {
            Terrain::MagicDoor
        } else if code == 152 {
            Terrain::MagicWindowDoor
        } else if code == 153 {
            Terrain::Portcullis
        } else if 154 <= code <= 156 {
            Terrain::TableWithFood
        } else if code == 157 {
            Terrain::Mirror
        } else if code == 158 {
            Terrain::MirrorReflection
        } else if code == 159 {
            Terrain::BrokenMirror
        } else if code == 160 {
            Terrain::Sign
        } else if code == 161 {
            Terrain::Well
        } else if code == 162 {
            Terrain::HitchingPost
        } else if code == 163 {
            Terrain::Logs
        } else if code == 164 {
            Terrain::Marker
        } else if code == 165 {
            Terrain::Desk
        } else if code == 166 {
            Terrain::Barrel
        } else if code == 167 {
            Terrain::Cask
        } else if code == 168 {
            Terrain::VanityTable
        } else if code == 169 {
            Terrain::Pitcher
        } else if code == 170 {
            Terrain::Carpet
        } else if 171 <= code <= 172 {
            Terrain::Bed
        } else if code == 173 {
            Terrain::ChestOfDrawers
        } else if code == 174 {
            Terrain::EndTable
        } else if code == 175 {
            Terrain::Footlocker
        } else if 176 <= code <= 177 {
            Terrain::Torch
        } else if code == 178 {
            Terrain::Brazier
        } else if code == 179 {
            Terrain::Spit
        } else if 180 <= code <= 183 {
            Terrain::Cannon
        } else if code == 184 {
            Terrain::Door
        } else if code == 185 {
            Terrain::LockedDoor
        } else if code == 186 {
            Terrain::WindowDoor
        } else if code == 187 {
            Terrain::LockedWindowDoor
        } else if code == 188 {
            Terrain::Fireplace
        } else if code == 189 {
            Terrain::StreetLamp
        } else if code == 190 {
            Terrain::Candelabrum
        } else if code == 191 {
            Terrain::Stove
        } else if 192 <= code <= 195 {
            Terrain::Unknown
        } else if 196 <= code <= 199 {
            Terrain::Stairs
        } else if 200 <= code <= 201 {
            Terrain::Ladder
        } else if 202 <= code <= 203 {
            Terrain::Fence
        } else if 204 <= code <= 207 {
            Terrain::Unknown
        } else if 208 <= code <= 211 {
            Terrain::Wall
        } else if 212 <= code <= 215 {
            Terrain::Waterfall
        } else if 216 <= code <= 219 {
            Terrain::Fountain
        } else if code == 220 {
            Terrain::MoonGate
        } else if code == 221 {
            Terrain::Desert
        } else if code == 222 {
            Terrain::Flame
        } else if code == 223 {
            Terrain::CollapsedDungeon
        } else if 224 <= code <= 227 {
            Terrain::Flagpole
        } else if 228 <= code <= 231 {
            Terrain::Wall
        } else if 232 <= code <= 235 {
            Terrain::Hourglass
        } else if 236 <= code <= 239 {
            Terrain::Standard
        } else if code == 240 {
            Terrain::ProvisionerSign
        } else if code == 241 {
            Terrain::GovernmentSign
        } else if code == 242 {
            Terrain::ArmourySign
        } else if code == 243 {
            Terrain::HealerSign
        } else if code == 244 {
            Terrain::StableSign
        } else if code == 245 {
            Terrain::GuildSign
        } else if code == 246 {
            Terrain::InnSign
        } else if code == 247 {
            Terrain::ApothecarySign
        } else if code == 248 {
            Terrain::Unknown
        } else if code == 249 {
            Terrain::ShipwrightSign
        } else if 250 <= code <= 251 {
            Terrain::GrandfatherClock
        } else if 252 <= code <= 253 {
            Terrain::Bellows
        } else if code == 254 {
            Terrain::Wall
        } else {
            Terrain::Darkness
        }
    }

    /// Glyph that stands for this terrain in a text dump; `?` for the kinds
    /// that have none of their own.
    pub open spec fn glyph(self) -> char {
        match self {
            Terrain::DeepWater => '\u{224b}',
            Terrain::Water => '\u{2248}',
            Terrain::Shoals => '~',
            Terrain::River => '~',
            Terrain::Swamp => ',',
            Terrain::Grass => '.',
            Terrain::Road => '.',
            Terrain::Brush => '%',
            Terrain::Desert => '.',
            Terrain::HeavyBrush => '%',
            Terrain::Trees => '%',
            Terrain::TropicalForest => '%',
            Terrain::Foothills => '^',
            Terrain::Mountains => '^',
            Terrain::HighPeaks => '^',
            Terrain::Lava => '&',
            Terrain::Cobble => '.',
            Terrain::WoodenPlanks => '.',
            Terrain::Rocks => '*',
            Terrain::StoneWall => '*',
            Terrain::SecretDoor => '#',
            Terrain::BrickWall => '#',
            Terrain::StrangeWall => '#',
            Terrain::Wall => '#',
            Terrain::Mast => '0',
            Terrain::Ladder => '<',
            Terrain::Stairs => '<',
            Terrain::Window => '+',
            Terrain::ArrowSlit => '+',
            Terrain::LockedWindowDoor => '|',
            Terrain::Darkness => ' ',
            _ => '?',
        }
    }

    pub fn code(self) -> (c: usize)
        ensures
            c == self.tile_id(),
    {
        match self {
            Terrain::DeepWater => 1,
            Terrain::Water => 2,
            Terrain::Shoals => 3,
            Terrain::Swamp => 4,
            Terrain::Grass => 5,
            Terrain::Brush => 6,
            Terrain::Desert => 7,
            Terrain::HeavyBrush => 8,
            Terrain::Trees => 9,
            Terrain::TropicalForest => 10,
            Terrain::Foothills => 11,
            Terrain::Mountains => 12,
            Terrain::HighPeaks => 13,
            Terrain::SmallHut => 16,
            Terrain::CodexShrine => 17,
            Terrain::Keep => 18,
            Terrain::Village => 19,
            Terrain::Towne => 20,
            Terrain::Castle => 21,
            Terrain::Cave => 22,
            Terrain::Mine => 23,
            Terrain::Dungeon => 24,
            Terrain::Shrine => 25,
            Terrain::RuinedShrine => 26,
            Terrain::Lighthouse => 27,
            Terrain::Oasis => 28,
            Terrain::Bridge => 29,
            Terrain::Road => 32,
            Terrain::Roof => 39,
            Terrain::CrystalSphere => 41,
            Terrain::LighthouseLight => 42,
            Terrain::HollowStump => 43,
            Terrain::PlowedPatch => 44,
            Terrain::Crops => 45,
            Terrain::Tree => 46,
            Terrain::Cactus => 47,
            Terrain::Gargoyle => 56,
            Terrain::WoodenPlanks => 64,
            Terrain::Codex => 65,
            Terrain::Mast => 66,
            Terrain::Rail => 67,
            Terrain::Cobble => 68,
            Terrain::Pillar => 70,
            Terrain::Pier => 71,
            Terrain::ArrowSlit => 74,
            Terrain::Window => 75,
            Terrain::Rocks => 76,
            Terrain::StoneWall => 77,
            Terrain::SecretDoor => 78,
            Terrain::BrickWall => 79,
            Terrain::Crenellations => 80,
            Terrain::Anvil => 88,
            Terrain::Spyglass => 89,
            Terrain::WindowShelf => 90,
            Terrain::PottedPlant => 91,
            Terrain::Bookshelf => 92,
            Terrain::Guardian => 94,
            Terrain::River => 96,
            Terrain::StrangeWall => 112,
            Terrain::Pendulum => 128,
            Terrain::Stocks => 132,
            Terrain::Manacles => 133,
            Terrain::Grate => 134,
            Terrain::Archway => 135,
            Terrain::Cannonballs => 136,
            Terrain::Grave => 137,
            Terrain::Gravestone => 138,
            Terrain::Rack => 139,
            Terrain::Trapdoor => 140,
            Terrain::Harpsichord => 141,
            Terrain::Guillotine => 142,
            Terrain::Lava => 143,
            Terrain::Chair => 144,
            Terrain::Table => 148,
            Terrain::MagicDoor => 150,
            Terrain::MagicWindowDoor => 151,
            Terrain::Portcullis => 152,
            Terrain::TableWithFood => 153,
            Terrain::Mirror => 157,
            Terrain::MirrorReflection => 158,
            Terrain::BrokenMirror => 159,
            Terrain::Sign => 160,
            Terrain::Well => 161,
            Terrain::HitchingPost => 162,
            Terrain::Logs => 163,
            Terrain::Marker => 164,
            Terrain::Desk => 165,
            Terrain::Barrel => 166,
            Terrain::Cask => 167,
            Terrain::VanityTable => 168,
            Terrain::Pitcher => 169,
            Terrain::Carpet => 170,
            Terrain::Bed => 171,
            Terrain::ChestOfDrawers => 173,
            Terrain::EndTable => 174,
            Terrain::Footlocker => 175,
            Terrain::Torch => 176,
            Terrain::Brazier => 178,
            Terrain::Spit => 179,
            Terrain::Cannon => 180,
            Terrain::Door => 184,
            Terrain::LockedDoor => 185,
            Terrain::WindowDoor => 186,
            Terrain::LockedWindowDoor => 187,
            Terrain::Fireplace => 188,
            Terrain::StreetLamp => 189,
            Terrain::Candelabrum => 190,
            Terrain::Stove => 191,
            Terrain::Stairs => 196,
            Terrain::Ladder => 200,
            Terrain::Fence => 202,
            Terrain::Waterfall => 212,
            Terrain::Fountain => 216,
            Terrain::MoonGate => 220,
            Terrain::Flame => 222,
            Terrain::CollapsedDungeon => 223,
            Terrain::Flagpole => 224,
            Terrain::Hourglass => 232,
            Terrain::Standard => 236,
            Terrain::ProvisionerSign => 240,
            Terrain::GovernmentSign => 241,
            Terrain::ArmourySign => 242,
            Terrain::HealerSign => 243,
            Terrain::StableSign => 244,
            Terrain::GuildSign => 245,
            Terrain::InnSign => 246,
            Terrain::ApothecarySign => 247,
            Terrain::ShipwrightSign => 248,
            Terrain::GrandfatherClock => 249,
            Terrain::Bellows => 252,
            Terrain::Wall => 254,
            Terrain::Darkness => 255,
            Terrain::Chest => 257,
            Terrain::Unknown => 258,
        }
    }

    pub fn from_code(code: u8) -> (t: Terrain)
        ensures
            t == Terrain::of_byte(code),
    {
        if code == 0 {
            Terrain::Unknown
        } else if code == 1 {
            Terrain::DeepWater
        } else if code == 2 {
            Terrain::Water
        } else if code == 3 {
            Terrain::Shoals
        } else if code == 4 {
            Terrain::Swamp
        } else if code == 5 {
            Terrain::Grass
        } else if code == 6 {
            Terrain::Brush
        } else if code == 7 {
            Terrain::Desert
        } else if code == 8 {
            Terrain::HeavyBrush
        } else if code == 9 {
            Terrain::Trees
        } else if code == 10 {
            Terrain::TropicalForest
        } else if code == 11 {
            Terrain::Foothills
        } else if code == 12 {
            Terrain::Mountains
        } else if code == 13 {
            Terrain::HighPeaks
        } else if 14 <= code && code <= 15 {
            Terrain::Foothills
        } else if code == 16 {
            Terrain::SmallHut
        } else if code == 17 {
            Terrain::CodexShrine
        } else if code == 18 {
            Terrain::Keep
        } else if code == 19 {
            Terrain::Village
        } else if code == 20 {
            Terrain::Towne
        } else if code == 21 {
            Terrain::Castle
        } else if code == 22 {
            Terrain::Cave
        } else if code == 23 {
            Terrain::Mine
        } else if code == 24 {
            Terrain::Dungeon
        } else if code == 25 {
            Terrain::Shrine
        } else if code == 26 {
            Terrain::RuinedShrine
        } else if code == 27 {
            Terrain::Lighthouse
        } else if code == 28 {
            Terrain::Oasis
        } else if code == 29 {
            Terrain::Bridge
        } else if 30 <= code && code <= 31 {
            Terrain::Desert
        } else if 32 <= code && code <= 38 {
            Terrain::Road
        } else if 39 <= code && code <= 40 {
            Terrain::Roof
        } else if code == 41 {
            Terrain::CrystalSphere
        } else if code == 42 {
            Terrain::LighthouseLight
        } else if code == 43 {
            Terrain::HollowStump
        } else if code == 44 {
            Terrain::PlowedPatch
        } else if code == 45 {
            Terrain::Crops
        } else if code == 46 {
            Terrain::Tree
        } else if code == 47 {
            Terrain::Cactus
        } else if 48 <= code && code <= 51 {
            Terrain::Grass
        } else if 52 <= code && code <= 55 {
            Terrain::Shoals
        } else if code == 56 {
            Terrain::Gargoyle
        } else if 57 <= code && code <= 63 {
            Terrain::Castle
        } else if code == 64 {
            Terrain::WoodenPlanks
        } else if code == 65 {
            Terrain::Codex
        } else if code == 66 {
            Terrain::Mast
        } else if code == 67 {
            Terrain::Rail
        } else if 68 <= code && code <= 69 {
            Terrain::Cobble
        } else if code == 70 {
            Terrain::Pillar
        } else if code == 71 {
            Terrain::Pier
        } else if 72 <= code && code <= 73 {
            Terrain::WoodenPlanks
        } else if code == 74 {
            Terrain::ArrowSlit
        } else if code == 75 {
            Terrain::Window
        } else if code == 76 {
            Terrain::Rocks
        } else if code == 77 {
            Terrain::StoneWall
        } else if code == 78 {
            Terrain::SecretDoor
        } else if code == 79 {
            Terrain::BrickWall
        } else if 80 <= code && code <= 87 {
            Terrain::Crenellations
        } else if code == 88 {
            Terrain::Anvil
        } else if code == 89 {
            Terrain::Spyglass
        } else if code == 90 {
            Terrain::WindowShelf
        } else if code == 91 {
            Terrain::PottedPlant
        } else if 92 <= code && code <= 93 {
            Terrain::Bookshelf
        } else if 94 <= code && code <= 95 {
            Terrain::Guardian
        } else if 96 <= code && code <= 105 {
            Terrain::River
        } else if 106 <= code && code <= 107 {
            Terrain::Bridge
        } else if 108 <= code && code <= 111 {
            Terrain::River
        } else if 112 <= code && code <= 127 {
            Terrain::StrangeWall
        } else if 128 <= code && code <= 131 {
            Terrain::Pendulum
        } else if code == 132 {
            Terrain::Stocks
        } else if code == 133 {
            Terrain::Manacles
        } else if code == 134 {
            Terrain::Grate
        } else if code == 135 {
            Terrain::Archway
        } else if code == 136 {
            Terrain::Cannonballs
        } else if code == 137 {
            Terrain::Grave
        } else if code == 138 {
            Terrain::Gravestone
        } else if code == 139 {
            Terrain::Rack
        } else if code == 140 {
            Terrain::Trapdoor
        } else if code == 141 {
            Terrain::Harpsichord
        } else if code == 142 {
            Terrain::Guillotine
        } else if code == 143 {
            Terrain::Lava
        } else if 144 <= code && code <= 147 {
            Terrain::Chair
        } else if 148 <= code && code <= 150 {
            Terrain::Table
        } else if code == 151 {
            Terrain::MagicDoor
        } else if code == 152 {
            Terrain::MagicWindowDoor
        } else if code == 153 {
            Terrain::Portcullis
        } else if 154 <= code && code <= 156 {
            Terrain::TableWithFood
        } else if code == 157 {
            Terrain::Mirror
        } else if code == 158 {
            Terrain::MirrorReflection
        } else if code == 159 {
            Terrain::BrokenMirror
        } else if code == 160 {
            Terrain::Sign
        } else if code == 161 {
            Terrain::Well
        } else if code == 162 {
            Terrain::HitchingPost
        } else if code == 163 {
            Terrain::Logs
        } else if code == 164 {
            Terrain::Marker
        } else if code == 165 {
            Terrain::Desk
        } else if code == 166 {
            Terrain::Barrel
        } else if code == 167 {
            Terrain::Cask
        } else if code == 168 {
            Terrain::VanityTable
        } else if code == 169 {
            Terrain::Pitcher
        } else if code == 170 {
            Terrain::Carpet
        } else if 171 <= code && code <= 172 {
            Terrain::Bed
        } else if code == 173 {
            Terrain::ChestOfDrawers
        } else if code == 174 {
            Terrain::EndTable
        } else if code == 175 {
            Terrain::Footlocker
        } else if 176 <= code && code <= 177 {
            Terrain::Torch
        } else if code == 178 {
            Terrain::Brazier
        } else if code == 179 {
            Terrain::Spit
        } else if 180 <= code && code <= 183 {
            Terrain::Cannon
        } else if code == 184 {
            Terrain::Door
        } else if code == 185 {
            Terrain::LockedDoor
        } else if code == 186 {
            Terrain::WindowDoor
        } else if code == 187 {
            Terrain::LockedWindowDoor
        } else if code == 188 {
            Terrain::Fireplace
        } else if code == 189 {
            Terrain::StreetLamp
        } else if code == 190 {
            Terrain::Candelabrum
        } else if code == 191 {
            Terrain::Stove
        } else if 192 <= code && code <= 195 {
            Terrain::Unknown
        } else if 196 <= code && code <= 199 {
            Terrain::Stairs
        } else if 200 <= code && code <= 201 {
            Terrain::Ladder
        } else if 202 <= code && code <= 203 {
            Terrain::Fence
        } else if 204 <= code && code <= 207 {
            Terrain::Unknown
        } else if 208 <= code && code <= 211 {
            Terrain::Wall
        } else if 212 <= code && code <= 215 {
            Terrain::Waterfall
        } else if 216 <= code && code <= 219 {
            Terrain::Fountain
        } else if code == 220 {
            Terrain::MoonGate
        } else if code == 221 {
            Terrain::Desert
        } else if code == 222 {
            Terrain::Flame
        } else if code == 223 {
            Terrain::CollapsedDungeon
        } else if 224 <= code && code <= 227 {
            Terrain::Flagpole
        } else if 228 <= code && code <= 231 {
            Terrain::Wall
        } else if 232 <= code && code <= 235 {
            Terrain::Hourglass
        } else if 236 <= code && code <= 239 {
            Terrain::Standard
        } else if code == 240 {
            Terrain::ProvisionerSign
        } else if code == 241 {
            Terrain::GovernmentSign
        } else if code == 242 {
            Terrain::ArmourySign
        } else if code == 243 {
            Terrain::HealerSign
        } else if code == 244 {
            Terrain::StableSign
        } else if code == 245 {
            Terrain::GuildSign
        } else if code == 246 {
            Terrain::InnSign
        } else if code == 247 {
            Terrain::ApothecarySign
        } else if code == 248 {
            Terrain::Unknown
        } else if code == 249 {
            Terrain::ShipwrightSign
        } else if 250 <= code && code <= 251 {
            Terrain::GrandfatherClock
        } else if 252 <= code && code <= 253 {
            Terrain::Bellows
        } else if code == 254 {
            Terrain::Wall
        } else {
            Terrain::Darkness
        }
    }

    pub fn symbol(self) -> (c: char)
        ensures
            c == self.glyph(),
    {
        match self {
            Terrain::DeepWater => '\u{224b}',
            Terrain::Water => '\u{2248}',
            Terrain::Shoals => '~',
            Terrain::River => '~',
            Terrain::Swamp => ',',
            Terrain::Grass => '.',
            Terrain::Road => '.',
            Terrain::Brush => '%',
            Terrain::Desert => '.',
            Terrain::HeavyBrush => '%',
            Terrain::Trees => '%',
            Terrain::TropicalForest => '%',
            Terrain::Foothills => '^',
            Terrain::Mountains => '^',
            Terrain::HighPeaks => '^',
            Terrain::Lava => '&',
            Terrain::Cobble => '.',
            Terrain::WoodenPlanks => '.',
            Terrain::Rocks => '*',
            Terrain::StoneWall => '*',
            Terrain::SecretDoor => '#',
            Terrain::BrickWall => '#',
            Terrain::StrangeWall => '#',
            Terrain::Wall => '#',
            Terrain::Mast => '0',
            Terrain::Ladder => '<',
            Terrain::Stairs => '<',
            Terrain::Window => '+',
            Terrain::ArrowSlit => '+',
            Terrain::LockedWindowDoor => '|',
            Terrain::Darkness => ' ',
            _ => '?',
        }
    }
}

} // verus!
