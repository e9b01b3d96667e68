//! Materials, their fixed physical properties, and the cell that holds one
//! material at one grid slot.
use crate::random::{lemma_scaled_in_range, scaled, Draws, RandomSource};
use vstd::prelude::*;

verus! {

/// Temperature of a cell that is neither burning nor molten.
pub const AMBIENT_TEMP: i32 = 20;

/// Width of the range from which a new Fire or Lava cell draws its
/// temperature.
pub const HEAT_SPAN: u32 = 1000;

/// Lowest temperature of a new Lava cell.
pub const LAVA_BASE_TEMP: i32 = 1000;

/// The material of a cell.
#[derive(Copy, Clone, Debug, PartialEq, Eq, Structural)]
pub enum CellType {
    /// Empty space.
    Empty,
    /// Solid, immovable.
    Rock,
    /// Solid, immovable, burns.
    Wood,
    /// Granular.
    Sand,
    /// Granular, burns.
    Gunpowder,
    /// Liquid.
    Water,
    /// Liquid lighter than water, burns.
    Oil,
    /// Gas, burns.
    Propane,
    /// Flame: cools, spreads to what burns, and goes out.
    Fire,
    /// Molten liquid: cools to Rock and ignites what burns.
    Lava,
    /// Liquid that dissolves what it touches.
    Acid,
}

/// The fixed properties of one material.
///
/// Density is in hundredths and the thermal coefficient in tenths of the
/// material's nominal value, so that both are whole numbers.
#[derive(Copy, Clone, Debug)]
pub struct CellTypeProperties {
    /// Display name.
    pub name: &'static str,
    /// The material these properties belong to.
    pub cell_type: CellType,
    /// Density, in hundredths: a cell displaces a neighbour of lower density.
    pub density: u32,
    /// Relative pace of temperature-driven behaviour, in tenths.
    pub temp_coefficient: u32,
    /// Whether a burning neighbour can turn the material into Fire.
    pub flammable: bool,
    /// Whether Acid can turn the material into Empty.
    pub dissolvable: bool,
}

/// Density of each material, in hundredths.
pub open spec fn density_of(kind: CellType) -> u32 {
    match kind {
        CellType::Empty => 0,
        CellType::Rock => 300,
        CellType::Wood => 300,
        CellType::Sand => 300,
        CellType::Gunpowder => 300,
        CellType::Water => 100,
        CellType::Oil => 80,
        CellType::Propane => 10,
        CellType::Fire => 1,
        CellType::Lava => 300,
        CellType::Acid => 120,
    }
}

/// Thermal coefficient of each material, in tenths.
pub open spec fn temp_coefficient_of(kind: CellType) -> u32 {
    match kind {
        CellType::Empty => 1,
        CellType::Rock => 1,
        CellType::Wood => 8,
        CellType::Sand => 1,
        CellType::Gunpowder => 200,
        CellType::Water => 4,
        CellType::Oil => 100,
        CellType::Propane => 2000,
        CellType::Fire => 10,
        CellType::Lava => 1000,
        CellType::Acid => 1,
    }
}

/// The materials that a burning neighbour can ignite.
pub open spec fn is_flammable(kind: CellType) -> bool {
    kind == CellType::Wood || kind == CellType::Gunpowder || kind == CellType::Oil || kind
        == CellType::Propane
}

/// The materials that Acid dissolves.
pub open spec fn is_dissolvable(kind: CellType) -> bool {
    kind == CellType::Rock || kind == CellType::Wood || kind == CellType::Sand || kind
        == CellType::Lava
}

/// Display name of each material.
pub open spec fn name_of(kind: CellType) -> &'static str {
    match kind {
        CellType::Empty => "Empty",
        CellType::Rock => "Rock",
        CellType::Wood => "Wood",
        CellType::Sand => "Sand",
        CellType::Gunpowder => "Gunpowder",
        CellType::Water => "Water",
        CellType::Oil => "Oil",
        CellType::Propane => "Propane",
        CellType::Fire => "Fire",
        CellType::Lava => "Lava",
        CellType::Acid => "Acid",
    }
}

/// The registry entry of a material.
pub open spec fn properties_of(kind: CellType) -> CellTypeProperties {
    CellTypeProperties {
        name: name_of(kind),
        cell_type: kind,
        density: density_of(kind),
        temp_coefficient: temp_coefficient_of(kind),
        flammable: is_flammable(kind),
        dissolvable: is_dissolvable(kind),
    }
}

/// Every material but Empty, in palette order.
pub open spec fn palette() -> Seq<CellType> {
    seq![
        CellType::Rock,
        CellType::Wood,
        CellType::Sand,
        CellType::Gunpowder,
        CellType::Water,
        CellType::Oil,
        CellType::Propane,
        CellType::Fire,
        CellType::Lava,
        CellType::Acid,
    ]
}

/// The material that a draw selects for a randomly filled cell: Rock, Sand and
/// Water for one twentieth of the unit interval each, Empty for the rest.
pub open spec fn random_kind(draw: u32) -> CellType {
    let pick = scaled(draw, 20);
    if pick == 0 {
        CellType::Rock
    } else if pick == 1 {
        CellType::Sand
    } else if pick == 2 {
        CellType::Water
    } else {
        CellType::Empty
    }
}

impl CellType {
    /// A material chosen by the next draw, mostly Empty.
    pub fn random(rng: &mut RandomSource) -> (kind: CellType)
        ensures
            kind == random_kind(old(rng)@.peek()),
            final(rng)@ == old(rng)@.rest(),
    {
        let pick: u32 = rng.next_below(20);
        if pick == 0 {
            CellType::Rock
        } else if pick == 1 {
            CellType::Sand
        } else if pick == 2 {
            CellType::Water
        } else {
            CellType::Empty
        }
    }

    /// Every material but Empty, in a fixed order: the palette.
    pub fn iter() -> (kinds: [CellType; 10])
        ensures
            kinds@ == palette(),
    {
        let kinds = [
            CellType::Rock,
            CellType::Wood,
            CellType::Sand,
            CellType::Gunpowder,
            CellType::Water,
            CellType::Oil,
            CellType::Propane,
            CellType::Fire,
            CellType::Lava,
            CellType::Acid,
        ];
        assert(kinds@ =~= palette());
        kinds
    }

    /// Looks up the registry entry of a material. Every material has one.
    pub fn get_properties(cell_type: CellType) -> (props: CellTypeProperties)
        ensures
            props == properties_of(cell_type),
    {
        match cell_type {
            CellType::Empty => CellTypeProperties {
                name: "Empty",
                cell_type,
                density: 0,
                temp_coefficient: 1,
                flammable: false,
                dissolvable: false,
            },
            CellType::Rock => CellTypeProperties {
                name: "Rock",
                cell_type,
                density: 300,
                temp_coefficient: 1,
                flammable: false,
                dissolvable: true,
            },
            CellType::Wood => CellTypeProperties {
                name: "Wood",
                cell_type,
                density: 300,
                temp_coefficient: 8,
                flammable: true,
                dissolvable: true,
            },
            CellType::Sand => CellTypeProperties {
                name: "Sand",
                cell_type,
                density: 300,
                temp_coefficient: 1,
                flammable: false,
                dissolvable: true,
            },
            CellType::Gunpowder => CellTypeProperties {
                name: "Gunpowder",
                cell_type,
                density: 300,
                temp_coefficient: 200,
                flammable: true,
                dissolvable: false,
            },
            CellType::Water => CellTypeProperties {
                name: "Water",
                cell_type,
                density: 100,
                temp_coefficient: 4,
                flammable: false,
                dissolvable: false,
            },
            CellType::Oil => CellTypeProperties {
                name: "Oil",
                cell_type,
                density: 80,
                temp_coefficient: 100,
                flammable: true,
                dissolvable: false,
            },
            CellType::Propane => CellTypeProperties {
                name: "Propane",
                cell_type,
                density: 10,
                temp_coefficient: 2000,
                flammable: true,
                dissolvable: false,
            },
            CellType::Fire => CellTypeProperties {
                name: "Fire",
                cell_type,
                density: 1,
                temp_coefficient: 10,
                flammable: false,
                dissolvable: false,
            },
            CellType::Lava => CellTypeProperties {
                name: "Lava",
                cell_type,
                density: 300,
                temp_coefficient: 1000,
                flammable: false,
                dissolvable: true,
            },
            CellType::Acid => CellTypeProperties {
                name: "Acid",
                cell_type,
                density: 120,
                temp_coefficient: 1,
                flammable: false,
                dissolvable: false,
            },
        }
    }
}

/// The palette holds every material but Empty, each exactly once.
pub proof fn lemma_palette_complete()
    ensures
        palette().len() == 10,
        !palette().contains(CellType::Empty),
        forall|kind: CellType| kind != CellType::Empty ==> palette().contains(kind),
        palette().no_duplicates(),
        forall|kind: CellType| properties_of(kind).cell_type == kind,
{
    let p = palette();
    assert(p[0] == CellType::Rock);
    assert(p[1] == CellType::Wood);
    assert(p[2] == CellType::Sand);
    assert(p[3] == CellType::Gunpowder);
    assert(p[4] == CellType::Water);
    assert(p[5] == CellType::Oil);
    assert(p[6] == CellType::Propane);
    assert(p[7] == CellType::Fire);
    assert(p[8] == CellType::Lava);
    assert(p[9] == CellType::Acid);
}

/// Empty weighs nothing, does not burn and does not dissolve.
pub proof fn lemma_empty_is_inert()
    ensures
        density_of(CellType::Empty) == 0,
        !is_flammable(CellType::Empty),
        !is_dissolvable(CellType::Empty),
        forall|kind: CellType| kind != CellType::Empty ==> density_of(kind) > 0,
{
}

/// The state of one grid slot.
#[derive(Copy, Clone, Debug, PartialEq, Eq, Structural)]
pub struct Cell {
    /// The material in the slot.
    pub cell_type: CellType,
    /// The generation at which the slot was last handled.
    pub generation: u8,
    /// Temperature; what it means depends on the material.
    pub temp: i32,
}

/// An Empty cell at ambient temperature that has never been handled.
pub open spec fn blank_cell() -> Cell {
    Cell { cell_type: CellType::Empty, generation: 0, temp: AMBIENT_TEMP }
}

/// The temperature at which a cell of the given material starts, and the draws
/// left afterwards: Lava and Fire take one draw, the others none.
pub open spec fn initial_temp(kind: CellType, draws: Draws) -> (int, Draws) {
    match kind {
        CellType::Lava => (LAVA_BASE_TEMP + scaled(draws.peek(), HEAT_SPAN), draws.rest()),
        CellType::Fire => (scaled(draws.peek(), HEAT_SPAN), draws.rest()),
        _ => (AMBIENT_TEMP as int, draws),
    }
}

/// The cell after it has been made into the given material: the stamp stays,
/// the temperature starts afresh.
pub open spec fn init_cell(cell: Cell, kind: CellType, draws: Draws) -> (Cell, Draws) {
    let (temp, rest) = initial_temp(kind, draws);
    (Cell { cell_type: kind, generation: cell.generation, temp: temp as i32 }, rest)
}

/// A new cell's temperature fits the cell: at most 1999.
pub proof fn lemma_initial_temp_in_range(kind: CellType, draws: Draws)
    ensures
        0 <= initial_temp(kind, draws).0 < 2000,
        kind == CellType::Lava ==> 1000 <= initial_temp(kind, draws).0,
        kind == CellType::Fire ==> initial_temp(kind, draws).0 < 1000,
        kind != CellType::Lava && kind != CellType::Fire ==> initial_temp(kind, draws).0 == 20,
{
    lemma_scaled_in_range(draws.peek(), HEAT_SPAN);
}

impl Cell {
    /// An Empty cell at ambient temperature, never handled.
    pub fn empty() -> (cell: Cell)
        ensures
            cell == blank_cell(),
    {
        Cell { cell_type: CellType::Empty, generation: 0, temp: AMBIENT_TEMP }
    }

    /// A cell of a material chosen by the next draw, at ambient temperature.
    pub fn random(rng: &mut RandomSource) -> (cell: Cell)
        ensures
            cell == (Cell {
                cell_type: random_kind(old(rng)@.peek()),
                generation: 0,
                temp: AMBIENT_TEMP,
            }),
            final(rng)@ == old(rng)@.rest(),
    {
        Cell { cell_type: CellType::random(rng), temp: AMBIENT_TEMP, generation: 0 }
    }

    /// Makes the cell into the given material and sets the temperature that
    /// the material starts at.
    pub fn init(&mut self, cell_type: CellType, rng: &mut RandomSource)
        ensures
            *final(self) == init_cell(*old(self), cell_type, old(rng)@).0,
            final(rng)@ == init_cell(*old(self), cell_type, old(rng)@).1,
            final(self).cell_type == cell_type,
            final(self).generation == old(self).generation,
            cell_type == CellType::Lava ==> 1000 <= final(self).temp < 2000,
            cell_type == CellType::Fire ==> 0 <= final(self).temp < 1000,
            cell_type != CellType::Lava && cell_type != CellType::Fire ==> final(self).temp
                == AMBIENT_TEMP,
    {
        self.cell_type = cell_type;
        match cell_type {
            CellType::Lava => {
                let heat: u32 = rng.next_below(HEAT_SPAN);
                self.temp = LAVA_BASE_TEMP + heat as i32;
            },
            CellType::Fire => {
                let heat: u32 = rng.next_below(HEAT_SPAN);
                self.temp = heat as i32;
            },
            _ => {
                self.temp = AMBIENT_TEMP;
            },
        }
    }

    /// The registry entry of the cell's material.
    pub fn get_properties(&self) -> (props: CellTypeProperties)
        ensures
            props == properties_of(self.cell_type),
    {
        CellType::get_properties(self.cell_type)
    }
}

} // verus!
