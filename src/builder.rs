//! The integer choices of the built-in scenes.

use vstd::prelude::*;

verus! {

/// The built-in scenes.
#[derive(Clone, Copy, Debug, PartialEq, Eq, Structural)]
pub enum BuiltIn {
    /// Five spheres: a diffuse one, the ground, a metal one and a hollow glass one.
    Default,
    /// A large ground sphere, a grid of small random spheres and three large ones.
    Random,
}

/// The kinds of material.
#[derive(Clone, Copy, Debug, PartialEq, Eq, Structural)]
pub enum MaterialKind {
    Lambertian,
    Metal,
    Dielectric,
}

/// The half-width of the grid of small spheres: cells run from `-GRID` to `GRID - 1`.
pub const GRID: i32 = 11;

/// The number of cells on one side of the grid.
pub const GRID_SIDE: usize = 22;

/// The kind of a small sphere whose roll, out of 100, is `roll`: 80 in 100
/// diffuse, 15 metal, 5 glass.
pub open spec fn kind_spec(roll: int) -> MaterialKind {
    if roll < 80 {
        MaterialKind::Lambertian
    } else if roll < 95 {
        MaterialKind::Metal
    } else {
        MaterialKind::Dielectric
    }
}

/// The cell at position `i` of the grid walk: the first coordinate in the
/// outer loop, the second in the inner one, both ascending.
pub open spec fn cell_spec(i: int) -> (i32, i32) {
    ((i / GRID_SIDE as int - GRID) as i32, (i % GRID_SIDE as int - GRID) as i32)
}

impl BuiltIn {
    /// The scene with five spheres.
    pub fn default() -> (r: BuiltIn)
        ensures
            r == BuiltIn::Default,
    {
        BuiltIn::Default
    }

    /// The scene with a random grid of spheres.
    pub fn random() -> (r: BuiltIn)
        ensures
            r == BuiltIn::Random,
    {
        BuiltIn::Random
    }

    /// The width and height of the rendered image.
    pub fn image_size(&self) -> (r: (i32, i32))
        ensures
            *self == BuiltIn::Default ==> r == (200i32, 100i32),
            *self == BuiltIn::Random ==> r == (1024i32, 512i32),
    {
        match self {
            BuiltIn::Default => (200, 100),
            BuiltIn::Random => (1024, 512),
        }
    }

    /// The width and height whose ratio gives the camera's aspect: both scenes
    /// frame a 200 by 100 view.
    pub fn camera_size(&self) -> (r: (i32, i32))
        ensures
            r == (200i32, 100i32),
    {
        (200, 100)
    }
}

/// The kind of material that a roll out of 100 selects.
pub fn material_kind(roll: i32) -> (r: MaterialKind)
    requires
        0 <= roll < 100,
    ensures
        r == kind_spec(roll as int),
{
    if roll < 80 {
        MaterialKind::Lambertian
    } else if roll < 95 {
        MaterialKind::Metal
    } else {
        MaterialKind::Dielectric
    }
}

/// The cells of the grid of small spheres, in the order they are visited.
pub fn grid_cells() -> (r: Vec<(i32, i32)>)
    ensures
        r@.len() == GRID_SIDE * GRID_SIDE,
        forall|i: int| 0 <= i < r@.len() ==> #[trigger] r@[i] == cell_spec(i),
{
    let mut cells: Vec<(i32, i32)> = Vec::new();
    let mut a: i32 = -GRID;
    while a < GRID
        invariant
            -GRID <= a <= GRID,
            cells@.len() == (a + GRID) * GRID_SIDE,
            forall|i: int| 0 <= i < cells@.len() ==> #[trigger] cells@[i] == cell_spec(i),
        decreases GRID - a,
    {
        let mut b: i32 = -GRID;
        while b < GRID
            invariant
                -GRID <= a < GRID,
                -GRID <= b <= GRID,
                cells@.len() == (a + GRID) * GRID_SIDE + (b + GRID),
                forall|i: int| 0 <= i < cells@.len() ==> #[trigger] cells@[i] == cell_spec(i),
            decreases GRID - b,
        {
            proof {
                let n = cells@.len() as int;
                assert(n / 22 == a + 11 && n % 22 == b + 11) by (nonlinear_arith)
                    requires
                        n == (a + 11) * 22 + (b + 11),
                        0 <= b + 11 < 22,
                        0 <= a + 11,
                ;
            }
            cells.push((a, b));
            b = b + 1;
        }
        a = a + 1;
    }
    cells
}

} // verus!
