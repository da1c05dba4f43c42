//! The control lattice: the coarse square grid of random values from which
//! the fine heights are blended.

use vstd::prelude::*;
use rand::rngs::StdRng;
use rand::Rng;
use crate::fixed::ONE;

verus! {

/// What a lattice must hold to be usable: at least two rows, as many columns
/// as rows, and every value below `ONE`.
pub open spec fn lattice_valid(cells: Seq<Seq<u32>>) -> bool {
    &&& cells.len() >= 2
    &&& forall|i: int| 0 <= i < cells.len() ==> (#[trigger] cells[i]).len() == cells.len()
    &&& forall|i: int, j: int|
        0 <= i < cells.len() && 0 <= j < cells.len() ==> (#[trigger] cells[i][j]) < ONE
}

/// A square grid of control values, each the numerator over `2^24` of a
/// scalar in `[0, 1)`.
#[derive(Clone, Debug, PartialEq, Eq)]
pub struct ControlLattice {
    cells: Vec<Vec<u32>>,
}

impl View for ControlLattice {
    type V = Seq<Seq<u32>>;

    closed spec fn view(&self) -> Seq<Seq<u32>> {
        Seq::new(self.cells@.len(), |i: int| self.cells@[i]@)
    }
}

impl ControlLattice {
    /// The invariant of the type.
    pub open spec fn wf(&self) -> bool {
        lattice_valid(self@)
    }

    /// Number of rows, which is also the number of columns.
    pub open spec fn spec_size(&self) -> nat {
        self@.len()
    }

    /// Takes over `rows` if they form a valid lattice.
    pub fn from_rows(rows: Vec<Vec<u32>>) -> (res: Option<ControlLattice>)
        ensures
            res.is_some() <==> lattice_valid(rows.deep_view()),
            res.is_some() ==> res.unwrap()@ == rows.deep_view() && res.unwrap().wf(),
    {
        let n: usize = rows.len();
        let ghost cells = rows.deep_view();
        assert(cells.len() == n);
        assert forall|i: int| 0 <= i < n implies #[trigger] cells[i] == rows@[i]@ by {}
        if n < 2 {
            return None;
        }
        let mut i: usize = 0;
        while i < n
            invariant
                n == rows.len(),
                n >= 2,
                i <= n,
                cells == rows.deep_view(),
                cells.len() == n,
                forall|k: int| 0 <= k < n ==> #[trigger] cells[k] == rows@[k]@,
                forall|k: int| 0 <= k < i ==> (#[trigger] cells[k]).len() == n,
                forall|k: int, j: int| 0 <= k < i && 0 <= j < n ==> (#[trigger] cells[k][j]) < ONE,
            decreases n - i,
        {
            let row = &rows[i];
            if row.len() != n {
                assert(cells[i as int].len() != cells.len());
                return None;
            }
            let mut j: usize = 0;
            while j < n
                invariant
                    n == rows.len(),
                    i < n,
                    j <= n,
                    row@ == rows@[i as int]@,
                    row.len() == n,
                    cells == rows.deep_view(),
                    cells.len() == n,
                    cells[i as int] == rows@[i as int]@,
                    forall|c: int| 0 <= c < j ==> (#[trigger] cells[i as int][c]) < ONE,
                decreases n - j,
            {
                if row[j] >= 0x100_0000 {
                    assert(!(cells[i as int][j as int] < ONE));
                    return None;
                }
                j += 1;
            }
            i += 1;
        }
        let lattice = ControlLattice { cells: rows };
        assert(lattice@ =~= cells);
        Some(lattice)
    }

    /// Number of rows, which is also the number of columns.
    pub fn size(&self) -> (n: usize)
        requires
            self.wf(),
        ensures
            n == self.spec_size(),
            n >= 2,
    {
        self.cells.len()
    }

    /// The control value in row `i`, column `j`.
    pub fn get(&self, i: usize, j: usize) -> (value: u32)
        requires
            self.wf(),
            i < self.spec_size(),
            j < self.spec_size(),
        ensures
            value == self@[i as int][j as int],
            value < ONE,
    {
        assert(self@[i as int] == self.cells@[i as int]@);
        self.cells[i][j]
    }
}

/// Keeps the 24 most significant bits of a 32-bit random draw: the numerator,
/// over `2^24`, of a uniform sample in `[0, 1)`.
pub fn unit_sample(draw: u32) -> (s: u32)
    ensures
        s == draw / 256,
        s < ONE,
{
    draw / 256
}

/// Draws 32 random bits from `rng` with `rand::Rng::gen`. Nothing is claimed
/// of the bits that come back.
#[verifier::external_body]
fn draw_bits(rng: &mut StdRng) -> (bits: u32) {
    rng.gen::<u32>()
}

/// Fills a `size` by `size` lattice with independent uniform samples of
/// `[0, 1)`, each made of one 32-bit draw from `rng` by `unit_sample`.
pub fn generate_lattice(size: usize, rng: &mut StdRng) -> (lattice: ControlLattice)
    requires
        size >= 2,
    ensures
        lattice.wf(),
        lattice.spec_size() == size,
{
    let mut cells: Vec<Vec<u32>> = Vec::new();
    let mut i: usize = 0;
    while i < size
        invariant
            i <= size,
            cells.len() == i,
            forall|k: int| 0 <= k < i ==> (#[trigger] cells@[k])@.len() == size,
            forall|k: int, j: int| 0 <= k < i && 0 <= j < size ==> (#[trigger] cells@[k]@[j]) < ONE,
        decreases size - i,
    {
        let mut row: Vec<u32> = Vec::new();
        let mut j: usize = 0;
        while j < size
            invariant
                j <= size,
                row.len() == j,
                forall|c: int| 0 <= c < j ==> (#[trigger] row@[c]) < ONE,
            decreases size - j,
        {
            let bits: u32 = draw_bits(rng);
            row.push(unit_sample(bits));
            j += 1;
        }
        cells.push(row);
        i += 1;
    }
    let lattice = ControlLattice { cells };
    assert(lattice@.len() == size);
    assert forall|k: int| 0 <= k < size implies (#[trigger] lattice@[k]).len() == size by {
        assert(lattice@[k] == lattice.cells@[k]@);
    }
    assert forall|k: int, j: int| 0 <= k < size && 0 <= j < size implies (#[trigger] lattice@[k][j])
        < ONE by {
        assert(lattice@[k] == lattice.cells@[k]@);
    }
    lattice
}

/// `rand::rngs::StdRng`, the source of random bits. It is carried through as
/// an opaque value: nothing is claimed of its state.
#[verifier::external_type_specification]
#[verifier::external_body]
pub struct ExStdRng(StdRng);

} // verus!
