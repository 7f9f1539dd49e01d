//! Snapshots built from a grid of species identifiers.

use vstd::prelude::*;
use ndarray::{ArrayD, IxDyn};
use crate::scalar::Scalar;
use crate::state::system_state::{
    arranged_mass,
    arranged_state,
    nonzero_volume,
    sanitized,
    volume,
    Field,
    FieldView,
    Mode,
    StateView,
    SystemState,
};
use crate::vector::zeros;

verus! {

/// A grid of arbitrary shape whose cells name the species that live there:
/// zero for a vacant cell, `i` for species `i`.
///
/// The cells are held in an `ndarray::ArrayD<usize>`. What is known of a grid
/// is what [`grid_shape`] and [`grid_cells`] say of it.
#[verifier::external_body]
pub struct SpeciesGrid {
    array: ArrayD<usize>,
}

/// The cells of a grid in logical order, the rightmost index varying fastest.
pub uninterp spec fn grid_cells(grid: SpeciesGrid) -> Seq<usize>;

/// The lengths of the axes of a grid.
pub uninterp spec fn grid_shape(grid: SpeciesGrid) -> Seq<usize>;

/// Builds the grid with `ArrayD::from_shape_vec` on the dynamic dimension of
/// `shape`. That call accepts a shape whose non-zero axis lengths multiply to
/// at most `isize::MAX` and whose number of positions is the number of cells
/// given, and refuses every other; the array it returns has that shape and
/// holds the cells in the order given.
#[verifier::external_body]
fn grid_from_parts(shape: &[usize], cells: Vec<usize>) -> (grid: Option<SpeciesGrid>)
    ensures
        grid.is_some() == (nonzero_volume(shape@) <= isize::MAX && volume(shape@) == cells@.len()),
        grid.is_some() ==> grid_shape(grid.unwrap()) == shape@ && grid_cells(grid.unwrap())
            == cells@,
{
    match ArrayD::from_shape_vec(IxDyn(shape), cells) {
        Ok(array) => Some(SpeciesGrid { array }),
        Err(_) => None,
    }
}

/// Reads the cells with `ArrayBase::iter`, which visits every element once,
/// in logical order: what comes back is what [`grid_cells`] names. An array
/// has one element for every position of its shape.
#[verifier::external_body]
fn cells_in_order(grid: &SpeciesGrid) -> (cells: Vec<usize>)
    ensures
        cells@ == grid_cells(*grid),
        cells@.len() == volume(grid_shape(*grid)),
{
    grid.array.iter().copied().collect()
}

/// Reads the axis lengths with `ArrayBase::shape`: what comes back is what
/// [`grid_shape`] names.
#[verifier::external_body]
fn axis_lengths(grid: &SpeciesGrid) -> (shape: Vec<usize>)
    ensures
        shape@ == grid_shape(*grid),
{
    grid.array.shape().to_vec()
}

impl SpeciesGrid {
    /// A grid of the given shape over the given cells, in logical order.
    /// `None` where the shape does not have exactly as many positions as
    /// there are cells, or where its non-zero axis lengths multiply to more
    /// than `isize::MAX`.
    pub fn new(shape: &[usize], cells: Vec<usize>) -> (grid: Option<Self>)
        ensures
            grid is Some <==> nonzero_volume(shape@) <= isize::MAX && volume(shape@)
                == cells@.len(),
            grid is Some ==> grid_shape(grid->0) == shape@ && grid_cells(grid->0) == cells@,
    {
        grid_from_parts(shape, cells)
    }

    /// The cells in logical order.
    pub fn cells(&self) -> (cells: Vec<usize>)
        ensures
            cells@ == grid_cells(*self),
            cells@.len() == volume(grid_shape(*self)),
    {
        cells_in_order(self)
    }

    /// The lengths of the axes.
    pub fn shape(&self) -> (shape: Vec<usize>)
        ensures
            shape@ == grid_shape(*self),
    {
        axis_lengths(self)
    }
}

/// The largest species identifier on a grid; zero where every cell is vacant.
pub open spec fn largest(cells: Seq<usize>) -> usize
    decreases cells.len(),
{
    if cells.len() == 0 {
        0
    } else if cells.last() > largest(cells.drop_last()) {
        cells.last()
    } else {
        largest(cells.drop_last())
    }
}

/// The head count of one species: one added to zero for every cell that
/// names it.
pub open spec fn tally<T: Scalar>(cells: Seq<usize>, species: int) -> T
    decreases cells.len(),
{
    if cells.len() == 0 {
        T::zero_spec()
    } else if cells.last() == species {
        tally::<T>(cells.drop_last(), species).add_spec(T::one_spec())
    } else {
        tally::<T>(cells.drop_last(), species)
    }
}

/// The head counts of all species up to the largest one on the grid.
pub open spec fn census<T: Scalar>(cells: Seq<usize>) -> Seq<T> {
    Seq::new(largest(cells) as nat, |i: int| tally::<T>(cells, i + 1))
}

/// The spatial field that stands for a grid: the same shape, every species
/// identifier turned into a number.
pub open spec fn field_of_grid<T: Scalar>(shape: Seq<usize>, cells: Seq<usize>) -> FieldView<T> {
    FieldView { shape, cells: Seq::new(cells.len(), |i: int| T::from_u64_spec(cells[i] as u64)) }
}

/// The snapshot that `from_grid` builds: the census of the grid arranged for
/// the mode, with the grid as its spatial field, and sanitized in `Frequency`
/// mode.
pub open spec fn gridded<T: Scalar>(
    mode: Mode<T>,
    time: usize,
    shape: Seq<usize>,
    cells: Seq<usize>,
) -> StateView<T> {
    let counted = StateView {
        mode,
        time,
        state: arranged_state(mode, census::<T>(cells)),
        space: Some(field_of_grid::<T>(shape, cells)),
        mass: arranged_mass(mode, census::<T>(cells)),
    };
    match mode {
        Mode::Frequency { cutoff } => sanitized(counted),
        Mode::Population { cutoff, carrying_capacity } => counted,
    }
}

/// No cell names a species beyond the largest one.
pub proof fn lemma_largest_bounds(cells: Seq<usize>, k: int)
    requires
        0 <= k < cells.len(),
    ensures
        cells[k] <= largest(cells),
    decreases cells.len(),
{
    if k < cells.len() - 1 {
        lemma_largest_bounds(cells.drop_last(), k);
    }
}

impl<T: Scalar> SystemState<T> {
    /// Builds a snapshot from a grid of species identifiers (zero for a vacant
    /// cell). There is one taxon for every identifier up to the largest on
    /// the grid, its entry counts the cells that name it, and the grid itself
    /// becomes the spatial field. In `Frequency` mode the result is
    /// sanitized.
    pub fn from_grid(mode: Mode<T>, time: usize, grid: &SpeciesGrid) -> (gs: Self)
        ensures
            gs@ == gridded(mode, time, grid_shape(*grid), grid_cells(*grid)),
            gs.space is Some && gs.space->0.wf(),
    {
        let cells = grid.cells();
        let shape = grid.shape();
        let n = cells.len();

        let mut num_taxa: usize = 0;
        let mut k: usize = 0;
        while k < n
            invariant
                k <= n,
                n == cells@.len(),
                num_taxa == largest(cells@.take(k as int)),
            decreases n - k,
        {
            assert(cells@.take(k as int + 1).drop_last() =~= cells@.take(k as int));
            if cells[k] > num_taxa {
                num_taxa = cells[k];
            }
            k += 1;
        }
        assert(cells@.take(n as int) =~= cells@);

        let mut state: Vec<T> = zeros(num_taxa);
        let one = T::one();
        let mut k: usize = 0;
        while k < n
            invariant
                k <= n,
                n == cells@.len(),
                num_taxa == largest(cells@),
                one == T::one_spec(),
                state@.len() == num_taxa,
                forall|i: int|
                    0 <= i < num_taxa ==> state@[i] == tally::<T>(cells@.take(k as int), i + 1),
            decreases n - k,
        {
            let cell = cells[k];
            proof {
                lemma_largest_bounds(cells@, k as int);
                assert(cells@.take(k as int + 1).drop_last() =~= cells@.take(k as int));
            }
            if cell != 0 {
                let idx = cell - 1;
                let count = state[idx];
                state[idx] = count.add(one);
            }
            k += 1;
        }
        assert(cells@.take(n as int) =~= cells@);
        assert(state@ =~= census::<T>(cells@));

        let mut values: Vec<T> = Vec::new();
        let mut k: usize = 0;
        while k < n
            invariant
                k <= n,
                n == cells@.len(),
                values@.len() == k,
                forall|i: int| 0 <= i < k ==> values@[i] == T::from_u64_spec(cells@[i] as u64),
            decreases n - k,
        {
            values.push(T::from_u64(cells[k] as u64));
            k += 1;
        }
        let field = Field { shape, cells: values };
        assert(field@ =~= field_of_grid::<T>(grid_shape(*grid), cells@)) by {
            assert(field@.cells =~= field_of_grid::<T>(grid_shape(*grid), cells@).cells);
        }

        let mut gs = Self::from_arrays(mode, time, state, Some(field));
        if let Mode::Frequency { .. } = gs.mode {
            gs.sanitize();
        }
        gs
    }
}

} // verus!
