//! The host array: a contiguous buffer addressed by coordinates.
//!
//! Access by coordinates is checked: `get`, `get_mut` and `set` report
//! `Error::OutOfBounds` for a coordinate sequence that does not name an
//! element, and never read or write outside the element it names.

use vstd::prelude::*;
use crate::error::Error;
use crate::shape::{
    checked_offset, checked_volume, compute_dim_steps, in_bounds, lemma_offset_in_range, offset,
    stored_strides, volume,
};

verus! {

/// What an array is, mathematically: its shape, its stored strides and its
/// elements in row-major order.
pub struct ArrayView<T> {
    pub shape: Seq<usize>,
    pub dim_steps: Seq<usize>,
    pub buffer: Seq<T>,
}

impl<T> ArrayView<T> {
    /// The array of the given shape and elements.
    pub open spec fn of(shape: Seq<usize>, buffer: Seq<T>) -> ArrayView<T> {
        ArrayView { shape: shape, dim_steps: stored_strides(shape), buffer: buffer }
    }

    /// The strides are those of the shape, and the buffer holds exactly as
    /// many elements as the shape has, which is a number that fits in
    /// `usize`.
    pub open spec fn wf(self) -> bool {
        &&& self.dim_steps == stored_strides(self.shape)
        &&& self.buffer.len() == volume(self.shape)
        &&& self.buffer.len() <= usize::MAX
    }

    /// The same elements under another shape.
    pub open spec fn reshaped(self, shape: Seq<usize>) -> ArrayView<T> {
        ArrayView::of(shape, self.buffer)
    }

    /// The same array with the element at `coords` replaced.
    pub open spec fn with_element(self, coords: Seq<usize>, value: T) -> ArrayView<T> {
        ArrayView {
            shape: self.shape,
            dim_steps: self.dim_steps,
            buffer: self.buffer.update(offset(self.shape, coords) as int, value),
        }
    }

    /// The element at `coords`.
    pub open spec fn element(self, coords: Seq<usize>) -> T {
        self.buffer[offset(self.shape, coords) as int]
    }
}

/// Reshaping keeps the elements and their number, and reshaping back to the
/// first shape restores the array: shape, strides and elements.
pub proof fn lemma_reshape_round_trip<T>(array: ArrayView<T>, shape: Seq<usize>)
    requires
        array.wf(),
        volume(shape) == array.buffer.len(),
    ensures
        array.reshaped(shape).wf(),
        array.reshaped(shape).shape == shape,
        array.reshaped(shape).buffer == array.buffer,
        array.reshaped(shape).reshaped(array.shape) == array,
{
}

/// An n-dimensional array on the host.
pub struct Array<T> {
    shape: Vec<usize>,
    dim_steps: Vec<usize>,
    buffer: Vec<T>,
}

impl<T> View for Array<T> {
    type V = ArrayView<T>;

    closed spec fn view(&self) -> ArrayView<T> {
        ArrayView { shape: self.shape@, dim_steps: self.dim_steps@, buffer: self.buffer@ }
    }
}

impl<T> Array<T> {
    /// The invariant of the type, stated on the view.
    pub open spec fn wf(&self) -> bool {
        self@.wf()
    }

    /// An array of the given shape with every element a clone of `initial`.
    ///
    /// Fails with `Error::Allocation` exactly when the number of elements
    /// does not fit in `usize`.
    pub fn new(shape: Vec<usize>, initial: T) -> (made: Result<Array<T>, Error>) where T: Clone
        ensures
            match made {
                Ok(a) => {
                    &&& volume(shape@) <= usize::MAX
                    &&& a.wf()
                    &&& a@.shape == shape@
                    &&& forall|i: int|
                        0 <= i < a@.buffer.len() ==> cloned(initial, #[trigger] a@.buffer[i])
                },
                Err(e) => volume(shape@) > usize::MAX && e == Error::Allocation,
            },
    {
        match checked_volume(shape.as_slice()) {
            Some(count) => {
                let dim_steps = compute_dim_steps(shape.as_slice());
                let buffer = vec![initial; count];
                Ok(Array { shape: shape, dim_steps: dim_steps, buffer: buffer })
            },
            None => Err(Error::Allocation),
        }
    }

    /// An array of the given shape over the given elements, in row-major
    /// order.
    ///
    /// Fails with `Error::ShapeMismatch` exactly when the number of elements
    /// is not the volume of the shape.
    pub fn from_vec(shape: Vec<usize>, vec: Vec<T>) -> (made: Result<Array<T>, Error>)
        ensures
            match made {
                Ok(a) => {
                    &&& vec@.len() == volume(shape@)
                    &&& a@ == ArrayView::of(shape@, vec@)
                    &&& a.wf()
                },
                Err(e) => vec@.len() != volume(shape@) && e == Error::ShapeMismatch,
            },
    {
        let len: usize = vec.len();
        match checked_volume(shape.as_slice()) {
            Some(count) => {
                if count != len {
                    return Err(Error::ShapeMismatch);
                }
            },
            None => {
                return Err(Error::ShapeMismatch);
            },
        }
        let dim_steps = compute_dim_steps(shape.as_slice());
        Ok(Array { shape: shape, dim_steps: dim_steps, buffer: vec })
    }

    /// Gives the array another shape over the same elements.
    ///
    /// Fails with `Error::ShapeMismatch`, leaving the array as it was,
    /// exactly when the volume of the new shape is not the number of
    /// elements.
    pub fn reshape(&mut self, new_shape: Vec<usize>) -> (done: Result<(), Error>)
        requires
            old(self).wf(),
        ensures
            final(self).wf(),
            match done {
                Ok(_) => {
                    &&& volume(new_shape@) == old(self)@.buffer.len()
                    &&& final(self)@ == old(self)@.reshaped(new_shape@)
                },
                Err(e) => {
                    &&& volume(new_shape@) != old(self)@.buffer.len()
                    &&& e == Error::ShapeMismatch
                    &&& final(self)@ == old(self)@
                },
            },
    {
        match checked_volume(new_shape.as_slice()) {
            Some(count) => {
                if count != self.buffer.len() {
                    return Err(Error::ShapeMismatch);
                }
            },
            None => {
                return Err(Error::ShapeMismatch);
            },
        }
        self.dim_steps = compute_dim_steps(new_shape.as_slice());
        self.shape = new_shape;
        Ok(())
    }

    /// The position in the buffer of the element at `coords`, or `None` when
    /// `coords` does not name an element.
    fn locate(&self, coords: &[usize]) -> (index: Option<usize>)
        requires
            self.wf(),
        ensures
            match index {
                Some(i) => {
                    &&& in_bounds(self@.shape, coords@)
                    &&& i == offset(self@.shape, coords@)
                    &&& i < self@.buffer.len()
                },
                None => !in_bounds(self@.shape, coords@),
            },
    {
        let index = checked_offset(self.shape.as_slice(), self.dim_steps.as_slice(), coords);
        proof {
            if in_bounds(self.shape@, coords@) {
                lemma_offset_in_range(self.shape@, coords@);
            }
        }
        index
    }

    /// The element at `coords`, or `Error::OutOfBounds` when `coords` does
    /// not name an element.
    pub fn get(&self, coords: &[usize]) -> (element: Result<&T, Error>)
        requires
            self.wf(),
        ensures
            match element {
                Ok(e) => in_bounds(self@.shape, coords@) && *e == self@.element(coords@),
                Err(err) => !in_bounds(self@.shape, coords@) && err == Error::OutOfBounds,
            },
    {
        match self.locate(coords) {
            Some(index) => Ok(&self.buffer[index]),
            None => Err(Error::OutOfBounds),
        }
    }

    /// Mutable access to the element at `coords`, or `Error::OutOfBounds`
    /// when `coords` does not name an element. Nothing but that element can
    /// change through the reference.
    pub fn get_mut(&mut self, coords: &[usize]) -> (element: Result<&mut T, Error>)
        requires
            old(self).wf(),
        ensures
            match element {
                Ok(e) => {
                    &&& in_bounds(old(self)@.shape, coords@)
                    &&& *e == old(self)@.element(coords@)
                    &&& final(self)@ == old(self)@.with_element(coords@, *final(e))
                    &&& final(self).wf()
                },
                Err(err) => {
                    &&& !in_bounds(old(self)@.shape, coords@)
                    &&& err == Error::OutOfBounds
                    &&& final(self)@ == old(self)@
                },
            },
    {
        match self.locate(coords) {
            Some(index) => Ok(&mut self.buffer[index]),
            None => Err(Error::OutOfBounds),
        }
    }

    /// Stores `value` at `coords`, or reports `Error::OutOfBounds` and leaves
    /// the array as it was when `coords` does not name an element.
    pub fn set(&mut self, coords: &[usize], value: T) -> (done: Result<(), Error>)
        requires
            old(self).wf(),
        ensures
            final(self).wf(),
            match done {
                Ok(_) => {
                    &&& in_bounds(old(self)@.shape, coords@)
                    &&& final(self)@ == old(self)@.with_element(coords@, value)
                },
                Err(err) => {
                    &&& !in_bounds(old(self)@.shape, coords@)
                    &&& err == Error::OutOfBounds
                    &&& final(self)@ == old(self)@
                },
            },
    {
        match self.locate(coords) {
            Some(index) => {
                self.buffer[index] = value;
                Ok(())
            },
            None => Err(Error::OutOfBounds),
        }
    }

    /// The size of each dimension.
    pub fn shape(&self) -> (sizes: &[usize])
        ensures
            sizes@ == self@.shape,
    {
        self.shape.as_slice()
    }

    /// The stride of each dimension.
    pub fn dim_steps(&self) -> (steps: &[usize])
        ensures
            steps@ == self@.dim_steps,
    {
        self.dim_steps.as_slice()
    }

    /// The elements in row-major order.
    pub fn buffer(&self) -> (elements: &[T])
        ensures
            elements@ == self@.buffer,
    {
        self.buffer.as_slice()
    }

    /// The elements in row-major order, for writing. What is written to the
    /// slice is written to the array; the shape and the strides stay as they
    /// are.
    pub fn buffer_mut(&mut self) -> (elements: &mut [T])
        ensures
            elements@ == old(self)@.buffer,
            final(self)@ == (ArrayView {
                shape: old(self)@.shape,
                dim_steps: old(self)@.dim_steps,
                buffer: final(elements)@,
            }),
    {
        self.buffer.as_mut_slice()
    }
}

} // verus!
