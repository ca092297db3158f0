//! The device tensor: the host-side record of a buffer that lives in a
//! compute context.
//!
//! The context itself is outside this library. Each operation here decides
//! what has to be asked of the context and what follows from its answer; the
//! caller carries the request to the context and brings the answer back as a
//! plain value: the handle of an allocated buffer, or the elements that were
//! read from one.

use vstd::prelude::*;
use vstd::slice::slice_to_vec;
use core::marker::PhantomData;
use crate::array::{Array, ArrayView};
use crate::error::Error;
use crate::shape::{checked_volume, compute_dim_steps, stored_strides, volume};

verus! {

/// The directions in which a tensor is synchronised with the host.
#[derive(Clone, Copy, Debug, PartialEq, Eq, Structural)]
pub enum TensorMode {
    /// Host to device: filled from a host array when it is created.
    In,
    /// Device only: created empty, to receive the output of a kernel.
    Out,
    /// Both directions: filled from a host array and read back later.
    Mut,
}

impl TensorMode {
    /// Whether a tensor of this mode is filled from the host array it is
    /// created from.
    pub open spec fn spec_uploads(self) -> bool {
        self is In || self is Mut
    }

    /// Whether a tensor of this mode is filled from the host array it is
    /// created from.
    #[verifier::when_used_as_spec(spec_uploads)]
    pub fn uploads(self) -> (yes: bool)
        ensures
            yes == self.spec_uploads(),
    {
        match self {
            TensorMode::In => true,
            TensorMode::Out => false,
            TensorMode::Mut => true,
        }
    }
}

/// A request to read `len` elements from the device buffer `handle`.
#[derive(Clone, Copy, Debug, PartialEq, Eq, Structural)]
pub struct ReadCall {
    pub handle: u64,
    pub len: usize,
}

/// What a tensor is, mathematically.
pub struct TensorView {
    pub shape: Seq<usize>,
    pub dim_steps: Seq<usize>,
    pub len: nat,
    pub handle: u64,
    pub mode: TensorMode,
    pub released: bool,
}

impl TensorView {
    /// The strides are those of the shape, and the device buffer has room
    /// for exactly as many elements as the shape has.
    pub open spec fn wf(self) -> bool {
        &&& self.dim_steps == stored_strides(self.shape)
        &&& self.len == volume(self.shape)
        &&& self.len <= usize::MAX
    }

    /// A live tensor of the given shape over the device buffer `handle`.
    pub open spec fn fresh(shape: Seq<usize>, mode: TensorMode, handle: u64) -> TensorView {
        TensorView {
            shape: shape,
            dim_steps: stored_strides(shape),
            len: volume(shape),
            handle: handle,
            mode: mode,
            released: false,
        }
    }

    /// The tensor after its device buffer was given back. Nothing else
    /// changes, so a well-formed tensor stays well-formed.
    pub open spec fn after_release(self) -> TensorView {
        TensorView { released: true, ..self }
    }

    /// What releasing the tensor yields: the handle to give back to the
    /// context, or a transfer error when there is no buffer left to release.
    pub open spec fn release_result(self) -> Result<u64, Error> {
        if self.released {
            Err(Error::Transfer)
        } else {
            Ok(self.handle)
        }
    }

    /// The read to ask of the context, or a transfer error when the buffer
    /// was released.
    pub open spec fn read_call(self) -> Result<ReadCall, Error> {
        if self.released {
            Err(Error::Transfer)
        } else {
            Ok(ReadCall { handle: self.handle, len: self.len as usize })
        }
    }

    /// The host array that a readback yields, given what the context read:
    /// `None` stands for a read that failed. A released tensor, a failed
    /// read and a read of the wrong length are transfer errors.
    pub open spec fn readback<T>(self, read: Option<Seq<T>>) -> Result<ArrayView<T>, Error> {
        match read {
            Some(elements) => if !self.released && elements.len() == self.len {
                Ok(ArrayView::of(self.shape, elements))
            } else {
                Err(Error::Transfer)
            },
            None => Err(Error::Transfer),
        }
    }
}

/// The elements to copy to a new tensor of the given mode that is created
/// from `array`: all of them for a mode that uploads, none otherwise.
pub open spec fn upload_of<T>(array: ArrayView<T>, mode: TensorMode) -> Option<Seq<T>> {
    if mode.spec_uploads() {
        Some(array.buffer)
    } else {
        None
    }
}

/// The views of the elements that were read, if any.
pub open spec fn read_view<T>(read: Option<Vec<T>>) -> Option<Seq<T>> {
    match read {
        Some(elements) => Some(elements@),
        None => None,
    }
}

/// A buffer of elements of type `T` in a compute context, with the shape
/// and strides of a host array.
pub struct Tensor<T> {
    shape: Vec<usize>,
    dim_steps: Vec<usize>,
    len: usize,
    handle: u64,
    mode: TensorMode,
    released: bool,
    element: PhantomData<T>,
}

impl<T> View for Tensor<T> {
    type V = TensorView;

    closed spec fn view(&self) -> TensorView {
        TensorView {
            shape: self.shape@,
            dim_steps: self.dim_steps@,
            len: self.len as nat,
            handle: self.handle,
            mode: self.mode,
            released: self.released,
        }
    }
}

impl<T> Tensor<T> {
    /// The invariant of the type, stated on the view.
    pub open spec fn wf(&self) -> bool {
        self@.wf()
    }

    /// A tensor with the layout of `array`, over the device buffer that the
    /// context allocated for `array.buffer().len()` elements, together with
    /// the elements that have to be copied to that buffer: those of the
    /// array for the modes `In` and `Mut`, none for `Out`.
    ///
    /// `allocated` is `None` when the context could not allocate; the result
    /// is then `Error::Allocation`.
    pub fn from_array<'a>(array: &'a Array<T>, mode: TensorMode, allocated: Option<u64>) -> (made:
        Result<(Tensor<T>, Option<&'a [T]>), Error>)
        requires
            array.wf(),
        ensures
            match made {
                Ok((tensor, upload)) => {
                    &&& allocated matches Some(handle)
                    &&& tensor@ == TensorView::fresh(array@.shape, mode, handle)
                    &&& tensor.wf()
                    &&& match upload {
                        Some(elements) => upload_of(array@, mode) == Some(elements@),
                        None => upload_of(array@, mode) is None,
                    }
                },
                Err(e) => allocated is None && e == Error::Allocation,
            },
    {
        match allocated {
            Some(handle) => {
                let elements = array.buffer();
                let tensor = Tensor {
                    shape: slice_to_vec(array.shape()),
                    dim_steps: slice_to_vec(array.dim_steps()),
                    len: elements.len(),
                    handle: handle,
                    mode: mode,
                    released: false,
                    element: PhantomData,
                };
                if mode.uploads() {
                    Ok((tensor, Some(elements)))
                } else {
                    Ok((tensor, None))
                }
            },
            None => Err(Error::Allocation),
        }
    }

    /// A tensor of the given shape over the device buffer that the context
    /// allocated for `checked_volume(shape)` elements. Nothing is copied to
    /// it: what it holds is undefined until a kernel writes it.
    ///
    /// Fails with `Error::Allocation` exactly when the number of elements
    /// does not fit in `usize` or the context could not allocate
    /// (`allocated` is `None`).
    pub fn new(shape: Vec<usize>, mode: TensorMode, allocated: Option<u64>) -> (made: Result<
        Tensor<T>,
        Error,
    >)
        ensures
            match made {
                Ok(tensor) => {
                    &&& volume(shape@) <= usize::MAX
                    &&& allocated matches Some(handle)
                    &&& tensor@ == TensorView::fresh(shape@, mode, handle)
                    &&& tensor.wf()
                },
                Err(e) => {
                    &&& volume(shape@) > usize::MAX || allocated is None
                    &&& e == Error::Allocation
                },
            },
    {
        match (checked_volume(shape.as_slice()), allocated) {
            (Some(len), Some(handle)) => {
                let dim_steps = compute_dim_steps(shape.as_slice());
                Ok(
                    Tensor {
                        shape: shape,
                        dim_steps: dim_steps,
                        len: len,
                        handle: handle,
                        mode: mode,
                        released: false,
                        element: PhantomData,
                    },
                )
            },
            _ => Err(Error::Allocation),
        }
    }

    /// The read to ask of the context before `get`: the whole device buffer.
    /// A released tensor has no buffer to read: `Error::Transfer`.
    pub fn read_call(&self) -> (call: Result<ReadCall, Error>)
        ensures
            call == self@.read_call(),
    {
        if self.released {
            Err(Error::Transfer)
        } else {
            Ok(ReadCall { handle: self.handle, len: self.len })
        }
    }

    /// The host array of this tensor's shape over the elements that the
    /// context read from the device buffer; `read` is `None` when the read
    /// failed.
    ///
    /// Fails with `Error::Transfer` exactly when the tensor was released,
    /// the read failed, or it did not yield one element per element of the
    /// shape.
    pub fn get(&self, read: Option<Vec<T>>) -> (made: Result<Array<T>, Error>)
        requires
            self.wf(),
        ensures
            match made {
                Ok(array) => {
                    &&& self@.readback(read_view(read)) == Ok::<ArrayView<T>, Error>(array@)
                    &&& array.wf()
                },
                Err(e) => self@.readback(read_view(read)) == Err::<ArrayView<T>, Error>(e),
            },
    {
        if self.released {
            return Err(Error::Transfer);
        }
        match read {
            Some(elements) => {
                match Array::from_vec(slice_to_vec(self.shape.as_slice()), elements) {
                    Ok(array) => Ok(array),
                    Err(_) => Err(Error::Transfer),
                }
            },
            None => Err(Error::Transfer),
        }
    }

    /// Ends the life of the tensor and yields the handle of the device
    /// buffer, which goes back to the context.
    ///
    /// A tensor can be released once: releasing it again is
    /// `Error::Transfer` and changes nothing.
    pub fn release(&mut self) -> (handle: Result<u64, Error>)
        ensures
            handle == old(self)@.release_result(),
            final(self)@ == old(self)@.after_release(),
    {
        if self.released {
            Err(Error::Transfer)
        } else {
            self.released = true;
            Ok(self.handle)
        }
    }

    /// The size of each dimension.
    pub fn shape(&self) -> (sizes: &[usize])
        ensures
            sizes@ == self@.shape,
    {
        self.shape.as_slice()
    }

    /// The stride of each dimension.
    pub fn dim_steps(&self) -> (steps: &[usize])
        ensures
            steps@ == self@.dim_steps,
    {
        self.dim_steps.as_slice()
    }

    /// The number of elements of the device buffer.
    pub fn len(&self) -> (count: usize)
        ensures
            count == self@.len,
    {
        self.len
    }

    /// The handle of the device buffer.
    pub fn handle(&self) -> (handle: u64)
        ensures
            handle == self@.handle,
    {
        self.handle
    }

    /// The mode the tensor was created with.
    pub fn mode(&self) -> (mode: TensorMode)
        ensures
            mode == self@.mode,
    {
        self.mode
    }

    /// Whether the device buffer was given back.
    pub fn is_released(&self) -> (yes: bool)
        ensures
            yes == self@.released,
    {
        self.released
    }
}

/// Uploading a host array and reading the same elements back yields the
/// array again: same shape, same strides, same elements. This holds for the
/// modes `In` and `Mut`, which upload.
pub proof fn lemma_upload_readback_round_trip<T>(
    array: ArrayView<T>,
    mode: TensorMode,
    handle: u64,
)
    requires
        array.wf(),
        mode.spec_uploads(),
    ensures
        upload_of(array, mode) == Some(array.buffer),
        TensorView::fresh(array.shape, mode, handle).wf(),
        TensorView::fresh(array.shape, mode, handle).readback(upload_of(array, mode))
            == Ok::<ArrayView<T>, Error>(array),
{
}

/// Releasing is defined on every tensor and succeeds once: on a released
/// tensor a release, a read request and a readback are transfer errors, and
/// a second release leaves the tensor as the first one left it.
pub proof fn lemma_release_once<T>(tensor: TensorView, read: Option<Seq<T>>)
    ensures
        tensor.after_release().release_result() == Err::<u64, Error>(Error::Transfer),
        tensor.after_release().read_call() == Err::<ReadCall, Error>(Error::Transfer),
        tensor.after_release().readback(read) == Err::<ArrayView<T>, Error>(Error::Transfer),
        tensor.after_release().after_release() == tensor.after_release(),
        tensor.after_release().wf() == tensor.wf(),
        tensor.readback(None::<Seq<T>>) == Err::<ArrayView<T>, Error>(Error::Transfer),
{
}

} // verus!
