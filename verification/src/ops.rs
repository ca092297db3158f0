//! Kernel dispatch: what is checked before a kernel is handed to the
//! compute context, and what is handed to it.

use vstd::prelude::*;
use crate::error::Error;
use crate::shape::lemma_volume_of_matrix;
use crate::tensor::{Tensor, TensorView};

verus! {

/// The submission of the dense matrix product `c = a x b`: the device
/// buffers of the operands and of the output, for `a` of shape `[m, n]`, `b`
/// of shape `[n, k]` and `c` of shape `[m, k]`, all in row-major order.
#[derive(Clone, Copy, Debug, PartialEq, Eq, Structural)]
pub struct MatmulCall {
    pub a: u64,
    pub b: u64,
    pub c: u64,
    pub m: usize,
    pub n: usize,
    pub k: usize,
}

/// Whether matrices of the shapes `a` and `b` can be multiplied into one of
/// shape `c`: all three are two-dimensional, the columns of `a` are the rows
/// of `b`, and `c` has the rows of `a` and the columns of `b`.
pub open spec fn matmul_shapes_fit(a: Seq<usize>, b: Seq<usize>, c: Seq<usize>) -> bool {
    &&& a.len() == 2
    &&& b.len() == 2
    &&& c.len() == 2
    &&& a[1] == b[0]
    &&& c[0] == a[0]
    &&& c[1] == b[1]
}

/// What dispatching `c = a x b` comes to: a shape mismatch where the shapes
/// do not fit, else a dispatch error where one of the tensors was released,
/// else the call to submit.
pub open spec fn matmul_plan(a: TensorView, b: TensorView, c: TensorView) -> Result<
    MatmulCall,
    Error,
> {
    if !matmul_shapes_fit(a.shape, b.shape, c.shape) {
        Err(Error::ShapeMismatch)
    } else if a.released || b.released || c.released {
        Err(Error::Dispatch)
    } else {
        Ok(
            MatmulCall {
                a: a.handle,
                b: b.handle,
                c: c.handle,
                m: a.shape[0],
                n: a.shape[1],
                k: b.shape[1],
            },
        )
    }
}

/// A call that is submitted names three live buffers of the sizes that the
/// kernel works on: `m * n` elements for `a`, `n * k` for `b` and `m * k`
/// for `c`.
pub proof fn lemma_matmul_call_sizes(a: TensorView, b: TensorView, c: TensorView)
    requires
        a.wf(),
        b.wf(),
        c.wf(),
        matmul_plan(a, b, c) is Ok,
    ensures
        ({
            let call = matmul_plan(a, b, c)->Ok_0;
            &&& !a.released && !b.released && !c.released
            &&& call.a == a.handle && call.b == b.handle && call.c == c.handle
            &&& a.len == call.m * call.n
            &&& b.len == call.n * call.k
            &&& c.len == call.m * call.k
        }),
{
    lemma_volume_of_matrix(a.shape);
    lemma_volume_of_matrix(b.shape);
    lemma_volume_of_matrix(c.shape);
}

/// Validates the dispatch of the matrix product `c = a x b` and yields the
/// call to submit to the context, which overwrites the device buffer of `c`.
///
/// The shapes are checked first, so that nothing is submitted for operands
/// that do not fit together. The mode of `c` is not checked: an output of
/// mode `In` is written on the device like any other.
pub fn matmul<T>(a: &Tensor<T>, b: &Tensor<T>, c: &Tensor<T>) -> (call: Result<MatmulCall, Error>)
    ensures
        call == matmul_plan(a@, b@, c@),
{
    let sa = a.shape();
    let sb = b.shape();
    let sc = c.shape();
    if sa.len() != 2 || sb.len() != 2 || sc.len() != 2 {
        return Err(Error::ShapeMismatch);
    }
    if sa[1] != sb[0] || sc[0] != sa[0] || sc[1] != sb[1] {
        return Err(Error::ShapeMismatch);
    }
    if a.is_released() || b.is_released() || c.is_released() {
        return Err(Error::Dispatch);
    }
    Ok(MatmulCall { a: a.handle(), b: b.handle(), c: c.handle(), m: sa[0], n: sa[1], k: sb[1] })
}

} // verus!
