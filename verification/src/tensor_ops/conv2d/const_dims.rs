use crate::shapes::{Const, Dim};
use crate::tensor::Error;
use crate::tensor_ops::conv2d::{conv_extent, extent_defined, TryConv2D};
use vstd::prelude::*;

verus! {

/// The sizes fixed in the types give an extent.
pub open spec fn fixed_defined<D: Dim, K: Dim, S: Dim, P: Dim, L: Dim>(
    dim: D,
    kernel: K,
    stride: S,
    padding: P,
    dilation: L,
) -> bool {
    extent_defined(
        dim.extent() as int,
        kernel.extent() as int,
        stride.extent() as int,
        padding.extent() as int,
        dilation.extent() as int,
    )
}

/// `out` is the extent that the sizes fixed in the types give.
pub open spec fn fixed_convolved<D: Dim, K: Dim, S: Dim, P: Dim, L: Dim, O: Dim>(
    dim: D,
    kernel: K,
    stride: S,
    padding: P,
    dilation: L,
    out: O,
) -> bool {
    out.extent() == conv_extent(
        dim.extent() as int,
        kernel.extent() as int,
        stride.extent() as int,
        padding.extent() as int,
        dilation.extent() as int,
    )
}

/// An extent fixed in the types is the extent that is resolved at run time for the same
/// sizes: the two kinds of dimension agree wherever both resolve.
pub proof fn lemma_fixed_extent_is_run_time_extent<
    D: Dim,
    K: Dim,
    S: Dim,
    P: Dim,
    L: Dim,
    G: Dim,
    O: Dim,
>(dim: D, kernel: K, stride: S, padding: P, dilation: L, groups: G, fixed: O, resolved: usize)
    requires
        dim.extent() <= usize::MAX,
        fixed_convolved(dim, kernel, stride, padding, dilation, fixed),
        (dim.extent() as usize, kernel).convolved(stride, padding, dilation, groups, resolved),
    ensures
        resolved == fixed.extent(),
        fixed_defined(dim, kernel, stride, padding, dilation) && dim.extent() + 2
            * padding.extent() <= usize::MAX <==> (dim.extent() as usize, kernel).conv_defined(
            stride,
            padding,
            dilation,
            groups,
        ),
{
}

impl<Groups: Dim> TryConv2D<Const<1>, Const<0>, Const<1>, Groups> for (Const<2>, Const<2>) {
    type Convolved = Const<1>;

    open spec fn conv_defined(
        self,
        stride: Const<1>,
        padding: Const<0>,
        dilation: Const<1>,
        groups: Groups,
    ) -> bool {
        fixed_defined(self.0, self.1, stride, padding, dilation)
    }

    open spec fn conv_unfailing(
        self,
        stride: Const<1>,
        padding: Const<0>,
        dilation: Const<1>,
        groups: Groups,
    ) -> bool {
        true
    }

    open spec fn convolved(
        self,
        stride: Const<1>,
        padding: Const<0>,
        dilation: Const<1>,
        groups: Groups,
        out: Const<1>,
    ) -> bool {
        fixed_convolved(self.0, self.1, stride, padding, dilation, out)
    }

    fn try_conv2d(
        self,
        stride: Const<1>,
        padding: Const<0>,
        dilation: Const<1>,
        groups: Groups,
    ) -> (r: Result<Const<1>, Error>) {
        proof {
            assert(1int * (2 - 1) == 1) by (nonlinear_arith);
            assert((0int) / 1 == 0) by (nonlinear_arith);
        }
        Ok(Const)
    }
}

impl<Groups: Dim> TryConv2D<Const<1>, Const<0>, Const<1>, Groups> for (Const<3>, Const<2>) {
    type Convolved = Const<2>;

    open spec fn conv_defined(
        self,
        stride: Const<1>,
        padding: Const<0>,
        dilation: Const<1>,
        groups: Groups,
    ) -> bool {
        fixed_defined(self.0, self.1, stride, padding, dilation)
    }

    open spec fn conv_unfailing(
        self,
        stride: Const<1>,
        padding: Const<0>,
        dilation: Const<1>,
        groups: Groups,
    ) -> bool {
        true
    }

    open spec fn convolved(
        self,
        stride: Const<1>,
        padding: Const<0>,
        dilation: Const<1>,
        groups: Groups,
        out: Const<2>,
    ) -> bool {
        fixed_convolved(self.0, self.1, stride, padding, dilation, out)
    }

    fn try_conv2d(
        self,
        stride: Const<1>,
        padding: Const<0>,
        dilation: Const<1>,
        groups: Groups,
    ) -> (r: Result<Const<2>, Error>) {
        proof {
            assert(1int * (2 - 1) == 1) by (nonlinear_arith);
            assert((1int) / 1 == 1) by (nonlinear_arith);
        }
        Ok(Const)
    }
}

impl<Groups: Dim> TryConv2D<Const<1>, Const<2>, Const<1>, Groups> for (Const<1>, Const<2>) {
    type Convolved = Const<4>;

    open spec fn conv_defined(
        self,
        stride: Const<1>,
        padding: Const<2>,
        dilation: Const<1>,
        groups: Groups,
    ) -> bool {
        fixed_defined(self.0, self.1, stride, padding, dilation)
    }

    open spec fn conv_unfailing(
        self,
        stride: Const<1>,
        padding: Const<2>,
        dilation: Const<1>,
        groups: Groups,
    ) -> bool {
        true
    }

    open spec fn convolved(
        self,
        stride: Const<1>,
        padding: Const<2>,
        dilation: Const<1>,
        groups: Groups,
        out: Const<4>,
    ) -> bool {
        fixed_convolved(self.0, self.1, stride, padding, dilation, out)
    }

    fn try_conv2d(
        self,
        stride: Const<1>,
        padding: Const<2>,
        dilation: Const<1>,
        groups: Groups,
    ) -> (r: Result<Const<4>, Error>) {
        proof {
            assert(1int * (2 - 1) == 1) by (nonlinear_arith);
            assert((3int) / 1 == 3) by (nonlinear_arith);
        }
        Ok(Const)
    }
}

impl<Groups: Dim> TryConv2D<Const<1>, Const<1>, Const<1>, Groups> for (Const<1>, Const<1>) {
    type Convolved = Const<3>;

    open spec fn conv_defined(
        self,
        stride: Const<1>,
        padding: Const<1>,
        dilation: Const<1>,
        groups: Groups,
    ) -> bool {
        fixed_defined(self.0, self.1, stride, padding, dilation)
    }

    open spec fn conv_unfailing(
        self,
        stride: Const<1>,
        padding: Const<1>,
        dilation: Const<1>,
        groups: Groups,
    ) -> bool {
        true
    }

    open spec fn convolved(
        self,
        stride: Const<1>,
        padding: Const<1>,
        dilation: Const<1>,
        groups: Groups,
        out: Const<3>,
    ) -> bool {
        fixed_convolved(self.0, self.1, stride, padding, dilation, out)
    }

    fn try_conv2d(
        self,
        stride: Const<1>,
        padding: Const<1>,
        dilation: Const<1>,
        groups: Groups,
    ) -> (r: Result<Const<3>, Error>) {
        proof {
            assert(1int * (1 - 1) == 0) by (nonlinear_arith);
            assert((2int) / 1 == 2) by (nonlinear_arith);
        }
        Ok(Const)
    }
}

impl<Groups: Dim> TryConv2D<Const<1>, Const<1>, Const<1>, Groups> for (Const<1>, Const<2>) {
    type Convolved = Const<2>;

    open spec fn conv_defined(
        self,
        stride: Const<1>,
        padding: Const<1>,
        dilation: Const<1>,
        groups: Groups,
    ) -> bool {
        fixed_defined(self.0, self.1, stride, padding, dilation)
    }

    open spec fn conv_unfailing(
        self,
        stride: Const<1>,
        padding: Const<1>,
        dilation: Const<1>,
        groups: Groups,
    ) -> bool {
        true
    }

    open spec fn convolved(
        self,
        stride: Const<1>,
        padding: Const<1>,
        dilation: Const<1>,
        groups: Groups,
        out: Const<2>,
    ) -> bool {
        fixed_convolved(self.0, self.1, stride, padding, dilation, out)
    }

    fn try_conv2d(
        self,
        stride: Const<1>,
        padding: Const<1>,
        dilation: Const<1>,
        groups: Groups,
    ) -> (r: Result<Const<2>, Error>) {
        proof {
            assert(1int * (2 - 1) == 1) by (nonlinear_arith);
            assert((1int) / 1 == 1) by (nonlinear_arith);
        }
        Ok(Const)
    }
}

impl<Groups: Dim> TryConv2D<Const<1>, Const<1>, Const<1>, Groups> for (Const<2>, Const<2>) {
    type Convolved = Const<3>;

    open spec fn conv_defined(
        self,
        stride: Const<1>,
        padding: Const<1>,
        dilation: Const<1>,
        groups: Groups,
    ) -> bool {
        fixed_defined(self.0, self.1, stride, padding, dilation)
    }

    open spec fn conv_unfailing(
        self,
        stride: Const<1>,
        padding: Const<1>,
        dilation: Const<1>,
        groups: Groups,
    ) -> bool {
        true
    }

    open spec fn convolved(
        self,
        stride: Const<1>,
        padding: Const<1>,
        dilation: Const<1>,
        groups: Groups,
        out: Const<3>,
    ) -> bool {
        fixed_convolved(self.0, self.1, stride, padding, dilation, out)
    }

    fn try_conv2d(
        self,
        stride: Const<1>,
        padding: Const<1>,
        dilation: Const<1>,
        groups: Groups,
    ) -> (r: Result<Const<3>, Error>) {
        proof {
            assert(1int * (2 - 1) == 1) by (nonlinear_arith);
            assert((2int) / 1 == 2) by (nonlinear_arith);
        }
        Ok(Const)
    }
}

impl<Groups: Dim> TryConv2D<Const<1>, Const<1>, Const<1>, Groups> for (Const<1>, Const<3>) {
    type Convolved = Const<1>;

    open spec fn conv_defined(
        self,
        stride: Const<1>,
        padding: Const<1>,
        dilation: Const<1>,
        groups: Groups,
    ) -> bool {
        fixed_defined(self.0, self.1, stride, padding, dilation)
    }

    open spec fn conv_unfailing(
        self,
        stride: Const<1>,
        padding: Const<1>,
        dilation: Const<1>,
        groups: Groups,
    ) -> bool {
        true
    }

    open spec fn convolved(
        self,
        stride: Const<1>,
        padding: Const<1>,
        dilation: Const<1>,
        groups: Groups,
        out: Const<1>,
    ) -> bool {
        fixed_convolved(self.0, self.1, stride, padding, dilation, out)
    }

    fn try_conv2d(
        self,
        stride: Const<1>,
        padding: Const<1>,
        dilation: Const<1>,
        groups: Groups,
    ) -> (r: Result<Const<1>, Error>) {
        proof {
            assert(1int * (3 - 1) == 2) by (nonlinear_arith);
            assert((0int) / 1 == 0) by (nonlinear_arith);
        }
        Ok(Const)
    }
}

impl<Groups: Dim> TryConv2D<Const<1>, Const<1>, Const<1>, Groups> for (Const<2>, Const<3>) {
    type Convolved = Const<2>;

    open spec fn conv_defined(
        self,
        stride: Const<1>,
        padding: Const<1>,
        dilation: Const<1>,
        groups: Groups,
    ) -> bool {
        fixed_defined(self.0, self.1, stride, padding, dilation)
    }

    open spec fn conv_unfailing(
        self,
        stride: Const<1>,
        padding: Const<1>,
        dilation: Const<1>,
        groups: Groups,
    ) -> bool {
        true
    }

    open spec fn convolved(
        self,
        stride: Const<1>,
        padding: Const<1>,
        dilation: Const<1>,
        groups: Groups,
        out: Const<2>,
    ) -> bool {
        fixed_convolved(self.0, self.1, stride, padding, dilation, out)
    }

    fn try_conv2d(
        self,
        stride: Const<1>,
        padding: Const<1>,
        dilation: Const<1>,
        groups: Groups,
    ) -> (r: Result<Const<2>, Error>) {
        proof {
            assert(1int * (3 - 1) == 2) by (nonlinear_arith);
            assert((1int) / 1 == 1) by (nonlinear_arith);
        }
        Ok(Const)
    }
}

impl<Groups: Dim> TryConv2D<Const<1>, Const<1>, Const<1>, Groups> for (Const<3>, Const<2>) {
    type Convolved = Const<4>;

    open spec fn conv_defined(
        self,
        stride: Const<1>,
        padding: Const<1>,
        dilation: Const<1>,
        groups: Groups,
    ) -> bool {
        fixed_defined(self.0, self.1, stride, padding, dilation)
    }

    open spec fn conv_unfailing(
        self,
        stride: Const<1>,
        padding: Const<1>,
        dilation: Const<1>,
        groups: Groups,
    ) -> bool {
        true
    }

    open spec fn convolved(
        self,
        stride: Const<1>,
        padding: Const<1>,
        dilation: Const<1>,
        groups: Groups,
        out: Const<4>,
    ) -> bool {
        fixed_convolved(self.0, self.1, stride, padding, dilation, out)
    }

    fn try_conv2d(
        self,
        stride: Const<1>,
        padding: Const<1>,
        dilation: Const<1>,
        groups: Groups,
    ) -> (r: Result<Const<4>, Error>) {
        proof {
            assert(1int * (2 - 1) == 1) by (nonlinear_arith);
            assert((3int) / 1 == 3) by (nonlinear_arith);
        }
        Ok(Const)
    }
}

impl<Groups: Dim> TryConv2D<Const<1>, Const<0>, Const<1>, Groups> for (Const<5>, Const<3>) {
    type Convolved = Const<3>;

    open spec fn conv_defined(
        self,
        stride: Const<1>,
        padding: Const<0>,
        dilation: Const<1>,
        groups: Groups,
    ) -> bool {
        fixed_defined(self.0, self.1, stride, padding, dilation)
    }

    open spec fn conv_unfailing(
        self,
        stride: Const<1>,
        padding: Const<0>,
        dilation: Const<1>,
        groups: Groups,
    ) -> bool {
        true
    }

    open spec fn convolved(
        self,
        stride: Const<1>,
        padding: Const<0>,
        dilation: Const<1>,
        groups: Groups,
        out: Const<3>,
    ) -> bool {
        fixed_convolved(self.0, self.1, stride, padding, dilation, out)
    }

    fn try_conv2d(
        self,
        stride: Const<1>,
        padding: Const<0>,
        dilation: Const<1>,
        groups: Groups,
    ) -> (r: Result<Const<3>, Error>) {
        proof {
            assert(1int * (3 - 1) == 2) by (nonlinear_arith);
            assert((2int) / 1 == 2) by (nonlinear_arith);
        }
        Ok(Const)
    }
}

impl<Groups: Dim> TryConv2D<Const<2>, Const<0>, Const<1>, Groups> for (Const<2>, Const<2>) {
    type Convolved = Const<1>;

    open spec fn conv_defined(
        self,
        stride: Const<2>,
        padding: Const<0>,
        dilation: Const<1>,
        groups: Groups,
    ) -> bool {
        fixed_defined(self.0, self.1, stride, padding, dilation)
    }

    open spec fn conv_unfailing(
        self,
        stride: Const<2>,
        padding: Const<0>,
        dilation: Const<1>,
        groups: Groups,
    ) -> bool {
        true
    }

    open spec fn convolved(
        self,
        stride: Const<2>,
        padding: Const<0>,
        dilation: Const<1>,
        groups: Groups,
        out: Const<1>,
    ) -> bool {
        fixed_convolved(self.0, self.1, stride, padding, dilation, out)
    }

    fn try_conv2d(
        self,
        stride: Const<2>,
        padding: Const<0>,
        dilation: Const<1>,
        groups: Groups,
    ) -> (r: Result<Const<1>, Error>) {
        proof {
            assert(1int * (2 - 1) == 1) by (nonlinear_arith);
            assert((0int) / 2 == 0) by (nonlinear_arith);
        }
        Ok(Const)
    }
}

impl<Groups: Dim> TryConv2D<Const<2>, Const<0>, Const<1>, Groups> for (Const<3>, Const<2>) {
    type Convolved = Const<1>;

    open spec fn conv_defined(
        self,
        stride: Const<2>,
        padding: Const<0>,
        dilation: Const<1>,
        groups: Groups,
    ) -> bool {
        fixed_defined(self.0, self.1, stride, padding, dilation)
    }

    open spec fn conv_unfailing(
        self,
        stride: Const<2>,
        padding: Const<0>,
        dilation: Const<1>,
        groups: Groups,
    ) -> bool {
        true
    }

    open spec fn convolved(
        self,
        stride: Const<2>,
        padding: Const<0>,
        dilation: Const<1>,
        groups: Groups,
        out: Const<1>,
    ) -> bool {
        fixed_convolved(self.0, self.1, stride, padding, dilation, out)
    }

    fn try_conv2d(
        self,
        stride: Const<2>,
        padding: Const<0>,
        dilation: Const<1>,
        groups: Groups,
    ) -> (r: Result<Const<1>, Error>) {
        proof {
            assert(1int * (2 - 1) == 1) by (nonlinear_arith);
            assert((1int) / 2 == 0) by (nonlinear_arith);
        }
        Ok(Const)
    }
}

impl<Groups: Dim> TryConv2D<Const<2>, Const<0>, Const<1>, Groups> for (Const<4>, Const<2>) {
    type Convolved = Const<2>;

    open spec fn conv_defined(
        self,
        stride: Const<2>,
        padding: Const<0>,
        dilation: Const<1>,
        groups: Groups,
    ) -> bool {
        fixed_defined(self.0, self.1, stride, padding, dilation)
    }

    open spec fn conv_unfailing(
        self,
        stride: Const<2>,
        padding: Const<0>,
        dilation: Const<1>,
        groups: Groups,
    ) -> bool {
        true
    }

    open spec fn convolved(
        self,
        stride: Const<2>,
        padding: Const<0>,
        dilation: Const<1>,
        groups: Groups,
        out: Const<2>,
    ) -> bool {
        fixed_convolved(self.0, self.1, stride, padding, dilation, out)
    }

    fn try_conv2d(
        self,
        stride: Const<2>,
        padding: Const<0>,
        dilation: Const<1>,
        groups: Groups,
    ) -> (r: Result<Const<2>, Error>) {
        proof {
            assert(1int * (2 - 1) == 1) by (nonlinear_arith);
            assert((2int) / 2 == 1) by (nonlinear_arith);
        }
        Ok(Const)
    }
}

impl<Groups: Dim> TryConv2D<Const<1>, Const<0>, Const<2>, Groups> for (Const<4>, Const<2>) {
    type Convolved = Const<2>;

    open spec fn conv_defined(
        self,
        stride: Const<1>,
        padding: Const<0>,
        dilation: Const<2>,
        groups: Groups,
    ) -> bool {
        fixed_defined(self.0, self.1, stride, padding, dilation)
    }

    open spec fn conv_unfailing(
        self,
        stride: Const<1>,
        padding: Const<0>,
        dilation: Const<2>,
        groups: Groups,
    ) -> bool {
        true
    }

    open spec fn convolved(
        self,
        stride: Const<1>,
        padding: Const<0>,
        dilation: Const<2>,
        groups: Groups,
        out: Const<2>,
    ) -> bool {
        fixed_convolved(self.0, self.1, stride, padding, dilation, out)
    }

    fn try_conv2d(
        self,
        stride: Const<1>,
        padding: Const<0>,
        dilation: Const<2>,
        groups: Groups,
    ) -> (r: Result<Const<2>, Error>) {
        proof {
            assert(2int * (2 - 1) == 2) by (nonlinear_arith);
            assert((1int) / 1 == 1) by (nonlinear_arith);
        }
        Ok(Const)
    }
}

impl<Groups: Dim> TryConv2D<Const<1>, Const<0>, Const<2>, Groups> for (Const<5>, Const<2>) {
    type Convolved = Const<3>;

    open spec fn conv_defined(
        self,
        stride: Const<1>,
        padding: Const<0>,
        dilation: Const<2>,
        groups: Groups,
    ) -> bool {
        fixed_defined(self.0, self.1, stride, padding, dilation)
    }

    open spec fn conv_unfailing(
        self,
        stride: Const<1>,
        padding: Const<0>,
        dilation: Const<2>,
        groups: Groups,
    ) -> bool {
        true
    }

    open spec fn convolved(
        self,
        stride: Const<1>,
        padding: Const<0>,
        dilation: Const<2>,
        groups: Groups,
        out: Const<3>,
    ) -> bool {
        fixed_convolved(self.0, self.1, stride, padding, dilation, out)
    }

    fn try_conv2d(
        self,
        stride: Const<1>,
        padding: Const<0>,
        dilation: Const<2>,
        groups: Groups,
    ) -> (r: Result<Const<3>, Error>) {
        proof {
            assert(2int * (2 - 1) == 2) by (nonlinear_arith);
            assert((2int) / 1 == 2) by (nonlinear_arith);
        }
        Ok(Const)
    }
}

impl<Groups: Dim> TryConv2D<Const<3>, Const<4>, Const<1>, Groups> for (Const<2>, Const<3>) {
    type Convolved = Const<3>;

    open spec fn conv_defined(
        self,
        stride: Const<3>,
        padding: Const<4>,
        dilation: Const<1>,
        groups: Groups,
    ) -> bool {
        fixed_defined(self.0, self.1, stride, padding, dilation)
    }

    open spec fn conv_unfailing(
        self,
        stride: Const<3>,
        padding: Const<4>,
        dilation: Const<1>,
        groups: Groups,
    ) -> bool {
        true
    }

    open spec fn convolved(
        self,
        stride: Const<3>,
        padding: Const<4>,
        dilation: Const<1>,
        groups: Groups,
        out: Const<3>,
    ) -> bool {
        fixed_convolved(self.0, self.1, stride, padding, dilation, out)
    }

    fn try_conv2d(
        self,
        stride: Const<3>,
        padding: Const<4>,
        dilation: Const<1>,
        groups: Groups,
    ) -> (r: Result<Const<3>, Error>) {
        proof {
            assert(1int * (3 - 1) == 2) by (nonlinear_arith);
            assert((7int) / 3 == 2) by (nonlinear_arith);
        }
        Ok(Const)
    }
}

impl<Groups: Dim> TryConv2D<Const<3>, Const<4>, Const<1>, Groups> for (Const<4>, Const<3>) {
    type Convolved = Const<4>;

    open spec fn conv_defined(
        self,
        stride: Const<3>,
        padding: Const<4>,
        dilation: Const<1>,
        groups: Groups,
    ) -> bool {
        fixed_defined(self.0, self.1, stride, padding, dilation)
    }

    open spec fn conv_unfailing(
        self,
        stride: Const<3>,
        padding: Const<4>,
        dilation: Const<1>,
        groups: Groups,
    ) -> bool {
        true
    }

    open spec fn convolved(
        self,
        stride: Const<3>,
        padding: Const<4>,
        dilation: Const<1>,
        groups: Groups,
        out: Const<4>,
    ) -> bool {
        fixed_convolved(self.0, self.1, stride, padding, dilation, out)
    }

    fn try_conv2d(
        self,
        stride: Const<3>,
        padding: Const<4>,
        dilation: Const<1>,
        groups: Groups,
    ) -> (r: Result<Const<4>, Error>) {
        proof {
            assert(1int * (3 - 1) == 2) by (nonlinear_arith);
            assert((9int) / 3 == 3) by (nonlinear_arith);
        }
        Ok(Const)
    }
}

impl<Groups: Dim> TryConv2D<Const<4>, Const<3>, Const<1>, Groups> for (Const<6>, Const<2>) {
    type Convolved = Const<3>;

    open spec fn conv_defined(
        self,
        stride: Const<4>,
        padding: Const<3>,
        dilation: Const<1>,
        groups: Groups,
    ) -> bool {
        fixed_defined(self.0, self.1, stride, padding, dilation)
    }

    open spec fn conv_unfailing(
        self,
        stride: Const<4>,
        padding: Const<3>,
        dilation: Const<1>,
        groups: Groups,
    ) -> bool {
        true
    }

    open spec fn convolved(
        self,
        stride: Const<4>,
        padding: Const<3>,
        dilation: Const<1>,
        groups: Groups,
        out: Const<3>,
    ) -> bool {
        fixed_convolved(self.0, self.1, stride, padding, dilation, out)
    }

    fn try_conv2d(
        self,
        stride: Const<4>,
        padding: Const<3>,
        dilation: Const<1>,
        groups: Groups,
    ) -> (r: Result<Const<3>, Error>) {
        proof {
            assert(1int * (2 - 1) == 1) by (nonlinear_arith);
            assert((10int) / 4 == 2) by (nonlinear_arith);
        }
        Ok(Const)
    }
}

impl<Groups: Dim> TryConv2D<Const<4>, Const<3>, Const<1>, Groups> for (Const<7>, Const<2>) {
    type Convolved = Const<3>;

    open spec fn conv_defined(
        self,
        stride: Const<4>,
        padding: Const<3>,
        dilation: Const<1>,
        groups: Groups,
    ) -> bool {
        fixed_defined(self.0, self.1, stride, padding, dilation)
    }

    open spec fn conv_unfailing(
        self,
        stride: Const<4>,
        padding: Const<3>,
        dilation: Const<1>,
        groups: Groups,
    ) -> bool {
        true
    }

    open spec fn convolved(
        self,
        stride: Const<4>,
        padding: Const<3>,
        dilation: Const<1>,
        groups: Groups,
        out: Const<3>,
    ) -> bool {
        fixed_convolved(self.0, self.1, stride, padding, dilation, out)
    }

    fn try_conv2d(
        self,
        stride: Const<4>,
        padding: Const<3>,
        dilation: Const<1>,
        groups: Groups,
    ) -> (r: Result<Const<3>, Error>) {
        proof {
            assert(1int * (2 - 1) == 1) by (nonlinear_arith);
            assert((11int) / 4 == 2) by (nonlinear_arith);
        }
        Ok(Const)
    }
}

impl<Groups: Dim> TryConv2D<Const<1>, Const<0>, Const<1>, Groups> for (Const<14>, Const<3>) {
    type Convolved = Const<12>;

    open spec fn conv_defined(
        self,
        stride: Const<1>,
        padding: Const<0>,
        dilation: Const<1>,
        groups: Groups,
    ) -> bool {
        fixed_defined(self.0, self.1, stride, padding, dilation)
    }

    open spec fn conv_unfailing(
        self,
        stride: Const<1>,
        padding: Const<0>,
        dilation: Const<1>,
        groups: Groups,
    ) -> bool {
        true
    }

    open spec fn convolved(
        self,
        stride: Const<1>,
        padding: Const<0>,
        dilation: Const<1>,
        groups: Groups,
        out: Const<12>,
    ) -> bool {
        fixed_convolved(self.0, self.1, stride, padding, dilation, out)
    }

    fn try_conv2d(
        self,
        stride: Const<1>,
        padding: Const<0>,
        dilation: Const<1>,
        groups: Groups,
    ) -> (r: Result<Const<12>, Error>) {
        proof {
            assert(1int * (3 - 1) == 2) by (nonlinear_arith);
            assert((11int) / 1 == 11) by (nonlinear_arith);
        }
        Ok(Const)
    }
}

impl<Groups: Dim> TryConv2D<Const<3>, Const<2>, Const<1>, Groups> for (Const<28>, Const<6>) {
    type Convolved = Const<9>;

    open spec fn conv_defined(
        self,
        stride: Const<3>,
        padding: Const<2>,
        dilation: Const<1>,
        groups: Groups,
    ) -> bool {
        fixed_defined(self.0, self.1, stride, padding, dilation)
    }

    open spec fn conv_unfailing(
        self,
        stride: Const<3>,
        padding: Const<2>,
        dilation: Const<1>,
        groups: Groups,
    ) -> bool {
        true
    }

    open spec fn convolved(
        self,
        stride: Const<3>,
        padding: Const<2>,
        dilation: Const<1>,
        groups: Groups,
        out: Const<9>,
    ) -> bool {
        fixed_convolved(self.0, self.1, stride, padding, dilation, out)
    }

    fn try_conv2d(
        self,
        stride: Const<3>,
        padding: Const<2>,
        dilation: Const<1>,
        groups: Groups,
    ) -> (r: Result<Const<9>, Error>) {
        proof {
            assert(1int * (6 - 1) == 5) by (nonlinear_arith);
            assert((26int) / 3 == 8) by (nonlinear_arith);
        }
        Ok(Const)
    }
}

impl<Groups: Dim> TryConv2D<Const<1>, Const<0>, Const<1>, Groups> for (Const<3>, Const<3>) {
    type Convolved = Const<1>;

    open spec fn conv_defined(
        self,
        stride: Const<1>,
        padding: Const<0>,
        dilation: Const<1>,
        groups: Groups,
    ) -> bool {
        fixed_defined(self.0, self.1, stride, padding, dilation)
    }

    open spec fn conv_unfailing(
        self,
        stride: Const<1>,
        padding: Const<0>,
        dilation: Const<1>,
        groups: Groups,
    ) -> bool {
        true
    }

    open spec fn convolved(
        self,
        stride: Const<1>,
        padding: Const<0>,
        dilation: Const<1>,
        groups: Groups,
        out: Const<1>,
    ) -> bool {
        fixed_convolved(self.0, self.1, stride, padding, dilation, out)
    }

    fn try_conv2d(
        self,
        stride: Const<1>,
        padding: Const<0>,
        dilation: Const<1>,
        groups: Groups,
    ) -> (r: Result<Const<1>, Error>) {
        proof {
            assert(1int * (3 - 1) == 2) by (nonlinear_arith);
            assert((0int) / 1 == 0) by (nonlinear_arith);
        }
        Ok(Const)
    }
}

impl<Groups: Dim> TryConv2D<Const<1>, Const<1>, Const<1>, Groups> for (Const<3>, Const<3>) {
    type Convolved = Const<3>;

    open spec fn conv_defined(
        self,
        stride: Const<1>,
        padding: Const<1>,
        dilation: Const<1>,
        groups: Groups,
    ) -> bool {
        fixed_defined(self.0, self.1, stride, padding, dilation)
    }

    open spec fn conv_unfailing(
        self,
        stride: Const<1>,
        padding: Const<1>,
        dilation: Const<1>,
        groups: Groups,
    ) -> bool {
        true
    }

    open spec fn convolved(
        self,
        stride: Const<1>,
        padding: Const<1>,
        dilation: Const<1>,
        groups: Groups,
        out: Const<3>,
    ) -> bool {
        fixed_convolved(self.0, self.1, stride, padding, dilation, out)
    }

    fn try_conv2d(
        self,
        stride: Const<1>,
        padding: Const<1>,
        dilation: Const<1>,
        groups: Groups,
    ) -> (r: Result<Const<3>, Error>) {
        proof {
            assert(1int * (3 - 1) == 2) by (nonlinear_arith);
            assert((2int) / 1 == 2) by (nonlinear_arith);
        }
        Ok(Const)
    }
}

impl<Groups: Dim> TryConv2D<Const<2>, Const<1>, Const<2>, Groups> for (Const<5>, Const<2>) {
    type Convolved = Const<3>;

    open spec fn conv_defined(
        self,
        stride: Const<2>,
        padding: Const<1>,
        dilation: Const<2>,
        groups: Groups,
    ) -> bool {
        fixed_defined(self.0, self.1, stride, padding, dilation)
    }

    open spec fn conv_unfailing(
        self,
        stride: Const<2>,
        padding: Const<1>,
        dilation: Const<2>,
        groups: Groups,
    ) -> bool {
        true
    }

    open spec fn convolved(
        self,
        stride: Const<2>,
        padding: Const<1>,
        dilation: Const<2>,
        groups: Groups,
        out: Const<3>,
    ) -> bool {
        fixed_convolved(self.0, self.1, stride, padding, dilation, out)
    }

    fn try_conv2d(
        self,
        stride: Const<2>,
        padding: Const<1>,
        dilation: Const<2>,
        groups: Groups,
    ) -> (r: Result<Const<3>, Error>) {
        proof {
            assert(2int * (2 - 1) == 2) by (nonlinear_arith);
            assert((4int) / 2 == 2) by (nonlinear_arith);
        }
        Ok(Const)
    }
}

} // verus!
