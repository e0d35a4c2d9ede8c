use crate::shapes::{
    default_strides, is_representable, num_elements, numel, remove_dim, replace_dim,
    representable, row_major_strides, with_dim_replaced, without_dim,
};
use crate::tensor::Error;
use vstd::prelude::*;

verus! {

/// The element types that the device has lookup kernels for.
#[derive(Clone, Copy, Debug, PartialEq, Eq, Structural)]
pub enum ElementKind {
    U8,
    U16,
    U32,
    U64,
    Usize,
    I8,
    I16,
    I32,
    I64,
    Isize,
    Bool,
    F16,
    F32,
    F64,
}

/// The two families of lookup kernels: gather puts the dimensions of the index tensor in
/// the place of a dimension, select removes the dimension.
#[derive(Clone, Copy, Debug, PartialEq, Eq, Structural)]
pub enum Lookup {
    Gather,
    Select,
}

/// The direction of a kernel.
#[derive(Clone, Copy, Debug, PartialEq, Eq, Structural)]
pub enum Pass {
    Forward,
    Backward,
}

impl ElementKind {
    /// The name of the element type, as the kernel images spell it.
    pub open spec fn name_spec(self) -> Seq<char> {
        match self {
            ElementKind::U8 => "u8"@,
            ElementKind::U16 => "u16"@,
            ElementKind::U32 => "u32"@,
            ElementKind::U64 => "u64"@,
            ElementKind::Usize => "usize"@,
            ElementKind::I8 => "i8"@,
            ElementKind::I16 => "i16"@,
            ElementKind::I32 => "i32"@,
            ElementKind::I64 => "i64"@,
            ElementKind::Isize => "isize"@,
            ElementKind::Bool => "bool"@,
            ElementKind::F16 => "f16"@,
            ElementKind::F32 => "f32"@,
            ElementKind::F64 => "f64"@,
        }
    }

    /// The element type has a backward kernel: gradients flow through the fractional
    /// types alone.
    pub open spec fn differentiable(self) -> bool {
        self == ElementKind::F16 || self == ElementKind::F32 || self == ElementKind::F64
    }

    /// The name of the element type, as the kernel images spell it.
    pub fn name(self) -> (s: &'static str)
        ensures
            s@ == self.name_spec(),
    {
        match self {
            ElementKind::U8 => "u8",
            ElementKind::U16 => "u16",
            ElementKind::U32 => "u32",
            ElementKind::U64 => "u64",
            ElementKind::Usize => "usize",
            ElementKind::I8 => "i8",
            ElementKind::I16 => "i16",
            ElementKind::I32 => "i32",
            ElementKind::I64 => "i64",
            ElementKind::Isize => "isize",
            ElementKind::Bool => "bool",
            ElementKind::F16 => "f16",
            ElementKind::F32 => "f32",
            ElementKind::F64 => "f64",
        }
    }

    /// Whether the element type has a backward kernel.
    pub fn is_differentiable(self) -> (b: bool)
        ensures
            b == self.differentiable(),
    {
        match self {
            ElementKind::F16 => true,
            ElementKind::F32 => true,
            ElementKind::F64 => true,
            _ => false,
        }
    }
}

impl Lookup {
    /// The stem of every name of the family.
    pub open spec fn stem_spec(self) -> Seq<char> {
        match self {
            Lookup::Gather => "gather_"@,
            Lookup::Select => "select_"@,
        }
    }

    /// The stem of every name of the family.
    pub fn stem(self) -> (s: &'static str)
        ensures
            s@ == self.stem_spec(),
    {
        match self {
            Lookup::Gather => "gather_",
            Lookup::Select => "select_",
        }
    }
}

impl Pass {
    /// The part of a kernel's name that tells its direction.
    pub open spec fn infix_spec(self) -> Seq<char> {
        match self {
            Pass::Forward => "fwd_"@,
            Pass::Backward => "bwd_"@,
        }
    }

    /// The part of a kernel's name that tells its direction.
    pub fn infix(self) -> (s: &'static str)
        ensures
            s@ == self.infix_spec(),
    {
        match self {
            Pass::Forward => "fwd_",
            Pass::Backward => "bwd_",
        }
    }
}

/// The name under which the kernel image of a family and an element type is loaded.
pub open spec fn module_name_spec(family: Lookup, kind: ElementKind) -> Seq<char> {
    family.stem_spec() + kind.name_spec()
}

/// The name of the kernel of a family, a direction and an element type.
pub open spec fn function_name_spec(family: Lookup, pass: Pass, kind: ElementKind) -> Seq<char> {
    family.stem_spec() + pass.infix_spec() + kind.name_spec()
}

/// The kernel exists: every element type has a forward kernel, the differentiable ones
/// have a backward kernel too.
pub open spec fn has_kernel(pass: Pass, kind: ElementKind) -> bool {
    pass == Pass::Forward || kind.differentiable()
}

/// The name under which the kernel image of a family and an element type is loaded.
pub fn module_name(family: Lookup, kind: ElementKind) -> (s: String)
    ensures
        s@ == module_name_spec(family, kind),
{
    String::from_str(family.stem()).concat(kind.name())
}

/// The name of the kernel of a family, a direction and an element type, where there is
/// one.
pub fn function_name(family: Lookup, pass: Pass, kind: ElementKind) -> (r: Option<String>)
    ensures
        r is Some <==> has_kernel(pass, kind),
        r matches Some(s) ==> s@ == function_name_spec(family, pass, kind),
{
    let exists = match pass {
        Pass::Forward => true,
        Pass::Backward => kind.is_differentiable(),
    };
    if exists {
        Some(String::from_str(family.stem()).concat(pass.infix()).concat(kind.name()))
    } else {
        None
    }
}

/// The names of the kernels in the image of a family and an element type: the forward
/// kernel, then the backward kernel where there is one.
pub fn function_names(family: Lookup, kind: ElementKind) -> (names: Vec<String>)
    ensures
        names@.len() == if kind.differentiable() { 2int } else { 1int },
        names@[0]@ == function_name_spec(family, Pass::Forward, kind),
        kind.differentiable() ==> names@[1]@ == function_name_spec(family, Pass::Backward, kind),
{
    let mut names: Vec<String> = Vec::new();
    match function_name(family, Pass::Forward, kind) {
        Some(s) => {
            names.push(s);
        },
        None => {},
    }
    match function_name(family, Pass::Backward, kind) {
        Some(s) => {
            names.push(s);
        },
        None => {},
    }
    names
}

/// How many threads a launch starts, and how they are grouped.
#[derive(Clone, Copy, Debug, PartialEq, Eq)]
pub struct LaunchConfig {
    /// Width, height and depth of the grid, in blocks.
    pub grid_dim: (u32, u32, u32),
    /// The extents of one block, in threads.
    pub block_dim: (u32, u32, u32),
    /// The shared memory of one block, in bytes.
    pub shared_mem_bytes: u32,
}

/// The threads of one block of a lookup kernel.
pub const NUM_THREADS: u32 = 128;

/// The blocks of [`NUM_THREADS`] threads that give every one of `n` elements a thread.
pub open spec fn blocks_for(n: nat) -> nat {
    (n + 127) / 128
}

/// A row of blocks of [`NUM_THREADS`] threads each, with a thread for every one of `n`
/// elements and fewer than [`NUM_THREADS`] threads to spare.
pub fn launch_cfg(n: u32) -> (cfg: LaunchConfig)
    ensures
        cfg.grid_dim == (blocks_for(n as nat) as u32, 1u32, 1u32),
        cfg.block_dim == (NUM_THREADS, 1u32, 1u32),
        cfg.shared_mem_bytes == 0,
        n <= cfg.grid_dim.0 * NUM_THREADS < n + NUM_THREADS,
{
    let full = n / NUM_THREADS;
    let num_blocks = if n % NUM_THREADS == 0 {
        full
    } else {
        full + 1
    };
    LaunchConfig {
        grid_dim: (num_blocks, 1, 1),
        block_dim: (NUM_THREADS, 1, 1),
        shared_mem_bytes: 0,
    }
}

/// The six small tables that a kernel reads the layout of its tensors from.
#[derive(Clone, Copy, Debug, PartialEq, Eq, Structural)]
pub enum Table {
    SourceDims,
    IndexDims,
    OutputDims,
    SourceStrides,
    IndexStrides,
    OutputStrides,
}

/// One argument of a kernel.
#[derive(Clone, Copy, Debug, PartialEq, Eq, Structural)]
pub enum Param {
    /// A number, passed by value.
    Scalar(usize),
    /// The buffer of the source.
    Source,
    /// The buffer of the index tensor.
    Index,
    /// The buffer of the result, which the kernel writes.
    Output,
    /// The gradient of the source, which the kernel adds into.
    SourceGradient,
    /// The gradient of the result.
    OutputGradient,
    /// A table that has been copied to the device.
    Uploaded(Table),
}

/// One thing that the device is asked to do on behalf of a kernel call.
#[derive(Clone, Copy, Debug, PartialEq, Eq, Structural)]
pub enum Action {
    /// Ask whether the kernel is loaded.
    HasFunc,
    /// Load the kernel image of the family and the element type.
    LoadPtx,
    /// Allocate the buffer of the result, of so many elements.
    Alloc(usize),
    /// Fill the buffer of the result with zeros.
    MemsetZeros,
    /// Copy a table to the device.
    Upload(Table),
    /// Fetch the loaded kernel.
    GetFunc,
    /// Launch the kernel with the arguments of the request.
    Launch,
}

/// One call of a lookup kernel on the device: which kernel, and the layout of the three
/// tensors.
#[derive(Debug)]
pub struct Request {
    pub family: Lookup,
    pub pass: Pass,
    pub kind: ElementKind,
    pub inp_shape: Vec<usize>,
    pub inp_strides: Vec<usize>,
    pub idx_shape: Vec<usize>,
    pub idx_strides: Vec<usize>,
    pub out_shape: Vec<usize>,
    pub out_strides: Vec<usize>,
    pub numel: usize,
}

/// The axis of a lookup, which the ranks of its three tensors give.
pub open spec fn lookup_axis(family: Lookup, src: int, idx: int, dst: int) -> int {
    match family {
        Lookup::Gather => src + idx - dst - 1,
        Lookup::Select => idx,
    }
}

/// The ranks are those of a lookup of the family.
pub open spec fn ranks_suit(family: Lookup, src: int, idx: int, dst: int) -> bool {
    match family {
        Lookup::Gather => src <= dst < src + idx && idx <= dst,
        Lookup::Select => dst + 1 == src && idx < src,
    }
}

/// The sequence of what a forward call asks of the device. Gather passes the rank of the
/// result to the kernel, select its dimensions and strides.
pub open spec fn forward_script(family: Lookup, numel: usize) -> Seq<Action> {
    match family {
        Lookup::Gather => seq![
            Action::HasFunc,
            Action::LoadPtx,
            Action::Alloc(numel),
            Action::MemsetZeros,
            Action::Upload(Table::SourceDims),
            Action::Upload(Table::IndexDims),
            Action::Upload(Table::SourceStrides),
            Action::Upload(Table::IndexStrides),
            Action::GetFunc,
            Action::Launch,
        ],
        Lookup::Select => seq![
            Action::HasFunc,
            Action::LoadPtx,
            Action::Alloc(numel),
            Action::MemsetZeros,
            Action::Upload(Table::SourceDims),
            Action::Upload(Table::IndexDims),
            Action::Upload(Table::OutputDims),
            Action::Upload(Table::SourceStrides),
            Action::Upload(Table::IndexStrides),
            Action::Upload(Table::OutputStrides),
            Action::GetFunc,
            Action::Launch,
        ],
    }
}

/// The sequence of what a backward call asks of the device. It allocates nothing: the
/// gradient of the source is there, and is added into.
pub open spec fn backward_script(family: Lookup) -> Seq<Action> {
    match family {
        Lookup::Gather => seq![
            Action::HasFunc,
            Action::LoadPtx,
            Action::GetFunc,
            Action::Upload(Table::SourceDims),
            Action::Upload(Table::IndexDims),
            Action::Upload(Table::SourceStrides),
            Action::Upload(Table::IndexStrides),
            Action::Launch,
        ],
        Lookup::Select => seq![
            Action::HasFunc,
            Action::LoadPtx,
            Action::GetFunc,
            Action::Upload(Table::SourceDims),
            Action::Upload(Table::IndexDims),
            Action::Upload(Table::OutputDims),
            Action::Upload(Table::SourceStrides),
            Action::Upload(Table::IndexStrides),
            Action::Upload(Table::OutputStrides),
            Action::Launch,
        ],
    }
}

/// The arguments of the kernel, in the order of its signature: the number of elements,
/// the buffer that is read or added into, the layout of the source, the index tensor and
/// its layout, the buffer of the result or of its gradient, and the layout of the result.
pub open spec fn params_spec(
    family: Lookup,
    pass: Pass,
    numel: usize,
    src_rank: usize,
    idx_rank: usize,
    dst_rank: usize,
) -> Seq<Param> {
    let first = match pass {
        Pass::Forward => Param::Source,
        Pass::Backward => Param::SourceGradient,
    };
    let last = match pass {
        Pass::Forward => Param::Output,
        Pass::Backward => Param::OutputGradient,
    };
    let shared = seq![
        Param::Scalar(numel),
        first,
        Param::Scalar(src_rank),
        Param::Uploaded(Table::SourceDims),
        Param::Uploaded(Table::SourceStrides),
        Param::Index,
        Param::Scalar(idx_rank),
        Param::Uploaded(Table::IndexDims),
        Param::Uploaded(Table::IndexStrides),
        last,
    ];
    match family {
        Lookup::Gather => shared.push(Param::Scalar(dst_rank)),
        Lookup::Select => shared.push(Param::Uploaded(Table::OutputDims)).push(
            Param::Uploaded(Table::OutputStrides),
        ),
    }
}

impl Request {
    /// The request has a kernel, and as many strides as dimensions for each tensor.
    pub open spec fn wf(&self) -> bool {
        &&& has_kernel(self.pass, self.kind)
        &&& self.inp_strides@.len() == self.inp_shape@.len()
        &&& self.idx_strides@.len() == self.idx_shape@.len()
        &&& self.out_strides@.len() == self.out_shape@.len()
        &&& self.numel <= u32::MAX
    }

    /// What the call asks of the device, in order.
    pub open spec fn script_spec(&self) -> Seq<Action> {
        match self.pass {
            Pass::Forward => forward_script(self.family, self.numel),
            Pass::Backward => backward_script(self.family),
        }
    }

    /// The request of a forward call: the shape of the result follows from those of the
    /// source and of the index tensor, and the result is contiguous.
    pub fn forward(
        family: Lookup,
        kind: ElementKind,
        inp_shape: Vec<usize>,
        inp_strides: Vec<usize>,
        idx_shape: Vec<usize>,
        idx_strides: Vec<usize>,
        dst_rank: usize,
    ) -> (req: Request)
        requires
            inp_strides@.len() == inp_shape@.len(),
            idx_strides@.len() == idx_shape@.len(),
            ranks_suit(family, inp_shape@.len() as int, idx_shape@.len() as int, dst_rank as int),
            representable(
                with_dim_replaced(
                    inp_shape@,
                    idx_shape@,
                    lookup_axis(
                        family,
                        inp_shape@.len() as int,
                        idx_shape@.len() as int,
                        dst_rank as int,
                    ),
                ),
            ),
            numel(
                with_dim_replaced(
                    inp_shape@,
                    idx_shape@,
                    lookup_axis(
                        family,
                        inp_shape@.len() as int,
                        idx_shape@.len() as int,
                        dst_rank as int,
                    ),
                ),
            ) <= u32::MAX,
        ensures
            req.wf(),
            req.family == family,
            req.pass == Pass::Forward,
            req.kind == kind,
            req.inp_shape == inp_shape,
            req.inp_strides == inp_strides,
            req.idx_shape == idx_shape,
            req.idx_strides == idx_strides,
            req.out_shape@ == with_dim_replaced(
                inp_shape@,
                idx_shape@,
                lookup_axis(
                    family,
                    inp_shape@.len() as int,
                    idx_shape@.len() as int,
                    dst_rank as int,
                ),
            ),
            req.out_shape@.len() == dst_rank,
            family == Lookup::Select ==> req.out_shape@ == without_dim(
                inp_shape@,
                idx_shape@.len() as int,
            ),
            req.out_strides@ == row_major_strides(req.out_shape@),
            req.numel == numel(req.out_shape@),
    {
        let src = inp_shape.len();
        let idx = idx_shape.len();
        let out_shape = match family {
            Lookup::Gather => replace_dim(&inp_shape, &idx_shape, idx - 1 - (dst_rank - src)),
            Lookup::Select => {
                proof {
                    assert(idx_shape@.skip(idx as int) =~= Seq::<usize>::empty());
                    assert(with_dim_replaced(inp_shape@, idx_shape@, idx as int) =~= without_dim(
                        inp_shape@,
                        idx as int,
                    ));
                }
                remove_dim(&inp_shape, idx)
            },
        };
        proof {
            let ax = lookup_axis(family, src as int, idx as int, dst_rank as int);
            assert(inp_shape@.take(ax).len() == ax);
            assert(idx_shape@.skip(ax).len() == idx - ax);
            assert(inp_shape@.skip(ax + 1).len() == src - ax - 1);
        }
        let numel = num_elements(&out_shape);
        let out_strides = default_strides(&out_shape);
        Request {
            family,
            pass: Pass::Forward,
            kind,
            inp_shape,
            inp_strides,
            idx_shape,
            idx_strides,
            out_shape,
            out_strides,
            numel,
        }
    }

    /// The tensors suit a forward call of the family: each has as many strides as
    /// dimensions, the ranks are those of a lookup, and the result is representable and
    /// has no more elements than a launch can count.
    pub open spec fn forward_defined(
        family: Lookup,
        inp_shape: Seq<usize>,
        inp_strides: Seq<usize>,
        idx_shape: Seq<usize>,
        idx_strides: Seq<usize>,
        dst_rank: usize,
    ) -> bool {
        let ax = lookup_axis(family, inp_shape.len() as int, idx_shape.len() as int, dst_rank as int);
        &&& inp_strides.len() == inp_shape.len()
        &&& idx_strides.len() == idx_shape.len()
        &&& ranks_suit(family, inp_shape.len() as int, idx_shape.len() as int, dst_rank as int)
        &&& representable(with_dim_replaced(inp_shape, idx_shape, ax))
        &&& numel(with_dim_replaced(inp_shape, idx_shape, ax)) <= u32::MAX
    }

    /// The request of a forward call, where the tensors suit one.
    pub fn try_forward(
        family: Lookup,
        kind: ElementKind,
        inp_shape: Vec<usize>,
        inp_strides: Vec<usize>,
        idx_shape: Vec<usize>,
        idx_strides: Vec<usize>,
        dst_rank: usize,
    ) -> (r: Option<Request>)
        ensures
            r is Some <==> Self::forward_defined(
                family,
                inp_shape@,
                inp_strides@,
                idx_shape@,
                idx_strides@,
                dst_rank,
            ),
            r matches Some(req) ==> {
                &&& req.wf()
                &&& req.family == family
                &&& req.pass == Pass::Forward
                &&& req.kind == kind
                &&& req.inp_shape == inp_shape
                &&& req.inp_strides == inp_strides
                &&& req.idx_shape == idx_shape
                &&& req.idx_strides == idx_strides
                &&& req.out_shape@ == with_dim_replaced(
                    inp_shape@,
                    idx_shape@,
                    lookup_axis(
                        family,
                        inp_shape@.len() as int,
                        idx_shape@.len() as int,
                        dst_rank as int,
                    ),
                )
                &&& req.out_strides@ == row_major_strides(req.out_shape@)
                &&& req.numel == numel(req.out_shape@)
            },
    {
        let src = inp_shape.len();
        let idx = idx_shape.len();
        if inp_strides.len() != src || idx_strides.len() != idx {
            return None;
        }
        let out_shape = match family {
            Lookup::Gather => {
                if dst_rank < src || dst_rank - src >= idx || idx > dst_rank {
                    return None;
                }
                replace_dim(&inp_shape, &idx_shape, idx - 1 - (dst_rank - src))
            },
            Lookup::Select => {
                if src == 0 || dst_rank != src - 1 || idx >= src {
                    return None;
                }
                replace_dim(&inp_shape, &idx_shape, idx)
            },
        };
        if !is_representable(&out_shape) {
            return None;
        }
        if num_elements(&out_shape) > 0xffff_ffff {
            return None;
        }
        Some(
            Request::forward(
                family,
                kind,
                inp_shape,
                inp_strides,
                idx_shape,
                idx_strides,
                dst_rank,
            ),
        )
    }

    /// The request of a backward call, where the element type has a backward kernel and
    /// the tensors suit a call.
    pub fn try_backward(
        family: Lookup,
        kind: ElementKind,
        inp_shape: Vec<usize>,
        inp_strides: Vec<usize>,
        idx_shape: Vec<usize>,
        idx_strides: Vec<usize>,
        out_shape: Vec<usize>,
        out_strides: Vec<usize>,
        numel: usize,
    ) -> (r: Option<Request>)
        ensures
            r is Some <==> {
                &&& kind.differentiable()
                &&& inp_strides@.len() == inp_shape@.len()
                &&& idx_strides@.len() == idx_shape@.len()
                &&& out_strides@.len() == out_shape@.len()
                &&& numel <= u32::MAX
            },
            r matches Some(req) ==> {
                &&& req.wf()
                &&& req.family == family
                &&& req.pass == Pass::Backward
                &&& req.kind == kind
                &&& req.inp_shape == inp_shape
                &&& req.inp_strides == inp_strides
                &&& req.idx_shape == idx_shape
                &&& req.idx_strides == idx_strides
                &&& req.out_shape == out_shape
                &&& req.out_strides == out_strides
                &&& req.numel == numel
            },
    {
        if !kind.is_differentiable() || inp_strides.len() != inp_shape.len() || idx_strides.len()
            != idx_shape.len() || out_strides.len() != out_shape.len() || numel > 0xffff_ffff {
            return None;
        }
        Some(
            Request::backward(
                family,
                kind,
                inp_shape,
                inp_strides,
                idx_shape,
                idx_strides,
                out_shape,
                out_strides,
                numel,
            ),
        )
    }

    /// The request of a backward call, for a gradient of the result of `numel` elements.
    pub fn backward(
        family: Lookup,
        kind: ElementKind,
        inp_shape: Vec<usize>,
        inp_strides: Vec<usize>,
        idx_shape: Vec<usize>,
        idx_strides: Vec<usize>,
        out_shape: Vec<usize>,
        out_strides: Vec<usize>,
        numel: usize,
    ) -> (req: Request)
        requires
            kind.differentiable(),
            inp_strides@.len() == inp_shape@.len(),
            idx_strides@.len() == idx_shape@.len(),
            out_strides@.len() == out_shape@.len(),
            numel <= u32::MAX,
        ensures
            req.wf(),
            req.family == family,
            req.pass == Pass::Backward,
            req.kind == kind,
            req.inp_shape == inp_shape,
            req.inp_strides == inp_strides,
            req.idx_shape == idx_shape,
            req.idx_strides == idx_strides,
            req.out_shape == out_shape,
            req.out_strides == out_strides,
            req.numel == numel,
    {
        Request {
            family,
            pass: Pass::Backward,
            kind,
            inp_shape,
            inp_strides,
            idx_shape,
            idx_strides,
            out_shape,
            out_strides,
            numel,
        }
    }

    /// What the call asks of the device, in order.
    pub fn script(&self) -> (actions: Vec<Action>)
        ensures
            actions@ == self.script_spec(),
    {
        let mut actions: Vec<Action> = Vec::new();
        actions.push(Action::HasFunc);
        actions.push(Action::LoadPtx);
        match self.pass {
            Pass::Forward => {
                actions.push(Action::Alloc(self.numel));
                actions.push(Action::MemsetZeros);
            },
            Pass::Backward => {
                actions.push(Action::GetFunc);
            },
        }
        actions.push(Action::Upload(Table::SourceDims));
        actions.push(Action::Upload(Table::IndexDims));
        match self.family {
            Lookup::Gather => {},
            Lookup::Select => {
                actions.push(Action::Upload(Table::OutputDims));
            },
        }
        actions.push(Action::Upload(Table::SourceStrides));
        actions.push(Action::Upload(Table::IndexStrides));
        match self.family {
            Lookup::Gather => {},
            Lookup::Select => {
                actions.push(Action::Upload(Table::OutputStrides));
            },
        }
        match self.pass {
            Pass::Forward => {
                actions.push(Action::GetFunc);
            },
            Pass::Backward => {},
        }
        actions.push(Action::Launch);
        assert(actions@ =~= self.script_spec());
        actions
    }

    /// The table that an upload copies to the device.
    pub fn table(&self, which: Table) -> (values: &Vec<usize>)
        ensures
            values == match which {
                Table::SourceDims => &self.inp_shape,
                Table::IndexDims => &self.idx_shape,
                Table::OutputDims => &self.out_shape,
                Table::SourceStrides => &self.inp_strides,
                Table::IndexStrides => &self.idx_strides,
                Table::OutputStrides => &self.out_strides,
            },
    {
        match which {
            Table::SourceDims => &self.inp_shape,
            Table::IndexDims => &self.idx_shape,
            Table::OutputDims => &self.out_shape,
            Table::SourceStrides => &self.inp_strides,
            Table::IndexStrides => &self.idx_strides,
            Table::OutputStrides => &self.out_strides,
        }
    }

    /// The launch geometry: a thread for every element of the result.
    pub fn launch_config(&self) -> (cfg: LaunchConfig)
        requires
            self.wf(),
        ensures
            cfg.grid_dim == (blocks_for(self.numel as nat) as u32, 1u32, 1u32),
            cfg.block_dim == (NUM_THREADS, 1u32, 1u32),
            cfg.shared_mem_bytes == 0,
    {
        launch_cfg(self.numel as u32)
    }

    /// The arguments of the kernel, in the order of its signature.
    pub fn launch_params(&self) -> (params: Vec<Param>)
        ensures
            params@ == params_spec(
                self.family,
                self.pass,
                self.numel,
                self.inp_shape@.len() as usize,
                self.idx_shape@.len() as usize,
                self.out_shape@.len() as usize,
            ),
    {
        let mut params: Vec<Param> = Vec::new();
        params.push(Param::Scalar(self.numel));
        match self.pass {
            Pass::Forward => {
                params.push(Param::Source);
            },
            Pass::Backward => {
                params.push(Param::SourceGradient);
            },
        }
        params.push(Param::Scalar(self.inp_shape.len()));
        params.push(Param::Uploaded(Table::SourceDims));
        params.push(Param::Uploaded(Table::SourceStrides));
        params.push(Param::Index);
        params.push(Param::Scalar(self.idx_shape.len()));
        params.push(Param::Uploaded(Table::IndexDims));
        params.push(Param::Uploaded(Table::IndexStrides));
        match self.pass {
            Pass::Forward => {
                params.push(Param::Output);
            },
            Pass::Backward => {
                params.push(Param::OutputGradient);
            },
        }
        match self.family {
            Lookup::Gather => {
                params.push(Param::Scalar(self.out_shape.len()));
            },
            Lookup::Select => {
                params.push(Param::Uploaded(Table::OutputDims));
                params.push(Param::Uploaded(Table::OutputStrides));
            },
        }
        assert(params@ =~= params_spec(
            self.family,
            self.pass,
            self.numel,
            self.inp_shape@.len() as usize,
            self.idx_shape@.len() as usize,
            self.out_shape@.len() as usize,
        ));
        params
    }
}

/// What the device answered to the last action.
#[derive(Clone, Copy, Debug, PartialEq, Eq, Structural)]
pub enum Reply {
    /// The answer to [`Action::HasFunc`]: whether the kernel is loaded.
    Loaded(bool),
    /// The action succeeded.
    Succeeded,
    /// The device refused the action; the code is the driver's.
    Refused(u32),
}

/// How far a kernel call has come.
#[derive(Clone, Copy, Debug, PartialEq, Eq, Structural)]
pub enum Progress {
    /// The action at this position of the script is to be performed next.
    Perform(usize),
    /// Every action has succeeded: the result can be handed over.
    Finished,
    /// An action was refused: nothing more is asked of the device, and no result is
    /// handed over.
    Failed(Error),
}

/// The reply is one that the action can get: the question whether the kernel is loaded is
/// answered with yes or no, and nothing else is.
pub open spec fn reply_suits(action: Action, reply: Reply) -> bool {
    reply is Loaded <==> action == Action::HasFunc
}

/// The failure that a refusal of the action stands for: a refused allocation is a lack of
/// memory, every other refusal is passed on with the driver's code.
pub open spec fn failure_of(action: Action, code: u32) -> Error {
    if action is Alloc {
        Error::OutOfMemory
    } else {
        Error::Driver(code)
    }
}

/// Where a call stands after the reply to the action at position `at`. A refusal ends
/// the call. A kernel that is loaded is not loaded again. Every other reply leads to the
/// next action, and the reply to the last one ends the call.
pub open spec fn next_progress(script: Seq<Action>, at: int, reply: Reply) -> Progress {
    match reply {
        Reply::Refused(code) => Progress::Failed(failure_of(script[at], code)),
        Reply::Loaded(true) => if at + 2 < script.len() {
            Progress::Perform((at + 2) as usize)
        } else {
            Progress::Finished
        },
        _ => if at + 1 < script.len() {
            Progress::Perform((at + 1) as usize)
        } else {
            Progress::Finished
        },
    }
}

/// Where a call stands before anything has been asked of the device.
pub fn begin(script: &Vec<Action>) -> (p: Progress)
    ensures
        p == if script@.len() > 0 {
            Progress::Perform(0)
        } else {
            Progress::Finished
        },
{
    if script.len() > 0 {
        Progress::Perform(0)
    } else {
        Progress::Finished
    }
}

/// Where a call stands after the reply to the action at position `at`.
pub fn advance(script: &Vec<Action>, at: usize, reply: Reply) -> (p: Progress)
    requires
        at < script@.len(),
        reply_suits(script@[at as int], reply),
    ensures
        p == next_progress(script@, at as int, reply),
{
    let step: usize = match reply {
        Reply::Refused(code) => {
            return Progress::Failed(
                match script[at] {
                    Action::Alloc(_) => Error::OutOfMemory,
                    _ => Error::Driver(code),
                },
            );
        },
        Reply::Loaded(true) => 2,
        _ => 1,
    };
    if step < script.len() - at {
        Progress::Perform(at + step)
    } else {
        Progress::Finished
    }
}

/// Every call starts by asking whether its kernel is loaded and has the loading of the
/// image next; nothing later in the script asks or loads again, and the launch comes last.
/// So a kernel that is loaded is not loaded again: after the answer yes, the call goes on
/// behind the loading.
pub proof fn lemma_kernel_is_loaded_at_most_once(req: Request)
    ensures
        req.script_spec().len() >= 3,
        req.script_spec()[0] == Action::HasFunc,
        req.script_spec()[1] == Action::LoadPtx,
        req.script_spec().last() == Action::Launch,
        forall|i: int|
            2 <= i < req.script_spec().len() ==> #[trigger] req.script_spec()[i] != Action::HasFunc
                && req.script_spec()[i] != Action::LoadPtx,
        forall|i: int|
            0 <= i < req.script_spec().len() - 1 ==> #[trigger] req.script_spec()[i]
                != Action::Launch,
        next_progress(req.script_spec(), 0, Reply::Loaded(true)) == Progress::Perform(2),
        next_progress(req.script_spec(), 0, Reply::Loaded(false)) == Progress::Perform(1),
{
}

/// A call ends well only behind its launch: the reply to an action before the last one
/// never finishes the call, and a refusal at any action fails it.
pub proof fn lemma_call_ends_behind_launch(req: Request, at: int, reply: Reply)
    requires
        0 <= at < req.script_spec().len(),
        reply_suits(req.script_spec()[at], reply),
    ensures
        next_progress(req.script_spec(), at, reply) == Progress::Finished ==> at
            == req.script_spec().len() - 1 && reply == Reply::Succeeded,
        reply matches Reply::Refused(code) ==> next_progress(req.script_spec(), at, reply)
            == Progress::Failed(failure_of(req.script_spec()[at], code)),
{
    lemma_kernel_is_loaded_at_most_once(req);
}

/// The length and the first three characters of a name.
spec fn fingerprint(s: Seq<char>) -> (nat, char, char, char) {
    (s.len(), s[0], s[1], s[2])
}

/// No two element types have the same name.
pub proof fn lemma_element_names_differ(a: ElementKind, b: ElementKind)
    requires
        a != b,
    ensures
        a.name_spec() != b.name_spec(),
{
    reveal_strlit("u8");
    reveal_strlit("u16");
    reveal_strlit("u32");
    reveal_strlit("u64");
    reveal_strlit("usize");
    reveal_strlit("i8");
    reveal_strlit("i16");
    reveal_strlit("i32");
    reveal_strlit("i64");
    reveal_strlit("isize");
    reveal_strlit("bool");
    reveal_strlit("f16");
    reveal_strlit("f32");
    reveal_strlit("f64");
    assert(fingerprint(a.name_spec()) != fingerprint(b.name_spec()));
}

/// No two pairs of a family and an element type have the same module name: each kernel
/// image is loaded under a name of its own.
pub proof fn lemma_module_names_differ(f1: Lookup, k1: ElementKind, f2: Lookup, k2: ElementKind)
    requires
        f1 != f2 || k1 != k2,
    ensures
        module_name_spec(f1, k1) != module_name_spec(f2, k2),
{
    reveal_strlit("gather_");
    reveal_strlit("select_");
    let m1 = module_name_spec(f1, k1);
    let m2 = module_name_spec(f2, k2);
    if f1 != f2 {
        assert(m1[0] == f1.stem_spec()[0]);
        assert(m2[0] == f2.stem_spec()[0]);
    } else {
        lemma_element_names_differ(k1, k2);
        assert(m1.skip(7) =~= k1.name_spec());
        assert(m2.skip(7) =~= k2.name_spec());
    }
}

} // verus!
