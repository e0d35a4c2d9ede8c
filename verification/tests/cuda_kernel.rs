use dfdx_core::tensor::Error;
use dfdx_core::tensor_ops::select_and_gather::cuda_kernel::{
    advance, begin, function_name, function_names, launch_cfg, module_name, Action, ElementKind,
    LaunchConfig, Lookup, Param, Pass, Progress, Reply, Request, Table, NUM_THREADS,
};

const KINDS: [(ElementKind, &str); 14] = [
    (ElementKind::U8, "u8"),
    (ElementKind::U16, "u16"),
    (ElementKind::U32, "u32"),
    (ElementKind::U64, "u64"),
    (ElementKind::Usize, "usize"),
    (ElementKind::I8, "i8"),
    (ElementKind::I16, "i16"),
    (ElementKind::I32, "i32"),
    (ElementKind::I64, "i64"),
    (ElementKind::Isize, "isize"),
    (ElementKind::Bool, "bool"),
    (ElementKind::F16, "f16"),
    (ElementKind::F32, "f32"),
    (ElementKind::F64, "f64"),
];

fn gather_forward() -> Request {
    Request::forward(Lookup::Gather, ElementKind::F32, vec![5, 3], vec![3, 1], vec![2, 7], vec![7, 1], 3)
}

fn select_forward() -> Request {
    Request::forward(Lookup::Select, ElementKind::I32, vec![5, 3, 4], vec![12, 4, 1], vec![5], vec![1], 2)
}

#[test]
fn kernels_are_named_by_family_direction_and_element_type() {
    assert_eq!(module_name(Lookup::Gather, ElementKind::F32), "gather_f32");
    assert_eq!(module_name(Lookup::Select, ElementKind::Usize), "select_usize");
    assert_eq!(function_name(Lookup::Gather, Pass::Forward, ElementKind::U8).unwrap(), "gather_fwd_u8");
    assert_eq!(function_name(Lookup::Select, Pass::Backward, ElementKind::F64).unwrap(), "select_bwd_f64");
    assert_eq!(function_name(Lookup::Gather, Pass::Backward, ElementKind::F16).unwrap(), "gather_bwd_f16");
    for (kind, name) in KINDS {
        assert_eq!(kind.name(), name);
        assert_eq!(module_name(Lookup::Gather, kind), format!("gather_{name}"));
        assert_eq!(module_name(Lookup::Select, kind), format!("select_{name}"));
        let forward = function_name(Lookup::Select, Pass::Forward, kind);
        assert_eq!(forward, Some(format!("select_fwd_{name}")));
    }
}

#[test]
fn whole_types_have_no_backward_kernel() {
    for (kind, name) in KINDS {
        let fractional = name.starts_with('f');
        assert_eq!(kind.is_differentiable(), fractional);
        assert_eq!(function_name(Lookup::Gather, Pass::Backward, kind).is_some(), fractional);
        let names = function_names(Lookup::Gather, kind);
        if fractional {
            assert_eq!(names, vec![format!("gather_fwd_{name}"), format!("gather_bwd_{name}")]);
        } else {
            assert_eq!(names, vec![format!("gather_fwd_{name}")]);
        }
    }
    assert_eq!(function_name(Lookup::Select, Pass::Backward, ElementKind::Bool), None);
}

#[test]
fn every_kernel_image_has_a_name_of_its_own() {
    let mut names: Vec<String> = Vec::new();
    for family in [Lookup::Gather, Lookup::Select] {
        for (kind, _) in KINDS {
            names.push(module_name(family, kind));
        }
    }
    let mut sorted = names.clone();
    sorted.sort();
    sorted.dedup();
    assert_eq!(sorted.len(), 28);
}

#[test]
fn a_launch_has_a_thread_for_every_element() {
    assert_eq!(NUM_THREADS, 128);
    let blocks = |n: u32| launch_cfg(n).grid_dim;
    assert_eq!(launch_cfg(1000), LaunchConfig { grid_dim: (8, 1, 1), block_dim: (128, 1, 1), shared_mem_bytes: 0 });
    assert_eq!(blocks(0), (0, 1, 1));
    assert_eq!(blocks(1), (1, 1, 1));
    assert_eq!(blocks(128), (1, 1, 1));
    assert_eq!(blocks(129), (2, 1, 1));
    assert_eq!(blocks(u32::MAX), (33554432, 1, 1));
    assert_eq!(blocks(u32::MAX - 127), (33554431, 1, 1));
}

#[test]
fn a_forward_request_resolves_the_shape_of_the_result() {
    let req = gather_forward();
    assert_eq!(req.out_shape, vec![2, 7, 3]);
    assert_eq!(req.out_strides, vec![21, 3, 1]);
    assert_eq!(req.numel, 42);
    assert_eq!((req.family, req.pass, req.kind), (Lookup::Gather, Pass::Forward, ElementKind::F32));
    assert_eq!(req.launch_config().grid_dim, (1, 1, 1));
    let req = Request::forward(Lookup::Gather, ElementKind::U8, vec![5, 3], vec![3, 1], vec![5, 7], vec![7, 1], 2);
    assert_eq!(req.out_shape, vec![5, 7]);
    assert_eq!(req.numel, 35);
    let req = select_forward();
    assert_eq!(req.out_shape, vec![5, 4]);
    assert_eq!(req.out_strides, vec![4, 1]);
    assert_eq!(req.numel, 20);
    let req = Request::forward(Lookup::Select, ElementKind::F64, vec![5, 3], vec![3, 1], vec![], vec![], 1);
    assert_eq!(req.out_shape, vec![3]);
}

#[test]
fn the_script_of_a_gather() {
    let req = gather_forward();
    assert_eq!(
        req.script(),
        vec![
            Action::HasFunc,
            Action::LoadPtx,
            Action::Alloc(42),
            Action::MemsetZeros,
            Action::Upload(Table::SourceDims),
            Action::Upload(Table::IndexDims),
            Action::Upload(Table::SourceStrides),
            Action::Upload(Table::IndexStrides),
            Action::GetFunc,
            Action::Launch
        ]
    );
    assert_eq!(
        req.launch_params(),
        vec![
            Param::Scalar(42),
            Param::Source,
            Param::Scalar(2),
            Param::Uploaded(Table::SourceDims),
            Param::Uploaded(Table::SourceStrides),
            Param::Index,
            Param::Scalar(2),
            Param::Uploaded(Table::IndexDims),
            Param::Uploaded(Table::IndexStrides),
            Param::Output,
            Param::Scalar(3),
        ]
    );
    let req = Request::backward(
        Lookup::Gather,
        ElementKind::F32,
        vec![5, 3],
        vec![3, 1],
        vec![2, 7],
        vec![7, 1],
        vec![2, 7, 3],
        vec![21, 3, 1],
        42,
    );
    assert_eq!(
        req.script(),
        vec![
            Action::HasFunc,
            Action::LoadPtx,
            Action::GetFunc,
            Action::Upload(Table::SourceDims),
            Action::Upload(Table::IndexDims),
            Action::Upload(Table::SourceStrides),
            Action::Upload(Table::IndexStrides),
            Action::Launch
        ]
    );
    assert_eq!(
        req.launch_params(),
        vec![
            Param::Scalar(42),
            Param::SourceGradient,
            Param::Scalar(2),
            Param::Uploaded(Table::SourceDims),
            Param::Uploaded(Table::SourceStrides),
            Param::Index,
            Param::Scalar(2),
            Param::Uploaded(Table::IndexDims),
            Param::Uploaded(Table::IndexStrides),
            Param::OutputGradient,
            Param::Scalar(3),
        ]
    );
}

#[test]
fn the_script_of_a_select() {
    let req = select_forward();
    assert_eq!(
        req.script(),
        vec![
            Action::HasFunc,
            Action::LoadPtx,
            Action::Alloc(20),
            Action::MemsetZeros,
            Action::Upload(Table::SourceDims),
            Action::Upload(Table::IndexDims),
            Action::Upload(Table::OutputDims),
            Action::Upload(Table::SourceStrides),
            Action::Upload(Table::IndexStrides),
            Action::Upload(Table::OutputStrides),
            Action::GetFunc,
            Action::Launch
        ]
    );
    assert_eq!(
        req.launch_params(),
        vec![
            Param::Scalar(20),
            Param::Source,
            Param::Scalar(3),
            Param::Uploaded(Table::SourceDims),
            Param::Uploaded(Table::SourceStrides),
            Param::Index,
            Param::Scalar(1),
            Param::Uploaded(Table::IndexDims),
            Param::Uploaded(Table::IndexStrides),
            Param::Output,
            Param::Uploaded(Table::OutputDims),
            Param::Uploaded(Table::OutputStrides),
        ]
    );
    let req = Request::backward(
        Lookup::Select,
        ElementKind::F64,
        vec![5, 3, 4],
        vec![12, 4, 1],
        vec![5],
        vec![1],
        vec![5, 4],
        vec![4, 1],
        20,
    );
    assert_eq!(
        req.script(),
        vec![
            Action::HasFunc,
            Action::LoadPtx,
            Action::GetFunc,
            Action::Upload(Table::SourceDims),
            Action::Upload(Table::IndexDims),
            Action::Upload(Table::OutputDims),
            Action::Upload(Table::SourceStrides),
            Action::Upload(Table::IndexStrides),
            Action::Upload(Table::OutputStrides),
            Action::Launch
        ]
    );
    assert_eq!(req.launch_params()[1], Param::SourceGradient);
    assert_eq!(req.launch_params()[9], Param::OutputGradient);
    assert_eq!(req.launch_params().len(), 12);
}

#[test]
fn a_request_hands_out_its_tables() {
    let req = select_forward();
    assert_eq!(req.table(Table::SourceDims), &vec![5, 3, 4]);
    assert_eq!(req.table(Table::SourceStrides), &vec![12, 4, 1]);
    assert_eq!(req.table(Table::IndexDims), &vec![5]);
    assert_eq!(req.table(Table::IndexStrides), &vec![1]);
    assert_eq!(req.table(Table::OutputDims), &vec![5, 4]);
    assert_eq!(req.table(Table::OutputStrides), &vec![4, 1]);
}

#[test]
fn a_call_runs_through_its_script() {
    let script = gather_forward().script();
    assert_eq!(begin(&script), Progress::Perform(0));
    assert_eq!(begin(&Vec::new()), Progress::Finished);
    assert_eq!(advance(&script, 0, Reply::Loaded(false)), Progress::Perform(1));
    assert_eq!(advance(&script, 1, Reply::Succeeded), Progress::Perform(2));
    let mut at = 2;
    let mut performed = vec![script[0], script[1]];
    loop {
        performed.push(script[at]);
        match advance(&script, at, Reply::Succeeded) {
            Progress::Perform(next) => at = next,
            Progress::Finished => break,
            Progress::Failed(e) => panic!("no action was refused, yet: {e:?}"),
        }
    }
    assert_eq!(performed, script);
}

#[test]
fn a_loaded_kernel_is_not_loaded_again() {
    let script = gather_forward().script();
    assert_eq!(advance(&script, 0, Reply::Loaded(true)), Progress::Perform(2));
    assert_eq!(script[2], Action::Alloc(42));
    assert_eq!(advance(&vec![Action::HasFunc, Action::LoadPtx], 0, Reply::Loaded(true)), Progress::Finished);
    assert_eq!(advance(&vec![Action::HasFunc, Action::LoadPtx], 0, Reply::Loaded(false)), Progress::Perform(1));
}

#[test]
fn a_refusal_ends_the_call() {
    let script = select_forward().script();
    assert_eq!(advance(&script, 1, Reply::Refused(218)), Progress::Failed(Error::Driver(218)));
    assert_eq!(advance(&script, 2, Reply::Refused(2)), Progress::Failed(Error::OutOfMemory));
    assert_eq!(advance(&script, 3, Reply::Refused(2)), Progress::Failed(Error::Driver(2)));
    assert_eq!(advance(&script, 11, Reply::Refused(719)), Progress::Failed(Error::Driver(719)));
    assert_eq!(advance(&script, 11, Reply::Succeeded), Progress::Finished);
    assert_eq!(advance(&script, 10, Reply::Succeeded), Progress::Perform(11));
}

#[test]
fn a_request_is_made_only_for_tensors_that_suit_it() {
    let gather = |inp: Vec<usize>, idx: Vec<usize>, dst: usize| {
        let (a, b) = (vec![1; inp.len()], vec![1; idx.len()]);
        Request::try_forward(Lookup::Gather, ElementKind::U8, inp, a, idx, b, dst).map(|r| r.out_shape)
    };
    assert_eq!(gather(vec![5, 3], vec![2, 7], 3), Some(vec![2, 7, 3]));
    assert_eq!(gather(vec![5, 3], vec![5, 7], 2), Some(vec![5, 7]));
    assert_eq!(gather(vec![5, 3], vec![7], 2), Some(vec![7, 3]));
    assert_eq!(gather(vec![5, 3], vec![7], 1), None);
    assert_eq!(gather(vec![5, 3], vec![7], 3), None);
    assert_eq!(gather(vec![5, 3], vec![], 2), None);
    assert_eq!(gather(vec![5, 3], vec![2, 7, 4], 2), None);
    assert_eq!(gather(vec![5, 3], vec![65536, 65536], 3), None);
    assert_eq!(gather(vec![5, 1], vec![65536, 65535], 3), Some(vec![65536, 65535, 1]));
    assert_eq!(gather(vec![5, 3], vec![usize::MAX, 2], 3), None);
    let select = |inp: Vec<usize>, idx: Vec<usize>, dst: usize| {
        let (a, b) = (vec![1; inp.len()], vec![1; idx.len()]);
        Request::try_forward(Lookup::Select, ElementKind::U8, inp, a, idx, b, dst).map(|r| r.out_shape)
    };
    assert_eq!(select(vec![5, 3, 4], vec![5], 2), Some(vec![5, 4]));
    assert_eq!(select(vec![5, 3, 4], vec![], 2), Some(vec![3, 4]));
    assert_eq!(select(vec![5, 3, 4], vec![5, 3], 2), Some(vec![5, 3]));
    assert_eq!(select(vec![5, 3, 4], vec![5, 3, 4], 2), None);
    assert_eq!(select(vec![5, 3, 4], vec![5], 3), None);
    assert_eq!(select(vec![], vec![], 0), None);
    let with_strides = Request::try_forward(Lookup::Select, ElementKind::U8, vec![5, 3], vec![1], vec![], vec![], 1);
    assert!(with_strides.is_none());
    let backward = |kind: ElementKind, numel: usize| {
        Request::try_backward(Lookup::Gather, kind, vec![3], vec![1], vec![2], vec![1], vec![2], vec![1], numel)
            .map(|r| (r.pass, r.numel))
    };
    assert_eq!(backward(ElementKind::F32, 2), Some((Pass::Backward, 2)));
    assert_eq!(backward(ElementKind::I32, 2), None);
    assert_eq!(backward(ElementKind::F64, u32::MAX as usize), Some((Pass::Backward, u32::MAX as usize)));
    assert_eq!(backward(ElementKind::F64, u32::MAX as usize + 1), None);
}
