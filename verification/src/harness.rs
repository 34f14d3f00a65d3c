//! Decisions of the harness that drives the module: the scratch-buffer
//! layout of its calls, the model-loading sequence, the trajectory
//! schedule, and the command-line selection of what to run.
use crate::abi::{
    abi_size, lemma_record_sizes, AbiRecord, JsbCreateV1, JsbIcV1, JsbInV1, JsbOutV1,
    JSB_ABI_VERSION, JSB_OK,
};
use crate::layout::Word;
use vstd::prelude::*;

verus! {

broadcast use vstd::seq::group_seq_axioms;

/// Size of the guest scratch buffer the harness allocates once.
pub const SCRATCH_BYTES: usize = 65536;

/// Offset in the scratch buffer of the input record of a step (and of the
/// creation and initial-condition records).
pub const IN_OFFSET: usize = 0;

/// Offset of the output record of a step.
pub const OUT_OFFSET: usize = 512;

/// Offset of the 8-byte value written by `jsb_prop_get`.
pub const PROP_OFFSET: usize = 2048;

/// Offset and capacity of the text written by `jsb_last_error`.
pub const ERROR_OFFSET: usize = 4096;

pub const ERROR_CAPACITY: usize = 512;

/// The scratch slots do not overlap and all lie inside the scratch buffer,
/// whichever record a call writes at the input offset.
pub proof fn lemma_scratch_layout()
    ensures
        IN_OFFSET + abi_size::<JsbCreateV1>() <= OUT_OFFSET,
        IN_OFFSET + abi_size::<JsbIcV1>() <= OUT_OFFSET,
        IN_OFFSET + abi_size::<JsbInV1>() <= OUT_OFFSET,
        OUT_OFFSET + abi_size::<JsbOutV1>() <= PROP_OFFSET,
        PROP_OFFSET + 8 <= ERROR_OFFSET,
        ERROR_OFFSET + ERROR_CAPACITY <= SCRATCH_BYTES,
{
    lemma_record_sizes();
}

/// Number of bytes of error text to read back after `jsb_last_error`
/// returned `n`: at most one less than the capacity; a negative `n`, taken
/// as an unsigned size, is capped too.
pub fn last_error_len(n: i32) -> (r: usize)
    ensures
        r == (if n < 0 || n > 511 {
            511
        } else {
            n as int
        }),
{
    if n < 0 || n > 511 {
        511
    } else {
        n as usize
    }
}

/// Creation parameters for a time step of `dt_s` (IEEE-754 bit pattern),
/// at the current ABI version, with debug output off.
pub fn create_config(dt_s: u64) -> (r: JsbCreateV1)
    ensures
        r.struct_size == abi_size::<JsbCreateV1>(),
        r.abi_version == JSB_ABI_VERSION,
        r.dt_s == dt_s,
        r.debug_level == 0,
        r._pad == 0,
{
    JsbCreateV1 {
        struct_size: crate::abi::struct_size::<JsbCreateV1>(),
        abi_version: JSB_ABI_VERSION,
        dt_s,
        debug_level: 0,
        _pad: 0,
    }
}

pub open spec fn word_is_zero(w: Word) -> bool {
    match w {
        Word::U32(x) => x == 0,
        Word::U64(x) => x == 0,
    }
}

/// The output record the harness places before a step: its own size in
/// `struct_size` (which the module checks) and zero everywhere else.
pub fn step_out_template() -> (r: JsbOutV1)
    ensures
        r.struct_size == abi_size::<JsbOutV1>(),
        forall|i: int| 1 <= i < r.spec_words().len() ==> word_is_zero(#[trigger] r.spec_words()[i]),
{
    JsbOutV1 {
        struct_size: crate::abi::struct_size::<JsbOutV1>(),
        status_flags: 0,
        sim_time_s: 0,
        lat_deg: 0,
        lon_deg: 0,
        alt_msl_m: 0,
        alt_agl_m: 0,
        roll_rad: 0,
        pitch_rad: 0,
        yaw_rad: 0,
        q_w: 0,
        q_x: 0,
        q_y: 0,
        q_z: 0,
        vn_mps: 0,
        ve_mps: 0,
        vd_mps: 0,
        p_rps: 0,
        q_rps: 0,
        r_rps: 0,
        ax_mps2: 0,
        ay_mps2: 0,
        az_mps2: 0,
        alpha_rad: 0,
        beta_rad: 0,
        vtas_mps: 0,
        vcas_mps: 0,
        vground_mps: 0,
        engine_count: 0,
        _pad3: 0,
        thrust_n: [0, 0, 0, 0],
        engine_rpm: [0, 0, 0, 0],
        fuel_kg: 0,
        surf_aileron: 0,
        surf_elevator: 0,
        surf_rudder: 0,
        surf_flaps: 0,
        gear_pos: 0,
        ground_queries: 0,
        trapped: 0,
    }
}

/// Whether bit 0 of an output record's `status_flags` (weight on wheels)
/// is set.
pub fn on_ground(status_flags: u32) -> (r: bool)
    ensures
        r == (status_flags % 2 == 1),
{
    let r = status_flags & 1 != 0;
    assert(r == (status_flags % 2 == 1)) by (bit_vector)
        requires
            r == (status_flags & 1 != 0),
    ;
    r
}

/// A status code differs from the one a check expects.
#[derive(Clone, Copy, Debug, PartialEq, Eq, Structural)]
pub struct StatusMismatch {
    pub got: i32,
    pub want: i32,
}

/// Compares a status code with the one expected.
pub fn check_status(got: i32, want: i32) -> (r: Result<(), StatusMismatch>)
    ensures
        r is Ok <==> got == want,
        r matches Err(m) ==> m == (StatusMismatch { got, want }),
{
    if got == want {
        Ok(())
    } else {
        Err(StatusMismatch { got, want })
    }
}

/// Whether every property lookup returned a usable id (ids are positive).
pub fn all_ids_found(ids: &Vec<i32>) -> (r: bool)
    ensures
        r == (forall|i: int| 0 <= i < ids@.len() ==> ids@[i] > 0),
{
    let mut i: usize = 0;
    while i < ids.len()
        invariant
            i <= ids@.len(),
            forall|j: int| 0 <= j < i ==> ids@[j] > 0,
        decreases ids@.len() - i,
    {
        if ids[i] <= 0 {
            return false;
        }
        i = i + 1;
    }
    true
}

/// Number of steps of the validation trajectory (100 s at 120 Hz).
pub const TRAJECTORY_STEPS: u32 = 12000;

/// A trajectory row is recorded every this many steps (once a second).
pub const SAMPLE_EVERY: u32 = 120;

/// What the trajectory loop does at iteration `i`: whether it records a
/// row first, then whether it steps the model (it stops after the last
/// row).
pub fn trajectory_tick(i: u32) -> (r: (bool, bool))
    requires
        i <= TRAJECTORY_STEPS,
    ensures
        r.0 == (i % SAMPLE_EVERY == 0),
        r.1 == (i < TRAJECTORY_STEPS),
{
    (i % SAMPLE_EVERY == 0, i < TRAJECTORY_STEPS)
}

/// Where the model-loading sequence stands.
#[derive(Clone, Copy, Debug, PartialEq, Eq, Structural)]
pub enum LoadState {
    /// Waiting for the handle `jsb_create` returned.
    Creating,
    /// Waiting for the status of adding file `index` to the VFS.
    Adding { handle: i32, index: usize },
    /// Waiting for the status of `jsb_load_model`.
    Loading { handle: i32 },
    /// Nothing more to do.
    Finished,
}

/// Why loading a model stopped.
#[derive(Clone, Copy, Debug, PartialEq, Eq, Structural)]
pub enum LoadFailure {
    /// `jsb_create` returned a handle that is not positive.
    Create { handle: i32 },
    /// `jsb_vfs_add` of file `index` into instance `handle` returned `rc`.
    VfsAdd { handle: i32, index: usize, rc: i32 },
    /// `jsb_load_model` on instance `handle` returned `rc`.
    Load { handle: i32, rc: i32 },
}

/// The next call the harness makes to the module, or the outcome.
#[derive(Clone, Copy, Debug, PartialEq, Eq, Structural)]
pub enum LoadAction {
    Create,
    VfsAdd { handle: i32, index: usize },
    Load { handle: i32 },
    Done { handle: i32 },
    Fail(LoadFailure),
}

/// The first file to add after creating instance `handle`, or the model
/// load where there is no file.
pub open spec fn after_create(handle: i32, n_files: usize) -> (LoadState, LoadAction) {
    if n_files == 0 {
        (LoadState::Loading { handle }, LoadAction::Load { handle })
    } else {
        (LoadState::Adding { handle, index: 0 }, LoadAction::VfsAdd { handle, index: 0 })
    }
}

/// One transition of the loading sequence on the result `rc` of the call
/// just made: create the instance, add the `n_files` pack files in order,
/// load the model; stop at the first status other than `JSB_OK`. With
/// `check_handle`, a handle that is not positive stops the sequence too.
pub open spec fn load_transition(
    state: LoadState,
    rc: i32,
    n_files: usize,
    check_handle: bool,
) -> (LoadState, LoadAction) {
    match state {
        LoadState::Creating => {
            if check_handle && rc <= 0 {
                (LoadState::Finished, LoadAction::Fail(LoadFailure::Create { handle: rc }))
            } else {
                after_create(rc, n_files)
            }
        },
        LoadState::Adding { handle, index } => {
            if rc != JSB_OK {
                (LoadState::Finished, LoadAction::Fail(LoadFailure::VfsAdd { handle, index, rc }))
            } else if index + 1 < n_files {
                (
                    LoadState::Adding { handle, index: (index + 1) as usize },
                    LoadAction::VfsAdd { handle, index: (index + 1) as usize },
                )
            } else {
                (LoadState::Loading { handle }, LoadAction::Load { handle })
            }
        },
        LoadState::Loading { handle } => {
            if rc != JSB_OK {
                (LoadState::Finished, LoadAction::Fail(LoadFailure::Load { handle, rc }))
            } else {
                (LoadState::Finished, LoadAction::Done { handle })
            }
        },
        LoadState::Finished => (
            LoadState::Finished,
            LoadAction::Fail(LoadFailure::Load { handle: 0, rc }),
        ),
    }
}

/// The states the sequence can be in while a call is outstanding.
pub open spec fn load_state_ok(state: LoadState, n_files: usize) -> bool {
    match state {
        LoadState::Adding { index, .. } => index < n_files,
        LoadState::Finished => false,
        _ => true,
    }
}

/// The sequence starts by creating the instance.
pub fn load_begin() -> (r: (LoadState, LoadAction))
    ensures
        r == (LoadState::Creating, LoadAction::Create),
{
    (LoadState::Creating, LoadAction::Create)
}

/// Advances the loading sequence with the result `rc` of the call it asked
/// for last.
pub fn load_advance(state: LoadState, rc: i32, n_files: usize, check_handle: bool) -> (r: (
    LoadState,
    LoadAction,
))
    requires
        load_state_ok(state, n_files),
    ensures
        r == load_transition(state, rc, n_files, check_handle),
        r.0 is Finished || load_state_ok(r.0, n_files),
{
    match state {
        LoadState::Creating => {
            if check_handle && rc <= 0 {
                (LoadState::Finished, LoadAction::Fail(LoadFailure::Create { handle: rc }))
            } else if n_files == 0 {
                (LoadState::Loading { handle: rc }, LoadAction::Load { handle: rc })
            } else {
                (
                    LoadState::Adding { handle: rc, index: 0 },
                    LoadAction::VfsAdd { handle: rc, index: 0 },
                )
            }
        },
        LoadState::Adding { handle, index } => {
            if rc != JSB_OK {
                (LoadState::Finished, LoadAction::Fail(LoadFailure::VfsAdd { handle, index, rc }))
            } else if index + 1 < n_files {
                (
                    LoadState::Adding { handle, index: index + 1 },
                    LoadAction::VfsAdd { handle, index: index + 1 },
                )
            } else {
                (LoadState::Loading { handle }, LoadAction::Load { handle })
            }
        },
        LoadState::Loading { handle } => {
            if rc != JSB_OK {
                (LoadState::Finished, LoadAction::Fail(LoadFailure::Load { handle, rc }))
            } else {
                (LoadState::Finished, LoadAction::Done { handle })
            }
        },
        LoadState::Finished => (
            LoadState::Finished,
            LoadAction::Fail(LoadFailure::Load { handle: 0, rc }),
        ),
    }
}

/// Runs the loading sequence from `state` on the results of the calls it
/// asks for: `adds[i]` from adding file `i`, `load_rc` from loading the
/// model; at most `fuel` more calls.
pub open spec fn run_load(
    state: LoadState,
    action: LoadAction,
    adds: Seq<i32>,
    load_rc: i32,
    n_files: usize,
    check_handle: bool,
    fuel: nat,
) -> LoadAction
    decreases fuel,
{
    if fuel == 0 {
        action
    } else {
        match state {
            LoadState::Adding { index, .. } => {
                if index < adds.len() {
                    let (s2, a2) = load_transition(state, adds[index as int], n_files, check_handle);
                    run_load(s2, a2, adds, load_rc, n_files, check_handle, (fuel - 1) as nat)
                } else {
                    action
                }
            },
            LoadState::Loading { .. } => {
                let (s2, a2) = load_transition(state, load_rc, n_files, check_handle);
                run_load(s2, a2, adds, load_rc, n_files, check_handle, (fuel - 1) as nat)
            },
            _ => action,
        }
    }
}

/// The first status in `adds` from index `i` on that is not `JSB_OK`.
pub open spec fn first_failure(adds: Seq<i32>, i: int) -> Option<int>
    decreases adds.len() - i,
{
    if i < 0 || i >= adds.len() {
        None
    } else if adds[i] != JSB_OK {
        Some(i)
    } else {
        first_failure(adds, i + 1)
    }
}

/// The outcome once the instance exists, looking at the adds from `k` on.
pub open spec fn outcome_from(handle: i32, adds: Seq<i32>, k: int, load_rc: i32) -> LoadAction {
    match first_failure(adds, k) {
        Some(i) => LoadAction::Fail(LoadFailure::VfsAdd { handle, index: i as usize, rc: adds[i] }),
        None => if load_rc != JSB_OK {
            LoadAction::Fail(LoadFailure::Load { handle, rc: load_rc })
        } else {
            LoadAction::Done { handle }
        },
    }
}

/// The outcome of loading a model as the harness reports it: the handle
/// when the instance was created (a positive handle, where handles are
/// checked), every file was added and the model loaded with `JSB_OK`; else
/// the first call that failed.
pub open spec fn load_outcome(check_handle: bool, handle: i32, adds: Seq<i32>, load_rc: i32) -> LoadAction {
    if check_handle && handle <= 0 {
        LoadAction::Fail(LoadFailure::Create { handle })
    } else {
        outcome_from(handle, adds, 0, load_rc)
    }
}

proof fn lemma_run_from(
    handle: i32,
    k: usize,
    adds: Seq<i32>,
    load_rc: i32,
    n_files: usize,
    check_handle: bool,
)
    requires
        adds.len() == n_files,
        k < n_files,
    ensures
        run_load(
            LoadState::Adding { handle, index: k },
            LoadAction::VfsAdd { handle, index: k },
            adds,
            load_rc,
            n_files,
            check_handle,
            (n_files - k + 1) as nat,
        ) == outcome_from(handle, adds, k as int, load_rc),
    decreases n_files - k,
{
    let st = LoadState::Adding { handle, index: k };
    let fuel = (n_files - k + 1) as nat;
    let (s1, a1) = load_transition(st, adds[k as int], n_files, check_handle);
    assert(run_load(st, LoadAction::VfsAdd { handle, index: k }, adds, load_rc, n_files, check_handle, fuel)
        == run_load(s1, a1, adds, load_rc, n_files, check_handle, (fuel - 1) as nat));
    if adds[k as int] == JSB_OK {
        if k + 1 < n_files {
            lemma_run_from(handle, (k + 1) as usize, adds, load_rc, n_files, check_handle);
        } else {
            assert(first_failure(adds, k + 1) is None);
            let (s2, a2) = load_transition(s1, load_rc, n_files, check_handle);
            assert(run_load(s1, a1, adds, load_rc, n_files, check_handle, 1) == run_load(
                s2,
                a2,
                adds,
                load_rc,
                n_files,
                check_handle,
                0,
            ));
        }
    } else {
        assert(run_load(s1, a1, adds, load_rc, n_files, check_handle, (fuel - 1) as nat) == a1);
    }
}

/// No status fails from index `k` on exactly when `first_failure` finds
/// none; the first failing status is the one `first_failure` finds.
proof fn lemma_first_failure(adds: Seq<i32>, k: int)
    requires
        0 <= k <= adds.len(),
    ensures
        first_failure(adds, k) is None <==> (forall|i: int| k <= i < adds.len() ==> adds[i] == JSB_OK),
        forall|i: int|
            k <= i < adds.len() && adds[i] != JSB_OK && (forall|j: int| k <= j < i ==> adds[j] == JSB_OK)
                ==> first_failure(adds, k) == Some(i),
    decreases adds.len() - k,
{
    if k < adds.len() {
        lemma_first_failure(adds, k + 1);
        if adds[k] == JSB_OK {
            assert forall|i: int|
                k <= i < adds.len() && adds[i] != JSB_OK && (forall|j: int| k <= j < i ==> adds[j] == JSB_OK)
                    implies first_failure(adds, k) == Some(i) by {
                assert(i != k);
                assert forall|j: int| k + 1 <= j < i implies adds[j] == JSB_OK by {}
            }
            if !(forall|i: int| k <= i < adds.len() ==> adds[i] == JSB_OK) {
                let w = choose|i: int| !(k <= i < adds.len() ==> adds[i] == JSB_OK);
                assert(w != k);
            }
        } else {
            assert forall|i: int|
                k <= i < adds.len() && adds[i] != JSB_OK && (forall|j: int| k <= j < i ==> adds[j] == JSB_OK)
                    implies first_failure(adds, k) == Some(i) by {
                if i > k {
                    assert(adds[k] == JSB_OK);
                }
            }
        }
    }
}

/// Driving the loading sequence with the results of the calls it asks for
/// (`handle` from `jsb_create`, `adds[i]` from adding file `i`, `load_rc`
/// from `jsb_load_model`) ends in `Done` with the handle exactly when the
/// handle is accepted and every status is `JSB_OK`; otherwise it reports
/// the first call that failed, with its status.
pub proof fn lemma_load_sequence(
    handle: i32,
    adds: Seq<i32>,
    load_rc: i32,
    n_files: usize,
    check_handle: bool,
)
    requires
        adds.len() == n_files,
    ensures
        ({
            let (s1, a1) = load_transition(LoadState::Creating, handle, n_files, check_handle);
            let r = run_load(s1, a1, adds, load_rc, n_files, check_handle, (n_files + 1) as nat);
            &&& r == load_outcome(check_handle, handle, adds, load_rc)
            &&& (r is Done <==> ((!check_handle || handle > 0) && (forall|i: int|
                0 <= i < adds.len() ==> adds[i] == JSB_OK) && load_rc == JSB_OK))
            &&& r is Done ==> r == LoadAction::Done { handle }
            &&& (check_handle && handle <= 0) ==> r == LoadAction::Fail(
                LoadFailure::Create { handle },
            )
            &&& ((!check_handle || handle > 0) && (forall|i: int|
                0 <= i < adds.len() ==> adds[i] == JSB_OK) && load_rc != JSB_OK) ==> r
                == LoadAction::Fail(LoadFailure::Load { handle, rc: load_rc })
            &&& forall|i: int|
                (!check_handle || handle > 0) && 0 <= i < adds.len() && adds[i] != JSB_OK && (forall|
                    j: int,
                | 0 <= j < i ==> adds[j] == JSB_OK) ==> r == LoadAction::Fail(
                    LoadFailure::VfsAdd { handle, index: i as usize, rc: adds[i] },
                )
        }),
{
    lemma_first_failure(adds, 0);
    if !(check_handle && handle <= 0) {
        if n_files == 0 {
            let st = LoadState::Loading { handle };
            let (s2, a2) = load_transition(st, load_rc, n_files, check_handle);
            assert(run_load(s2, a2, adds, load_rc, n_files, check_handle, 0) == a2);
        } else {
            lemma_run_from(handle, 0, adds, load_rc, n_files, check_handle);
        }
    }
}

/// The actions the loading sequence asks for, from `action` in `state` on,
/// when the calls return `adds[i]` for file `i` and `load_rc` for the load;
/// at most `fuel` more calls.
pub open spec fn load_trace(
    state: LoadState,
    action: LoadAction,
    adds: Seq<i32>,
    load_rc: i32,
    n_files: usize,
    check_handle: bool,
    fuel: nat,
) -> Seq<LoadAction>
    decreases fuel,
{
    if fuel == 0 {
        seq![action]
    } else {
        match state {
            LoadState::Adding { index, .. } => {
                if index < adds.len() {
                    let (s2, a2) = load_transition(state, adds[index as int], n_files, check_handle);
                    seq![action] + load_trace(
                        s2,
                        a2,
                        adds,
                        load_rc,
                        n_files,
                        check_handle,
                        (fuel - 1) as nat,
                    )
                } else {
                    seq![action]
                }
            },
            LoadState::Loading { .. } => {
                let (s2, a2) = load_transition(state, load_rc, n_files, check_handle);
                seq![action] + load_trace(
                    s2,
                    a2,
                    adds,
                    load_rc,
                    n_files,
                    check_handle,
                    (fuel - 1) as nat,
                )
            },
            _ => seq![action],
        }
    }
}

/// The `j`-th action of a successful load of `n_files` files into `handle`.
pub open spec fn success_action(handle: i32, n_files: nat, j: int) -> LoadAction {
    if j < n_files {
        LoadAction::VfsAdd { handle, index: j as usize }
    } else if j == n_files {
        LoadAction::Load { handle }
    } else {
        LoadAction::Done { handle }
    }
}

proof fn lemma_trace_from(
    handle: i32,
    k: usize,
    adds: Seq<i32>,
    load_rc: i32,
    n_files: usize,
    check_handle: bool,
)
    requires
        adds.len() == n_files,
        k < n_files,
        forall|i: int| 0 <= i < adds.len() ==> adds[i] == JSB_OK,
        load_rc == JSB_OK,
    ensures
        load_trace(
            LoadState::Adding { handle, index: k },
            LoadAction::VfsAdd { handle, index: k },
            adds,
            load_rc,
            n_files,
            check_handle,
            (n_files - k + 1) as nat,
        ) =~= Seq::new(
            (n_files - k + 2) as nat,
            |j: int| success_action(handle, n_files as nat, k + j),
        ),
    decreases n_files - k,
{
    let st = LoadState::Adding { handle, index: k };
    let (s1, a1) = load_transition(st, adds[k as int], n_files, check_handle);
    let fuel = (n_files - k + 1) as nat;
    let rest = load_trace(s1, a1, adds, load_rc, n_files, check_handle, (fuel - 1) as nat);
    if k + 1 < n_files {
        lemma_trace_from(handle, (k + 1) as usize, adds, load_rc, n_files, check_handle);
    } else {
        let (s2, a2) = load_transition(s1, load_rc, n_files, check_handle);
        assert(rest == seq![a1] + load_trace(s2, a2, adds, load_rc, n_files, check_handle, 0));
        assert(rest =~= seq![a1, a2]);
    }
}

/// When the instance is created and every call succeeds, the sequence asks
/// for exactly: adding file 0, 1, ..., `n_files - 1` into the created
/// instance, in that order, then loading the model, and ends with the
/// created handle.
pub proof fn lemma_load_order(
    handle: i32,
    adds: Seq<i32>,
    load_rc: i32,
    n_files: usize,
    check_handle: bool,
)
    requires
        adds.len() == n_files,
        !check_handle || handle > 0,
        forall|i: int| 0 <= i < adds.len() ==> adds[i] == JSB_OK,
        load_rc == JSB_OK,
    ensures
        ({
            let (s1, a1) = load_transition(LoadState::Creating, handle, n_files, check_handle);
            load_trace(s1, a1, adds, load_rc, n_files, check_handle, (n_files + 1) as nat)
        }) =~= Seq::new((n_files + 2) as nat, |j: int| success_action(handle, n_files as nat, j)),
{
    if n_files == 0 {
        let st = LoadState::Loading { handle };
        let (s2, a2) = load_transition(st, load_rc, n_files, check_handle);
        assert(load_trace(st, LoadAction::Load { handle }, adds, load_rc, n_files, check_handle, 1)
            == seq![LoadAction::Load { handle }] + load_trace(
            s2,
            a2,
            adds,
            load_rc,
            n_files,
            check_handle,
            0,
        ));
    } else {
        lemma_trace_from(handle, 0, adds, load_rc, n_files, check_handle);
    }
}

/// Where `name` first occurs in `args`, looking from index `i` on.
pub open spec fn position_from(args: Seq<Seq<char>>, name: Seq<char>, i: int) -> Option<int>
    decreases args.len() - i,
{
    if i < 0 || i >= args.len() {
        None
    } else if args[i] == name {
        Some(i)
    } else {
        position_from(args, name, i + 1)
    }
}

/// The value of option `name`: the argument after its first occurrence,
/// or `default` when it does not occur or is the last argument.
pub open spec fn spec_arg_value(args: Seq<Seq<char>>, name: Seq<char>, default: Seq<char>) -> Seq<
    char,
> {
    match position_from(args, name, 0) {
        Some(i) => if i + 1 < args.len() {
            args[i + 1]
        } else {
            default
        },
        None => default,
    }
}

proof fn lemma_position_from(args: Seq<Seq<char>>, name: Seq<char>, k: int)
    requires
        0 <= k <= args.len(),
    ensures
        (forall|i: int| k <= i < args.len() ==> args[i] != name) ==> position_from(args, name, k)
            is None,
        forall|i: int|
            k <= i < args.len() && args[i] == name && (forall|j: int| k <= j < i ==> args[j] != name)
                ==> position_from(args, name, k) == Some(i),
    decreases args.len() - k,
{
    if k < args.len() {
        lemma_position_from(args, name, k + 1);
        assert forall|i: int|
            k <= i < args.len() && args[i] == name && (forall|j: int| k <= j < i ==> args[j] != name)
                implies position_from(args, name, k) == Some(i) by {
            if i > k {
                assert(args[k] != name);
                assert forall|j: int| k + 1 <= j < i implies args[j] != name by {}
            }
        }
    }
}

/// The value of an option is the argument right after the option's first
/// occurrence, when there is one; the default when the option is the last
/// argument or does not occur.
pub proof fn lemma_arg_value(args: Seq<Seq<char>>, name: Seq<char>, default: Seq<char>)
    ensures
        forall|i: int|
            #![trigger args[i]]
            0 <= i < args.len() && args[i] == name && (forall|j: int| 0 <= j < i ==> args[j] != name)
                ==> {
                &&& i + 1 < args.len() ==> spec_arg_value(args, name, default) == args[i + 1]
                &&& i + 1 == args.len() ==> spec_arg_value(args, name, default) == default
            },
        (forall|i: int| 0 <= i < args.len() ==> args[i] != name) ==> spec_arg_value(
            args,
            name,
            default,
        ) == default,
{
    lemma_position_from(args, name, 0);
}

pub open spec fn strings_view(v: Seq<String>) -> Seq<Seq<char>> {
    v.map_values(|s: String| s@)
}

/// Looks up the value of a command-line option.
pub fn arg_value(args: &Vec<String>, name: &str, default: &str) -> (r: String)
    ensures
        r@ == spec_arg_value(strings_view(args@), name@, default@),
        forall|i: int|
            #![trigger args@[i]]
            0 <= i < args@.len() && args@[i]@ == name@ && (forall|j: int|
                0 <= j < i ==> args@[j]@ != name@) ==> {
                &&& i + 1 < args@.len() ==> r@ == args@[i + 1]@
                &&& i + 1 == args@.len() ==> r@ == default@
            },
        (forall|i: int| 0 <= i < args@.len() ==> args@[i]@ != name@) ==> r@ == default@,
{
    let r = lookup_arg(args, name, default);
    proof {
        let view = strings_view(args@);
        lemma_arg_value(view, name@, default@);
        assert forall|i: int| 0 <= i < args@.len() implies #[trigger] view[i] == args@[i]@ by {}
        assert forall|i: int|
            #![trigger args@[i]]
            0 <= i < args@.len() && args@[i]@ == name@ && (forall|j: int|
                0 <= j < i ==> args@[j]@ != name@) implies {
                &&& i + 1 < args@.len() ==> r@ == args@[i + 1]@
                &&& i + 1 == args@.len() ==> r@ == default@
            } by {
            assert(view[i] == name@);
            assert forall|j: int| 0 <= j < i implies view[j] != name@ by {
                assert(view[j] == args@[j]@);
            }
            if i + 1 < args@.len() {
                assert(view[i + 1] == args@[i + 1]@);
            }
        }
        if forall|i: int| 0 <= i < args@.len() ==> args@[i]@ != name@ {
            assert forall|i: int| 0 <= i < view.len() implies view[i] != name@ by {
                assert(view[i] == args@[i]@);
            }
        }
    }
    r
}

fn lookup_arg(args: &Vec<String>, name: &str, default: &str) -> (r: String)
    ensures
        r@ == spec_arg_value(strings_view(args@), name@, default@),
{
    let key = name.to_owned();
    let ghost view = strings_view(args@);
    let mut i: usize = 0;
    while i < args.len()
        invariant
            i <= args@.len(),
            view == strings_view(args@),
            key@ == name@,
            position_from(view, name@, 0) == position_from(view, name@, i as int),
        decreases args@.len() - i,
    {
        if args[i] == key {
            assert(view[i as int] == name@);
            if i + 1 < args.len() {
                return args[i + 1].clone();
            } else {
                return default.to_owned();
            }
        }
        assert(view[i as int] != name@);
        i = i + 1;
    }
    default.to_owned()
}

/// What a run of the harness does.
#[derive(Clone, Copy, Debug, PartialEq, Eq, Structural)]
pub enum Mode {
    /// `--load-all <dir>`: load every pack of a directory.
    LoadAll,
    /// `--smoke-model <model>`: fly a model for ten seconds.
    SmokeModel,
    /// `--takeoff-smoke <elev>`: ground roll and take-off.
    Takeoff,
    /// `--settle-smoke <elev>`: drop onto the gear and settle.
    Settle,
    /// `--steer-smoke <elev>`: taxi with full rudder.
    Steer,
    /// Contract tests, then the trajectory and its comparison.
    Validate,
}

/// The first option, in this order, that was given a non-empty value
/// selects the run.
pub fn select_mode(
    load_all: &String,
    smoke_model: &String,
    takeoff: &String,
    settle: &String,
    steer: &String,
) -> (r: Mode)
    ensures
        r == (if load_all@.len() != 0 {
            Mode::LoadAll
        } else if smoke_model@.len() != 0 {
            Mode::SmokeModel
        } else if takeoff@.len() != 0 {
            Mode::Takeoff
        } else if settle@.len() != 0 {
            Mode::Settle
        } else if steer@.len() != 0 {
            Mode::Steer
        } else {
            Mode::Validate
        }),
{
    if !load_all.as_str().is_empty() {
        Mode::LoadAll
    } else if !smoke_model.as_str().is_empty() {
        Mode::SmokeModel
    } else if !takeoff.as_str().is_empty() {
        Mode::Takeoff
    } else if !settle.as_str().is_empty() {
        Mode::Settle
    } else if !steer.as_str().is_empty() {
        Mode::Steer
    } else {
        Mode::Validate
    }
}

} // verus!
