use jsbsim_harness::abi::{as_bytes, JSB_ERR_BAD_HANDLE, JSB_ERR_LOAD_FAILED, JSB_OK};
use jsbsim_harness::harness::{
    all_ids_found, arg_value, check_status, create_config, last_error_len, load_advance,
    load_begin, on_ground, select_mode, step_out_template, trajectory_tick, LoadAction,
    LoadFailure, LoadState, Mode, StatusMismatch, ERROR_CAPACITY, ERROR_OFFSET, OUT_OFFSET,
    PROP_OFFSET, SCRATCH_BYTES,
};

fn run(check: bool, handle: i32, adds: &[i32], load_rc: i32) -> LoadAction {
    let n = adds.len();
    let (mut st, mut act) = load_begin();
    loop {
        let rc = match act {
            LoadAction::Create => handle,
            LoadAction::VfsAdd { index, .. } => adds[index],
            LoadAction::Load { .. } => load_rc,
            done => return done,
        };
        let (s, a) = load_advance(st, rc, n, check);
        st = s;
        act = a;
    }
}

#[test]
fn load_sequence_succeeds_when_every_call_does() {
    assert_eq!(run(true, 5, &[JSB_OK, JSB_OK, JSB_OK], JSB_OK), LoadAction::Done { handle: 5 });
    assert_eq!(run(true, 5, &[], JSB_OK), LoadAction::Done { handle: 5 });
}

#[test]
fn load_sequence_stops_at_first_failure() {
    assert_eq!(
        run(true, 5, &[JSB_OK, -5, JSB_ERR_BAD_HANDLE], JSB_OK),
        LoadAction::Fail(LoadFailure::VfsAdd { handle: 5, index: 1, rc: -5 })
    );
    assert_eq!(
        run(true, 5, &[JSB_OK], JSB_ERR_LOAD_FAILED),
        LoadAction::Fail(LoadFailure::Load { handle: 5, rc: JSB_ERR_LOAD_FAILED })
    );
    assert_eq!(run(true, 0, &[JSB_OK], JSB_OK), LoadAction::Fail(LoadFailure::Create { handle: 0 }));
    assert_eq!(run(true, -3, &[], JSB_OK), LoadAction::Fail(LoadFailure::Create { handle: -3 }));
}

#[test]
fn load_sequence_without_handle_check_goes_on() {
    assert_eq!(run(false, -3, &[JSB_OK], JSB_OK), LoadAction::Done { handle: -3 });
}

#[test]
fn load_sequence_asks_for_files_in_order() {
    let (st, a) = load_begin();
    assert_eq!((st, a), (LoadState::Creating, LoadAction::Create));
    let (st, a) = load_advance(st, 7, 2, true);
    assert_eq!(a, LoadAction::VfsAdd { handle: 7, index: 0 });
    let (st, a) = load_advance(st, JSB_OK, 2, true);
    assert_eq!(a, LoadAction::VfsAdd { handle: 7, index: 1 });
    let (st, a) = load_advance(st, JSB_OK, 2, true);
    assert_eq!(a, LoadAction::Load { handle: 7 });
    let (st, a) = load_advance(st, JSB_OK, 2, true);
    assert_eq!((st, a), (LoadState::Finished, LoadAction::Done { handle: 7 }));
}

#[test]
fn last_error_text_is_capped() {
    assert_eq!(last_error_len(0), 0);
    assert_eq!(last_error_len(37), 37);
    assert_eq!(last_error_len(511), 511);
    assert_eq!(last_error_len(512), 511);
    assert_eq!(last_error_len(-1), 511);
}

#[test]
fn scratch_slots_fit() {
    assert_eq!(SCRATCH_BYTES, 65536);
    assert!(OUT_OFFSET + 344 <= PROP_OFFSET);
    assert!(ERROR_OFFSET + ERROR_CAPACITY <= SCRATCH_BYTES);
}

#[test]
fn create_config_fields() {
    let dt = 1.0f64 / 120.0;
    let c = create_config(dt.to_bits());
    assert_eq!(c.struct_size, 24);
    assert_eq!(c.abi_version, 1);
    assert_eq!(f64::from_bits(c.dt_s), dt);
    assert_eq!(c.debug_level, 0);
}

#[test]
fn step_template_is_sized_and_zero() {
    let t = step_out_template();
    assert_eq!(t.struct_size, 344);
    let b = as_bytes(&t);
    assert_eq!(&b[0..4], &344u32.to_le_bytes());
    assert!(b[4..].iter().all(|&x| x == 0));
}

#[test]
fn on_ground_reads_bit_zero() {
    assert!(on_ground(1));
    assert!(on_ground(3));
    assert!(!on_ground(2));
    assert!(!on_ground(0));
}

#[test]
fn status_check() {
    assert_eq!(check_status(0, 0), Ok(()));
    assert_eq!(check_status(-6, -1), Err(StatusMismatch { got: -6, want: -1 }));
}

#[test]
fn property_ids_must_be_positive() {
    assert!(all_ids_found(&vec![1, 2, 3]));
    assert!(all_ids_found(&vec![]));
    assert!(!all_ids_found(&vec![1, 0, 3]));
    assert!(!all_ids_found(&vec![-9]));
}

#[test]
fn trajectory_schedule() {
    assert_eq!(trajectory_tick(0), (true, true));
    assert_eq!(trajectory_tick(1), (false, true));
    assert_eq!(trajectory_tick(120), (true, true));
    assert_eq!(trajectory_tick(12000), (true, false));
    let rows = (0..=12000u32).filter(|&i| trajectory_tick(i).0).count();
    assert_eq!(rows, 101);
}

#[test]
fn option_lookup() {
    let args: Vec<String> = ["prog", "--pack", "p.jsbpack", "--module", "m.wasm", "--pack", "q", "--ref"]
        .iter()
        .map(|s| s.to_string())
        .collect();
    assert_eq!(arg_value(&args, "--pack", "d"), "p.jsbpack");
    assert_eq!(arg_value(&args, "--module", "d"), "m.wasm");
    assert_eq!(arg_value(&args, "--out", "dist/wasm_trajectory.csv"), "dist/wasm_trajectory.csv");
    assert_eq!(arg_value(&args, "--ref", "r.csv"), "r.csv");
}

#[test]
fn mode_priority() {
    let e = String::new();
    let x = "x".to_string();
    assert_eq!(select_mode(&x, &x, &x, &x, &x), Mode::LoadAll);
    assert_eq!(select_mode(&e, &x, &x, &e, &e), Mode::SmokeModel);
    assert_eq!(select_mode(&e, &e, &x, &x, &e), Mode::Takeoff);
    assert_eq!(select_mode(&e, &e, &e, &x, &x), Mode::Settle);
    assert_eq!(select_mode(&e, &e, &e, &e, &x), Mode::Steer);
    assert_eq!(select_mode(&e, &e, &e, &e, &e), Mode::Validate);
}
