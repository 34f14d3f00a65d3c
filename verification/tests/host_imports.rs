use jsbsim_harness::abi::{as_bytes, KiroGroundOutV1};
use jsbsim_harness::wasi::{fd_write, ground_reply, GroundHit, HostState, ERRNO_BADF, ERRNO_NOENT, ERRNO_NOSYS, ERRNO_SUCCESS};

fn put_u32(mem: &mut [u8], at: usize, v: u32) {
    mem[at..at + 4].copy_from_slice(&v.to_le_bytes());
}

#[test]
fn fd_write_gathers_iovecs_in_order() {
    let mut mem = vec![0u8; 64];
    mem[40..45].copy_from_slice(b"hello");
    mem[50..53].copy_from_slice(b" yo");
    put_u32(&mut mem, 0, 40);
    put_u32(&mut mem, 4, 5);
    put_u32(&mut mem, 8, 50);
    put_u32(&mut mem, 12, 3);
    let w = fd_write(&mem, 1, 0, 2);
    assert!(w.echo);
    assert_eq!(w.bytes, b"hello yo".to_vec());
    assert_eq!(w.written, 8);
}

#[test]
fn fd_write_only_echoes_stdout_and_stderr() {
    let mut mem = vec![0u8; 32];
    put_u32(&mut mem, 16, 0);
    put_u32(&mut mem, 20, 4);
    assert!(fd_write(&mem, 2, 16, 1).echo);
    let w = fd_write(&mem, 3, 16, 1);
    assert!(!w.echo);
    assert_eq!(w.written, 4);
    assert!(!fd_write(&mem, 0, 16, 1).echo);
}

#[test]
fn fd_write_with_no_iovecs_writes_nothing() {
    let mem = vec![0u8; 4];
    let w = fd_write(&mem, 1, 0, 0);
    assert!(w.bytes.is_empty());
    assert_eq!(w.written, 0);
}

#[test]
fn errno_values() {
    assert_eq!(ERRNO_SUCCESS, 0);
    assert_eq!(ERRNO_BADF, 8);
    assert_eq!(ERRNO_NOENT, 44);
    assert_eq!(ERRNO_NOSYS, 52);
}

#[test]
fn ground_queries_are_counted() {
    let mut st = HostState::new();
    assert_eq!(st.ground_calls, 0);
    st.ground_elev_m = 100.0f64.to_bits();
    let (miss, elev) = st.begin_ground_query();
    assert!(!miss);
    assert_eq!(f64::from_bits(elev), 100.0);
    st.ground_miss = true;
    let (miss, _) = st.begin_ground_query();
    assert!(miss);
    assert_eq!(st.ground_calls, 2);
}

#[test]
fn ground_miss_answers_status_one_and_no_payload() {
    let r = ground_reply(None);
    assert_eq!(r.struct_size, 112);
    assert_eq!(r.status, 1);
    let b = as_bytes(&r);
    assert!(b[8..].iter().all(|&x| x == 0));
}

#[test]
fn ground_hit_answers_terrain() {
    let r: KiroGroundOutV1 = ground_reply(Some(GroundHit {
        agl_m: 900.0f64.to_bits(),
        contact_ecef_m: [1, 2, 3],
        normal_ecef: [4, 5, 6],
    }));
    assert_eq!(r.status, 0);
    assert_eq!(f64::from_bits(r.agl_m), 900.0);
    assert_eq!(r.contact_ecef_m, [1, 2, 3]);
    assert_eq!(r.normal_ecef, [4, 5, 6]);
    assert_eq!(r.vel_ecef_mps, [0; 3]);
    assert_eq!(r.angvel_ecef_rps, [0; 3]);
}
