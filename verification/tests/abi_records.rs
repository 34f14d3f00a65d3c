use jsbsim_harness::abi::{
    as_bytes, from_bytes, struct_size, JsbCreateV1, JsbIcV1, JsbInV1, JsbOutV1, KiroGroundInV1,
    KiroGroundOutV1, JSB_ABI_VERSION, JSB_ERR_NOT_FINITE, JSB_ERR_STRUCT_SIZE, JSB_OK,
};

fn out_sample() -> JsbOutV1 {
    JsbOutV1 {
        struct_size: 344,
        status_flags: 1,
        sim_time_s: (2.0f64 / 120.0).to_bits(),
        lat_deg: 37.0f64.to_bits(),
        lon_deg: (-122.0f64).to_bits(),
        alt_msl_m: 1000.0f64.to_bits(),
        alt_agl_m: 900.0f64.to_bits(),
        roll_rad: 1,
        pitch_rad: 2,
        yaw_rad: 3,
        q_w: 4,
        q_x: 5,
        q_y: 6,
        q_z: 7,
        vn_mps: 8,
        ve_mps: 9,
        vd_mps: 10,
        p_rps: 11,
        q_rps: 12,
        r_rps: 13,
        ax_mps2: 14,
        ay_mps2: 15,
        az_mps2: 16,
        alpha_rad: 17,
        beta_rad: 18,
        vtas_mps: 19,
        vcas_mps: 20,
        vground_mps: 21,
        engine_count: 1,
        _pad3: 0,
        thrust_n: [22, 23, 24, 25],
        engine_rpm: [26, 27, 28, 29],
        fuel_kg: 30,
        surf_aileron: 31,
        surf_elevator: 32,
        surf_rudder: 33,
        surf_flaps: 34,
        gear_pos: 35,
        ground_queries: 7,
        trapped: 0xdead_beef,
    }
}

#[test]
fn record_sizes_match_header() {
    assert_eq!(struct_size::<JsbCreateV1>(), 24);
    assert_eq!(struct_size::<JsbIcV1>(), 64);
    assert_eq!(struct_size::<JsbInV1>(), 80);
    assert_eq!(struct_size::<JsbOutV1>(), 344);
    assert_eq!(struct_size::<KiroGroundInV1>(), 32);
    assert_eq!(struct_size::<KiroGroundOutV1>(), 112);
}

#[test]
fn status_codes_match_header() {
    assert_eq!(JSB_ABI_VERSION, 1);
    assert_eq!(JSB_OK, 0);
    assert_eq!(JSB_ERR_STRUCT_SIZE, -6);
    assert_eq!(JSB_ERR_NOT_FINITE, -10);
}

#[test]
fn create_record_image_is_little_endian_in_field_order() {
    let dt = 1.0f64 / 120.0;
    let cfg = JsbCreateV1 { struct_size: 24, abi_version: 1, dt_s: dt.to_bits(), debug_level: 3, _pad: 0 };
    let b = as_bytes(&cfg);
    let mut want = Vec::new();
    want.extend_from_slice(&24u32.to_le_bytes());
    want.extend_from_slice(&1u32.to_le_bytes());
    want.extend_from_slice(&dt.to_le_bytes());
    want.extend_from_slice(&3u32.to_le_bytes());
    want.extend_from_slice(&0u32.to_le_bytes());
    assert_eq!(b, want);
}

#[test]
fn output_record_offsets() {
    let o = out_sample();
    let b = as_bytes(&o);
    assert_eq!(b.len(), 344);
    assert_eq!(&b[0..4], &344u32.to_le_bytes());
    assert_eq!(&b[4..8], &1u32.to_le_bytes());
    assert_eq!(f64::from_le_bytes(b[8..16].try_into().unwrap()), 2.0 / 120.0);
    assert_eq!(f64::from_le_bytes(b[40..48].try_into().unwrap()), 900.0);
    assert_eq!(&b[216..220], &1u32.to_le_bytes());
    assert_eq!(&b[224..232], &22u64.to_le_bytes());
    assert_eq!(&b[256..264], &26u64.to_le_bytes());
    assert_eq!(&b[288..296], &30u64.to_le_bytes());
    assert_eq!(&b[336..340], &7u32.to_le_bytes());
    assert_eq!(&b[340..344], &0xdead_beefu32.to_le_bytes());
}

#[test]
fn output_record_roundtrip_ignores_trailing_bytes() {
    let o = out_sample();
    let mut b = as_bytes(&o);
    b.extend_from_slice(&[0xff; 16]);
    let back: JsbOutV1 = from_bytes(&b);
    assert_eq!(as_bytes(&back), as_bytes(&o));
    assert_eq!(back.thrust_n, [22, 23, 24, 25]);
    assert_eq!(back.trapped, 0xdead_beef);
    assert_eq!(f64::from_bits(back.lon_deg), -122.0);
}

#[test]
fn bytes_roundtrip_through_ground_query() {
    let raw: Vec<u8> = (0u8..40).collect();
    let q: KiroGroundInV1 = from_bytes(&raw);
    assert_eq!(q.struct_size, u32::from_le_bytes([0, 1, 2, 3]));
    assert_eq!(q.lat_deg, u64::from_le_bytes([8, 9, 10, 11, 12, 13, 14, 15]));
    assert_eq!(as_bytes(&q), raw[0..32].to_vec());
}

#[test]
fn ground_answer_image() {
    let g = KiroGroundOutV1 {
        struct_size: 112,
        status: 0,
        agl_m: 900.0f64.to_bits(),
        contact_ecef_m: [1, 2, 3],
        normal_ecef: [4, 5, 6],
        vel_ecef_mps: [0; 3],
        angvel_ecef_rps: [0; 3],
    };
    let b = as_bytes(&g);
    assert_eq!(b.len(), 112);
    assert_eq!(&b[16..24], &1u64.to_le_bytes());
    assert_eq!(&b[40..48], &4u64.to_le_bytes());
    let back: KiroGroundOutV1 = from_bytes(&b);
    assert_eq!(back.normal_ecef, [4, 5, 6]);
}

#[test]
fn input_and_ic_roundtrip() {
    let i = JsbInV1 {
        struct_size: 80,
        _pad: 0,
        aileron: 0,
        elevator: (-0.1f64).to_bits(),
        rudder: 0,
        throttle: 0.65f64.to_bits(),
        flaps: 0,
        brake_left: 0,
        brake_right: 0,
        pitch_trim: 0,
        gear_down: 1,
        _pad2: 0,
    };
    let b = as_bytes(&i);
    assert_eq!(b.len(), 80);
    assert_eq!(&b[72..76], &1u32.to_le_bytes());
    let back: JsbInV1 = from_bytes(&b);
    assert_eq!(f64::from_bits(back.throttle), 0.65);
    let ic = JsbIcV1 {
        struct_size: 64,
        _pad: 0,
        lat_deg: 37.0f64.to_bits(),
        lon_deg: (-122.0f64).to_bits(),
        alt_msl_m: 1000.0f64.to_bits(),
        heading_true_deg: 90.0f64.to_bits(),
        airspeed_tas_mps: 55.0f64.to_bits(),
        gamma_deg: 0,
        gear_down: 1,
        engines_running: 1,
    };
    let b = as_bytes(&ic);
    assert_eq!(b.len(), 64);
    let back: JsbIcV1 = from_bytes(&b);
    assert_eq!(back.engines_running, 1);
    assert_eq!(f64::from_bits(back.airspeed_tas_mps), 55.0);
}
