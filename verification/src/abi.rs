//! The versioned C ABI shared with the flight-model module (v1): status
//! codes and the byte images of the records passed across the boundary.
//!
//! Every record is `#[repr(C)]` on the module side with explicit padding
//! words, so its image is exactly the little-endian words of its fields in
//! declaration order.
use crate::layout::{
    decode_words, encode_words, layout_bytes, layout_of, layout_size, lemma_decode_encode_words,
    lemma_decode_word_at, lemma_encode_word_at, lemma_layout_size_bound, lemma_word_offset_step,
    lemma_encode_decode_words, lemma_encode_len, word_offset, read_words, word_u32, word_u64, width_of,
    write_words, Width, Word,
};
use vstd::bytes::{
    spec_u32_from_le_bytes, spec_u32_to_le_bytes, spec_u64_from_le_bytes, spec_u64_to_le_bytes,
};
use vstd::prelude::*;

verus! {

broadcast use vstd::array::group_array_axioms;

pub const JSB_ABI_VERSION: u32 = 1;

pub const JSB_OK: i32 = 0;

pub const JSB_ERR_BAD_HANDLE: i32 = -1;

pub const JSB_ERR_BAD_ARG: i32 = -2;

pub const JSB_ERR_EXCEPTION: i32 = -3;

pub const JSB_ERR_NOT_LOADED: i32 = -4;

pub const JSB_ERR_VFS_LIMIT: i32 = -5;

pub const JSB_ERR_STRUCT_SIZE: i32 = -6;

pub const JSB_ERR_LOAD_FAILED: i32 = -7;

pub const JSB_ERR_INIT_FAILED: i32 = -8;

pub const JSB_ERR_PROP: i32 = -9;

pub const JSB_ERR_NOT_FINITE: i32 = -10;

pub const JSB_MAX_ENGINES: usize = 4;

/// A record of the ABI: a fixed sequence of 32- and 64-bit words.
pub trait AbiRecord: Sized {
    /// Widths of the record's words, in memory order.
    spec fn spec_layout() -> Seq<Width>;

    /// The record's words, in memory order.
    spec fn spec_words(&self) -> Seq<Word>;

    /// The record whose words are `ws`.
    spec fn spec_from_words(ws: Seq<Word>) -> Self;

    fn layout() -> (r: Vec<Width>)
        ensures
            r@ == Self::spec_layout(),
    ;

    fn to_words(&self) -> (r: Vec<Word>)
        ensures
            r@ == self.spec_words(),
    ;

    fn from_words(ws: &Vec<Word>) -> (r: Self)
        requires
            layout_of(ws@) == Self::spec_layout(),
        ensures
            r == Self::spec_from_words(ws@),
    ;

    proof fn lemma_layout_len()
        ensures
            Self::spec_layout().len() <= 64,
    ;

    proof fn lemma_words(&self)
        ensures
            layout_of(self.spec_words()) == Self::spec_layout(),
            Self::spec_from_words(self.spec_words()) == *self,
    ;

    proof fn lemma_from_words(ws: Seq<Word>)
        requires
            layout_of(ws) == Self::spec_layout(),
        ensures
            Self::spec_from_words(ws).spec_words() == ws,
    ;
}

/// Byte size of a record type.
pub open spec fn abi_size<T: AbiRecord>() -> nat {
    layout_size(T::spec_layout())
}

/// Byte image of a record.
pub open spec fn abi_encode<T: AbiRecord>(v: T) -> Seq<u8> {
    encode_words(v.spec_words())
}

/// The record stored at the front of `b`.
pub open spec fn abi_decode<T: AbiRecord>(b: Seq<u8>) -> T {
    T::spec_from_words(decode_words(T::spec_layout(), b))
}

/// The byte image of a record, as the module sees it in its memory.
pub fn as_bytes<T: AbiRecord>(v: &T) -> (r: Vec<u8>)
    ensures
        r@ == abi_encode(*v),
        r@.len() == abi_size::<T>(),
{
    proof {
        v.lemma_words();
        lemma_encode_len(v.spec_words());
    }
    let ws = v.to_words();
    write_words(&ws)
}

/// The record stored at the front of `b`; bytes past the record are ignored.
pub fn from_bytes<T: AbiRecord>(b: &[u8]) -> (r: T)
    requires
        abi_size::<T>() <= b@.len(),
    ensures
        r == abi_decode::<T>(b@),
{
    let layout = T::layout();
    let ws = read_words(&layout, b);
    proof {
        lemma_encode_decode_words(T::spec_layout(), b@);
    }
    T::from_words(&ws)
}

/// Byte size of a record type, for its `struct_size` field.
pub fn struct_size<T: AbiRecord>() -> (n: u32)
    ensures
        n == abi_size::<T>(),
{
    let layout = T::layout();
    proof {
        T::lemma_layout_len();
        lemma_layout_size_bound(layout@);
    }
    let n = layout_bytes(&layout);
    n as u32
}

/// Reading a record back from its byte image gives the record, whatever
/// bytes follow the image; the image is exactly `abi_size` bytes long.
pub proof fn lemma_decode_encode<T: AbiRecord>(v: T, rest: Seq<u8>)
    ensures
        abi_encode(v).len() == abi_size::<T>(),
        abi_decode::<T>(abi_encode(v) + rest) == v,
{
    v.lemma_words();
    lemma_encode_len(v.spec_words());
    lemma_decode_encode_words(v.spec_words(), rest);
}

/// Every byte of a record's image is significant: decoding bytes and
/// encoding the record again gives back the bytes that were read.
pub proof fn lemma_encode_decode<T: AbiRecord>(b: Seq<u8>)
    requires
        abi_size::<T>() <= b.len(),
    ensures
        abi_encode(abi_decode::<T>(b)) == b.take(abi_size::<T>() as int),
{
    lemma_encode_decode_words(T::spec_layout(), b);
    T::lemma_from_words(decode_words(T::spec_layout(), b));
}

/// Creation parameters handed to `jsb_create`.
///
/// Fields that the module declares as `f64` hold the IEEE-754 binary64
/// bit pattern of the value.
pub struct JsbCreateV1 {
    pub struct_size: u32,
    pub abi_version: u32,
    pub dt_s: u64,
    pub debug_level: u32,
    pub _pad: u32,
}

impl AbiRecord for JsbCreateV1 {
    open spec fn spec_layout() -> Seq<Width> {
        seq![
            Width::W4,
            Width::W4,
            Width::W8,
            Width::W4,
            Width::W4,
        ]
    }

    open spec fn spec_words(&self) -> Seq<Word> {
        seq![
            Word::U32(self.struct_size),
            Word::U32(self.abi_version),
            Word::U64(self.dt_s),
            Word::U32(self.debug_level),
            Word::U32(self._pad),
        ]
    }

    open spec fn spec_from_words(ws: Seq<Word>) -> Self {
        JsbCreateV1 {
            struct_size: word_u32(ws[0]),
            abi_version: word_u32(ws[1]),
            dt_s: word_u64(ws[2]),
            debug_level: word_u32(ws[3]),
            _pad: word_u32(ws[4]),
        }
    }

    fn layout() -> (r: Vec<Width>) {
        vec![
            Width::W4,
            Width::W4,
            Width::W8,
            Width::W4,
            Width::W4,
        ]
    }

    fn to_words(&self) -> (r: Vec<Word>) {
        vec![
            Word::U32(self.struct_size),
            Word::U32(self.abi_version),
            Word::U64(self.dt_s),
            Word::U32(self.debug_level),
            Word::U32(self._pad),
        ]
    }

    fn from_words(ws: &Vec<Word>) -> (r: Self) {
        proof {
            assert(layout_of(ws@).len() == ws@.len());
        }
        JsbCreateV1 {
            struct_size: ws[0].get_u32(),
            abi_version: ws[1].get_u32(),
            dt_s: ws[2].get_u64(),
            debug_level: ws[3].get_u32(),
            _pad: ws[4].get_u32(),
        }
    }

    proof fn lemma_layout_len() {
    }

    proof fn lemma_words(&self) {
        assert(layout_of(self.spec_words()) =~= Self::spec_layout());
    }

    proof fn lemma_from_words(ws: Seq<Word>) {
        assert(layout_of(ws).len() == ws.len());
        assert(ws.len() == 5);
        assert forall|i: int| 0 <= i < ws.len() implies #[trigger] width_of(ws[i])
            == Self::spec_layout()[i] by {
            assert(layout_of(ws)[i] == width_of(ws[i]));
        }
        assert(Self::spec_from_words(ws).spec_words() =~= ws);
    }
}

/// Initial conditions handed to `jsb_init`.
///
/// Fields that the module declares as `f64` hold the IEEE-754 binary64
/// bit pattern of the value.
pub struct JsbIcV1 {
    pub struct_size: u32,
    pub _pad: u32,
    pub lat_deg: u64,
    pub lon_deg: u64,
    pub alt_msl_m: u64,
    pub heading_true_deg: u64,
    pub airspeed_tas_mps: u64,
    pub gamma_deg: u64,
    pub gear_down: u32,
    pub engines_running: u32,
}

impl AbiRecord for JsbIcV1 {
    open spec fn spec_layout() -> Seq<Width> {
        seq![
            Width::W4,
            Width::W4,
            Width::W8,
            Width::W8,
            Width::W8,
            Width::W8,
            Width::W8,
            Width::W8,
            Width::W4,
            Width::W4,
        ]
    }

    open spec fn spec_words(&self) -> Seq<Word> {
        seq![
            Word::U32(self.struct_size),
            Word::U32(self._pad),
            Word::U64(self.lat_deg),
            Word::U64(self.lon_deg),
            Word::U64(self.alt_msl_m),
            Word::U64(self.heading_true_deg),
            Word::U64(self.airspeed_tas_mps),
            Word::U64(self.gamma_deg),
            Word::U32(self.gear_down),
            Word::U32(self.engines_running),
        ]
    }

    open spec fn spec_from_words(ws: Seq<Word>) -> Self {
        JsbIcV1 {
            struct_size: word_u32(ws[0]),
            _pad: word_u32(ws[1]),
            lat_deg: word_u64(ws[2]),
            lon_deg: word_u64(ws[3]),
            alt_msl_m: word_u64(ws[4]),
            heading_true_deg: word_u64(ws[5]),
            airspeed_tas_mps: word_u64(ws[6]),
            gamma_deg: word_u64(ws[7]),
            gear_down: word_u32(ws[8]),
            engines_running: word_u32(ws[9]),
        }
    }

    fn layout() -> (r: Vec<Width>) {
        vec![
            Width::W4,
            Width::W4,
            Width::W8,
            Width::W8,
            Width::W8,
            Width::W8,
            Width::W8,
            Width::W8,
            Width::W4,
            Width::W4,
        ]
    }

    fn to_words(&self) -> (r: Vec<Word>) {
        vec![
            Word::U32(self.struct_size),
            Word::U32(self._pad),
            Word::U64(self.lat_deg),
            Word::U64(self.lon_deg),
            Word::U64(self.alt_msl_m),
            Word::U64(self.heading_true_deg),
            Word::U64(self.airspeed_tas_mps),
            Word::U64(self.gamma_deg),
            Word::U32(self.gear_down),
            Word::U32(self.engines_running),
        ]
    }

    fn from_words(ws: &Vec<Word>) -> (r: Self) {
        proof {
            assert(layout_of(ws@).len() == ws@.len());
        }
        JsbIcV1 {
            struct_size: ws[0].get_u32(),
            _pad: ws[1].get_u32(),
            lat_deg: ws[2].get_u64(),
            lon_deg: ws[3].get_u64(),
            alt_msl_m: ws[4].get_u64(),
            heading_true_deg: ws[5].get_u64(),
            airspeed_tas_mps: ws[6].get_u64(),
            gamma_deg: ws[7].get_u64(),
            gear_down: ws[8].get_u32(),
            engines_running: ws[9].get_u32(),
        }
    }

    proof fn lemma_layout_len() {
    }

    proof fn lemma_words(&self) {
        assert(layout_of(self.spec_words()) =~= Self::spec_layout());
    }

    proof fn lemma_from_words(ws: Seq<Word>) {
        assert(layout_of(ws).len() == ws.len());
        assert(ws.len() == 10);
        assert forall|i: int| 0 <= i < ws.len() implies #[trigger] width_of(ws[i])
            == Self::spec_layout()[i] by {
            assert(layout_of(ws)[i] == width_of(ws[i]));
        }
        assert(Self::spec_from_words(ws).spec_words() =~= ws);
    }
}

/// Pilot inputs handed to `jsb_step_io`.
///
/// Fields that the module declares as `f64` hold the IEEE-754 binary64
/// bit pattern of the value.
pub struct JsbInV1 {
    pub struct_size: u32,
    pub _pad: u32,
    pub aileron: u64,
    pub elevator: u64,
    pub rudder: u64,
    pub throttle: u64,
    pub flaps: u64,
    pub brake_left: u64,
    pub brake_right: u64,
    pub pitch_trim: u64,
    pub gear_down: u32,
    pub _pad2: u32,
}

impl AbiRecord for JsbInV1 {
    open spec fn spec_layout() -> Seq<Width> {
        seq![
            Width::W4,
            Width::W4,
            Width::W8,
            Width::W8,
            Width::W8,
            Width::W8,
            Width::W8,
            Width::W8,
            Width::W8,
            Width::W8,
            Width::W4,
            Width::W4,
        ]
    }

    open spec fn spec_words(&self) -> Seq<Word> {
        seq![
            Word::U32(self.struct_size),
            Word::U32(self._pad),
            Word::U64(self.aileron),
            Word::U64(self.elevator),
            Word::U64(self.rudder),
            Word::U64(self.throttle),
            Word::U64(self.flaps),
            Word::U64(self.brake_left),
            Word::U64(self.brake_right),
            Word::U64(self.pitch_trim),
            Word::U32(self.gear_down),
            Word::U32(self._pad2),
        ]
    }

    open spec fn spec_from_words(ws: Seq<Word>) -> Self {
        JsbInV1 {
            struct_size: word_u32(ws[0]),
            _pad: word_u32(ws[1]),
            aileron: word_u64(ws[2]),
            elevator: word_u64(ws[3]),
            rudder: word_u64(ws[4]),
            throttle: word_u64(ws[5]),
            flaps: word_u64(ws[6]),
            brake_left: word_u64(ws[7]),
            brake_right: word_u64(ws[8]),
            pitch_trim: word_u64(ws[9]),
            gear_down: word_u32(ws[10]),
            _pad2: word_u32(ws[11]),
        }
    }

    fn layout() -> (r: Vec<Width>) {
        vec![
            Width::W4,
            Width::W4,
            Width::W8,
            Width::W8,
            Width::W8,
            Width::W8,
            Width::W8,
            Width::W8,
            Width::W8,
            Width::W8,
            Width::W4,
            Width::W4,
        ]
    }

    fn to_words(&self) -> (r: Vec<Word>) {
        vec![
            Word::U32(self.struct_size),
            Word::U32(self._pad),
            Word::U64(self.aileron),
            Word::U64(self.elevator),
            Word::U64(self.rudder),
            Word::U64(self.throttle),
            Word::U64(self.flaps),
            Word::U64(self.brake_left),
            Word::U64(self.brake_right),
            Word::U64(self.pitch_trim),
            Word::U32(self.gear_down),
            Word::U32(self._pad2),
        ]
    }

    fn from_words(ws: &Vec<Word>) -> (r: Self) {
        proof {
            assert(layout_of(ws@).len() == ws@.len());
        }
        JsbInV1 {
            struct_size: ws[0].get_u32(),
            _pad: ws[1].get_u32(),
            aileron: ws[2].get_u64(),
            elevator: ws[3].get_u64(),
            rudder: ws[4].get_u64(),
            throttle: ws[5].get_u64(),
            flaps: ws[6].get_u64(),
            brake_left: ws[7].get_u64(),
            brake_right: ws[8].get_u64(),
            pitch_trim: ws[9].get_u64(),
            gear_down: ws[10].get_u32(),
            _pad2: ws[11].get_u32(),
        }
    }

    proof fn lemma_layout_len() {
    }

    proof fn lemma_words(&self) {
        assert(layout_of(self.spec_words()) =~= Self::spec_layout());
    }

    proof fn lemma_from_words(ws: Seq<Word>) {
        assert(layout_of(ws).len() == ws.len());
        assert(ws.len() == 12);
        assert forall|i: int| 0 <= i < ws.len() implies #[trigger] width_of(ws[i])
            == Self::spec_layout()[i] by {
            assert(layout_of(ws)[i] == width_of(ws[i]));
        }
        assert(Self::spec_from_words(ws).spec_words() =~= ws);
    }
}

/// State written back by `jsb_step_io`.
///
/// Fields that the module declares as `f64` hold the IEEE-754 binary64
/// bit pattern of the value.
pub struct JsbOutV1 {
    pub struct_size: u32,
    pub status_flags: u32,
    pub sim_time_s: u64,
    pub lat_deg: u64,
    pub lon_deg: u64,
    pub alt_msl_m: u64,
    pub alt_agl_m: u64,
    pub roll_rad: u64,
    pub pitch_rad: u64,
    pub yaw_rad: u64,
    pub q_w: u64,
    pub q_x: u64,
    pub q_y: u64,
    pub q_z: u64,
    pub vn_mps: u64,
    pub ve_mps: u64,
    pub vd_mps: u64,
    pub p_rps: u64,
    pub q_rps: u64,
    pub r_rps: u64,
    pub ax_mps2: u64,
    pub ay_mps2: u64,
    pub az_mps2: u64,
    pub alpha_rad: u64,
    pub beta_rad: u64,
    pub vtas_mps: u64,
    pub vcas_mps: u64,
    pub vground_mps: u64,
    pub engine_count: u32,
    pub _pad3: u32,
    pub thrust_n: [u64; 4],
    pub engine_rpm: [u64; 4],
    pub fuel_kg: u64,
    pub surf_aileron: u64,
    pub surf_elevator: u64,
    pub surf_rudder: u64,
    pub surf_flaps: u64,
    pub gear_pos: u64,
    pub ground_queries: u32,
    pub trapped: u32,
}

impl AbiRecord for JsbOutV1 {
    open spec fn spec_layout() -> Seq<Width> {
        seq![
            Width::W4,
            Width::W4,
            Width::W8,
            Width::W8,
            Width::W8,
            Width::W8,
            Width::W8,
            Width::W8,
            Width::W8,
            Width::W8,
            Width::W8,
            Width::W8,
            Width::W8,
            Width::W8,
            Width::W8,
            Width::W8,
            Width::W8,
            Width::W8,
            Width::W8,
            Width::W8,
            Width::W8,
            Width::W8,
            Width::W8,
            Width::W8,
            Width::W8,
            Width::W8,
            Width::W8,
            Width::W8,
            Width::W4,
            Width::W4,
            Width::W8,
            Width::W8,
            Width::W8,
            Width::W8,
            Width::W8,
            Width::W8,
            Width::W8,
            Width::W8,
            Width::W8,
            Width::W8,
            Width::W8,
            Width::W8,
            Width::W8,
            Width::W8,
            Width::W4,
            Width::W4,
        ]
    }

    open spec fn spec_words(&self) -> Seq<Word> {
        seq![
            Word::U32(self.struct_size),
            Word::U32(self.status_flags),
            Word::U64(self.sim_time_s),
            Word::U64(self.lat_deg),
            Word::U64(self.lon_deg),
            Word::U64(self.alt_msl_m),
            Word::U64(self.alt_agl_m),
            Word::U64(self.roll_rad),
            Word::U64(self.pitch_rad),
            Word::U64(self.yaw_rad),
            Word::U64(self.q_w),
            Word::U64(self.q_x),
            Word::U64(self.q_y),
            Word::U64(self.q_z),
            Word::U64(self.vn_mps),
            Word::U64(self.ve_mps),
            Word::U64(self.vd_mps),
            Word::U64(self.p_rps),
            Word::U64(self.q_rps),
            Word::U64(self.r_rps),
            Word::U64(self.ax_mps2),
            Word::U64(self.ay_mps2),
            Word::U64(self.az_mps2),
            Word::U64(self.alpha_rad),
            Word::U64(self.beta_rad),
            Word::U64(self.vtas_mps),
            Word::U64(self.vcas_mps),
            Word::U64(self.vground_mps),
            Word::U32(self.engine_count),
            Word::U32(self._pad3),
            Word::U64(self.thrust_n[0]),
            Word::U64(self.thrust_n[1]),
            Word::U64(self.thrust_n[2]),
            Word::U64(self.thrust_n[3]),
            Word::U64(self.engine_rpm[0]),
            Word::U64(self.engine_rpm[1]),
            Word::U64(self.engine_rpm[2]),
            Word::U64(self.engine_rpm[3]),
            Word::U64(self.fuel_kg),
            Word::U64(self.surf_aileron),
            Word::U64(self.surf_elevator),
            Word::U64(self.surf_rudder),
            Word::U64(self.surf_flaps),
            Word::U64(self.gear_pos),
            Word::U32(self.ground_queries),
            Word::U32(self.trapped),
        ]
    }

    open spec fn spec_from_words(ws: Seq<Word>) -> Self {
        JsbOutV1 {
            struct_size: word_u32(ws[0]),
            status_flags: word_u32(ws[1]),
            sim_time_s: word_u64(ws[2]),
            lat_deg: word_u64(ws[3]),
            lon_deg: word_u64(ws[4]),
            alt_msl_m: word_u64(ws[5]),
            alt_agl_m: word_u64(ws[6]),
            roll_rad: word_u64(ws[7]),
            pitch_rad: word_u64(ws[8]),
            yaw_rad: word_u64(ws[9]),
            q_w: word_u64(ws[10]),
            q_x: word_u64(ws[11]),
            q_y: word_u64(ws[12]),
            q_z: word_u64(ws[13]),
            vn_mps: word_u64(ws[14]),
            ve_mps: word_u64(ws[15]),
            vd_mps: word_u64(ws[16]),
            p_rps: word_u64(ws[17]),
            q_rps: word_u64(ws[18]),
            r_rps: word_u64(ws[19]),
            ax_mps2: word_u64(ws[20]),
            ay_mps2: word_u64(ws[21]),
            az_mps2: word_u64(ws[22]),
            alpha_rad: word_u64(ws[23]),
            beta_rad: word_u64(ws[24]),
            vtas_mps: word_u64(ws[25]),
            vcas_mps: word_u64(ws[26]),
            vground_mps: word_u64(ws[27]),
            engine_count: word_u32(ws[28]),
            _pad3: word_u32(ws[29]),
            thrust_n: [word_u64(ws[30]), word_u64(ws[31]), word_u64(ws[32]), word_u64(ws[33])],
            engine_rpm: [word_u64(ws[34]), word_u64(ws[35]), word_u64(ws[36]), word_u64(ws[37])],
            fuel_kg: word_u64(ws[38]),
            surf_aileron: word_u64(ws[39]),
            surf_elevator: word_u64(ws[40]),
            surf_rudder: word_u64(ws[41]),
            surf_flaps: word_u64(ws[42]),
            gear_pos: word_u64(ws[43]),
            ground_queries: word_u32(ws[44]),
            trapped: word_u32(ws[45]),
        }
    }

    fn layout() -> (r: Vec<Width>) {
        vec![
            Width::W4,
            Width::W4,
            Width::W8,
            Width::W8,
            Width::W8,
            Width::W8,
            Width::W8,
            Width::W8,
            Width::W8,
            Width::W8,
            Width::W8,
            Width::W8,
            Width::W8,
            Width::W8,
            Width::W8,
            Width::W8,
            Width::W8,
            Width::W8,
            Width::W8,
            Width::W8,
            Width::W8,
            Width::W8,
            Width::W8,
            Width::W8,
            Width::W8,
            Width::W8,
            Width::W8,
            Width::W8,
            Width::W4,
            Width::W4,
            Width::W8,
            Width::W8,
            Width::W8,
            Width::W8,
            Width::W8,
            Width::W8,
            Width::W8,
            Width::W8,
            Width::W8,
            Width::W8,
            Width::W8,
            Width::W8,
            Width::W8,
            Width::W8,
            Width::W4,
            Width::W4,
        ]
    }

    fn to_words(&self) -> (r: Vec<Word>) {
        vec![
            Word::U32(self.struct_size),
            Word::U32(self.status_flags),
            Word::U64(self.sim_time_s),
            Word::U64(self.lat_deg),
            Word::U64(self.lon_deg),
            Word::U64(self.alt_msl_m),
            Word::U64(self.alt_agl_m),
            Word::U64(self.roll_rad),
            Word::U64(self.pitch_rad),
            Word::U64(self.yaw_rad),
            Word::U64(self.q_w),
            Word::U64(self.q_x),
            Word::U64(self.q_y),
            Word::U64(self.q_z),
            Word::U64(self.vn_mps),
            Word::U64(self.ve_mps),
            Word::U64(self.vd_mps),
            Word::U64(self.p_rps),
            Word::U64(self.q_rps),
            Word::U64(self.r_rps),
            Word::U64(self.ax_mps2),
            Word::U64(self.ay_mps2),
            Word::U64(self.az_mps2),
            Word::U64(self.alpha_rad),
            Word::U64(self.beta_rad),
            Word::U64(self.vtas_mps),
            Word::U64(self.vcas_mps),
            Word::U64(self.vground_mps),
            Word::U32(self.engine_count),
            Word::U32(self._pad3),
            Word::U64(self.thrust_n[0]),
            Word::U64(self.thrust_n[1]),
            Word::U64(self.thrust_n[2]),
            Word::U64(self.thrust_n[3]),
            Word::U64(self.engine_rpm[0]),
            Word::U64(self.engine_rpm[1]),
            Word::U64(self.engine_rpm[2]),
            Word::U64(self.engine_rpm[3]),
            Word::U64(self.fuel_kg),
            Word::U64(self.surf_aileron),
            Word::U64(self.surf_elevator),
            Word::U64(self.surf_rudder),
            Word::U64(self.surf_flaps),
            Word::U64(self.gear_pos),
            Word::U32(self.ground_queries),
            Word::U32(self.trapped),
        ]
    }

    fn from_words(ws: &Vec<Word>) -> (r: Self) {
        proof {
            assert(layout_of(ws@).len() == ws@.len());
        }
        JsbOutV1 {
            struct_size: ws[0].get_u32(),
            status_flags: ws[1].get_u32(),
            sim_time_s: ws[2].get_u64(),
            lat_deg: ws[3].get_u64(),
            lon_deg: ws[4].get_u64(),
            alt_msl_m: ws[5].get_u64(),
            alt_agl_m: ws[6].get_u64(),
            roll_rad: ws[7].get_u64(),
            pitch_rad: ws[8].get_u64(),
            yaw_rad: ws[9].get_u64(),
            q_w: ws[10].get_u64(),
            q_x: ws[11].get_u64(),
            q_y: ws[12].get_u64(),
            q_z: ws[13].get_u64(),
            vn_mps: ws[14].get_u64(),
            ve_mps: ws[15].get_u64(),
            vd_mps: ws[16].get_u64(),
            p_rps: ws[17].get_u64(),
            q_rps: ws[18].get_u64(),
            r_rps: ws[19].get_u64(),
            ax_mps2: ws[20].get_u64(),
            ay_mps2: ws[21].get_u64(),
            az_mps2: ws[22].get_u64(),
            alpha_rad: ws[23].get_u64(),
            beta_rad: ws[24].get_u64(),
            vtas_mps: ws[25].get_u64(),
            vcas_mps: ws[26].get_u64(),
            vground_mps: ws[27].get_u64(),
            engine_count: ws[28].get_u32(),
            _pad3: ws[29].get_u32(),
            thrust_n: [ws[30].get_u64(), ws[31].get_u64(), ws[32].get_u64(), ws[33].get_u64()],
            engine_rpm: [ws[34].get_u64(), ws[35].get_u64(), ws[36].get_u64(), ws[37].get_u64()],
            fuel_kg: ws[38].get_u64(),
            surf_aileron: ws[39].get_u64(),
            surf_elevator: ws[40].get_u64(),
            surf_rudder: ws[41].get_u64(),
            surf_flaps: ws[42].get_u64(),
            gear_pos: ws[43].get_u64(),
            ground_queries: ws[44].get_u32(),
            trapped: ws[45].get_u32(),
        }
    }

    proof fn lemma_layout_len() {
    }

    proof fn lemma_words(&self) {
        assert(self.thrust_n =~= Self::spec_from_words(self.spec_words()).thrust_n);
        assert(self.engine_rpm =~= Self::spec_from_words(self.spec_words()).engine_rpm);
        assert(layout_of(self.spec_words()) =~= Self::spec_layout());
    }

    proof fn lemma_from_words(ws: Seq<Word>) {
        assert(layout_of(ws).len() == ws.len());
        assert(ws.len() == 46);
        assert forall|i: int| 0 <= i < ws.len() implies #[trigger] width_of(ws[i])
            == Self::spec_layout()[i] by {
            assert(layout_of(ws)[i] == width_of(ws[i]));
        }
        assert(Self::spec_from_words(ws).spec_words() =~= ws);
    }
}

/// Ground query the module sends to the host (`env.kiro_ground_query`).
///
/// Fields that the module declares as `f64` hold the IEEE-754 binary64
/// bit pattern of the value.
pub struct KiroGroundInV1 {
    pub struct_size: u32,
    pub _pad: u32,
    pub lat_deg: u64,
    pub lon_deg: u64,
    pub alt_msl_m: u64,
}

impl AbiRecord for KiroGroundInV1 {
    open spec fn spec_layout() -> Seq<Width> {
        seq![
            Width::W4,
            Width::W4,
            Width::W8,
            Width::W8,
            Width::W8,
        ]
    }

    open spec fn spec_words(&self) -> Seq<Word> {
        seq![
            Word::U32(self.struct_size),
            Word::U32(self._pad),
            Word::U64(self.lat_deg),
            Word::U64(self.lon_deg),
            Word::U64(self.alt_msl_m),
        ]
    }

    open spec fn spec_from_words(ws: Seq<Word>) -> Self {
        KiroGroundInV1 {
            struct_size: word_u32(ws[0]),
            _pad: word_u32(ws[1]),
            lat_deg: word_u64(ws[2]),
            lon_deg: word_u64(ws[3]),
            alt_msl_m: word_u64(ws[4]),
        }
    }

    fn layout() -> (r: Vec<Width>) {
        vec![
            Width::W4,
            Width::W4,
            Width::W8,
            Width::W8,
            Width::W8,
        ]
    }

    fn to_words(&self) -> (r: Vec<Word>) {
        vec![
            Word::U32(self.struct_size),
            Word::U32(self._pad),
            Word::U64(self.lat_deg),
            Word::U64(self.lon_deg),
            Word::U64(self.alt_msl_m),
        ]
    }

    fn from_words(ws: &Vec<Word>) -> (r: Self) {
        proof {
            assert(layout_of(ws@).len() == ws@.len());
        }
        KiroGroundInV1 {
            struct_size: ws[0].get_u32(),
            _pad: ws[1].get_u32(),
            lat_deg: ws[2].get_u64(),
            lon_deg: ws[3].get_u64(),
            alt_msl_m: ws[4].get_u64(),
        }
    }

    proof fn lemma_layout_len() {
    }

    proof fn lemma_words(&self) {
        assert(layout_of(self.spec_words()) =~= Self::spec_layout());
    }

    proof fn lemma_from_words(ws: Seq<Word>) {
        assert(layout_of(ws).len() == ws.len());
        assert(ws.len() == 5);
        assert forall|i: int| 0 <= i < ws.len() implies #[trigger] width_of(ws[i])
            == Self::spec_layout()[i] by {
            assert(layout_of(ws)[i] == width_of(ws[i]));
        }
        assert(Self::spec_from_words(ws).spec_words() =~= ws);
    }
}

/// Ground answer the host writes back to the module.
///
/// Fields that the module declares as `f64` hold the IEEE-754 binary64
/// bit pattern of the value.
pub struct KiroGroundOutV1 {
    pub struct_size: u32,
    pub status: u32,
    pub agl_m: u64,
    pub contact_ecef_m: [u64; 3],
    pub normal_ecef: [u64; 3],
    pub vel_ecef_mps: [u64; 3],
    pub angvel_ecef_rps: [u64; 3],
}

impl AbiRecord for KiroGroundOutV1 {
    open spec fn spec_layout() -> Seq<Width> {
        seq![
            Width::W4,
            Width::W4,
            Width::W8,
            Width::W8,
            Width::W8,
            Width::W8,
            Width::W8,
            Width::W8,
            Width::W8,
            Width::W8,
            Width::W8,
            Width::W8,
            Width::W8,
            Width::W8,
            Width::W8,
        ]
    }

    open spec fn spec_words(&self) -> Seq<Word> {
        seq![
            Word::U32(self.struct_size),
            Word::U32(self.status),
            Word::U64(self.agl_m),
            Word::U64(self.contact_ecef_m[0]),
            Word::U64(self.contact_ecef_m[1]),
            Word::U64(self.contact_ecef_m[2]),
            Word::U64(self.normal_ecef[0]),
            Word::U64(self.normal_ecef[1]),
            Word::U64(self.normal_ecef[2]),
            Word::U64(self.vel_ecef_mps[0]),
            Word::U64(self.vel_ecef_mps[1]),
            Word::U64(self.vel_ecef_mps[2]),
            Word::U64(self.angvel_ecef_rps[0]),
            Word::U64(self.angvel_ecef_rps[1]),
            Word::U64(self.angvel_ecef_rps[2]),
        ]
    }

    open spec fn spec_from_words(ws: Seq<Word>) -> Self {
        KiroGroundOutV1 {
            struct_size: word_u32(ws[0]),
            status: word_u32(ws[1]),
            agl_m: word_u64(ws[2]),
            contact_ecef_m: [word_u64(ws[3]), word_u64(ws[4]), word_u64(ws[5])],
            normal_ecef: [word_u64(ws[6]), word_u64(ws[7]), word_u64(ws[8])],
            vel_ecef_mps: [word_u64(ws[9]), word_u64(ws[10]), word_u64(ws[11])],
            angvel_ecef_rps: [word_u64(ws[12]), word_u64(ws[13]), word_u64(ws[14])],
        }
    }

    fn layout() -> (r: Vec<Width>) {
        vec![
            Width::W4,
            Width::W4,
            Width::W8,
            Width::W8,
            Width::W8,
            Width::W8,
            Width::W8,
            Width::W8,
            Width::W8,
            Width::W8,
            Width::W8,
            Width::W8,
            Width::W8,
            Width::W8,
            Width::W8,
        ]
    }

    fn to_words(&self) -> (r: Vec<Word>) {
        vec![
            Word::U32(self.struct_size),
            Word::U32(self.status),
            Word::U64(self.agl_m),
            Word::U64(self.contact_ecef_m[0]),
            Word::U64(self.contact_ecef_m[1]),
            Word::U64(self.contact_ecef_m[2]),
            Word::U64(self.normal_ecef[0]),
            Word::U64(self.normal_ecef[1]),
            Word::U64(self.normal_ecef[2]),
            Word::U64(self.vel_ecef_mps[0]),
            Word::U64(self.vel_ecef_mps[1]),
            Word::U64(self.vel_ecef_mps[2]),
            Word::U64(self.angvel_ecef_rps[0]),
            Word::U64(self.angvel_ecef_rps[1]),
            Word::U64(self.angvel_ecef_rps[2]),
        ]
    }

    fn from_words(ws: &Vec<Word>) -> (r: Self) {
        proof {
            assert(layout_of(ws@).len() == ws@.len());
        }
        KiroGroundOutV1 {
            struct_size: ws[0].get_u32(),
            status: ws[1].get_u32(),
            agl_m: ws[2].get_u64(),
            contact_ecef_m: [ws[3].get_u64(), ws[4].get_u64(), ws[5].get_u64()],
            normal_ecef: [ws[6].get_u64(), ws[7].get_u64(), ws[8].get_u64()],
            vel_ecef_mps: [ws[9].get_u64(), ws[10].get_u64(), ws[11].get_u64()],
            angvel_ecef_rps: [ws[12].get_u64(), ws[13].get_u64(), ws[14].get_u64()],
        }
    }

    proof fn lemma_layout_len() {
    }

    proof fn lemma_words(&self) {
        assert(self.contact_ecef_m =~= Self::spec_from_words(self.spec_words()).contact_ecef_m);
        assert(self.normal_ecef =~= Self::spec_from_words(self.spec_words()).normal_ecef);
        assert(self.vel_ecef_mps =~= Self::spec_from_words(self.spec_words()).vel_ecef_mps);
        assert(self.angvel_ecef_rps =~= Self::spec_from_words(self.spec_words()).angvel_ecef_rps);
        assert(layout_of(self.spec_words()) =~= Self::spec_layout());
    }

    proof fn lemma_from_words(ws: Seq<Word>) {
        assert(layout_of(ws).len() == ws.len());
        assert(ws.len() == 15);
        assert forall|i: int| 0 <= i < ws.len() implies #[trigger] width_of(ws[i])
            == Self::spec_layout()[i] by {
            assert(layout_of(ws)[i] == width_of(ws[i]));
        }
        assert(Self::spec_from_words(ws).spec_words() =~= ws);
    }
}

/// The record sizes are those of the module's C header (v1).
pub proof fn lemma_record_sizes()
    ensures
        abi_size::<JsbCreateV1>() == 24,
        abi_size::<JsbIcV1>() == 64,
        abi_size::<JsbInV1>() == 80,
        abi_size::<JsbOutV1>() == 344,
        abi_size::<KiroGroundInV1>() == 32,
        abi_size::<KiroGroundOutV1>() == 112,
{
    broadcast use crate::layout::lemma_layout_size_push;

    assert(layout_size(Seq::<Width>::empty()) == 0);
    assert(JsbCreateV1::spec_layout() =~= Seq::empty()
        .push(Width::W4)
        .push(Width::W4)
        .push(Width::W8)
        .push(Width::W4)
        .push(Width::W4));
    assert(JsbIcV1::spec_layout() =~= Seq::empty()
        .push(Width::W4)
        .push(Width::W4)
        .push(Width::W8)
        .push(Width::W8)
        .push(Width::W8)
        .push(Width::W8)
        .push(Width::W8)
        .push(Width::W8)
        .push(Width::W4)
        .push(Width::W4));
    assert(JsbInV1::spec_layout() =~= Seq::empty()
        .push(Width::W4)
        .push(Width::W4)
        .push(Width::W8)
        .push(Width::W8)
        .push(Width::W8)
        .push(Width::W8)
        .push(Width::W8)
        .push(Width::W8)
        .push(Width::W8)
        .push(Width::W8)
        .push(Width::W4)
        .push(Width::W4));
    assert(JsbOutV1::spec_layout() =~= Seq::empty()
        .push(Width::W4)
        .push(Width::W4)
        .push(Width::W8)
        .push(Width::W8)
        .push(Width::W8)
        .push(Width::W8)
        .push(Width::W8)
        .push(Width::W8)
        .push(Width::W8)
        .push(Width::W8)
        .push(Width::W8)
        .push(Width::W8)
        .push(Width::W8)
        .push(Width::W8)
        .push(Width::W8)
        .push(Width::W8)
        .push(Width::W8)
        .push(Width::W8)
        .push(Width::W8)
        .push(Width::W8)
        .push(Width::W8)
        .push(Width::W8)
        .push(Width::W8)
        .push(Width::W8)
        .push(Width::W8)
        .push(Width::W8)
        .push(Width::W8)
        .push(Width::W8)
        .push(Width::W4)
        .push(Width::W4)
        .push(Width::W8)
        .push(Width::W8)
        .push(Width::W8)
        .push(Width::W8)
        .push(Width::W8)
        .push(Width::W8)
        .push(Width::W8)
        .push(Width::W8)
        .push(Width::W8)
        .push(Width::W8)
        .push(Width::W8)
        .push(Width::W8)
        .push(Width::W8)
        .push(Width::W8)
        .push(Width::W4)
        .push(Width::W4));
    assert(KiroGroundInV1::spec_layout() =~= Seq::empty()
        .push(Width::W4)
        .push(Width::W4)
        .push(Width::W8)
        .push(Width::W8)
        .push(Width::W8));
    assert(KiroGroundOutV1::spec_layout() =~= Seq::empty()
        .push(Width::W4)
        .push(Width::W4)
        .push(Width::W8)
        .push(Width::W8)
        .push(Width::W8)
        .push(Width::W8)
        .push(Width::W8)
        .push(Width::W8)
        .push(Width::W8)
        .push(Width::W8)
        .push(Width::W8)
        .push(Width::W8)
        .push(Width::W8)
        .push(Width::W8)
        .push(Width::W8));
}


proof fn lemma_jsb_create_v1_offsets()
    ensures
        word_offset(JsbCreateV1::spec_layout(), 0) == 0,
        word_offset(JsbCreateV1::spec_layout(), 1) == 4,
        word_offset(JsbCreateV1::spec_layout(), 2) == 8,
        word_offset(JsbCreateV1::spec_layout(), 3) == 16,
        word_offset(JsbCreateV1::spec_layout(), 4) == 20,
{
    let l = JsbCreateV1::spec_layout();
    lemma_word_offset_step(l, 0);
    lemma_word_offset_step(l, 1);
    lemma_word_offset_step(l, 2);
    lemma_word_offset_step(l, 3);
    lemma_word_offset_step(l, 4);
}

/// Each field of a `JsbCreateV1` sits at its declared offset in the record's
/// byte image, in little-endian order.
pub proof fn lemma_jsb_create_v1_image(v: JsbCreateV1)
    ensures
        abi_encode(v).subrange(0, 4) == spec_u32_to_le_bytes(v.struct_size),
        abi_encode(v).subrange(4, 8) == spec_u32_to_le_bytes(v.abi_version),
        abi_encode(v).subrange(8, 16) == spec_u64_to_le_bytes(v.dt_s),
        abi_encode(v).subrange(16, 20) == spec_u32_to_le_bytes(v.debug_level),
        abi_encode(v).subrange(20, 24) == spec_u32_to_le_bytes(v._pad),
{
    lemma_jsb_create_v1_offsets();
    v.lemma_words();
    let ws = v.spec_words();
    assert(abi_encode(v).subrange(0, 4) == spec_u32_to_le_bytes(v.struct_size)) by {
        lemma_encode_word_at(ws, 0);
    }
    assert(abi_encode(v).subrange(4, 8) == spec_u32_to_le_bytes(v.abi_version)) by {
        lemma_encode_word_at(ws, 1);
    }
    assert(abi_encode(v).subrange(8, 16) == spec_u64_to_le_bytes(v.dt_s)) by {
        lemma_encode_word_at(ws, 2);
    }
    assert(abi_encode(v).subrange(16, 20) == spec_u32_to_le_bytes(v.debug_level)) by {
        lemma_encode_word_at(ws, 3);
    }
    assert(abi_encode(v).subrange(20, 24) == spec_u32_to_le_bytes(v._pad)) by {
        lemma_encode_word_at(ws, 4);
    }
}

/// Each field of a `JsbCreateV1` read from bytes is the little-endian value
/// at the field's declared offset.
pub proof fn lemma_jsb_create_v1_read(b: Seq<u8>)
    requires
        b.len() >= 24,
    ensures
        abi_decode::<JsbCreateV1>(b).struct_size == spec_u32_from_le_bytes(b.subrange(0, 4)),
        abi_decode::<JsbCreateV1>(b).abi_version == spec_u32_from_le_bytes(b.subrange(4, 8)),
        abi_decode::<JsbCreateV1>(b).dt_s == spec_u64_from_le_bytes(b.subrange(8, 16)),
        abi_decode::<JsbCreateV1>(b).debug_level == spec_u32_from_le_bytes(b.subrange(16, 20)),
        abi_decode::<JsbCreateV1>(b)._pad == spec_u32_from_le_bytes(b.subrange(20, 24)),
{
    lemma_jsb_create_v1_offsets();
    let l = JsbCreateV1::spec_layout();
    lemma_decode_word_at(l, b, 0);
    lemma_decode_word_at(l, b, 1);
    lemma_decode_word_at(l, b, 2);
    lemma_decode_word_at(l, b, 3);
    lemma_decode_word_at(l, b, 4);
}

proof fn lemma_jsb_ic_v1_offsets()
    ensures
        word_offset(JsbIcV1::spec_layout(), 0) == 0,
        word_offset(JsbIcV1::spec_layout(), 1) == 4,
        word_offset(JsbIcV1::spec_layout(), 2) == 8,
        word_offset(JsbIcV1::spec_layout(), 3) == 16,
        word_offset(JsbIcV1::spec_layout(), 4) == 24,
        word_offset(JsbIcV1::spec_layout(), 5) == 32,
        word_offset(JsbIcV1::spec_layout(), 6) == 40,
        word_offset(JsbIcV1::spec_layout(), 7) == 48,
        word_offset(JsbIcV1::spec_layout(), 8) == 56,
        word_offset(JsbIcV1::spec_layout(), 9) == 60,
{
    let l = JsbIcV1::spec_layout();
    lemma_word_offset_step(l, 0);
    lemma_word_offset_step(l, 1);
    lemma_word_offset_step(l, 2);
    lemma_word_offset_step(l, 3);
    lemma_word_offset_step(l, 4);
    lemma_word_offset_step(l, 5);
    lemma_word_offset_step(l, 6);
    lemma_word_offset_step(l, 7);
    lemma_word_offset_step(l, 8);
    lemma_word_offset_step(l, 9);
}

/// Each field of a `JsbIcV1` sits at its declared offset in the record's
/// byte image, in little-endian order.
pub proof fn lemma_jsb_ic_v1_image(v: JsbIcV1)
    ensures
        abi_encode(v).subrange(0, 4) == spec_u32_to_le_bytes(v.struct_size),
        abi_encode(v).subrange(4, 8) == spec_u32_to_le_bytes(v._pad),
        abi_encode(v).subrange(8, 16) == spec_u64_to_le_bytes(v.lat_deg),
        abi_encode(v).subrange(16, 24) == spec_u64_to_le_bytes(v.lon_deg),
        abi_encode(v).subrange(24, 32) == spec_u64_to_le_bytes(v.alt_msl_m),
        abi_encode(v).subrange(32, 40) == spec_u64_to_le_bytes(v.heading_true_deg),
        abi_encode(v).subrange(40, 48) == spec_u64_to_le_bytes(v.airspeed_tas_mps),
        abi_encode(v).subrange(48, 56) == spec_u64_to_le_bytes(v.gamma_deg),
        abi_encode(v).subrange(56, 60) == spec_u32_to_le_bytes(v.gear_down),
        abi_encode(v).subrange(60, 64) == spec_u32_to_le_bytes(v.engines_running),
{
    lemma_jsb_ic_v1_offsets();
    v.lemma_words();
    let ws = v.spec_words();
    assert(abi_encode(v).subrange(0, 4) == spec_u32_to_le_bytes(v.struct_size)) by {
        lemma_encode_word_at(ws, 0);
    }
    assert(abi_encode(v).subrange(4, 8) == spec_u32_to_le_bytes(v._pad)) by {
        lemma_encode_word_at(ws, 1);
    }
    assert(abi_encode(v).subrange(8, 16) == spec_u64_to_le_bytes(v.lat_deg)) by {
        lemma_encode_word_at(ws, 2);
    }
    assert(abi_encode(v).subrange(16, 24) == spec_u64_to_le_bytes(v.lon_deg)) by {
        lemma_encode_word_at(ws, 3);
    }
    assert(abi_encode(v).subrange(24, 32) == spec_u64_to_le_bytes(v.alt_msl_m)) by {
        lemma_encode_word_at(ws, 4);
    }
    assert(abi_encode(v).subrange(32, 40) == spec_u64_to_le_bytes(v.heading_true_deg)) by {
        lemma_encode_word_at(ws, 5);
    }
    assert(abi_encode(v).subrange(40, 48) == spec_u64_to_le_bytes(v.airspeed_tas_mps)) by {
        lemma_encode_word_at(ws, 6);
    }
    assert(abi_encode(v).subrange(48, 56) == spec_u64_to_le_bytes(v.gamma_deg)) by {
        lemma_encode_word_at(ws, 7);
    }
    assert(abi_encode(v).subrange(56, 60) == spec_u32_to_le_bytes(v.gear_down)) by {
        lemma_encode_word_at(ws, 8);
    }
    assert(abi_encode(v).subrange(60, 64) == spec_u32_to_le_bytes(v.engines_running)) by {
        lemma_encode_word_at(ws, 9);
    }
}

/// Each field of a `JsbIcV1` read from bytes is the little-endian value
/// at the field's declared offset.
pub proof fn lemma_jsb_ic_v1_read(b: Seq<u8>)
    requires
        b.len() >= 64,
    ensures
        abi_decode::<JsbIcV1>(b).struct_size == spec_u32_from_le_bytes(b.subrange(0, 4)),
        abi_decode::<JsbIcV1>(b)._pad == spec_u32_from_le_bytes(b.subrange(4, 8)),
        abi_decode::<JsbIcV1>(b).lat_deg == spec_u64_from_le_bytes(b.subrange(8, 16)),
        abi_decode::<JsbIcV1>(b).lon_deg == spec_u64_from_le_bytes(b.subrange(16, 24)),
        abi_decode::<JsbIcV1>(b).alt_msl_m == spec_u64_from_le_bytes(b.subrange(24, 32)),
        abi_decode::<JsbIcV1>(b).heading_true_deg == spec_u64_from_le_bytes(b.subrange(32, 40)),
        abi_decode::<JsbIcV1>(b).airspeed_tas_mps == spec_u64_from_le_bytes(b.subrange(40, 48)),
        abi_decode::<JsbIcV1>(b).gamma_deg == spec_u64_from_le_bytes(b.subrange(48, 56)),
        abi_decode::<JsbIcV1>(b).gear_down == spec_u32_from_le_bytes(b.subrange(56, 60)),
        abi_decode::<JsbIcV1>(b).engines_running == spec_u32_from_le_bytes(b.subrange(60, 64)),
{
    lemma_jsb_ic_v1_offsets();
    let l = JsbIcV1::spec_layout();
    lemma_decode_word_at(l, b, 0);
    lemma_decode_word_at(l, b, 1);
    lemma_decode_word_at(l, b, 2);
    lemma_decode_word_at(l, b, 3);
    lemma_decode_word_at(l, b, 4);
    lemma_decode_word_at(l, b, 5);
    lemma_decode_word_at(l, b, 6);
    lemma_decode_word_at(l, b, 7);
    lemma_decode_word_at(l, b, 8);
    lemma_decode_word_at(l, b, 9);
}

proof fn lemma_jsb_in_v1_offsets()
    ensures
        word_offset(JsbInV1::spec_layout(), 0) == 0,
        word_offset(JsbInV1::spec_layout(), 1) == 4,
        word_offset(JsbInV1::spec_layout(), 2) == 8,
        word_offset(JsbInV1::spec_layout(), 3) == 16,
        word_offset(JsbInV1::spec_layout(), 4) == 24,
        word_offset(JsbInV1::spec_layout(), 5) == 32,
        word_offset(JsbInV1::spec_layout(), 6) == 40,
        word_offset(JsbInV1::spec_layout(), 7) == 48,
        word_offset(JsbInV1::spec_layout(), 8) == 56,
        word_offset(JsbInV1::spec_layout(), 9) == 64,
        word_offset(JsbInV1::spec_layout(), 10) == 72,
        word_offset(JsbInV1::spec_layout(), 11) == 76,
{
    let l = JsbInV1::spec_layout();
    lemma_word_offset_step(l, 0);
    lemma_word_offset_step(l, 1);
    lemma_word_offset_step(l, 2);
    lemma_word_offset_step(l, 3);
    lemma_word_offset_step(l, 4);
    lemma_word_offset_step(l, 5);
    lemma_word_offset_step(l, 6);
    lemma_word_offset_step(l, 7);
    lemma_word_offset_step(l, 8);
    lemma_word_offset_step(l, 9);
    lemma_word_offset_step(l, 10);
    lemma_word_offset_step(l, 11);
}

/// Each field of a `JsbInV1` sits at its declared offset in the record's
/// byte image, in little-endian order.
pub proof fn lemma_jsb_in_v1_image(v: JsbInV1)
    ensures
        abi_encode(v).subrange(0, 4) == spec_u32_to_le_bytes(v.struct_size),
        abi_encode(v).subrange(4, 8) == spec_u32_to_le_bytes(v._pad),
        abi_encode(v).subrange(8, 16) == spec_u64_to_le_bytes(v.aileron),
        abi_encode(v).subrange(16, 24) == spec_u64_to_le_bytes(v.elevator),
        abi_encode(v).subrange(24, 32) == spec_u64_to_le_bytes(v.rudder),
        abi_encode(v).subrange(32, 40) == spec_u64_to_le_bytes(v.throttle),
        abi_encode(v).subrange(40, 48) == spec_u64_to_le_bytes(v.flaps),
        abi_encode(v).subrange(48, 56) == spec_u64_to_le_bytes(v.brake_left),
        abi_encode(v).subrange(56, 64) == spec_u64_to_le_bytes(v.brake_right),
        abi_encode(v).subrange(64, 72) == spec_u64_to_le_bytes(v.pitch_trim),
        abi_encode(v).subrange(72, 76) == spec_u32_to_le_bytes(v.gear_down),
        abi_encode(v).subrange(76, 80) == spec_u32_to_le_bytes(v._pad2),
{
    lemma_jsb_in_v1_offsets();
    v.lemma_words();
    let ws = v.spec_words();
    assert(abi_encode(v).subrange(0, 4) == spec_u32_to_le_bytes(v.struct_size)) by {
        lemma_encode_word_at(ws, 0);
    }
    assert(abi_encode(v).subrange(4, 8) == spec_u32_to_le_bytes(v._pad)) by {
        lemma_encode_word_at(ws, 1);
    }
    assert(abi_encode(v).subrange(8, 16) == spec_u64_to_le_bytes(v.aileron)) by {
        lemma_encode_word_at(ws, 2);
    }
    assert(abi_encode(v).subrange(16, 24) == spec_u64_to_le_bytes(v.elevator)) by {
        lemma_encode_word_at(ws, 3);
    }
    assert(abi_encode(v).subrange(24, 32) == spec_u64_to_le_bytes(v.rudder)) by {
        lemma_encode_word_at(ws, 4);
    }
    assert(abi_encode(v).subrange(32, 40) == spec_u64_to_le_bytes(v.throttle)) by {
        lemma_encode_word_at(ws, 5);
    }
    assert(abi_encode(v).subrange(40, 48) == spec_u64_to_le_bytes(v.flaps)) by {
        lemma_encode_word_at(ws, 6);
    }
    assert(abi_encode(v).subrange(48, 56) == spec_u64_to_le_bytes(v.brake_left)) by {
        lemma_encode_word_at(ws, 7);
    }
    assert(abi_encode(v).subrange(56, 64) == spec_u64_to_le_bytes(v.brake_right)) by {
        lemma_encode_word_at(ws, 8);
    }
    assert(abi_encode(v).subrange(64, 72) == spec_u64_to_le_bytes(v.pitch_trim)) by {
        lemma_encode_word_at(ws, 9);
    }
    assert(abi_encode(v).subrange(72, 76) == spec_u32_to_le_bytes(v.gear_down)) by {
        lemma_encode_word_at(ws, 10);
    }
    assert(abi_encode(v).subrange(76, 80) == spec_u32_to_le_bytes(v._pad2)) by {
        lemma_encode_word_at(ws, 11);
    }
}

/// Each field of a `JsbInV1` read from bytes is the little-endian value
/// at the field's declared offset.
pub proof fn lemma_jsb_in_v1_read(b: Seq<u8>)
    requires
        b.len() >= 80,
    ensures
        abi_decode::<JsbInV1>(b).struct_size == spec_u32_from_le_bytes(b.subrange(0, 4)),
        abi_decode::<JsbInV1>(b)._pad == spec_u32_from_le_bytes(b.subrange(4, 8)),
        abi_decode::<JsbInV1>(b).aileron == spec_u64_from_le_bytes(b.subrange(8, 16)),
        abi_decode::<JsbInV1>(b).elevator == spec_u64_from_le_bytes(b.subrange(16, 24)),
        abi_decode::<JsbInV1>(b).rudder == spec_u64_from_le_bytes(b.subrange(24, 32)),
        abi_decode::<JsbInV1>(b).throttle == spec_u64_from_le_bytes(b.subrange(32, 40)),
        abi_decode::<JsbInV1>(b).flaps == spec_u64_from_le_bytes(b.subrange(40, 48)),
        abi_decode::<JsbInV1>(b).brake_left == spec_u64_from_le_bytes(b.subrange(48, 56)),
        abi_decode::<JsbInV1>(b).brake_right == spec_u64_from_le_bytes(b.subrange(56, 64)),
        abi_decode::<JsbInV1>(b).pitch_trim == spec_u64_from_le_bytes(b.subrange(64, 72)),
        abi_decode::<JsbInV1>(b).gear_down == spec_u32_from_le_bytes(b.subrange(72, 76)),
        abi_decode::<JsbInV1>(b)._pad2 == spec_u32_from_le_bytes(b.subrange(76, 80)),
{
    lemma_jsb_in_v1_offsets();
    let l = JsbInV1::spec_layout();
    lemma_decode_word_at(l, b, 0);
    lemma_decode_word_at(l, b, 1);
    lemma_decode_word_at(l, b, 2);
    lemma_decode_word_at(l, b, 3);
    lemma_decode_word_at(l, b, 4);
    lemma_decode_word_at(l, b, 5);
    lemma_decode_word_at(l, b, 6);
    lemma_decode_word_at(l, b, 7);
    lemma_decode_word_at(l, b, 8);
    lemma_decode_word_at(l, b, 9);
    lemma_decode_word_at(l, b, 10);
    lemma_decode_word_at(l, b, 11);
}

proof fn lemma_jsb_out_v1_offsets()
    ensures
        word_offset(JsbOutV1::spec_layout(), 0) == 0,
        word_offset(JsbOutV1::spec_layout(), 1) == 4,
        word_offset(JsbOutV1::spec_layout(), 2) == 8,
        word_offset(JsbOutV1::spec_layout(), 3) == 16,
        word_offset(JsbOutV1::spec_layout(), 4) == 24,
        word_offset(JsbOutV1::spec_layout(), 5) == 32,
        word_offset(JsbOutV1::spec_layout(), 6) == 40,
        word_offset(JsbOutV1::spec_layout(), 7) == 48,
        word_offset(JsbOutV1::spec_layout(), 8) == 56,
        word_offset(JsbOutV1::spec_layout(), 9) == 64,
        word_offset(JsbOutV1::spec_layout(), 10) == 72,
        word_offset(JsbOutV1::spec_layout(), 11) == 80,
        word_offset(JsbOutV1::spec_layout(), 12) == 88,
        word_offset(JsbOutV1::spec_layout(), 13) == 96,
        word_offset(JsbOutV1::spec_layout(), 14) == 104,
        word_offset(JsbOutV1::spec_layout(), 15) == 112,
        word_offset(JsbOutV1::spec_layout(), 16) == 120,
        word_offset(JsbOutV1::spec_layout(), 17) == 128,
        word_offset(JsbOutV1::spec_layout(), 18) == 136,
        word_offset(JsbOutV1::spec_layout(), 19) == 144,
        word_offset(JsbOutV1::spec_layout(), 20) == 152,
        word_offset(JsbOutV1::spec_layout(), 21) == 160,
        word_offset(JsbOutV1::spec_layout(), 22) == 168,
        word_offset(JsbOutV1::spec_layout(), 23) == 176,
        word_offset(JsbOutV1::spec_layout(), 24) == 184,
        word_offset(JsbOutV1::spec_layout(), 25) == 192,
        word_offset(JsbOutV1::spec_layout(), 26) == 200,
        word_offset(JsbOutV1::spec_layout(), 27) == 208,
        word_offset(JsbOutV1::spec_layout(), 28) == 216,
        word_offset(JsbOutV1::spec_layout(), 29) == 220,
        word_offset(JsbOutV1::spec_layout(), 30) == 224,
        word_offset(JsbOutV1::spec_layout(), 31) == 232,
        word_offset(JsbOutV1::spec_layout(), 32) == 240,
        word_offset(JsbOutV1::spec_layout(), 33) == 248,
        word_offset(JsbOutV1::spec_layout(), 34) == 256,
        word_offset(JsbOutV1::spec_layout(), 35) == 264,
        word_offset(JsbOutV1::spec_layout(), 36) == 272,
        word_offset(JsbOutV1::spec_layout(), 37) == 280,
        word_offset(JsbOutV1::spec_layout(), 38) == 288,
        word_offset(JsbOutV1::spec_layout(), 39) == 296,
        word_offset(JsbOutV1::spec_layout(), 40) == 304,
        word_offset(JsbOutV1::spec_layout(), 41) == 312,
        word_offset(JsbOutV1::spec_layout(), 42) == 320,
        word_offset(JsbOutV1::spec_layout(), 43) == 328,
        word_offset(JsbOutV1::spec_layout(), 44) == 336,
        word_offset(JsbOutV1::spec_layout(), 45) == 340,
{
    let l = JsbOutV1::spec_layout();
    lemma_word_offset_step(l, 0);
    lemma_word_offset_step(l, 1);
    lemma_word_offset_step(l, 2);
    lemma_word_offset_step(l, 3);
    lemma_word_offset_step(l, 4);
    lemma_word_offset_step(l, 5);
    lemma_word_offset_step(l, 6);
    lemma_word_offset_step(l, 7);
    lemma_word_offset_step(l, 8);
    lemma_word_offset_step(l, 9);
    lemma_word_offset_step(l, 10);
    lemma_word_offset_step(l, 11);
    lemma_word_offset_step(l, 12);
    lemma_word_offset_step(l, 13);
    lemma_word_offset_step(l, 14);
    lemma_word_offset_step(l, 15);
    lemma_word_offset_step(l, 16);
    lemma_word_offset_step(l, 17);
    lemma_word_offset_step(l, 18);
    lemma_word_offset_step(l, 19);
    lemma_word_offset_step(l, 20);
    lemma_word_offset_step(l, 21);
    lemma_word_offset_step(l, 22);
    lemma_word_offset_step(l, 23);
    lemma_word_offset_step(l, 24);
    lemma_word_offset_step(l, 25);
    lemma_word_offset_step(l, 26);
    lemma_word_offset_step(l, 27);
    lemma_word_offset_step(l, 28);
    lemma_word_offset_step(l, 29);
    lemma_word_offset_step(l, 30);
    lemma_word_offset_step(l, 31);
    lemma_word_offset_step(l, 32);
    lemma_word_offset_step(l, 33);
    lemma_word_offset_step(l, 34);
    lemma_word_offset_step(l, 35);
    lemma_word_offset_step(l, 36);
    lemma_word_offset_step(l, 37);
    lemma_word_offset_step(l, 38);
    lemma_word_offset_step(l, 39);
    lemma_word_offset_step(l, 40);
    lemma_word_offset_step(l, 41);
    lemma_word_offset_step(l, 42);
    lemma_word_offset_step(l, 43);
    lemma_word_offset_step(l, 44);
    lemma_word_offset_step(l, 45);
}

/// Each field of a `JsbOutV1` sits at its declared offset in the record's
/// byte image, in little-endian order.
pub proof fn lemma_jsb_out_v1_image(v: JsbOutV1)
    ensures
        abi_encode(v).subrange(0, 4) == spec_u32_to_le_bytes(v.struct_size),
        abi_encode(v).subrange(4, 8) == spec_u32_to_le_bytes(v.status_flags),
        abi_encode(v).subrange(8, 16) == spec_u64_to_le_bytes(v.sim_time_s),
        abi_encode(v).subrange(16, 24) == spec_u64_to_le_bytes(v.lat_deg),
        abi_encode(v).subrange(24, 32) == spec_u64_to_le_bytes(v.lon_deg),
        abi_encode(v).subrange(32, 40) == spec_u64_to_le_bytes(v.alt_msl_m),
        abi_encode(v).subrange(40, 48) == spec_u64_to_le_bytes(v.alt_agl_m),
        abi_encode(v).subrange(48, 56) == spec_u64_to_le_bytes(v.roll_rad),
        abi_encode(v).subrange(56, 64) == spec_u64_to_le_bytes(v.pitch_rad),
        abi_encode(v).subrange(64, 72) == spec_u64_to_le_bytes(v.yaw_rad),
        abi_encode(v).subrange(72, 80) == spec_u64_to_le_bytes(v.q_w),
        abi_encode(v).subrange(80, 88) == spec_u64_to_le_bytes(v.q_x),
        abi_encode(v).subrange(88, 96) == spec_u64_to_le_bytes(v.q_y),
        abi_encode(v).subrange(96, 104) == spec_u64_to_le_bytes(v.q_z),
        abi_encode(v).subrange(104, 112) == spec_u64_to_le_bytes(v.vn_mps),
        abi_encode(v).subrange(112, 120) == spec_u64_to_le_bytes(v.ve_mps),
        abi_encode(v).subrange(120, 128) == spec_u64_to_le_bytes(v.vd_mps),
        abi_encode(v).subrange(128, 136) == spec_u64_to_le_bytes(v.p_rps),
        abi_encode(v).subrange(136, 144) == spec_u64_to_le_bytes(v.q_rps),
        abi_encode(v).subrange(144, 152) == spec_u64_to_le_bytes(v.r_rps),
        abi_encode(v).subrange(152, 160) == spec_u64_to_le_bytes(v.ax_mps2),
        abi_encode(v).subrange(160, 168) == spec_u64_to_le_bytes(v.ay_mps2),
        abi_encode(v).subrange(168, 176) == spec_u64_to_le_bytes(v.az_mps2),
        abi_encode(v).subrange(176, 184) == spec_u64_to_le_bytes(v.alpha_rad),
        abi_encode(v).subrange(184, 192) == spec_u64_to_le_bytes(v.beta_rad),
        abi_encode(v).subrange(192, 200) == spec_u64_to_le_bytes(v.vtas_mps),
        abi_encode(v).subrange(200, 208) == spec_u64_to_le_bytes(v.vcas_mps),
        abi_encode(v).subrange(208, 216) == spec_u64_to_le_bytes(v.vground_mps),
        abi_encode(v).subrange(216, 220) == spec_u32_to_le_bytes(v.engine_count),
        abi_encode(v).subrange(220, 224) == spec_u32_to_le_bytes(v._pad3),
        abi_encode(v).subrange(224, 232) == spec_u64_to_le_bytes(v.thrust_n[0]),
        abi_encode(v).subrange(232, 240) == spec_u64_to_le_bytes(v.thrust_n[1]),
        abi_encode(v).subrange(240, 248) == spec_u64_to_le_bytes(v.thrust_n[2]),
        abi_encode(v).subrange(248, 256) == spec_u64_to_le_bytes(v.thrust_n[3]),
        abi_encode(v).subrange(256, 264) == spec_u64_to_le_bytes(v.engine_rpm[0]),
        abi_encode(v).subrange(264, 272) == spec_u64_to_le_bytes(v.engine_rpm[1]),
        abi_encode(v).subrange(272, 280) == spec_u64_to_le_bytes(v.engine_rpm[2]),
        abi_encode(v).subrange(280, 288) == spec_u64_to_le_bytes(v.engine_rpm[3]),
        abi_encode(v).subrange(288, 296) == spec_u64_to_le_bytes(v.fuel_kg),
        abi_encode(v).subrange(296, 304) == spec_u64_to_le_bytes(v.surf_aileron),
        abi_encode(v).subrange(304, 312) == spec_u64_to_le_bytes(v.surf_elevator),
        abi_encode(v).subrange(312, 320) == spec_u64_to_le_bytes(v.surf_rudder),
        abi_encode(v).subrange(320, 328) == spec_u64_to_le_bytes(v.surf_flaps),
        abi_encode(v).subrange(328, 336) == spec_u64_to_le_bytes(v.gear_pos),
        abi_encode(v).subrange(336, 340) == spec_u32_to_le_bytes(v.ground_queries),
        abi_encode(v).subrange(340, 344) == spec_u32_to_le_bytes(v.trapped),
{
    lemma_jsb_out_v1_offsets();
    v.lemma_words();
    let ws = v.spec_words();
    assert(abi_encode(v).subrange(0, 4) == spec_u32_to_le_bytes(v.struct_size)) by {
        lemma_encode_word_at(ws, 0);
    }
    assert(abi_encode(v).subrange(4, 8) == spec_u32_to_le_bytes(v.status_flags)) by {
        lemma_encode_word_at(ws, 1);
    }
    assert(abi_encode(v).subrange(8, 16) == spec_u64_to_le_bytes(v.sim_time_s)) by {
        lemma_encode_word_at(ws, 2);
    }
    assert(abi_encode(v).subrange(16, 24) == spec_u64_to_le_bytes(v.lat_deg)) by {
        lemma_encode_word_at(ws, 3);
    }
    assert(abi_encode(v).subrange(24, 32) == spec_u64_to_le_bytes(v.lon_deg)) by {
        lemma_encode_word_at(ws, 4);
    }
    assert(abi_encode(v).subrange(32, 40) == spec_u64_to_le_bytes(v.alt_msl_m)) by {
        lemma_encode_word_at(ws, 5);
    }
    assert(abi_encode(v).subrange(40, 48) == spec_u64_to_le_bytes(v.alt_agl_m)) by {
        lemma_encode_word_at(ws, 6);
    }
    assert(abi_encode(v).subrange(48, 56) == spec_u64_to_le_bytes(v.roll_rad)) by {
        lemma_encode_word_at(ws, 7);
    }
    assert(abi_encode(v).subrange(56, 64) == spec_u64_to_le_bytes(v.pitch_rad)) by {
        lemma_encode_word_at(ws, 8);
    }
    assert(abi_encode(v).subrange(64, 72) == spec_u64_to_le_bytes(v.yaw_rad)) by {
        lemma_encode_word_at(ws, 9);
    }
    assert(abi_encode(v).subrange(72, 80) == spec_u64_to_le_bytes(v.q_w)) by {
        lemma_encode_word_at(ws, 10);
    }
    assert(abi_encode(v).subrange(80, 88) == spec_u64_to_le_bytes(v.q_x)) by {
        lemma_encode_word_at(ws, 11);
    }
    assert(abi_encode(v).subrange(88, 96) == spec_u64_to_le_bytes(v.q_y)) by {
        lemma_encode_word_at(ws, 12);
    }
    assert(abi_encode(v).subrange(96, 104) == spec_u64_to_le_bytes(v.q_z)) by {
        lemma_encode_word_at(ws, 13);
    }
    assert(abi_encode(v).subrange(104, 112) == spec_u64_to_le_bytes(v.vn_mps)) by {
        lemma_encode_word_at(ws, 14);
    }
    assert(abi_encode(v).subrange(112, 120) == spec_u64_to_le_bytes(v.ve_mps)) by {
        lemma_encode_word_at(ws, 15);
    }
    assert(abi_encode(v).subrange(120, 128) == spec_u64_to_le_bytes(v.vd_mps)) by {
        lemma_encode_word_at(ws, 16);
    }
    assert(abi_encode(v).subrange(128, 136) == spec_u64_to_le_bytes(v.p_rps)) by {
        lemma_encode_word_at(ws, 17);
    }
    assert(abi_encode(v).subrange(136, 144) == spec_u64_to_le_bytes(v.q_rps)) by {
        lemma_encode_word_at(ws, 18);
    }
    assert(abi_encode(v).subrange(144, 152) == spec_u64_to_le_bytes(v.r_rps)) by {
        lemma_encode_word_at(ws, 19);
    }
    assert(abi_encode(v).subrange(152, 160) == spec_u64_to_le_bytes(v.ax_mps2)) by {
        lemma_encode_word_at(ws, 20);
    }
    assert(abi_encode(v).subrange(160, 168) == spec_u64_to_le_bytes(v.ay_mps2)) by {
        lemma_encode_word_at(ws, 21);
    }
    assert(abi_encode(v).subrange(168, 176) == spec_u64_to_le_bytes(v.az_mps2)) by {
        lemma_encode_word_at(ws, 22);
    }
    assert(abi_encode(v).subrange(176, 184) == spec_u64_to_le_bytes(v.alpha_rad)) by {
        lemma_encode_word_at(ws, 23);
    }
    assert(abi_encode(v).subrange(184, 192) == spec_u64_to_le_bytes(v.beta_rad)) by {
        lemma_encode_word_at(ws, 24);
    }
    assert(abi_encode(v).subrange(192, 200) == spec_u64_to_le_bytes(v.vtas_mps)) by {
        lemma_encode_word_at(ws, 25);
    }
    assert(abi_encode(v).subrange(200, 208) == spec_u64_to_le_bytes(v.vcas_mps)) by {
        lemma_encode_word_at(ws, 26);
    }
    assert(abi_encode(v).subrange(208, 216) == spec_u64_to_le_bytes(v.vground_mps)) by {
        lemma_encode_word_at(ws, 27);
    }
    assert(abi_encode(v).subrange(216, 220) == spec_u32_to_le_bytes(v.engine_count)) by {
        lemma_encode_word_at(ws, 28);
    }
    assert(abi_encode(v).subrange(220, 224) == spec_u32_to_le_bytes(v._pad3)) by {
        lemma_encode_word_at(ws, 29);
    }
    assert(abi_encode(v).subrange(224, 232) == spec_u64_to_le_bytes(v.thrust_n[0])) by {
        lemma_encode_word_at(ws, 30);
    }
    assert(abi_encode(v).subrange(232, 240) == spec_u64_to_le_bytes(v.thrust_n[1])) by {
        lemma_encode_word_at(ws, 31);
    }
    assert(abi_encode(v).subrange(240, 248) == spec_u64_to_le_bytes(v.thrust_n[2])) by {
        lemma_encode_word_at(ws, 32);
    }
    assert(abi_encode(v).subrange(248, 256) == spec_u64_to_le_bytes(v.thrust_n[3])) by {
        lemma_encode_word_at(ws, 33);
    }
    assert(abi_encode(v).subrange(256, 264) == spec_u64_to_le_bytes(v.engine_rpm[0])) by {
        lemma_encode_word_at(ws, 34);
    }
    assert(abi_encode(v).subrange(264, 272) == spec_u64_to_le_bytes(v.engine_rpm[1])) by {
        lemma_encode_word_at(ws, 35);
    }
    assert(abi_encode(v).subrange(272, 280) == spec_u64_to_le_bytes(v.engine_rpm[2])) by {
        lemma_encode_word_at(ws, 36);
    }
    assert(abi_encode(v).subrange(280, 288) == spec_u64_to_le_bytes(v.engine_rpm[3])) by {
        lemma_encode_word_at(ws, 37);
    }
    assert(abi_encode(v).subrange(288, 296) == spec_u64_to_le_bytes(v.fuel_kg)) by {
        lemma_encode_word_at(ws, 38);
    }
    assert(abi_encode(v).subrange(296, 304) == spec_u64_to_le_bytes(v.surf_aileron)) by {
        lemma_encode_word_at(ws, 39);
    }
    assert(abi_encode(v).subrange(304, 312) == spec_u64_to_le_bytes(v.surf_elevator)) by {
        lemma_encode_word_at(ws, 40);
    }
    assert(abi_encode(v).subrange(312, 320) == spec_u64_to_le_bytes(v.surf_rudder)) by {
        lemma_encode_word_at(ws, 41);
    }
    assert(abi_encode(v).subrange(320, 328) == spec_u64_to_le_bytes(v.surf_flaps)) by {
        lemma_encode_word_at(ws, 42);
    }
    assert(abi_encode(v).subrange(328, 336) == spec_u64_to_le_bytes(v.gear_pos)) by {
        lemma_encode_word_at(ws, 43);
    }
    assert(abi_encode(v).subrange(336, 340) == spec_u32_to_le_bytes(v.ground_queries)) by {
        lemma_encode_word_at(ws, 44);
    }
    assert(abi_encode(v).subrange(340, 344) == spec_u32_to_le_bytes(v.trapped)) by {
        lemma_encode_word_at(ws, 45);
    }
}

/// Each field of a `JsbOutV1` read from bytes is the little-endian value
/// at the field's declared offset.
pub proof fn lemma_jsb_out_v1_read(b: Seq<u8>)
    requires
        b.len() >= 344,
    ensures
        abi_decode::<JsbOutV1>(b).struct_size == spec_u32_from_le_bytes(b.subrange(0, 4)),
        abi_decode::<JsbOutV1>(b).status_flags == spec_u32_from_le_bytes(b.subrange(4, 8)),
        abi_decode::<JsbOutV1>(b).sim_time_s == spec_u64_from_le_bytes(b.subrange(8, 16)),
        abi_decode::<JsbOutV1>(b).lat_deg == spec_u64_from_le_bytes(b.subrange(16, 24)),
        abi_decode::<JsbOutV1>(b).lon_deg == spec_u64_from_le_bytes(b.subrange(24, 32)),
        abi_decode::<JsbOutV1>(b).alt_msl_m == spec_u64_from_le_bytes(b.subrange(32, 40)),
        abi_decode::<JsbOutV1>(b).alt_agl_m == spec_u64_from_le_bytes(b.subrange(40, 48)),
        abi_decode::<JsbOutV1>(b).roll_rad == spec_u64_from_le_bytes(b.subrange(48, 56)),
        abi_decode::<JsbOutV1>(b).pitch_rad == spec_u64_from_le_bytes(b.subrange(56, 64)),
        abi_decode::<JsbOutV1>(b).yaw_rad == spec_u64_from_le_bytes(b.subrange(64, 72)),
        abi_decode::<JsbOutV1>(b).q_w == spec_u64_from_le_bytes(b.subrange(72, 80)),
        abi_decode::<JsbOutV1>(b).q_x == spec_u64_from_le_bytes(b.subrange(80, 88)),
        abi_decode::<JsbOutV1>(b).q_y == spec_u64_from_le_bytes(b.subrange(88, 96)),
        abi_decode::<JsbOutV1>(b).q_z == spec_u64_from_le_bytes(b.subrange(96, 104)),
        abi_decode::<JsbOutV1>(b).vn_mps == spec_u64_from_le_bytes(b.subrange(104, 112)),
        abi_decode::<JsbOutV1>(b).ve_mps == spec_u64_from_le_bytes(b.subrange(112, 120)),
        abi_decode::<JsbOutV1>(b).vd_mps == spec_u64_from_le_bytes(b.subrange(120, 128)),
        abi_decode::<JsbOutV1>(b).p_rps == spec_u64_from_le_bytes(b.subrange(128, 136)),
        abi_decode::<JsbOutV1>(b).q_rps == spec_u64_from_le_bytes(b.subrange(136, 144)),
        abi_decode::<JsbOutV1>(b).r_rps == spec_u64_from_le_bytes(b.subrange(144, 152)),
        abi_decode::<JsbOutV1>(b).ax_mps2 == spec_u64_from_le_bytes(b.subrange(152, 160)),
        abi_decode::<JsbOutV1>(b).ay_mps2 == spec_u64_from_le_bytes(b.subrange(160, 168)),
        abi_decode::<JsbOutV1>(b).az_mps2 == spec_u64_from_le_bytes(b.subrange(168, 176)),
        abi_decode::<JsbOutV1>(b).alpha_rad == spec_u64_from_le_bytes(b.subrange(176, 184)),
        abi_decode::<JsbOutV1>(b).beta_rad == spec_u64_from_le_bytes(b.subrange(184, 192)),
        abi_decode::<JsbOutV1>(b).vtas_mps == spec_u64_from_le_bytes(b.subrange(192, 200)),
        abi_decode::<JsbOutV1>(b).vcas_mps == spec_u64_from_le_bytes(b.subrange(200, 208)),
        abi_decode::<JsbOutV1>(b).vground_mps == spec_u64_from_le_bytes(b.subrange(208, 216)),
        abi_decode::<JsbOutV1>(b).engine_count == spec_u32_from_le_bytes(b.subrange(216, 220)),
        abi_decode::<JsbOutV1>(b)._pad3 == spec_u32_from_le_bytes(b.subrange(220, 224)),
        abi_decode::<JsbOutV1>(b).thrust_n[0] == spec_u64_from_le_bytes(b.subrange(224, 232)),
        abi_decode::<JsbOutV1>(b).thrust_n[1] == spec_u64_from_le_bytes(b.subrange(232, 240)),
        abi_decode::<JsbOutV1>(b).thrust_n[2] == spec_u64_from_le_bytes(b.subrange(240, 248)),
        abi_decode::<JsbOutV1>(b).thrust_n[3] == spec_u64_from_le_bytes(b.subrange(248, 256)),
        abi_decode::<JsbOutV1>(b).engine_rpm[0] == spec_u64_from_le_bytes(b.subrange(256, 264)),
        abi_decode::<JsbOutV1>(b).engine_rpm[1] == spec_u64_from_le_bytes(b.subrange(264, 272)),
        abi_decode::<JsbOutV1>(b).engine_rpm[2] == spec_u64_from_le_bytes(b.subrange(272, 280)),
        abi_decode::<JsbOutV1>(b).engine_rpm[3] == spec_u64_from_le_bytes(b.subrange(280, 288)),
        abi_decode::<JsbOutV1>(b).fuel_kg == spec_u64_from_le_bytes(b.subrange(288, 296)),
        abi_decode::<JsbOutV1>(b).surf_aileron == spec_u64_from_le_bytes(b.subrange(296, 304)),
        abi_decode::<JsbOutV1>(b).surf_elevator == spec_u64_from_le_bytes(b.subrange(304, 312)),
        abi_decode::<JsbOutV1>(b).surf_rudder == spec_u64_from_le_bytes(b.subrange(312, 320)),
        abi_decode::<JsbOutV1>(b).surf_flaps == spec_u64_from_le_bytes(b.subrange(320, 328)),
        abi_decode::<JsbOutV1>(b).gear_pos == spec_u64_from_le_bytes(b.subrange(328, 336)),
        abi_decode::<JsbOutV1>(b).ground_queries == spec_u32_from_le_bytes(b.subrange(336, 340)),
        abi_decode::<JsbOutV1>(b).trapped == spec_u32_from_le_bytes(b.subrange(340, 344)),
{
    lemma_jsb_out_v1_offsets();
    let l = JsbOutV1::spec_layout();
    lemma_decode_word_at(l, b, 0);
    lemma_decode_word_at(l, b, 1);
    lemma_decode_word_at(l, b, 2);
    lemma_decode_word_at(l, b, 3);
    lemma_decode_word_at(l, b, 4);
    lemma_decode_word_at(l, b, 5);
    lemma_decode_word_at(l, b, 6);
    lemma_decode_word_at(l, b, 7);
    lemma_decode_word_at(l, b, 8);
    lemma_decode_word_at(l, b, 9);
    lemma_decode_word_at(l, b, 10);
    lemma_decode_word_at(l, b, 11);
    lemma_decode_word_at(l, b, 12);
    lemma_decode_word_at(l, b, 13);
    lemma_decode_word_at(l, b, 14);
    lemma_decode_word_at(l, b, 15);
    lemma_decode_word_at(l, b, 16);
    lemma_decode_word_at(l, b, 17);
    lemma_decode_word_at(l, b, 18);
    lemma_decode_word_at(l, b, 19);
    lemma_decode_word_at(l, b, 20);
    lemma_decode_word_at(l, b, 21);
    lemma_decode_word_at(l, b, 22);
    lemma_decode_word_at(l, b, 23);
    lemma_decode_word_at(l, b, 24);
    lemma_decode_word_at(l, b, 25);
    lemma_decode_word_at(l, b, 26);
    lemma_decode_word_at(l, b, 27);
    lemma_decode_word_at(l, b, 28);
    lemma_decode_word_at(l, b, 29);
    lemma_decode_word_at(l, b, 30);
    lemma_decode_word_at(l, b, 31);
    lemma_decode_word_at(l, b, 32);
    lemma_decode_word_at(l, b, 33);
    lemma_decode_word_at(l, b, 34);
    lemma_decode_word_at(l, b, 35);
    lemma_decode_word_at(l, b, 36);
    lemma_decode_word_at(l, b, 37);
    lemma_decode_word_at(l, b, 38);
    lemma_decode_word_at(l, b, 39);
    lemma_decode_word_at(l, b, 40);
    lemma_decode_word_at(l, b, 41);
    lemma_decode_word_at(l, b, 42);
    lemma_decode_word_at(l, b, 43);
    lemma_decode_word_at(l, b, 44);
    lemma_decode_word_at(l, b, 45);
}

proof fn lemma_kiro_ground_in_v1_offsets()
    ensures
        word_offset(KiroGroundInV1::spec_layout(), 0) == 0,
        word_offset(KiroGroundInV1::spec_layout(), 1) == 4,
        word_offset(KiroGroundInV1::spec_layout(), 2) == 8,
        word_offset(KiroGroundInV1::spec_layout(), 3) == 16,
        word_offset(KiroGroundInV1::spec_layout(), 4) == 24,
{
    let l = KiroGroundInV1::spec_layout();
    lemma_word_offset_step(l, 0);
    lemma_word_offset_step(l, 1);
    lemma_word_offset_step(l, 2);
    lemma_word_offset_step(l, 3);
    lemma_word_offset_step(l, 4);
}

/// Each field of a `KiroGroundInV1` sits at its declared offset in the record's
/// byte image, in little-endian order.
pub proof fn lemma_kiro_ground_in_v1_image(v: KiroGroundInV1)
    ensures
        abi_encode(v).subrange(0, 4) == spec_u32_to_le_bytes(v.struct_size),
        abi_encode(v).subrange(4, 8) == spec_u32_to_le_bytes(v._pad),
        abi_encode(v).subrange(8, 16) == spec_u64_to_le_bytes(v.lat_deg),
        abi_encode(v).subrange(16, 24) == spec_u64_to_le_bytes(v.lon_deg),
        abi_encode(v).subrange(24, 32) == spec_u64_to_le_bytes(v.alt_msl_m),
{
    lemma_kiro_ground_in_v1_offsets();
    v.lemma_words();
    let ws = v.spec_words();
    assert(abi_encode(v).subrange(0, 4) == spec_u32_to_le_bytes(v.struct_size)) by {
        lemma_encode_word_at(ws, 0);
    }
    assert(abi_encode(v).subrange(4, 8) == spec_u32_to_le_bytes(v._pad)) by {
        lemma_encode_word_at(ws, 1);
    }
    assert(abi_encode(v).subrange(8, 16) == spec_u64_to_le_bytes(v.lat_deg)) by {
        lemma_encode_word_at(ws, 2);
    }
    assert(abi_encode(v).subrange(16, 24) == spec_u64_to_le_bytes(v.lon_deg)) by {
        lemma_encode_word_at(ws, 3);
    }
    assert(abi_encode(v).subrange(24, 32) == spec_u64_to_le_bytes(v.alt_msl_m)) by {
        lemma_encode_word_at(ws, 4);
    }
}

/// Each field of a `KiroGroundInV1` read from bytes is the little-endian value
/// at the field's declared offset.
pub proof fn lemma_kiro_ground_in_v1_read(b: Seq<u8>)
    requires
        b.len() >= 32,
    ensures
        abi_decode::<KiroGroundInV1>(b).struct_size == spec_u32_from_le_bytes(b.subrange(0, 4)),
        abi_decode::<KiroGroundInV1>(b)._pad == spec_u32_from_le_bytes(b.subrange(4, 8)),
        abi_decode::<KiroGroundInV1>(b).lat_deg == spec_u64_from_le_bytes(b.subrange(8, 16)),
        abi_decode::<KiroGroundInV1>(b).lon_deg == spec_u64_from_le_bytes(b.subrange(16, 24)),
        abi_decode::<KiroGroundInV1>(b).alt_msl_m == spec_u64_from_le_bytes(b.subrange(24, 32)),
{
    lemma_kiro_ground_in_v1_offsets();
    let l = KiroGroundInV1::spec_layout();
    lemma_decode_word_at(l, b, 0);
    lemma_decode_word_at(l, b, 1);
    lemma_decode_word_at(l, b, 2);
    lemma_decode_word_at(l, b, 3);
    lemma_decode_word_at(l, b, 4);
}

proof fn lemma_kiro_ground_out_v1_offsets()
    ensures
        word_offset(KiroGroundOutV1::spec_layout(), 0) == 0,
        word_offset(KiroGroundOutV1::spec_layout(), 1) == 4,
        word_offset(KiroGroundOutV1::spec_layout(), 2) == 8,
        word_offset(KiroGroundOutV1::spec_layout(), 3) == 16,
        word_offset(KiroGroundOutV1::spec_layout(), 4) == 24,
        word_offset(KiroGroundOutV1::spec_layout(), 5) == 32,
        word_offset(KiroGroundOutV1::spec_layout(), 6) == 40,
        word_offset(KiroGroundOutV1::spec_layout(), 7) == 48,
        word_offset(KiroGroundOutV1::spec_layout(), 8) == 56,
        word_offset(KiroGroundOutV1::spec_layout(), 9) == 64,
        word_offset(KiroGroundOutV1::spec_layout(), 10) == 72,
        word_offset(KiroGroundOutV1::spec_layout(), 11) == 80,
        word_offset(KiroGroundOutV1::spec_layout(), 12) == 88,
        word_offset(KiroGroundOutV1::spec_layout(), 13) == 96,
        word_offset(KiroGroundOutV1::spec_layout(), 14) == 104,
{
    let l = KiroGroundOutV1::spec_layout();
    lemma_word_offset_step(l, 0);
    lemma_word_offset_step(l, 1);
    lemma_word_offset_step(l, 2);
    lemma_word_offset_step(l, 3);
    lemma_word_offset_step(l, 4);
    lemma_word_offset_step(l, 5);
    lemma_word_offset_step(l, 6);
    lemma_word_offset_step(l, 7);
    lemma_word_offset_step(l, 8);
    lemma_word_offset_step(l, 9);
    lemma_word_offset_step(l, 10);
    lemma_word_offset_step(l, 11);
    lemma_word_offset_step(l, 12);
    lemma_word_offset_step(l, 13);
    lemma_word_offset_step(l, 14);
}

/// Each field of a `KiroGroundOutV1` sits at its declared offset in the record's
/// byte image, in little-endian order.
pub proof fn lemma_kiro_ground_out_v1_image(v: KiroGroundOutV1)
    ensures
        abi_encode(v).subrange(0, 4) == spec_u32_to_le_bytes(v.struct_size),
        abi_encode(v).subrange(4, 8) == spec_u32_to_le_bytes(v.status),
        abi_encode(v).subrange(8, 16) == spec_u64_to_le_bytes(v.agl_m),
        abi_encode(v).subrange(16, 24) == spec_u64_to_le_bytes(v.contact_ecef_m[0]),
        abi_encode(v).subrange(24, 32) == spec_u64_to_le_bytes(v.contact_ecef_m[1]),
        abi_encode(v).subrange(32, 40) == spec_u64_to_le_bytes(v.contact_ecef_m[2]),
        abi_encode(v).subrange(40, 48) == spec_u64_to_le_bytes(v.normal_ecef[0]),
        abi_encode(v).subrange(48, 56) == spec_u64_to_le_bytes(v.normal_ecef[1]),
        abi_encode(v).subrange(56, 64) == spec_u64_to_le_bytes(v.normal_ecef[2]),
        abi_encode(v).subrange(64, 72) == spec_u64_to_le_bytes(v.vel_ecef_mps[0]),
        abi_encode(v).subrange(72, 80) == spec_u64_to_le_bytes(v.vel_ecef_mps[1]),
        abi_encode(v).subrange(80, 88) == spec_u64_to_le_bytes(v.vel_ecef_mps[2]),
        abi_encode(v).subrange(88, 96) == spec_u64_to_le_bytes(v.angvel_ecef_rps[0]),
        abi_encode(v).subrange(96, 104) == spec_u64_to_le_bytes(v.angvel_ecef_rps[1]),
        abi_encode(v).subrange(104, 112) == spec_u64_to_le_bytes(v.angvel_ecef_rps[2]),
{
    lemma_kiro_ground_out_v1_offsets();
    v.lemma_words();
    let ws = v.spec_words();
    assert(abi_encode(v).subrange(0, 4) == spec_u32_to_le_bytes(v.struct_size)) by {
        lemma_encode_word_at(ws, 0);
    }
    assert(abi_encode(v).subrange(4, 8) == spec_u32_to_le_bytes(v.status)) by {
        lemma_encode_word_at(ws, 1);
    }
    assert(abi_encode(v).subrange(8, 16) == spec_u64_to_le_bytes(v.agl_m)) by {
        lemma_encode_word_at(ws, 2);
    }
    assert(abi_encode(v).subrange(16, 24) == spec_u64_to_le_bytes(v.contact_ecef_m[0])) by {
        lemma_encode_word_at(ws, 3);
    }
    assert(abi_encode(v).subrange(24, 32) == spec_u64_to_le_bytes(v.contact_ecef_m[1])) by {
        lemma_encode_word_at(ws, 4);
    }
    assert(abi_encode(v).subrange(32, 40) == spec_u64_to_le_bytes(v.contact_ecef_m[2])) by {
        lemma_encode_word_at(ws, 5);
    }
    assert(abi_encode(v).subrange(40, 48) == spec_u64_to_le_bytes(v.normal_ecef[0])) by {
        lemma_encode_word_at(ws, 6);
    }
    assert(abi_encode(v).subrange(48, 56) == spec_u64_to_le_bytes(v.normal_ecef[1])) by {
        lemma_encode_word_at(ws, 7);
    }
    assert(abi_encode(v).subrange(56, 64) == spec_u64_to_le_bytes(v.normal_ecef[2])) by {
        lemma_encode_word_at(ws, 8);
    }
    assert(abi_encode(v).subrange(64, 72) == spec_u64_to_le_bytes(v.vel_ecef_mps[0])) by {
        lemma_encode_word_at(ws, 9);
    }
    assert(abi_encode(v).subrange(72, 80) == spec_u64_to_le_bytes(v.vel_ecef_mps[1])) by {
        lemma_encode_word_at(ws, 10);
    }
    assert(abi_encode(v).subrange(80, 88) == spec_u64_to_le_bytes(v.vel_ecef_mps[2])) by {
        lemma_encode_word_at(ws, 11);
    }
    assert(abi_encode(v).subrange(88, 96) == spec_u64_to_le_bytes(v.angvel_ecef_rps[0])) by {
        lemma_encode_word_at(ws, 12);
    }
    assert(abi_encode(v).subrange(96, 104) == spec_u64_to_le_bytes(v.angvel_ecef_rps[1])) by {
        lemma_encode_word_at(ws, 13);
    }
    assert(abi_encode(v).subrange(104, 112) == spec_u64_to_le_bytes(v.angvel_ecef_rps[2])) by {
        lemma_encode_word_at(ws, 14);
    }
}

/// Each field of a `KiroGroundOutV1` read from bytes is the little-endian value
/// at the field's declared offset.
pub proof fn lemma_kiro_ground_out_v1_read(b: Seq<u8>)
    requires
        b.len() >= 112,
    ensures
        abi_decode::<KiroGroundOutV1>(b).struct_size == spec_u32_from_le_bytes(b.subrange(0, 4)),
        abi_decode::<KiroGroundOutV1>(b).status == spec_u32_from_le_bytes(b.subrange(4, 8)),
        abi_decode::<KiroGroundOutV1>(b).agl_m == spec_u64_from_le_bytes(b.subrange(8, 16)),
        abi_decode::<KiroGroundOutV1>(b).contact_ecef_m[0] == spec_u64_from_le_bytes(b.subrange(16, 24)),
        abi_decode::<KiroGroundOutV1>(b).contact_ecef_m[1] == spec_u64_from_le_bytes(b.subrange(24, 32)),
        abi_decode::<KiroGroundOutV1>(b).contact_ecef_m[2] == spec_u64_from_le_bytes(b.subrange(32, 40)),
        abi_decode::<KiroGroundOutV1>(b).normal_ecef[0] == spec_u64_from_le_bytes(b.subrange(40, 48)),
        abi_decode::<KiroGroundOutV1>(b).normal_ecef[1] == spec_u64_from_le_bytes(b.subrange(48, 56)),
        abi_decode::<KiroGroundOutV1>(b).normal_ecef[2] == spec_u64_from_le_bytes(b.subrange(56, 64)),
        abi_decode::<KiroGroundOutV1>(b).vel_ecef_mps[0] == spec_u64_from_le_bytes(b.subrange(64, 72)),
        abi_decode::<KiroGroundOutV1>(b).vel_ecef_mps[1] == spec_u64_from_le_bytes(b.subrange(72, 80)),
        abi_decode::<KiroGroundOutV1>(b).vel_ecef_mps[2] == spec_u64_from_le_bytes(b.subrange(80, 88)),
        abi_decode::<KiroGroundOutV1>(b).angvel_ecef_rps[0] == spec_u64_from_le_bytes(b.subrange(88, 96)),
        abi_decode::<KiroGroundOutV1>(b).angvel_ecef_rps[1] == spec_u64_from_le_bytes(b.subrange(96, 104)),
        abi_decode::<KiroGroundOutV1>(b).angvel_ecef_rps[2] == spec_u64_from_le_bytes(b.subrange(104, 112)),
{
    lemma_kiro_ground_out_v1_offsets();
    let l = KiroGroundOutV1::spec_layout();
    lemma_decode_word_at(l, b, 0);
    lemma_decode_word_at(l, b, 1);
    lemma_decode_word_at(l, b, 2);
    lemma_decode_word_at(l, b, 3);
    lemma_decode_word_at(l, b, 4);
    lemma_decode_word_at(l, b, 5);
    lemma_decode_word_at(l, b, 6);
    lemma_decode_word_at(l, b, 7);
    lemma_decode_word_at(l, b, 8);
    lemma_decode_word_at(l, b, 9);
    lemma_decode_word_at(l, b, 10);
    lemma_decode_word_at(l, b, 11);
    lemma_decode_word_at(l, b, 12);
    lemma_decode_word_at(l, b, 13);
    lemma_decode_word_at(l, b, 14);
}


} // verus!
