//! Values that cross the boundary to the Java host.

use jni::objects::JString;
use jni::JNIEnv;
use vstd::prelude::*;

verus! {

/// `jni::JNIEnv`: the handle through which the host's virtual machine is reached.
#[verifier::external_type_specification]
#[verifier::external_body]
pub struct ExJniEnv<'a>(JNIEnv<'a>);

/// `jni::objects::JString`: a reference to a string object of the host.
#[verifier::external_type_specification]
#[verifier::external_body]
pub struct ExJString<'a>(JString<'a>);

/// `jni::errors::Error`: what a call into the host's virtual machine failed with.
#[verifier::external_type_specification]
#[verifier::external_body]
pub struct ExJniError(jni::errors::Error);

/// A failure at the boundary to the host, with the host's own words for it.
#[derive(Debug)]
pub struct BridgeError {
    pub message: String,
}

/// `JNIEnv::get_string`, then the conversion of the `JavaStr` into a `String`.
/// What comes back depends on the object that the host handed over, so nothing
/// is claimed of it.
#[verifier::external_body]
fn read_host_string<'a, 'b>(env: &mut JNIEnv<'a>, text: &JString<'b>) -> (r: Result<
    String,
    jni::errors::Error,
>) {
    match env.get_string(text) {
        Ok(chars) => Ok(chars.into()),
        Err(error) => Err(error),
    }
}

/// `ToString::to_string` on a `jni::errors::Error`: the text of the error.
#[verifier::external_body]
fn describe_host_error(error: &jni::errors::Error) -> (message: String) {
    error.to_string()
}

/// Turns what the host's virtual machine answered into a result of this
/// library: the string where there is one, else an error with the host's text.
pub fn host_string_result(outcome: Result<String, jni::errors::Error>) -> (r: Result<
    String,
    BridgeError,
>)
    ensures
        outcome matches Ok(text) ==> r == Ok::<String, BridgeError>(text),
        outcome is Err ==> r is Err,
{
    match outcome {
        Ok(text) => Ok(text),
        Err(error) => Err(BridgeError { message: describe_host_error(&error) }),
    }
}

/// Reads a string of the host into a `String`. It fails where the reference is
/// null or is no string of the host's.
pub fn jstring_to_string<'a, 'b>(env: &mut JNIEnv<'a>, jstring: JString<'b>) -> (r: Result<
    String,
    BridgeError,
>) {
    host_string_result(read_host_string(env, &jstring))
}

/// The value of `result`, or `default` where it is an error.
pub fn handle_jni_error<T>(result: Result<T, BridgeError>, default: T) -> (value: T)
    ensures
        value == match result {
            Ok(v) => v,
            Err(_) => default,
        },
{
    match result {
        Ok(value) => value,
        Err(_) => default,
    }
}

/// Two counters in one word: `high` in the upper 32 bits, `low` in the lower.
/// Bits of `high` above its lower 32 are lost.
pub open spec fn packed_pair(high: u64, low: u32) -> u64 {
    (high << 32) | (low as u64)
}

/// The lower 16 bits of a signed amount, as the host reads them.
pub open spec fn low16(amount: i32) -> u64 {
    ((amount + 0x1_0000_0000) as u64) & 0xFFFF
}

/// An identifier and two amounts in one word: the lower 32 bits of `entity` on
/// top, then the lower 16 bits of `first`, then the lower 16 bits of `second`.
pub open spec fn packed_record(entity: u64, first: i32, second: i32) -> u64 {
    ((entity & 0xFFFF_FFFF) << 32) | (low16(first) << 16) | low16(second)
}

/// The flags of a module's energy: 1 where it receives, 2 where it gives.
pub open spec fn energy_flags(can_receive: bool, can_extract: bool) -> u64 {
    (if can_receive {
        1u64
    } else {
        0u64
    }) | (if can_extract {
        2u64
    } else {
        0u64
    })
}

/// The energy of a module in one word, 16 bits each from the top: the
/// generation rate, the flags, the capacity and the level.
pub open spec fn packed_energy(
    generation_rate: i32,
    can_receive: bool,
    can_extract: bool,
    capacity: i32,
    level: i32,
) -> u64 {
    (low16(generation_rate) << 48) | (energy_flags(can_receive, can_extract) << 32) | (low16(
        capacity,
    ) << 16) | low16(level)
}

fn low_bits(amount: i32) -> (bits: u64)
    ensures
        bits == low16(amount),
{
    (((amount as i64) + 0x1_0000_0000) as u64) & 0xFFFF
}

/// Packs two counters into one word for the host.
pub fn pack_pair(high: u64, low: u32) -> (word: u64)
    ensures
        word == packed_pair(high, low),
{
    (high << 32) | (low as u64)
}

/// Packs an identifier and two amounts into one word for the host.
pub fn pack_record(entity: u64, first: i32, second: i32) -> (word: u64)
    ensures
        word == packed_record(entity, first, second),
{
    ((entity & 0xFFFF_FFFF) << 32) | (low_bits(first) << 16) | low_bits(second)
}

/// Packs the energy of a module into one word for the host.
pub fn pack_energy(
    generation_rate: i32,
    can_receive: bool,
    can_extract: bool,
    capacity: i32,
    level: i32,
) -> (word: u64)
    ensures
        word == packed_energy(generation_rate, can_receive, can_extract, capacity, level),
{
    let receive_flag: u64 = if can_receive {
        1
    } else {
        0
    };
    let extract_flag: u64 = if can_extract {
        2
    } else {
        0
    };
    (low_bits(generation_rate) << 48) | ((receive_flag | extract_flag) << 32) | (low_bits(capacity)
        << 16) | low_bits(level)
}

/// The two halves of a packed pair give back the counters, as far as they fit.
pub proof fn lemma_packed_pair_halves(high: u64, low: u32)
    ensures
        packed_pair(high, low) & 0xFFFF_FFFF == low,
        packed_pair(high, low) >> 32 == high & 0xFFFF_FFFF,
{
    let l = low as u64;
    assert(((high << 32) | l) & 0xFFFF_FFFF == l) by (bit_vector)
        requires
            l <= 0xFFFF_FFFF,
    ;
    assert(((high << 32) | l) >> 32 == high & 0xFFFF_FFFF) by (bit_vector)
        requires
            l <= 0xFFFF_FFFF,
    ;
}

/// The fields of a packed record give back the identifier and the amounts, as
/// far as they fit. An amount between 0 and 65535 comes back as it is.
pub proof fn lemma_packed_record_fields(entity: u64, first: i32, second: i32)
    ensures
        packed_record(entity, first, second) >> 32 == entity & 0xFFFF_FFFF,
        (packed_record(entity, first, second) >> 16) & 0xFFFF == low16(first),
        packed_record(entity, first, second) & 0xFFFF == low16(second),
        0 <= first <= 0xFFFF ==> low16(first) == first,
        0 <= second <= 0xFFFF ==> low16(second) == second,
{
    let a = low16(first);
    let b = low16(second);
    let wide_a = (first + 0x1_0000_0000) as u64;
    let wide_b = (second + 0x1_0000_0000) as u64;
    assert(a <= 0xFFFF) by (bit_vector)
        requires
            a == wide_a & 0xFFFF,
    ;
    assert(b <= 0xFFFF) by (bit_vector)
        requires
            b == wide_b & 0xFFFF,
    ;
    assert((((entity & 0xFFFF_FFFF) << 32) | (a << 16) | b) >> 32 == entity & 0xFFFF_FFFF)
        by (bit_vector)
        requires
            a <= 0xFFFF,
            b <= 0xFFFF,
    ;
    assert(((((entity & 0xFFFF_FFFF) << 32) | (a << 16) | b) >> 16) & 0xFFFF == a) by (bit_vector)
        requires
            a <= 0xFFFF,
            b <= 0xFFFF,
    ;
    assert((((entity & 0xFFFF_FFFF) << 32) | (a << 16) | b) & 0xFFFF == b) by (bit_vector)
        requires
            a <= 0xFFFF,
            b <= 0xFFFF,
    ;
    if 0 <= first <= 0xFFFF {
        let f = first as u64;
        assert(((f + 0x1_0000_0000) as u64) & 0xFFFF == f) by (bit_vector)
            requires
                f <= 0xFFFF,
        ;
    }
    if 0 <= second <= 0xFFFF {
        let g = second as u64;
        assert(((g + 0x1_0000_0000) as u64) & 0xFFFF == g) by (bit_vector)
            requires
                g <= 0xFFFF,
        ;
    }
}

} // verus!
