//! The capabilities that a file grants.
use vstd::prelude::*;

verus! {

/// The number in the four bytes from `at`, the lowest first.
pub open spec fn word_at(data: Seq<u8>, at: int) -> int {
    data[at] + 0x100 * data[at + 1] + 0x1_0000 * data[at + 2] + 0x100_0000 * data[at + 3]
}

/// The permitted capabilities in the value of the attribute `security.capability`.
///
/// The highest byte of the first word is the revision. Pairs of words follow, one for the first
/// revision and two for the second and third, of which the first is for permitted capabilities.
pub open spec fn permitted_caps(data: Seq<u8>) -> Option<u64> {
    if data.len() < 4 {
        None
    } else if data[3] == 1 && data.len() >= 8 {
        Some(word_at(data, 4) as u64)
    } else if (data[3] == 2 || data[3] == 3) && data.len() >= 16 {
        Some((word_at(data, 4) + 0x1_0000_0000 * word_at(data, 12)) as u64)
    } else {
        None
    }
}

fn read_word(data: &[u8], at: usize) -> (r: u32)
    requires
        at + 4 <= data@.len(),
    ensures
        r == word_at(data@, at as int),
{
    let a: u32 = data[at] as u32;
    let b: u32 = data[at + 1] as u32;
    let c: u32 = data[at + 2] as u32;
    let d: u32 = data[at + 3] as u32;
    a + 0x100 * b + 0x1_0000 * c + 0x100_0000 * d
}

/// The permitted capabilities in the value of the attribute `security.capability`, one bit for
/// each. `None` where the revision is unknown or the value is cut off.
pub fn permitted_caps_from_xattr(data: &[u8]) -> (r: Option<u64>)
    ensures
        r == permitted_caps(data@),
{
    if data.len() < 4 {
        return None;
    }
    let revision: u8 = data[3];
    if revision == 1 && data.len() >= 8 {
        Some(read_word(data, 4) as u64)
    } else if (revision == 2 || revision == 3) && data.len() >= 16 {
        let low: u64 = read_word(data, 4) as u64;
        let high: u64 = read_word(data, 12) as u64;
        Some(low + 0x1_0000_0000 * high)
    } else {
        None
    }
}

/// Whether the value of `security.capability` of a binary, if it has one, permits all of `required`.
pub open spec fn caps_granted(value: Option<Seq<u8>>, required: u64) -> bool {
    value matches Some(data) && permitted_caps(data) matches Some(permitted) && permitted & required
        == required
}

/// Whether a binary holds all capabilities in `required`. `value` is that of its attribute
/// `security.capability`, if it has one that can be read.
pub fn binary_has_capabilities(value: Option<&[u8]>, required: u64) -> (r: bool)
    ensures
        r == caps_granted(crate::elf::bytes_of(value), required),
{
    match value {
        Some(data) => match permitted_caps_from_xattr(data) {
            Some(permitted) => permitted & required == required,
            None => false,
        },
        None => false,
    }
}

/// The permitted capabilities are the second word of the value, and from the second revision on the
/// fourth word holds the upper half of them. An unknown revision has none, nor has a value that is
/// cut off.
pub proof fn law_permitted_capabilities_are_read(data: &[u8], r: Option<u64>)
    requires
        call_ensures(permitted_caps_from_xattr, (data,), r),
    ensures
        ({
            let low = data@[4] + 256 * data@[5] + 65536 * data@[6] + 16777216 * data@[7];
            let high = data@[12] + 256 * data@[13] + 65536 * data@[14] + 16777216 * data@[15];
            &&& data@.len() >= 8 && data@[3] == 1 ==> (r matches Some(caps) && caps == low)
            &&& data@.len() >= 16 && (data@[3] == 2 || data@[3] == 3) ==> (r matches Some(caps) && caps
                == low + 4294967296 * high)
            &&& data@.len() < 8 ==> r is None
            &&& data@.len() < 16 && data@[3] != 1 ==> r is None
            &&& data@[3] == 0 || data@[3] > 3 ==> r is None
        }),
{
}

/// A binary that holds some capabilities holds each part of them, and it holds all that its attribute
/// permits. One without a readable attribute holds none.
pub proof fn law_capabilities_are_held_together(
    value: Option<&[u8]>,
    permitted: Option<u64>,
    required: u64,
    part: u64,
    all: bool,
    of_part: bool,
    of_permitted: bool,
)
    requires
        value matches Some(data) ==> call_ensures(permitted_caps_from_xattr, (data,), permitted),
        value is None ==> permitted is None,
        call_ensures(binary_has_capabilities, (value, required), all),
        call_ensures(binary_has_capabilities, (value, part), of_part),
        part & required == part,
        permitted matches Some(caps) ==> call_ensures(
            binary_has_capabilities,
            (value, caps),
            of_permitted,
        ),
    ensures
        all ==> of_part,
        permitted is None ==> !all,
        permitted is Some ==> of_permitted,
        permitted matches Some(caps) ==> (all <==> required & !caps == 0),
{
    if let Some(caps) = permitted {
        assert(caps & caps == caps) by (bit_vector);
        assert(caps & required == required && part & required == part ==> caps & part == part)
            by (bit_vector);
        assert((caps & required == required) <==> (required & !caps == 0)) by (bit_vector);
    }
}

} // verus!
