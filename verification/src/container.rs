//! The layout of a self-extracting file: a program image, the marker, and the
//! serialized payload.
use crate::laws::layout;
use vstd::prelude::*;
use vstd::slice::*;
use vstd::utf8::*;

verus! {

/// The length of the marker in bytes.
pub const MARKER_LEN: usize = 24;

/// The bytes `SECURE_ENCRYPTED_FILE_V1`, which stand between the program image and
/// the payload.
pub const ENCRYPTED_MARKER: [u8; MARKER_LEN] = [
    83, 69, 67, 85, 82, 69, 95, 69, 78, 67, 82, 89, 80, 84, 69, 68, 95, 70, 73, 76, 69, 95, 86, 49,
];

/// The marker as a sequence of bytes.
pub open spec fn marker() -> Seq<u8> {
    ENCRYPTED_MARKER@
}

/// The marker stands in `data` at offset `at`.
pub open spec fn marker_at(data: Seq<u8>, at: int) -> bool {
    &&& 0 <= at
    &&& at + marker().len() <= data.len()
    &&& data.subrange(at, at + marker().len()) == marker()
}

/// The marker stands somewhere in `data`.
pub open spec fn has_marker(data: Seq<u8>) -> bool {
    exists|at: int| marker_at(data, at)
}

/// `at` is the first offset at which the marker stands in `data`.
pub open spec fn first_marker_at(data: Seq<u8>, at: int) -> bool {
    &&& marker_at(data, at)
    &&& forall|j: int| 0 <= j < at ==> !marker_at(data, j)
}

/// What follows the first marker in `data`, if there is a marker.
pub open spec fn embedded_payload(data: Seq<u8>) -> Option<Seq<u8>> {
    if has_marker(data) {
        let at = choose|at: int| first_marker_at(data, at);
        Some(data.subrange(at + marker().len(), data.len() as int))
    } else {
        None
    }
}

/// Whether the marker stands in `data` at `at`.
fn matches_marker(data: &[u8], at: usize) -> (found: bool)
    requires
        at + marker().len() <= data@.len(),
    ensures
        found == marker_at(data@, at as int),
{
    let len: usize = data.len();
    let mut i: usize = 0;
    while i < MARKER_LEN
        invariant
            i <= MARKER_LEN,
            len == data@.len(),
            at + MARKER_LEN <= len,
            forall|j: int| 0 <= j < i ==> data@[at + j] == #[trigger] marker()[j],
        decreases MARKER_LEN - i,
    {
        if data[at + i] != ENCRYPTED_MARKER[i] {
            assert(data@.subrange(at as int, at + MARKER_LEN)[i as int] != marker()[i as int]);
            return false;
        }
        i = i + 1;
    }
    assert(data@.subrange(at as int, at + MARKER_LEN) =~= marker());
    true
}

/// The offset of the first marker in `data`.
pub fn find_marker(data: &[u8]) -> (found: Option<usize>)
    ensures
        match found {
            Some(at) => {
                &&& first_marker_at(data@, at as int)
                &&& at + MARKER_LEN <= data@.len()
                &&& forall|k: int|
                    0 <= k < MARKER_LEN ==> data@[at + k] == #[trigger] ENCRYPTED_MARKER@[k]
            },
            None => !has_marker(data@),
        },
{
    proof {
        assert forall|at: int| #[trigger] marker_at(data@, at) implies forall|k: int|
            0 <= k < MARKER_LEN ==> data@[at + k] == #[trigger] ENCRYPTED_MARKER@[k] by {
            layout::law_marker_stands_byte_for_byte(data@, at);
        }
    }
    let mut at: usize = 0;
    while data.len() >= MARKER_LEN && at <= data.len() - MARKER_LEN
        invariant
            forall|j: int| 0 <= j < at ==> !marker_at(data@, j),
        decreases data.len() - at,
    {
        if matches_marker(data, at) {
            return Some(at);
        }
        at = at + 1;
    }
    None
}

/// Whether `data` is a self-extracting image, that is, holds the marker.
pub fn is_encrypted_image(data: &[u8]) -> (found: bool)
    ensures
        found == has_marker(data@),
{
    find_marker(data).is_some()
}

/// Whether the file whose contents are `contents` (`None` for a file that could not
/// be read) is a self-extracting image.
pub fn is_encrypted_file(contents: Option<&[u8]>) -> (found: bool)
    ensures
        found == (contents is Some && has_marker(contents->0@)),
        found ==> exists|at: int|
            0 <= at && at + MARKER_LEN <= contents->0@.len() && #[trigger] contents->0@.subrange(
                at,
                at + MARKER_LEN,
            ) == ENCRYPTED_MARKER@,
{
    proof {
        if contents is Some {
            layout::law_encrypted_exactly_if_marker_bytes_stand_in_it(contents->0@);
        }
    }
    match contents {
        Some(data) => is_encrypted_image(data),
        None => false,
    }
}

/// The payload that follows the first marker in `data`, or `None` where there is no
/// marker.
pub fn payload_bytes(data: &[u8]) -> (payload: Option<Vec<u8>>)
    ensures
        match payload {
            Some(bytes) => embedded_payload(data@) == Some(bytes@),
            None => embedded_payload(data@) is None,
        },
{
    match find_marker(data) {
        Some(at) => {
            proof {
                lemma_first_marker_unique(data@, at as int);
            }
            let len: usize = data.len();
            Some(slice_to_vec(slice_subrange(data, at + MARKER_LEN, len)))
        },
        None => None,
    }
}

/// The bytes that are put behind a program image: the marker, then the serialized
/// payload.
pub fn frame_payload(json: &str) -> (framed: Vec<u8>)
    ensures
        framed@ == marker() + encode_utf8(json@),
{
    let mut framed: Vec<u8> = Vec::new();
    framed.extend_from_slice(&ENCRYPTED_MARKER);
    framed.extend_from_slice(json.as_bytes());
    assert(framed@ =~= marker() + encode_utf8(json@));
    framed
}

/// There is at most one first offset, and it is the one that `embedded_payload` picks.
proof fn lemma_first_marker_unique(data: Seq<u8>, at: int)
    requires
        first_marker_at(data, at),
    ensures
        embedded_payload(data) == Some(data.subrange(at + marker().len(), data.len() as int)),
{
    assert(has_marker(data));
    let picked = choose|i: int| first_marker_at(data, i);
    assert(first_marker_at(data, picked));
    assert(picked == at);
}

/// Where the marker stands anywhere, it stands somewhere first.
proof fn lemma_first_marker_exists(data: Seq<u8>, at: int)
    requires
        marker_at(data, at),
    ensures
        exists|i: int| i <= at && first_marker_at(data, i),
    decreases at,
{
    if exists|j: int| 0 <= j < at && marker_at(data, j) {
        let j = choose|j: int| 0 <= j < at && marker_at(data, j);
        lemma_first_marker_exists(data, j);
    } else {
        assert(first_marker_at(data, at));
    }
}

/// The last byte of the marker occurs nowhere else in it.
proof fn lemma_marker_end_is_unique(k: int)
    requires
        0 <= k < 23,
    ensures
        marker()[k] != marker()[23],
{
    let m = ENCRYPTED_MARKER;
    assert(m[0] == 83 && m[1] == 69 && m[2] == 67 && m[3] == 85 && m[4] == 82 && m[5] == 69);
    assert(m[6] == 95 && m[7] == 69 && m[8] == 78 && m[9] == 67 && m[10] == 82 && m[11] == 89);
    assert(m[12] == 80 && m[13] == 84 && m[14] == 69 && m[15] == 68 && m[16] == 95 && m[17] == 70);
    assert(m[18] == 73 && m[19] == 76 && m[20] == 69 && m[21] == 95 && m[22] == 86 && m[23] == 49);
}

/// Whatever stands before and after the marker, an image that was extended by a
/// framed payload is recognised as encrypted.
pub proof fn law_framed_image_is_encrypted(image: Seq<u8>, payload: Seq<u8>)
    ensures
        has_marker(image + (marker() + payload)),
        embedded_payload(image + (marker() + payload)) is Some,
{
    let data = image + (marker() + payload);
    assert(data.subrange(image.len() as int, (image.len() + marker().len()) as int) =~= marker());
    assert(marker_at(data, image.len() as int));
}

/// Reading gives back what was written: from an image without a marker that was
/// extended by a framed payload, exactly that payload is extracted, whatever bytes it
/// holds.
pub proof fn law_extract_gives_back_frame(image: Seq<u8>, payload: Seq<u8>)
    requires
        !has_marker(image),
    ensures
        embedded_payload(image + (marker() + payload)) == Some(payload),
{
    let data = image + (marker() + payload);
    let n = image.len() as int;
    assert(data.subrange(n, n + MARKER_LEN) =~= marker());
    assert(marker_at(data, n));
    assert forall|j: int| 0 <= j < n implies !marker_at(data, j) by {
        if marker_at(data, j) {
            if j + MARKER_LEN <= n {
                assert(data.subrange(j, j + MARKER_LEN) =~= image.subrange(j, j + MARKER_LEN));
                assert(marker_at(image, j));
            } else {
                // The digit at the end of the marker occurs nowhere else in it.
                let last = j + 23 - n;
                assert(data.subrange(j, j + MARKER_LEN)[23] == marker()[23]);
                assert(data[j + 23] == marker()[last]);
                lemma_marker_end_is_unique(last);
            }
        }
    }
    assert(first_marker_at(data, n));
    lemma_first_marker_unique(data, n);
    assert(data.subrange(n + MARKER_LEN, data.len() as int) =~= payload);
}

/// The payload of an image that already holds a marker is read from behind the first
/// one, so what is appended later never replaces it.
pub proof fn law_first_marker_wins(image: Seq<u8>, appended: Seq<u8>)
    requires
        has_marker(image),
    ensures
        embedded_payload(image + appended) == Some(embedded_payload(image)->0 + appended),
{
    let at0 = choose|at: int| marker_at(image, at);
    lemma_first_marker_exists(image, at0);
    let at = choose|i: int| i <= at0 && first_marker_at(image, i);
    let data = image + appended;
    assert(data.subrange(at, at + MARKER_LEN) =~= image.subrange(at, at + MARKER_LEN));
    assert forall|j: int| 0 <= j < at implies !marker_at(data, j) by {
        assert(data.subrange(j, j + MARKER_LEN) =~= image.subrange(j, j + MARKER_LEN));
        assert(!marker_at(image, j));
    }
    assert(first_marker_at(data, at));
    lemma_first_marker_unique(data, at);
    lemma_first_marker_unique(image, at);
    assert(data.subrange(at + MARKER_LEN, data.len() as int) =~= image.subrange(
        at + MARKER_LEN,
        image.len() as int,
    ) + appended);
}

} // verus!
