//! The laws of a self-extracting file's layout, stated over its bytes.
use crate::container;
use crate::container::ENCRYPTED_MARKER;
use vstd::prelude::*;
use vstd::string::*;

verus! {

/// The marker is the text `SECURE_ENCRYPTED_FILE_V1`, byte for byte.
pub proof fn law_marker_is_its_text()
    ensures
        container::marker() == ENCRYPTED_MARKER@,
        ENCRYPTED_MARKER@.len() == 24,
        "SECURE_ENCRYPTED_FILE_V1"@.len() == 24,
        forall|k: int|
            0 <= k < 24 ==> #[trigger] ENCRYPTED_MARKER@[k]
                == "SECURE_ENCRYPTED_FILE_V1"@[k] as u8,
{
    reveal_strlit("SECURE_ENCRYPTED_FILE_V1");
    let m = ENCRYPTED_MARKER;
    assert(m[0] == 83 && m[1] == 69 && m[2] == 67 && m[3] == 85 && m[4] == 82 && m[5] == 69);
    assert(m[6] == 95 && m[7] == 69 && m[8] == 78 && m[9] == 67 && m[10] == 82 && m[11] == 89);
    assert(m[12] == 80 && m[13] == 84 && m[14] == 69 && m[15] == 68 && m[16] == 95 && m[17] == 70);
    assert(m[18] == 73 && m[19] == 76 && m[20] == 69 && m[21] == 95 && m[22] == 86 && m[23] == 49);
}

/// The marker stands at an offset exactly if every one of its bytes stands there.
pub proof fn law_marker_stands_byte_for_byte(data: Seq<u8>, at: int)
    ensures
        container::marker_at(data, at) <==> {
            &&& 0 <= at
            &&& at + 24 <= data.len()
            &&& forall|k: int| 0 <= k < 24 ==> data[at + k] == #[trigger] ENCRYPTED_MARKER@[k]
        },
{
    if 0 <= at && at + 24 <= data.len() {
        let window = data.subrange(at, at + 24);
        if forall|k: int| 0 <= k < 24 ==> data[at + k] == #[trigger] ENCRYPTED_MARKER@[k] {
            assert(window =~= ENCRYPTED_MARKER@);
        }
        if container::marker_at(data, at) {
            assert forall|k: int| 0 <= k < 24 implies data[at + k]
                == #[trigger] ENCRYPTED_MARKER@[k] by {
                assert(window[k] == data[at + k]);
            }
        }
    }
}

/// A file is taken for an encrypted one, and holds a payload, exactly if the bytes of the
/// marker stand in it one behind the other.
pub proof fn law_encrypted_exactly_if_marker_bytes_stand_in_it(data: Seq<u8>)
    ensures
        container::has_marker(data) <==> exists|at: int|
            0 <= at && at + 24 <= data.len() && #[trigger] data.subrange(at, at + 24)
                == ENCRYPTED_MARKER@,
        container::embedded_payload(data) is Some <==> exists|at: int|
            0 <= at && at + 24 <= data.len() && #[trigger] data.subrange(at, at + 24)
                == ENCRYPTED_MARKER@,
{
    if container::has_marker(data) {
        let at = choose|at: int| container::marker_at(data, at);
        law_marker_stands_byte_for_byte(data, at);
        assert(data.subrange(at, at + 24) =~= ENCRYPTED_MARKER@);
    }
    assert forall|at: int|
        0 <= at && at + 24 <= data.len() && #[trigger] data.subrange(at, at + 24)
            == ENCRYPTED_MARKER@ implies container::has_marker(data) by {
        assert forall|k: int| 0 <= k < 24 implies data[at + k] == #[trigger] ENCRYPTED_MARKER@[k] by {
            assert(data.subrange(at, at + 24)[k] == data[at + k]);
        }
        law_marker_stands_byte_for_byte(data, at);
        assert(container::marker_at(data, at));
    }
}

/// The payload is all that follows the first place where the bytes of the marker stand.
pub proof fn law_payload_is_all_behind_first_marker(data: Seq<u8>, at: int)
    requires
        0 <= at,
        at + 24 <= data.len(),
        data.subrange(at, at + 24) == ENCRYPTED_MARKER@,
        forall|j: int| 0 <= j < at ==> #[trigger] data.subrange(j, j + 24) != ENCRYPTED_MARKER@,
    ensures
        container::embedded_payload(data) == Some(data.subrange(at + 24, data.len() as int)),
{
    assert forall|k: int| 0 <= k < 24 implies data[at + k] == #[trigger] ENCRYPTED_MARKER@[k] by {
        assert(data.subrange(at, at + 24)[k] == data[at + k]);
    }
    law_marker_stands_byte_for_byte(data, at);
    assert forall|j: int| 0 <= j < at implies !container::marker_at(data, j) by {
        law_marker_stands_byte_for_byte(data, j);
        if container::marker_at(data, j) {
            assert(data.subrange(j, j + 24) =~= ENCRYPTED_MARKER@);
        }
    }
    assert(container::first_marker_at(data, at));
    let picked = choose|i: int| container::first_marker_at(data, i);
    assert(container::first_marker_at(data, picked));
    assert(picked == at);
}

} // verus!
