//! The laws of file names, numbers, identifiers, scripts and messages, stated over their
//! characters.
use crate::cleanup;
use crate::error;
use crate::error::{CryptoError, ErrorView};
use crate::names;
use crate::primitives;
use crate::text;
use vstd::prelude::*;
use vstd::string::*;
use vstd::utf8::*;

verus! {

/// A number below ten is its digit, and a digit is written behind the number that it
/// continues.
pub proof fn law_decimal_is_written_digit_by_digit(n: nat, d: nat)
    requires
        d < 10,
    ensures
        text::decimal(d) == seq![(48 + d) as char],
        n > 0 ==> text::decimal(10 * n + d) == text::decimal(n).push((48 + d) as char),
{
    if n > 0 {
        assert((10 * n + d) / 10 == n && (10 * n + d) % 10 == d) by (nonlinear_arith)
            requires
                d < 10,
        ;
    }
}

/// Every byte is written as two of the sixteen lower-case digits, the higher one first.
pub proof fn law_hex_writes_two_digits_a_byte(bytes: Seq<u8>, i: int)
    requires
        0 <= i < bytes.len(),
    ensures
        text::hex(bytes).len() == 2 * bytes.len(),
        text::hex(bytes)[2 * i] == "0123456789abcdef"@[bytes[i] as int / 16],
        text::hex(bytes)[2 * i + 1] == "0123456789abcdef"@[bytes[i] as int % 16],
{
    reveal_strlit("0123456789abcdef");
    lemma_hex_digit(bytes[i] as nat / 16);
    lemma_hex_digit(bytes[i] as nat % 16);
}

proof fn lemma_hex_digit(d: nat)
    requires
        d < 16,
    ensures
        text::hex_digit(d) == "0123456789abcdef"@[d as int],
{
    reveal_strlit("0123456789abcdef");
    let s = "0123456789abcdef"@;
    assert(s[0] == '0' && s[1] == '1' && s[2] == '2' && s[3] == '3' && s[4] == '4' && s[5] == '5');
    assert(s[6] == '6' && s[7] == '7' && s[8] == '8' && s[9] == '9' && s[10] == 'a' && s[11]
        == 'b');
    assert(s[12] == 'c' && s[13] == 'd' && s[14] == 'e' && s[15] == 'f');
}

/// A file's identifier is written from the first eight bytes of the SHA-256 digest of its
/// whole metadata text and its whole path.
pub proof fn law_file_id_is_the_start_of_the_digest(
    metadata: Option<Seq<char>>,
    path: Seq<char>,
    i: int,
)
    requires
        0 <= i < 8,
        primitives::sha256(encode_utf8(path)).len() == 32,
        metadata is Some ==> primitives::sha256(
            encode_utf8(metadata->0) + encode_utf8(path),
        ).len() == 32,
    ensures
        ({
            let digest = match metadata {
                Some(about) => primitives::sha256(encode_utf8(about) + encode_utf8(path)),
                None => primitives::sha256(encode_utf8(path)),
            };
            let id = text::file_id(metadata, path);
            &&& id.len() == 16
            &&& id[2 * i] == "0123456789abcdef"@[digest[i] as int / 16]
            &&& id[2 * i + 1] == "0123456789abcdef"@[digest[i] as int % 16]
        }),
{
    let digest = match metadata {
        Some(about) => primitives::sha256(encode_utf8(about) + encode_utf8(path)),
        None => primitives::sha256(encode_utf8(path)),
    };
    assert(Seq::<u8>::empty() + encode_utf8(path) =~= encode_utf8(path));
    law_hex_writes_two_digits_a_byte(digest, i);
}

/// Trimming takes white space off either end and nothing else, and leaves none there.
pub proof fn law_trimming_takes_white_space_off_the_ends(s: Seq<char>)
    ensures
        ({
            let left = text::trimmed(s);
            &&& left.len() > 0 ==> !primitives::white_space(left.first())
                && !primitives::white_space(left.last())
            &&& exists|from: int, to: int|
                0 <= from <= to <= s.len() && left == #[trigger] s.subrange(from, to) && (forall|
                    i: int,
                |
                    0 <= i < from || to <= i < s.len() ==> primitives::white_space(
                        #[trigger] s[i],
                    ))
        }),
{
    let from = lemma_trimmed_start(s);
    let t = text::trimmed_start(s);
    let to = lemma_trimmed_end(t);
    assert(text::trimmed(s) =~= s.subrange(from, from + to));
    assert forall|i: int| 0 <= i < from || from + to <= i < s.len() implies primitives::white_space(
        #[trigger] s[i],
    ) by {
        if i >= from {
            assert(t[i - from] == s[i]);
        }
    }
    if text::trimmed(s).len() > 0 {
        assert(text::trimmed(s).first() == t.first());
    }
}

proof fn lemma_trimmed_start(s: Seq<char>) -> (from: int)
    ensures
        0 <= from <= s.len(),
        text::trimmed_start(s) == s.skip(from),
        forall|i: int| 0 <= i < from ==> primitives::white_space(#[trigger] s[i]),
        from < s.len() ==> !primitives::white_space(s[from]),
    decreases s.len(),
{
    if s.len() > 0 && primitives::white_space(s.first()) {
        let rest = s.drop_first();
        let from = lemma_trimmed_start(rest);
        assert(rest.skip(from) =~= s.skip(from + 1));
        assert forall|i: int| 0 <= i < from + 1 implies primitives::white_space(#[trigger] s[i]) by {
            if i > 0 {
                assert(rest[i - 1] == s[i]);
            }
        }
        from + 1
    } else {
        assert(s.skip(0) =~= s);
        0
    }
}

proof fn lemma_trimmed_end(s: Seq<char>) -> (to: int)
    ensures
        0 <= to <= s.len(),
        text::trimmed_end(s) == s.take(to),
        forall|i: int| to <= i < s.len() ==> primitives::white_space(#[trigger] s[i]),
        to > 0 ==> !primitives::white_space(s[to - 1]),
    decreases s.len(),
{
    if s.len() > 0 && primitives::white_space(s.last()) {
        let rest = s.drop_last();
        let to = lemma_trimmed_end(rest);
        assert(rest.take(to) =~= s.take(to));
        assert forall|i: int| to <= i < s.len() implies primitives::white_space(#[trigger] s[i]) by {
            if i < s.len() - 1 {
                assert(rest[i] == s[i]);
            }
        }
        to
    } else {
        assert(s.take(s.len() as int) =~= s);
        s.len() as int
    }
}

/// A name is split at its last dot, unless that is its first character.
pub proof fn law_name_is_split_at_its_last_dot(head: Seq<char>, tail: Seq<char>)
    requires
        head.len() > 0,
        forall|i: int| 0 <= i < tail.len() ==> #[trigger] tail[i] != '.',
    ensures
        names::stem(head + seq!['.'] + tail) == head,
        names::extension(head + seq!['.'] + tail) == tail,
{
    let name = head + seq!['.'] + tail;
    let at = head.len() as int;
    assert forall|j: int| at < j < name.len() implies #[trigger] name[j] != '.' by {
        assert(name[j] == tail[j - at - 1]);
    }
    assert(name[at] == '.');
    assert(names::extension_dot(name, at));
    let picked = choose|i: int| names::extension_dot(name, i);
    assert(names::extension_dot(name, picked));
    if picked < at {
        assert(name[at] != '.');
    }
    if at < picked {
        assert(name[picked] != '.');
    }
    assert(names::stem(name) =~= head);
    assert(names::extension(name) =~= tail);
}

/// A name without a dot behind its first character is its own stem.
pub proof fn law_name_without_dot_is_its_stem(name: Seq<char>)
    requires
        forall|i: int| 0 < i < name.len() ==> #[trigger] name[i] != '.',
    ensures
        names::stem(name) == name,
        names::extension(name).len() == 0,
{
    if names::has_extension(name) {
        let i = choose|i: int| names::extension_dot(name, i);
        assert(name[i] != '.');
    }
}

/// A file that has a name is remembered under exactly that name, whatever its length; one
/// that has none is remembered as `unknown`.
pub proof fn law_own_name_is_remembered(name: String)
    ensures
        names::remembered_name(names::optional(Some(name))) == name@,
        names::remembered_name(names::optional(None)) == "unknown"@,
{
}

/// Two files are remembered alike only if they are named alike.
pub proof fn law_names_are_remembered_apart(a: Seq<char>, b: Seq<char>)
    ensures
        names::remembered_name(Some(a)) == names::remembered_name(Some(b)) <==> a == b,
{
}

/// The number of a name stands behind an underscore before the extension, and at the end
/// where there is no extension or an empty one.
pub proof fn law_number_stands_before_extension(head: Seq<char>, tail: Seq<char>, n: nat)
    requires
        head.len() > 0,
        forall|i: int| 0 <= i < tail.len() ==> #[trigger] tail[i] != '.',
    ensures
        tail.len() > 0 ==> names::numbered_name(Some(head + seq!['.'] + tail), n) == head + seq![
            '_',
        ] + text::decimal(n) + seq!['.'] + tail,
        tail.len() == 0 ==> names::numbered_name(Some(head + seq!['.'] + tail), n) == head + seq![
            '_',
        ] + text::decimal(n),
        names::numbered_name(None, n) == "file_"@ + text::decimal(n),
        (forall|i: int| 0 < i < head.len() ==> #[trigger] head[i] != '.') ==> names::numbered_name(
            Some(head),
            n,
        ) == head + seq!['_'] + text::decimal(n),
{
    reveal_strlit("_");
    reveal_strlit(".");
    reveal_strlit("file");
    reveal_strlit("file_");
    law_name_is_split_at_its_last_dot(head, tail);
    assert("_"@ =~= seq!['_']);
    assert("."@ =~= seq!['.']);
    assert("file"@ + "_"@ =~= "file_"@);
    if forall|i: int| 0 < i < head.len() ==> #[trigger] head[i] != '.' {
        law_name_without_dot_is_its_stem(head);
    }
}

/// The record of a program's run is named after the whole stem of the program.
pub proof fn law_run_marker_holds_whole_stem(stem: Seq<char>)
    ensures
        names::run_marker_name(Some(stem)) == seq!['.'] + stem + seq!['.', 'r', 'u', 'n'],
        names::run_marker_name(None) == ".secure_exe.run"@,
{
    reveal_strlit(".");
    reveal_strlit(".run");
    reveal_strlit("secure_exe");
    reveal_strlit(".secure_exe.run");
    assert("."@ =~= seq!['.']);
    assert(".run"@ =~= seq!['.', 'r', 'u', 'n']);
    assert("."@ + "secure_exe"@ + ".run"@ =~= ".secure_exe.run"@);
}

/// Escaping works on the parts of a text one by one: a quote becomes two, every other
/// character stays.
pub proof fn law_escaping_doubles_quotes_only(a: Seq<char>, b: Seq<char>, c: char)
    ensures
        cleanup::escaped(a + b) == cleanup::escaped(a) + cleanup::escaped(b),
        cleanup::escaped(seq![c]) == (if c == '\'' {
            seq!['\'', '\'']
        } else {
            seq![c]
        }),
        cleanup::escaped(Seq::empty()).len() == 0,
    decreases a.len(),
{
    assert(seq![c].drop_first() =~= Seq::empty());
    assert(cleanup::escaped(seq![c].drop_first()).len() == 0);
    assert(cleanup::escaped(seq![c]) =~= (if c == '\'' {
        seq!['\'', '\'']
    } else {
        seq![c]
    }));
    if a.len() == 0 {
        assert(a + b =~= b);
        assert(cleanup::escaped(a) + cleanup::escaped(b) =~= cleanup::escaped(b));
    } else {
        law_escaping_doubles_quotes_only(a.drop_first(), b, c);
        assert((a + b).drop_first() =~= a.drop_first() + b);
        assert(cleanup::escaped(a + b) =~= cleanup::escaped(a) + cleanup::escaped(b));
    }
}

/// The script is its fixed text around the two escaped paths, the program's first.
pub proof fn law_script_is_fixed_around_its_paths(exe: Seq<char>, marker: Seq<char>)
    ensures
        cleanup::script(exe, marker) == "$exe='"@ + cleanup::escaped(exe) + "';$marker='"@
            + cleanup::escaped(marker)
            + "';for($i=0;$i -lt 200;$i++){try{Remove-Item -LiteralPath $exe -Force -ErrorAction Stop}catch{};if(-not (Test-Path -LiteralPath $exe)){break};Start-Sleep -Milliseconds 100};if($marker -and (Test-Path -LiteralPath $marker)){try{Remove-Item -LiteralPath $marker -Force -ErrorAction SilentlyContinue}catch{}}"@,
{
    reveal_strlit("';");
    reveal_strlit(
        "for($i=0;$i -lt 200;$i++){try{Remove-Item -LiteralPath $exe -Force -ErrorAction Stop}catch{};if(-not (Test-Path -LiteralPath $exe)){break};Start-Sleep -Milliseconds 100};if($marker -and (Test-Path -LiteralPath $marker)){try{Remove-Item -LiteralPath $marker -Force -ErrorAction SilentlyContinue}catch{}}",
    );
    reveal_strlit(
        "';for($i=0;$i -lt 200;$i++){try{Remove-Item -LiteralPath $exe -Force -ErrorAction Stop}catch{};if(-not (Test-Path -LiteralPath $exe)){break};Start-Sleep -Milliseconds 100};if($marker -and (Test-Path -LiteralPath $marker)){try{Remove-Item -LiteralPath $marker -Force -ErrorAction SilentlyContinue}catch{}}",
    );
    assert(cleanup::script(exe, marker) =~= "$exe='"@ + cleanup::escaped(exe) + "';$marker='"@
        + cleanup::escaped(marker)
        + "';for($i=0;$i -lt 200;$i++){try{Remove-Item -LiteralPath $exe -Force -ErrorAction Stop}catch{};if(-not (Test-Path -LiteralPath $exe)){break};Start-Sleep -Milliseconds 100};if($marker -and (Test-Path -LiteralPath $marker)){try{Remove-Item -LiteralPath $marker -Force -ErrorAction SilentlyContinue}catch{}}"@);
}

/// The message of an error is its kind in words, with all that it carries behind it.
pub proof fn law_message_tells_kind_and_carried_text(
    carried: Seq<char>,
    detail: Seq<char>,
    io: std::io::Error,
    json: serde_json::Error,
)
    ensures
        error::error_message(ErrorView::EncryptionFailed(carried), detail)
            == "Encryption failed: "@ + carried,
        error::error_message(ErrorView::DecryptionFailed(carried), detail)
            == "Decryption failed: "@ + carried,
        error::error_message(ErrorView::KeyDerivationFailed(carried), detail)
            == "Key derivation failed: "@ + carried,
        error::error_message(ErrorView::SignatureVerificationFailed, detail)
            == "Signature verification failed"@,
        error::error_message(ErrorView::InvalidPassword, detail) == "Invalid password"@,
        error::error_message(ErrorView::MaxAttemptsExceeded, detail) == "Max attempts exceeded"@,
        error::error_message(ErrorView::IoError(io), detail) == "IO error: "@ + detail,
        error::error_message(ErrorView::SerializationError(json), detail)
            == "Serialization error: "@ + detail,
{
}

} // verus!
