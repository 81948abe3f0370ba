//! Small pieces of text: decimal numbers, hexadecimal digests, trimmed input.
use crate::primitives;
use vstd::prelude::*;
use vstd::string::*;
use vstd::utf8::*;

verus! {

/// Whether two texts are the same.
pub fn same_text(a: &str, b: &str) -> (same: bool)
    ensures
        same == (a@ == b@),
{
    a.to_owned() == b.to_owned()
}

/// The decimal digit of a number below ten.
pub open spec fn decimal_digit(d: nat) -> char {
    (48 + d) as char
}

/// A number in decimal, without leading zeros.
pub open spec fn decimal(n: nat) -> Seq<char>
    decreases n,
{
    if n < 10 {
        seq![decimal_digit(n)]
    } else {
        decimal(n / 10).push(decimal_digit(n % 10))
    }
}

/// The decimal digit of a number below ten.
fn digit_char(d: u64) -> (c: char)
    requires
        d < 10,
    ensures
        c == decimal_digit(d as nat),
{
    (48 + d) as u8 as char
}

/// Writes a number in decimal.
pub fn decimal_text(n: u64) -> (text: String)
    ensures
        text@ == decimal(n as nat),
    decreases n,
{
    let mut text = if n < 10 {
        String::new()
    } else {
        decimal_text(n / 10)
    };
    text.push(digit_char(n % 10));
    proof {
        if n < 10 {
            assert(text@ =~= decimal(n as nat));
        }
    }
    text
}

/// Two numbers that are written alike are equal.
pub proof fn law_decimal_is_injective(a: nat, b: nat)
    requires
        decimal(a) == decimal(b),
    ensures
        a == b,
    decreases a,
{
    lemma_decimal_len(a);
    lemma_decimal_len(b);
    assert(decimal(a).last() == decimal_digit(a % 10));
    assert(decimal(b).last() == decimal_digit(b % 10));
    assert(48 + a % 10 == decimal_digit(a % 10) as nat);
    assert(48 + b % 10 == decimal_digit(b % 10) as nat);
    if a >= 10 && b >= 10 {
        assert(decimal(a).drop_last() =~= decimal(a / 10));
        assert(decimal(b).drop_last() =~= decimal(b / 10));
        law_decimal_is_injective(a / 10, b / 10);
    }
}

proof fn lemma_decimal_len(n: nat)
    ensures
        decimal(n).len() >= 1,
        n >= 10 ==> decimal(n).len() >= 2,
    decreases n,
{
    if n >= 10 {
        lemma_decimal_len(n / 10);
    }
}

/// The hexadecimal digit, in lower case, of a number below sixteen.
pub open spec fn hex_digit(d: nat) -> char {
    if d < 10 {
        (48 + d) as char
    } else {
        (87 + d) as char
    }
}

/// Bytes in hexadecimal, two digits each, in lower case.
pub open spec fn hex(bytes: Seq<u8>) -> Seq<char> {
    Seq::new(
        2 * bytes.len(),
        |i: int|
            if i % 2 == 0 {
                hex_digit((bytes[i / 2] / 16) as nat)
            } else {
                hex_digit((bytes[i / 2] % 16) as nat)
            },
    )
}

/// The hexadecimal digit, in lower case, of a number below sixteen.
fn hex_char(d: u8) -> (c: char)
    requires
        d < 16,
    ensures
        c == hex_digit(d as nat),
{
    if d < 10 {
        (48 + d) as char
    } else {
        (87 + d) as char
    }
}

/// Writes bytes in hexadecimal.
pub fn hex_text(bytes: &[u8]) -> (text: String)
    ensures
        text@ == hex(bytes@),
{
    let len: usize = bytes.len();
    let mut text = String::new();
    let mut i: usize = 0;
    while i < len
        invariant
            i <= len,
            len == bytes@.len(),
            text@ == hex(bytes@.take(i as int)),
        decreases len - i,
    {
        let byte: u8 = bytes[i];
        text.push(hex_char(byte / 16));
        text.push(hex_char(byte % 16));
        i = i + 1;
        assert(text@ =~= hex(bytes@.take(i as int)));
    }
    assert(bytes@.take(len as int) =~= bytes@);
    text
}

/// `s` without the white space that it starts with.
pub open spec fn trimmed_start(s: Seq<char>) -> Seq<char>
    decreases s.len(),
{
    if s.len() > 0 && primitives::white_space(s.first()) {
        trimmed_start(s.drop_first())
    } else {
        s
    }
}

/// `s` without the white space that it ends with.
pub open spec fn trimmed_end(s: Seq<char>) -> Seq<char>
    decreases s.len(),
{
    if s.len() > 0 && primitives::white_space(s.last()) {
        trimmed_end(s.drop_last())
    } else {
        s
    }
}

/// `s` without the white space at either end.
pub open spec fn trimmed(s: Seq<char>) -> Seq<char> {
    trimmed_end(trimmed_start(s))
}

/// What the user typed: a line of input without the white space at either end, the line
/// break with it.
pub fn clean_input(line: &str) -> (input: String)
    ensures
        input@ == trimmed(line@),
{
    let mut from: usize = 0;
    let mut to: usize = line.unicode_len();
    assert(line@.subrange(0, to as int) =~= line@);
    while from < to && line.get_char(from).is_whitespace()
        invariant
            from <= to == line@.len(),
            trimmed_start(line@.subrange(from as int, to as int)) == trimmed_start(line@),
        ensures
            trimmed_start(line@) == line@.subrange(from as int, to as int),
        decreases to - from,
    {
        assert(line@.subrange(from as int, to as int).drop_first() =~= line@.subrange(
            from + 1,
            to as int,
        ));
        from = from + 1;
    }
    while from < to && line.get_char(to - 1).is_whitespace()
        invariant
            from <= to <= line@.len(),
            trimmed_end(line@.subrange(from as int, to as int)) == trimmed(line@),
        ensures
            trimmed(line@) == line@.subrange(from as int, to as int),
        decreases to - from,
    {
        assert(line@.subrange(from as int, to as int).drop_last() =~= line@.subrange(
            from as int,
            to - 1,
        ));
        to = to - 1;
    }
    line.substring_char(from, to).to_owned()
}

/// Cleaning input that is clean already changes nothing.
pub proof fn law_trimming_twice_is_trimming_once(s: Seq<char>)
    ensures
        trimmed(trimmed(s)) == trimmed(s),
{
    lemma_trimmed_start(s);
    lemma_trimmed_end(trimmed_start(s));
}

proof fn lemma_trimmed_start(s: Seq<char>)
    ensures
        trimmed_start(s).len() > 0 ==> !primitives::white_space(trimmed_start(s).first()),
        trimmed_start(trimmed_start(s)) == trimmed_start(s),
    decreases s.len(),
{
    if s.len() > 0 && primitives::white_space(s.first()) {
        lemma_trimmed_start(s.drop_first());
    }
}

proof fn lemma_trimmed_end(s: Seq<char>)
    ensures
        trimmed_end(s).len() <= s.len(),
        trimmed_end(s).len() > 0 ==> trimmed_end(s).first() == s.first(),
        trimmed_end(s).len() > 0 ==> !primitives::white_space(trimmed_end(s).last()),
        trimmed_end(trimmed_end(s)) == trimmed_end(s),
    decreases s.len(),
{
    if s.len() > 0 && primitives::white_space(s.last()) {
        lemma_trimmed_end(s.drop_last());
    }
}

/// The identifier of a file: the first sixteen hexadecimal digits of the SHA-256 digest
/// of what is known about it, followed by its path.
pub open spec fn file_id(metadata: Option<Seq<char>>, path: Seq<char>) -> Seq<char> {
    let about = match metadata {
        Some(text) => encode_utf8(text),
        None => Seq::empty(),
    };
    hex(primitives::sha256(about + encode_utf8(path))).take(16)
}

/// The identifier of a file, from the text of its metadata (`None` where there is none
/// to be had) and its path.
pub fn get_file_id(metadata: Option<&str>, path: &str) -> (id: String)
    ensures
        id@ == file_id(
            match metadata {
                Some(text) => Some(text@),
                None => None,
            },
            path@,
        ),
        id@.len() == 16,
{
    let mut data: Vec<u8> = Vec::new();
    match metadata {
        Some(text) => {
            data.extend_from_slice(text.as_bytes());
        },
        None => {},
    }
    let ghost about = data@;
    data.extend_from_slice(path.as_bytes());
    assert(data@ =~= about + encode_utf8(path@));
    proof {
        if let Some(text) = metadata {
            assert(about =~= encode_utf8(text@));
        }
    }
    let digest = primitives::sha256_digest(data.as_slice());
    hex_text(digest.as_slice()).as_str().substring_char(0, 16).to_owned()
}

} // verus!
