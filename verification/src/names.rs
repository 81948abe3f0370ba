//! The names of the files that the program writes.
//!
//! A file name has an extension if it holds a dot that is not its first character; the
//! extension is what follows the last dot, and the stem what precedes it. A name without
//! an extension is its own stem.
use crate::text;
use vstd::prelude::*;
use vstd::string::*;

verus! {

/// `i` is the position of the dot before the extension of `name`.
pub open spec fn extension_dot(name: Seq<char>, i: int) -> bool {
    &&& 0 < i < name.len()
    &&& name[i] == '.'
    &&& forall|j: int| i < j < name.len() ==> #[trigger] name[j] != '.'
}

/// Whether `name` has an extension.
pub open spec fn has_extension(name: Seq<char>) -> bool {
    exists|i: int| extension_dot(name, i)
}

/// The stem of a file name.
pub open spec fn stem(name: Seq<char>) -> Seq<char> {
    if has_extension(name) {
        name.take(choose|i: int| extension_dot(name, i))
    } else {
        name
    }
}

/// The extension of a file name; empty where there is none.
pub open spec fn extension(name: Seq<char>) -> Seq<char> {
    if has_extension(name) {
        name.skip((choose|i: int| extension_dot(name, i)) + 1)
    } else {
        Seq::empty()
    }
}

/// The position of the dot before the extension of `name`, its length where there is none.
fn find_extension_dot(name: &str) -> (at: usize)
    ensures
        has_extension(name@) ==> at == (choose|i: int| extension_dot(name@, i)),
        has_extension(name@) <==> at < name@.len(),
        at <= name@.len(),
{
    let len: usize = name.unicode_len();
    let mut i: usize = len;
    while i > 1
        invariant
            i <= len == name@.len(),
            forall|j: int| i <= j < len ==> #[trigger] name@[j] != '.',
        decreases i,
    {
        if name.get_char(i - 1) == '.' {
            proof {
                lemma_extension_dot_unique(name@, i - 1);
            }
            return i - 1;
        }
        i = i - 1;
    }
    len
}

proof fn lemma_extension_dot_unique(name: Seq<char>, at: int)
    requires
        extension_dot(name, at),
    ensures
        has_extension(name),
        at == (choose|i: int| extension_dot(name, i)),
{
    let picked = choose|i: int| extension_dot(name, i);
    assert(extension_dot(name, picked));
    if picked < at {
        assert(name[at] != '.');
    }
    if at < picked {
        assert(name[picked] != '.');
    }
}

/// The stem and the extension of a file name.
pub fn split_name(name: &str) -> (parts: (String, String))
    ensures
        parts.0@ == stem(name@),
        parts.1@ == extension(name@),
{
    let len: usize = name.unicode_len();
    let at = find_extension_dot(name);
    if at < len {
        let head = name.substring_char(0, at).to_owned();
        let tail = name.substring_char(at + 1, len).to_owned();
        assert(head@ =~= stem(name@));
        assert(tail@ =~= extension(name@));
        (head, tail)
    } else {
        (name.to_owned(), String::new())
    }
}

/// The name under which a file is remembered in its payload: its own, or `unknown`
/// where its path ends in no file name.
pub open spec fn remembered_name(name: Option<Seq<char>>) -> Seq<char> {
    match name {
        Some(name) => name,
        None => "unknown"@,
    }
}

/// The view of an optional text.
pub open spec fn optional(text: Option<String>) -> Option<Seq<char>> {
    match text {
        Some(text) => Some(text@),
        None => None,
    }
}

/// The name under which a file is remembered in its payload.
pub fn original_filename(name: Option<String>) -> (remembered: String)
    ensures
        remembered@ == remembered_name(optional(name)),
        name is Some ==> remembered@ == name->0@,
{
    match name {
        Some(name) => name,
        None => "unknown".to_owned(),
    }
}

/// The name of the self-extracting program that is made from a file: the extension is
/// replaced by `sfx.exe`.
pub fn sfx_file_name(name: &str) -> (sfx: String)
    ensures
        sfx@ == stem(name@) + ".sfx.exe"@,
{
    let (head, _) = split_name(name);
    head.concat(".sfx.exe")
}

/// The name that is tried in the `n`th place when the files of the earlier names exist:
/// `_n` is put before the extension. `None` stands for a path that ends in no file name.
pub open spec fn numbered_name(name: Option<Seq<char>>, n: nat) -> Seq<char> {
    let head = match name {
        Some(name) => stem(name),
        None => "file"@,
    };
    let tail = match name {
        Some(name) => extension(name),
        None => Seq::empty(),
    };
    if tail.len() == 0 {
        head + "_"@ + text::decimal(n)
    } else {
        head + "_"@ + text::decimal(n) + "."@ + tail
    }
}

/// The name that is tried in the `n`th place.
pub fn numbered_file_name(name: &Option<String>, n: u32) -> (numbered: String)
    ensures
        numbered@ == numbered_name(optional(*name), n as nat),
{
    let (head, tail) = match name {
        Some(name) => split_name(name.as_str()),
        None => ("file".to_owned(), String::new()),
    };
    let number = text::decimal_text(n as u64);
    let numbered = head.concat("_").concat(number.as_str());
    if tail.as_str().is_empty() {
        numbered
    } else {
        numbered.concat(".").concat(tail.as_str())
    }
}

/// Two places never give the same name.
pub proof fn law_numbered_names_are_distinct(name: Option<Seq<char>>, a: nat, b: nat)
    requires
        numbered_name(name, a) == numbered_name(name, b),
    ensures
        a == b,
{
    let head = match name {
        Some(name) => stem(name),
        None => "file"@,
    };
    let tail = match name {
        Some(name) => extension(name),
        None => Seq::empty(),
    };
    let from = (head + "_"@).len() as int;
    let rest = if tail.len() == 0 {
        0
    } else {
        ("."@ + tail).len() as int
    };
    let x = numbered_name(name, a);
    let y = numbered_name(name, b);
    assert(x.subrange(from, x.len() - rest) =~= text::decimal(a));
    assert(y.subrange(from, y.len() - rest) =~= text::decimal(b));
    text::law_decimal_is_injective(a, b);
}

/// A numbered name is longer than the name that it is made from, so it never names the
/// file that stood in the way.
pub proof fn law_numbered_name_differs_from_original(name: Seq<char>, n: nat)
    ensures
        numbered_name(Some(name), n).len() > name.len(),
{
    reveal_strlit("_");
    reveal_strlit(".");
    if has_extension(name) {
        let i = choose|i: int| extension_dot(name, i);
        assert(stem(name).len() + 1 + extension(name).len() == name.len());
    }
    assert(text::decimal(n).len() >= 1);
}

/// What is known while a name for the decrypted file is sought.
pub struct SaveTarget {
    /// The last component of the path that the file would have under its own name.
    pub file_name: Option<String>,
    /// The place of the next name to try.
    pub counter: u32,
}

/// What is to be done while a name for the decrypted file is sought.
pub enum SaveAction {
    /// Write the file under the name that was tried last.
    Write,
    /// See whether a file of this name exists in the output directory.
    Probe(String),
}

impl SaveTarget {
    /// The search before any name but the file's own has been tried.
    pub fn new(file_name: Option<String>) -> (target: SaveTarget)
        ensures
            target.file_name == file_name,
            target.counter == 1,
    {
        SaveTarget { file_name, counter: 1 }
    }

    /// Whether there is a place left after the next one.
    pub fn has_next(&self) -> (left: bool)
        ensures
            left == (self.counter < i32::MAX),
    {
        self.counter < i32::MAX as u32
    }

    /// Decides how the search goes on, given whether the name that was tried last is
    /// taken.
    pub fn answer(&mut self, taken: bool) -> (action: SaveAction)
        requires
            taken ==> old(self).counter < i32::MAX,
        ensures
            final(self).file_name == old(self).file_name,
            !taken ==> action is Write && final(self).counter == old(self).counter,
            taken ==> final(self).counter == old(self).counter + 1 && match action {
                SaveAction::Probe(name) => name@ == numbered_name(
                    optional(old(self).file_name),
                    old(self).counter as nat,
                ),
                SaveAction::Write => false,
            },
    {
        if taken {
            let name = numbered_file_name(&self.file_name, self.counter);
            self.counter = self.counter + 1;
            SaveAction::Probe(name)
        } else {
            SaveAction::Write
        }
    }
}

/// The name of the file that records that a program has been run.
pub open spec fn run_marker_name(stem: Option<Seq<char>>) -> Seq<char> {
    "."@ + (match stem {
        Some(stem) => stem,
        None => "secure_exe"@,
    }) + ".run"@
}

/// Where a program records that it has been run: a hidden file beside it. `directory` is
/// the directory of the program and `stem` the stem of its file name, where that is
/// Unicode. There is no such place for a program without a directory.
pub fn run_marker_path<P>(directory: Option<P>, stem: Option<&str>) -> (marker: Option<(P, String)>)
    ensures
        match marker {
            Some((place, name)) => directory == Some(place) && name@ == run_marker_name(
                match stem {
                    Some(stem) => Some(stem@),
                    None => None,
                },
            ),
            None => directory is None,
        },
{
    let stem: &str = match stem {
        Some(stem) => stem,
        None => "secure_exe",
    };
    match directory {
        Some(directory) => Some((directory, ".".to_owned().concat(stem).concat(".run"))),
        None => None,
    }
}

/// Programs with different stems never share a record of their runs.
pub proof fn law_run_markers_are_distinct(a: Seq<char>, b: Seq<char>)
    requires
        run_marker_name(Some(a)) == run_marker_name(Some(b)),
    ensures
        a == b,
{
    let x = run_marker_name(Some(a));
    let y = run_marker_name(Some(b));
    let from = "."@.len() as int;
    let rest = ".run"@.len() as int;
    assert(x.subrange(from, x.len() - rest) =~= a);
    assert(y.subrange(from, y.len() - rest) =~= b);
}

} // verus!
