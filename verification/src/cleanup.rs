//! The script that removes a program, and the record of its run, once the program has
//! ended.
use vstd::prelude::*;
use vstd::string::*;

verus! {

/// How one character is written inside a single-quoted PowerShell string.
pub open spec fn escaped_char(c: char) -> Seq<char> {
    if c == '\'' {
        seq!['\'', '\'']
    } else {
        seq![c]
    }
}

/// How a text is written inside a single-quoted PowerShell string: every quote is
/// doubled.
pub open spec fn escaped(s: Seq<char>) -> Seq<char>
    decreases s.len(),
{
    if s.len() == 0 {
        s
    } else {
        escaped_char(s.first()) + escaped(s.drop_first())
    }
}

proof fn lemma_escaped_push(s: Seq<char>, c: char)
    ensures
        escaped(s.push(c)) == escaped(s) + escaped_char(c),
    decreases s.len(),
{
    if s.len() == 0 {
        assert(s.push(c).drop_first() =~= s);
        assert(escaped(s.push(c)) =~= escaped(s) + escaped_char(c));
    } else {
        lemma_escaped_push(s.drop_first(), c);
        assert(s.push(c).drop_first() =~= s.drop_first().push(c));
        assert(escaped(s.push(c)) =~= escaped(s) + escaped_char(c));
    }
}

/// Writes a text as it stands inside a single-quoted PowerShell string.
pub fn escape_powershell_single_quoted(value: &str) -> (text: String)
    ensures
        text@ == escaped(value@),
{
    let mut text = String::new();
    for c in chars: value.chars()
        invariant
            chars.seq() == value@,
            text@ == escaped(value@.take(chars.index() as int)),
    {
        proof {
            let i = chars.index() as int;
            assert(value@.take(i + 1) =~= value@.take(i).push(c));
            lemma_escaped_push(value@.take(i), c);
        }
        if c == '\'' {
            text.append("''");
            proof {
                reveal_strlit("''");
                assert("''"@ =~= escaped_char(c));
            }
        } else {
            text.push(c);
            assert(text@ =~= escaped(value@.take(chars.index() as int)) + escaped_char(c));
        }
    }
    assert(value@.take(value@.len() as int) =~= value@);
    text
}

/// What a single-quoted PowerShell string holds, given the text behind its opening
/// quote, and what follows its closing quote. `None` where it is not closed.
pub open spec fn quoted_value(s: Seq<char>) -> Option<(Seq<char>, Seq<char>)>
    decreases s.len(),
{
    if s.len() == 0 {
        None
    } else if s[0] != '\'' {
        match quoted_value(s.skip(1)) {
            Some((value, rest)) => Some((seq![s[0]] + value, rest)),
            None => None,
        }
    } else if s.len() > 1 && s[1] == '\'' {
        match quoted_value(s.skip(2)) {
            Some((value, rest)) => Some((seq!['\''] + value, rest)),
            None => None,
        }
    } else {
        Some((Seq::empty(), s.skip(1)))
    }
}

/// A text that was escaped and put between quotes is read back as it was, and nothing
/// of it is taken for script, whatever characters it holds.
pub proof fn law_escaped_text_is_read_back(value: Seq<char>, rest: Seq<char>)
    requires
        rest.len() > 0 ==> rest[0] != '\'',
    ensures
        quoted_value(escaped(value) + seq!['\''] + rest) == Some((value, rest)),
    decreases value.len(),
{
    let s = escaped(value) + seq!['\''] + rest;
    if value.len() == 0 {
        assert(s.skip(1) =~= rest);
    } else {
        let tail = value.drop_first();
        let after = escaped(tail) + seq!['\''] + rest;
        law_escaped_text_is_read_back(tail, rest);
        if value.first() == '\'' {
            assert(s.skip(2) =~= after);
            assert(seq!['\''] + tail =~= value);
        } else {
            assert(s.skip(1) =~= after);
            assert(seq![s[0]] + tail =~= value);
        }
    }
}

/// The part of the script behind the two paths: it tries to remove the program up to 200
/// times, ten times a second, and then removes the other file.
pub const SCRIPT_TAIL: &'static str = "for($i=0;$i -lt 200;$i++){try{Remove-Item -LiteralPath $exe -Force -ErrorAction Stop}catch{};if(-not (Test-Path -LiteralPath $exe)){break};Start-Sleep -Milliseconds 100};if($marker -and (Test-Path -LiteralPath $marker)){try{Remove-Item -LiteralPath $marker -Force -ErrorAction SilentlyContinue}catch{}}";

/// The script that removes the program `exe` as soon as it can be removed, and then the
/// file `marker`. An empty `marker` stands for none.
pub open spec fn script(exe: Seq<char>, marker: Seq<char>) -> Seq<char> {
    "$exe='"@ + escaped(exe) + "';$marker='"@ + escaped(marker) + "';"@ + SCRIPT_TAIL@
}

/// The script that removes a program and, where there is one, the record of its run.
pub fn cleanup_script(exe: &str, marker: Option<&str>) -> (text: String)
    ensures
        text@ == script(
            exe@,
            match marker {
                Some(marker) => marker@,
                None => Seq::empty(),
            },
        ),
{
    let exe = escape_powershell_single_quoted(exe);
    let marker = match marker {
        Some(marker) => escape_powershell_single_quoted(marker),
        None => String::new(),
    };
    let head = "$exe='".to_owned().concat(exe.as_str());
    let paths = head.concat("';$marker='").concat(marker.as_str());
    paths.concat("';").concat(SCRIPT_TAIL)
}

/// The script reads the two paths exactly as they were given.
pub proof fn law_script_names_the_given_files(exe: Seq<char>, marker: Seq<char>)
    ensures
        script(exe, marker).take(6) == "$exe='"@,
        quoted_value(script(exe, marker).skip(6)) is Some,
        ({
            let (first, rest) = quoted_value(script(exe, marker).skip(6))->0;
            &&& first == exe
            &&& rest.take(10) == ";$marker='"@
            &&& quoted_value(rest.skip(10)) == Some((marker, ";"@ + SCRIPT_TAIL@))
        }),
{
    reveal_strlit("$exe='");
    reveal_strlit("';$marker='");
    reveal_strlit(";$marker='");
    reveal_strlit("';");
    reveal_strlit(";");
    let tail = ";"@ + SCRIPT_TAIL@;
    let rest = ";$marker='"@ + escaped(marker) + "';"@ + SCRIPT_TAIL@;
    assert(script(exe, marker).take(6) =~= "$exe='"@);
    assert(script(exe, marker).skip(6) =~= escaped(exe) + seq!['\''] + rest);
    law_escaped_text_is_read_back(exe, rest);
    assert(rest.take(10) =~= ";$marker='"@);
    assert(rest.skip(10) =~= escaped(marker) + seq!['\''] + tail);
    law_escaped_text_is_read_back(marker, tail);
}

} // verus!
