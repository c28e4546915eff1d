//! Mathematical-style display text.
//!
//! For display, Latin letters are swapped for their mathematical italic
//! counterparts and the hyphen for the minus sign, either over a whole
//! string or only for the characters that name a variable.

use vstd::prelude::*;
use vstd::string::StrSliceExecFns;

verus! {

/// The mathematical-style display character for `c`: the mathematical
/// italic letter for a Latin letter, the minus sign for the hyphen, and
/// `c` itself otherwise.
pub open spec fn spec_to_mathvar(c: char) -> Option<char> {
    match c {
        'a' => Some('\u{1D44E}'),
        'b' => Some('\u{1D44F}'),
        'c' => Some('\u{1D450}'),
        'd' => Some('\u{1D451}'),
        'e' => Some('\u{1D452}'),
        'f' => Some('\u{1D453}'),
        'g' => Some('\u{1D454}'),
        'h' => Some('\u{1D455}'),
        'i' => Some('\u{1D456}'),
        'j' => Some('\u{1D457}'),
        'k' => Some('\u{1D458}'),
        'l' => Some('\u{1D459}'),
        'm' => Some('\u{1D45A}'),
        'n' => Some('\u{1D45B}'),
        'o' => Some('\u{1D45C}'),
        'p' => Some('\u{1D45D}'),
        'q' => Some('\u{1D45E}'),
        'r' => Some('\u{1D45F}'),
        's' => Some('\u{1D460}'),
        't' => Some('\u{1D461}'),
        'u' => Some('\u{1D462}'),
        'v' => Some('\u{1D463}'),
        'w' => Some('\u{1D464}'),
        'x' => Some('\u{1D465}'),
        'y' => Some('\u{1D466}'),
        'z' => Some('\u{1D467}'),
        'A' => Some('\u{1D434}'),
        'B' => Some('\u{1D435}'),
        'C' => Some('\u{1D436}'),
        'D' => Some('\u{1D437}'),
        'E' => Some('\u{1D438}'),
        'F' => Some('\u{1D439}'),
        'G' => Some('\u{1D43A}'),
        'H' => Some('\u{1D43B}'),
        'I' => Some('\u{1D43C}'),
        'J' => Some('\u{1D43D}'),
        'K' => Some('\u{1D43E}'),
        'L' => Some('\u{1D43F}'),
        'M' => Some('\u{1D440}'),
        'N' => Some('\u{1D441}'),
        'O' => Some('\u{1D442}'),
        'P' => Some('\u{1D443}'),
        'Q' => Some('\u{1D444}'),
        'R' => Some('\u{1D445}'),
        'S' => Some('\u{1D446}'),
        'T' => Some('\u{1D447}'),
        'U' => Some('\u{1D448}'),
        'V' => Some('\u{1D449}'),
        'W' => Some('\u{1D44A}'),
        'X' => Some('\u{1D44B}'),
        'Y' => Some('\u{1D44C}'),
        'Z' => Some('\u{1D44D}'),
        '-' => Some('\u{2212}'),
        _ => Some(c),
    }
}

/// `spec_to_mathvar`, with `c` kept where no character is assigned.
pub open spec fn mathvar_char(c: char) -> char {
    match spec_to_mathvar(c) {
        Some(m) => m,
        None => c,
    }
}

/// Every character of `s` replaced by its display character.
pub open spec fn mathvar_text(s: Seq<char>) -> Seq<char> {
    Seq::new(s.len(), |i: int| mathvar_char(s[i]))
}

/// Every character of `s` that names one of `vars` replaced by its display
/// character; the rest kept.
pub open spec fn mathvar_text_selective(s: Seq<char>, vars: Seq<Seq<char>>) -> Seq<char> {
    Seq::new(
        s.len(),
        |i: int|
            if vars.contains(seq![s[i]]) {
                mathvar_char(s[i])
            } else {
                s[i]
            },
    )
}

/// The views of the variable names.
pub open spec fn vars_model(v: Seq<String>) -> Seq<Seq<char>> {
    v.map(|i: int, s: String| s@)
}

/// Relies on `String::push`: appends the given character to the end of
/// the string.
#[verifier::external_body]
fn push_char(s: &mut String, c: char)
    ensures
        final(s)@ == old(s)@.push(c),
{
    s.push(c);
}

/// The mathematical-style display character for `c`.
pub fn to_mathvar(c: char) -> (r: Option<char>)
    ensures
        r == spec_to_mathvar(c),
{
    match c {
        'a' => Some('\u{1D44E}'),
        'b' => Some('\u{1D44F}'),
        'c' => Some('\u{1D450}'),
        'd' => Some('\u{1D451}'),
        'e' => Some('\u{1D452}'),
        'f' => Some('\u{1D453}'),
        'g' => Some('\u{1D454}'),
        'h' => Some('\u{1D455}'),
        'i' => Some('\u{1D456}'),
        'j' => Some('\u{1D457}'),
        'k' => Some('\u{1D458}'),
        'l' => Some('\u{1D459}'),
        'm' => Some('\u{1D45A}'),
        'n' => Some('\u{1D45B}'),
        'o' => Some('\u{1D45C}'),
        'p' => Some('\u{1D45D}'),
        'q' => Some('\u{1D45E}'),
        'r' => Some('\u{1D45F}'),
        's' => Some('\u{1D460}'),
        't' => Some('\u{1D461}'),
        'u' => Some('\u{1D462}'),
        'v' => Some('\u{1D463}'),
        'w' => Some('\u{1D464}'),
        'x' => Some('\u{1D465}'),
        'y' => Some('\u{1D466}'),
        'z' => Some('\u{1D467}'),
        'A' => Some('\u{1D434}'),
        'B' => Some('\u{1D435}'),
        'C' => Some('\u{1D436}'),
        'D' => Some('\u{1D437}'),
        'E' => Some('\u{1D438}'),
        'F' => Some('\u{1D439}'),
        'G' => Some('\u{1D43A}'),
        'H' => Some('\u{1D43B}'),
        'I' => Some('\u{1D43C}'),
        'J' => Some('\u{1D43D}'),
        'K' => Some('\u{1D43E}'),
        'L' => Some('\u{1D43F}'),
        'M' => Some('\u{1D440}'),
        'N' => Some('\u{1D441}'),
        'O' => Some('\u{1D442}'),
        'P' => Some('\u{1D443}'),
        'Q' => Some('\u{1D444}'),
        'R' => Some('\u{1D445}'),
        'S' => Some('\u{1D446}'),
        'T' => Some('\u{1D447}'),
        'U' => Some('\u{1D448}'),
        'V' => Some('\u{1D449}'),
        'W' => Some('\u{1D44A}'),
        'X' => Some('\u{1D44B}'),
        'Y' => Some('\u{1D44C}'),
        'Z' => Some('\u{1D44D}'),
        '-' => Some('\u{2212}'),
        _ => Some(c),
    }
}

/// `original` with every character replaced by its display character.
pub fn convert_mathvar(original: String) -> (r: String)
    ensures
        r@ == mathvar_text(original@),
{
    let s = original.as_str();
    let n = s.unicode_len();
    let mut out = String::new();
    #[verifier::loop_isolation(false)]
    for i in 0..n
        invariant
            out@.len() == i,
            forall|j: int| 0 <= j < i ==> out@[j] == mathvar_char(original@[j]),
    {
        let c = s.get_char(i);
        let m = match to_mathvar(c) {
            Some(mc) => mc,
            None => c,
        };
        push_char(&mut out, m);
    }
    proof {
        assert(out@ =~= mathvar_text(original@));
    }
    out
}

/// Whether `c` is the whole name of one of `variables`.
fn names_variable(variables: &Vec<String>, c: char) -> (r: bool)
    ensures
        r == vars_model(variables@).contains(seq![c]),
{
    let n = variables.len();
    #[verifier::loop_isolation(false)]
    for k in 0..n
        invariant
            forall|j: int| 0 <= j < k ==> vars_model(variables@)[j] != seq![c],
    {
        let v = variables[k].as_str();
        if v.unicode_len() == 1 && v.get_char(0) == c {
            proof {
                assert(vars_model(variables@)[k as int] =~= seq![c]);
            }
            return true;
        }
        proof {
            assert(vars_model(variables@)[k as int] != seq![c]);
        }
    }
    false
}

/// `original` with exactly the characters that name one of `variables`
/// replaced by their display characters.
pub fn convert_mathvar_vec(original: String, variables: Vec<String>) -> (r: String)
    ensures
        r@ == mathvar_text_selective(original@, vars_model(variables@)),
{
    let s = original.as_str();
    let n = s.unicode_len();
    let mut out = String::new();
    #[verifier::loop_isolation(false)]
    for i in 0..n
        invariant
            out@.len() == i,
            forall|j: int|
                0 <= j < i ==> out@[j] == mathvar_text_selective(
                    original@,
                    vars_model(variables@),
                )[j],
    {
        let c = s.get_char(i);
        let m = if names_variable(&variables, c) {
            match to_mathvar(c) {
                Some(mc) => mc,
                None => c,
            }
        } else {
            c
        };
        push_char(&mut out, m);
    }
    proof {
        assert(out@ =~= mathvar_text_selective(original@, vars_model(variables@)));
    }
    out
}

} // verus!
