//! Whether colors are wanted, as the environment says.
use vstd::prelude::*;
use vstd::string::StrSliceExecFns;

verus! {

/// True if both texts are the same.
pub fn same_text(a: &str, b: &str) -> (r: bool)
    ensures
        r == (a@ == b@),
{
    let n = a.unicode_len();
    if n != b.unicode_len() {
        return false;
    }
    let mut i: usize = 0;
    while i < n
        invariant
            i <= n == a@.len() == b@.len(),
            forall|j: int| 0 <= j < i ==> a@[j] == b@[j],
        decreases n - i,
    {
        if a.get_char(i) != b.get_char(i) {
            return false;
        }
        i = i + 1;
    }
    assert(a@ =~= b@);
    true
}

/// What a variable of the environment holds, or `default` if it is not set.
pub open spec fn value_or(var: Option<Seq<char>>, default: Seq<char>) -> Seq<char> {
    match var {
        Some(value) => value,
        None => default,
    }
}

/// True if `CLICOLOR` and `CLICOLOR_FORCE` allow colors: `CLICOLOR` is `1`
/// or not set, or `CLICOLOR_FORCE` is set to something other than `0`.
pub open spec fn clicolors_allow(clicolor: Option<Seq<char>>, clicolor_force: Option<Seq<char>>) -> bool {
    value_or(clicolor, "1"@) == "1"@ || value_or(clicolor_force, "0"@) != "0"@
}

/// True if `CLICOLOR`, which holds `clicolor`, and `CLICOLOR_FORCE`, which
/// holds `clicolor_force`, allow colors.
pub fn allow_clicolors_spec(clicolor: Option<&str>, clicolor_force: Option<&str>) -> (r: bool)
    ensures
        r == clicolors_allow(
            match clicolor {
                Some(v) => Some(v@),
                None => None,
            },
            match clicolor_force {
                Some(v) => Some(v@),
                None => None,
            },
        ),
{
    let first = match clicolor {
        Some(v) => v,
        None => "1",
    };
    let second = match clicolor_force {
        Some(v) => v,
        None => "0",
    };
    same_text(first, "1") || !same_text(second, "0")
}

/// True if the output may be colored: `NO_COLOR` is not set, and
/// `CLICOLOR` and `CLICOLOR_FORCE` allow it.
pub fn allowed(no_color_is_set: bool, clicolor: Option<&str>, clicolor_force: Option<&str>) -> (r:
    bool)
    ensures
        r == (!no_color_is_set && clicolors_allow(
            match clicolor {
                Some(v) => Some(v@),
                None => None,
            },
            match clicolor_force {
                Some(v) => Some(v@),
                None => None,
            },
        )),
{
    allow_clicolors_spec(clicolor, clicolor_force) && !no_color_is_set
}

} // verus!
