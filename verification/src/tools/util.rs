//! Path helpers.
use vstd::prelude::*;
use crate::text::{chars_of, push_str, string_of, string_of_range};

verus! {

/// `path` with a leading `~` replaced by the home directory `home`.
pub open spec fn spec_expand_tilde(path: Seq<char>, home: Seq<char>) -> Seq<char> {
    if path.len() > 0 && path[0] == '~' {
        home + path.skip(1)
    } else {
        path
    }
}

/// Expands a leading `~` in `path` to the home directory `home`
/// ("~/blightmud" becomes "/home/yourname/blightmud"); any other path is
/// left alone.
pub fn expand_tilde(path: &str, home: &str) -> (r: String)
    ensures
        r@ == spec_expand_tilde(path@, home@),
{
    let cs = chars_of(path);
    if cs.len() > 0 && cs[0] == '~' {
        let mut out: Vec<char> = Vec::new();
        push_str(&mut out, home);
        let rest = string_of_range(cs.as_slice(), 1, cs.len());
        push_str(&mut out, rest.as_str());
        assert(cs@.subrange(1, cs@.len() as int) =~= path@.skip(1));
        string_of(out.as_slice())
    } else {
        path.to_owned()
    }
}

} // verus!
