use vstd::prelude::*;

verus! {

/// Joining `part` onto `base` the way a Unix path is extended: an absolute
/// `part` replaces `base`, an empty `base` yields `part`, and otherwise one
/// separator stands between them.
pub open spec fn path_join(base: Seq<char>, part: Seq<char>) -> Seq<char> {
    if part.len() > 0 && part[0] == '/' {
        part
    } else if base.len() == 0 {
        part
    } else if base.last() == '/' {
        base + part
    } else {
        base + seq!['/'] + part
    }
}

/// Extends the path `base` with `part`.
pub fn join_path(base: &str, part: &str) -> (r: String)
    ensures
        r@ == path_join(base@, part@),
{
    let plen = part.unicode_len();
    let blen = base.unicode_len();
    if plen > 0 && part.get_char(0) == '/' {
        return part.to_owned();
    }
    if blen == 0 {
        return part.to_owned();
    }
    if base.get_char(blen - 1) == '/' {
        String::from_str(base).concat(part)
    } else {
        let r = String::from_str(base).concat("/").concat(part);
        proof {
            reveal_strlit("/");
        }
        r
    }
}

} // verus!
