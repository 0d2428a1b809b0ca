//! TypeNameFormatter: reduces a rendered type reference to its bare head
//! symbol, the first whitespace-delimited token of the text.

use vstd::prelude::*;

use crate::model::{res_view, Error, ErrorV};
use crate::strings::{is_space, is_space_char};

verus! {

/// The characters of `t` up to (excluding) the first white-space
/// character.
pub open spec fn spec_first_token(t: Seq<char>) -> Seq<char>
    decreases t.len(),
{
    if t.len() == 0 {
        Seq::empty()
    } else if is_space_char(t[0]) {
        Seq::empty()
    } else {
        seq![t[0]] + spec_first_token(t.drop_first())
    }
}

/// The bare head symbol of a rendered type, or a render error when the
/// text is empty.
pub open spec fn spec_bare_ty(t: Seq<char>) -> Result<Seq<char>, ErrorV> {
    if t.len() == 0 {
        Err(ErrorV::TypeRender)
    } else {
        Ok(spec_first_token(t))
    }
}

proof fn lemma_first_token_prefix(t: Seq<char>, i: int)
    requires
        0 <= i <= t.len(),
        forall|j: int| 0 <= j < i ==> !is_space_char(t[j]),
        i == t.len() || is_space_char(t[i]),
    ensures
        spec_first_token(t) == t.take(i),
    decreases i,
{
    if i == 0 {
        assert(spec_first_token(t) =~= t.take(0));
    } else {
        lemma_first_token_prefix(t.drop_first(), i - 1);
        assert(seq![t[0]] + t.drop_first().take(i - 1) =~= t.take(i));
    }
}

/// TypeNameFormatter: the bare head symbol of a rendered type reference.
pub fn bare_ty_str(ty: &str) -> (r: Result<String, Error>)
    ensures
        res_view(r) == spec_bare_ty(ty@),
{
    let n = ty.unicode_len();
    if n == 0 {
        return Err(Error::TypeRender);
    }
    let mut i: usize = 0;
    while i < n
        invariant
            i <= n,
            n == ty@.len(),
            forall|j: int| 0 <= j < i ==> !is_space_char(ty@[j]),
        ensures
            i <= n,
            n == ty@.len(),
            forall|j: int| 0 <= j < i ==> !is_space_char(ty@[j]),
            i == n || is_space_char(ty@[i as int]),
        decreases n - i,
    {
        let c = ty.get_char(i);
        if is_space(c) {
            break ;
        }
        i += 1;
    }
    proof {
        lemma_first_token_prefix(ty@, i as int);
    }
    let tok = ty.substring_char(0, i);
    Ok(String::from_str(tok))
}

} // verus!
