//! Markup events as a tokenizer delivers them, and element names.
use vstd::prelude::*;
use vstd::string::StrSliceExecFns;

verus! {

/// One event of a markup document: an element opens (with its qualified name
/// and its attributes as raw key and unescaped value), an element closes, or
/// decoded text appears.
pub enum MarkupEvent {
    Start { name: String, attrs: Vec<(String, String)> },
    End { name: String },
    Text { text: String },
}

/// The local part of a qualified name: what follows its first `:`, or the whole
/// name where it has none.
pub open spec fn local_part(name: Seq<char>) -> Seq<char> {
    if exists|i: int| 0 <= i < name.len() && name[i] == ':' {
        let i = choose|i: int|
            0 <= i < name.len() && name[i] == ':' && forall|j: int| 0 <= j < i ==> name[j] != ':';
        name.skip(i + 1)
    } else {
        name
    }
}

/// Tells whether the local part of `name` is `local`.
pub fn local_name_is(name: &str, local: &str) -> (r: bool)
    ensures
        r == (local_part(name@) == local@),
{
    let n = name.unicode_len();
    let mut i: usize = 0;
    while i < n && name.get_char(i) != ':'
        invariant
            n == name@.len(),
            i <= n,
            forall|j: int| 0 <= j < i ==> name@[j] != ':',
        decreases n - i,
    {
        i = i + 1;
    }
    let rest: &str = if i < n {
        assert(local_part(name@) == name@.skip(i + 1)) by {
            let k = choose|k: int|
                0 <= k < name@.len() && name@[k] == ':' && forall|j: int| 0 <= j < k ==> name@[j] != ':';
            assert(k == i);
        }
        name.substring_char(i + 1, n)
    } else {
        assert(name@.skip(0) =~= name@);
        name.substring_char(0, n)
    };
    assert(rest@ =~= local_part(name@));
    rest.to_owned() == local.to_owned()
}

} // verus!
