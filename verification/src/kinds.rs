//! The names the graph uses for its vertices, properties and edges, and the
//! test for the beginning of a text.

use vstd::prelude::*;
use vstd::string::StrSliceExecFns;

verus! {

/// The fixed names of the graph. `Tagname` is the property that holds the
/// text of a tag. `Path` and `Http` are the two kinds of item, and each is
/// also the property that holds the text of such an item. `Edgetype` is the
/// word for the type of an edge.
#[derive(Debug, Clone, Copy, PartialEq, Eq, Structural)]
pub enum Vtype {
    Edgetype,
    Tagname,
    Path,
    Http,
}

impl Vtype {
    /// The name as a sequence of characters.
    pub open spec fn name(self) -> Seq<char> {
        match self {
            Vtype::Edgetype => "Edgetype"@,
            Vtype::Tagname => "Tagname"@,
            Vtype::Path => "Path"@,
            Vtype::Http => "Http"@,
        }
    }

    /// The name as text, spelled as the variant is.
    pub fn to_string(&self) -> (s: String)
        ensures
            s@ == self.name(),
    {
        match self {
            Vtype::Edgetype => "Edgetype".to_owned(),
            Vtype::Tagname => "Tagname".to_owned(),
            Vtype::Path => "Path".to_owned(),
            Vtype::Http => "Http".to_owned(),
        }
    }
}

/// Whether `s` begins with `prefix`.
pub open spec fn starts_with(s: Seq<char>, prefix: Seq<char>) -> bool {
    prefix.len() <= s.len() && s.subrange(0, prefix.len() as int) == prefix
}

/// Tests whether `s` begins with `prefix`, character by character.
pub fn has_prefix(s: &str, prefix: &str) -> (b: bool)
    ensures
        b == starts_with(s@, prefix@),
{
    let n: usize = prefix.unicode_len();
    let m: usize = s.unicode_len();
    if m < n {
        return false;
    }
    let mut i: usize = 0;
    while i < n
        invariant
            n == prefix@.len(),
            m == s@.len(),
            n <= m,
            i <= n,
            forall|j: int| 0 <= j < i ==> s@[j] == prefix@[j],
        decreases n - i,
    {
        if s.get_char(i) != prefix.get_char(i) {
            assert(s@.subrange(0, n as int)[i as int] != prefix@[i as int]);
            return false;
        }
        i = i + 1;
    }
    assert(s@.subrange(0, n as int) =~= prefix@);
    true
}

} // verus!
