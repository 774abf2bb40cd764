//! Validated SQL names and the lexicographic order the differ sorts them by.

use crate::SchemaError;
use vstd::prelude::*;
use vstd::string::StrSliceExecFns;

verus! {

/// A character that may appear in a SQL identifier: an ASCII letter, an ASCII
/// digit, or an underscore.
pub open spec fn is_identifier_char(c: char) -> bool {
    ||| 'a' as int <= c as int <= 'z' as int
    ||| 'A' as int <= c as int <= 'Z' as int
    ||| '0' as int <= c as int <= '9' as int
    ||| c == '_'
}

/// A valid SQL identifier: non-empty, every character from the allowed set.
pub open spec fn valid_identifier(s: Seq<char>) -> bool {
    &&& s.len() > 0
    &&& forall|i: int| 0 <= i < s.len() ==> is_identifier_char(#[trigger] s[i])
}

/// Strict lexicographic order on names, by character code. Identifiers only
/// ever hold ASCII characters, so this coincides with byte order on the
/// underlying UTF-8 text.
pub open spec fn name_lt(a: Seq<char>, b: Seq<char>) -> bool
    decreases a.len(),
{
    if b.len() == 0 {
        false
    } else if a.len() == 0 {
        true
    } else if a[0] != b[0] {
        (a[0] as int) < (b[0] as int)
    } else {
        name_lt(a.drop_first(), b.drop_first())
    }
}

/// `name_lt` is irreflexive.
pub proof fn lemma_name_lt_irreflexive(a: Seq<char>)
    ensures
        !name_lt(a, a),
    decreases a.len(),
{
    if a.len() > 0 {
        lemma_name_lt_irreflexive(a.drop_first());
    }
}

/// Names that are not ordered either way are equal: `name_lt` is a total
/// strict order.
pub proof fn lemma_name_lt_connected(a: Seq<char>, b: Seq<char>)
    ensures
        !name_lt(a, b) && !name_lt(b, a) ==> a == b,
    decreases a.len(),
{
    if a.len() == 0 || b.len() == 0 {
        if !name_lt(a, b) && !name_lt(b, a) {
            assert(a =~= b);
        }
    } else if a[0] == b[0] {
        lemma_name_lt_connected(a.drop_first(), b.drop_first());
        if !name_lt(a, b) && !name_lt(b, a) {
            assert(a =~= seq![a[0]] + a.drop_first());
            assert(b =~= seq![b[0]] + b.drop_first());
        }
    }
}

/// `name_lt` is transitive.
pub proof fn lemma_name_lt_transitive(a: Seq<char>, b: Seq<char>, c: Seq<char>)
    ensures
        name_lt(a, b) && name_lt(b, c) ==> name_lt(a, c),
    decreases a.len() + b.len() + c.len(),
{
    if a.len() > 0 && b.len() > 0 && c.len() > 0 {
        lemma_name_lt_transitive(a.drop_first(), b.drop_first(), c.drop_first());
    }
}

/// Decides `name_lt` on string slices.
fn str_lt(a: &str, b: &str) -> (r: bool)
    ensures
        r == name_lt(a@, b@),
    decreases a@.len(),
{
    let b_len = b.unicode_len();
    if b_len == 0 {
        return false;
    }
    let a_len = a.unicode_len();
    if a_len == 0 {
        return true;
    }
    let ca = a.get_char(0);
    let cb = b.get_char(0);
    if ca != cb {
        (ca as u32) < (cb as u32)
    } else {
        let a_rest = a.substring_char(1, a_len);
        let b_rest = b.substring_char(1, b_len);
        proof {
            assert(a_rest@ =~= a@.drop_first());
            assert(b_rest@ =~= b@.drop_first());
        }
        str_lt(a_rest, b_rest)
    }
}

/// A validated SQL name: immutable, non-empty, restricted to `[a-zA-Z0-9_]`.
/// Equality and ordering are those of the underlying text.
#[derive(Debug, PartialEq, Eq, PartialOrd, Ord, Hash)]
pub struct Identifier {
    value: String,
}

impl View for Identifier {
    type V = Seq<char>;

    closed spec fn view(&self) -> Seq<char> {
        self.value@
    }
}

impl Clone for Identifier {
    fn clone(&self) -> (r: Self)
        ensures
            r == *self,
    {
        proof {
            use_type_invariant(self);
        }
        Identifier { value: self.value.clone() }
    }
}

impl Identifier {
    #[verifier::type_invariant]
    spec fn wf(self) -> bool {
        valid_identifier(self.value@)
    }

    /// Validates `value` and wraps it; rejects an empty name and any
    /// character outside `[a-zA-Z0-9_]`.
    pub fn new(value: String) -> (r: Result<Self, SchemaError>)
        ensures
            valid_identifier(value@) ==> (r matches Ok(id) && id@ == value@),
            !valid_identifier(value@) ==> (r matches Err(e) && e
                == SchemaError::InvalidIdentifier),
    {
        if is_valid_name(value.as_str()) {
            Ok(Identifier { value })
        } else {
            Err(SchemaError::InvalidIdentifier)
        }
    }

    /// The raw text of the name.
    pub fn value(&self) -> (r: &str)
        ensures
            r@ == self@,
            valid_identifier(r@),
    {
        proof {
            use_type_invariant(self);
        }
        self.value.as_str()
    }

    /// Whether this name sorts strictly before `other`.
    pub fn precedes(&self, other: &Identifier) -> (r: bool)
        ensures
            r == name_lt(self@, other@),
    {
        str_lt(self.value.as_str(), other.value.as_str())
    }

    /// Whether this name is the same as `other`.
    pub fn same_name(&self, other: &Identifier) -> (r: bool)
        ensures
            r == (self@ == other@),
    {
        self.value == other.value
    }

}

/// Decides `valid_identifier` on a string slice.
pub fn is_valid_name(s: &str) -> (r: bool)
    ensures
        r == valid_identifier(s@),
{
    let len = s.unicode_len();
    if len == 0 {
        return false;
    }
    let mut i: usize = 0;
    while i < len
        invariant
            len == s@.len(),
            0 <= i <= len,
            forall|j: int| 0 <= j < i ==> is_identifier_char(#[trigger] s@[j]),
        decreases len - i,
    {
        let c = s.get_char(i);
        let ok = (('a' <= c && c <= 'z') || ('A' <= c && c <= 'Z') || ('0' <= c && c <= '9') || c
            == '_');
        if !ok {
            return false;
        }
        i += 1;
    }
    true
}

} // verus!
