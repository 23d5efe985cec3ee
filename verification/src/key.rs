//! Derived, content-addressed keys.
//!
//! An entry's key is a deterministic function of its content, and a metadata
//! record's key is a deterministic function of all its fields, so identical
//! content always lands under the same key and re-storing it is a no-op.
//! Each field is framed as `'#' * length ++ ':' ++ field`; a key is the
//! concatenation of its framed fields. The length prefix makes the encoding
//! injective: distinct field lists always give distinct keys, which is what
//! lets content addressing stand in for identity.

use vstd::prelude::*;

verus! {

/// `n` repetitions of the padding character `'#'`.
pub open spec fn pad(n: nat) -> Seq<char> {
    Seq::new(n, |i: int| '#')
}

/// One framed field: the field's length in padding characters, a separator,
/// then the field itself.
pub open spec fn frame(part: Seq<char>) -> Seq<char> {
    pad(part.len()) + seq![':'] + part
}

/// A framed field followed by anything decodes unambiguously: the first
/// separator ends the padding and fixes the field's length.
pub proof fn lemma_frame_prefix_injective(a1: Seq<char>, r1: Seq<char>, a2: Seq<char>, r2: Seq<char>)
    requires
        frame(a1) + r1 == frame(a2) + r2,
    ensures
        a1 == a2,
        r1 == r2,
{
    let s = frame(a1) + r1;
    let n1 = a1.len() as int;
    let n2 = a2.len() as int;
    assert(s[n1] == ':');
    assert((frame(a2) + r2)[n2] == ':');
    if n1 < n2 {
        assert((frame(a2) + r2)[n1] == '#');
        assert(false);
    }
    if n2 < n1 {
        assert(s[n2] == '#');
        assert((frame(a2) + r2)[n2] == ':');
        assert(false);
    }
    assert(n1 == n2);
    assert forall|k: int| 0 <= k < n1 implies a1[k] == a2[k] by {
        assert(s[n1 + 1 + k] == a1[k]);
        assert((frame(a2) + r2)[n2 + 1 + k] == a2[k]);
    }
    assert(a1 =~= a2);
    assert(s.len() == 2 * n1 + 1 + r1.len());
    assert(r1.len() == r2.len());
    assert forall|k: int| 0 <= k < r1.len() implies r1[k] == r2[k] by {
        assert(s[2 * n1 + 1 + k] == r1[k]);
        assert((frame(a2) + r2)[2 * n2 + 1 + k] == r2[k]);
    }
    assert(r1 =~= r2);
}

/// Two equal framed fields were the same field.
pub proof fn lemma_frame_injective(a1: Seq<char>, a2: Seq<char>)
    requires
        frame(a1) == frame(a2),
    ensures
        a1 == a2,
{
    let empty = Seq::<char>::empty();
    assert(frame(a1) + empty =~= frame(a1));
    assert(frame(a2) + empty =~= frame(a2));
    lemma_frame_prefix_injective(a1, empty, a2, empty);
}

/// Builds one framed field of the key being derived.
pub fn frame_str(part: &str) -> (r: String)
    ensures
        r@ == frame(part@),
{
    let n = part.unicode_len();
    let mut s = String::new();
    let mut i: usize = 0;
    proof {
        reveal_strlit("#");
        reveal_strlit(":");
        assert(s@ =~= pad(0));
    }
    while i < n
        invariant
            i <= n,
            n == part@.len(),
            s@ == pad(i as nat),
        decreases n - i,
    {
        s.append("#");
        proof {
            reveal_strlit("#");
            assert(s@ =~= pad((i + 1) as nat));
        }
        i = i + 1;
    }
    s.append(":");
    s.append(part);
    proof {
        reveal_strlit(":");
        assert(":"@ =~= seq![':']);
        assert(s@ =~= frame(part@));
    }
    s
}

} // verus!
