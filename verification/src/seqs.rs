//! Facts about sequences that many proofs use.

use vstd::prelude::*;

verus! {

/// A longer sequence contains what it contained, and what was added.
pub proof fn lemma_push_contains<A>(s: Seq<A>, added: A)
    ensures
        forall|a: A| #[trigger] s.contains(a) ==> s.push(added).contains(a),
        s.push(added).contains(added),
{
    let more = s.push(added);
    assert forall|a: A| #[trigger] s.contains(a) implies more.contains(a) by {
        let i = choose|i: int| 0 <= i < s.len() && s[i] == a;
        assert(more[i] == a);
    }
    assert(more[s.len() as int] == added);
}

/// A sequence contains its first element, and what is contained behind it.
pub proof fn lemma_first_and_rest<A>(s: Seq<A>)
    requires
        s.len() > 0,
    ensures
        s.contains(s[0]),
        forall|a: A| #[trigger] s.skip(1).contains(a) ==> s.contains(a),
{
    assert(s.contains(s[0]));
    assert forall|a: A| #[trigger] s.skip(1).contains(a) implies s.contains(a) by {
        let i = choose|i: int| 0 <= i < s.skip(1).len() && s.skip(1)[i] == a;
        assert(s[i + 1] == a);
    }
}

} // verus!
