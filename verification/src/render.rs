//! Fixed-width cells for displaying the stack.
//!
//! The read-loop shows the stack as two aligned rows, one of type
//! labels and one of values; this module builds the individual
//! padded cells of those rows.

use vstd::prelude::*;

verus! {

/// A run of `n` space characters.
pub open spec fn spaces(n: nat) -> Seq<char> {
    Seq::new(n, |i: int| ' ')
}

/// Append one table cell to `result`: a leading space, the given
/// representation, space padding out to `max_length` characters, and
/// a closing cell bar.
pub fn make_entry(result: &mut String, repr: &str, max_length: usize)
    requires
        repr@.len() <= max_length,
    ensures
        final(result)@ == old(result)@ + seq![' '] + repr@ + spaces(
            (max_length - repr@.len()) as nat,
        ) + seq!['|'],
{
    proof {
        reveal_strlit(" ");
        reveal_strlit("|");
        assert(" "@ =~= seq![' ']);
        assert("|"@ =~= seq!['|']);
    }
    result.append(" ");
    result.append(repr);
    let pad = max_length - repr.unicode_len();
    let mut i: usize = 0;
    proof {
        assert(spaces(0) =~= Seq::<char>::empty());
        assert(result@ =~= old(result)@ + seq![' '] + repr@ + spaces(0));
    }
    while i < pad
        invariant
            i <= pad,
            result@ == old(result)@ + seq![' '] + repr@ + spaces(i as nat),
        decreases pad - i,
    {
        result.append(" ");
        proof {
            reveal_strlit(" ");
            assert(result@ =~= old(result)@ + seq![' '] + repr@ + spaces((i + 1) as nat));
        }
        i = i + 1;
    }
    result.append("|");
    proof {
        assert(result@ =~= old(result)@ + seq![' '] + repr@ + spaces(
            (max_length - repr@.len()) as nat,
        ) + seq!['|']);
    }
}

} // verus!
