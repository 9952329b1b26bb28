//! Naming of the temporary subtitle artifact: the identifier token with its
//! extension replaced by the subtitle format extension.  Creating and
//! releasing the scoped directory itself is file-system work done by the
//! host-side shell around the library.

use vstd::prelude::*;

verus! {

/// The position of the last `.` in `s`, or -1 when there is none.
pub open spec fn last_dot(s: Seq<char>) -> int
    decreases s.len(),
{
    if s.len() == 0 {
        -1
    } else if s.last() == '.' {
        s.len() - 1
    } else {
        last_dot(s.drop_last())
    }
}

/// The artifact file name of an identifier token: the token's extension —
/// everything from the last `.`, when that dot is not the leading character —
/// replaced by `.ass`.
pub open spec fn artifact_name_spec(token: Seq<char>) -> Seq<char> {
    let d = last_dot(token);
    if d > 0 {
        token.subrange(0, d) + seq!['.', 'a', 's', 's']
    } else {
        token + seq!['.', 'a', 's', 's']
    }
}

/// Builds the artifact file name of a token; see `artifact_name_spec`.
pub fn artifact_file_name(token: &str) -> (r: String)
    ensures
        r@ == artifact_name_spec(token@),
{
    let len = token.unicode_len();
    let mut dot: usize = 0;
    let mut found = false;
    let mut i: usize = 0;
    proof {
        assert(token@.subrange(0, 0) =~= Seq::<char>::empty());
    }
    while i < len
        invariant
            i <= len,
            len == token@.len(),
            found ==> dot < i && last_dot(token@.subrange(0, i as int)) == dot as int,
            !found ==> last_dot(token@.subrange(0, i as int)) == -1,
        decreases len - i,
    {
        let c = token.get_char(i);
        proof {
            assert(token@.subrange(0, i as int + 1).drop_last() =~= token@.subrange(0, i as int));
            assert(token@.subrange(0, i as int + 1).last() == token@[i as int]);
        }
        if c == '.' {
            dot = i;
            found = true;
        }
        i += 1;
    }
    proof {
        assert(token@.subrange(0, len as int) =~= token@);
    }
    let mut s = String::new();
    if found && dot > 0 {
        let stem = token.substring_char(0, dot);
        s.append(stem);
    } else {
        s.append(token);
    }
    proof {
        reveal_strlit(".ass");
    }
    s.append(".ass");
    proof {
        assert(s@ =~= artifact_name_spec(token@));
    }
    s
}

} // verus!
