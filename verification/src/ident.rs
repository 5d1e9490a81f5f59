//! Decision identifiers and the path segments they are built from.

use vstd::prelude::*;
use vstd::string::*;

verus! {

/// Characters that may appear in one segment of a decision identifier:
/// ASCII letters and digits, `-`, `_` and `.`.
pub open spec fn id_char(c: char) -> bool {
    ||| ('a' <= c && c <= 'z')
    ||| ('A' <= c && c <= 'Z')
    ||| ('0' <= c && c <= '9')
    ||| c == '-'
    ||| c == '_'
    ||| c == '.'
}

/// `s` holds two consecutive dots somewhere.
pub open spec fn has_double_dot(s: Seq<char>) -> bool {
    exists|i: int| 0 <= i && i + 1 < s.len() && s[i] == '.' && #[trigger] s[i + 1] == '.'
}

/// A segment is non-empty, is not `.`, holds no `..` (so it is not `..`
/// either) and is made of identifier characters only.
pub open spec fn spec_valid_id_segment(s: Seq<char>) -> bool {
    &&& s.len() > 0
    &&& s != seq!['.']
    &&& !has_double_dot(s)
    &&& forall|i: int| 0 <= i < s.len() ==> #[trigger] id_char(s[i])
}

/// The pieces of `s` between `/` separators, as `str::split('/')` yields
/// them: always at least one piece, and an empty piece on each side of a
/// leading, trailing or doubled separator.
pub open spec fn split_slash(s: Seq<char>) -> Seq<Seq<char>>
    decreases s.len(),
{
    if s.len() == 0 {
        seq![Seq::<char>::empty()]
    } else {
        let rest = split_slash(s.drop_last());
        if s.last() == '/' {
            rest.push(Seq::<char>::empty())
        } else {
            rest.update(rest.len() - 1, rest.last().push(s.last()))
        }
    }
}

/// A decision identifier is non-empty and every `/`-separated segment of it
/// is a valid segment.
pub open spec fn spec_valid_decision_id(id: Seq<char>) -> bool {
    &&& id.len() > 0
    &&& forall|i: int| 0 <= i < split_slash(id).len() ==> #[trigger] spec_valid_id_segment(split_slash(id)[i])
}

/// Splitting at `/` yields at least one part.
pub proof fn lemma_split_slash_nonempty(s: Seq<char>)
    ensures
        split_slash(s).len() >= 1,
    decreases s.len(),
{
    if s.len() > 0 {
        lemma_split_slash_nonempty(s.drop_last());
    }
}

/// Whether `c` may appear in an identifier segment.
fn is_id_char(c: char) -> (r: bool)
    ensures
        r == id_char(c),
{
    ('a' <= c && c <= 'z') || ('A' <= c && c <= 'Z') || ('0' <= c && c <= '9') || c == '-' || c
        == '_' || c == '.'
}

/// Whether `segment` may stand as one segment of a decision identifier.
pub fn valid_id_segment(segment: &str) -> (r: bool)
    ensures
        r == spec_valid_id_segment(segment@),
{
    let len = segment.unicode_len();
    if len == 0 {
        return false;
    }
    let mut i: usize = 0;
    while i < len
        invariant
            len == segment@.len(),
            i <= len,
            forall|j: int| 0 <= j < i ==> #[trigger] id_char(segment@[j]),
            forall|j: int| 0 <= j && j + 1 < i ==> !(segment@[j] == '.' && #[trigger] segment@[j + 1] == '.'),
        decreases len - i,
    {
        let c = segment.get_char(i);
        if !is_id_char(c) {
            return false;
        }
        if c == '.' && i > 0 && segment.get_char(i - 1) == '.' {
            assert(has_double_dot(segment@)) by {
                assert(segment@[(i - 1) as int + 1] == '.');
            }
            return false;
        }
        i = i + 1;
    }
    if len == 1 && segment.get_char(0) == '.' {
        assert(segment@ =~= seq!['.']);
        return false;
    }
    proof {
        if segment@ == seq!['.'] {
            assert(segment@[0] == '.');
        }
    }
    true
}

/// Whether `id` is a well-formed decision identifier: non-empty, and each
/// `/`-separated segment valid. Such an identifier cannot climb out of the
/// decisions directory, name an empty segment or carry any character
/// outside `[A-Za-z0-9._-]` (so no `\`, no `%`).
pub fn valid_decision_id(id: &str) -> (r: bool)
    ensures
        r == spec_valid_decision_id(id@),
{
    let len = id.unicode_len();
    if len == 0 {
        return false;
    }
    let mut all_ok = true;
    let mut start: usize = 0;
    let mut i: usize = 0;
    assert(id@.take(0) =~= Seq::<char>::empty());
    while i < len
        invariant
            len == id@.len(),
            start <= i <= len,
            split_slash(id@.take(i as int)).len() >= 1,
            split_slash(id@.take(i as int)).last() =~= id@.subrange(start as int, i as int),
            all_ok == (forall|k: int|
                0 <= k < split_slash(id@.take(i as int)).len() - 1 ==> #[trigger] spec_valid_id_segment(
                    split_slash(id@.take(i as int))[k],
                )),
        decreases len - i,
    {
        let ghost old_pieces = split_slash(id@.take(i as int));
        let c = id.get_char(i);
        assert(id@.take(i + 1).drop_last() =~= id@.take(i as int));
        assert(id@.take(i + 1).last() == c);
        if c == '/' {
            let segment = id.substring_char(start, i);
            let seg_ok = valid_id_segment(segment);
            let ghost new_pieces = split_slash(id@.take(i + 1));
            assert(new_pieces == old_pieces.push(Seq::<char>::empty()));
            assert(forall|k: int| 0 <= k < old_pieces.len() ==> new_pieces[k] == old_pieces[k]);
            proof {
                if all_ok && seg_ok {
                    assert forall|k: int| 0 <= k < new_pieces.len() - 1 implies #[trigger] spec_valid_id_segment(
                        new_pieces[k],
                    ) by {
                        if k < old_pieces.len() - 1 {
                            assert(spec_valid_id_segment(old_pieces[k]));
                        } else {
                            assert(new_pieces[k] == old_pieces.last());
                        }
                    }
                }
                if !(all_ok && seg_ok) {
                    if !seg_ok {
                        assert(new_pieces[old_pieces.len() - 1] =~= segment@);
                    } else {
                        let k = choose|k: int|
                            0 <= k < old_pieces.len() - 1 && !spec_valid_id_segment(old_pieces[k]);
                        assert(new_pieces[k] == old_pieces[k]);
                    }
                }
            }
            all_ok = all_ok && seg_ok;
            start = i + 1;
        } else {
            let ghost new_pieces = split_slash(id@.take(i + 1));
            assert(new_pieces == old_pieces.update(old_pieces.len() - 1, old_pieces.last().push(c)));
            assert(forall|k: int| 0 <= k < old_pieces.len() - 1 ==> new_pieces[k] == old_pieces[k]);
        }
        i = i + 1;
    }
    assert(id@.take(len as int) =~= id@);
    let last = id.substring_char(start, len);
    let last_ok = valid_id_segment(last);
    proof {
        let pieces = split_slash(id@);
        if all_ok && last_ok {
            assert forall|k: int| 0 <= k < pieces.len() implies #[trigger] spec_valid_id_segment(pieces[k]) by {
                if k == pieces.len() - 1 {
                    assert(pieces[k] =~= last@);
                }
            }
        } else if !last_ok {
            assert(pieces[pieces.len() - 1] =~= last@);
        }
    }
    all_ok && last_ok
}

} // verus!
