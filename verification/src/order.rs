//! Lexicographic order of sequences, and the order of filesystem paths
//! that it gives (component by component, names by their bytes).

use vstd::prelude::*;
use crate::index::TextOrder;
use crate::paths::{ComponentView, PathComponent};

verus! {

/// `lt` is a strict total order.
pub open spec fn strict_total<A>(lt: spec_fn(A, A) -> bool) -> bool {
    &&& forall|x: A| !#[trigger] lt(x, x)
    &&& forall|x: A, y: A, z: A| #[trigger] lt(x, y) && #[trigger] lt(y, z) ==> lt(x, z)
    &&& forall|x: A, y: A| #![trigger lt(x, y)] x != y ==> lt(x, y) || lt(y, x)
}

/// `a` comes before `b` in the lexicographic order that `lt` orders
/// elements by; a proper prefix comes first.
pub open spec fn lex_by<A>(a: Seq<A>, b: Seq<A>, lt: spec_fn(A, A) -> bool) -> bool
    decreases a.len(),
{
    if a.len() == 0 {
        b.len() > 0
    } else if b.len() == 0 {
        false
    } else if lt(a[0], b[0]) {
        true
    } else if lt(b[0], a[0]) {
        false
    } else {
        lex_by(a.drop_first(), b.drop_first(), lt)
    }
}

/// No sequence sorts before itself when `lt` is irreflexive.
proof fn lemma_lex_irreflexive<A>(a: Seq<A>, lt: spec_fn(A, A) -> bool)
    requires
        strict_total(lt),
    ensures
        !lex_by(a, a, lt),
    decreases a.len(),
{
    if a.len() > 0 {
        assert(!lt(a[0], a[0]));
        lemma_lex_irreflexive(a.drop_first(), lt);
    }
}

/// The lexicographic extension of a strict total order is transitive.
proof fn lemma_lex_transitive<A>(a: Seq<A>, b: Seq<A>, c: Seq<A>, lt: spec_fn(A, A) -> bool)
    requires
        strict_total(lt),
        lex_by(a, b, lt),
        lex_by(b, c, lt),
    ensures
        lex_by(a, c, lt),
    decreases a.len(),
{
    if a.len() > 0 && b.len() > 0 && c.len() > 0 {
        let (x, y, z) = (a[0], b[0], c[0]);
        if lt(x, y) && lt(y, z) {
            assert(lt(x, z));
        } else if lt(x, y) {
            assert(!lt(y, z) && !lt(z, y));
            assert(y == z) by {
                if y != z {
                    assert(lt(y, z) || lt(z, y));
                }
            }
        } else if lt(y, z) {
            assert(!lt(x, y) && !lt(y, x));
            assert(x == y) by {
                if x != y {
                    assert(lt(x, y) || lt(y, x));
                }
            }
        } else {
            assert(x == y) by {
                if x != y {
                    assert(lt(x, y) || lt(y, x));
                }
            }
            assert(y == z) by {
                if y != z {
                    assert(lt(y, z) || lt(z, y));
                }
            }
            assert(!lt(x, x));
            lemma_lex_transitive(a.drop_first(), b.drop_first(), c.drop_first(), lt);
        }
    }
}

/// Of two different sequences, one sorts before the other.
proof fn lemma_lex_total<A>(a: Seq<A>, b: Seq<A>, lt: spec_fn(A, A) -> bool)
    requires
        strict_total(lt),
    ensures
        a == b || lex_by(a, b, lt) || lex_by(b, a, lt),
    decreases a.len(),
{
    if a.len() == 0 && b.len() == 0 {
        assert(a =~= b);
    } else if a.len() > 0 && b.len() > 0 {
        if !lt(a[0], b[0]) && !lt(b[0], a[0]) {
            assert(a[0] == b[0]) by {
                if a[0] != b[0] {
                    assert(lt(a[0], b[0]) || lt(b[0], a[0]));
                }
            }
            lemma_lex_total(a.drop_first(), b.drop_first(), lt);
            if a.drop_first() == b.drop_first() {
                assert(a =~= b) by {
                    assert(a.len() == b.len());
                    assert forall|i: int| 0 <= i < a.len() implies a[i] == b[i] by {
                        if i > 0 {
                            assert(a[i] == a.drop_first()[i - 1]);
                            assert(b[i] == b.drop_first()[i - 1]);
                        }
                    }
                }
            }
        }
    }
}

/// The lexicographic order by a strict total order is a strict total order.
pub proof fn lemma_lex_strict_total<A>(lt: spec_fn(A, A) -> bool)
    requires
        strict_total(lt),
    ensures
        strict_total(|a: Seq<A>, b: Seq<A>| lex_by(a, b, lt)),
{
    let l = |a: Seq<A>, b: Seq<A>| lex_by(a, b, lt);
    assert forall|x: Seq<A>| !#[trigger] l(x, x) by {
        lemma_lex_irreflexive(x, lt);
    }
    assert forall|x: Seq<A>, y: Seq<A>, z: Seq<A>| #[trigger] l(x, y) && #[trigger] l(y, z) implies l(
        x,
        z,
    ) by {
        lemma_lex_transitive(x, y, z, lt);
    }
    assert forall|x: Seq<A>, y: Seq<A>| #![trigger l(x, y)] x != y implies l(x, y) || l(y, x) by {
        lemma_lex_total(x, y, lt);
    }
}

/// The order of bytes.
pub open spec fn byte_less() -> spec_fn(u8, u8) -> bool {
    |x: u8, y: u8| x < y
}

/// The sort key of a path component: the rank of its kind (prefix, root,
/// `.`, `..`, name, in that order) and its bytes (a name's UTF-8 encoding).
pub open spec fn component_key(c: ComponentView) -> (int, Seq<u8>) {
    match c {
        ComponentView::Prefix(b) => (0, b),
        ComponentView::RootDir => (1, Seq::<u8>::empty()),
        ComponentView::CurDir => (2, Seq::<u8>::empty()),
        ComponentView::ParentDir => (3, Seq::<u8>::empty()),
        ComponentView::Normal(s) => (4, vstd::utf8::encode_utf8(s)),
        ComponentView::NonUnicode(b) => (4, b),
    }
}

/// The order of component keys: by rank, then by bytes.
pub open spec fn key_less() -> spec_fn((int, Seq<u8>), (int, Seq<u8>)) -> bool {
    |x: (int, Seq<u8>), y: (int, Seq<u8>)| x.0 < y.0 || (x.0 == y.0 && lex_by(x.1, y.1, byte_less()))
}

/// The sort keys of a path's components.
pub open spec fn path_key(p: Seq<ComponentView>) -> Seq<(int, Seq<u8>)> {
    Seq::new(p.len(), |i: int| component_key(p[i]))
}

/// Path `a` sorts before path `b`: component by component, as the standard
/// library orders paths.
pub open spec fn path_less(a: Seq<ComponentView>, b: Seq<ComponentView>) -> bool {
    lex_by(path_key(a), path_key(b), key_less())
}

/// The order of component keys is a strict total order.
pub proof fn lemma_key_less_strict_total()
    ensures
        strict_total(key_less()),
{
    assert(strict_total(byte_less()));
    lemma_lex_strict_total(byte_less());
    let bl = |a: Seq<u8>, b: Seq<u8>| lex_by(a, b, byte_less());
    assert(strict_total(bl));
    let kl = key_less();
    assert forall|x: (int, Seq<u8>)| !#[trigger] kl(x, x) by {
        assert(!bl(x.1, x.1));
    }
    assert forall|x: (int, Seq<u8>), y: (int, Seq<u8>), z: (int, Seq<u8>)|
        #[trigger] kl(x, y) && #[trigger] kl(y, z) implies kl(x, z) by {
        if x.0 == y.0 && y.0 == z.0 {
            assert(bl(x.1, y.1) && bl(y.1, z.1));
            assert(bl(x.1, z.1));
        }
    }
    assert forall|x: (int, Seq<u8>), y: (int, Seq<u8>)| #![trigger kl(x, y)] x != y implies kl(x, y) || kl(
        y,
        x,
    ) by {
        if x.0 == y.0 {
            assert(x.1 != y.1);
            assert(bl(x.1, y.1) || bl(y.1, x.1));
        }
    }
}

/// Paths sort transitively.
pub proof fn lemma_path_less_transitive(a: Seq<ComponentView>, b: Seq<ComponentView>, c: Seq<ComponentView>)
    requires
        path_less(a, b),
        path_less(b, c),
    ensures
        path_less(a, c),
{
    lemma_key_less_strict_total();
    lemma_lex_transitive(path_key(a), path_key(b), path_key(c), key_less());
}

/// No path sorts both before and after another.
pub proof fn lemma_path_less_asymmetric(a: Seq<ComponentView>, b: Seq<ComponentView>)
    ensures
        !(path_less(a, b) && path_less(b, a)),
{
    lemma_key_less_strict_total();
    if path_less(a, b) && path_less(b, a) {
        lemma_lex_transitive(path_key(a), path_key(b), path_key(a), key_less());
        lemma_lex_irreflexive(path_key(a), key_less());
    }
}

/// Sequences that share their first `k` elements compare as their rests do.
proof fn lemma_lex_skip<A>(a: Seq<A>, b: Seq<A>, k: int, lt: spec_fn(A, A) -> bool)
    requires
        0 <= k <= a.len(),
        k <= b.len(),
        forall|j: int| 0 <= j < k ==> !lt(#[trigger] a[j], b[j]) && !lt(b[j], a[j]),
    ensures
        lex_by(a, b, lt) == lex_by(a.skip(k), b.skip(k), lt),
    decreases k,
{
    if k > 0 {
        assert(!lt(a[0], b[0]) && !lt(b[0], a[0]));
        assert forall|j: int| 0 <= j < k - 1 implies !lt(#[trigger] a.drop_first()[j], b.drop_first()[j])
            && !lt(b.drop_first()[j], a.drop_first()[j]) by {
            assert(a.drop_first()[j] == a[j + 1]);
            assert(b.drop_first()[j] == b[j + 1]);
        }
        lemma_lex_skip(a.drop_first(), b.drop_first(), k - 1, lt);
        assert(a.drop_first().skip(k - 1) =~= a.skip(k));
        assert(b.drop_first().skip(k - 1) =~= b.skip(k));
    } else {
        assert(a.skip(0) =~= a);
        assert(b.skip(0) =~= b);
    }
}

/// Compares two byte strings lexicographically.
pub fn compare_bytes(a: &[u8], b: &[u8]) -> (r: TextOrder)
    ensures
        r is Before <==> lex_by(a@, b@, byte_less()),
        r is After <==> lex_by(b@, a@, byte_less()),
        r is Same ==> a@ == b@,
{
    proof {
        lemma_lex_strict_total(byte_less());
        assert(!(lex_by(a@, b@, byte_less()) && lex_by(b@, a@, byte_less()))) by {
            if lex_by(a@, b@, byte_less()) && lex_by(b@, a@, byte_less()) {
                lemma_lex_transitive(a@, b@, a@, byte_less());
                lemma_lex_irreflexive(a@, byte_less());
            }
        }
    }
    let mut k: usize = 0;
    while k < a.len() && k < b.len()
        invariant
            k <= a@.len(),
            k <= b@.len(),
            forall|j: int| 0 <= j < k ==> a@[j] == b@[j],
        decreases a@.len() - k,
    {
        if a[k] != b[k] {
            proof {
                assert forall|j: int| 0 <= j < k implies !(byte_less())(#[trigger] a@[j], b@[j]) && !(
                byte_less())(b@[j], a@[j]) by {}
                lemma_lex_skip(a@, b@, k as int, byte_less());
                assert forall|j: int| 0 <= j < k implies !(byte_less())(#[trigger] b@[j], a@[j]) && !(
                byte_less())(a@[j], b@[j]) by {}
                lemma_lex_skip(b@, a@, k as int, byte_less());
                assert(a@.skip(k as int)[0] == a@[k as int]);
                assert(b@.skip(k as int)[0] == b@[k as int]);
            }
            if a[k] < b[k] {
                return TextOrder::Before;
            } else {
                return TextOrder::After;
            }
        }
        k = k + 1;
    }
    proof {
        assert forall|j: int| 0 <= j < k implies !(byte_less())(#[trigger] a@[j], b@[j]) && !(byte_less())(
            b@[j],
            a@[j],
        ) by {}
        lemma_lex_skip(a@, b@, k as int, byte_less());
        assert forall|j: int| 0 <= j < k implies !(byte_less())(#[trigger] b@[j], a@[j]) && !(byte_less())(
            a@[j],
            b@[j],
        ) by {}
        lemma_lex_skip(b@, a@, k as int, byte_less());
    }
    if a.len() == b.len() {
        assert(a@ =~= b@);
        proof {
            lemma_lex_irreflexive(a@, byte_less());
        }
        TextOrder::Same
    } else if a.len() < b.len() {
        TextOrder::Before
    } else {
        TextOrder::After
    }
}

/// The rank of a component's kind in the path order.
fn component_rank(c: &PathComponent) -> (r: u8)
    ensures
        r as int == component_key(c@).0,
{
    match c {
        PathComponent::Prefix(_) => 0,
        PathComponent::RootDir => 1,
        PathComponent::CurDir => 2,
        PathComponent::ParentDir => 3,
        PathComponent::Normal(_) => 4,
        PathComponent::NonUnicode(_) => 4,
    }
}

/// The bytes that order components of the same kind.
fn component_bytes(c: &PathComponent) -> (r: &[u8])
    ensures
        r@ == component_key(c@).1,
{
    match c {
        PathComponent::Prefix(b) => b.as_slice(),
        PathComponent::Normal(s) => s.as_str().as_bytes(),
        PathComponent::NonUnicode(b) => b.as_slice(),
        _ => &[],
    }
}

/// Compares two path components by their sort keys.
pub fn compare_components(a: &PathComponent, b: &PathComponent) -> (r: TextOrder)
    ensures
        r is Before <==> (key_less())(component_key(a@), component_key(b@)),
        r is After <==> (key_less())(component_key(b@), component_key(a@)),
        r is Same ==> component_key(a@) == component_key(b@),
{
    let ra = component_rank(a);
    let rb = component_rank(b);
    if ra < rb {
        return TextOrder::Before;
    }
    if rb < ra {
        return TextOrder::After;
    }
    compare_bytes(component_bytes(a), component_bytes(b))
}

/// Whether path `a` sorts before path `b`.
pub fn path_sorts_before(a: &Vec<PathComponent>, b: &Vec<PathComponent>) -> (r: bool)
    ensures
        r == path_less(crate::paths::path_view(a@), crate::paths::path_view(b@)),
{
    let ghost ka = path_key(crate::paths::path_view(a@));
    let ghost kb = path_key(crate::paths::path_view(b@));
    proof {
        lemma_key_less_strict_total();
    }
    let mut k: usize = 0;
    while k < a.len() && k < b.len()
        invariant
            k <= a@.len(),
            k <= b@.len(),
            ka == path_key(crate::paths::path_view(a@)),
            kb == path_key(crate::paths::path_view(b@)),
            forall|j: int| 0 <= j < k ==> #[trigger] ka[j] == kb[j],
            strict_total(key_less()),
        decreases a@.len() - k,
    {
        assert(ka[k as int] == component_key(a@[k as int]@));
        assert(kb[k as int] == component_key(b@[k as int]@));
        match compare_components(&a[k], &b[k]) {
            TextOrder::Before => {
                proof {
                    assert forall|j: int| 0 <= j < k implies !(key_less())(#[trigger] ka[j], kb[j]) && !(
                    key_less())(kb[j], ka[j]) by {}
                    lemma_lex_skip(ka, kb, k as int, key_less());
                    assert(ka.skip(k as int)[0] == ka[k as int]);
                    assert(kb.skip(k as int)[0] == kb[k as int]);
                }
                return true;
            },
            TextOrder::After => {
                proof {
                    assert forall|j: int| 0 <= j < k implies !(key_less())(#[trigger] ka[j], kb[j]) && !(
                    key_less())(kb[j], ka[j]) by {}
                    lemma_lex_skip(ka, kb, k as int, key_less());
                    assert(ka.skip(k as int)[0] == ka[k as int]);
                    assert(kb.skip(k as int)[0] == kb[k as int]);
                }
                return false;
            },
            TextOrder::Same => {},
        }
        k = k + 1;
    }
    proof {
        assert forall|j: int| 0 <= j < k implies !(key_less())(#[trigger] ka[j], kb[j]) && !(key_less())(
            kb[j],
            ka[j],
        ) by {}
        lemma_lex_skip(ka, kb, k as int, key_less());
    }
    k < b.len()
}

} // verus!
