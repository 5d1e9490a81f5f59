//! The registry's index from decision identifier to loader key, ordered by
//! identifier as a `BTreeMap<String, String>` orders its keys.

use vstd::prelude::*;
use vstd::string::*;

verus! {

/// Strict lexicographic order of character sequences, by code point (the
/// order of `str`'s `Ord`, since UTF-8 keeps code point order).
pub open spec fn lex_less(a: Seq<char>, b: Seq<char>) -> bool
    decreases a.len(),
{
    if a.len() == 0 {
        b.len() > 0
    } else if b.len() == 0 {
        false
    } else if a[0] != b[0] {
        a[0] < b[0]
    } else {
        lex_less(a.drop_first(), b.drop_first())
    }
}

/// No text sorts before itself.
pub proof fn lemma_lex_irreflexive(a: Seq<char>)
    ensures
        !lex_less(a, a),
    decreases a.len(),
{
    if a.len() > 0 {
        lemma_lex_irreflexive(a.drop_first());
    }
}

/// Of two texts, at most one sorts before the other.
pub proof fn lemma_lex_asymmetric(a: Seq<char>, b: Seq<char>)
    ensures
        !(lex_less(a, b) && lex_less(b, a)),
    decreases a.len(),
{
    if a.len() > 0 && b.len() > 0 && a[0] == b[0] {
        lemma_lex_asymmetric(a.drop_first(), b.drop_first());
    }
}

/// Of two different texts, one sorts before the other.
pub proof fn lemma_lex_total(a: Seq<char>, b: Seq<char>)
    ensures
        a == b || lex_less(a, b) || lex_less(b, a),
    decreases a.len(),
{
    if a.len() == 0 {
        if b.len() == 0 {
            assert(a =~= b);
        }
    } else if b.len() > 0 && a[0] == b[0] {
        lemma_lex_total(a.drop_first(), b.drop_first());
        if a.drop_first() == b.drop_first() {
            assert(a =~= b) by {
                assert(a.drop_first().len() == b.drop_first().len());
                assert(a.len() == b.len());
                assert forall|i: int| 0 <= i < a.len() implies a[i] == b[i] by {
                    if i > 0 {
                        assert(a[i] == a.drop_first()[i - 1]);
                        assert(b[i] == b.drop_first()[i - 1]);
                    }
                }
            }
        }
    }
}

/// The text order is transitive.
pub proof fn lemma_lex_transitive(a: Seq<char>, b: Seq<char>, c: Seq<char>)
    requires
        lex_less(a, b),
        lex_less(b, c),
    ensures
        lex_less(a, c),
    decreases a.len(),
{
    if a.len() > 0 && b.len() > 0 && c.len() > 0 {
        if a[0] == b[0] && b[0] == c[0] {
            lemma_lex_transitive(a.drop_first(), b.drop_first(), c.drop_first());
        }
    }
}

/// Texts that share their first `k` characters compare as their rests do.
proof fn lemma_lex_skip(a: Seq<char>, b: Seq<char>, k: int)
    requires
        0 <= k <= a.len(),
        k <= b.len(),
        a.take(k) == b.take(k),
    ensures
        lex_less(a, b) == lex_less(a.skip(k), b.skip(k)),
    decreases k,
{
    if k > 0 {
        assert(a[0] == a.take(k)[0]);
        assert(b[0] == b.take(k)[0]);
        assert(a.drop_first().take(k - 1) =~= a.take(k).drop_first());
        assert(b.drop_first().take(k - 1) =~= b.take(k).drop_first());
        lemma_lex_skip(a.drop_first(), b.drop_first(), k - 1);
        assert(a.drop_first().skip(k - 1) =~= a.skip(k));
        assert(b.drop_first().skip(k - 1) =~= b.skip(k));
    } else {
        assert(a.skip(0) =~= a);
        assert(b.skip(0) =~= b);
    }
}

/// The outcome of comparing two texts.
pub enum TextOrder {
    Before,
    Same,
    After,
}

/// Compares two texts in code point order.
pub fn compare_text(a: &str, b: &str) -> (r: TextOrder)
    ensures
        r is Before <==> lex_less(a@, b@),
        r is Same <==> a@ == b@,
        r is After <==> lex_less(b@, a@),
{
    let la = a.unicode_len();
    let lb = b.unicode_len();
    let mut k: usize = 0;
    proof {
        lemma_lex_irreflexive(a@);
        lemma_lex_asymmetric(a@, b@);
    }
    while k < la && k < lb
        invariant
            la == a@.len(),
            lb == b@.len(),
            k <= la,
            k <= lb,
            a@.take(k as int) == b@.take(k as int),
        decreases la - k,
    {
        let ca = a.get_char(k);
        let cb = b.get_char(k);
        if ca != cb {
            proof {
                lemma_lex_skip(a@, b@, k as int);
                lemma_lex_skip(b@, a@, k as int);
                assert(a@.skip(k as int)[0] == ca);
                assert(b@.skip(k as int)[0] == cb);
                if a@ == b@ {
                    assert(a@[k as int] == b@[k as int]);
                }
            }
            if ca < cb {
                return TextOrder::Before;
            } else {
                return TextOrder::After;
            }
        }
        assert(a@.take(k + 1) =~= a@.take(k as int).push(ca));
        assert(b@.take(k + 1) =~= b@.take(k as int).push(cb));
        k = k + 1;
    }
    proof {
        lemma_lex_skip(a@, b@, k as int);
        lemma_lex_skip(b@, a@, k as int);
    }
    if la == lb {
        assert(a@ =~= a@.take(k as int));
        assert(b@ =~= b@.take(k as int));
        TextOrder::Same
    } else if la < lb {
        assert(a@.skip(k as int).len() == 0);
        proof {
            if a@ == b@ {
                assert(a@.len() == b@.len());
            }
        }
        TextOrder::Before
    } else {
        assert(b@.skip(k as int).len() == 0);
        proof {
            if a@ == b@ {
                assert(a@.len() == b@.len());
            }
        }
        TextOrder::After
    }
}

/// Identifiers strictly increasing.
pub open spec fn strictly_sorted(ids: Seq<Seq<char>>) -> bool {
    forall|i: int, j: int| 0 <= i < j < ids.len() ==> lex_less(#[trigger] ids[i], #[trigger] ids[j])
}

/// The views of a sequence of strings.
pub open spec fn texts(v: Seq<String>) -> Seq<Seq<char>> {
    Seq::new(v.len(), |i: int| v[i]@)
}

/// Where `id` belongs in the increasing `ids`: the position of the first
/// identifier not below it, and whether that identifier is `id` itself.
fn insertion_point(ids: &Vec<String>, id: &str) -> (r: (usize, bool))
    ensures
        r.0 <= ids@.len(),
        forall|j: int| 0 <= j < r.0 ==> lex_less(#[trigger] texts(ids@)[j], id@),
        r.1 ==> r.0 < ids@.len() && texts(ids@)[r.0 as int] == id@,
        !r.1 && r.0 < ids@.len() ==> lex_less(id@, texts(ids@)[r.0 as int]),
{
    let mut p: usize = 0;
    while p < ids.len()
        invariant
            p <= ids@.len(),
            forall|j: int| 0 <= j < p ==> lex_less(#[trigger] texts(ids@)[j], id@),
        decreases ids@.len() - p,
    {
        match compare_text(ids[p].as_str(), id) {
            TextOrder::Before => {},
            TextOrder::Same => {
                return (p, true);
            },
            TextOrder::After => {
                return (p, false);
            },
        }
        p = p + 1;
    }
    (p, false)
}

/// Decision identifiers mapped to loader keys, kept in identifier order: a
/// sorted pair of vectors in the place of a `BTreeMap<String, String>`, whose
/// operations on `String` keys vstd gives no contract over the keys' text,
/// so that nothing could be proved of a lookup.
pub struct DecisionIndex {
    ids: Vec<String>,
    keys: Vec<String>,
    map: Ghost<Map<Seq<char>, Seq<char>>>,
}

impl DecisionIndex {
    /// The identifiers are strictly increasing, each maps to the key at its
    /// position, and the map holds nothing else.
    #[verifier::type_invariant]
    spec fn well_formed(self) -> bool {
        &&& self.ids@.len() == self.keys@.len()
        &&& strictly_sorted(texts(self.ids@))
        &&& forall|i: int|
            0 <= i < self.ids@.len() ==> #[trigger] self.map@.contains_key(self.ids@[i]@)
                && self.map@[self.ids@[i]@] == self.keys@[i]@
        &&& forall|k: Seq<char>| #[trigger]
            self.map@.contains_key(k) ==> exists|i: int| 0 <= i < self.ids@.len() && self.ids@[i]@ == k
        &&& self.map@.dom().finite()
        &&& self.map@.dom().len() == self.ids@.len()
    }

    /// An empty index.
    pub fn new() -> (r: DecisionIndex)
        ensures
            r@ == Map::<Seq<char>, Seq<char>>::empty(),
    {
        DecisionIndex { ids: Vec::new(), keys: Vec::new(), map: Ghost(Map::empty()) }
    }

    /// The number of decisions.
    pub fn len(&self) -> (r: usize)
        ensures
            r == self@.len(),
    {
        proof {
            use_type_invariant(self);
        }
        self.ids.len()
    }

    /// The position of `id` among the identifiers, if it is one.
    #[verifier::loop_isolation(false)]
    fn position(&self, id: &str) -> (r: Option<usize>)
        ensures
            match r {
                Some(p) => p < self.ids@.len() && self.ids@[p as int]@ == id@,
                None => !self@.contains_key(id@),
            },
    {
        proof {
            use_type_invariant(self);
        }
        let mut i: usize = 0;
        while i < self.ids.len()
            invariant
                i <= self.ids@.len(),
                forall|j: int| 0 <= j < i ==> self.ids@[j]@ != id@,
            decreases self.ids@.len() - i,
        {
            match compare_text(self.ids[i].as_str(), id) {
                TextOrder::Same => {
                    return Some(i);
                },
                _ => {},
            }
            i = i + 1;
        }
        proof {
            if self@.contains_key(id@) {
                let j = choose|j: int| 0 <= j < self.ids@.len() && self.ids@[j]@ == id@;
                assert(self.ids@[j]@ != id@);
            }
        }
        None
    }

    /// Whether `id` names a decision.
    pub fn contains_id(&self, id: &str) -> (r: bool)
        ensures
            r == self@.contains_key(id@),
    {
        proof {
            use_type_invariant(self);
        }
        match self.position(id) {
            Some(p) => {
                assert(self@.contains_key(self.ids@[p as int]@));
                true
            },
            None => false,
        }
    }

    /// The loader key of decision `id`.
    pub fn get(&self, id: &str) -> (r: Option<String>)
        ensures
            r is Some <==> self@.contains_key(id@),
            r is Some ==> r->0@ == self@[id@],
    {
        proof {
            use_type_invariant(self);
        }
        match self.position(id) {
            Some(p) => {
                assert(self@.contains_key(self.ids@[p as int]@));
                Some(self.keys[p].clone())
            },
            None => None,
        }
    }

    /// The identifier of a decision whose loader key is `key`, if any.
    #[verifier::loop_isolation(false)]
    pub fn id_for_key(&self, key: &str) -> (r: Option<String>)
        ensures
            r is Some ==> self@.contains_key(r->0@) && self@[r->0@] == key@,
            r is None ==> forall|k: Seq<char>| #[trigger] self@.contains_key(k) ==> self@[k] != key@,
    {
        proof {
            use_type_invariant(self);
        }
        let mut i: usize = 0;
        while i < self.keys.len()
            invariant
                i <= self.keys@.len(),
                self.keys@.len() == self.ids@.len(),
                forall|j: int| 0 <= j < i ==> self.keys@[j]@ != key@,
            decreases self.keys@.len() - i,
        {
            match compare_text(self.keys[i].as_str(), key) {
                TextOrder::Same => {
                    assert(self@.contains_key(self.ids@[i as int]@));
                    return Some(self.ids[i].clone());
                },
                _ => {},
            }
            i = i + 1;
        }
        proof {
            assert forall|k: Seq<char>| #[trigger] self@.contains_key(k) implies self@[k] != key@ by {
                let j = choose|j: int| 0 <= j < self.ids@.len() && self.ids@[j]@ == k;
                assert(self@.contains_key(self.ids@[j]@));
            }
        }
        None
    }

    /// The identifiers, in increasing order, each once.
    #[verifier::loop_isolation(false)]
    pub fn ids(&self) -> (r: Vec<String>)
        ensures
            strictly_sorted(texts(r@)),
            forall|k: Seq<char>| self@.contains_key(k) <==> texts(r@).contains(k),
            r@.len() == self@.len(),
    {
        proof {
            use_type_invariant(self);
        }
        let mut out: Vec<String> = Vec::new();
        let mut i: usize = 0;
        while i < self.ids.len()
            invariant
                i <= self.ids@.len(),
                texts(out@) == texts(self.ids@).take(i as int),
            decreases self.ids@.len() - i,
        {
            out.push(self.ids[i].clone());
            assert(texts(out@) =~= texts(self.ids@).take(i + 1));
            i = i + 1;
        }
        assert(texts(out@) =~= texts(self.ids@));
        proof {
            assert forall|k: Seq<char>| self@.contains_key(k) <==> texts(out@).contains(k) by {
                if self@.contains_key(k) {
                    let j = choose|j: int| 0 <= j < self.ids@.len() && self.ids@[j]@ == k;
                    assert(texts(out@)[j] == k);
                }
                if texts(out@).contains(k) {
                    let j = choose|j: int| 0 <= j < texts(out@).len() && texts(out@)[j] == k;
                    assert(self@.contains_key(self.ids@[j]@));
                }
            }
        }
        out
    }

    /// Maps `id` to `key`, replacing what `id` mapped to before.
    pub fn insert(&mut self, id: String, key: String)
        ensures
            final(self)@ == old(self)@.insert(id@, key@),
    {
        proof {
            use_type_invariant(&*self);
        }
        let ghost old_map = self.map@;
        let mut taken = DecisionIndex::new();
        std::mem::swap(self, &mut taken);
        proof {
            use_type_invariant(&taken);
        }
        let DecisionIndex { ids: mut ids, keys: mut keys, map } = taken;
        let ghost old_vec = ids@;
        let ghost old_ids = texts(ids@);
        let ghost old_keys = texts(keys@);
        assert(map@ == old_map);
        let (p, found) = insertion_point(&ids, id.as_str());
        let ghost new_map = map@.insert(id@, key@);
        if found {
            assert(old_ids[p as int] == id@);
            keys.set(p, key);
            assert(texts(keys@) =~= old_keys.update(p as int, key@));
            assert(new_map.dom() =~= map@.dom());
            proof {
                assert forall|i: int| 0 <= i < old_ids.len() && i != p implies #[trigger] old_ids[i]
                    != id@ by {
                    lemma_lex_irreflexive(id@);
                    if i < p {
                        assert(lex_less(old_ids[i], old_ids[p as int]));
                    } else {
                        assert(lex_less(old_ids[p as int], old_ids[i]));
                    }
                }
                assert forall|i: int| 0 <= i < ids@.len() implies #[trigger] new_map.contains_key(
                    ids@[i]@,
                ) && new_map[ids@[i]@] == keys@[i]@ by {
                    assert(texts(ids@)[i] == ids@[i]@);
                    assert(texts(keys@)[i] == keys@[i]@);
                    if i != p {
                        assert(old_ids[i] != id@);
                        assert(map@.contains_key(old_ids[i]));
                    }
                }
            }
            let rebuilt = DecisionIndex { ids, keys, map: Ghost(new_map) };
            *self = rebuilt;
        } else {
            proof {
                assert forall|j: int| p <= j < old_ids.len() implies lex_less(id@, #[trigger] old_ids[j]) by {
                    if j > p {
                        lemma_lex_transitive(id@, old_ids[p as int], old_ids[j]);
                    }
                }
                lemma_lex_irreflexive(id@);
                assert(!map@.contains_key(id@)) by {
                    if map@.contains_key(id@) {
                        let j = choose|j: int| 0 <= j < ids@.len() && ids@[j]@ == id@;
                        assert(old_ids[j] == id@);
                    }
                }
            }
            let ghost id_view = id@;
            ids.insert(p, id);
            keys.insert(p, key);
            assert(texts(ids@) =~= old_ids.insert(p as int, id_view));
            assert(texts(keys@) =~= old_keys.insert(p as int, key@));
            proof {
                let nids = texts(ids@);
                assert forall|i: int, j: int| 0 <= i < j < nids.len() implies lex_less(
                    #[trigger] nids[i],
                    #[trigger] nids[j],
                ) by {
                    if j < p {
                        assert(lex_less(old_ids[i], old_ids[j]));
                    } else if j == p {
                    } else if i < p {
                        assert(lex_less(old_ids[i], id@));
                        assert(lex_less(id@, old_ids[j - 1]));
                        lemma_lex_transitive(old_ids[i], id@, old_ids[j - 1]);
                    } else if i == p {
                    } else {
                        assert(lex_less(old_ids[i - 1], old_ids[j - 1]));
                    }
                }
                assert forall|i: int| 0 <= i < ids@.len() implies #[trigger] new_map.contains_key(
                    ids@[i]@,
                ) && new_map[ids@[i]@] == keys@[i]@ by {
                    assert(nids[i] == ids@[i]@);
                    assert(texts(keys@)[i] == keys@[i]@);
                    if i < p {
                        assert(map@.contains_key(old_ids[i]));
                        assert(old_ids[i] != id@);
                    } else if i > p {
                        assert(map@.contains_key(old_ids[i - 1]));
                        assert(old_ids[i - 1] != id@);
                    }
                }
                assert forall|k: Seq<char>| #[trigger] new_map.contains_key(k) implies exists|i: int|
                    0 <= i < ids@.len() && ids@[i]@ == k by {
                    if k == id@ {
                        assert(nids[p as int] == k);
                    } else {
                        assert(map@.contains_key(k));
                        let j = choose|j: int| 0 <= j < old_vec.len() && old_vec[j]@ == k;
                        assert(old_ids[j] == k);
                        if j < p {
                            assert(nids[j] == k);
                        } else {
                            assert(nids[j + 1] == k);
                        }
                    }
                }
            }
            let rebuilt = DecisionIndex { ids, keys, map: Ghost(new_map) };
            *self = rebuilt;
        }
    }
}

impl View for DecisionIndex {
    type V = Map<Seq<char>, Seq<char>>;

    closed spec fn view(&self) -> Map<Seq<char>, Seq<char>> {
        self.map@
    }
}

} // verus!
