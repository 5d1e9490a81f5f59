//! The compiled decision registry, and the transactional load that builds
//! one from the model files of a workspace.

use std::sync::Arc;
use vstd::prelude::*;
use zen_engine::loader::MemoryLoader;
use crate::clock::now_unix_ms;
use crate::diagnostics::{copy_diagnostic, push_diagnostic, Diagnostic, RegistryLoadError, MAX_DIAGNOSTICS};
use crate::engine::{memory_loader_add, new_memory_loader, parse_jdm, stored_keys};
use crate::index::DecisionIndex;
use crate::paths::{decision_identity, PathComponent};

verus! {

/// A set of compiled decisions (or, when invalid, the reasons it is not):
/// the model store that evaluation resolves decisions through, the index
/// from decision identifier to loader key, the diagnostics of a refused load,
/// the load generation and when it was loaded.
pub struct Registry {
    loader: Option<Arc<MemoryLoader>>,
    decision_keys: DecisionIndex,
    diagnostics: Vec<Diagnostic>,
    generation: u64,
    loaded_at_unix_ms: u128,
}

impl Registry {
    /// The model store holds a model under the loader key of each decision,
    /// and under no other key; every decision identifier is well-formed; at
    /// most `MAX_DIAGNOSTICS` diagnostics are held.
    #[verifier::type_invariant]
    spec fn store_matches_index(self) -> bool {
        &&& self.loader matches Some(l) ==> stored_keys(*l) == self.decision_keys@.values()
        &&& forall|id: Seq<char>| #[trigger]
            self.decision_keys@.contains_key(id) ==> crate::ident::spec_valid_decision_id(id)
        &&& self.diagnostics@.len() <= MAX_DIAGNOSTICS
    }

    /// The registry holds compiled models to evaluate.
    pub closed spec fn has_engine(&self) -> bool {
        self.loader is Some
    }

    /// Decision identifier to loader key.
    pub closed spec fn keys(&self) -> Map<Seq<char>, Seq<char>> {
        self.decision_keys@
    }

    /// Why the registry is invalid (empty for a loaded one).
    pub closed spec fn diags(&self) -> Seq<crate::diagnostics::DiagnosticView> {
        crate::diagnostics::diagnostics_view(self.diagnostics@)
    }

    /// The loader keys under which the registry's store holds a model
    /// (none without a store).
    pub closed spec fn stored(&self) -> Set<Seq<char>> {
        match self.loader {
            Some(l) => stored_keys(*l),
            None => Set::empty(),
        }
    }

    /// The load time, in milliseconds since the Unix epoch.
    pub closed spec fn loaded_at(&self) -> u128 {
        self.loaded_at_unix_ms
    }

    /// The load generation.
    pub closed spec fn spec_generation(&self) -> u64 {
        self.generation
    }

    /// A registry is ready when it has compiled models and no diagnostics.
    pub open spec fn ready(&self) -> bool {
        self.has_engine() && self.diags().len() == 0
    }

    /// The registry that stands for a refused load: nothing to evaluate,
    /// generation 0, the refusal's diagnostics, and the clock's timestamp.
    /// The refusal holds at most `MAX_DIAGNOSTICS` diagnostics, as every
    /// refusal that a scan or a load produces does.
    pub fn invalid(error: RegistryLoadError) -> (r: Registry)
        requires
            error.diagnostics@.len() <= MAX_DIAGNOSTICS,
        ensures
            !r.has_engine(),
            r.keys() == Map::<Seq<char>, Seq<char>>::empty(),
            r.diags() == crate::diagnostics::diagnostics_view(error.diagnostics@),
            r.spec_generation() == 0,
            exists|reading: Option<(u64, u32)>|
                crate::clock::valid_reading(reading) && r.loaded_at()
                    == #[trigger] crate::clock::spec_unix_ms(reading),
    {
        Registry {
            loader: None,
            decision_keys: DecisionIndex::new(),
            diagnostics: error.diagnostics,
            generation: 0,
            loaded_at_unix_ms: now_unix_ms(),
        }
    }

    /// Whether the registry can serve evaluations.
    pub fn is_ready(&self) -> (r: bool)
        ensures
            r == self.ready(),
    {
        self.loader.is_some() && self.diagnostics.len() == 0
    }

    /// How many decisions the registry holds.
    pub fn decision_count(&self) -> (r: usize)
        ensures
            r == self.keys().len(),
    {
        self.decision_keys.len()
    }

    /// The decision identifiers, in increasing order, each once; each is a
    /// well-formed identifier.
    pub fn decision_ids(&self) -> (r: Vec<String>)
        ensures
            crate::index::strictly_sorted(crate::index::texts(r@)),
            forall|k: Seq<char>| self.keys().contains_key(k) <==> crate::index::texts(r@).contains(k),
            forall|i: int|
                0 <= i < r@.len() ==> crate::ident::spec_valid_decision_id(#[trigger] r@[i]@),
    {
        proof {
            use_type_invariant(self);
        }
        let r = self.decision_keys.ids();
        proof {
            assert forall|i: int| 0 <= i < r@.len() implies crate::ident::spec_valid_decision_id(
                #[trigger] r@[i]@,
            ) by {
                assert(crate::index::texts(r@)[i] == r@[i]@);
                assert(crate::index::texts(r@).contains(r@[i]@));
                assert(self.keys().contains_key(r@[i]@));
            }
        }
        r
    }

    /// The loader key of decision `id`, if the registry holds it.
    pub fn key_for(&self, id: &str) -> (r: Option<String>)
        ensures
            r is Some <==> self.keys().contains_key(id@),
            r is Some ==> r->0@ == self.keys()[id@],
    {
        self.decision_keys.get(id)
    }

    /// The model store to evaluate through, when there is one: it holds a
    /// model under exactly the loader keys of the registry's decisions.
    pub fn loader(&self) -> (r: Option<Arc<MemoryLoader>>)
        ensures
            r is Some <==> self.has_engine(),
            r matches Some(l) ==> stored_keys(*l) == self.keys().values(),
    {
        proof {
            use_type_invariant(self);
        }
        match &self.loader {
            Some(l) => Some(l.clone()),
            None => None,
        }
    }

    /// The load generation.
    pub fn generation(&self) -> (r: u64)
        ensures
            r == self.spec_generation(),
    {
        self.generation
    }

    /// When the registry was loaded, in milliseconds since the Unix epoch.
    pub fn loaded_at_unix_ms(&self) -> (r: u128)
        ensures
            r == self.loaded_at(),
    {
        self.loaded_at_unix_ms
    }

    /// The diagnostics of a refused load.
    pub fn diagnostics(&self) -> (r: Vec<Diagnostic>)
        ensures
            crate::diagnostics::diagnostics_view(r@) == self.diags(),
            r@.len() <= MAX_DIAGNOSTICS,
    {
        proof {
            use_type_invariant(self);
        }
        let mut out: Vec<Diagnostic> = Vec::new();
        let mut i: usize = 0;
        while i < self.diagnostics.len()
            invariant
                i <= self.diagnostics@.len(),
                crate::diagnostics::diagnostics_view(out@) == crate::diagnostics::diagnostics_view(
                    self.diagnostics@,
                ).take(i as int),
            decreases self.diagnostics@.len() - i,
        {
            let ghost before = out@;
            let d = copy_diagnostic(&self.diagnostics[i]);
            out.push(d);
            assert(out@ == before.push(d));
            assert(crate::diagnostics::diagnostics_view(before).len() == i);
            assert(crate::diagnostics::diagnostics_view(out@) =~= crate::diagnostics::diagnostics_view(
                self.diagnostics@,
            ).take(i + 1));
            i = i + 1;
        }
        assert(crate::diagnostics::diagnostics_view(self.diagnostics@).take(
            self.diagnostics@.len() as int,
        ) =~= crate::diagnostics::diagnostics_view(self.diagnostics@));
        out
    }
}

/// A registry being loaded: models are admitted one file at a time, away
/// from the live registry, and `finish` either yields the new registry or
/// refuses the whole set.
pub struct RegistryLoad {
    loader: MemoryLoader,
    decision_keys: DecisionIndex,
    diagnostics: Vec<Diagnostic>,
    invalid_graph_keys: Vec<String>,
}

/// The diagnostic code of a duplicate decision identifier.
pub open spec fn code_duplicate() -> Seq<char> {
    "duplicate_decision_id"@
}

/// The diagnostic code of a model file that could not be read.
pub open spec fn code_read_failed() -> Seq<char> {
    "model_read_failed"@
}

/// The diagnostic code of a file that is not a JDM model.
pub open spec fn code_invalid_jdm() -> Seq<char> {
    "invalid_jdm"@
}

/// The diagnostic code of a model whose decision graph does not compile.
pub open spec fn code_compile_failed() -> Seq<char> {
    "compile_failed"@
}

/// Some identifier maps to `key`.
pub open spec fn key_is_mapped(keys: Map<Seq<char>, Seq<char>>, key: Seq<char>) -> bool {
    exists|id: Seq<char>| #[trigger] keys.contains_key(id) && keys[id] == key
}

impl RegistryLoad {
    /// The store holds a model under exactly the keys of the admitted
    /// decisions, every admitted identifier is well-formed, at most
    /// `MAX_DIAGNOSTICS` diagnostics are held, and every remembered graph
    /// failure is the key of an
    /// admitted decision.
    pub closed spec fn well_formed(&self) -> bool {
        &&& stored_keys(self.loader) == self.decision_keys@.values()
        &&& crate::diagnostics::diagnostics_view(self.diagnostics@).len() <= MAX_DIAGNOSTICS
        &&& forall|id: Seq<char>| #[trigger]
            self.decision_keys@.contains_key(id) ==> crate::ident::spec_valid_decision_id(id)
        &&& forall|i: int|
            0 <= i < self.invalid_graph_keys@.len() ==> key_is_mapped(
                self.decision_keys@,
                #[trigger] self.invalid_graph_keys@[i]@,
            )
    }

    /// A load that changed only its diagnostics, keeping them within the
    /// bound, stays well-formed.
    proof fn lemma_well_formed_frame(&self, before: &RegistryLoad)
        requires
            before.well_formed(),
            self.loader == before.loader,
            self.decision_keys@ == before.decision_keys@,
            self.invalid_graph_keys@ == before.invalid_graph_keys@,
            crate::diagnostics::diagnostics_view(self.diagnostics@).len() <= MAX_DIAGNOSTICS,
        ensures
            self.well_formed(),
    {
    }

    /// The decisions admitted so far: identifier to loader key.
    pub closed spec fn keys(&self) -> Map<Seq<char>, Seq<char>> {
        self.decision_keys@
    }

    /// The diagnostics recorded so far.
    pub closed spec fn diags(&self) -> Seq<crate::diagnostics::DiagnosticView> {
        crate::diagnostics::diagnostics_view(self.diagnostics@)
    }

    /// The loader keys of admitted models whose graph did not validate, in
    /// the order they were admitted.
    pub closed spec fn graph_failures(&self) -> Seq<Seq<char>> {
        crate::index::texts(self.invalid_graph_keys@)
    }

    /// An empty load.
    pub fn new() -> (r: RegistryLoad)
        ensures
            r.well_formed(),
            r.keys() == Map::<Seq<char>, Seq<char>>::empty(),
            r.diags() == Seq::<crate::diagnostics::DiagnosticView>::empty(),
            r.graph_failures() == Seq::<Seq<char>>::empty(),
    {
        let r = RegistryLoad {
            loader: new_memory_loader(),
            decision_keys: DecisionIndex::new(),
            diagnostics: Vec::new(),
            invalid_graph_keys: Vec::new(),
        };
        assert(crate::diagnostics::diagnostics_view(r.diagnostics@) =~= Seq::empty());
        assert(r.decision_keys@.values() =~= Set::empty());
        assert(crate::index::texts(r.invalid_graph_keys@) =~= Seq::empty());
        r
    }

    /// Decides whether the model file at `path` (in the workspace rooted at
    /// `root`) is to be read: it is when it has a valid identity whose
    /// identifier is not admitted yet, and then `(identifier, loader key)`
    /// is returned. Otherwise a diagnostic records why: the identity's
    /// refusal code, or `duplicate_decision_id` for that identifier.
    pub fn accept_path(&mut self, root: &Vec<PathComponent>, path: &Vec<PathComponent>) -> (r: Option<
        (String, String),
    >)
        requires
            old(self).well_formed(),
        ensures
            final(self).well_formed(),
            final(self).keys() == old(self).keys(),
            final(self).graph_failures() == old(self).graph_failures(),
            match crate::paths::spec_decision_identity(
                crate::paths::path_view(root@),
                crate::paths::path_view(path@),
            ) {
                Err(code) => r is None && final(self).diags()
                    == crate::diagnostics::spec_push_diagnostic(old(self).diags(), None, code),
                Ok((id, key)) => if old(self).keys().contains_key(id) {
                    r is None && final(self).diags() == crate::diagnostics::spec_push_diagnostic(
                        old(self).diags(),
                        Some(id),
                        code_duplicate(),
                    )
                } else {
                    r is Some && (r->0).0@ == id && (r->0).1@ == key && final(self).diags() == old(
                        self,
                    ).diags()
                },
            },
            r matches Some(x) ==> crate::ident::spec_valid_decision_id(x.0@),
    {
        match decision_identity(root, path) {
            Err(code) => {
                push_diagnostic(&mut self.diagnostics, None, code);
                proof {
                    self.lemma_well_formed_frame(old(self));
                }
                None
            },
            Ok((id, key)) => {
                proof {
                    crate::paths::lemma_identity_is_valid_id(
                        crate::paths::path_view(root@),
                        crate::paths::path_view(path@),
                    );
                }
                if self.decision_keys.contains_id(id.as_str()) {
                    push_diagnostic(&mut self.diagnostics, Some(id), "duplicate_decision_id");
                    proof {
                        self.lemma_well_formed_frame(old(self));
                    }
                    None
                } else {
                    Some((id, key))
                }
            },
        }
    }

    /// Takes in the contents of an admitted model file (`None` when it could
    /// not be read). A read failure records `model_read_failed` and a file
    /// that is not a JDM model records `invalid_jdm`; otherwise the model is
    /// stored under its key, the identifier is indexed, and a model whose
    /// graph is not well-formed (`jdm_graph_valid`) is remembered for
    /// `finish`, which then refuses the workspace.
    pub fn add_model(&mut self, id: String, key: String, bytes: Option<Vec<u8>>)
        requires
            old(self).well_formed(),
            !old(self).keys().contains_key(id@),
            crate::ident::spec_valid_decision_id(id@),
        ensures
            final(self).well_formed(),
            match bytes {
                None => final(self).keys() == old(self).keys() && final(self).graph_failures() == old(
                    self,
                ).graph_failures() && final(self).diags() == crate::diagnostics::spec_push_diagnostic(
                    old(self).diags(),
                    Some(id@),
                    code_read_failed(),
                ),
                Some(b) => if !crate::engine::jdm_parses(b@) {
                    final(self).keys() == old(self).keys() && final(self).graph_failures() == old(
                        self,
                    ).graph_failures() && final(self).diags()
                        == crate::diagnostics::spec_push_diagnostic(
                        old(self).diags(),
                        Some(id@),
                        code_invalid_jdm(),
                    )
                } else {
                    &&& final(self).keys() == old(self).keys().insert(id@, key@)
                    &&& final(self).diags() == old(self).diags()
                    &&& final(self).graph_failures() == if crate::engine::jdm_graph_valid(b@) {
                        old(self).graph_failures()
                    } else {
                        old(self).graph_failures().push(key@)
                    }
                },
            },
    {
        match bytes {
            None => {
                push_diagnostic(&mut self.diagnostics, Some(id), "model_read_failed");
                proof {
                    self.lemma_well_formed_frame(old(self));
                }
            },
            Some(b) => {
                match parse_jdm(b.as_slice()) {
                    Err(_) => {
                        push_diagnostic(&mut self.diagnostics, Some(id), "invalid_jdm");
                        proof {
                            self.lemma_well_formed_frame(old(self));
                        }
                    },
                    Ok(model) => {
                        let valid = model.graph_valid;
                        let content = model.content;
                        memory_loader_add(&mut self.loader, key.clone(), content);
                        let ghost old_keys = self.decision_keys@;
                        let ghost old_failures = self.invalid_graph_keys@;
                        let ghost id_view = id@;
                        let ghost key_view = key@;
                        if !valid {
                            self.invalid_graph_keys.push(key.clone());
                        }
                        self.decision_keys.insert(id, key);
                        proof {
                            lemma_values_after_insert(old_keys, id_view, key_view);
                            assert forall|i: int|
                                0 <= i < self.invalid_graph_keys@.len() implies key_is_mapped(
                                self.decision_keys@,
                                #[trigger] self.invalid_graph_keys@[i]@,
                            ) by {
                                if i < old_failures.len() {
                                    assert(key_is_mapped(old_keys, old_failures[i]@));
                                    let x = choose|x: Seq<char>|
                                        #[trigger] old_keys.contains_key(x) && old_keys[x]
                                            == old_failures[i]@;
                                    assert(x != id_view);
                                    assert(self.decision_keys@.contains_key(x));
                                } else {
                                    assert(self.decision_keys@.contains_key(id_view));
                                }
                            }
                            if valid {
                                assert(crate::index::texts(self.invalid_graph_keys@) =~= crate::index::texts(
                                    old_failures,
                                ));
                            } else {
                                assert(crate::index::texts(self.invalid_graph_keys@) =~= crate::index::texts(
                                    old_failures,
                                ).push(key_view));
                            }
                        }
                    },
                }
            },
        }
    }

    /// Ends the load. Diagnostics recorded while admitting refuse the whole
    /// set with those diagnostics. Otherwise, models whose graph does not
    /// validate refuse it with one `compile_failed` diagnostic each (at most
    /// `MAX_DIAGNOSTICS`), naming the decision. Otherwise the new registry
    /// holds every admitted decision, has no diagnostics, carries
    /// `generation`, and is ready.
    #[verifier::spinoff_prover]
    pub fn finish(self, generation: u64) -> (r: Result<Registry, RegistryLoadError>)
        requires
            self.well_formed(),
        ensures
            r is Ok <==> self.diags().len() == 0 && self.graph_failures().len() == 0,
            r matches Ok(reg) ==> reg.has_engine() && reg.keys() == self.keys() && reg.diags().len()
                == 0 && reg.spec_generation() == generation && reg.ready() && reg.stored()
                == self.keys().values(),
            r matches Ok(reg) ==> exists|reading: Option<(u64, u32)>|
                crate::clock::valid_reading(reading) && reg.loaded_at()
                    == #[trigger] crate::clock::spec_unix_ms(reading),
            r matches Err(e) ==> e.diagnostics@.len() <= MAX_DIAGNOSTICS,
            r matches Err(e) ==> (if self.diags().len() > 0 {
                crate::diagnostics::diagnostics_view(e.diagnostics@) == self.diags()
            } else {
                compile_failure_diagnostics(
                    self.keys(),
                    self.graph_failures(),
                    crate::diagnostics::diagnostics_view(e.diagnostics@),
                )
            }),
    {
        if self.diagnostics.len() > 0 {
            return Err(RegistryLoadError { diagnostics: self.diagnostics });
        }
        if self.invalid_graph_keys.len() > 0 {
            let mut diagnostics: Vec<Diagnostic> = Vec::new();
            let n = if self.invalid_graph_keys.len() < MAX_DIAGNOSTICS {
                self.invalid_graph_keys.len()
            } else {
                MAX_DIAGNOSTICS
            };
            let mut i: usize = 0;
            while i < n
                invariant
                    forall|j: int|
                        0 <= j < self.invalid_graph_keys@.len() ==> key_is_mapped(
                            self.decision_keys@,
                            #[trigger] self.invalid_graph_keys@[j]@,
                        ),
                    n <= self.invalid_graph_keys@.len(),
                    n <= MAX_DIAGNOSTICS,
                    i <= n,
                    diagnostics@.len() == i,
                    forall|j: int|
                        0 <= j < i ==> (#[trigger] diagnostics@[j]@.code == code_compile_failed()
                            && (diagnostics@[j]@.decision_id matches Some(x) && self.decision_keys@.contains_key(x)
                            && self.decision_keys@[x] == self.invalid_graph_keys@[j]@)),
                decreases n - i,
            {
                let ghost k = self.invalid_graph_keys@[i as int]@;
                assert(key_is_mapped(self.decision_keys@, k));
                let decision_id = self.decision_keys.id_for_key(self.invalid_graph_keys[i].as_str());
                proof {
                    if decision_id is None {
                        let x = choose|x: Seq<char>|
                            #[trigger] self.decision_keys@.contains_key(x) && self.decision_keys@[x] == k;
                        assert(self.decision_keys@[x] != k);
                    }
                }
                proof {
                    reveal_strlit("compile_failed");
                }
                diagnostics.push(Diagnostic { decision_id, code: "compile_failed".to_owned() });
                i = i + 1;
            }
            proof {
                let dv = crate::diagnostics::diagnostics_view(diagnostics@);
                assert(self.graph_failures().len() == self.invalid_graph_keys@.len());
                assert(self.diags().len() == 0);
                assert forall|j: int| 0 <= j < dv.len() implies (#[trigger] dv[j].code
                    == code_compile_failed() && (dv[j].decision_id matches Some(x)
                    && self.keys().contains_key(x) && self.keys()[x] == self.graph_failures()[j])) by {
                    assert(dv[j] == diagnostics@[j]@);
                    assert(diagnostics@[j]@.code == code_compile_failed());
                    assert(self.graph_failures()[j] == self.invalid_graph_keys@[j]@);
                }
                assert(dv.len() == n);
                assert(compile_failure_diagnostics(self.keys(), self.graph_failures(), dv));
            }
            return Err(RegistryLoadError { diagnostics });
        }
        Ok(
            Registry {
                loader: Some(Arc::new(self.loader)),
                decision_keys: self.decision_keys,
                diagnostics: Vec::new(),
                generation,
                loaded_at_unix_ms: now_unix_ms(),
            },
        )
    }
}

/// Mapping a new identifier adds its key to the map's values.
proof fn lemma_values_after_insert(m: Map<Seq<char>, Seq<char>>, id: Seq<char>, key: Seq<char>)
    requires
        !m.contains_key(id),
    ensures
        m.insert(id, key).values() == m.values().insert(key),
{
    let n = m.insert(id, key);
    assert forall|v: Seq<char>| #[trigger] n.values().contains(v) == m.values().insert(key).contains(v) by {
        if m.values().contains(v) {
            let k = choose|k: Seq<char>| #[trigger] m.contains_key(k) && m[k] == v;
            assert(n.contains_key(k) && n[k] == v);
        }
        if v == key {
            assert(n.contains_key(id) && n[id] == v);
        }
        if n.values().contains(v) {
            let k = choose|k: Seq<char>| #[trigger] n.contains_key(k) && n[k] == v;
            if k != id {
                assert(m.contains_key(k) && m[k] == v);
            }
        }
    }
    assert(n.values() =~= m.values().insert(key));
}

/// The diagnostics of graphs that do not compile: one per failure, at most
/// `MAX_DIAGNOSTICS`, in order, each `compile_failed` and naming a decision
/// whose loader key is the failing key.
pub open spec fn compile_failure_diagnostics(
    keys: Map<Seq<char>, Seq<char>>,
    failures: Seq<Seq<char>>,
    diags: Seq<crate::diagnostics::DiagnosticView>,
) -> bool {
    &&& diags.len() == (if failures.len() < MAX_DIAGNOSTICS {
        failures.len()
    } else {
        MAX_DIAGNOSTICS as nat
    })
    &&& forall|j: int|
        0 <= j < diags.len() ==> (#[trigger] diags[j].code == code_compile_failed() && (
        diags[j].decision_id matches Some(x) && keys.contains_key(x) && keys[x] == failures[j]))
}

/// What a load has gathered: identifier to loader key, the diagnostics and
/// the keys of models whose graph is not well-formed.
pub type LoadState = (Map<Seq<char>, Seq<char>>, Seq<crate::diagnostics::DiagnosticView>, Seq<Seq<char>>);

/// The load after offering the model file at `path` with its contents
/// `bytes` (`None` when unreadable): `accept_path`, then, for an accepted
/// path, `add_model`.
pub open spec fn spec_admit(
    st: LoadState,
    root: Seq<crate::paths::ComponentView>,
    path: Seq<crate::paths::ComponentView>,
    bytes: Option<Seq<u8>>,
) -> LoadState {
    match crate::paths::spec_decision_identity(root, path) {
        Err(code) => (st.0, crate::diagnostics::spec_push_diagnostic(st.1, None, code), st.2),
        Ok((id, key)) => if st.0.contains_key(id) {
            (st.0, crate::diagnostics::spec_push_diagnostic(st.1, Some(id), code_duplicate()), st.2)
        } else {
            match bytes {
                None => (
                    st.0,
                    crate::diagnostics::spec_push_diagnostic(st.1, Some(id), code_read_failed()),
                    st.2,
                ),
                Some(b) => if !crate::engine::jdm_parses(b) {
                    (
                        st.0,
                        crate::diagnostics::spec_push_diagnostic(st.1, Some(id), code_invalid_jdm()),
                        st.2,
                    )
                } else {
                    (
                        st.0.insert(id, key),
                        st.1,
                        if crate::engine::jdm_graph_valid(b) {
                            st.2
                        } else {
                            st.2.push(key)
                        },
                    )
                },
            }
        },
    }
}

/// The load after offering each of `files` in turn.
pub open spec fn spec_load(
    st: LoadState,
    root: Seq<crate::paths::ComponentView>,
    files: Seq<(Seq<crate::paths::ComponentView>, Option<Seq<u8>>)>,
) -> LoadState
    decreases files.len(),
{
    if files.len() == 0 {
        st
    } else {
        spec_load(spec_admit(st, root, files[0].0, files[0].1), root, files.skip(1))
    }
}

/// `keys` with the identity of each of `files` added, in turn.
pub open spec fn with_identities(
    keys: Map<Seq<char>, Seq<char>>,
    root: Seq<crate::paths::ComponentView>,
    files: Seq<(Seq<crate::paths::ComponentView>, Option<Seq<u8>>)>,
) -> Map<Seq<char>, Seq<char>>
    decreases files.len(),
{
    if files.len() == 0 {
        keys
    } else {
        let id = crate::paths::spec_decision_identity(root, files[0].0)->Ok_0;
        with_identities(keys.insert(id.0, id.1), root, files.skip(1))
    }
}

/// Offering a file never removes a diagnostic or a graph failure.
proof fn lemma_load_keeps_refusals(
    st: LoadState,
    root: Seq<crate::paths::ComponentView>,
    files: Seq<(Seq<crate::paths::ComponentView>, Option<Seq<u8>>)>,
)
    ensures
        spec_load(st, root, files).1.len() >= st.1.len(),
        spec_load(st, root, files).2.len() >= st.2.len(),
    decreases files.len(),
{
    if files.len() > 0 {
        lemma_load_keeps_refusals(spec_admit(st, root, files[0].0, files[0].1), root, files.skip(1));
    }
}

/// A load that ends without diagnostics and without graph failures, as
/// one that `finish`es with a registry does, took in every file it was
/// offered: each has a valid identity whose identifier was not taken
/// before, was read, parses as a JDM model and has a well-formed graph; no
/// two share an identifier; and the registry maps exactly the identifiers
/// it had plus each file's identifier to that file's loader key.
pub proof fn lemma_clean_load_takes_every_file(
    st: LoadState,
    root: Seq<crate::paths::ComponentView>,
    files: Seq<(Seq<crate::paths::ComponentView>, Option<Seq<u8>>)>,
)
    ensures
        ({
            let end = spec_load(st, root, files);
            end.1.len() == 0 && end.2.len() == 0 ==> {
                &&& st.1.len() == 0 && st.2.len() == 0
                &&& forall|i: int|
                    0 <= i < files.len() ==> {
                        &&& crate::paths::spec_decision_identity(root, #[trigger] files[i].0) is Ok
                        &&& !st.0.contains_key(
                            (crate::paths::spec_decision_identity(root, files[i].0)->Ok_0).0,
                        )
                        &&& files[i].1 matches Some(b) && crate::engine::jdm_parses(b)
                            && crate::engine::jdm_graph_valid(b)
                    }
                &&& forall|i: int, j: int|
                    0 <= i < j < files.len() ==> (crate::paths::spec_decision_identity(
                        root,
                        #[trigger] files[i].0,
                    )->Ok_0).0 != (crate::paths::spec_decision_identity(
                        root,
                        #[trigger] files[j].0,
                    )->Ok_0).0
                &&& end.0 == with_identities(st.0, root, files)
            }
        }),
    decreases files.len(),
{
    if files.len() > 0 {
        let next = spec_admit(st, root, files[0].0, files[0].1);
        let rest = files.skip(1);
        lemma_load_keeps_refusals(next, root, rest);
        lemma_clean_load_takes_every_file(next, root, rest);
        let end = spec_load(st, root, files);
        if end.1.len() == 0 && end.2.len() == 0 {
            let id0 = crate::paths::spec_decision_identity(root, files[0].0)->Ok_0;
            assert(next.1.len() == 0 && next.2.len() == 0);
            assert(crate::paths::spec_decision_identity(root, files[0].0) is Ok);
            assert(!st.0.contains_key(id0.0));
            assert(next.0 == st.0.insert(id0.0, id0.1));
            assert forall|i: int| 0 <= i < files.len() implies {
                &&& crate::paths::spec_decision_identity(root, #[trigger] files[i].0) is Ok
                &&& !st.0.contains_key((crate::paths::spec_decision_identity(root, files[i].0)->Ok_0).0)
                &&& files[i].1 matches Some(b) && crate::engine::jdm_parses(b)
                    && crate::engine::jdm_graph_valid(b)
            } by {
                if i > 0 {
                    assert(files[i] == rest[i - 1]);
                }
            }
            assert forall|i: int, j: int| 0 <= i < j < files.len() implies (
            crate::paths::spec_decision_identity(root, #[trigger] files[i].0)->Ok_0).0 != (
            crate::paths::spec_decision_identity(root, #[trigger] files[j].0)->Ok_0).0 by {
                assert(files[j] == rest[j - 1]);
                if i > 0 {
                    assert(files[i] == rest[i - 1]);
                }
            }
        }
    }
}

} // verus!
