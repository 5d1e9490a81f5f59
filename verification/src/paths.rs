//! Path components of files in the decisions workspace and the decision
//! identity (identifier and loader key) that a model file's path gives.

use vstd::prelude::*;
use vstd::string::*;
use crate::ident::valid_id_segment;

verus! {

/// One component of a filesystem path, as the standard library's path
/// parser yields it; a normal component that is not valid Unicode keeps its
/// raw bytes.
#[derive(Debug, Clone, PartialEq, Eq)]
pub enum PathComponent {
    Prefix(Vec<u8>),
    RootDir,
    CurDir,
    ParentDir,
    Normal(String),
    NonUnicode(Vec<u8>),
}

/// The mathematical value of a path component.
pub enum ComponentView {
    Prefix(Seq<u8>),
    RootDir,
    CurDir,
    ParentDir,
    Normal(Seq<char>),
    NonUnicode(Seq<u8>),
}

impl View for PathComponent {
    type V = ComponentView;

    open spec fn view(&self) -> ComponentView {
        match self {
            PathComponent::Prefix(b) => ComponentView::Prefix(b@),
            PathComponent::RootDir => ComponentView::RootDir,
            PathComponent::CurDir => ComponentView::CurDir,
            PathComponent::ParentDir => ComponentView::ParentDir,
            PathComponent::Normal(s) => ComponentView::Normal(s@),
            PathComponent::NonUnicode(b) => ComponentView::NonUnicode(b@),
        }
    }
}

/// The views of a sequence of path components.
pub open spec fn path_view(p: Seq<PathComponent>) -> Seq<ComponentView> {
    Seq::new(p.len(), |i: int| p[i]@)
}

/// `root` is a leading part of `path`, component by component.
pub open spec fn spec_starts_with(path: Seq<ComponentView>, root: Seq<ComponentView>) -> bool {
    root.len() <= path.len() && path.take(root.len() as int) == root
}

/// The refusal of a path that is not below the workspace root.
pub open spec fn code_path_outside() -> Seq<char> {
    "path_outside_decisions_root"@
}

/// The refusal of a path with a component that is not a Unicode name.
pub open spec fn code_invalid_path() -> Seq<char> {
    "invalid_decision_path"@
}

/// The refusal of a file whose name does not end in `.json`.
pub open spec fn code_unsupported_file_type() -> Seq<char> {
    "unsupported_file_type"@
}

/// The refusal of a path that gives no valid identifier.
pub open spec fn code_invalid_id() -> Seq<char> {
    "invalid_decision_id"@
}

/// The extension of model files.
pub open spec fn json_suffix() -> Seq<char> {
    seq!['.', 'j', 's', 'o', 'n']
}

/// `s` without a trailing `.json`, if it has one.
pub open spec fn strip_json(s: Seq<char>) -> Option<Seq<char>> {
    if s.len() >= 5 && s.skip(s.len() - 5) == json_suffix() {
        Some(s.take(s.len() - 5))
    } else {
        None
    }
}

/// The refusal, if any, that component `i` of the relative path `rel`
/// earns: a component that is not a Unicode name is an invalid path, the
/// file name must end in `.json`, and each identifier segment must be valid.
pub open spec fn component_error(rel: Seq<ComponentView>, i: int) -> Option<Seq<char>> {
    match rel[i] {
        ComponentView::Normal(s) => {
            if i == rel.len() - 1 {
                match strip_json(s) {
                    None => Some(code_unsupported_file_type()),
                    Some(x) => if crate::ident::spec_valid_id_segment(x) {
                        None
                    } else {
                        Some(code_invalid_id())
                    },
                }
            } else if crate::ident::spec_valid_id_segment(s) {
                None
            } else {
                Some(code_invalid_id())
            }
        },
        _ => Some(code_invalid_path()),
    }
}

/// The refusal of the first component, from index `i` on, that earns one.
pub open spec fn first_error_from(rel: Seq<ComponentView>, i: int) -> Option<Seq<char>>
    decreases rel.len() - i,
{
    if i < 0 || i >= rel.len() {
        None
    } else {
        match component_error(rel, i) {
            Some(e) => Some(e),
            None => first_error_from(rel, i + 1),
        }
    }
}

/// The name that component `i` contributes to the loader key.
pub open spec fn key_segment(rel: Seq<ComponentView>, i: int) -> Seq<char> {
    match rel[i] {
        ComponentView::Normal(s) => s,
        _ => Seq::<char>::empty(),
    }
}

/// The name that component `i` contributes to the decision identifier: the
/// file name loses its `.json`.
pub open spec fn id_segment(rel: Seq<ComponentView>, i: int) -> Seq<char> {
    if i == rel.len() - 1 {
        match strip_json(key_segment(rel, i)) {
            Some(x) => x,
            None => key_segment(rel, i),
        }
    } else {
        key_segment(rel, i)
    }
}

/// `parts` joined by `/`.
pub open spec fn join_slash(parts: Seq<Seq<char>>) -> Seq<char>
    decreases parts.len(),
{
    if parts.len() == 0 {
        Seq::<char>::empty()
    } else if parts.len() == 1 {
        parts[0]
    } else {
        join_slash(parts.drop_last()) + seq!['/'] + parts.last()
    }
}

/// The identity that the model file at `path` gets in a workspace rooted at
/// `root`: its decision identifier and its loader key, or the diagnostic
/// code that refuses it.
pub open spec fn spec_decision_identity(root: Seq<ComponentView>, path: Seq<ComponentView>) -> Result<
    (Seq<char>, Seq<char>),
    Seq<char>,
> {
    if !spec_starts_with(path, root) {
        Err(code_path_outside())
    } else {
        let rel = path.skip(root.len() as int);
        match first_error_from(rel, 0) {
            Some(e) => Err(e),
            None => if rel.len() == 0 {
                Err(code_invalid_id())
            } else {
                Ok(
                    (
                        join_slash(Seq::new(rel.len(), |i: int| id_segment(rel, i))),
                        join_slash(Seq::new(rel.len(), |i: int| key_segment(rel, i))),
                    ),
                )
            },
        }
    }
}

/// Whether two byte strings are equal.
fn same_bytes(a: &Vec<u8>, b: &Vec<u8>) -> (r: bool)
    ensures
        r == (a@ == b@),
{
    if a.len() != b.len() {
        return false;
    }
    let mut i: usize = 0;
    while i < a.len()
        invariant
            a.len() == b.len(),
            i <= a.len(),
            forall|j: int| 0 <= j < i ==> a@[j] == b@[j],
        decreases a.len() - i,
    {
        if a[i] != b[i] {
            return false;
        }
        i = i + 1;
    }
    assert(a@ =~= b@);
    true
}

/// Whether two path components are the same component.
pub fn same_component(a: &PathComponent, b: &PathComponent) -> (r: bool)
    ensures
        r == (a@ == b@),
{
    match (a, b) {
        (PathComponent::Prefix(x), PathComponent::Prefix(y)) => same_bytes(x, y),
        (PathComponent::RootDir, PathComponent::RootDir) => true,
        (PathComponent::CurDir, PathComponent::CurDir) => true,
        (PathComponent::ParentDir, PathComponent::ParentDir) => true,
        (PathComponent::Normal(x), PathComponent::Normal(y)) => {
            let r = x.eq(y);
            r
        },
        (PathComponent::NonUnicode(x), PathComponent::NonUnicode(y)) => same_bytes(x, y),
        _ => false,
    }
}

/// Whether `path` lies under `root`: `root`'s components lead `path`'s.
pub fn path_starts_with(path: &Vec<PathComponent>, root: &Vec<PathComponent>) -> (r: bool)
    ensures
        r == spec_starts_with(path_view(path@), path_view(root@)),
{
    if root.len() > path.len() {
        return false;
    }
    let mut i: usize = 0;
    while i < root.len()
        invariant
            root.len() <= path.len(),
            i <= root.len(),
            forall|j: int| 0 <= j < i ==> path@[j]@ == root@[j]@,
        decreases root.len() - i,
    {
        if !same_component(&path[i], &root[i]) {
            assert(path_view(path@).take(root.len() as int)[i as int] != path_view(root@)[i as int]);
            return false;
        }
        i = i + 1;
    }
    assert(path_view(path@).take(root.len() as int) =~= path_view(root@));
    true
}

/// When no component from `j` up to `k` earns a refusal, the first refusal
/// from `j` on is the first from `k` on.
proof fn lemma_first_error_skip(rel: Seq<ComponentView>, j: int, k: int)
    requires
        0 <= j <= k <= rel.len(),
        forall|m: int| j <= m < k ==> #[trigger] component_error(rel, m) is None,
    ensures
        first_error_from(rel, j) == first_error_from(rel, k),
    decreases k - j,
{
    if j < k {
        lemma_first_error_skip(rel, j + 1, k);
    }
}

/// `s` without its trailing `.json`, if it ends in one.
fn strip_json_suffix(s: &String) -> (r: Option<String>)
    ensures
        r is Some <==> strip_json(s@) is Some,
        r is Some ==> r->0@ == strip_json(s@)->0,
{
    let st = s.as_str();
    let len = st.unicode_len();
    if len < 5 {
        return None;
    }
    if st.get_char(len - 5) == '.' && st.get_char(len - 4) == 'j' && st.get_char(len - 3) == 's'
        && st.get_char(len - 2) == 'o' && st.get_char(len - 1) == 'n' {
        assert(s@.skip(len - 5) =~= json_suffix());
        let stem = st.substring_char(0, len - 5);
        Some(stem.to_owned())
    } else {
        proof {
            if s@.skip(len - 5) == json_suffix() {
                assert(s@.skip(len - 5)[0] == s@[len - 5]);
                assert(s@.skip(len - 5)[1] == s@[len - 4]);
                assert(s@.skip(len - 5)[2] == s@[len - 3]);
                assert(s@.skip(len - 5)[3] == s@[len - 2]);
                assert(s@.skip(len - 5)[4] == s@[len - 1]);
            }
        }
        None
    }
}

/// The views of a vector of strings.
pub open spec fn strings_view(v: Seq<String>) -> Seq<Seq<char>> {
    Seq::new(v.len(), |i: int| v[i]@)
}

/// `parts` joined by `/`, as `[String]::join("/")` does.
pub fn join_with_slash(parts: &Vec<String>) -> (r: String)
    ensures
        r@ == join_slash(strings_view(parts@)),
{
    let mut out = String::new();
    let mut i: usize = 0;
    proof {
        reveal_strlit("/");
    }
    while i < parts.len()
        invariant
            i <= parts.len(),
            "/"@ == seq!['/'],
            out@ == join_slash(strings_view(parts@).take(i as int)),
        decreases parts.len() - i,
    {
        let ghost views = strings_view(parts@);
        assert(views.take(i + 1).drop_last() =~= views.take(i as int));
        if i == 0 {
            assert(views.take(1) =~= seq![parts@[0]@]);
        } else {
            out.append("/");
        }
        out.append(parts[i].as_str());
        i = i + 1;
    }
    assert(strings_view(parts@).take(parts.len() as int) =~= strings_view(parts@));
    out
}

/// The value of a computed identity.
pub open spec fn identity_view(r: Result<(String, String), &'static str>) -> Result<
    (Seq<char>, Seq<char>),
    Seq<char>,
> {
    match r {
        Ok((id, key)) => Ok((id@, key@)),
        Err(code) => Err(code@),
    }
}

/// The decision identity of the model file at `path` in a workspace rooted
/// at `root`: `(identifier, loader key)`. The key is the path below the root
/// joined by `/`; the identifier is the same without the file's `.json`.
/// Refused, with the code that a diagnostic carries, when the path is not
/// under the root, holds a component that is not a Unicode name, does not
/// end in `.json`, has an invalid segment, or names the root itself.
pub fn decision_identity(root: &Vec<PathComponent>, path: &Vec<PathComponent>) -> (r: Result<
    (String, String),
    &'static str,
>)
    ensures
        identity_view(r) == spec_decision_identity(path_view(root@), path_view(path@)),
{
    if !path_starts_with(path, root) {
        return Err("path_outside_decisions_root");
    }
    let n = path.len();
    let r0 = root.len();
    let ghost rel = path_view(path@).skip(r0 as int);
    let mut key_segments: Vec<String> = Vec::new();
    let mut id_segments: Vec<String> = Vec::new();
    let mut i: usize = r0;
    while i < n
        invariant
            r0 <= i <= n,
            n == path@.len(),
            r0 == root@.len(),
            rel == path_view(path@).skip(r0 as int),
            rel.len() == n - r0,
            spec_starts_with(path_view(path@), path_view(root@)),
            forall|m: int| 0 <= m < i - r0 ==> #[trigger] component_error(rel, m) is None,
            id_segments@.len() == i - r0,
            key_segments@.len() == i - r0,
            forall|m: int| 0 <= m < i - r0 ==> #[trigger] id_segments@[m]@ == id_segment(rel, m),
            forall|m: int| 0 <= m < i - r0 ==> #[trigger] key_segments@[m]@ == key_segment(rel, m),
        decreases n - i,
    {
        let ghost m = i - r0;
        assert(rel[m] == path@[i as int]@);
        match &path[i] {
            PathComponent::Normal(seg) => {
                let is_last = i + 1 == n;
                let id_seg: String;
                if is_last {
                    match strip_json_suffix(seg) {
                        Some(x) => {
                            id_seg = x;
                        },
                        None => {
                            proof {
                                lemma_first_error_skip(rel, 0, m);
                                assert(component_error(rel, m) == Some(code_unsupported_file_type()));
                                assert(first_error_from(rel, m) == Some(code_unsupported_file_type()));
                            }
                            return Err("unsupported_file_type");
                        },
                    }
                } else {
                    id_seg = seg.clone();
                }
                if !valid_id_segment(id_seg.as_str()) {
                    proof {
                        lemma_first_error_skip(rel, 0, m);
                        assert(component_error(rel, m) == Some(code_invalid_id()));
                        assert(first_error_from(rel, m) == Some(code_invalid_id()));
                    }
                    return Err("invalid_decision_id");
                }
                key_segments.push(seg.clone());
                id_segments.push(id_seg);
            },
            _ => {
                proof {
                    lemma_first_error_skip(rel, 0, m);
                }
                return Err("invalid_decision_path");
            },
        }
        i = i + 1;
    }
    proof {
        lemma_first_error_skip(rel, 0, rel.len() as int);
    }
    if id_segments.len() == 0 {
        return Err("invalid_decision_id");
    }
    let id = join_with_slash(&id_segments);
    let key = join_with_slash(&key_segments);
    assert(strings_view(id_segments@) =~= Seq::new(rel.len(), |k: int| id_segment(rel, k)));
    assert(strings_view(key_segments@) =~= Seq::new(rel.len(), |k: int| key_segment(rel, k)));
    Ok((id, key))
}

/// `s` holds no `/`.
pub open spec fn slash_free(s: Seq<char>) -> bool {
    forall|i: int| 0 <= i < s.len() ==> #[trigger] s[i] != '/'
}

/// A text without `/` splits into itself alone.
pub proof fn lemma_split_slash_free(s: Seq<char>)
    requires
        slash_free(s),
    ensures
        crate::ident::split_slash(s) == seq![s],
    decreases s.len(),
{
    if s.len() > 0 {
        assert(slash_free(s.drop_last()));
        lemma_split_slash_free(s.drop_last());
        assert(s.drop_last().push(s.last()) =~= s);
        assert(s[s.len() - 1] != '/');
    } else {
        assert(s =~= Seq::<char>::empty());
    }
}

/// Splitting `p/s`, with `s` free of `/`, adds `s` to the parts of `p`.
proof fn lemma_split_after_slash(p: Seq<char>, s: Seq<char>)
    requires
        slash_free(s),
    ensures
        crate::ident::split_slash(p + seq!['/'] + s) == crate::ident::split_slash(p).push(s),
    decreases s.len(),
{
    if s.len() == 0 {
        assert(p + seq!['/'] + s =~= p.push('/'));
        assert((p.push('/')).drop_last() =~= p);
        assert(s =~= Seq::<char>::empty());
    } else {
        let s2 = s.drop_last();
        assert(slash_free(s2));
        lemma_split_after_slash(p, s2);
        assert((p + seq!['/'] + s).drop_last() =~= p + seq!['/'] + s2);
        assert((p + seq!['/'] + s).last() == s.last());
        assert(s[s.len() - 1] != '/');
        assert(s2.push(s.last()) =~= s);
    }
}

/// Splitting parts joined by `/` gives them back, when none holds `/`.
proof fn lemma_split_join(parts: Seq<Seq<char>>)
    requires
        parts.len() >= 1,
        forall|i: int| 0 <= i < parts.len() ==> #[trigger] slash_free(parts[i]),
    ensures
        crate::ident::split_slash(join_slash(parts)) == parts,
    decreases parts.len(),
{
    if parts.len() == 1 {
        lemma_split_slash_free(parts[0]);
        assert(parts =~= seq![parts[0]]);
    } else {
        let init = parts.drop_last();
        assert forall|i: int| 0 <= i < init.len() implies #[trigger] slash_free(init[i]) by {
            assert(init[i] == parts[i]);
        }
        lemma_split_join(init);
        assert(slash_free(parts[parts.len() - 1]));
        lemma_split_after_slash(join_slash(init), parts.last());
        assert(init.push(parts.last()) =~= parts);
    }
}

/// A valid identifier segment holds no `/`.
proof fn lemma_valid_segment_slash_free(s: Seq<char>)
    requires
        crate::ident::spec_valid_id_segment(s),
    ensures
        slash_free(s),
{
    assert forall|i: int| 0 <= i < s.len() implies #[trigger] s[i] != '/' by {
        assert(crate::ident::id_char(s[i]));
    }
}

/// Extending the last part extends the joined text.
proof fn lemma_join_extend_last(parts: Seq<Seq<char>>, suffix: Seq<char>)
    requires
        parts.len() >= 1,
    ensures
        join_slash(parts.update(parts.len() - 1, parts.last() + suffix)) == join_slash(parts) + suffix,
    decreases parts.len(),
{
    let ext = parts.update(parts.len() - 1, parts.last() + suffix);
    if parts.len() > 1 {
        assert(ext.drop_last() =~= parts.drop_last());
        assert(join_slash(ext) == join_slash(parts.drop_last()) + seq!['/'] + (parts.last() + suffix));
        assert(join_slash(parts.drop_last()) + seq!['/'] + (parts.last() + suffix) =~= join_slash(
            parts.drop_last(),
        ) + seq!['/'] + parts.last() + suffix);
    }
}

/// Where the identity is not refused, no component earns a refusal.
proof fn lemma_no_error_components(rel: Seq<ComponentView>, k: int)
    requires
        first_error_from(rel, 0) is None,
        0 <= k < rel.len(),
    ensures
        component_error(rel, k) is None,
    decreases k,
{
    lemma_no_error_from(rel, 0, k);
}

/// No refusal from `j` on means none at `k`, for `k` from `j` on.
proof fn lemma_no_error_from(rel: Seq<ComponentView>, j: int, k: int)
    requires
        0 <= j <= k < rel.len(),
        first_error_from(rel, j) is None,
    ensures
        component_error(rel, k) is None,
    decreases k - j,
{
    if j < k {
        lemma_no_error_from(rel, j + 1, k);
    }
}

/// Every model file that the workspace accepts gets an identifier that the
/// evaluate endpoint accepts as well-formed, and its loader key is that
/// identifier followed by `.json`: `decisions/commercial/pricing.json` is the
/// decision `commercial/pricing` with the key `commercial/pricing.json`.
pub proof fn lemma_identity_is_valid_id(root: Seq<ComponentView>, path: Seq<ComponentView>)
    requires
        spec_decision_identity(root, path) is Ok,
    ensures
        crate::ident::spec_valid_decision_id((spec_decision_identity(root, path)->Ok_0).0),
        (spec_decision_identity(root, path)->Ok_0).1 == (spec_decision_identity(root, path)->Ok_0).0
            + json_suffix(),
{
    let rel = path.skip(root.len() as int);
    let ids = Seq::new(rel.len(), |i: int| id_segment(rel, i));
    let keys = Seq::new(rel.len(), |i: int| key_segment(rel, i));
    assert forall|i: int| 0 <= i < ids.len() implies crate::ident::spec_valid_id_segment(
        #[trigger] ids[i],
    ) && slash_free(ids[i]) by {
        lemma_no_error_components(rel, i);
        lemma_valid_segment_slash_free(ids[i]);
    }
    lemma_split_join(ids);
    let id = join_slash(ids);
    assert(id.len() > 0) by {
        lemma_join_nonempty(ids);
    }
    let last = rel.len() - 1;
    lemma_no_error_components(rel, last);
    let name = key_segment(rel, last);
    assert(strip_json(name) is Some);
    let stem = strip_json(name)->0;
    assert(name =~= stem + json_suffix());
    assert(keys =~= ids.update(last, ids.last() + json_suffix()));
    lemma_join_extend_last(ids, json_suffix());
}

/// Parts whose last one is nonempty join into a nonempty text.
proof fn lemma_join_nonempty(parts: Seq<Seq<char>>)
    requires
        parts.len() >= 1,
        parts.last().len() > 0,
    ensures
        join_slash(parts).len() > 0,
{
}

/// A model's identity depends only on its path below the workspace root:
/// moving the workspace elsewhere changes no identifier, key or refusal, so
/// none of them carries a host path.
pub proof fn lemma_identity_ignores_root(
    root1: Seq<ComponentView>,
    root2: Seq<ComponentView>,
    rel: Seq<ComponentView>,
)
    ensures
        spec_decision_identity(root1, root1 + rel) == spec_decision_identity(root2, root2 + rel),
{
    assert((root1 + rel).take(root1.len() as int) =~= root1);
    assert((root2 + rel).take(root2.len() as int) =~= root2);
    assert((root1 + rel).skip(root1.len() as int) =~= rel);
    assert((root2 + rel).skip(root2.len() as int) =~= rel);
}

/// The components that a loader key names below the root: one normal
/// component per `/`-separated segment.
pub open spec fn key_components(key: Seq<char>) -> Seq<ComponentView> {
    crate::ident::split_slash(key).map_values(|segment: Seq<char>| ComponentView::Normal(segment))
}

/// A model's loader key leads back to its file: the root's components
/// followed by the key's segments are the model's path.
pub proof fn lemma_key_leads_back_to_the_path(root: Seq<ComponentView>, path: Seq<ComponentView>)
    requires
        spec_decision_identity(root, path) is Ok,
    ensures
        path == root + key_components((spec_decision_identity(root, path)->Ok_0).1),
{
    let rel = path.skip(root.len() as int);
    let keys = Seq::new(rel.len(), |i: int| key_segment(rel, i));
    assert forall|i: int| 0 <= i < keys.len() implies #[trigger] slash_free(keys[i]) by {
        lemma_no_error_components(rel, i);
        if i == rel.len() - 1 {
            let stem = strip_json(keys[i])->0;
            assert(keys[i] =~= stem + json_suffix());
            lemma_valid_segment_slash_free(stem);
            assert forall|j: int| 0 <= j < keys[i].len() implies keys[i][j] != '/' by {
                if j < stem.len() {
                    assert(keys[i][j] == stem[j]);
                } else {
                    assert(keys[i][j] == json_suffix()[j - stem.len()]);
                }
            }
        } else {
            lemma_valid_segment_slash_free(keys[i]);
        }
    }
    lemma_split_join(keys);
    assert forall|i: int| 0 <= i < rel.len() implies rel[i] == ComponentView::Normal(keys[i]) by {
        lemma_no_error_components(rel, i);
    }
    assert(key_components(join_slash(keys)) =~= rel);
    assert(path.take(root.len() as int) == root);
    assert(path =~= root + rel);
}

/// Two model files of one workspace never share a decision identifier.
pub proof fn lemma_identifiers_are_distinct(
    root: Seq<ComponentView>,
    path1: Seq<ComponentView>,
    path2: Seq<ComponentView>,
)
    requires
        spec_decision_identity(root, path1) is Ok,
        spec_decision_identity(root, path2) is Ok,
        (spec_decision_identity(root, path1)->Ok_0).0 == (spec_decision_identity(root, path2)->Ok_0).0,
    ensures
        path1 == path2,
{
    lemma_identity_is_valid_id(root, path1);
    lemma_identity_is_valid_id(root, path2);
    lemma_key_leads_back_to_the_path(root, path1);
    lemma_key_leads_back_to_the_path(root, path2);
}

/// Every model file below the root whose directories are valid identifier
/// segments and whose name is a valid segment followed by `.json` has an
/// identity, at any depth: `org/sales/emea/pricing.json` below the root is
/// the decision `org/sales/emea/pricing`. Its key names the file and is the
/// identifier followed by `.json`.
pub proof fn lemma_every_model_path_has_an_identity(
    root: Seq<ComponentView>,
    dirs: Seq<Seq<char>>,
    stem: Seq<char>,
)
    requires
        forall|i: int| 0 <= i < dirs.len() ==> crate::ident::spec_valid_id_segment(#[trigger] dirs[i]),
        crate::ident::spec_valid_id_segment(stem),
    ensures
        ({
            let rel = dirs.map_values(|d: Seq<char>| ComponentView::Normal(d)).push(
                ComponentView::Normal(stem + seq!['.', 'j', 's', 'o', 'n']),
            );
            let identity = spec_decision_identity(root, root + rel);
            &&& identity is Ok
            &&& (identity->Ok_0).1 == (identity->Ok_0).0 + seq!['.', 'j', 's', 'o', 'n']
            &&& key_components((identity->Ok_0).1) == rel
        }),
{
    let rel = dirs.map_values(|d: Seq<char>| ComponentView::Normal(d)).push(
        ComponentView::Normal(stem + seq!['.', 'j', 's', 'o', 'n']),
    );
    let path = root + rel;
    assert(path.take(root.len() as int) =~= root);
    assert(path.skip(root.len() as int) =~= rel);
    let name = stem + json_suffix();
    assert(name.skip(name.len() - 5) =~= json_suffix());
    assert(name.take(name.len() - 5) =~= stem);
    assert forall|m: int| 0 <= m < rel.len() implies #[trigger] component_error(rel, m) is None by {
        if m < rel.len() - 1 {
            assert(rel[m] == ComponentView::Normal(dirs[m]));
        } else {
            assert(rel[m] == ComponentView::Normal(name));
        }
    }
    lemma_first_error_skip(rel, 0, rel.len() as int);
    assert(spec_decision_identity(root, path) is Ok);
    lemma_identity_is_valid_id(root, path);
    lemma_key_leads_back_to_the_path(root, path);
    assert(key_components((spec_decision_identity(root, path)->Ok_0).1) =~= rel);
}

} // verus!
