//! The rules engine's types and calls, as the registry uses them. Each item
//! here is trusted: Verus takes its contract as given.

use vstd::prelude::*;
use zen_engine::loader::MemoryLoader;
use zen_engine::model::DecisionContent;
use zen_engine::Decision;

verus! {

/// `zen_engine::model::DecisionContent`, a parsed JDM model, carried
/// through as an opaque value.
#[verifier::external_type_specification]
#[verifier::external_body]
pub struct ExDecisionContent(DecisionContent);

/// `zen_engine::loader::MemoryLoader`, the in-memory model store, opaque
/// but for the keys it holds (`stored_keys`).
#[verifier::external_type_specification]
#[verifier::external_body]
pub struct ExMemoryLoader(MemoryLoader);

/// `serde_json::Error`, carried through as an opaque value.
#[verifier::external_type_specification]
#[verifier::external_body]
pub struct ExJsonError(serde_json::Error);

/// Whether `bytes` is a JSON document that deserializes as a JDM decision
/// model.
pub uninterp spec fn jdm_parses(bytes: Seq<u8>) -> bool;

/// A parsed JDM model, with whether its decision graph is well-formed.
pub struct ParsedModel {
    pub content: DecisionContent,
    pub graph_valid: bool,
}

/// Whether the decision graph of the JDM model in `bytes` is well-formed, as
/// the engine's `Decision::validate` judges it: exactly one input node, no
/// cycle, and every node that an edge names present.
pub uninterp spec fn jdm_graph_valid(bytes: Seq<u8>) -> bool;

/// `serde_json::from_slice::<DecisionContent>` followed, on success, by
/// `Decision::validate` on a stand-alone `Decision::from` a copy of the
/// model. The parse succeeds exactly on the documents that `jdm_parses`
/// names; the flag that comes with the model is the validation's outcome,
/// which depends on the model alone and so on `bytes` alone
/// (`jdm_graph_valid`). What the model holds is not stated. The two calls
/// share one item because the validation is named over the bytes the model
/// was read from; Verus cannot declare the generic `Decision` type, whose
/// parameters are bound by the engine's own traits.
#[verifier::external_body]
pub fn parse_jdm(bytes: &[u8]) -> (r: Result<ParsedModel, serde_json::Error>)
    ensures
        r is Ok <==> jdm_parses(bytes@),
        r matches Ok(m) ==> m.graph_valid == jdm_graph_valid(bytes@),
{
    match serde_json::from_slice::<DecisionContent>(bytes) {
        Ok(content) => {
            let graph_valid = Decision::from(content.clone()).validate().is_ok();
            Ok(ParsedModel { content, graph_valid })
        },
        Err(e) => Err(e),
    }
}

/// The loader keys under which a `MemoryLoader` holds a model.
pub uninterp spec fn stored_keys(loader: MemoryLoader) -> Set<Seq<char>>;

/// `MemoryLoader::default`: a store whose map holds no model.
#[verifier::external_body]
pub fn new_memory_loader() -> (r: MemoryLoader)
    ensures
        stored_keys(r) == Set::<Seq<char>>::empty(),
{
    MemoryLoader::default()
}

/// `MemoryLoader::add`: inserts `content` into the store's map under `key`,
/// replacing a model held under that key. It locks the map for writing;
/// with the store borrowed exclusively no other holder of the lock exists,
/// so the lock is never poisoned here. What model a key holds is not
/// stated, as the model is opaque here.
#[verifier::external_body]
pub fn memory_loader_add(loader: &mut MemoryLoader, key: String, content: DecisionContent)
    ensures
        stored_keys(*final(loader)) == stored_keys(*old(loader)).insert(key@),
{
    loader.add(key, content)
}

} // verus!
