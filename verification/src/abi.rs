//! The rules that uploaded code has to meet.
use vstd::prelude::*;
use vstd::string::StrSliceExecFns;
use crate::types::ABI;
use crate::{Error, ErrorView};

verus! {

/// Name of the export that allocates a region of the contract's memory.
pub const EXPORT_ALLOCATE: &'static str = "allocate";

/// Name of the export that frees a region of the contract's memory.
pub const EXPORT_DEALLOCATE: &'static str = "deallocate";

/// Name of the export that is called when an instance is created.
pub const EXPORT_INSTANTIATE: &'static str = "instantiate";

/// Name of the export that is called on each call of an instance.
pub const EXPORT_CALL: &'static str = "call";

/// Name of the optional export that is called to deliver a reply.
pub const EXPORT_HANDLE_REPLY: &'static str = "handle_reply";

/// Exports whose names begin like this are reserved for the host.
pub const RESERVED_EXPORT_PREFIX: &'static str = "gas_limit";

/// What the rules read of a parsed module.
#[derive(Debug, PartialEq, Eq)]
pub struct ModuleInfo {
    /// The names of the module's exports, in the order of declaration.
    pub exports: Vec<String>,
    /// Whether the module declares a start function.
    pub has_start: bool,
    /// The number of linear memories that the module declares.
    pub memories: u32,
}

/// Whether `text` begins with `prefix`.
pub open spec fn begins_with(text: Seq<char>, prefix: Seq<char>) -> bool {
    prefix.len() <= text.len() && text.subrange(0, prefix.len() as int) == prefix
}

/// Whether one of the exports has the given name.
pub open spec fn has_export(exports: Seq<String>, name: Seq<char>) -> bool {
    exists|i: int| 0 <= i < exports.len() && #[trigger] exports[i]@ == name
}

/// The first of the exports whose name is reserved, if there is one.
pub open spec fn first_reserved(exports: Seq<String>) -> Option<Seq<char>>
    decreases exports.len(),
{
    if exports.len() == 0 {
        None
    } else if begins_with(exports[0]@, RESERVED_EXPORT_PREFIX@) {
        Some(exports[0]@)
    } else {
        first_reserved(exports.drop_first())
    }
}

/// The verdict on a module: the first rule that it breaks, if any. A start
/// function is refused first, then more than one memory, then a missing
/// required export (in the order allocate, deallocate, instantiate, call),
/// then a reserved export.
pub open spec fn verdict(info: ModuleInfo) -> Option<ErrorView> {
    if info.has_start {
        Some(ErrorView::CodeDeclaresStartFunction)
    } else if info.memories > 1 {
        Some(ErrorView::CodeDeclaresTooManyMemories)
    } else if !has_export(info.exports@, EXPORT_ALLOCATE@) {
        Some(ErrorView::CodeMissingRequiredExport(EXPORT_ALLOCATE@))
    } else if !has_export(info.exports@, EXPORT_DEALLOCATE@) {
        Some(ErrorView::CodeMissingRequiredExport(EXPORT_DEALLOCATE@))
    } else if !has_export(info.exports@, EXPORT_INSTANTIATE@) {
        Some(ErrorView::CodeMissingRequiredExport(EXPORT_INSTANTIATE@))
    } else if !has_export(info.exports@, EXPORT_CALL@) {
        Some(ErrorView::CodeMissingRequiredExport(EXPORT_CALL@))
    } else {
        match first_reserved(info.exports@) {
            Some(name) => Some(ErrorView::CodeDeclaresReservedExport(name)),
            None => None,
        }
    }
}

/// Whether `text` begins with `prefix`.
pub fn starts_with(text: &str, prefix: &str) -> (begins: bool)
    ensures
        begins == begins_with(text@, prefix@),
{
    let n: usize = prefix.unicode_len();
    if text.unicode_len() < n {
        return false;
    }
    let mut i: usize = 0;
    while i < n
        invariant
            i <= n,
            n == prefix@.len(),
            n <= text@.len(),
            forall|j: int| 0 <= j < i ==> text@[j] == prefix@[j],
        decreases n - i,
    {
        if text.get_char(i) != prefix.get_char(i) {
            assert(text@.subrange(0, n as int)[i as int] != prefix@[i as int]);
            return false;
        }
        i += 1;
    }
    assert(text@.subrange(0, n as int) =~= prefix@);
    true
}

/// Whether one of the exports has the given name.
pub fn exports_name(exports: &Vec<String>, name: &str) -> (found: bool)
    ensures
        found == has_export(exports@, name@),
{
    let wanted: String = name.to_owned();
    let mut i: usize = 0;
    while i < exports.len()
        invariant
            i <= exports.len(),
            wanted@ == name@,
            forall|j: int| 0 <= j < i ==> exports@[j]@ != name@,
        decreases exports.len() - i,
    {
        if exports[i] == wanted {
            return true;
        }
        i += 1;
    }
    false
}

/// The name of the first reserved export, if there is one.
pub fn find_reserved(exports: &Vec<String>) -> (found: Option<String>)
    ensures
        found is Some <==> first_reserved(exports@) is Some,
        found matches Some(name) ==> first_reserved(exports@) == Some(name@),
{
    let mut i: usize = 0;
    assert(exports@.skip(0) =~= exports@);
    while i < exports.len()
        invariant
            i <= exports.len(),
            first_reserved(exports@) == first_reserved(exports@.skip(i as int)),
        decreases exports.len() - i,
    {
        proof {
            assert(exports@.skip(i as int).drop_first() =~= exports@.skip(i + 1));
        }
        if starts_with(exports[i].as_str(), RESERVED_EXPORT_PREFIX) {
            return Some(exports[i].clone());
        }
        i += 1;
    }
    None
}

/// Validates a module against the rules of the given ABI.
pub fn validate(abi: ABI, info: &ModuleInfo) -> (result: Result<(), Error>)
    ensures
        verdict(*info) is None ==> result is Ok,
        verdict(*info) matches Some(e) ==> (result matches Err(err) && err@ == e),
{
    match abi {
        ABI::OasisV1 => {},
    }
    if info.has_start {
        return Err(Error::CodeDeclaresStartFunction);
    }
    if info.memories > 1 {
        return Err(Error::CodeDeclaresTooManyMemories);
    }
    if !exports_name(&info.exports, EXPORT_ALLOCATE) {
        return Err(Error::CodeMissingRequiredExport(EXPORT_ALLOCATE.to_owned()));
    }
    if !exports_name(&info.exports, EXPORT_DEALLOCATE) {
        return Err(Error::CodeMissingRequiredExport(EXPORT_DEALLOCATE.to_owned()));
    }
    if !exports_name(&info.exports, EXPORT_INSTANTIATE) {
        return Err(Error::CodeMissingRequiredExport(EXPORT_INSTANTIATE.to_owned()));
    }
    if !exports_name(&info.exports, EXPORT_CALL) {
        return Err(Error::CodeMissingRequiredExport(EXPORT_CALL.to_owned()));
    }
    match find_reserved(&info.exports) {
        Some(name) => Err(Error::CodeDeclaresReservedExport(name)),
        None => Ok(()),
    }
}

} // verus!
