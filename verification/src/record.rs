//! Module records: the normalized, cacheable result of loading a module.

use vstd::prelude::*;

verus! {

/// The module kinds the loader distinguishes: executable script source, or
/// structured data (a `.json` payload) that bypasses the transpiler.
#[derive(Clone, Copy, Debug, PartialEq, Eq, Structural)]
pub enum ModuleKind {
    Script,
    Json,
}

/// The mathematical content of a module payload.
pub ghost enum CodeModel {
    Text(Seq<char>),
    Bytes(Seq<u8>),
}

/// A module's normalized source payload: text, or raw bytes.
#[derive(Debug)]
pub enum ModuleCode {
    Text(String),
    Bytes(Vec<u8>),
}

impl View for ModuleCode {
    type V = CodeModel;

    open spec fn view(&self) -> CodeModel {
        match self {
            ModuleCode::Text(s) => CodeModel::Text(s@),
            ModuleCode::Bytes(b) => CodeModel::Bytes(b@),
        }
    }
}

/// The mathematical content of a module record.
pub ghost struct RecordModel {
    pub kind: ModuleKind,
    pub code: CodeModel,
    pub locator: Seq<char>,
    pub code_cache: Option<Seq<u8>>,
}

/// The result of a successful load: the module kind, the normalized payload,
/// the originating locator text, and an optional opaque compiled-code blob
/// (a performance hint, never required for correctness).
#[derive(Debug)]
pub struct ModuleRecord {
    pub kind: ModuleKind,
    pub code: ModuleCode,
    pub locator: String,
    pub code_cache: Option<Vec<u8>>,
}

impl View for ModuleRecord {
    type V = RecordModel;

    open spec fn view(&self) -> RecordModel {
        RecordModel {
            kind: self.kind,
            code: self.code@,
            locator: self.locator@,
            code_cache: match self.code_cache {
                Some(b) => Some(b@),
                None => None,
            },
        }
    }
}

/// An independent copy of a byte vector.
pub fn clone_bytes(v: &Vec<u8>) -> (r: Vec<u8>)
    ensures
        r@ == v@,
{
    let mut r: Vec<u8> = Vec::new();
    let mut i: usize = 0;
    while i < v.len()
        invariant
            i <= v@.len(),
            r@ == v@.take(i as int),
        decreases v@.len() - i,
    {
        r.push(v[i]);
        i = i + 1;
        proof {
            assert(r@ =~= v@.take(i as int));
        }
    }
    proof {
        assert(v@.take(v@.len() as int) =~= v@);
    }
    r
}

impl ModuleCode {
    /// An independent copy of the payload.
    pub fn duplicate(&self) -> (r: ModuleCode)
        ensures
            r@ == self@,
    {
        match self {
            ModuleCode::Text(s) => ModuleCode::Text(s.clone()),
            ModuleCode::Bytes(b) => ModuleCode::Bytes(clone_bytes(b)),
        }
    }
}

impl ModuleRecord {
    /// An independent copy of the record.
    pub fn duplicate(&self) -> (r: ModuleRecord)
        ensures
            r@ == self@,
    {
        ModuleRecord {
            kind: self.kind,
            code: self.code.duplicate(),
            locator: self.locator.clone(),
            code_cache: match &self.code_cache {
                Some(b) => Some(clone_bytes(b)),
                None => None,
            },
        }
    }
}

} // verus!
