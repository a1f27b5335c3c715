//! Data model: resolved template parameters and the finished template.

use vstd::prelude::*;

verus! {

/// Why a template could not be produced. Any failure aborts the whole
/// build: a template is returned fully formed or not at all.
#[derive(Clone, Copy, Debug, PartialEq, Eq)]
pub enum TemplateError {
    /// A field was declared twice for the same semantic role, or a declared
    /// field value is empty.
    ConfigurationError,
    /// The codec rejected the subject name, extension set, or signing input.
    EncodingError,
    /// The round-trip self-check decode failed: the codec itself misbehaved.
    DecodingError,
    /// A declared field's literal bytes are absent from the encoded output,
    /// or their first occurrence collides with an already-resolved range.
    NeedleNotFoundError,
    /// The signed-envelope boundary could not be located and stripped.
    EnvelopeStructureError,
}

/// A resolved dynamic field: `length` bytes at byte index `offset` of the
/// template buffer.
#[derive(Clone, Copy, Debug, PartialEq, Eq)]
pub struct TbsParam {
    pub name: &'static str,
    pub offset: usize,
    pub length: usize,
}

impl TbsParam {
    pub fn new(name: &'static str, offset: usize, length: usize) -> (r: TbsParam)
        ensures
            r.name == name,
            r.offset == offset,
            r.length == length,
    {
        TbsParam { name, offset, length }
    }
}

/// An unresolved dynamic field: the literal bytes (`needle`) expected to
/// appear at the field's position once the surrounding object is encoded.
/// The resolved length is always the needle's length.
#[derive(Debug)]
pub struct PendingParam {
    pub name: &'static str,
    pub needle: Vec<u8>,
}

/// The two ranges `[o1, o1 + l1)` and `[o2, o2 + l2)` have no byte in common.
pub open spec fn ranges_disjoint(o1: int, l1: int, o2: int, l2: int) -> bool {
    o1 + l1 <= o2 || o2 + l2 <= o1
}

/// No two distinct params of `ps` cover a common byte.
pub open spec fn params_disjoint(ps: Seq<TbsParam>) -> bool {
    forall|i: int, j: int|
        0 <= i < ps.len() && 0 <= j < ps.len() && i != j ==> ranges_disjoint(
            #[trigger] ps[i].offset as int,
            ps[i].length as int,
            #[trigger] ps[j].offset as int,
            ps[j].length as int,
        )
}

/// Every byte of `s` in `[off, off + len)` holds the sentinel value zero.
pub open spec fn range_zeroed(s: Seq<u8>, off: int, len: int) -> bool {
    forall|k: int| off <= k < off + len ==> #[trigger] s[k] == 0
}

/// `p` denotes a non-empty range lying inside a buffer of length `n`.
pub open spec fn param_fits(p: TbsParam, n: int) -> bool {
    0 < p.length && p.offset + p.length <= n
}

/// Invariant of a finished template: every param denotes a non-empty,
/// in-bounds, zeroed range, and no two params overlap.
pub open spec fn template_inv(bytes: Seq<u8>, ps: Seq<TbsParam>) -> bool {
    &&& forall|i: int|
        0 <= i < ps.len() ==> param_fits(#[trigger] ps[i], bytes.len() as int) && range_zeroed(
            bytes,
            ps[i].offset as int,
            ps[i].length as int,
        )
    &&& params_disjoint(ps)
}

/// A finished template: the sanitized byte buffer plus the ordered list of
/// resolved params (declaration order, not sorted by offset). There is no
/// mutation path once constructed.
#[derive(Debug)]
pub struct TbsTemplate {
    bytes: Vec<u8>,
    params: Vec<TbsParam>,
}

impl TbsTemplate {
    /// The sanitized byte buffer, as a mathematical sequence.
    pub closed spec fn spec_bytes(&self) -> Seq<u8> {
        self.bytes@
    }

    /// The resolved param list, as a mathematical sequence.
    pub closed spec fn spec_params(&self) -> Seq<TbsParam> {
        self.params@
    }

    /// The data-model invariant, over the template's own contents.
    pub open spec fn wf(&self) -> bool {
        template_inv(self.spec_bytes(), self.spec_params())
    }

    pub fn new(bytes: Vec<u8>, params: Vec<TbsParam>) -> (r: TbsTemplate)
        requires
            template_inv(bytes@, params@),
        ensures
            r.spec_bytes() == bytes@,
            r.spec_params() == params@,
            r.wf(),
    {
        TbsTemplate { bytes, params }
    }

    pub fn bytes(&self) -> (r: &Vec<u8>)
        ensures
            r@ == self.spec_bytes(),
    {
        &self.bytes
    }

    pub fn params(&self) -> (r: &Vec<TbsParam>)
        ensures
            r@ == self.spec_params(),
    {
        &self.params
    }
}

} // verus!
