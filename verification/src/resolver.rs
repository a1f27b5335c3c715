//! Offset resolver: locate a literal byte sequence (a "needle") inside a
//! byte buffer, and sanitize (zero) a located range in place.

use vstd::prelude::*;

use crate::tbs::{
    param_fits, params_disjoint, range_zeroed, ranges_disjoint, template_inv, PendingParam,
    TbsParam, TbsTemplate, TemplateError,
};

verus! {

/// `n` occurs in `h` starting at byte index `i`.
pub open spec fn matches_at(h: Seq<u8>, n: Seq<u8>, i: int) -> bool {
    &&& 0 <= i
    &&& i + n.len() <= h.len()
    &&& forall|k: int| 0 <= k < n.len() ==> h[i + k] == #[trigger] n[k]
}

/// The first index at or after `from` where `n` occurs in `h`, if any.
pub open spec fn first_occurrence(h: Seq<u8>, n: Seq<u8>, from: int) -> Option<int>
    decreases h.len() - from,
{
    if from + n.len() > h.len() {
        None
    } else if matches_at(h, n, from) {
        Some(from)
    } else {
        first_occurrence(h, n, from + 1)
    }
}

/// `first_occurrence` returns exactly the least match index at or after
/// `from`, and `None` exactly when no match at or after `from` exists.
pub proof fn lemma_first_occurrence(h: Seq<u8>, n: Seq<u8>, from: int)
    ensures
        match first_occurrence(h, n, from) {
            Some(i) => from <= i && matches_at(h, n, i) && forall|j: int|
                from <= j < i ==> !matches_at(h, n, j),
            None => forall|j: int| j >= from ==> !matches_at(h, n, j),
        },
    decreases h.len() - from,
{
    if from + n.len() > h.len() {
        assert forall|j: int| j >= from implies !matches_at(h, n, j) by {
            assert(j + n.len() > h.len());
        }
    } else if matches_at(h, n, from) {
    } else {
        lemma_first_occurrence(h, n, from + 1);
    }
}

/// Whether `needle` occurs in `haystack` at exactly position `at`.
fn matches_here(needle: &[u8], haystack: &[u8], at: usize) -> (b: bool)
    requires
        at + needle@.len() <= haystack@.len(),
    ensures
        b == matches_at(haystack@, needle@, at as int),
{
    let nl: usize = needle.len();
    let hl: usize = haystack.len();
    let mut k: usize = 0;
    while k < nl
        invariant
            nl == needle@.len(),
            hl == haystack@.len(),
            at + nl <= hl,
            k <= nl,
            forall|m: int| 0 <= m < k ==> haystack@[at + m] == #[trigger] needle@[m],
        decreases nl - k,
    {
        if haystack[at + k] != needle[k] {
            return false;
        }
        k = k + 1;
    }
    true
}

/// Position of the first occurrence of `needle` in `haystack`, scanning in
/// ascending byte order. If `needle` occurs more than once, the first
/// occurrence wins — a deliberate, documented tie-break. Fails exactly when
/// `needle` does not occur at all.
pub fn locate(needle: &[u8], haystack: &[u8]) -> (r: Result<usize, TemplateError>)
    ensures
        match r {
            Ok(i) => {
                &&& first_occurrence(haystack@, needle@, 0) == Some(i as int)
                &&& matches_at(haystack@, needle@, i as int)
                &&& forall|j: int| 0 <= j < i ==> !matches_at(haystack@, needle@, j)
            },
            Err(e) => {
                &&& e == TemplateError::NeedleNotFoundError
                &&& first_occurrence(haystack@, needle@, 0) is None
                &&& forall|j: int| !matches_at(haystack@, needle@, j)
            },
        },
{
    let nl: usize = needle.len();
    let hl: usize = haystack.len();
    if nl > hl {
        return Err(TemplateError::NeedleNotFoundError);
    }
    let mut i: usize = 0;
    while i <= hl - nl
        invariant
            nl == needle@.len(),
            hl == haystack@.len(),
            nl <= hl,
            i <= hl - nl + 1,
            forall|j: int| 0 <= j < i ==> !matches_at(haystack@, needle@, j),
            first_occurrence(haystack@, needle@, 0) == first_occurrence(
                haystack@,
                needle@,
                i as int,
            ),
        decreases hl - nl - i + 1,
    {
        if matches_here(needle, haystack, i) {
            assert(first_occurrence(haystack@, needle@, i as int) == Some(i as int));
            return Ok(i);
        }
        assert(first_occurrence(haystack@, needle@, i as int) == first_occurrence(
            haystack@,
            needle@,
            i + 1,
        ));
        i = i + 1;
    }
    assert(first_occurrence(haystack@, needle@, i as int) is None);
    assert forall|j: int| !matches_at(haystack@, needle@, j) by {
        if 0 <= j < i {
        } else if j >= i {
            assert(j + nl > hl);
        }
    }
    Err(TemplateError::NeedleNotFoundError)
}

/// Overwrite `buf[param.offset .. param.offset + param.length]` with the
/// fixed sentinel value zero, in place; every other byte is untouched. The
/// param is handed back for collection.
pub fn sanitize(param: TbsParam, buf: &mut Vec<u8>) -> (r: TbsParam)
    requires
        param.offset + param.length <= old(buf)@.len(),
    ensures
        r == param,
        final(buf)@.len() == old(buf)@.len(),
        range_zeroed(final(buf)@, param.offset as int, param.length as int),
        forall|k: int|
            0 <= k < old(buf)@.len() && !(param.offset <= k < param.offset + param.length)
                ==> final(buf)@[k] == old(buf)@[k],
{
    let _buf_len: usize = buf.len();
    let end: usize = param.offset + param.length;
    let mut k: usize = param.offset;
    while k < end
        invariant
            param.offset <= k <= end,
            end == param.offset + param.length,
            end <= buf@.len(),
            buf@.len() == old(buf)@.len(),
            forall|m: int| param.offset <= m < k ==> #[trigger] buf@[m] == 0,
            forall|m: int|
                0 <= m < old(buf)@.len() && !(param.offset <= m < param.offset + param.length)
                    ==> buf@[m] == old(buf)@[m],
        decreases end - k,
    {
        buf.set(k, 0);
        k = k + 1;
    }
    param
}

/// `[off, off + len)` shares no byte with any range already recorded in `ps`.
pub open spec fn range_free(ps: Seq<TbsParam>, off: int, len: int) -> bool {
    forall|i: int|
        0 <= i < ps.len() ==> ranges_disjoint(
            #[trigger] ps[i].offset as int,
            ps[i].length as int,
            off,
            len,
        )
}

/// `s` with `[off, off + len)` overwritten by the sentinel value zero.
pub open spec fn spec_zero_range(s: Seq<u8>, off: int, len: int) -> Seq<u8> {
    Seq::new(s.len(), |k: int| if off <= k < off + len { 0u8 } else { s[k] })
}

/// The resolution pass, as a mathematical function: strictly in declaration
/// order, locate each needle's first occurrence in the working buffer,
/// refuse a location that overlaps an already-resolved range (its apparent
/// match would lie in sanitized bytes), record the resolved param, and zero
/// the located range before the next needle is searched. An empty needle is
/// a configuration defect; an absent needle is fatal.
pub open spec fn spec_resolve(
    pending: Seq<PendingParam>,
    buf: Seq<u8>,
    acc: Seq<TbsParam>,
) -> Result<(Seq<TbsParam>, Seq<u8>), TemplateError>
    decreases pending.len(),
{
    if pending.len() == 0 {
        Ok((acc, buf))
    } else {
        let p = pending[0];
        if p.needle@.len() == 0 {
            Err(TemplateError::ConfigurationError)
        } else {
            match first_occurrence(buf, p.needle@, 0) {
                None => Err(TemplateError::NeedleNotFoundError),
                Some(off) => {
                    let len = p.needle@.len() as int;
                    if !range_free(acc, off, len) {
                        Err(TemplateError::NeedleNotFoundError)
                    } else {
                        spec_resolve(
                            pending.drop_first(),
                            spec_zero_range(buf, off, len),
                            acc.push(
                                TbsParam {
                                    name: p.name,
                                    offset: off as usize,
                                    length: p.needle@.len() as usize,
                                },
                            ),
                        )
                    }
                },
            }
        }
    }
}

/// A successful resolution pass keeps the buffer length, keeps every
/// already-accumulated param, and appends one param per pending field, in
/// declaration order, named after it and as long as its needle.
pub proof fn lemma_resolve_shape(pending: Seq<PendingParam>, buf: Seq<u8>, acc: Seq<TbsParam>)
    requires
        buf.len() <= usize::MAX,
        forall|i: int| 0 <= i < pending.len() ==> (#[trigger] pending[i]).needle@.len()
            <= usize::MAX,
    ensures
        match spec_resolve(pending, buf, acc) {
            Ok(res) => {
                &&& res.0.len() == acc.len() + pending.len()
                &&& res.1.len() == buf.len()
                &&& forall|i: int| 0 <= i < acc.len() ==> res.0[i] == acc[i]
                &&& forall|i: int|
                    0 <= i < pending.len() ==> (#[trigger] res.0[acc.len() + i]).name
                        == pending[i].name && res.0[acc.len() + i].length == pending[i].needle@.len()
                        as usize
            },
            Err(_) => true,
        },
    decreases pending.len(),
{
    if pending.len() == 0 {
    } else {
        let p = pending[0];
        if p.needle@.len() == 0 {
        } else {
            match first_occurrence(buf, p.needle@, 0) {
                None => {},
                Some(off) => {
                    let len = p.needle@.len() as int;
                    if range_free(acc, off, len) {
                        let buf1 = spec_zero_range(buf, off, len);
                        let param = TbsParam {
                            name: p.name,
                            offset: off as usize,
                            length: p.needle@.len() as usize,
                        };
                        let acc1 = acc.push(param);
                        assert forall|i: int|
                            0 <= i < pending.drop_first().len() implies (#[trigger] pending.drop_first()[i]).needle@.len() <= usize::MAX by {
                            assert(pending.drop_first()[i] == pending[i + 1]);
                        }
                        lemma_resolve_shape(pending.drop_first(), buf1, acc1);
                        match spec_resolve(pending, buf, acc) {
                            Ok(res) => {
                                assert forall|i: int| 0 <= i < acc.len() implies res.0[i]
                                    == acc[i] by {
                                    assert(res.0[i] == acc1[i]);
                                    assert(acc1[i] == acc[i]);
                                }
                                assert forall|i: int|
                                    0 <= i < pending.len() implies (#[trigger] res.0[acc.len()
                                    + i]).name == pending[i].name && res.0[acc.len() + i].length
                                    == pending[i].needle@.len() as usize by {
                                    if i == 0 {
                                        assert(res.0[acc.len() as int] == acc1[acc.len() as int]);
                                        assert(acc1[acc.len() as int] == param);
                                    } else {
                                        assert(pending.drop_first()[i - 1] == pending[i]);
                                        assert(res.0[acc1.len() + (i - 1)].name
                                            == pending.drop_first()[i - 1].name);
                                        assert(res.0[acc1.len() + (i - 1)].length
                                            == pending.drop_first()[i - 1].needle@.len() as usize);
                                        assert(acc1.len() + (i - 1) == acc.len() + i);
                                    }
                                }
                            },
                            Err(_) => {},
                        }
                    }
                },
            }
        }
    }
}

/// A successful resolution pass establishes the template invariant: every
/// resolved range is non-empty, in bounds, zeroed, and disjoint from every
/// other, provided the already-accumulated params satisfy it.
pub proof fn lemma_resolve_inv(pending: Seq<PendingParam>, buf: Seq<u8>, acc: Seq<TbsParam>)
    requires
        template_inv(buf, acc),
        buf.len() <= usize::MAX,
        forall|i: int| 0 <= i < pending.len() ==> (#[trigger] pending[i]).needle@.len()
            <= usize::MAX,
    ensures
        match spec_resolve(pending, buf, acc) {
            Ok(res) => template_inv(res.1, res.0),
            Err(_) => true,
        },
    decreases pending.len(),
{
    if pending.len() == 0 {
    } else {
        let p = pending[0];
        if p.needle@.len() == 0 {
        } else {
            match first_occurrence(buf, p.needle@, 0) {
                None => {},
                Some(off) => {
                    let len = p.needle@.len() as int;
                    if range_free(acc, off, len) {
                        lemma_first_occurrence(buf, p.needle@, 0);
                        let buf1 = spec_zero_range(buf, off, len);
                        let param = TbsParam {
                            name: p.name,
                            offset: off as usize,
                            length: p.needle@.len() as usize,
                        };
                        let acc1 = acc.push(param);
                        assert(template_inv(buf1, acc1)) by {
                            assert forall|i: int|
                                0 <= i < acc1.len() implies param_fits(
                                #[trigger] acc1[i],
                                buf1.len() as int,
                            ) && range_zeroed(
                                buf1,
                                acc1[i].offset as int,
                                acc1[i].length as int,
                            ) by {
                                if i < acc.len() {
                                    assert(acc1[i] == acc[i]);
                                    assert(param_fits(acc[i], buf.len() as int));
                                    assert forall|k: int|
                                        acc1[i].offset <= k < acc1[i].offset + acc1[i].length
                                        implies buf1[k] == 0 by {
                                        assert(buf[k] == 0);
                                    }
                                } else {
                                    assert(acc1[i] == param);
                                    assert(matches_at(buf, p.needle@, off));
                                }
                            }
                            assert(params_disjoint(acc1)) by {
                                assert forall|i: int, j: int|
                                    0 <= i < acc1.len() && 0 <= j < acc1.len() && i != j
                                    implies ranges_disjoint(
                                    #[trigger] acc1[i].offset as int,
                                    acc1[i].length as int,
                                    #[trigger] acc1[j].offset as int,
                                    acc1[j].length as int,
                                ) by {
                                    if i < acc.len() && j < acc.len() {
                                        assert(acc1[i] == acc[i] && acc1[j] == acc[j]);
                                    } else if i < acc.len() {
                                        assert(acc1[j] == param && acc1[i] == acc[i]);
                                    } else {
                                        assert(acc1[i] == param && acc1[j] == acc[j]);
                                    }
                                }
                            }
                        }
                        assert forall|i: int|
                            0 <= i < pending.drop_first().len() implies (#[trigger] pending.drop_first()[i]).needle@.len() <= usize::MAX by {
                            assert(pending.drop_first()[i] == pending[i + 1]);
                        }
                        lemma_resolve_inv(pending.drop_first(), buf1, acc1);
                    }
                },
            }
        }
    }
}

/// Whether `[off, off + len)` avoids every range already recorded in `acc`.
fn range_is_free(acc: &Vec<TbsParam>, off: usize, len: usize) -> (b: bool)
    requires
        forall|j: int|
            0 <= j < acc@.len() ==> (#[trigger] acc@[j]).offset + acc@[j].length <= usize::MAX,
        off + len <= usize::MAX,
    ensures
        b == range_free(acc@, off as int, len as int),
{
    let mut i: usize = 0;
    while i < acc.len()
        invariant
            forall|j: int|
                0 <= j < acc@.len() ==> (#[trigger] acc@[j]).offset + acc@[j].length
                    <= usize::MAX,
            off + len <= usize::MAX,
            i <= acc@.len(),
            forall|j: int|
                0 <= j < i ==> ranges_disjoint(
                    #[trigger] acc@[j].offset as int,
                    acc@[j].length as int,
                    off as int,
                    len as int,
                ),
        decreases acc@.len() - i,
    {
        let p = acc[i];
        if !(p.offset + p.length <= off || off + len <= p.offset) {
            return false;
        }
        i = i + 1;
    }
    true
}

/// Resolve every pending field, strictly in declaration order, against a
/// single working copy of the to-be-signed bytes, sanitizing each resolved
/// range before the next search, and package the sanitized buffer with the
/// finalized param list. The outcome — success or the exact error — equals
/// `spec_resolve` on the inputs, and a returned template satisfies the
/// data-model invariant.
#[verifier::loop_isolation(false)]
pub fn resolve_params(pending: &Vec<PendingParam>, buf: Vec<u8>) -> (r: Result<
    TbsTemplate,
    TemplateError,
>)
    ensures
        match r {
            Ok(t) => {
                &&& spec_resolve(pending@, buf@, Seq::<TbsParam>::empty()) == Ok::<
                    (Seq<TbsParam>, Seq<u8>),
                    TemplateError,
                >((t.spec_params(), t.spec_bytes()))
                &&& t.wf()
                &&& t.spec_bytes().len() == buf@.len()
                &&& t.spec_params().len() == pending@.len()
                &&& forall|i: int|
                    0 <= i < pending@.len() ==> (#[trigger] t.spec_params()[i]).name
                        == pending@[i].name && t.spec_params()[i].length
                        == pending@[i].needle@.len() as usize
            },
            Err(e) => spec_resolve(pending@, buf@, Seq::<TbsParam>::empty()) == Err::<
                (Seq<TbsParam>, Seq<u8>),
                TemplateError,
            >(e),
        },
{
    let ghost buf0 = buf@;
    let mut buf = buf;
    let _buf_len: usize = buf.len();
    let mut acc: Vec<TbsParam> = Vec::new();
    let mut idx: usize = 0;
    let n: usize = pending.len();
    proof {
        assert(pending@.skip(0) =~= pending@);
    }
    while idx < n
        invariant
            n == pending@.len(),
            idx <= n,
            buf@.len() == buf0.len(),
            buf0.len() <= usize::MAX,
            spec_resolve(pending@, buf0, Seq::<TbsParam>::empty()) == spec_resolve(
                pending@.skip(idx as int),
                buf@,
                acc@,
            ),
            forall|j: int|
                0 <= j < acc@.len() ==> (#[trigger] acc@[j]).offset + acc@[j].length
                    <= buf@.len(),
            forall|j: int|
                0 <= j < idx ==> (#[trigger] pending@[j]).needle@.len() <= usize::MAX,
        decreases n - idx,
    {
        let ghost prev_buf = buf@;
        let ghost prev_acc = acc@;
        proof {
            assert(pending@.skip(idx as int)[0] == pending@[idx as int]);
            assert(pending@.skip(idx as int).drop_first() =~= pending@.skip(idx as int + 1));
        }
        let p: &PendingParam = &pending[idx];
        let nlen: usize = p.needle.len();
        if nlen == 0 {
            proof {
                assert(spec_resolve(pending@.skip(idx as int), buf@, acc@)
                    == Err::<(Seq<TbsParam>, Seq<u8>), TemplateError>(
                    TemplateError::ConfigurationError,
                ));
            }
            return Err(TemplateError::ConfigurationError);
        }
        let _working_len: usize = buf.len();
        match locate(p.needle.as_slice(), buf.as_slice()) {
            Err(e) => {
                proof {
                    assert(spec_resolve(pending@.skip(idx as int), buf@, acc@)
                        == Err::<(Seq<TbsParam>, Seq<u8>), TemplateError>(
                        TemplateError::NeedleNotFoundError,
                    ));
                }
                return Err(e);
            },
            Ok(off) => {
                if !range_is_free(&acc, off, nlen) {
                    proof {
                        assert(spec_resolve(pending@.skip(idx as int), buf@, acc@)
                            == Err::<(Seq<TbsParam>, Seq<u8>), TemplateError>(
                            TemplateError::NeedleNotFoundError,
                        ));
                    }
                    return Err(TemplateError::NeedleNotFoundError);
                }
                let param = TbsParam::new(p.name, off, nlen);
                let param = sanitize(param, &mut buf);
                acc.push(param);
                proof {
                    assert(buf@ =~= spec_zero_range(prev_buf, off as int, nlen as int));
                    assert(acc@ == prev_acc.push(param));
                    assert(spec_resolve(pending@.skip(idx as int), prev_buf, prev_acc)
                        == spec_resolve(pending@.skip(idx as int + 1), buf@, acc@));
                }
                idx = idx + 1;
            },
        }
    }
    proof {
        assert(pending@.skip(idx as int) =~= Seq::<PendingParam>::empty());
        assert(spec_resolve(pending@, buf0, Seq::<TbsParam>::empty()) == Ok::<
            (Seq<TbsParam>, Seq<u8>),
            TemplateError,
        >((acc@, buf@)));
        assert(template_inv(buf0, Seq::<TbsParam>::empty()));
        lemma_resolve_inv(pending@, buf0, Seq::<TbsParam>::empty());
        lemma_resolve_shape(pending@, buf0, Seq::<TbsParam>::empty());
        let e = Seq::<TbsParam>::empty();
        match spec_resolve(pending@, buf0, e) {
            Ok(res) => {
                assert forall|i: int| 0 <= i < pending@.len() implies (#[trigger] res.0[i]).name
                    == pending@[i].name && res.0[i].length == pending@[i].needle@.len()
                    as usize by {
                    assert(res.0[e.len() + i].name == pending@[i].name);
                    assert(res.0[e.len() + i].length == pending@[i].needle@.len() as usize);
                }
            },
            Err(_) => {},
        }
    }
    Ok(TbsTemplate::new(buf, acc))
}

/// `s` with `[off, off + v.len())` overwritten by `v`.
pub open spec fn spec_write_range(s: Seq<u8>, off: int, v: Seq<u8>) -> Seq<u8> {
    Seq::new(s.len(), |k: int| if off <= k < off + v.len() { v[k - off] } else { s[k] })
}

/// The needle bytes of each pending field, in declaration order.
pub open spec fn needles_of(pending: Seq<PendingParam>) -> Seq<Seq<u8>> {
    pending.map_values(|p: PendingParam| p.needle@)
}

/// `s` with `needles[i]` written back at `ps[i].offset`, for every `i`.
pub open spec fn spec_restore(s: Seq<u8>, ps: Seq<TbsParam>, needles: Seq<Seq<u8>>) -> Seq<u8>
    decreases ps.len(),
{
    if ps.len() == 0 {
        s
    } else {
        spec_restore(
            spec_write_range(s, ps[0].offset as int, needles[0]),
            ps.drop_first(),
            needles.drop_first(),
        )
    }
}

/// Writes to two disjoint ranges commute.
proof fn lemma_write_write_swap(s: Seq<u8>, o1: int, v1: Seq<u8>, o2: int, v2: Seq<u8>)
    requires
        ranges_disjoint(o1, v1.len() as int, o2, v2.len() as int),
    ensures
        spec_write_range(spec_write_range(s, o1, v1), o2, v2) == spec_write_range(
            spec_write_range(s, o2, v2),
            o1,
            v1,
        ),
{
    assert(spec_write_range(spec_write_range(s, o1, v1), o2, v2) =~= spec_write_range(
        spec_write_range(s, o2, v2),
        o1,
        v1,
    ));
}

/// Restoring ranges that are all disjoint from `[off, off + v.len())`
/// commutes with writing `v` there.
proof fn lemma_restore_write_commute(
    s: Seq<u8>,
    ps: Seq<TbsParam>,
    needles: Seq<Seq<u8>>,
    off: int,
    v: Seq<u8>,
)
    requires
        ps.len() == needles.len(),
        forall|i: int|
            0 <= i < ps.len() ==> ranges_disjoint(
                #[trigger] ps[i].offset as int,
                ps[i].length as int,
                off,
                v.len() as int,
            ),
        forall|i: int| 0 <= i < ps.len() ==> (#[trigger] needles[i]).len() == ps[i].length,
    ensures
        spec_restore(spec_write_range(s, off, v), ps, needles) == spec_write_range(
            spec_restore(s, ps, needles),
            off,
            v,
        ),
    decreases ps.len(),
{
    if ps.len() == 0 {
    } else {
        let o0 = ps[0].offset as int;
        let n0 = needles[0];
        lemma_write_write_swap(s, off, v, o0, n0);
        assert forall|i: int|
            0 <= i < ps.drop_first().len() implies ranges_disjoint(
            #[trigger] ps.drop_first()[i].offset as int,
            ps.drop_first()[i].length as int,
            off,
            v.len() as int,
        ) && (needles.drop_first()[i]).len() == ps.drop_first()[i].length by {
            assert(ps.drop_first()[i] == ps[i + 1]);
            assert(needles.drop_first()[i] == needles[i + 1]);
        }
        lemma_restore_write_commute(
            spec_write_range(s, o0, n0),
            ps.drop_first(),
            needles.drop_first(),
            off,
            v,
        );
    }
}

/// Round trip: substituting each resolved param's needle bytes back into the
/// sanitized output buffer, in declaration order, reproduces the input
/// buffer byte for byte. (Reattaching the stripped envelope then reproduces
/// the originally encoded object, modulo the signature, which the
/// to-be-signed region excludes by definition.)
pub proof fn lemma_round_trip(pending: Seq<PendingParam>, buf: Seq<u8>, acc: Seq<TbsParam>)
    requires
        template_inv(buf, acc),
        buf.len() <= usize::MAX,
        forall|i: int| 0 <= i < pending.len() ==> (#[trigger] pending[i]).needle@.len()
            <= usize::MAX,
    ensures
        match spec_resolve(pending, buf, acc) {
            Ok(res) => spec_restore(res.1, res.0.skip(acc.len() as int), needles_of(pending))
                == buf,
            Err(_) => true,
        },
    decreases pending.len(),
{
    lemma_resolve_inv(pending, buf, acc);
    lemma_resolve_shape(pending, buf, acc);
    if pending.len() == 0 {
        match spec_resolve(pending, buf, acc) {
            Ok(res) => {
                assert(res.0.skip(acc.len() as int) =~= Seq::<TbsParam>::empty());
            },
            Err(_) => {},
        }
    } else {
        let p = pending[0];
        if p.needle@.len() == 0 {
        } else {
            match first_occurrence(buf, p.needle@, 0) {
                None => {},
                Some(off) => {
                    let len = p.needle@.len() as int;
                    if range_free(acc, off, len) {
                        lemma_first_occurrence(buf, p.needle@, 0);
                        let buf1 = spec_zero_range(buf, off, len);
                        let param = TbsParam {
                            name: p.name,
                            offset: off as usize,
                            length: p.needle@.len() as usize,
                        };
                        let acc1 = acc.push(param);
                        assert(template_inv(buf1, acc1)) by {
                            lemma_resolve_inv(
                                Seq::<PendingParam>::empty().push(p),
                                buf,
                                acc,
                            );
                            assert(Seq::<PendingParam>::empty().push(p).drop_first()
                                =~= Seq::<PendingParam>::empty());
                        }
                        assert forall|i: int|
                            0 <= i < pending.drop_first().len() implies (#[trigger] pending.drop_first()[i]).needle@.len() <= usize::MAX by {
                            assert(pending.drop_first()[i] == pending[i + 1]);
                        }
                        lemma_round_trip(pending.drop_first(), buf1, acc1);
                        lemma_resolve_shape(pending.drop_first(), buf1, acc1);
                        assert(spec_resolve(pending, buf, acc) == spec_resolve(
                            pending.drop_first(),
                            buf1,
                            acc1,
                        ));
                        match spec_resolve(pending, buf, acc) {
                            Ok(res) => {
                                let ps = res.0;
                                let out = res.1;
                                let m = acc.len() as int;
                                let tail_needles = needles_of(pending.drop_first());
                                // The suffix of newly resolved params, split off its head.
                                assert(ps[m] == acc1[m]);
                                assert(ps[m] == param);
                                assert(ps.len() == acc.len() + pending.len());
                                assert(ps.skip(m).drop_first() =~= ps.skip(m + 1));
                                assert(ps.skip(m)[0] == ps[m]);
                                assert(needles_of(pending)[0] == p.needle@);
                                assert(needles_of(pending).drop_first() =~= tail_needles);
                                // Restoring the tail commutes with writing the head needle.
                                assert(params_disjoint(ps));
                                assert forall|i: int|
                                    0 <= i < ps.skip(m + 1).len() implies ranges_disjoint(
                                    #[trigger] ps.skip(m + 1)[i].offset as int,
                                    ps.skip(m + 1)[i].length as int,
                                    off,
                                    p.needle@.len() as int,
                                ) && (tail_needles[i]).len() == ps.skip(m + 1)[i].length by {
                                    assert(ps.skip(m + 1)[i] == ps[m + 1 + i]);
                                    assert(ps[m] == param);
                                    assert(ranges_disjoint(
                                        ps[m + 1 + i].offset as int,
                                        ps[m + 1 + i].length as int,
                                        ps[m].offset as int,
                                        ps[m].length as int,
                                    ));
                                    assert(tail_needles[i] == pending.drop_first()[i].needle@);
                                    assert(ps[acc1.len() + i].length
                                        == pending.drop_first()[i].needle@.len() as usize);
                                }
                                lemma_restore_write_commute(
                                    out,
                                    ps.skip(m + 1),
                                    tail_needles,
                                    off,
                                    p.needle@,
                                );
                                // Writing the head needle back into the zeroed buffer
                                // reproduces the pre-step buffer.
                                assert(spec_write_range(buf1, off, p.needle@) =~= buf) by {
                                    assert(matches_at(buf, p.needle@, off));
                                }
                                assert(spec_restore(out, ps.skip(m), needles_of(pending))
                                    == spec_restore(
                                    spec_write_range(out, off, p.needle@),
                                    ps.skip(m + 1),
                                    tail_needles,
                                ));
                            },
                            Err(_) => {},
                        }
                    }
                },
            }
        }
    }
}

/// A resolution pass over fields whose needles are all non-empty never
/// reports a configuration error: that error is reserved for empty needles.
pub proof fn lemma_resolve_no_config(pending: Seq<PendingParam>, buf: Seq<u8>, acc: Seq<TbsParam>)
    requires
        forall|i: int| 0 <= i < pending.len() ==> (#[trigger] pending[i]).needle@.len() > 0,
    ensures
        spec_resolve(pending, buf, acc) != Err::<(Seq<TbsParam>, Seq<u8>), TemplateError>(
            TemplateError::ConfigurationError,
        ),
    decreases pending.len(),
{
    if pending.len() == 0 {
    } else {
        let p = pending[0];
        assert(p.needle@.len() > 0);
        match first_occurrence(buf, p.needle@, 0) {
            None => {},
            Some(off) => {
                let len = p.needle@.len() as int;
                if range_free(acc, off, len) {
                    assert forall|i: int|
                        0 <= i < pending.drop_first().len() implies (#[trigger] pending.drop_first()[i]).needle@.len() > 0 by {
                        assert(pending.drop_first()[i] == pending[i + 1]);
                    }
                    lemma_resolve_no_config(
                        pending.drop_first(),
                        spec_zero_range(buf, off, len),
                        acc.push(
                            TbsParam {
                                name: p.name,
                                offset: off as usize,
                                length: p.needle@.len() as usize,
                            },
                        ),
                    );
                }
            },
        }
    }
}

/// Tie-break, at a resolution step: the param recorded for the first
/// pending field is located at the lowest offset where its needle occurs in
/// the working buffer. Every step of a pass is of this shape, since the
/// pass recurses on the remaining fields with the sanitized buffer as the
/// next working buffer.
pub proof fn lemma_step_tie_break(pending: Seq<PendingParam>, buf: Seq<u8>, acc: Seq<TbsParam>)
    requires
        pending.len() > 0,
        buf.len() <= usize::MAX,
        forall|i: int| 0 <= i < pending.len() ==> (#[trigger] pending[i]).needle@.len()
            <= usize::MAX,
    ensures
        match spec_resolve(pending, buf, acc) {
            Ok(res) => {
                &&& acc.len() < res.0.len()
                &&& matches_at(buf, pending[0].needle@, res.0[acc.len() as int].offset as int)
                &&& forall|j: int|
                    0 <= j < res.0[acc.len() as int].offset as int ==> !matches_at(
                        buf,
                        pending[0].needle@,
                        j,
                    )
            },
            Err(_) => true,
        },
    decreases pending.len(),
{
    lemma_resolve_shape(pending, buf, acc);
    let p = pending[0];
    if p.needle@.len() == 0 {
    } else {
        match first_occurrence(buf, p.needle@, 0) {
            None => {},
            Some(off) => {
                lemma_first_occurrence(buf, p.needle@, 0);
                let len = p.needle@.len() as int;
                if range_free(acc, off, len) {
                    let param = TbsParam {
                        name: p.name,
                        offset: off as usize,
                        length: p.needle@.len() as usize,
                    };
                    let acc1 = acc.push(param);
                    let buf1 = spec_zero_range(buf, off, len);
                    assert forall|i: int|
                        0 <= i < pending.drop_first().len() implies (#[trigger] pending.drop_first()[i]).needle@.len() <= usize::MAX by {
                        assert(pending.drop_first()[i] == pending[i + 1]);
                    }
                    lemma_resolve_shape(pending.drop_first(), buf1, acc1);
                    match spec_resolve(pending, buf, acc) {
                        Ok(res) => {
                            assert(res.0[acc.len() as int] == acc1[acc.len() as int]);
                            assert(res.0[acc.len() as int] == param);
                        },
                        Err(_) => {},
                    }
                }
            },
        }
    }
}

/// Fatal on absence, at a resolution step: if the first pending field's
/// needle occurs nowhere in the working buffer, the pass fails with
/// `NeedleNotFoundError` and no template is produced. Every step of a pass
/// is of this shape.
pub proof fn lemma_step_absence(pending: Seq<PendingParam>, buf: Seq<u8>, acc: Seq<TbsParam>)
    requires
        pending.len() > 0,
        pending[0].needle@.len() > 0,
        forall|j: int| !matches_at(buf, pending[0].needle@, j),
    ensures
        spec_resolve(pending, buf, acc) == Err::<(Seq<TbsParam>, Seq<u8>), TemplateError>(
            TemplateError::NeedleNotFoundError,
        ),
{
    lemma_first_occurrence(buf, pending[0].needle@, 0);
    match first_occurrence(buf, pending[0].needle@, 0) {
        Some(i) => {
            assert(matches_at(buf, pending[0].needle@, i));
        },
        None => {},
    }
}

/// Round trip, at the template's level: a template that a resolution pass
/// returned, with every param's needle bytes substituted back in, is the
/// to-be-signed buffer the pass started from.
pub proof fn lemma_template_round_trip(
    pending: Seq<PendingParam>,
    buf: Seq<u8>,
    params: Seq<TbsParam>,
    out: Seq<u8>,
)
    requires
        buf.len() <= usize::MAX,
        forall|i: int| 0 <= i < pending.len() ==> (#[trigger] pending[i]).needle@.len()
            <= usize::MAX,
        spec_resolve(pending, buf, Seq::<TbsParam>::empty()) == Ok::<
            (Seq<TbsParam>, Seq<u8>),
            TemplateError,
        >((params, out)),
    ensures
        spec_restore(out, params, needles_of(pending)) == buf,
{
    lemma_round_trip(pending, buf, Seq::<TbsParam>::empty());
    assert(params.skip(0) =~= params);
}

/// Structural determinism: the resolution pass is a mathematical function of
/// the declared fields and the input bytes; two passes over identical inputs
/// yield the identical param list and identical sanitized bytes.
pub proof fn lemma_structural_determinism(
    pending: Seq<PendingParam>,
    buf: Seq<u8>,
    t1: (Seq<TbsParam>, Seq<u8>),
    t2: (Seq<TbsParam>, Seq<u8>),
)
    requires
        spec_resolve(pending, buf, Seq::<TbsParam>::empty()) == Ok::<
            (Seq<TbsParam>, Seq<u8>),
            TemplateError,
        >(t1),
        spec_resolve(pending, buf, Seq::<TbsParam>::empty()) == Ok::<
            (Seq<TbsParam>, Seq<u8>),
            TemplateError,
        >(t2),
    ensures
        t1 == t2,
{
}

} // verus!
