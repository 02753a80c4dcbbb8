//! Run-length grouping of the raw edit script, and the encoder bridge that
//! renders the grouped edits through a caller-supplied strategy.
use crate::edits::{Edit, Transformation};
use crate::matrix::{cell_views, Levenshtein};
use crate::model::{
    group_spec, lemma_traceback_kinds, make_edit, prim_part, sec_part, t_kind, traceback_spec,
    EditModel, TransModel,
};
use vstd::prelude::*;
use vstd::string::StringExecFns;

verus! {

/// The views of a vector of grouped edits, in order.
pub open spec fn edit_views(s: Seq<Edit>) -> Seq<EditModel> {
    s.map_values(|e: Edit| e@)
}

/// The concatenation, in order, of the characters of a sequence of strings.
pub open spec fn strs_concat(s: Seq<String>) -> Seq<char>
    decreases s.len(),
{
    if s.len() == 0 {
        Seq::empty()
    } else {
        strs_concat(s.drop_last()) + s.last()@
    }
}

/// Appends one raw edit's text(s) to the run accumulators: the token (the
/// origin-side one for a substitution) to the primary accumulator, and a
/// substitution's dest-side token to the secondary one.
fn push_parts(bin: &mut String, sub_dest_bin: &mut String, t: &Transformation)
    requires
        t_kind(t@) != 0,
    ensures
        final(bin)@ == old(bin)@ + prim_part(t@),
        final(sub_dest_bin)@ == old(sub_dest_bin)@ + sec_part(t@),
{
    proof {
        assert(old(bin)@ + Seq::<char>::empty() =~= old(bin)@);
        assert(old(sub_dest_bin)@ + Seq::<char>::empty() =~= old(sub_dest_bin)@);
    }
    match t {
        Transformation::Equality(_, e) => bin.append(e.as_str()),
        Transformation::Deletion(_, e) => bin.append(e.as_str()),
        Transformation::Insertion(_, e) => bin.append(e.as_str()),
        Transformation::Substitution(_, o, d) => {
            bin.append(o.as_str());
            sub_dest_bin.append(d.as_str());
        },
        Transformation::Init(_) => {
            proof {
                assert(false);
            }
        },
    }
}

/// Closes the current run: one grouped edit of the run's kind, carrying the
/// accumulated text(s).
fn finish_edit(k: usize, prim: String, sec: String) -> (r: Edit)
    requires
        1 <= k <= 4,
    ensures
        r@ == make_edit(k as int, prim@, sec@),
{
    if k == 1 {
        Edit::Equality(prim)
    } else if k == 2 {
        Edit::Deletion(prim)
    } else if k == 3 {
        Edit::Insertion(prim)
    } else {
        Edit::Substitution(prim, sec)
    }
}

/// Some rendering of the grouped edits through an encoder: fragment i is a
/// possible result of the encoder on grouped edit i, and the whole is the
/// fragments' concatenation with no separator.
pub open spec fn encoded_ok<F: Fn(Edit) -> String>(
    encoder: F,
    g: Seq<EditModel>,
    r: Seq<char>,
) -> bool {
    exists|edits: Seq<Edit>, frags: Seq<String>|
        {
            &&& edit_views(edits) == g
            &&& frags.len() == edits.len()
            &&& (forall|i: int|
                0 <= i < frags.len() ==> call_ensures(encoder, (edits[i],), #[trigger] frags[i]))
            &&& r == strs_concat(frags)
        }
}

impl Levenshtein {
    /// The edit script grouped into maximal runs of same-kind operations,
    /// each run collapsed into one edit carrying the concatenated token
    /// text(s). An empty script (two empty texts) groups to an empty
    /// sequence.
    pub fn grouped_edits(&mut self) -> (r: Vec<Edit>)
        requires
            old(self).wf(),
        ensures
            final(self).wf(),
            final(self).origin == old(self).origin,
            final(self).dest == old(self).dest,
            final(self).fully_computed(),
            edit_views(r@) == group_spec(
                traceback_spec(
                    old(self).origin_toks(),
                    old(self).dest_toks(),
                    old(self).origin@.len() as int,
                    old(self).dest@.len() as int,
                ),
            ),
    {
        let ghost a = self.origin_toks();
        let ghost b = self.dest_toks();
        let raw = self.raw_edits();
        let ghost rawm = cell_views(raw@);
        proof {
            lemma_traceback_kinds(a, b, a.len() as int, b.len() as int);
            assert forall|j: int| 0 <= j < rawm.len() implies 1 <= t_kind(
                #[trigger] rawm[j],
            ) <= 4 by {
                assert(rawm[j] == traceback_spec(a, b, a.len() as int, b.len() as int)[j]);
            }
        }
        let mut grouped: Vec<Edit> = Vec::new();
        if raw.len() == 0 {
            proof {
                assert(edit_views(grouped@) =~= Seq::<EditModel>::empty());
            }
            return grouped;
        }
        let mut bin = String::new();
        let mut sub_dest_bin = String::new();
        let current = &raw[0];
        proof {
            assert(rawm[0] == raw@[0]@);
        }
        let mut current_t = current.t();
        push_parts(&mut bin, &mut sub_dest_bin, current);
        proof {
            assert(rawm.take(1).drop_last() =~= Seq::<TransModel>::empty());
            assert(group_spec(Seq::<TransModel>::empty()) == Seq::<EditModel>::empty());
            assert(rawm.take(1).last() == rawm[0]);
            assert(Seq::<char>::empty() + prim_part(rawm[0]) =~= prim_part(rawm[0]));
            assert(Seq::<char>::empty() + sec_part(rawm[0]) =~= sec_part(rawm[0]));
            assert(group_spec(rawm.take(1)) =~= edit_views(grouped@) + seq![
                make_edit(current_t as int, bin@, sub_dest_bin@),
            ]);
        }
        let mut i: usize = 1;
        while i < raw.len()
            invariant
                rawm == cell_views(raw@),
                1 <= i <= rawm.len(),
                forall|j: int| 0 <= j < rawm.len() ==> 1 <= t_kind(#[trigger] rawm[j]) <= 4,
                1 <= current_t <= 4,
                current_t == t_kind(rawm[i - 1]),
                group_spec(rawm.take(i as int)) == edit_views(grouped@) + seq![
                    make_edit(current_t as int, bin@, sub_dest_bin@),
                ],
            decreases rawm.len() - i,
        {
            let ghost pending = make_edit(current_t as int, bin@, sub_dest_bin@);
            proof {
                assert(rawm.take(i + 1).drop_last() =~= rawm.take(i as int));
                assert(rawm.take(i + 1).last() == rawm[i as int]);
                assert((edit_views(grouped@) + seq![pending]).last() == pending);
                assert((edit_views(grouped@) + seq![pending]).drop_last() =~= edit_views(
                    grouped@,
                ));
            }
            let next = &raw[i];
            proof {
                assert(rawm[i as int] == raw@[i as int]@);
            }
            if next.t() == current_t {
                push_parts(&mut bin, &mut sub_dest_bin, next);
                proof {
                    assert(group_spec(rawm.take(i + 1)) =~= edit_views(grouped@) + seq![
                        make_edit(current_t as int, bin@, sub_dest_bin@),
                    ]);
                }
            } else {
                let done = finish_edit(current_t, bin, sub_dest_bin);
                grouped.push(done);
                bin = String::new();
                sub_dest_bin = String::new();
                current_t = next.t();
                push_parts(&mut bin, &mut sub_dest_bin, next);
                proof {
                    assert(Seq::<char>::empty() + prim_part(rawm[i as int]) =~= prim_part(
                        rawm[i as int],
                    ));
                    assert(Seq::<char>::empty() + sec_part(rawm[i as int]) =~= sec_part(
                        rawm[i as int],
                    ));
                    assert(edit_views(grouped@) =~= edit_views(grouped@.drop_last()).push(
                        pending,
                    ));
                    assert(group_spec(rawm.take(i + 1)) =~= edit_views(grouped@) + seq![
                        make_edit(current_t as int, bin@, sub_dest_bin@),
                    ]);
                }
            }
            i += 1;
        }
        proof {
            assert(rawm.take(rawm.len() as int) =~= rawm);
        }
        let done = finish_edit(current_t, bin, sub_dest_bin);
        let ghost pending = make_edit(current_t as int, bin@, sub_dest_bin@);
        grouped.push(done);
        proof {
            assert(edit_views(grouped@) =~= edit_views(grouped@.drop_last()) + seq![pending]);
        }
        grouped
    }

    /// The final rendered diff: applies the caller-supplied encoder to each
    /// grouped edit in order and concatenates the fragments with no
    /// separator.
    pub fn encoded_edits<F: Fn(Edit) -> String>(&mut self, encoder: F) -> (r: String)
        requires
            old(self).wf(),
            forall|e: Edit| call_requires(encoder, (e,)),
        ensures
            final(self).wf(),
            final(self).origin == old(self).origin,
            final(self).dest == old(self).dest,
            encoded_ok(
                encoder,
                group_spec(
                    traceback_spec(
                        old(self).origin_toks(),
                        old(self).dest_toks(),
                        old(self).origin@.len() as int,
                        old(self).dest@.len() as int,
                    ),
                ),
                r@,
            ),
    {
        let mut grouped = self.grouped_edits();
        let ghost edits0 = grouped@;
        let mut components: Vec<String> = Vec::new();
        while grouped.len() > 0
            invariant
                forall|e: Edit| call_requires(encoder, (e,)),
                components@.len() <= edits0.len(),
                grouped@ == edits0.skip(components@.len() as int),
                forall|i: int|
                    0 <= i < components@.len() ==> call_ensures(
                        encoder,
                        (edits0[i],),
                        #[trigger] components@[i],
                    ),
            decreases grouped.len(),
        {
            let ghost k = components@.len() as int;
            let e = grouped.remove(0);
            proof {
                assert(edits0.skip(k)[0] == edits0[k]);
                assert(edits0.skip(k).remove(0) =~= edits0.skip(k + 1));
            }
            let frag = encoder(e);
            components.push(frag);
        }
        let mut out = String::new();
        let mut k: usize = 0;
        proof {
            assert(strs_concat(components@.take(0)) =~= Seq::<char>::empty());
        }
        while k < components.len()
            invariant
                k <= components@.len(),
                out@ == strs_concat(components@.take(k as int)),
            decreases components@.len() - k,
        {
            proof {
                assert(components@.take(k + 1).drop_last() =~= components@.take(k as int));
                assert(components@.take(k + 1).last() == components@[k as int]);
            }
            out.append(components[k].as_str());
            k += 1;
        }
        proof {
            assert(components@.take(components@.len() as int) =~= components@);
            assert(edits0.skip(components@.len() as int).len() == 0);
            assert(components@.len() == edits0.len());
            assert(encoded_ok(
                encoder,
                group_spec(
                    traceback_spec(
                        old(self).origin_toks(),
                        old(self).dest_toks(),
                        old(self).origin@.len() as int,
                        old(self).dest@.len() as int,
                    ),
                ),
                out@,
            )) by {
                let g = group_spec(
                    traceback_spec(
                        old(self).origin_toks(),
                        old(self).dest_toks(),
                        old(self).origin@.len() as int,
                        old(self).dest@.len() as int,
                    ),
                );
                assert(edit_views(edits0) == g);
                assert(out@ == strs_concat(components@));
            }
        }
        out
    }
}

} // verus!
