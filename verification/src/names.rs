use vstd::prelude::*;

use crate::probe::{file_name_of, path_file_name};
use crate::text::{
    chars_le, find_last_dot, last_dot_index, last_segment, lemma_chars_le_total,
    lemma_chars_le_trans, lemma_last_dot_index_bounds, str_eq, str_le_chars, trailing_component,
};
use vstd::seq_lib::{to_multiset_build, to_multiset_insert};

verus! {

/// Whether splitting `filename` on its last '.' yields a non-empty base and
/// a non-empty extension; when it does, also that extension.
pub fn file_check_extension<'a>(filename: &'a str) -> (r: (bool, &'a str))
    ensures
        r.0 == (1 <= last_dot_index(filename@) && last_dot_index(filename@) + 1
            < filename@.len()),
        r.0 ==> r.1@ == trailing_component(filename@),
        !r.0 ==> r.1@ == Seq::<char>::empty(),
{
    proof {
        reveal_strlit("");
        assert(""@ =~= Seq::<char>::empty());
    }
    let n = filename.unicode_len();
    match find_last_dot(filename) {
        Some(d) => {
            proof {
                lemma_last_dot_index_bounds(filename@);
            }
            if d >= 1 && d + 1 < n {
                (true, filename.substring_char(d + 1, n))
            } else {
                (false, "")
            }
        },
        None => (false, ""),
    }
}

/// A file-name component with its last extension removed: the text before
/// its last '.', kept whole when it has no '.' past its first character (a
/// component opening with its only '.' is a hidden file, not an extension).
pub open spec fn stem_of_component(n: Seq<char>) -> Seq<char> {
    if last_dot_index(n) >= 1 {
        n.subrange(0, last_dot_index(n))
    } else {
        n
    }
}

/// Removes the extension from a file name: the final component of the
/// path, as the platform's path syntax reads it, with the text after that
/// component's last '.' stripped; a path without a final component is
/// returned whole.
pub fn file_remove_extension(filename: &str) -> (r: String)
    ensures
        match file_name_of(filename@) {
            Some(n) => r@ == stem_of_component(n),
            None => r@ == filename@,
        },
{
    match path_file_name(filename) {
        Some(name) => {
            match find_last_dot(name.as_str()) {
                Some(d) => {
                    if d >= 1 {
                        proof {
                            lemma_last_dot_index_bounds(name@);
                        }
                        name.as_str().substring_char(0, d).to_owned()
                    } else {
                        name
                    }
                },
                None => name,
            }
        },
        None => filename.to_owned(),
    }
}

/// The text after the last '.' of `s`, or all of `s` when it holds none.
fn last_segment_exec(s: &str) -> (r: String)
    ensures
        r@ == last_segment(s@),
{
    let n = s.unicode_len();
    match find_last_dot(s) {
        Some(d) => {
            proof {
                lemma_last_dot_index_bounds(s@);
            }
            s.substring_char(d + 1, n).to_owned()
        },
        None => s.to_owned(),
    }
}

/// Collects the extension of every file name in `filelist`, reading a name
/// without any '.' as its own extension, the way a split on '.' does.
pub fn file_extract_extensions(filelist: &Vec<String>) -> (r: Vec<String>)
    ensures
        r@.len() == filelist@.len(),
        forall|k: int| 0 <= k < r@.len() ==> r@[k]@ == last_segment(filelist@[k]@),
{
    let mut extensions: Vec<String> = Vec::new();
    let mut idx: usize = 0;
    while idx < filelist.len()
        invariant
            idx <= filelist@.len(),
            extensions@.len() == idx,
            forall|k: int| 0 <= k < idx ==> extensions@[k]@ == last_segment(filelist@[k]@),
        decreases filelist@.len() - idx,
    {
        let seg = last_segment_exec(filelist[idx].as_str());
        extensions.push(seg);
        idx += 1;
    }
    extensions
}

/// The file names of `names` whose extension (the text after the last '.',
/// or the whole name without one) equals `ext`.
pub open spec fn del_unwanted_spec(names: Seq<String>, ext: Seq<char>) -> Seq<String> {
    names.filter(|s: String| last_segment(s@) == ext)
}

/// Deletes every element whose extension does not equal `keeper_ext`,
/// keeping the survivors in their order.
pub fn file_del_unwanted_names(vctr: &mut Vec<String>, keeper_ext: &str)
    ensures
        final(vctr)@ == del_unwanted_spec(old(vctr)@, keeper_ext@),
{
    let ghost orig = old(vctr)@;
    let mut kept: Vec<String> = Vec::new();
    let mut idx: usize = 0;
    proof {
        reveal(Seq::filter);
        assert(kept@ =~= del_unwanted_spec(orig.take(0), keeper_ext@));
    }
    while idx < vctr.len()
        invariant
            idx <= orig.len(),
            vctr@ == orig,
            kept@ == del_unwanted_spec(orig.take(idx as int), keeper_ext@),
        decreases orig.len() - idx,
    {
        let item = &vctr[idx];
        let seg = last_segment_exec(item.as_str());
        let keep = str_eq(seg.as_str(), keeper_ext);
        if keep {
            kept.push(item.clone());
        }
        proof {
            let pred = |s: String| last_segment(s@) == keeper_ext@;
            orig.take(idx as int).lemma_filter_push(orig[idx as int], pred);
            assert(orig.take(idx as int).push(orig[idx as int]) =~= orig.take(idx + 1));
        }
        idx += 1;
    }
    proof {
        assert(orig.take(orig.len() as int) =~= orig);
    }
    *vctr = kept;
}

/// Whether `a` sorts no later than `b` when file names are ordered by
/// their extensions.
pub open spec fn ext_le(a: String, b: String) -> bool {
    chars_le(last_segment(a@), last_segment(b@))
}

/// The file names of `names` whose extension equals `e`, in their order.
pub open spec fn with_ext(names: Seq<String>, e: Seq<char>) -> Seq<String> {
    names.filter(|s: String| last_segment(s@) == e)
}

proof fn lemma_with_ext_add(a: Seq<String>, b: Seq<String>, e: Seq<char>)
    ensures
        with_ext(a + b, e) == with_ext(a, e) + with_ext(b, e),
{
    Seq::<String>::filter_distributes_over_add(a, b, |s: String| last_segment(s@) == e);
}

proof fn lemma_with_ext_singleton(x: String, e: Seq<char>)
    ensures
        with_ext(seq![x], e) == if last_segment(x@) == e {
            seq![x]
        } else {
            Seq::<String>::empty()
        },
{
    reveal_with_fuel(Seq::filter, 3);
    assert(seq![x].drop_last() =~= Seq::<String>::empty());
    if last_segment(x@) == e {
        assert(with_ext(seq![x], e) =~= seq![x]);
    } else {
        assert(with_ext(seq![x], e) =~= Seq::<String>::empty());
    }
}

proof fn lemma_with_ext_none(s: Seq<String>, e: Seq<char>)
    requires
        forall|i: int| 0 <= i < s.len() ==> last_segment(s[i]@) != e,
    ensures
        with_ext(s, e) == Seq::<String>::empty(),
    decreases s.len(),
{
    reveal(Seq::filter);
    if s.len() > 0 {
        assert forall|i: int|
            0 <= i < s.drop_last().len() implies last_segment(s.drop_last()[i]@) != e by {
            assert(s.drop_last()[i] == s[i]);
        }
        lemma_with_ext_none(s.drop_last(), e);
        assert(last_segment(s[s.len() - 1]@) != e);
    } else {
        assert(with_ext(s, e) =~= Seq::<String>::empty());
    }
}

/// Whether the file names of `s` are ordered by their extensions.
pub open spec fn sorted_by_ext(s: Seq<String>) -> bool {
    forall|p: int, q: int| 0 <= p < q < s.len() ==> ext_le(s[p], s[q])
}

/// The position in `out` before the first name whose extension sorts after
/// `seg`; inserting there keeps an extension-ordered list ordered.
fn insertion_point(out: &Vec<String>, seg: &str) -> (pos: usize)
    ensures
        pos <= out@.len(),
        forall|p: int| 0 <= p < pos ==> chars_le(last_segment(out@[p]@), seg@),
        pos < out@.len() ==> !chars_le(last_segment(out@[pos as int]@), seg@),
{
    let mut k: usize = 0;
    while k < out.len()
        invariant
            k <= out@.len(),
            forall|p: int| 0 <= p < k ==> chars_le(last_segment(out@[p]@), seg@),
        decreases out@.len() - k,
    {
        let oseg = last_segment_exec(out[k].as_str());
        if !str_le_chars(oseg.as_str(), seg) {
            return k;
        }
        k += 1;
    }
    k
}

/// Sorts a vector of file names by their extensions (the text after each
/// name's last '.', or the whole name without one), keeping exactly the
/// same names.  The sort is stable: for every extension, the names that
/// carry it come out in the order they went in.
pub fn file_sort_by_ext(vctr: &mut Vec<String>)
    ensures
        final(vctr)@.to_multiset() == old(vctr)@.to_multiset(),
        sorted_by_ext(final(vctr)@),
        forall|e: Seq<char>| #[trigger] with_ext(final(vctr)@, e) == with_ext(old(vctr)@, e),
{
    let ghost orig = old(vctr)@;
    let mut out: Vec<String> = Vec::new();
    let mut idx: usize = 0;
    proof {
        assert(orig.take(0) =~= Seq::<String>::empty());
        assert(out@.to_multiset() =~= orig.take(0).to_multiset());
        assert(out@ =~= orig.take(0));
    }
    while idx < vctr.len()
        invariant
            idx <= orig.len(),
            vctr@ == orig,
            out@.to_multiset() == orig.take(idx as int).to_multiset(),
            sorted_by_ext(out@),
            forall|e: Seq<char>| #[trigger] with_ext(out@, e) == with_ext(
                orig.take(idx as int),
                e,
            ),
        decreases orig.len() - idx,
    {
        let item = vctr[idx].clone();
        let seg = last_segment_exec(item.as_str());
        let pos = insertion_point(&out, seg.as_str());
        let ghost old_out = out@;
        out.insert(pos, item);
        proof {
            old_out.insert_ensures(pos as int, orig[idx as int]);
            to_multiset_insert(old_out, pos as int, orig[idx as int]);
            to_multiset_build(orig.take(idx as int), orig[idx as int]);
            assert(orig.take(idx as int).push(orig[idx as int]) =~= orig.take(idx + 1));
            assert forall|p: int, q: int| 0 <= p < q < out@.len() implies ext_le(
                out@[p],
                out@[q],
            ) by {
                let ins = pos as int;
                if q < ins {
                    assert(out@[p] == old_out[p] && out@[q] == old_out[q]);
                } else if p < ins && q == ins {
                    assert(out@[p] == old_out[p]);
                } else if p < ins && q > ins {
                    assert(out@[p] == old_out[p] && out@[q] == old_out[q - 1]);
                } else if p == ins {
                    assert(out@[q] == old_out[q - 1]);
                    lemma_chars_le_total(last_segment(old_out[ins]@), seg@);
                    if q - 1 > ins {
                        assert(ext_le(old_out[ins], old_out[q - 1]));
                        lemma_chars_le_trans(
                            seg@,
                            last_segment(old_out[ins]@),
                            last_segment(old_out[q - 1]@),
                        );
                    }
                } else {
                    assert(out@[p] == old_out[p - 1] && out@[q] == old_out[q - 1]);
                }
            }
            let itm = orig[idx as int];
            let ins = pos as int;
            let sub0 = old_out.subrange(0, ins);
            let sub1 = old_out.subrange(ins, old_out.len() as int);
            assert(old_out =~= sub0 + sub1);
            assert(out@ =~= (sub0 + seq![itm]) + sub1);
            assert(orig.take(idx + 1) =~= orig.take(idx as int) + seq![itm]);
            assert forall|e: Seq<char>| #[trigger] with_ext(out@, e) == with_ext(
                orig.take(idx + 1),
                e,
            ) by {
                assert(with_ext(old_out, e) == with_ext(orig.take(idx as int), e));
                lemma_with_ext_add(sub0 + seq![itm], sub1, e);
                lemma_with_ext_add(sub0, seq![itm], e);
                lemma_with_ext_add(sub0, sub1, e);
                lemma_with_ext_add(orig.take(idx as int), seq![itm], e);
                lemma_with_ext_singleton(itm, e);
                assert(with_ext(out@, e) == with_ext((sub0 + seq![itm]) + sub1, e));
                assert(with_ext(old_out, e) == with_ext(sub0 + sub1, e));
                assert(with_ext(orig.take(idx + 1), e) == with_ext(
                    orig.take(idx as int) + seq![itm],
                    e,
                ));
                if last_segment(itm@) == e {
                    assert forall|i: int|
                        0 <= i < sub1.len() implies last_segment(sub1[i]@) != e by {
                        assert(sub1[i] == old_out[ins + i]);
                        if last_segment(old_out[ins + i]@) == e {
                            if i > 0 {
                                assert(ext_le(old_out[ins], old_out[ins + i]));
                            } else {
                                lemma_chars_le_total(last_segment(old_out[ins]@), seg@);
                            }
                            assert(false);
                        }
                    }
                    lemma_with_ext_none(sub1, e);
                    assert(with_ext(out@, e) =~= with_ext(orig.take(idx + 1), e));
                } else {
                    assert(with_ext(out@, e) =~= with_ext(orig.take(idx + 1), e));
                }
            }
        }
        idx += 1;
    }
    proof {
        assert(orig.take(orig.len() as int) =~= orig);
    }
    *vctr = out;
}

/// Pulls the file name off the end of a path, as the platform's path
/// syntax reads it; a path without a final component yields the
/// diagnostic text instead.
pub fn file_path_to_fname(pathstr: &String) -> (r: String)
    ensures
        match file_name_of(pathstr@) {
            Some(p) => r@ == p,
            None => r@ == "Error: could not get filename"@,
        },
{
    match path_file_name(pathstr.as_str()) {
        Some(f) => f,
        None => "Error: could not get filename".to_owned(),
    }
}

} // verus!
