//! The drawings of a directory: which file names count as drawings, and the
//! order in which they are printed.

use vstd::prelude::*;
use crate::protocol::chars_of;

verus! {

/// The end of the name of a file that holds a drawing.
pub const SVG_SUFFIX: &'static str = ".svg";

/// The texts of a list of strings.
pub open spec fn texts(names: Seq<String>) -> Seq<Seq<char>> {
    names.map_values(|name: String| name@)
}

/// The name is that of a drawing.
pub open spec fn is_svg_name(name: Seq<char>) -> bool {
    SVG_SUFFIX@.is_suffix_of(name)
}

/// The names of drawings among the names, in their order.
pub open spec fn svg_names(names: Seq<Seq<char>>) -> Seq<Seq<char>>
    decreases names.len(),
{
    if names.len() == 0 {
        Seq::empty()
    } else if is_svg_name(names.last()) {
        svg_names(names.drop_last()).push(names.last())
    } else {
        svg_names(names.drop_last())
    }
}

/// The first text comes before the second in the order of a dictionary over
/// the codes of the characters, or the two are the same.
pub open spec fn precedes(first: Seq<char>, second: Seq<char>) -> bool
    decreases first.len(),
{
    if first.len() == 0 {
        true
    } else if second.len() == 0 {
        false
    } else if first[0] != second[0] {
        first[0] < second[0]
    } else {
        precedes(first.skip(1), second.skip(1))
    }
}

/// Each text comes before those behind it, or is the same.
pub open spec fn ascending(names: Seq<Seq<char>>) -> bool {
    forall|i: int, j: int| 0 <= i < j < names.len() ==> precedes(names[i], names[j])
}

/// Of two texts one comes before the other, or they are the same.
pub proof fn lemma_precedes_total(first: Seq<char>, second: Seq<char>)
    ensures
        precedes(first, second) || precedes(second, first),
    decreases first.len(),
{
    if first.len() > 0 && second.len() > 0 && first[0] == second[0] {
        lemma_precedes_total(first.skip(1), second.skip(1));
    }
}

/// What comes before a text comes before all that the text comes before.
pub proof fn lemma_precedes_transitive(first: Seq<char>, second: Seq<char>, third: Seq<char>)
    requires
        precedes(first, second),
        precedes(second, third),
    ensures
        precedes(first, third),
    decreases first.len(),
{
    if first.len() > 0 && second.len() > 0 && third.len() > 0 && first[0] == second[0] && second[0]
        == third[0] {
        lemma_precedes_transitive(first.skip(1), second.skip(1), third.skip(1));
    }
}

/// Whether the first text comes before the second, or is the same.
pub fn comes_before(first: &str, second: &str) -> (before: bool)
    ensures
        before == precedes(first@, second@),
{
    let left = chars_of(first);
    let right = chars_of(second);
    let mut i: usize = 0;
    assert(first@.skip(0) =~= first@ && second@.skip(0) =~= second@);
    while i < left.len() && i < right.len()
        invariant
            i <= left.len(),
            i <= right.len(),
            left@ == first@,
            right@ == second@,
            precedes(first@, second@) == precedes(first@.skip(i as int), second@.skip(i as int)),
        decreases left.len() - i,
    {
        proof {
            assert(first@.skip(i as int).skip(1) =~= first@.skip(i + 1));
            assert(second@.skip(i as int).skip(1) =~= second@.skip(i + 1));
        }
        if left[i] != right[i] {
            return left[i] < right[i];
        }
        i += 1;
    }
    i == left.len()
}

/// Whether the name is that of a drawing.
pub fn has_svg_suffix(name: &str) -> (svg: bool)
    ensures
        svg == is_svg_name(name@),
{
    let chars = chars_of(name);
    let suffix = chars_of(SVG_SUFFIX);
    if suffix.len() > chars.len() {
        return false;
    }
    let offset: usize = chars.len() - suffix.len();
    let mut i: usize = 0;
    while i < suffix.len()
        invariant
            i <= suffix.len(),
            offset + suffix.len() == chars.len(),
            chars@ == name@,
            suffix@ == SVG_SUFFIX@,
            forall|k: int| 0 <= k < i ==> suffix@[k] == chars@[offset + k],
        decreases suffix.len() - i,
    {
        if suffix[i] != chars[offset + i] {
            return false;
        }
        i += 1;
    }
    true
}

/// Puts a name into an ascending list, behind the names that are the same.
fn insert_sorted(files: &mut Vec<String>, name: String)
    requires
        ascending(texts(old(files)@)),
    ensures
        ascending(texts(final(files)@)),
        texts(final(files)@).to_multiset() == texts(old(files)@).to_multiset().insert(name@),
{
    let ghost before = texts(files@);
    let mut pos: usize = 0;
    while pos < files.len() && comes_before(files[pos].as_str(), name.as_str())
        invariant
            pos <= files.len(),
            files@ == old(files)@,
            forall|k: int| 0 <= k < pos ==> precedes(#[trigger] texts(files@)[k], name@),
        decreases files.len() - pos,
    {
        pos += 1;
    }
    files.insert(pos, name);
    proof {
        let after = texts(files@);
        assert forall|i: int, j: int| 0 <= i < j < after.len() implies precedes(
            after[i],
            after[j],
        ) by {
            if j == pos {
                assert(after[i] == before[i]);
            } else if i == pos {
                lemma_precedes_total(before[pos as int], name@);
                if j - 1 > pos {
                    lemma_precedes_transitive(name@, before[pos as int], before[j - 1]);
                }
            } else {
                let from = if i < pos {
                    i
                } else {
                    i - 1
                };
                let to = if j < pos {
                    j
                } else {
                    j - 1
                };
                assert(after[i] == before[from] && after[j] == before[to]);
            }
        }
        broadcast use vstd::seq_lib::group_to_multiset_ensures;

        assert(after.remove(pos as int) =~= before);
    }
}

/// The names of the drawings among the names of a directory, in ascending
/// order: those that end in `.svg`, each as often as it is given.
pub fn svg_file_names(names: Vec<String>) -> (files: Vec<String>)
    ensures
        ascending(texts(files@)),
        texts(files@).to_multiset() == svg_names(texts(names@)).to_multiset(),
{
    let ghost all = texts(names@);
    let mut files: Vec<String> = Vec::new();
    assert(texts(files@) =~= Seq::<Seq<char>>::empty());
    for name in it: names
        invariant
            it.seq() == names@,
            all == texts(names@),
            ascending(texts(files@)),
            texts(files@).to_multiset() == svg_names(all.take(it.index() as int)).to_multiset(),
    {
        proof {
            broadcast use vstd::seq_lib::group_to_multiset_ensures;

            assert(all.take(it.index() + 1).drop_last() =~= all.take(it.index() as int));
        }
        if has_svg_suffix(name.as_str()) {
            insert_sorted(&mut files, name);
        }
    }
    assert(all.take(all.len() as int) =~= all);
    files
}

} // verus!
