//! What rule checking reads of an annotation record: its flags, and the label
//! and type of each shape.
use crate::collections::{
    count_entries, counts_get_index, counts_index_of, counts_insert, counts_len, counts_new,
    flag_items, flag_set_contains, flag_set_is_empty, key_index, FlagSet,
};
use crate::expr::{bindings_view, Bindings};
use vstd::prelude::*;

verus! {

/// One shape of a record: its label and its type (`point`, `rectangle`, ...).
#[derive(Clone, Debug, PartialEq, Eq)]
pub struct Shape {
    pub label: String,
    pub shape_type: String,
}

/// An annotation record: its flags, in order, and its shapes. A flag name that
/// appears more than once counts as set when any of its entries sets it.
#[derive(Clone, Debug, PartialEq, Eq)]
pub struct Record {
    pub flags: Vec<(String, bool)>,
    pub shapes: Vec<Shape>,
}

pub open spec fn is_point(shape_type: Seq<char>) -> bool {
    shape_type == "point"@
}

/// The labels of the `point` shapes, in order.
pub open spec fn point_labels(shapes: Seq<Shape>) -> Seq<Seq<char>>
    decreases shapes.len(),
{
    if shapes.len() == 0 {
        Seq::empty()
    } else {
        let rest = point_labels(shapes.drop_last());
        if is_point(shapes.last().shape_type@) {
            rest.push(shapes.last().label@)
        } else {
            rest
        }
    }
}

/// `counts` after one more occurrence of `label`.
pub open spec fn add_label(counts: Seq<(Seq<char>, usize)>, label: Seq<char>) -> Seq<
    (Seq<char>, usize),
> {
    match key_index(counts, label) {
        Some(i) => counts.update(i, (label, (counts[i].1 + 1) as usize)),
        None => counts.push((label, 1usize)),
    }
}

/// Each distinct label with its number of occurrences, in order of first occurrence.
pub open spec fn label_counts(labels: Seq<Seq<char>>) -> Seq<(Seq<char>, usize)>
    decreases labels.len(),
{
    if labels.len() == 0 {
        Seq::empty()
    } else {
        add_label(label_counts(labels.drop_last()), labels.last())
    }
}

/// The bindings that the rules of a record are evaluated under: each label of
/// a `point` shape, bound to how many `point` shapes carry it.
pub open spec fn record_bindings(shapes: Seq<Shape>) -> Seq<(Seq<char>, isize)> {
    label_counts(point_labels(shapes)).map_values(|p: (Seq<char>, usize)| (p.0, p.1 as isize))
}

proof fn lemma_key_index_bounds(entries: Seq<(Seq<char>, usize)>, key: Seq<char>)
    ensures
        match key_index(entries, key) {
            Some(i) => 0 <= i < entries.len() && entries[i].0 == key,
            None => true,
        },
    decreases entries.len(),
{
    if entries.len() > 0 {
        lemma_key_index_bounds(entries.drop_last(), key);
    }
}

fn is_point_type(shape_type: &String) -> (r: bool)
    ensures
        r == is_point(shape_type@),
{
    let point = "point".to_owned();
    shape_type.eq(&point)
}

/// Builds the bindings of a record's shapes: only `point` shapes count, and
/// labels keep the order in which they first occur.
pub fn label_bindings(shapes: &Vec<Shape>) -> (r: Bindings)
    requires
        shapes@.len() <= isize::MAX,
    ensures
        bindings_view(r@) == record_bindings(shapes@),
{
    let mut counts = counts_new();
    let mut i: usize = 0;
    while i < shapes.len()
        invariant
            i <= shapes@.len() <= isize::MAX,
            count_entries(counts) == label_counts(point_labels(shapes@.subrange(0, i as int))),
            count_entries(counts).len() <= i,
            forall|j: int|
                0 <= j < count_entries(counts).len() ==> #[trigger] count_entries(counts)[j].1
                    <= i,
        decreases shapes@.len() - i,
    {
        let ghost before = count_entries(counts);
        let ghost labels = point_labels(shapes@.subrange(0, i as int));
        assert(shapes@.subrange(0, i + 1).drop_last() =~= shapes@.subrange(0, i as int));
        assert(shapes@.subrange(0, i + 1).last() == shapes@[i as int]);
        if is_point_type(&shapes[i].shape_type) {
            let label = shapes[i].label.clone();
            proof {
                lemma_key_index_bounds(before, label@);
                assert(labels.push(label@).drop_last() =~= labels);
            }
            match counts_index_of(&counts, &label) {
                Some(j) => {
                    let (_, c) = counts_get_index(&counts, j);
                    assert(c == before[j as int].1);
                    assert(c <= i);
                    counts_insert(&mut counts, label, c + 1);
                },
                None => {
                    counts_insert(&mut counts, label, 1);
                },
            }
            assert(count_entries(counts) == add_label(before, label@));
            assert(point_labels(shapes@.subrange(0, i + 1)) == labels.push(label@));
        } else {
            assert(point_labels(shapes@.subrange(0, i + 1)) == labels);
        }
        i = i + 1;
    }
    assert(shapes@.subrange(0, i as int) =~= shapes@);
    let n = counts_len(&counts);
    let mut vars: Bindings = Vec::new();
    let mut k: usize = 0;
    while k < n
        invariant
            k <= n == count_entries(counts).len(),
            count_entries(counts) == label_counts(point_labels(shapes@)),
            forall|j: int|
                0 <= j < count_entries(counts).len() ==> #[trigger] count_entries(counts)[j].1
                    <= isize::MAX,
            bindings_view(vars@) =~= count_entries(counts).subrange(0, k as int).map_values(
                |p: (Seq<char>, usize)| (p.0, p.1 as isize),
            ),
        decreases n - k,
    {
        let (name, c) = counts_get_index(&counts, k);
        assert(c <= isize::MAX) by {
            assert(count_entries(counts)[k as int].1 <= isize::MAX);
        }
        let ghost before = vars@;
        vars.push((name, c as isize));
        proof {
            let f = |p: (Seq<char>, usize)| (p.0, p.1 as isize);
            let es = count_entries(counts);
            assert(es.subrange(0, k + 1) =~= es.subrange(0, k as int).push(es[k as int]));
            assert(bindings_view(vars@) =~= bindings_view(before).push((name@, c as isize)));
            assert(es.subrange(0, k + 1).map_values(f) =~= es.subrange(0, k as int).map_values(
                f,
            ).push(f(es[k as int])));
        }
        k = k + 1;
    }
    assert(count_entries(counts).subrange(0, k as int) =~= count_entries(counts));
    assert(bindings_view(vars@) =~= record_bindings(shapes@));
    vars
}

/// Whether some flag of the record that is set is named in `names`.
pub open spec fn sets_one_of(flags: Seq<(String, bool)>, names: Seq<Seq<char>>) -> bool {
    exists|i: int| 0 <= i < flags.len() && flags[i].1 && names.contains(#[trigger] flags[i].0@)
}

/// Whether a record with these flags is left out of the check: when some flags
/// are required and the record sets none of them, or when it sets an ignored one.
pub open spec fn skipped_by_flags(
    flags: Seq<(String, bool)>,
    required: Seq<Seq<char>>,
    ignored: Seq<Seq<char>>,
) -> bool {
    (required.len() > 0 && !sets_one_of(flags, required)) || sets_one_of(flags, ignored)
}

/// The flag gate: `true` when a record with `flags` is to be skipped.
pub fn is_skipped(flags: &Vec<(String, bool)>, required: &FlagSet, ignored: &FlagSet) -> (r: bool)
    ensures
        r == skipped_by_flags(flags@, flag_items(*required), flag_items(*ignored)),
{
    let mut any_required = false;
    let mut any_ignored = false;
    let mut i: usize = 0;
    while i < flags.len()
        invariant
            i <= flags@.len(),
            any_required == exists|j: int|
                0 <= j < i && flags@[j].1 && flag_items(*required).contains(
                    #[trigger] flags@[j].0@,
                ),
            any_ignored == exists|j: int|
                0 <= j < i && flags@[j].1 && flag_items(*ignored).contains(
                    #[trigger] flags@[j].0@,
                ),
        decreases flags@.len() - i,
    {
        if flags[i].1 {
            if flag_set_contains(required, &flags[i].0) {
                any_required = true;
            }
            if flag_set_contains(ignored, &flags[i].0) {
                any_ignored = true;
            }
        }
        i = i + 1;
    }
    (!flag_set_is_empty(required) && !any_required) || any_ignored
}

} // verus!
