//! The outcome of a job, partition by partition.

use vstd::prelude::*;

verus! {

/// Which partitions of a job were completed, which failed and which were
/// skipped. A failure that came before its partition was known is recorded
/// without one. The order within each list carries no meaning.
pub struct FreezeSummary<P> {
    pub completed: Vec<P>,
    pub errored: Vec<Option<P>>,
    pub skipped: Vec<P>,
}

/// The outcome of a job as it is written to a report: the files of the
/// completed partitions, the files of the failed partitions that are known, and
/// the number of skipped partitions.
#[derive(Debug)]
pub struct SerializedFreezeSummary {
    pub completed_paths: Vec<String>,
    pub errored_paths: Vec<String>,
    pub n_skipped: u64,
}

/// The text of each path of a list.
pub open spec fn paths_text(paths: Seq<String>) -> Seq<Seq<char>> {
    paths.map_values(|path: String| path@)
}

/// The failed partitions that are known, in the order of the list.
pub open spec fn known_partitions<P>(errored: Seq<Option<P>>) -> Seq<P> {
    errored.filter_map(|partition: Option<P>| partition)
}

/// The paths of several partitions as one list, partition after partition.
pub open spec fn flattened(paths: Seq<Vec<String>>) -> Seq<Seq<char>> {
    paths.map_values(|of_partition: Vec<String>| paths_text(of_partition@)).flatten()
}

/// Whether `paths` holds, for each partition in turn, a list of paths that
/// `get_paths` may return for it.
pub open spec fn resolved<P, F: Fn(&P) -> Vec<String>>(
    get_paths: F,
    partitions: Seq<P>,
    paths: Seq<Vec<String>>,
) -> bool {
    &&& paths.len() == partitions.len()
    &&& forall|i: int|
        0 <= i < partitions.len() ==> call_ensures(get_paths, (&partitions[i],), #[trigger] paths[i])
}

/// Whether `get_paths` may be called for each of the partitions.
pub open spec fn resolvable<P, F: Fn(&P) -> Vec<String>>(get_paths: F, partitions: Seq<P>) -> bool {
    forall|i: int| 0 <= i < partitions.len() ==> call_requires(get_paths, (&#[trigger] partitions[i],))
}

/// Whether a serialized summary is what a summary comes to when `get_paths`
/// returns `completed` for the completed partitions and `errored` for the
/// failed partitions that are known.
pub open spec fn serializes<P, F: Fn(&P) -> Vec<String>>(
    get_paths: F,
    summary: FreezeSummary<P>,
    completed: Seq<Vec<String>>,
    errored: Seq<Vec<String>>,
    serialized: SerializedFreezeSummary,
) -> bool {
    &&& resolved(get_paths, summary.completed@, completed)
    &&& resolved(get_paths, known_partitions(summary.errored@), errored)
    &&& paths_text(serialized.completed_paths@) == flattened(completed)
    &&& paths_text(serialized.errored_paths@) == flattened(errored)
    &&& serialized.n_skipped == summary.skipped@.len()
}

/// Whether a serialized summary is what a summary comes to for some paths that
/// `get_paths` may return: for each completed partition and each failed
/// partition that is known its paths, in the order of the summary, and the
/// number of skipped partitions.
pub open spec fn is_serialized<P, F: Fn(&P) -> Vec<String>>(
    get_paths: F,
    summary: FreezeSummary<P>,
    serialized: SerializedFreezeSummary,
) -> bool {
    exists|completed: Seq<Vec<String>>, errored: Seq<Vec<String>>| #[trigger]
        serializes(get_paths, summary, completed, errored, serialized)
}

/// The paths of a list of items as one list, where `paths_of` settles the
/// paths of each item.
pub open spec fn settled_paths<A>(items: Seq<A>, paths_of: spec_fn(A) -> Seq<Seq<char>>) -> Seq<
    Seq<char>,
> {
    items.map_values(paths_of).flatten()
}

/// The paths of a failed partition: those of the partition if it is known, none otherwise.
pub open spec fn paths_if_known<P>(paths_of: spec_fn(P) -> Seq<Seq<char>>) -> spec_fn(
    Option<P>,
) -> Seq<Seq<char>> {
    |partition: Option<P>|
        match partition {
            Some(p) => paths_of(p),
            None => Seq::empty(),
        }
}

/// Whether `paths_of` settles what `get_paths` returns for every partition.
pub open spec fn settles<P, F: Fn(&P) -> Vec<String>>(
    get_paths: F,
    paths_of: spec_fn(P) -> Seq<Seq<char>>,
) -> bool {
    forall|partition: P, paths: Vec<String>| #[trigger]
        call_ensures(get_paths, (&partition,), paths) ==> paths_text(paths@) == paths_of(partition)
}

/// Joins the paths of several partitions into one list, partition after partition.
pub fn flatten_paths(paths: Vec<Vec<String>>) -> (all: Vec<String>)
    ensures
        paths_text(all@) == flattened(paths@),
{
    let mut all: Vec<String> = Vec::new();
    for of_partition in partitions: paths
        invariant
            partitions.seq() == paths@,
            paths_text(all@) == flattened(paths@.take(partitions.index() as int)),
    {
        let mut of_partition = of_partition;
        proof {
            let i = partitions.index() as int;
            let texts = |of_partition: Vec<String>| paths_text(of_partition@);
            assert(paths@.take(i + 1).map_values(texts) == paths@.take(i).map_values(texts).push(
                paths_text(of_partition@),
            ));
            paths@.take(i).map_values(texts).lemma_flatten_push(paths_text(of_partition@));
            assert(paths_text(all@ + of_partition@) == paths_text(all@) + paths_text(
                of_partition@,
            ));
        }
        all.append(&mut of_partition);
    }
    proof {
        assert(paths@.take(paths@.len() as int) == paths@);
    }
    all
}

/// Asks `get_paths` for the paths of each partition, in order.
pub fn resolve_partitions<P, F: Fn(&P) -> Vec<String>>(partitions: &Vec<P>, get_paths: &F) -> (paths:
    Vec<Vec<String>>)
    requires
        resolvable(*get_paths, partitions@),
    ensures
        resolved(*get_paths, partitions@, paths@),
{
    let mut paths: Vec<Vec<String>> = Vec::new();
    let mut i: usize = 0;
    while i < partitions.len()
        invariant
            i <= partitions.len(),
            resolvable(*get_paths, partitions@),
            resolved(*get_paths, partitions@.take(i as int), paths@),
        decreases partitions.len() - i,
    {
        let of_partition = get_paths(&partitions[i]);
        paths.push(of_partition);
        i += 1;
    }
    proof {
        assert(partitions@.take(partitions@.len() as int) == partitions@);
    }
    paths
}

/// Asks `get_paths` for the paths of each failed partition that is known, in
/// order. A failure without a partition is passed over.
pub fn resolve_known_partitions<P, F: Fn(&P) -> Vec<String>>(
    errored: &Vec<Option<P>>,
    get_paths: &F,
) -> (paths: Vec<Vec<String>>)
    requires
        resolvable(*get_paths, known_partitions(errored@)),
    ensures
        resolved(*get_paths, known_partitions(errored@), paths@),
{
    let mut paths: Vec<Vec<String>> = Vec::new();
    let mut i: usize = 0;
    proof {
        assert(errored@.take(0) == Seq::<Option<P>>::empty());
    }
    while i < errored.len()
        invariant
            i <= errored.len(),
            resolvable(*get_paths, known_partitions(errored@)),
            resolved(*get_paths, known_partitions(errored@.take(i as int)), paths@),
            known_partitions(errored@.take(i as int)).is_prefix_of(known_partitions(errored@)),
        decreases errored.len() - i,
    {
        proof {
            errored@.lemma_filter_map_take_succ(|partition: Option<P>| partition, i as int);
            lemma_known_partitions_of_prefix(errored@, i + 1);
        }
        match &errored[i] {
            Some(partition) => {
                proof {
                    let known = known_partitions(errored@.take(i as int));
                    let next = known_partitions(errored@.take(i + 1));
                    let all = known_partitions(errored@);
                    assert(next == known + seq![*partition]);
                    assert(next[known.len() as int] == *partition);
                    assert(next == all.subrange(0, next.len() as int));
                    assert(all[known.len() as int] == *partition);
                }
                let of_partition = get_paths(partition);
                paths.push(of_partition);
            },
            None => {},
        }
        i += 1;
    }
    proof {
        assert(errored@.take(errored@.len() as int) == errored@);
    }
    paths
}

/// The known partitions among the first failures are the first known
/// partitions of the whole list.
pub proof fn lemma_known_partitions_of_prefix<P>(errored: Seq<Option<P>>, count: int)
    requires
        0 <= count <= errored.len(),
    ensures
        known_partitions(errored.take(count)).is_prefix_of(known_partitions(errored)),
    decreases errored.len(),
{
    if count == errored.len() {
        assert(errored.take(count) == errored);
    } else {
        lemma_known_partitions_of_prefix(errored.drop_last(), count);
        assert(errored.drop_last().take(count) == errored.take(count));
    }
}

/// The paths of a list with one more item are the paths of the list, then
/// those of the item.
pub proof fn lemma_settled_paths_push<A>(
    items: Seq<A>,
    item: A,
    paths_of: spec_fn(A) -> Seq<Seq<char>>,
)
    ensures
        settled_paths(items.push(item), paths_of) == settled_paths(items, paths_of) + paths_of(
            item,
        ),
{
    assert(items.push(item).map_values(paths_of) == items.map_values(paths_of).push(
        paths_of(item),
    ));
    items.map_values(paths_of).lemma_flatten_push(paths_of(item));
}

/// Lists of paths that `get_paths` returned come, joined, to the settled paths.
pub proof fn lemma_resolved_paths_are_settled<P, F: Fn(&P) -> Vec<String>>(
    get_paths: F,
    paths_of: spec_fn(P) -> Seq<Seq<char>>,
    partitions: Seq<P>,
    paths: Seq<Vec<String>>,
)
    requires
        settles(get_paths, paths_of),
        resolved(get_paths, partitions, paths),
    ensures
        flattened(paths) == settled_paths(partitions, paths_of),
{
    assert(paths.map_values(|of_partition: Vec<String>| paths_text(of_partition@))
        =~= partitions.map_values(paths_of)) by {
        assert forall|i: int| 0 <= i < partitions.len() implies paths_text(paths[i]@) == paths_of(
            partitions[i],
        ) by {
            assert(call_ensures(get_paths, (&partitions[i],), paths[i]));
        }
    }
}

/// The paths of the failed partitions that are known are the paths of all
/// failures, a failure without a partition having none.
pub proof fn lemma_settled_paths_of_known<P>(
    errored: Seq<Option<P>>,
    paths_of: spec_fn(P) -> Seq<Seq<char>>,
)
    ensures
        settled_paths(known_partitions(errored), paths_of) == settled_paths(
            errored,
            paths_if_known(paths_of),
        ),
    decreases errored.len(),
{
    if errored.len() == 0 {
        assert(errored.map_values(paths_if_known(paths_of)) == Seq::<Seq<Seq<char>>>::empty());
        assert(known_partitions(errored).map_values(paths_of) == Seq::<Seq<Seq<char>>>::empty());
    } else {
        let earlier = errored.drop_last();
        lemma_settled_paths_of_known(earlier, paths_of);
        assert(errored == earlier.push(errored.last()));
        lemma_settled_paths_push(earlier, errored.last(), paths_if_known(paths_of));
        match errored.last() {
            Some(partition) => {
                assert(known_partitions(errored) == known_partitions(earlier).push(partition));
                lemma_settled_paths_push(known_partitions(earlier), partition, paths_of);
            },
            None => {
                assert(settled_paths(earlier, paths_if_known(paths_of)) + Seq::<
                    Seq<char>,
                >::empty() == settled_paths(earlier, paths_if_known(paths_of)));
            },
        }
    }
}

/// Taking one item out of a list takes its paths out of the bag of paths.
pub proof fn lemma_settled_paths_remove<A>(
    items: Seq<A>,
    position: int,
    paths_of: spec_fn(A) -> Seq<Seq<char>>,
)
    requires
        0 <= position < items.len(),
    ensures
        settled_paths(items, paths_of).to_multiset() == settled_paths(
            items.remove(position),
            paths_of,
        ).to_multiset().add(paths_of(items[position]).to_multiset()),
    decreases items.len(),
{
    let earlier = items.drop_last();
    let last = items.last();
    assert(items == earlier.push(last));
    lemma_settled_paths_push(earlier, last, paths_of);
    vstd::seq_lib::lemma_multiset_commutative(settled_paths(earlier, paths_of), paths_of(last));
    if position == items.len() - 1 {
        assert(items.remove(position) == earlier);
    } else {
        lemma_settled_paths_remove(earlier, position, paths_of);
        assert(items.remove(position) == earlier.remove(position).push(last));
        lemma_settled_paths_push(earlier.remove(position), last, paths_of);
        vstd::seq_lib::lemma_multiset_commutative(
            settled_paths(earlier.remove(position), paths_of),
            paths_of(last),
        );
        assert(settled_paths(items, paths_of).to_multiset() =~= settled_paths(
            items.remove(position),
            paths_of,
        ).to_multiset().add(paths_of(items[position]).to_multiset()));
    }
}

/// Lists that hold the same items, in whatever order, have the same paths, in
/// whatever order.
pub proof fn lemma_settled_paths_of_reordered<A>(
    items: Seq<A>,
    reordered: Seq<A>,
    paths_of: spec_fn(A) -> Seq<Seq<char>>,
)
    requires
        items.to_multiset() == reordered.to_multiset(),
    ensures
        settled_paths(items, paths_of).to_multiset() == settled_paths(
            reordered,
            paths_of,
        ).to_multiset(),
    decreases items.len(),
{
    items.to_multiset_ensures();
    reordered.to_multiset_ensures();
    if items.len() == 0 {
        assert(reordered.len() == 0);
        assert(items == reordered);
    } else {
        let last = items.last();
        let at = items.len() - 1;
        assert(items.contains(last));
        assert(items.to_multiset().count(last) > 0);
        assert(reordered.to_multiset().count(last) > 0);
        assert(reordered.contains(last));
        let position = reordered.index_of(last);
        assert(items.remove(at).to_multiset() == reordered.remove(position).to_multiset());
        lemma_settled_paths_of_reordered(items.remove(at), reordered.remove(position), paths_of);
        lemma_settled_paths_remove(items, at, paths_of);
        lemma_settled_paths_remove(reordered, position, paths_of);
    }
}

/// Where the paths of each partition are settled, so is the serialized
/// summary: it holds the paths of the completed partitions, then the paths of
/// the failed partitions that are known and of no others, each in the order of
/// the summary, and the number of skipped partitions.
pub proof fn lemma_serialized_with_settled_paths<P, F: Fn(&P) -> Vec<String>>(
    get_paths: F,
    paths_of: spec_fn(P) -> Seq<Seq<char>>,
    summary: FreezeSummary<P>,
    serialized: SerializedFreezeSummary,
)
    requires
        settles(get_paths, paths_of),
        is_serialized(get_paths, summary, serialized),
    ensures
        paths_text(serialized.completed_paths@) == settled_paths(summary.completed@, paths_of),
        paths_text(serialized.errored_paths@) == settled_paths(
            known_partitions(summary.errored@),
            paths_of,
        ),
        paths_text(serialized.errored_paths@) == settled_paths(
            summary.errored@,
            paths_if_known(paths_of),
        ),
        serialized.n_skipped == summary.skipped@.len(),
{
    let (completed, errored) = choose|completed: Seq<Vec<String>>, errored: Seq<Vec<String>>| #[trigger]
        serializes(get_paths, summary, completed, errored, serialized);
    lemma_resolved_paths_are_settled(get_paths, paths_of, summary.completed@, completed);
    lemma_resolved_paths_are_settled(
        get_paths,
        paths_of,
        known_partitions(summary.errored@),
        errored,
    );
    lemma_settled_paths_of_known(summary.errored@, paths_of);
}

/// The order of a summary carries no meaning: two summaries that hold the same
/// partitions in each of their lists, in whatever order, serialize to the same
/// paths, in whatever order, and to the same number of skipped partitions.
pub proof fn lemma_summary_order_is_immaterial<P, F: Fn(&P) -> Vec<String>>(
    get_paths: F,
    paths_of: spec_fn(P) -> Seq<Seq<char>>,
    summary: FreezeSummary<P>,
    reordered: FreezeSummary<P>,
    serialized: SerializedFreezeSummary,
    serialized_reordered: SerializedFreezeSummary,
)
    requires
        settles(get_paths, paths_of),
        summary.completed@.to_multiset() == reordered.completed@.to_multiset(),
        summary.errored@.to_multiset() == reordered.errored@.to_multiset(),
        summary.skipped@.to_multiset() == reordered.skipped@.to_multiset(),
        is_serialized(get_paths, summary, serialized),
        is_serialized(get_paths, reordered, serialized_reordered),
    ensures
        paths_text(serialized.completed_paths@).to_multiset() == paths_text(
            serialized_reordered.completed_paths@,
        ).to_multiset(),
        paths_text(serialized.errored_paths@).to_multiset() == paths_text(
            serialized_reordered.errored_paths@,
        ).to_multiset(),
        serialized.n_skipped == serialized_reordered.n_skipped,
{
    lemma_serialized_with_settled_paths(get_paths, paths_of, summary, serialized);
    lemma_serialized_with_settled_paths(get_paths, paths_of, reordered, serialized_reordered);
    lemma_settled_paths_of_reordered(summary.completed@, reordered.completed@, paths_of);
    lemma_settled_paths_of_reordered(
        summary.errored@,
        reordered.errored@,
        paths_if_known(paths_of),
    );
    summary.skipped@.to_multiset_ensures();
    reordered.skipped@.to_multiset_ensures();
}

} // verus!
