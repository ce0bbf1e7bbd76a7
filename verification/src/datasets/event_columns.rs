//! Dynamic columns of decoded event fields, kept in the order in which the
//! fields were first seen.

use ethers_core::abi::Token;
use vstd::prelude::*;

verus! {

/// A decoded event value, `ethers_core::abi::Token`. Nothing is claimed of what
/// such a value holds: the columns carry it from the decoder to the caller.
#[verifier::external_type_specification]
#[verifier::external_body]
pub struct ExToken(Token);

/// The columns, or a batch of decoded fields, as names with their values.
pub open spec fn event_view(entries: Seq<(String, Vec<Token>)>) -> Seq<(Seq<char>, Seq<Token>)> {
    entries.map_values(|entry: (String, Vec<Token>)| (entry.0@, entry.1@))
}

/// Whether `position` is the first place in `columns` that holds the field `name`.
pub open spec fn is_position_of(
    columns: Seq<(Seq<char>, Seq<Token>)>,
    name: Seq<char>,
    position: int,
) -> bool {
    &&& 0 <= position < columns.len()
    &&& columns[position].0 == name
    &&& forall|j: int| 0 <= j < position ==> columns[j].0 != name
}

/// The place of the column of a field, if there is one.
pub open spec fn position_of(columns: Seq<(Seq<char>, Seq<Token>)>, name: Seq<char>) -> Option<
    int,
> {
    if exists|position: int| is_position_of(columns, name, position) {
        Some(choose|position: int| is_position_of(columns, name, position))
    } else {
        None
    }
}

/// The values of a field: those of its column, none where it has no column.
pub open spec fn values_of(columns: Seq<(Seq<char>, Seq<Token>)>, name: Seq<char>) -> Seq<Token> {
    match position_of(columns, name) {
        Some(position) => columns[position].1,
        None => Seq::empty(),
    }
}

/// The columns after the values of one field have arrived: they extend the
/// column of the field, or start a new last column.
pub open spec fn with_field(
    columns: Seq<(Seq<char>, Seq<Token>)>,
    name: Seq<char>,
    values: Seq<Token>,
) -> Seq<(Seq<char>, Seq<Token>)> {
    match position_of(columns, name) {
        Some(position) => columns.update(position, (name, columns[position].1 + values)),
        None => columns.push((name, values)),
    }
}

/// The columns after a batch of decoded fields has arrived, entry by entry.
pub open spec fn merged(
    columns: Seq<(Seq<char>, Seq<Token>)>,
    batch: Seq<(Seq<char>, Seq<Token>)>,
) -> Seq<(Seq<char>, Seq<Token>)>
    decreases batch.len(),
{
    if batch.len() == 0 {
        columns
    } else {
        with_field(merged(columns, batch.drop_last()), batch.last().0, batch.last().1)
    }
}

/// The values that a batch holds for a field, in the order of the batch.
pub open spec fn contributed(batch: Seq<(Seq<char>, Seq<Token>)>, name: Seq<char>) -> Seq<Token>
    decreases batch.len(),
{
    if batch.len() == 0 {
        Seq::empty()
    } else if batch.last().0 == name {
        contributed(batch.drop_last(), name) + batch.last().1
    } else {
        contributed(batch.drop_last(), name)
    }
}

/// The fields that have a column, or that a batch holds values for.
pub open spec fn field_names(columns: Seq<(Seq<char>, Seq<Token>)>) -> Set<Seq<char>> {
    Set::new(|name: Seq<char>| exists|i: int| 0 <= i < columns.len() && columns[i].0 == name)
}

/// Whether no field has two columns.
pub open spec fn names_distinct(columns: Seq<(Seq<char>, Seq<Token>)>) -> bool {
    forall|i: int, j: int| 0 <= i < j < columns.len() ==> columns[i].0 != columns[j].0
}

/// A field has at most one first place.
pub proof fn lemma_position_unique(
    columns: Seq<(Seq<char>, Seq<Token>)>,
    name: Seq<char>,
    position: int,
)
    requires
        is_position_of(columns, name, position),
    ensures
        position_of(columns, name) == Some(position),
{
    let chosen = choose|p: int| is_position_of(columns, name, p);
    assert(is_position_of(columns, name, chosen));
    if chosen < position {
        assert(columns[chosen].0 != name);
    } else if position < chosen {
        assert(columns[position].0 != name);
    }
}

/// A field that no column is named after has no place.
pub proof fn lemma_position_none(columns: Seq<(Seq<char>, Seq<Token>)>, name: Seq<char>)
    requires
        forall|j: int| 0 <= j < columns.len() ==> columns[j].0 != name,
    ensures
        position_of(columns, name) is None,
{
    if exists|position: int| is_position_of(columns, name, position) {
        let chosen = choose|p: int| is_position_of(columns, name, p);
        assert(columns[chosen].0 != name);
    }
}

/// Looks up the column of a field.
pub fn find_field(columns: &Vec<(String, Vec<Token>)>, name: &String) -> (position: Option<usize>)
    ensures
        match position {
            Some(p) => position_of(event_view(columns@), name@) == Some(p as int),
            None => position_of(event_view(columns@), name@) is None,
        },
{
    let mut i: usize = 0;
    while i < columns.len()
        invariant
            i <= columns.len(),
            forall|j: int| 0 <= j < i ==> event_view(columns@)[j].0 != name@,
        decreases columns.len() - i,
    {
        if columns[i].0 == *name {
            proof {
                lemma_position_unique(event_view(columns@), name@, i as int);
            }
            return Some(i);
        }
        i += 1;
    }
    proof {
        lemma_position_none(event_view(columns@), name@);
    }
    None
}

/// Adds the values of one decoded field: to the end of its column, or as a new
/// last column where the field has none yet.
pub fn merge_field(columns: &mut Vec<(String, Vec<Token>)>, name: String, values: Vec<Token>)
    ensures
        event_view(final(columns)@) == with_field(event_view(old(columns)@), name@, values@),
{
    let mut values = values;
    let ghost added = values@;
    match find_field(columns, &name) {
        Some(position) => {
            columns[position].1.append(&mut values);
            assert(event_view(columns@) =~= with_field(event_view(old(columns)@), name@, added));
        },
        None => {
            columns.push((name, values));
            assert(event_view(columns@) =~= with_field(event_view(old(columns)@), name@, values@));
        },
    }
}

/// Adds a batch of decoded fields, entry by entry, in the order of the batch.
pub fn merge_events(columns: &mut Vec<(String, Vec<Token>)>, batch: Vec<(String, Vec<Token>)>)
    ensures
        event_view(final(columns)@) == merged(event_view(old(columns)@), event_view(batch@)),
{
    let ghost arrived = event_view(batch@);
    for entry in entries: batch
        invariant
            arrived == event_view(batch@),
            entries.seq() == batch@,
            event_view(columns@) == merged(
                event_view(old(columns)@),
                arrived.take(entries.index() as int),
            ),
    {
        let (name, values) = entry;
        proof {
            let i = entries.index() as int;
            assert(arrived.take(i + 1).drop_last() == arrived.take(i));
            assert(arrived.take(i + 1).last() == (name@, values@));
        }
        merge_field(columns, name, values);
    }
    assert(arrived.take(batch@.len() as int) == arrived);
}

/// Adding the values of a field changes no name that was there and no place.
pub proof fn lemma_field_keeps_places(
    columns: Seq<(Seq<char>, Seq<Token>)>,
    name: Seq<char>,
    values: Seq<Token>,
)
    ensures
        with_field(columns, name, values).len() >= columns.len(),
        forall|i: int|
            0 <= i < columns.len() ==> (#[trigger] with_field(columns, name, values)[i]).0
                == columns[i].0,
        position_of(columns, name) is Some ==> with_field(columns, name, values).len()
            == columns.len(),
        position_of(columns, name) is None ==> with_field(columns, name, values).len()
            == columns.len() + 1 && with_field(columns, name, values).last().0 == name,
{
    match position_of(columns, name) {
        Some(position) => {
            assert(is_position_of(columns, name, position));
        },
        None => {},
    }
}

/// After the values of a field have arrived, that field has them behind the
/// values it had, and every other field has the values it had.
pub proof fn lemma_values_after_field(
    columns: Seq<(Seq<char>, Seq<Token>)>,
    name: Seq<char>,
    values: Seq<Token>,
    field: Seq<char>,
)
    ensures
        values_of(with_field(columns, name, values), field) == if field == name {
            values_of(columns, field) + values
        } else {
            values_of(columns, field)
        },
{
    let after = with_field(columns, name, values);
    lemma_field_keeps_places(columns, name, values);
    match position_of(columns, field) {
        Some(position) => {
            assert(is_position_of(columns, field, position));
            assert(is_position_of(after, field, position));
            lemma_position_unique(after, field, position);
            if field != name {
                match position_of(columns, name) {
                    Some(other) => {
                        assert(is_position_of(columns, name, other));
                    },
                    None => {},
                }
            }
        },
        None => {
            if exists|j: int| 0 <= j < columns.len() && columns[j].0 == field {
                lemma_position_exists(columns, field, columns.len() as int);
            }
            if field == name {
                assert(is_position_of(after, field, columns.len() as int));
                lemma_position_unique(after, field, columns.len() as int);
                assert(Seq::<Token>::empty() + values == values);
            } else {
                lemma_position_none(after, field);
            }
        },
    }
}

/// A field that names one of the first `count` columns has a place.
pub proof fn lemma_position_exists(
    columns: Seq<(Seq<char>, Seq<Token>)>,
    name: Seq<char>,
    count: int,
)
    requires
        0 <= count <= columns.len(),
        exists|j: int| 0 <= j < count && columns[j].0 == name,
    ensures
        position_of(columns, name) is Some,
    decreases count,
{
    let j = choose|j: int| 0 <= j < count && columns[j].0 == name;
    if exists|k: int| 0 <= k < j && columns[k].0 == name {
        lemma_position_exists(columns, name, j);
    } else {
        assert(is_position_of(columns, name, j));
    }
}

/// After a batch has arrived, each field has the values it had, and behind
/// them the values that the batch holds for it, in the order of the batch.
pub proof fn lemma_values_after_batch(
    columns: Seq<(Seq<char>, Seq<Token>)>,
    batch: Seq<(Seq<char>, Seq<Token>)>,
    field: Seq<char>,
)
    ensures
        values_of(merged(columns, batch), field) == values_of(columns, field) + contributed(
            batch,
            field,
        ),
    decreases batch.len(),
{
    if batch.len() == 0 {
        assert(values_of(columns, field) + Seq::<Token>::empty() == values_of(columns, field));
    } else {
        let earlier = merged(columns, batch.drop_last());
        lemma_values_after_batch(columns, batch.drop_last(), field);
        lemma_values_after_field(earlier, batch.last().0, batch.last().1, field);
        if batch.last().0 == field {
            assert(values_of(columns, field) + contributed(batch.drop_last(), field)
                + batch.last().1 == values_of(columns, field) + (contributed(
                batch.drop_last(),
                field,
            ) + batch.last().1));
        }
    }
}

/// Merging two batches one after the other is merging them as one batch.
pub proof fn lemma_merged_in_succession(
    columns: Seq<(Seq<char>, Seq<Token>)>,
    first: Seq<(Seq<char>, Seq<Token>)>,
    second: Seq<(Seq<char>, Seq<Token>)>,
)
    ensures
        merged(merged(columns, first), second) == merged(columns, first + second),
    decreases second.len(),
{
    if second.len() == 0 {
        assert(first + second == first);
    } else {
        lemma_merged_in_succession(columns, first, second.drop_last());
        assert((first + second).drop_last() == first + second.drop_last());
        assert((first + second).last() == second.last());
    }
}

/// Two batches that arrive one after the other accumulate: a field ends up
/// with the values it had, then those of the first batch, then those of the
/// second, each in its order of arrival, so that the column grows by the
/// number of values that the two batches hold for the field.
pub proof fn lemma_successive_batches_accumulate(
    columns: Seq<(Seq<char>, Seq<Token>)>,
    first: Seq<(Seq<char>, Seq<Token>)>,
    second: Seq<(Seq<char>, Seq<Token>)>,
    field: Seq<char>,
)
    ensures
        values_of(merged(merged(columns, first), second), field) == values_of(columns, field)
            + contributed(first, field) + contributed(second, field),
        values_of(merged(merged(columns, first), second), field).len() == values_of(
            columns,
            field,
        ).len() + contributed(first, field).len() + contributed(second, field).len(),
{
    lemma_values_after_batch(columns, first, field);
    lemma_values_after_batch(merged(columns, first), second, field);
}

/// A batch leaves the columns that were there in their places, under their
/// names, and puts new columns behind them.
pub proof fn lemma_batch_keeps_places(
    columns: Seq<(Seq<char>, Seq<Token>)>,
    batch: Seq<(Seq<char>, Seq<Token>)>,
)
    ensures
        merged(columns, batch).len() >= columns.len(),
        forall|i: int|
            0 <= i < columns.len() ==> (#[trigger] merged(columns, batch)[i]).0 == columns[i].0,
    decreases batch.len(),
{
    if batch.len() > 0 {
        let earlier = merged(columns, batch.drop_last());
        lemma_batch_keeps_places(columns, batch.drop_last());
        lemma_field_keeps_places(earlier, batch.last().0, batch.last().1);
        assert forall|i: int| 0 <= i < columns.len() implies (#[trigger] merged(
            columns,
            batch,
        )[i]).0 == columns[i].0 by {
            assert(with_field(earlier, batch.last().0, batch.last().1)[i].0 == earlier[i].0);
        }
    }
}

/// After the values of a field have arrived, the fields with a column are those
/// that had one, and that field.
pub proof fn lemma_field_names_after_field(
    columns: Seq<(Seq<char>, Seq<Token>)>,
    name: Seq<char>,
    values: Seq<Token>,
)
    ensures
        field_names(with_field(columns, name, values)) == field_names(columns).insert(name),
{
    let after = with_field(columns, name, values);
    lemma_field_keeps_places(columns, name, values);
    assert forall|field: Seq<char>| field_names(after).contains(field) implies field_names(
        columns,
    ).insert(name).contains(field) by {
        let i = choose|i: int| 0 <= i < after.len() && after[i].0 == field;
        if i < columns.len() {
            assert(columns[i].0 == field);
        }
    }
    assert forall|field: Seq<char>| field_names(columns).insert(name).contains(
        field,
    ) implies field_names(after).contains(field) by {
        if field_names(columns).contains(field) {
            let i = choose|i: int| 0 <= i < columns.len() && columns[i].0 == field;
            assert(after[i].0 == field);
        } else {
            match position_of(columns, name) {
                Some(position) => {
                    assert(is_position_of(columns, name, position));
                    assert(after[position].0 == name);
                },
                None => {
                    assert(after[after.len() - 1].0 == name);
                },
            }
        }
    }
    assert(field_names(after) =~= field_names(columns).insert(name));
}

/// After a batch has arrived, the fields with a column are those that had one
/// and those that the batch names: no field is lost, and none appears that the
/// batch does not name.
pub proof fn lemma_field_names_after_batch(
    columns: Seq<(Seq<char>, Seq<Token>)>,
    batch: Seq<(Seq<char>, Seq<Token>)>,
)
    ensures
        field_names(merged(columns, batch)) == field_names(columns).union(field_names(batch)),
    decreases batch.len(),
{
    if batch.len() == 0 {
        assert(field_names(batch) =~= Set::<Seq<char>>::empty());
        assert(field_names(columns).union(field_names(batch)) =~= field_names(columns));
    } else {
        let earlier = batch.drop_last();
        let name = batch.last().0;
        lemma_field_names_after_batch(columns, earlier);
        lemma_field_names_after_field(merged(columns, earlier), name, batch.last().1);
        assert forall|field: Seq<char>| field_names(batch).contains(field) <==> field_names(
            earlier,
        ).insert(name).contains(field) by {
            if field_names(batch).contains(field) {
                let i = choose|i: int| 0 <= i < batch.len() && batch[i].0 == field;
                if i < earlier.len() {
                    assert(earlier[i].0 == field);
                }
            }
            if field_names(earlier).contains(field) {
                let i = choose|i: int| 0 <= i < earlier.len() && earlier[i].0 == field;
                assert(batch[i].0 == field);
            }
            if field == name {
                assert(batch[batch.len() - 1].0 == field);
            }
        }
        assert(field_names(batch) =~= field_names(earlier).insert(name));
        assert(field_names(merged(columns, batch)) =~= field_names(columns).union(
            field_names(batch),
        ));
    }
}

/// Each field keeps a single column: where no field had two columns before a
/// batch, none has two after it.
pub proof fn lemma_names_stay_distinct(
    columns: Seq<(Seq<char>, Seq<Token>)>,
    batch: Seq<(Seq<char>, Seq<Token>)>,
)
    requires
        names_distinct(columns),
    ensures
        names_distinct(merged(columns, batch)),
    decreases batch.len(),
{
    if batch.len() > 0 {
        let earlier = merged(columns, batch.drop_last());
        let name = batch.last().0;
        let after = with_field(earlier, name, batch.last().1);
        lemma_names_stay_distinct(columns, batch.drop_last());
        lemma_field_keeps_places(earlier, name, batch.last().1);
        assert forall|i: int, j: int| 0 <= i < j < after.len() implies after[i].0
            != after[j].0 by {
            if j < earlier.len() {
                assert(after[i].0 == earlier[i].0);
                assert(after[j].0 == earlier[j].0);
            } else {
                assert(after[i].0 == earlier[i].0);
                if earlier[i].0 == name {
                    lemma_position_exists(earlier, name, earlier.len() as int);
                }
            }
        }
    }
}

} // verus!
