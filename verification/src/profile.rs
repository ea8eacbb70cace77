//! What a sampling profile says: in how many samples of a phase each function
//! was on top of the stack, and in how many it was anywhere in it.
use vstd::prelude::*;

use crate::text::{chars_of, same_text, text_between, texts};

verus! {

/// The parts of a render. The last one is the tail of an iteration.
pub const PHASE_COUNT: u32 = 5;

/// A phase with fewer samples than this says nothing and is left out.
pub const MIN_SAMPLES: usize = 5;

/// How many rows of a table are shown.
pub const SHOWN_ROWS: usize = 28;

/// How many characters of a function's name are shown.
pub const SHOWN_NAME: usize = 110;

/// One sample: the phase it fell in, and the names of the functions on the
/// stack, innermost first.
#[derive(Debug)]
pub struct Sample {
    pub phase: u32,
    pub stack: Vec<String>,
}

/// A function and the number of samples it was found in.
#[derive(Debug)]
pub struct Row {
    pub name: String,
    pub count: usize,
}

/// Whether a sample falls in a phase with this function on top.
pub open spec fn on_top(s: Sample, phase: u32, name: Seq<char>) -> bool {
    s.phase == phase && s.stack@.len() > 0 && s.stack@[0]@ == name
}

/// Whether a sample falls in a phase with this function anywhere on the stack.
pub open spec fn on_stack(s: Sample, phase: u32, name: Seq<char>) -> bool {
    s.phase == phase && texts(s.stack@).contains(name)
}

/// The number of samples that fall in a phase.
pub open spec fn phase_size(samples: Seq<Sample>, phase: u32) -> nat
    decreases samples.len(),
{
    if samples.len() == 0 {
        0
    } else {
        phase_size(samples.drop_last(), phase) + if samples.last().phase == phase {
            1nat
        } else {
            0nat
        }
    }
}

/// The number of samples of a phase with this function on top.
pub open spec fn top_count(samples: Seq<Sample>, phase: u32, name: Seq<char>) -> nat
    decreases samples.len(),
{
    if samples.len() == 0 {
        0
    } else {
        top_count(samples.drop_last(), phase, name) + if on_top(samples.last(), phase, name) {
            1nat
        } else {
            0nat
        }
    }
}

/// The number of samples of a phase with this function anywhere on the stack; a
/// function that is there more than once counts once.
pub open spec fn stack_count(samples: Seq<Sample>, phase: u32, name: Seq<char>) -> nat
    decreases samples.len(),
{
    if samples.len() == 0 {
        0
    } else {
        stack_count(samples.drop_last(), phase, name) + if on_stack(samples.last(), phase, name) {
            1nat
        } else {
            0nat
        }
    }
}

/// The number of a function in a table; zero where it has no row.
pub open spec fn row_count(rows: Seq<Row>, name: Seq<char>) -> nat
    decreases rows.len(),
{
    if rows.len() == 0 {
        0
    } else if rows.last().name@ == name {
        rows.last().count as nat
    } else {
        row_count(rows.drop_last(), name)
    }
}

/// Every row has a function that was found at least once.
pub open spec fn counted_rows(rows: Seq<Row>) -> bool {
    forall|i: int| 0 <= i < rows.len() ==> (#[trigger] rows[i]).count > 0
}

/// No function has two rows.
pub open spec fn distinct_rows(rows: Seq<Row>) -> bool {
    forall|i: int, j: int|
        0 <= i < j < rows.len() ==> (#[trigger] rows[i]).name@ != (#[trigger] rows[j]).name@
}

proof fn lemma_row_count_at(rows: Seq<Row>, i: int)
    requires
        0 <= i < rows.len(),
        distinct_rows(rows),
    ensures
        row_count(rows, rows[i].name@) == rows[i].count,
    decreases rows.len(),
{
    if i < rows.len() - 1 {
        assert(rows[i].name@ != rows[rows.len() - 1].name@);
        assert(distinct_rows(rows.drop_last())) by {
            assert forall|a: int, b: int| 0 <= a < b < rows.drop_last().len() implies (
            #[trigger] rows.drop_last()[a]).name@ != (#[trigger] rows.drop_last()[b]).name@ by {
                assert(rows[a].name@ != rows[b].name@);
            }
        }
        lemma_row_count_at(rows.drop_last(), i);
        assert(rows.drop_last()[i] == rows[i]);
    }
}

proof fn lemma_row_count_absent(rows: Seq<Row>, name: Seq<char>)
    requires
        forall|i: int| 0 <= i < rows.len() ==> (#[trigger] rows[i]).name@ != name,
    ensures
        row_count(rows, name) == 0,
    decreases rows.len(),
{
    if rows.len() > 0 {
        assert(rows[rows.len() - 1].name@ != name);
        assert forall|i: int| 0 <= i < rows.drop_last().len() implies (
        #[trigger] rows.drop_last()[i]).name@ != name by {
            assert(rows[i].name@ != name);
        }
        lemma_row_count_absent(rows.drop_last(), name);
    }
}

proof fn lemma_row_count_update(rows: Seq<Row>, i: int, row: Row, other: Seq<char>)
    requires
        0 <= i < rows.len(),
        row.name@ == rows[i].name@,
        other != row.name@,
    ensures
        row_count(rows.update(i, row), other) == row_count(rows, other),
    decreases rows.len(),
{
    let after = rows.update(i, row);
    if i == rows.len() - 1 {
        assert(after.drop_last() == rows.drop_last());
    } else {
        assert(after.drop_last() == rows.drop_last().update(i, row));
        lemma_row_count_update(rows.drop_last(), i, row, other);
    }
}

fn add_one(rows: &mut Vec<Row>, name: &String)
    requires
        distinct_rows(old(rows)@),
        counted_rows(old(rows)@),
        row_count(old(rows)@, name@) < usize::MAX,
    ensures
        distinct_rows(final(rows)@),
        counted_rows(final(rows)@),
        row_count(final(rows)@, name@) == row_count(old(rows)@, name@) + 1,
        forall|other: Seq<char>|
            other != name@ ==> #[trigger] row_count(final(rows)@, other) == row_count(
                old(rows)@,
                other,
            ),
{
    let ghost before = rows@;
    let mut i: usize = 0;
    while i < rows.len() && !same_text(rows[i].name.as_str(), name.as_str())
        invariant
            i <= rows.len(),
            rows@ == before,
            forall|k: int| 0 <= k < i ==> (#[trigger] before[k]).name@ != name@,
        decreases rows.len() - i,
    {
        i = i + 1;
    }
    if i < rows.len() {
        proof {
            lemma_row_count_at(before, i as int);
        }
        let row = Row { name: name.clone(), count: rows[i].count + 1 };
        let ghost new_row = row;
        rows.set(i, row);
        proof {
            let after = rows@;
            assert(distinct_rows(after)) by {
                assert forall|a: int, b: int| 0 <= a < b < after.len() implies (
                #[trigger] after[a]).name@ != (#[trigger] after[b]).name@ by {
                    assert(before[a].name@ != before[b].name@);
                }
            }
            lemma_row_count_at(after, i as int);
            assert forall|other: Seq<char>| other != name@ implies #[trigger] row_count(
                after,
                other,
            ) == row_count(before, other) by {
                lemma_row_count_update(before, i as int, new_row, other);
            }
        }
    } else {
        proof {
            lemma_row_count_absent(before, name@);
        }
        rows.push(Row { name: name.clone(), count: 1 });
        proof {
            let after = rows@;
            assert(after.drop_last() == before);
            assert(distinct_rows(after)) by {
                assert forall|a: int, b: int| 0 <= a < b < after.len() implies (
                #[trigger] after[a]).name@ != (#[trigger] after[b]).name@ by {
                    if b < before.len() {
                        assert(before[a].name@ != before[b].name@);
                    } else {
                        assert(before[a].name@ != name@);
                    }
                }
            }
        }
    }
}

proof fn lemma_counts_bounded(samples: Seq<Sample>, phase: u32, name: Seq<char>)
    ensures
        top_count(samples, phase, name) <= samples.len(),
        stack_count(samples, phase, name) <= samples.len(),
    decreases samples.len(),
{
    if samples.len() > 0 {
        lemma_counts_bounded(samples.drop_last(), phase, name);
    }
}

/// How many samples fall in a phase.
pub fn samples_in(samples: &Vec<Sample>, phase: u32) -> (n: usize)
    ensures
        n == phase_size(samples@, phase),
{
    let mut n: usize = 0;
    let mut i: usize = 0;
    assert(samples@.take(0).len() == 0);
    while i < samples.len()
        invariant
            i <= samples.len(),
            n <= i,
            n == phase_size(samples@.take(i as int), phase),
        decreases samples.len() - i,
    {
        assert(samples@.take(i + 1).drop_last() == samples@.take(i as int));
        if samples[i].phase == phase {
            n = n + 1;
        }
        i = i + 1;
    }
    assert(samples@.take(samples@.len() as int) == samples@);
    n
}

/// The functions on top of the stack in a phase, each with the number of its
/// samples.
pub fn self_counts(samples: &Vec<Sample>, phase: u32) -> (rows: Vec<Row>)
    ensures
        distinct_rows(rows@),
        counted_rows(rows@),
        forall|name: Seq<char>|
            #[trigger] row_count(rows@, name) == top_count(samples@, phase, name),
{
    let mut rows: Vec<Row> = Vec::new();
    let mut i: usize = 0;
    assert(samples@.take(0).len() == 0);
    while i < samples.len()
        invariant
            i <= samples.len(),
            distinct_rows(rows@),
            counted_rows(rows@),
            forall|name: Seq<char>|
                #[trigger] row_count(rows@, name) == top_count(
                    samples@.take(i as int),
                    phase,
                    name,
                ),
        decreases samples.len() - i,
    {
        let ghost seen = samples@.take(i as int);
        let ghost more = samples@.take(i + 1);
        assert(more.drop_last() == seen);
        assert(more.last() == samples@[i as int]);
        if samples[i].phase == phase && samples[i].stack.len() > 0 {
            let name = samples[i].stack[0].clone();
            proof {
                lemma_counts_bounded(seen, phase, name@);
            }
            add_one(&mut rows, &name);
        }
        i = i + 1;
    }
    assert(samples@.take(samples@.len() as int) == samples@);
    rows
}

/// The functions anywhere on the stack in a phase, each with the number of its
/// samples; a function that is on a stack more than once counts once for it.
pub fn inclusive_counts(samples: &Vec<Sample>, phase: u32) -> (rows: Vec<Row>)
    ensures
        distinct_rows(rows@),
        counted_rows(rows@),
        forall|name: Seq<char>|
            #[trigger] row_count(rows@, name) == stack_count(samples@, phase, name),
{
    let mut rows: Vec<Row> = Vec::new();
    let mut i: usize = 0;
    assert(samples@.take(0).len() == 0);
    while i < samples.len()
        invariant
            i <= samples.len(),
            distinct_rows(rows@),
            counted_rows(rows@),
            forall|name: Seq<char>|
                #[trigger] row_count(rows@, name) == stack_count(
                    samples@.take(i as int),
                    phase,
                    name,
                ),
        decreases samples.len() - i,
    {
        let ghost seen = samples@.take(i as int);
        let ghost more = samples@.take(i + 1);
        assert(more.drop_last() == seen);
        assert(more.last() == samples@[i as int]);
        if samples[i].phase == phase {
            let ghost names = texts(samples@[i as int].stack@);
            let mut j: usize = 0;
            assert(names.take(0).len() == 0);
            while j < samples[i].stack.len()
                invariant
                    i < samples.len(),
                    j <= samples@[i as int].stack@.len(),
                    names == texts(samples@[i as int].stack@),
                    seen == samples@.take(i as int),
                    distinct_rows(rows@),
                    counted_rows(rows@),
                    forall|name: Seq<char>|
                        #[trigger] row_count(rows@, name) == stack_count(seen, phase, name) + if names.take(
                            j as int,
                        ).contains(name) {
                            1nat
                        } else {
                            0nat
                        },
                decreases samples@[i as int].stack@.len() - j,
            {
                let name = samples[i].stack[j].clone();
                let again = is_among(&samples[i].stack, j, name.as_str());
                proof {
                    assert(name@ == names[j as int]);
                    lemma_counts_bounded(seen, phase, name@);
                    let shorter = names.take(j as int);
                    let longer = names.take(j + 1);
                    assert(longer == shorter.push(name@));
                    assert forall|other: Seq<char>| longer.contains(other) == (shorter.contains(
                        other,
                    ) || other == name@) by {
                        if shorter.contains(other) {
                            let k = choose|k: int| 0 <= k < shorter.len() && shorter[k] == other;
                            assert(longer[k] == other);
                        }
                        assert(longer[j as int] == name@);
                        if longer.contains(other) && other != name@ {
                            let k = choose|k: int| 0 <= k < longer.len() && longer[k] == other;
                            assert(shorter[k] == other);
                        }
                    }
                }
                if !again {
                    add_one(&mut rows, &name);
                }
                j = j + 1;
            }
            assert(names.take(names.len() as int) == names);
        }
        i = i + 1;
    }
    assert(samples@.take(samples@.len() as int) == samples@);
    rows
}

fn is_among(list: &Vec<String>, n: usize, name: &str) -> (r: bool)
    requires
        n <= list@.len(),
    ensures
        r == texts(list@).take(n as int).contains(name@),
{
    let ghost names = texts(list@).take(n as int);
    let mut i: usize = 0;
    while i < n
        invariant
            i <= n <= list@.len(),
            names == texts(list@).take(n as int),
            forall|k: int| 0 <= k < i ==> names[k] != name@,
        decreases n - i,
    {
        assert(names[i as int] == list@[i as int]@);
        if same_text(list[i].as_str(), name) {
            return true;
        }
        i = i + 1;
    }
    false
}

/// Whether the rows stand in order, the largest numbers first.
pub open spec fn is_ranked(rows: Seq<Row>) -> bool {
    forall|i: int, j: int|
        0 <= i <= j < rows.len() ==> (#[trigger] rows[i]).count >= (#[trigger] rows[j]).count
}

fn insert_ranked(ranked: &mut Vec<Row>, row: Row)
    requires
        is_ranked(old(ranked)@),
    ensures
        is_ranked(final(ranked)@),
        final(ranked)@.to_multiset() == old(ranked)@.to_multiset().insert(row),
{
    broadcast use vstd::seq_lib::group_to_multiset_ensures;

    let ghost before = ranked@;
    let ghost new_row = row;
    let mut at: usize = 0;
    while at < ranked.len() && ranked[at].count >= row.count
        invariant
            at <= ranked.len(),
            ranked@ == before,
            is_ranked(before),
            forall|k: int| 0 <= k < at ==> (#[trigger] before[k]).count >= row.count,
        decreases ranked.len() - at,
    {
        at = at + 1;
    }
    ranked.insert(at, row);
    proof {
        let after = ranked@;
        assert(after == before.insert(at as int, new_row));
        assert forall|i: int, j: int| 0 <= i <= j < after.len() implies (
        #[trigger] after[i]).count >= (#[trigger] after[j]).count by {
            let x = if i < at {
                i
            } else {
                i - 1
            };
            let y = if j < at {
                j
            } else {
                j - 1
            };
            if i != at && j != at {
                assert(before[x].count >= before[y].count);
            } else if i == at && j != at {
                assert(before[at as int].count >= before[y].count);
            } else if i != at && j == at {
                assert(before[x].count >= new_row.count);
            }
        }
        after.to_multiset_ensures();
        assert(after.remove(at as int) == before);
        assert(after[at as int] == new_row);
        assert(after.contains(new_row));
        assert(after.to_multiset().remove(new_row).insert(new_row) =~= after.to_multiset());
    }
}

/// The rows, the largest numbers first. Which of two equal ones comes first is
/// left open.
pub fn ranked(rows: Vec<Row>) -> (r: Vec<Row>)
    ensures
        is_ranked(r@),
        r@.to_multiset() == rows@.to_multiset(),
{
    broadcast use vstd::seq_lib::group_to_multiset_ensures;

    let ghost all = rows@;
    let mut left = rows;
    let mut out: Vec<Row> = Vec::new();
    let ghost mut taken: Seq<Row> = Seq::empty();
    while left.len() > 0
        invariant
            is_ranked(out@),
            left@ + taken == all,
            out@.to_multiset() == taken.to_multiset(),
        decreases left.len(),
    {
        match left.pop() {
            Some(row) => {
                proof {
                    let before = taken;
                    taken = seq![row] + before;
                    assert(left@ + taken == all);
                    taken.to_multiset_ensures();
                    assert(taken.remove(0) == before);
                    assert(taken[0] == row);
                    assert(taken.contains(row));
                    assert(taken.to_multiset().remove(row).insert(row) =~= taken.to_multiset());
                }
                insert_ranked(&mut out, row);
            },
            None => {},
        }
    }
    assert(taken == all);
    out
}

/// As much of a function's name as is shown.
pub fn short_name(name: &str) -> (r: String)
    ensures
        name@.len() <= SHOWN_NAME ==> r@ == name@,
        name@.len() > SHOWN_NAME ==> r@ == name@.take(SHOWN_NAME as int),
{
    let v = chars_of(name);
    let n: usize = if v.len() < SHOWN_NAME {
        v.len()
    } else {
        SHOWN_NAME
    };
    assert(v@.subrange(0, n as int) == v@.take(n as int));
    assert(v@.take(v@.len() as int) == v@);
    text_between(&v, 0, n)
}

/// A function is on top of a stack no more often than anywhere in one.
pub proof fn self_is_at_most_inclusive(samples: Seq<Sample>, phase: u32, name: Seq<char>)
    ensures
        top_count(samples, phase, name) <= stack_count(samples, phase, name) <= phase_size(
            samples,
            phase,
        ),
    decreases samples.len(),
{
    if samples.len() > 0 {
        self_is_at_most_inclusive(samples.drop_last(), phase, name);
        let s = samples.last();
        if on_top(s, phase, name) {
            assert(texts(s.stack@)[0] == name);
        }
    }
}

/// One more sample counts once in its phase, once for the function on top, and
/// once for every function on its stack, however often that one is there; it
/// counts for nothing else.
pub proof fn every_sample_counts_once(
    samples: Seq<Sample>,
    s: Sample,
    phase: u32,
    name: Seq<char>,
)
    ensures
        s.phase == phase ==> phase_size(samples.push(s), phase) == phase_size(samples, phase) + 1,
        s.phase != phase ==> phase_size(samples.push(s), phase) == phase_size(samples, phase)
            && top_count(samples.push(s), phase, name) == top_count(samples, phase, name)
            && stack_count(samples.push(s), phase, name) == stack_count(samples, phase, name),
        s.phase == phase && s.stack@.len() > 0 && s.stack@[0]@ == name ==> top_count(
            samples.push(s),
            phase,
            name,
        ) == top_count(samples, phase, name) + 1,
        s.stack@.len() > 0 && s.stack@[0]@ != name ==> top_count(samples.push(s), phase, name)
            == top_count(samples, phase, name),
        forall|i: int|
            s.phase == phase && 0 <= i < s.stack@.len() && (#[trigger] s.stack@[i])@ == name
                ==> stack_count(samples.push(s), phase, name) == stack_count(samples, phase, name)
                + 1,
        (forall|i: int| 0 <= i < s.stack@.len() ==> (#[trigger] s.stack@[i])@ != name)
            ==> stack_count(samples.push(s), phase, name) == stack_count(samples, phase, name),
        phase_size(Seq::<Sample>::empty(), phase) == 0,
        top_count(Seq::<Sample>::empty(), phase, name) == 0,
        stack_count(Seq::<Sample>::empty(), phase, name) == 0,
{
    let all = samples.push(s);
    assert(all.drop_last() == samples);
    assert(all.last() == s);
    let names = texts(s.stack@);
    assert forall|i: int| 0 <= i < s.stack@.len() implies names[i] == (#[trigger] s.stack@[i])@ by {
    }
    if names.contains(name) {
        let i = choose|i: int| 0 <= i < names.len() && names[i] == name;
        assert(s.stack@[i]@ == name);
    }
    assert forall|i: int|
        s.phase == phase && 0 <= i < s.stack@.len() && (#[trigger] s.stack@[i])@
            == name implies stack_count(all, phase, name) == stack_count(samples, phase, name)
        + 1 by {
        assert(names[i] == name);
    }
}

/// A row tells the number of its own function and of no other; a function
/// without a row was not found.
pub proof fn rows_tell_their_own_number(rows: Seq<Row>, row: Row, other: Seq<char>)
    ensures
        row_count(rows.push(row), row.name@) == row.count,
        other != row.name@ ==> row_count(rows.push(row), other) == row_count(rows, other),
        row_count(Seq::<Row>::empty(), other) == 0,
{
    assert(rows.push(row).drop_last() == rows);
}

/// Rows in order never rise from one to the next, and a table lists each function
/// once, with a number that is not zero.
pub proof fn tables_fall_and_list_each_once(rows: Seq<Row>, i: int, j: int)
    requires
        0 <= i < j < rows.len(),
    ensures
        is_ranked(rows) ==> rows[i].count >= rows[j].count,
        distinct_rows(rows) ==> rows[i].name@ != rows[j].name@,
        counted_rows(rows) ==> rows[i].count > 0 && rows[j].count > 0,
{
}

} // verus!
