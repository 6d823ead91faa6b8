//! The rows of tasks in the fleet: how they are ordered and which ones a filter shows.

use vstd::prelude::*;
use vstd::string::*;
use crate::text::{
    contains, join, joined, text_contains, text_without_white_space_is_one_word, texts, texts_empty, texts_push,
    white_space_parts_words, whitespace, words, words_of,
};
use crate::workspace::{FleetSort, ThreadActivity};

verus! {

/// `str::to_lowercase` of std, which goes by Unicode and can change the length of a text.
pub uninterp spec fn lowercase(s: Seq<char>) -> Seq<char>;

/// `str::to_lowercase` of std: the lowercase equivalent of a text. Claimed is that it is a function
/// of the text.
pub assume_specification[ str::to_lowercase ](s: &str) -> (r: String)
    ensures
        r@ == lowercase(s@),
;

/// A row of the fleet, for one task.
pub struct TaskRow {
    /// Where the task stands on the rail.
    pub project_index: usize,
    pub title: String,
    pub color: usize,
    pub branch: Option<String>,
    pub activity: ThreadActivity,
    /// What the user asked last.
    pub asked: Option<String>,
    /// What the agent does, or how it ended.
    pub digest: Option<String>,
    pub tokens: u32,
    /// The number of the shortcut that shows the task: its place on the rail.
    pub rail_shortcut: Option<usize>,
    pub last_input_at_ms: Option<i64>,
}

impl ThreadActivity {
    /// How much the activity calls for a look: waiting for an answer most, then working, then done.
    pub open spec fn urgency(self) -> int {
        match self {
            ThreadActivity::Blocked => 3,
            ThreadActivity::Working => 2,
            ThreadActivity::Done { .. } => 1,
            ThreadActivity::Idle => 0,
        }
    }

    /// How much the activity calls for a look.
    pub fn urgency_of(self) -> (u: u8)
        ensures
            u == self.urgency(),
    {
        match self {
            ThreadActivity::Blocked => 3,
            ThreadActivity::Working => 2,
            ThreadActivity::Done { .. } => 1,
            ThreadActivity::Idle => 0,
        }
    }
}

impl FleetSort {
    pub open spec fn after(self) -> FleetSort {
        match self {
            FleetSort::Rail => FleetSort::Recent,
            FleetSort::Recent => FleetSort::Attention,
            FleetSort::Attention => FleetSort::Rail,
        }
    }

    /// The order that comes next when the button is pressed.
    pub fn next(self) -> (r: FleetSort)
        ensures
            r == self.after(),
    {
        match self {
            FleetSort::Rail => FleetSort::Recent,
            FleetSort::Recent => FleetSort::Attention,
            FleetSort::Attention => FleetSort::Rail,
        }
    }

    /// The key of the words for the order.
    pub fn label(self) -> (r: &'static str)
        ensures
            r@ == match self {
                FleetSort::Rail => "fleet.sort_rail"@,
                FleetSort::Recent => "fleet.sort_recent"@,
                FleetSort::Attention => "fleet.sort_attention"@,
            },
    {
        match self {
            FleetSort::Rail => "fleet.sort_rail",
            FleetSort::Recent => "fleet.sort_recent",
            FleetSort::Attention => "fleet.sort_attention",
        }
    }
}

/// What rows are ordered by, the greatest first.
pub open spec fn sort_key(row: TaskRow, sort: FleetSort) -> int {
    match sort {
        FleetSort::Rail => 0,
        FleetSort::Recent => match row.last_input_at_ms {
            Some(at) => at as int,
            None => i64::MIN as int,
        },
        FleetSort::Attention => row.activity.urgency(),
    }
}

/// The row has this key.
pub open spec fn has_key(sort: FleetSort, key: int) -> spec_fn(TaskRow) -> bool {
    |row: TaskRow| sort_key(row, sort) == key
}

/// No row has a greater key than one before it.
pub open spec fn ordered(rows: Seq<TaskRow>, sort: FleetSort) -> bool {
    forall|i: int, j: int| 0 <= i < j < rows.len() ==> sort_key(rows[i], sort) >= sort_key(rows[j], sort)
}

/// Two lists hold the same rows, and those with the same key are in the same order.
pub open spec fn same_within_keys(a: Seq<TaskRow>, b: Seq<TaskRow>, sort: FleetSort) -> bool {
    forall|key: int| #[trigger] a.filter(has_key(sort, key)) == b.filter(has_key(sort, key))
}

fn key_of(row: &TaskRow, sort: FleetSort) -> (key: i64)
    ensures
        key == sort_key(*row, sort),
{
    match sort {
        FleetSort::Rail => 0,
        FleetSort::Recent => match row.last_input_at_ms {
            Some(at) => at,
            None => i64::MIN,
        },
        FleetSort::Attention => row.activity.urgency_of() as i64,
    }
}

proof fn filter_push<A>(s: Seq<A>, x: A, pred: spec_fn(A) -> bool)
    ensures
        s.push(x).filter(pred) == if pred(x) { s.filter(pred).push(x) } else { s.filter(pred) },
{
    reveal(Seq::filter);
    assert(s.push(x).drop_last() =~= s);
}

proof fn filter_to_none<A>(s: Seq<A>, pred: spec_fn(A) -> bool)
    requires
        forall|i: int| 0 <= i < s.len() ==> !pred(#[trigger] s[i]),
    ensures
        s.filter(pred) == Seq::<A>::empty(),
    decreases s.len(),
{
    reveal(Seq::filter);
    if s.len() > 0 {
        assert(!pred(s[s.len() - 1]));
        let rest = s.drop_last();
        assert forall|i: int| 0 <= i < rest.len() implies !pred(#[trigger] rest[i]) by {
            assert(rest[i] == s[i]);
        }
        filter_to_none(rest, pred);
    }
}

proof fn inserted_behind(done: Seq<TaskRow>, row: TaskRow, at: int, sort: FleetSort, key: int)
    requires
        0 <= at <= done.len(),
        forall|i: int| at <= i < done.len() ==> sort_key(#[trigger] done[i], sort) < sort_key(row, sort),
    ensures
        done.insert(at, row).filter(has_key(sort, key)) == done.push(row).filter(has_key(sort, key)),
{
    let pred = has_key(sort, key);
    let front = done.take(at);
    let back = done.skip(at);
    assert(done =~= front + back);
    assert(done.insert(at, row) =~= front.push(row) + back);
    Seq::filter_distributes_over_add(front.push(row), back, pred);
    Seq::filter_distributes_over_add(front, back, pred);
    filter_push(front, row, pred);
    filter_push(done, row, pred);
    if pred(row) {
        assert forall|i: int| 0 <= i < back.len() implies !pred(#[trigger] back[i]) by {
            assert(back[i] == done[at + i]);
        }
        filter_to_none(back, pred);
        assert(front.filter(pred).push(row) + back.filter(pred) =~= (front.filter(pred) + back.filter(pred)).push(row));
    }
}

proof fn inserting_adds_one(s: Seq<TaskRow>, at: int, row: TaskRow)
    requires
        0 <= at <= s.len(),
    ensures
        s.insert(at, row).to_multiset() == s.to_multiset().insert(row),
{
    let more = s.insert(at, row);
    assert(more.remove(at) =~= s);
    more.to_multiset_ensures();
    assert(more[at] == row);
    assert(more.contains(row));
    assert(more.remove(at).to_multiset() =~= more.to_multiset().remove(row));
    assert(more.to_multiset() =~= s.to_multiset().insert(row));
}

/// Orders the rows of tasks; rows that are equal in this keep their order.
pub fn sort_task_rows(rows: &mut Vec<TaskRow>, sort: FleetSort)
    ensures
        ordered(final(rows)@, sort),
        same_within_keys(final(rows)@, old(rows)@, sort),
        final(rows)@.len() == old(rows)@.len(),
        final(rows)@.to_multiset() == old(rows)@.to_multiset(),
        sort == FleetSort::Rail ==> final(rows)@ == old(rows)@,
{
    if let FleetSort::Rail = sort {
        return;
    }
    let ghost all = rows@;
    let mut rest: Vec<TaskRow> = Vec::new();
    rest.append(rows);
    let ghost mut taken: int = 0;
    assert(rest@ =~= all);
    assert(all.skip(0) =~= all);
    assert(all.take(0) =~= rows@);
    while rest.len() > 0
        invariant
            0 <= taken <= all.len(),
            rest@ == all.skip(taken),
            ordered(rows@, sort),
            rows@.len() == taken,
            same_within_keys(rows@, all.take(taken), sort),
            rows@.to_multiset() == all.take(taken).to_multiset(),
        decreases rest@.len(),
    {
        let row = rest.remove(0);
        assert(row == all[taken]);
        let key: i64 = key_of(&row, sort);
        let ghost done = rows@;
        let mut at: usize = rows.len();
        while at > 0 && key_of(&rows[at - 1], sort) < key
            invariant
                at <= rows@.len(),
                rows@ == done,
                key == sort_key(row, sort),
                forall|i: int| at <= i < done.len() ==> sort_key(#[trigger] done[i], sort) < key,
            decreases at,
        {
            at = at - 1;
        }
        proof {
            assert(at > 0 ==> sort_key(done[at - 1], sort) >= key);
            assert(all.take(taken + 1) =~= all.take(taken).push(row));
            assert(rest@ =~= all.skip(taken + 1));
        }
        rows.insert(at, row);
        proof {
            assert forall|k: int| #[trigger] rows@.filter(has_key(sort, k)) == all.take(taken + 1).filter(
                has_key(sort, k),
            ) by {
                inserted_behind(done, row, at as int, sort, k);
                filter_push(done, row, has_key(sort, k));
                filter_push(all.take(taken), row, has_key(sort, k));
                assert(done.filter(has_key(sort, k)) == all.take(taken).filter(has_key(sort, k)));
            }
            inserting_adds_one(done, at as int, row);
            all.take(taken).to_multiset_ensures();
            taken = taken + 1;
        }
    }
    assert(all.take(all.len() as int) =~= all);
}

/// Whether two lists of rows are the same follows from their keys: sorting has only one result.
pub proof fn sorting_has_one_result(a: Seq<TaskRow>, b: Seq<TaskRow>, sort: FleetSort)
    requires
        ordered(a, sort),
        ordered(b, sort),
        same_within_keys(a, b, sort),
    ensures
        a == b,
    decreases a.len(),
{
    reveal(Seq::filter);
    if a.len() == 0 {
        if b.len() > 0 {
            let k = sort_key(b.last(), sort);
            filter_push(b.drop_last(), b.last(), has_key(sort, k));
            assert(b.drop_last().push(b.last()) =~= b);
            assert(a.filter(has_key(sort, k)) == b.filter(has_key(sort, k)));
            assert(a.filter(has_key(sort, k)).len() == 0);
        }
        assert(a =~= b);
    } else {
        let k = sort_key(a.last(), sort);
        assert(a.filter(has_key(sort, k)) == b.filter(has_key(sort, k)));
        assert(a.drop_last().push(a.last()) =~= a);
        filter_push(a.drop_last(), a.last(), has_key(sort, k));
        if b.len() == 0 {
            assert(b.filter(has_key(sort, k)).len() == 0);
        }
        assert(b.len() > 0);
        let l = sort_key(b.last(), sort);
        assert(b.drop_last().push(b.last()) =~= b);
        filter_push(b.drop_last(), b.last(), has_key(sort, l));
        assert(a.filter(has_key(sort, l)) == b.filter(has_key(sort, l)));
        // The least key of each list is found in the other.
        crate::seqs::filter_comes_from(b, has_key(sort, k), b.filter(has_key(sort, k)).len() - 1);
        crate::seqs::filter_comes_from(a, has_key(sort, l), a.filter(has_key(sort, l)).len() - 1);
        crate::seqs::filter_holds(b, has_key(sort, k));
        crate::seqs::filter_holds(a, has_key(sort, l));
        let kb = choose|i: int|
            0 <= i < b.len() && #[trigger] b[i] == b.filter(has_key(sort, k))[b.filter(has_key(sort, k)).len() - 1];
        let la = choose|i: int|
            0 <= i < a.len() && #[trigger] a[i] == a.filter(has_key(sort, l))[a.filter(has_key(sort, l)).len() - 1];
        assert(has_key(sort, k)(b[kb]));
        assert(has_key(sort, l)(a[la]));
        assert(k >= l);
        assert(l >= k);
        assert(a.last() == b.last());
        let c = a.drop_last();
        let d = b.drop_last();
        assert forall|key: int| #[trigger] c.filter(has_key(sort, key)) == d.filter(has_key(sort, key)) by {
            filter_push(c, a.last(), has_key(sort, key));
            filter_push(d, b.last(), has_key(sort, key));
            assert(a.filter(has_key(sort, key)) == b.filter(has_key(sort, key)));
            if key == k {
                assert(c.filter(has_key(sort, key)).push(a.last()).drop_last() =~= c.filter(has_key(sort, key)));
                assert(d.filter(has_key(sort, key)).push(b.last()).drop_last() =~= d.filter(has_key(sort, key)));
            }
        }
        assert(ordered(c, sort)) by {
            assert forall|i: int, j: int| 0 <= i < j < c.len() implies sort_key(c[i], sort) >= sort_key(c[j], sort) by {
                assert(c[i] == a[i] && c[j] == a[j]);
            }
        }
        assert(ordered(d, sort)) by {
            assert forall|i: int, j: int| 0 <= i < j < d.len() implies sort_key(d[i], sort) >= sort_key(d[j], sort) by {
                assert(d[i] == b[i] && d[j] == b[j]);
            }
        }
        sorting_has_one_result(c, d, sort);
        assert(a =~= b);
    }
}

/// The button for the order comes back to where it began after three presses.
pub proof fn three_presses_come_round(sort: FleetSort)
    ensures
        sort.after().after().after() == sort,
        sort == FleetSort::Rail ==> sort.after() == FleetSort::Recent,
        sort == FleetSort::Recent ==> sort.after() == FleetSort::Attention,
{
}

/// The texts of a row that a filter looks at.
pub open spec fn row_texts(row: TaskRow) -> Seq<Seq<char>> {
    let a = seq![row.title@];
    let b = match row.branch {
        Some(s) => a.push(s@),
        None => a,
    };
    let c = match row.asked {
        Some(s) => b.push(s@),
        None => b,
    };
    match row.digest {
        Some(s) => c.push(s@),
        None => c,
    }
}

/// Every word occurs in the text.
pub open spec fn holds_words(text: Seq<char>, wanted: Seq<Seq<char>>) -> bool {
    forall|i: int| 0 <= i < wanted.len() ==> contains(text, #[trigger] wanted[i])
}

/// The row is shown while this query filters the rows: every word of it occurs in some text of the
/// row, whatever the case.
pub open spec fn row_shown(row: TaskRow, query: Seq<char>) -> bool {
    holds_words(
        lowercase(join(row_texts(row), "\n"@)),
        words(query).map_values(|word: Seq<char>| lowercase(word)),
    )
}

/// Whether every word occurs in the text.
pub fn holds_every_word(text: &str, wanted: &Vec<String>) -> (b: bool)
    ensures
        b == holds_words(text@, texts(wanted@)),
{
    assert(texts(wanted@).len() == wanted@.len());
    let mut i: usize = 0;
    while i < wanted.len()
        invariant
            i <= wanted@.len() == texts(wanted@).len(),
            forall|k: int| 0 <= k < i ==> contains(text@, #[trigger] texts(wanted@)[k]),
        decreases wanted@.len() - i,
    {
        assert(texts(wanted@)[i as int] == wanted@[i as int]@);
        if !text_contains(text, wanted[i].as_str()) {
            return false;
        }
        i = i + 1;
    }
    true
}

fn push_maybe(list: &mut Vec<String>, text: &Option<String>)
    ensures
        texts(final(list)@) == match *text {
            Some(s) => texts(old(list)@).push(s@),
            None => texts(old(list)@),
        },
{
    if let Some(s) = text {
        let copy = s.clone();
        proof {
            texts_push(list@, copy);
        }
        list.push(copy);
    }
}

/// The texts of a row that a filter looks at, each on a line of its own.
fn row_text(row: &TaskRow) -> (r: String)
    ensures
        r@ == join(row_texts(*row), "\n"@),
{
    let mut list: Vec<String> = Vec::new();
    let title = row.title.clone();
    proof {
        texts_empty();
        texts_push(list@, title);
    }
    list.push(title);
    assert(texts(list@) =~= seq![row.title@]);
    push_maybe(&mut list, &row.branch);
    push_maybe(&mut list, &row.asked);
    push_maybe(&mut list, &row.digest);
    joined(&list, "\n")
}

/// Whether a row is shown while this query filters the rows.
pub fn task_row_matches(row: &TaskRow, query: &str) -> (b: bool)
    ensures
        b == row_shown(*row, query@),
{
    let text = row_text(row);
    let haystack = text.as_str().to_lowercase();
    let wanted = words_of(query);
    let ghost lower = |word: Seq<char>| lowercase(word);
    let mut lowered: Vec<String> = Vec::new();
    let mut i: usize = 0;
    assert(texts(lowered@) =~= words(query@).take(0).map_values(lower));
    while i < wanted.len()
        invariant
            i <= wanted@.len(),
            texts(wanted@) == words(query@),
            lower == (|word: Seq<char>| lowercase(word)),
            texts(lowered@) == words(query@).take(i as int).map_values(lower),
        decreases wanted@.len() - i,
    {
        let word = wanted[i].as_str().to_lowercase();
        proof {
            assert(texts(wanted@)[i as int] == wanted@[i as int]@);
            texts_push(lowered@, word);
            assert(words(query@).take(i + 1).map_values(lower) =~= words(query@).take(i as int).map_values(
                lower,
            ).push(word@));
        }
        lowered.push(word);
        i = i + 1;
    }
    proof {
        assert(texts(wanted@).len() == wanted@.len());
        assert(words(query@).take(words(query@).len() as int) =~= words(query@));
    }
    holds_every_word(haystack.as_str(), &lowered)
}

/// A query without words shows every row.
pub proof fn empty_queries_show_everything(row: TaskRow, query: Seq<char>)
    requires
        words(query).len() == 0,
    ensures
        row_shown(row, query),
{
}

/// A query of several words shows exactly the rows that each of them shows.
pub proof fn every_word_has_to_occur(row: TaskRow, a: Seq<char>, c: char, b: Seq<char>)
    requires
        whitespace(c),
    ensures
        row_shown(row, a.push(c) + b) <==> row_shown(row, a) && row_shown(row, b),
{
    white_space_parts_words(a, c, b);
    let lower = |word: Seq<char>| lowercase(word);
    let x = words(a).map_values(lower);
    let y = words(b).map_values(lower);
    let both = words(a.push(c) + b).map_values(lower);
    assert(both =~= x + y);
    let text = lowercase(join(row_texts(row), "\n"@));
    if holds_words(text, both) {
        assert forall|i: int| 0 <= i < x.len() implies contains(text, #[trigger] x[i]) by {
            assert(both[i] == x[i]);
        }
        assert forall|i: int| 0 <= i < y.len() implies contains(text, #[trigger] y[i]) by {
            assert(both[x.len() + i] == y[i]);
        }
    }
    if holds_words(text, x) && holds_words(text, y) {
        assert forall|i: int| 0 <= i < both.len() implies contains(text, #[trigger] both[i]) by {
            if i < x.len() {
                assert(both[i] == x[i]);
            } else {
                assert(both[i] == y[i - x.len()]);
            }
        }
    }
}

/// A word shows exactly the rows whose title, branch, question or digest holds it, whatever the case.
pub proof fn a_word_is_looked_for_in_the_texts(row: TaskRow, word: Seq<char>)
    requires
        word.len() > 0,
        forall|k: int| 0 <= k < word.len() ==> !whitespace(#[trigger] word[k]),
    ensures
        row_shown(row, word) <==> contains(lowercase(join(row_texts(row), seq!['\n'])), lowercase(word)),
        row_texts(row).first() == row.title@,
        row.branch matches Some(text) ==> row_texts(row).contains(text@),
        row.asked matches Some(text) ==> row_texts(row).contains(text@),
        row.digest matches Some(text) ==> row_texts(row).contains(text@),
        row_texts(row).len() == 1 + (if row.branch is Some { 1int } else { 0 }) + (if row.asked is Some {
            1int
        } else {
            0
        }) + (if row.digest is Some { 1int } else { 0 }),
{
    text_without_white_space_is_one_word(word);
    let wanted = words(word).map_values(|word: Seq<char>| lowercase(word));
    reveal_strlit("\n");
    assert("\n"@ =~= seq!['\n']);
    assert(wanted =~= seq![lowercase(word)]);
    assert(wanted[0] == lowercase(word));
    let list = row_texts(row);
    if row.branch is Some {
        assert(list[1] == row.branch->0@);
    }
    if row.asked is Some {
        assert(list[if row.branch is Some { 2int } else { 1 }] == row.asked->0@);
    }
    if row.digest is Some {
        assert(list[list.len() - 1] == row.digest->0@);
    }
}

} // verus!
