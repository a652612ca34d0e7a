//! Effort rows and their running totals.
//!
//! A row is text. The empty row has no entries; any other row has its lines
//! as entries, and an entry `Name|Integer` books the integer as effort. An
//! entry of any other shape books nothing: it is passed over, never refused.
//! The total runs on from row to row.

use crate::number::{has_sign, integer_of, is_digit, parse_i32, unsigned_part};
use crate::text::{
    chars_of, lemma_occurrences_of_held, lemma_pieces_at_first_separator, lemma_pieces_len,
    lemma_pieces_without_separator, pieces, split, texts_of,
};
use vstd::prelude::*;

verus! {

/// The effort that one entry books: the integer of its second field where it
/// has exactly two fields and the second one is an integer, and 0 otherwise.
pub open spec fn entry_effort(entry: Seq<char>) -> int {
    let fields = pieces(entry, '|');
    if fields.len() == 2 && integer_of(fields[1]) is Some {
        integer_of(fields[1])->0
    } else {
        0
    }
}

/// The effort that a list of entries books together.
pub open spec fn entries_effort(entries: Seq<Seq<char>>) -> int
    decreases entries.len(),
{
    if entries.len() == 0 {
        0
    } else {
        entries_effort(entries.drop_last()) + entry_effort(entries.last())
    }
}

/// The entries of a row: none for the empty row, and the lines of any other.
pub open spec fn sub_entries(row: Seq<char>) -> Seq<Seq<char>> {
    if row.len() == 0 {
        Seq::<Seq<char>>::empty()
    } else {
        pieces(row, '\n')
    }
}

/// The effort that a row books: that of its entries.
pub open spec fn row_effort(row: Seq<char>) -> int {
    entries_effort(sub_entries(row))
}

/// The total after the first `n` rows: what was carried in and the effort
/// that those rows book.
pub open spec fn running_total(carry: int, rows: Seq<Seq<char>>, n: int) -> int
    decreases n,
{
    if n <= 0 {
        carry
    } else {
        running_total(carry, rows, n - 1) + row_effort(rows[n - 1])
    }
}

/// `totals` are the running totals of `rows` from `carry`: one for each row,
/// the total after that row.
pub open spec fn are_partial_efforts(totals: Seq<i32>, carry: int, rows: Seq<Seq<char>>) -> bool {
    &&& totals.len() == rows.len()
    &&& forall|i: int|
        0 <= i < totals.len() ==> #[trigger] totals[i] == running_total(carry, rows, i + 1)
}

/// The total after each row of `rows` can be held in an `i32`.
pub open spec fn partial_efforts_fit(carry: int, rows: Seq<Seq<char>>) -> bool {
    forall|n: int|
        0 < n <= rows.len() ==> i32::MIN <= #[trigger] running_total(carry, rows, n) <= i32::MAX
}

/// The number of entries of a row.
pub open spec fn entry_count(row: Seq<char>) -> nat {
    sub_entries(row).len()
}

/// `height` is the largest number of entries that a row of `rows` has, or 0
/// where there is no row.
pub open spec fn is_max_height(height: int, rows: Seq<Seq<char>>) -> bool {
    &&& forall|i: int| 0 <= i < rows.len() ==> entry_count(#[trigger] rows[i]) <= height
    &&& rows.len() == 0 ==> height == 0
    &&& rows.len() > 0 ==> exists|i: int|
        0 <= i < rows.len() && height == entry_count(#[trigger] rows[i])
}

/// The texts of a list of rows.
pub open spec fn rows_of(worker_efforts: Seq<&str>) -> Seq<Seq<char>> {
    worker_efforts.map_values(|row: &str| row@)
}

/// An entry without a `|` books nothing.
pub proof fn lemma_entry_without_bar(entry: Seq<char>)
    requires
        forall|j: int| 0 <= j < entry.len() ==> entry[j] != '|',
    ensures
        entry_effort(entry) == 0,
{
    lemma_pieces_without_separator(entry, '|');
}

/// An entry books what follows its first `|`, where that is an integer, and
/// nothing where it is not: so an entry with a second `|` books nothing.
pub proof fn lemma_entry_after_first_bar(entry: Seq<char>, at: int)
    requires
        0 <= at < entry.len(),
        entry[at] == '|',
        forall|j: int| 0 <= j < at ==> entry[j] != '|',
    ensures
        entry_effort(entry) == match integer_of(entry.skip(at + 1)) {
            Some(v) => v,
            None => 0,
        },
{
    let rest = entry.skip(at + 1);
    lemma_pieces_at_first_separator(entry, '|', at);
    if forall|j: int| 0 <= j < rest.len() ==> rest[j] != '|' {
        lemma_pieces_without_separator(rest, '|');
        assert(pieces(entry, '|') == seq![entry.take(at), rest]);
    } else {
        let k = choose|k: int| 0 <= k < rest.len() && rest[k] == '|';
        lemma_pieces_len(rest, '|');
        lemma_occurrences_of_held(rest, '|', k);
        assert(pieces(entry, '|').len() >= 3);
        assert(!is_digit(rest[k]));
        if has_sign(rest) {
            assert(unsigned_part(rest)[k - 1] == rest[k]);
        }
        assert(integer_of(rest) is None);
    }
}

/// The total runs on from row to row: the first total is what was carried in
/// plus the effort of the first row, and every later total is the total
/// before it plus the effort of its own row.
pub proof fn lemma_partial_efforts_run_on(
    totals: Seq<i32>,
    carry: int,
    rows: Seq<Seq<char>>,
    i: int,
)
    requires
        are_partial_efforts(totals, carry, rows),
        0 <= i < rows.len(),
    ensures
        i == 0 ==> totals[i] == carry + row_effort(rows[0]),
        i > 0 ==> totals[i] == totals[i - 1] + row_effort(rows[i]),
{
    assert(running_total(carry, rows, 0) == carry);
}

/// The totals depend on the carry and the rows alone: two lists of totals of
/// the same rows, from the same carry, are the same list.
pub proof fn lemma_partial_efforts_repeat(
    first: Seq<i32>,
    second: Seq<i32>,
    carry: int,
    rows: Seq<Seq<char>>,
)
    requires
        are_partial_efforts(first, carry, rows),
        are_partial_efforts(second, carry, rows),
    ensures
        first == second,
{
    assert(first =~= second);
}

/// No rows have no totals, whatever is carried in: the empty list is their
/// list of totals, and the only one.
pub proof fn lemma_no_rows_no_totals(totals: Seq<i32>, carry: int)
    ensures
        partial_efforts_fit(carry, Seq::<Seq<char>>::empty()),
        are_partial_efforts(totals, carry, Seq::<Seq<char>>::empty()) <==> totals
            == Seq::<i32>::empty(),
{
    assert(totals.len() == 0 ==> totals =~= Seq::<i32>::empty());
}

/// The total after some rows of `head` is the same whatever rows follow
/// `head`; the total after all of `head` and some rows of `tail` is that of
/// those rows of `tail`, from the carry that `head` ends with.
proof fn lemma_running_total_of_two(
    carry: int,
    head: Seq<Seq<char>>,
    tail: Seq<Seq<char>>,
    n: int,
)
    requires
        0 <= n <= head.len() + tail.len(),
    ensures
        n <= head.len() ==> running_total(carry, head + tail, n) == running_total(carry, head, n),
        n >= head.len() ==> running_total(carry, head + tail, n) == running_total(
            running_total(carry, head, head.len() as int),
            tail,
            n - head.len(),
        ),
    decreases n,
{
    if n > 0 {
        lemma_running_total_of_two(carry, head, tail, n - 1);
        if n > head.len() {
            assert((head + tail)[n - 1] == tail[n - 1 - head.len()]);
        } else {
            assert((head + tail)[n - 1] == head[n - 1]);
        }
    }
}

/// Where the total starts is a matter of the carry alone: the totals of two
/// lists of rows in a row are those of the first list, and then those of the
/// second list from the carry that the first list ends with.
pub proof fn lemma_partial_efforts_continue(
    first: Seq<i32>,
    second: Seq<i32>,
    carry: int,
    head: Seq<Seq<char>>,
    tail: Seq<Seq<char>>,
)
    requires
        are_partial_efforts(first, carry, head),
        are_partial_efforts(second, running_total(carry, head, head.len() as int), tail),
    ensures
        are_partial_efforts(first + second, carry, head + tail),
{
    let both = first + second;
    assert forall|i: int| 0 <= i < both.len() implies #[trigger] both[i] == running_total(
        carry,
        head + tail,
        i + 1,
    ) by {
        lemma_running_total_of_two(carry, head, tail, i + 1);
        if i >= head.len() {
            assert(both[i] == second[i - head.len()]);
        } else {
            assert(both[i] == first[i]);
        }
    }
}

/// A list of rows has one largest number of entries.
pub proof fn lemma_max_height_is_one(first: int, second: int, rows: Seq<Seq<char>>)
    requires
        is_max_height(first, rows),
        is_max_height(second, rows),
    ensures
        first == second,
{
}

/// The effort of a list of entries is bounded by their number.
proof fn lemma_entries_effort_bounds(entries: Seq<Seq<char>>)
    ensures
        -0x8000_0000 * entries.len() <= entries_effort(entries) <= 0x7fff_ffff * entries.len(),
    decreases entries.len(),
{
    if entries.len() > 0 {
        lemma_entries_effort_bounds(entries.drop_last());
    }
}

/// The effort that `entry` books.
pub fn effort_of_entry(entry: &[char]) -> (effort: i32)
    ensures
        effort == entry_effort(entry@),
{
    let fields = split(entry, '|');
    if fields.len() == 2 {
        assert(texts_of(fields@)[1] == fields@[1]@);
        match parse_i32(fields[1].as_slice()) {
            Some(v) => v,
            None => 0,
        }
    } else {
        0
    }
}

/// The entries of `row`.
pub fn entries_of(row: &str) -> (entries: Vec<Vec<char>>)
    ensures
        texts_of(entries@) == sub_entries(row@),
        entries@.len() == entry_count(row@),
{
    if row.is_empty() {
        let none: Vec<Vec<char>> = Vec::new();
        assert(texts_of(none@) == Seq::<Seq<char>>::empty());
        none
    } else {
        let chars = chars_of(row);
        split(chars.as_slice(), '\n')
    }
}

/// The effort that `row` books.
pub fn effort_of_row(row: &str) -> (effort: i128)
    ensures
        effort == row_effort(row@),
{
    let lines = entries_of(row);
    let ghost entries = texts_of(lines@);
    let mut effort: i128 = 0;
    let mut k: usize = 0;
    while k < lines.len()
        invariant
            k <= lines.len(),
            entries == texts_of(lines@),
            effort == entries_effort(entries.take(k as int)),
        decreases lines.len() - k,
    {
        proof {
            lemma_entries_effort_bounds(entries.take(k as int));
            assert(entries.take(k + 1).drop_last() == entries.take(k as int));
            assert(entries.take(k + 1).last() == lines@[k as int]@);
        }
        let booked = effort_of_entry(lines[k].as_slice());
        effort = effort + booked as i128;
        k += 1;
    }
    assert(entries.take(k as int) == entries);
    effort
}

/// The running totals of `worker_efforts`, starting from `carry`, or `None`
/// where one of them cannot be held in an `i32`.
///
/// Where the total starts is the caller's choice: with 0 the rows are
/// totalled on their own, and with the last total of another list they
/// continue it.
pub fn partial_efforts_from(carry: i32, worker_efforts: &Vec<&str>) -> (totals: Option<Vec<i32>>)
    ensures
        match totals {
            Some(t) => {
                &&& partial_efforts_fit(carry as int, rows_of(worker_efforts@))
                &&& are_partial_efforts(t@, carry as int, rows_of(worker_efforts@))
            },
            None => !partial_efforts_fit(carry as int, rows_of(worker_efforts@)),
        },
{
    let ghost rows = rows_of(worker_efforts@);
    let mut totals: Vec<i32> = Vec::new();
    let mut effort: i32 = carry;
    let mut i: usize = 0;
    while i < worker_efforts.len()
        invariant
            i <= worker_efforts.len(),
            rows == rows_of(worker_efforts@),
            effort == running_total(carry as int, rows, i as int),
            totals@.len() == i,
            forall|j: int|
                0 <= j < i ==> #[trigger] totals@[j] == running_total(carry as int, rows, j + 1),
            forall|n: int|
                0 < n <= i ==> i32::MIN <= #[trigger] running_total(carry as int, rows, n)
                    <= i32::MAX,
        decreases worker_efforts.len() - i,
    {
        let booked = effort_of_row(worker_efforts[i]);
        assert(effort + booked == running_total(carry as int, rows, i + 1));
        let least: i128 = i32::MIN as i128 - effort as i128;
        let most: i128 = i32::MAX as i128 - effort as i128;
        if booked < least || booked > most {
            return None;
        }
        effort = (effort as i128 + booked) as i32;
        totals.push(effort);
        i += 1;
    }
    Some(totals)
}

/// The running total after each row of `worker_efforts`, in the rows' order:
/// the effort that this row and the rows before it book.
pub fn get_partial_efforts_model(worker_efforts: &Vec<&str>) -> (totals: Vec<i32>)
    requires
        partial_efforts_fit(0, rows_of(worker_efforts@)),
    ensures
        are_partial_efforts(totals@, 0, rows_of(worker_efforts@)),
{
    match partial_efforts_from(0, worker_efforts) {
        Some(totals) => totals,
        None => vstd::pervasive::unreached(),
    }
}

/// The largest number of entries that a row of `worker_efforts` has, and 0
/// where there is no row. The heights of the rows are not added up.
pub fn get_max_height(worker_efforts: &Vec<&str>) -> (height: usize)
    ensures
        is_max_height(height as int, rows_of(worker_efforts@)),
{
    let ghost rows = rows_of(worker_efforts@);
    let mut height: usize = 0;
    let mut i: usize = 0;
    while i < worker_efforts.len()
        invariant
            i <= worker_efforts.len(),
            rows == rows_of(worker_efforts@),
            is_max_height(height as int, rows.take(i as int)),
        decreases worker_efforts.len() - i,
    {
        let entries = entries_of(worker_efforts[i]);
        let count = entries.len();
        proof {
            let seen = rows.take(i as int);
            let now = rows.take(i + 1);
            assert(now[i as int] == rows[i as int]);
            assert(count == entry_count(now[i as int]));
            assert forall|j: int| 0 <= j < i implies now[j] == seen[j] by {}
            if height >= count && i > 0 {
                let j = choose|j: int|
                    0 <= j < seen.len() && height == entry_count(#[trigger] seen[j]);
                assert(now[j] == seen[j]);
            }
        }
        if height < count {
            height = count;
        }
        i += 1;
    }
    assert(rows.take(i as int) == rows);
    height
}

/// The rows as they are shown: a copy of each, in the rows' order.
pub fn get_worker_efforts_model(worker_efforts: &Vec<&str>) -> (shown: Vec<String>)
    ensures
        shown@.len() == worker_efforts@.len(),
        forall|i: int| 0 <= i < shown@.len() ==> (#[trigger] shown@[i])@ == worker_efforts@[i]@,
{
    let mut shown: Vec<String> = Vec::new();
    let mut i: usize = 0;
    while i < worker_efforts.len()
        invariant
            i <= worker_efforts.len(),
            shown@.len() == i,
            forall|j: int| 0 <= j < i ==> (#[trigger] shown@[j])@ == worker_efforts@[j]@,
        decreases worker_efforts.len() - i,
    {
        shown.push(worker_efforts[i].to_owned());
        i += 1;
    }
    shown
}

} // verus!
