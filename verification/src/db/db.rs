//! A fixed list of sample entries: id, title and body.

use vstd::prelude::*;

verus! {

/// The sample entries, as id, title and body.
pub open spec fn sample_rows() -> Seq<(usize, Seq<char>, Seq<char>)> {
    seq![
        (1usize, "password 1"@, "Body of this item 1"@),
        (2usize, "password 2"@, "Body of this item 2"@),
        (3usize, "password 3"@, "Body of this item 3"@),
        (4usize, "password 4"@, "Body of this item 4"@),
        (7usize, "password 7 with really long text and stuff"@, "Body of this item 5\ntest new line\nnew line\nnew line\nnew line\nnew line\nnew line\nnew line\nnew line\nnew line\nnew line\nnew line\nnew line\nnew line\nnew line\nnew line\nnew line\nnew line\nnew line\nnew line\nnew line\nnew line\nnew line\nnew line\nnew line\nnew line\nnew line\nnew line\nnew line\nnew line\nnew line\nnew line\nnew line\nnew line\nnew line\nnew line\nnew line\nnew line\nnew line\nnew line\nnew line\nnew line\nnew line\nnew line\nlast line"@),
        (8usize, "password 8"@, "Body of this item 8"@),
        (9usize, "password 9"@, "Body of this item 9"@),
        (10usize, "password 10"@, "Body of this item 10"@),
        (11usize, "password 11"@, "Body of this item 11"@),
        (12usize, "password 12 with also some"@, "Body of this item 12"@),
        (13usize, "password 13"@, "Body of this item 13"@),
        (14usize, "password 14"@, "Body of this item 14"@),
        (15usize, "password 15"@, "Body of this item 15"@),
        (16usize, "password 16"@, "Body of this item 16"@),
        (17usize, "password 17"@, "Body of this item 17"@),
        (18usize, "password 18"@, "Body of this item 18"@),
        (19usize, "password 19"@, "Body of this item 19"@),
        (20usize, "password 20"@, "Body of this item 20"@),
        (21usize, "password 21"@, "Body of this item 21"@),
        (22usize, "password 22"@, "Body of this item 22"@),
        (23usize, "password 23"@, "Body of this item 23"@),
        (34usize, "password 34"@, "Body of this item 34"@),
        (35usize, "password 35"@, "Body of this item 35"@),
        (36usize, "password 36"@, "Body of this item 36"@),
        (37usize, "password 37"@, "Body of this item 37"@),
        (38usize, "password 38"@, "Body of this item 38"@),
        (39usize, "last password"@, "Body of last item"@),
    ]
}

/// The text of a sample row.
pub open spec fn row_view(row: (usize, &'static str, &'static str)) -> (usize, Seq<char>, Seq<char>) {
    (row.0, row.1@, row.2@)
}

/// The sample entries.
pub fn get_db() -> (rows: Vec<(usize, &'static str, &'static str)>)
    ensures
        rows@.map_values(|row: (usize, &'static str, &'static str)| row_view(row)) == sample_rows(),
{
    let rows = vec![
        (1, "password 1", "Body of this item 1"),
        (2, "password 2", "Body of this item 2"),
        (3, "password 3", "Body of this item 3"),
        (4, "password 4", "Body of this item 4"),
        (7, "password 7 with really long text and stuff", "Body of this item 5\ntest new line\nnew line\nnew line\nnew line\nnew line\nnew line\nnew line\nnew line\nnew line\nnew line\nnew line\nnew line\nnew line\nnew line\nnew line\nnew line\nnew line\nnew line\nnew line\nnew line\nnew line\nnew line\nnew line\nnew line\nnew line\nnew line\nnew line\nnew line\nnew line\nnew line\nnew line\nnew line\nnew line\nnew line\nnew line\nnew line\nnew line\nnew line\nnew line\nnew line\nnew line\nnew line\nnew line\nlast line"),
        (8, "password 8", "Body of this item 8"),
        (9, "password 9", "Body of this item 9"),
        (10, "password 10", "Body of this item 10"),
        (11, "password 11", "Body of this item 11"),
        (12, "password 12 with also some", "Body of this item 12"),
        (13, "password 13", "Body of this item 13"),
        (14, "password 14", "Body of this item 14"),
        (15, "password 15", "Body of this item 15"),
        (16, "password 16", "Body of this item 16"),
        (17, "password 17", "Body of this item 17"),
        (18, "password 18", "Body of this item 18"),
        (19, "password 19", "Body of this item 19"),
        (20, "password 20", "Body of this item 20"),
        (21, "password 21", "Body of this item 21"),
        (22, "password 22", "Body of this item 22"),
        (23, "password 23", "Body of this item 23"),
        (34, "password 34", "Body of this item 34"),
        (35, "password 35", "Body of this item 35"),
        (36, "password 36", "Body of this item 36"),
        (37, "password 37", "Body of this item 37"),
        (38, "password 38", "Body of this item 38"),
        (39, "last password", "Body of last item"),
    ];
    assert(rows@.map_values(|row: (usize, &'static str, &'static str)| row_view(row)) =~= sample_rows());
    rows
}

/// The position of the first row with the id.
pub open spec fn first_row(rows: Seq<(usize, Seq<char>, Seq<char>)>, id: usize) -> Option<int>
    decreases rows.len(),
{
    if rows.len() == 0 {
        None
    } else {
        match first_row(rows.drop_last(), id) {
            Some(i) => Some(i),
            None => if rows.last().0 == id {
                Some(rows.len() - 1)
            } else {
                None
            },
        }
    }
}

proof fn lemma_first_row(s: Seq<(usize, Seq<char>, Seq<char>)>, id: usize)
    ensures
        match first_row(s, id) {
            Some(i) => 0 <= i < s.len() && s[i].0 == id && forall|j: int| 0 <= j < i ==> s[j].0 != id,
            None => forall|j: int| 0 <= j < s.len() ==> s[j].0 != id,
        },
    decreases s.len(),
{
    if s.len() > 0 {
        let t = s.drop_last();
        lemma_first_row(t, id);
        assert forall|j: int| 0 <= j < s.len() - 1 implies #[trigger] t[j] == s[j] by {}
        assert(s.last() == s[s.len() - 1]);
        if first_row(t, id) is None {
            assert forall|j: int| 0 <= j < s.len() - 1 implies s[j].0 != id by {
                assert(t[j].0 != id);
            }
        } else {
            let i = first_row(t, id)->0;
            assert forall|j: int| 0 <= j < i implies s[j].0 != id by {
                assert(t[j].0 != id);
            }
        }
    }
}

/// The sample entry with the id, as id, title and body; a "not found" row
/// when there is none.
pub fn get_db_by_id(id: usize) -> (r: (usize, &'static str, &'static str))
    ensures
        row_view(r) == match first_row(sample_rows(), id) {
            Some(i) => (id, sample_rows()[i].1, sample_rows()[i].2),
            None => (id, "##Not found##"@, "Not found"@),
        },
{
    let rows = get_db();
    let ghost s = sample_rows();
    proof { lemma_first_row(s, id); }
    let mut i: usize = 0;
    while i < rows.len()
        invariant
            0 <= i <= rows@.len(),
            rows@.len() == s.len(),
            s == sample_rows(),
            forall|j: int| 0 <= j < rows@.len() ==> #[trigger] row_view(rows@[j]) == s[j],
            forall|j: int| 0 <= j < i ==> s[j].0 != id,
            match first_row(s, id) {
                Some(k) => 0 <= k < s.len() && s[k].0 == id && forall|j: int| 0 <= j < k ==> s[j].0 != id,
                None => forall|j: int| 0 <= j < s.len() ==> s[j].0 != id,
            },
        decreases rows@.len() - i,
    {
        let row = rows[i];
        assert(row_view(rows@[i as int]) == s[i as int]);
        if row.0 == id {
            assert(first_row(s, id) == Some(i as int));
            return (id, row.1, row.2);
        }
        i += 1;
    }
    (id, "##Not found##", "Not found")
}

/// The sample entries as sidebar rows: id, title and position, in order.
pub fn get_db_list() -> (r: im::Vector<(usize, &'static str, usize)>)
    ensures
        crate::im_vector::sidebar_items(r) == Seq::new(
            sample_rows().len(),
            |i: int| (sample_rows()[i].0, sample_rows()[i].1, i as usize),
        ),
{
    let rows = get_db();
    let ghost s = sample_rows();
    let ghost target = Seq::new(s.len(), |i: int| (s[i].0, s[i].1, i as usize));
    let mut r = crate::im_vector::sidebar_new();
    let mut i: usize = 0;
    while i < rows.len()
        invariant
            0 <= i <= rows@.len(),
            rows@.len() == s.len(),
            target == Seq::new(s.len(), |i: int| (s[i].0, s[i].1, i as usize)),
            forall|j: int| 0 <= j < rows@.len() ==> #[trigger] row_view(rows@[j]) == s[j],
            crate::im_vector::sidebar_items(r) =~= target.take(i as int),
        decreases rows@.len() - i,
    {
        let row = rows[i];
        assert(row_view(rows@[i as int]) == s[i as int]);
        crate::im_vector::sidebar_push_back(&mut r, (row.0, row.1, i));
        i += 1;
    }
    assert(target.take(s.len() as int) =~= target);
    r
}

} // verus!
