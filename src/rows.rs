//! The row format of a price file: comma-separated fields, the date in the
//! first field and the closing price in the fifth, under one header line.
use vstd::prelude::*;

use crate::engine::simulated;

verus! {

/// The fields of `s`, split at every comma. A line without a comma is one
/// field; a comma at either end gives an empty field there.
pub open spec fn split_fields(s: Seq<char>) -> Seq<Seq<char>>
    decreases s.len(),
{
    if s.len() == 0 {
        seq![Seq::empty()]
    } else {
        let pre = split_fields(s.drop_last());
        if s.last() == ',' {
            pre.push(Seq::empty())
        } else {
            pre.update(pre.len() - 1, pre.last().push(s.last()))
        }
    }
}

/// What `str::trim` makes of a string: it drops leading and trailing
/// white space, as Unicode defines it.
pub uninterp spec fn trimmed(s: Seq<char>) -> Seq<char>;

/// Relies on `str::trim`, for the date and the price field of a row.
#[verifier::external_body]
fn trim(s: &str) -> (r: String)
    ensures
        r@ == trimmed(s@),
{
    s.trim().to_string()
}

/// Relies on `String`'s `FromIterator<&char>`: the string of exactly these
/// characters, in order.
#[verifier::external_body]
fn text_of(v: &Vec<char>) -> (r: String)
    ensures
        r@ == v@,
{
    v.iter().collect()
}

/// A row has a date and a price when it has at least five fields.
pub open spec fn has_price(line: Seq<char>) -> bool {
    split_fields(line).len() >= 5
}

proof fn lemma_split_len(s: Seq<char>)
    ensures
        split_fields(s).len() >= 1,
    decreases s.len(),
{
    if s.len() > 0 {
        lemma_split_len(s.drop_last());
    }
}

/// Splits one data row into its trimmed date field and its trimmed price
/// field. Rows with fewer than five fields give `None`.
pub fn parse_row(line: &str) -> (r: Option<(String, String)>)
    ensures
        r is Some <==> has_price(line@),
        r matches Some(p) ==> {
            &&& p.0@ == trimmed(split_fields(line@)[0])
            &&& p.1@ == trimmed(split_fields(line@)[4])
        },
{
    let mut date: Vec<char> = Vec::new();
    let mut price: Vec<char> = Vec::new();
    // Commas seen so far, counted up to five.
    let mut k: usize = 0;
    proof {
        assert(split_fields(line@.subrange(0, 0)) == seq![Seq::<char>::empty()]);
    }
    for c in it: line.chars()
        invariant
            it.seq() == line@,
            k <= 5,
            k == (if split_fields(line@.subrange(0, it.index() as int)).len() - 1 < 5 {
                split_fields(line@.subrange(0, it.index() as int)).len() - 1
            } else {
                5
            }),
            date@ == split_fields(line@.subrange(0, it.index() as int))[0],
            k >= 4 ==> price@ == split_fields(line@.subrange(0, it.index() as int))[4],
            k < 4 ==> price@ == Seq::<char>::empty(),
    {
        let ghost pre = line@.subrange(0, it.index() as int);
        let ghost next = line@.subrange(0, it.index() + 1);
        proof {
            assert(next.drop_last() =~= pre);
            assert(next.last() == c);
            lemma_split_len(pre);
        }
        if c == ',' {
            if k < 5 {
                k = k + 1;
            }
        } else {
            if k == 0 {
                date.push(c);
            } else if k == 4 {
                price.push(c);
            }
        }
    }
    proof {
        assert(line@.subrange(0, line@.len() as int) =~= line@);
    }
    if k < 4 {
        None
    } else {
        let d = text_of(&date);
        let p = text_of(&price);
        Some((trim(d.as_str()), trim(p.as_str())))
    }
}

/// The date and price fields of the rows among `lines` that have them, in
/// order.
pub open spec fn rows_of(lines: Seq<Seq<char>>) -> Seq<(Seq<char>, Seq<char>)>
    decreases lines.len(),
{
    if lines.len() == 0 {
        Seq::empty()
    } else {
        let pre = rows_of(lines.drop_last());
        let l = lines.last();
        if has_price(l) {
            pre.push((trimmed(split_fields(l)[0]), trimmed(split_fields(l)[4])))
        } else {
            pre
        }
    }
}

/// The rows of a price file given as its lines: the first line is a header
/// and is skipped whatever it holds.
pub open spec fn file_rows(lines: Seq<Seq<char>>) -> Seq<(Seq<char>, Seq<char>)> {
    if lines.len() == 0 {
        Seq::empty()
    } else {
        rows_of(lines.drop_first())
    }
}

pub open spec fn texts(v: Seq<String>) -> Seq<Seq<char>> {
    v.map_values(|s: String| s@)
}

pub open spec fn pair_texts(v: Seq<(String, String)>) -> Seq<(Seq<char>, Seq<char>)> {
    v.map_values(|p: (String, String)| (p.0@, p.1@))
}

/// The (date, price text) rows of a price file, given as its lines. The
/// header line is skipped and rows with fewer than five fields are dropped.
pub fn data_rows(lines: &Vec<String>) -> (r: Vec<(String, String)>)
    ensures
        pair_texts(r@) == file_rows(texts(lines@)),
{
    let mut out: Vec<(String, String)> = Vec::new();
    if lines.len() == 0 {
        proof {
            assert(pair_texts(out@) =~= file_rows(texts(lines@)));
        }
        return out;
    }
    let ghost all = texts(lines@);
    let mut i: usize = 1;
    proof {
        assert(all.subrange(1, 1) =~= Seq::<Seq<char>>::empty());
        assert(pair_texts(out@) =~= rows_of(all.subrange(1, 1)));
    }
    while i < lines.len()
        invariant
            1 <= i <= lines.len(),
            all == texts(lines@),
            pair_texts(out@) == rows_of(all.subrange(1, i as int)),
        decreases lines.len() - i,
    {
        let ghost before = out@;
        proof {
            assert(all.subrange(1, i + 1).drop_last() =~= all.subrange(1, i as int));
            assert(all.subrange(1, i + 1).last() == lines@[i as int]@);
        }
        match parse_row(lines[i].as_str()) {
            Some(p) => {
                out.push(p);
                proof {
                    assert(pair_texts(out@) =~= pair_texts(before).push((out@.last().0@, out@.last().1@)));
                }
            },
            None => {},
        }
        i = i + 1;
    }
    proof {
        assert(all.subrange(1, all.len() as int) =~= all.drop_first());
    }
    out
}

/// A price file of a header and a single data row yields at most one
/// price, which no window of one price or more can simulate.
pub proof fn lemma_one_row_file_excluded(lines: Seq<Seq<char>>, prices: nat, history: nat)
    requires
        lines.len() == 2,
        prices <= file_rows(lines).len(),
        history >= 1,
    ensures
        file_rows(lines).len() <= 1,
        !simulated(prices as int, history as int),
{
    let body = lines.drop_first();
    assert(body.drop_last().len() == 0);
    assert(rows_of(body.drop_last()).len() == 0);
}

} // verus!
