//! The `bank` command's search among the banks available to the application.

use vstd::prelude::*;
use vstd::string::*;
use crate::local::{lowercase_text, lowercased};
use crate::output::{cells_of, render_table, rows_of, utf8_full_table};

verus! {

/// A bank (ASPSP) available through Enable Banking.
pub struct AspspEntry {
    pub name: String,
    pub country: String,
}

/// Whether `needle` occurs in `hay`.
pub open spec fn contains_text(hay: Seq<char>, needle: Seq<char>) -> bool {
    exists|i: int| 0 <= i && i + needle.len() <= hay.len() && #[trigger] hay.subrange(i, i + needle.len()) == needle
}

fn matches_at(hay: &str, needle: &str, i: usize) -> (res: bool)
    requires
        i + needle@.len() <= hay@.len(),
        hay@.len() <= usize::MAX,
    ensures
        res == (hay@.subrange(i as int, i + needle@.len()) == needle@),
{
    let m = needle.unicode_len();
    let mut j: usize = 0;
    while j < m
        invariant
            m == needle@.len(),
            i + m <= hay@.len(),
            hay@.len() <= usize::MAX,
            j <= m,
            forall|k: int| 0 <= k < j ==> hay@[i + k] == needle@[k],
        decreases m - j,
    {
        if hay.get_char(i + j) != needle.get_char(j) {
            assert(hay@.subrange(i as int, i + m)[j as int] != needle@[j as int]);
            return false;
        }
        j = j + 1;
    }
    assert(hay@.subrange(i as int, i + m) =~= needle@);
    true
}

/// Whether `needle` occurs in `hay`.
pub fn str_contains(hay: &str, needle: &str) -> (res: bool)
    ensures
        res == contains_text(hay@, needle@),
{
    let h = hay.unicode_len();
    let m = needle.unicode_len();
    if m > h {
        return false;
    }
    let last = h - m;
    let mut i: usize = 0;
    loop
        invariant
            h == hay@.len(),
            m == needle@.len(),
            last == h - m,
            i <= last,
            forall|k: int| 0 <= k < i ==> #[trigger] hay@.subrange(k, k + m) != needle@,
        decreases last - i,
    {
        if matches_at(hay, needle, i) {
            return true;
        }
        if i == last {
            return false;
        }
        i = i + 1;
    }
}

/// Whether a bank is kept by a search for `needle` (already in lower case):
/// its name in lower case contains it.
pub open spec fn bank_kept(b: AspspEntry, needle: Option<Seq<char>>) -> bool {
    match needle {
        None => true,
        Some(n) => contains_text(lowercased(b.name@), n),
    }
}

/// The banks that a search keeps, in order.
pub open spec fn kept_banks(banks: Seq<AspspEntry>, needle: Option<Seq<char>>) -> Seq<AspspEntry>
    decreases banks.len(),
{
    if banks.len() == 0 {
        banks
    } else if bank_kept(banks.last(), needle) {
        kept_banks(banks.drop_last(), needle).push(banks.last())
    } else {
        kept_banks(banks.drop_last(), needle)
    }
}

/// The banks whose name contains `search`, ignoring case; all banks without
/// a search.
pub fn filter_banks(banks: Vec<AspspEntry>, search: Option<&str>) -> (res: Vec<AspspEntry>)
    ensures
        res@ == kept_banks(
            banks@,
            match search {
                Some(s) => Some(lowercased(s@)),
                None => None,
            },
        ),
{
    let ghost needle_spec = match search {
        Some(s) => Some(lowercased(s@)),
        None => None,
    };
    let needle: Option<String> = match search {
        Some(s) => Some(lowercase_text(s)),
        None => None,
    };
    let ghost all = banks@;
    let mut rest = banks;
    assert(all.take(all.len() as int) =~= all);
    let mut kept_rev: Vec<AspspEntry> = Vec::new();
    while rest.len() > 0
        invariant
            rest@.len() <= all.len(),
            rest@ == all.take(rest@.len() as int),
            needle matches Some(x) ==> needle_spec == Some(x@),
            needle is None ==> needle_spec is None,
            kept_banks(all, needle_spec) == kept_banks(rest@, needle_spec) + kept_rev@.reverse(),
        decreases rest@.len(),
    {
        let ghost before = rest@;
        let b = rest.pop().unwrap();
        proof {
            assert(before.drop_last() =~= rest@);
            assert(all.take(rest@.len() as int) =~= all.take(before.len() as int).drop_last());
        }
        let keep = match &needle {
            None => true,
            Some(x) => {
                let lower = lowercase_text(b.name.as_str());
                str_contains(lower.as_str(), x.as_str())
            },
        };
        let ghost kr = kept_rev@;
        if keep {
            kept_rev.push(b);
            proof {
                assert(kept_rev@.reverse() =~= seq![b] + kr.reverse());
                assert(kept_banks(before, needle_spec) == kept_banks(rest@, needle_spec).push(b));
                assert(kept_banks(rest@, needle_spec).push(b) + kr.reverse() =~= kept_banks(rest@, needle_spec)
                    + (seq![b] + kr.reverse()));
            }
        } else {
            proof {
                assert(kept_banks(before, needle_spec) == kept_banks(rest@, needle_spec));
            }
        }
    }
    proof {
        assert(kept_banks(rest@, needle_spec) =~= Seq::<AspspEntry>::empty());
        assert(kept_banks(all, needle_spec) =~= kept_rev@.reverse());
    }
    let mut out: Vec<AspspEntry> = Vec::new();
    let ghost rev = kept_rev@;
    while kept_rev.len() > 0
        invariant
            kept_banks(all, needle_spec) == rev.reverse(),
            rev.reverse() == out@ + kept_rev@.reverse(),
        decreases kept_rev@.len(),
    {
        let ghost before = kept_rev@;
        let b = kept_rev.pop().unwrap();
        proof {
            assert(before =~= kept_rev@.push(b));
            assert(before.reverse() =~= seq![b] + kept_rev@.reverse());
        }
        let ghost out_before = out@;
        out.push(b);
        proof {
            assert(out_before + before.reverse() =~= out@ + kept_rev@.reverse());
        }
    }
    proof {
        assert(out@ + kept_rev@.reverse() =~= out@);
    }
    out
}

/// The message of a search that keeps no bank.
pub open spec fn no_banks_message() -> Seq<char> {
    "No banks found."@
}

/// The message of a search that keeps no bank.
pub fn no_banks() -> (res: &'static str)
    ensures
        res@ == no_banks_message(),
{
    "No banks found."
}

/// The cells of a bank in the table of banks: its name and its country.
pub open spec fn bank_cells_spec(b: AspspEntry) -> Seq<Seq<char>> {
    seq![b.name@, b.country@]
}

/// The table of banks, with the header `Name`, `Country`.
pub fn bank_table(banks: &Vec<AspspEntry>) -> (res: String)
    ensures
        res@ == utf8_full_table(seq!["Name"@, "Country"@], banks@.map_values(|b: AspspEntry| bank_cells_spec(b))),
{
    let mut rows: Vec<Vec<String>> = Vec::new();
    let mut i: usize = 0;
    while i < banks.len()
        invariant
            i <= banks@.len(),
            rows@.len() == i,
            forall|j: int| 0 <= j < i ==> cells_of(#[trigger] rows@[j]@) == bank_cells_spec(banks@[j]),
        decreases banks@.len() - i,
    {
        let row: Vec<String> = vec![banks[i].name.clone(), banks[i].country.clone()];
        assert(cells_of(row@) =~= bank_cells_spec(banks@[i as int]));
        rows.push(row);
        i = i + 1;
    }
    let header: Vec<String> = vec!["Name".to_owned(), "Country".to_owned()];
    assert(cells_of(header@) =~= seq!["Name"@, "Country"@]);
    assert(rows_of(rows@) =~= banks@.map_values(|b: AspspEntry| bank_cells_spec(b)));
    render_table(&header, &rows)
}

} // verus!
