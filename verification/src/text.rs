//! Small verified string helpers shared by the other modules.

use vstd::prelude::*;
use vstd::string::*;

verus! {

/// The first occurrence of `x` in `s` is at `i` when `s[i]` is `x` and no
/// earlier element is.
pub proof fn lemma_index_of_first_at<A>(s: Seq<A>, i: int, x: A)
    requires
        0 <= i < s.len(),
        s[i] == x,
        forall|j: int| 0 <= j < i ==> s[j] != x,
    ensures
        s.index_of_first(x) == Some(i),
{
    s.index_of_first_ensures(x);
    assert(s.contains(x));
    let k = s.index_of_first(x).unwrap();
    if k > i {
        assert(s[i] != x);
    }
}

/// `x` has no first occurrence in `s` when no element is `x`.
pub proof fn lemma_index_of_first_none<A>(s: Seq<A>, x: A)
    requires
        forall|j: int| 0 <= j < s.len() ==> s[j] != x,
    ensures
        s.index_of_first(x) is None,
{
    s.index_of_first_ensures(x);
}

/// The texts of a result whose value and error are both texts.
pub open spec fn result_texts(r: Result<String, String>) -> Result<Seq<char>, Seq<char>> {
    match r {
        Ok(v) => Ok(v@),
        Err(e) => Err(e@),
    }
}

/// `a` and `b` hold the same characters.
pub fn str_eq(a: &str, b: &str) -> (res: bool)
    ensures
        res == (a@ == b@),
{
    let n = a.unicode_len();
    let m = b.unicode_len();
    if n != m {
        return false;
    }
    let mut i: usize = 0;
    while i < n
        invariant
            n == a@.len(),
            m == b@.len(),
            n == m,
            i <= n,
            forall|j: int| 0 <= j < i ==> a@[j] == b@[j],
        decreases n - i,
    {
        if a.get_char(i) != b.get_char(i) {
            return false;
        }
        i = i + 1;
    }
    assert(a@ =~= b@);
    true
}

/// Index of the first occurrence of `c` in `s`, if any.
pub fn find_char(s: &str, c: char) -> (res: Option<usize>)
    ensures
        match res {
            Some(i) => s@.index_of_first(c) == Some(i as int),
            None => s@.index_of_first(c) is None,
        },
{
    proof {
        s@.index_of_first_ensures(c);
    }
    let n = s.unicode_len();
    let mut i: usize = 0;
    while i < n
        invariant
            n == s@.len(),
            i <= n,
            forall|j: int| 0 <= j < i ==> s@[j] != c,
        decreases n - i,
    {
        if s.get_char(i) == c {
            proof {
                s@.index_of_first_ensures(c);
                assert(s@[i as int] == c);
                assert(s@.contains(c));
                let k = s@.index_of_first(c).unwrap();
                if k < i {
                    assert(s@[k] != c);
                }
                if k > i {
                    assert(s@[i as int] != c);
                }
            }
            return Some(i);
        }
        i = i + 1;
    }
    None
}

/// A fresh `String` holding `a` followed by `b`.
pub fn concat2(a: &str, b: &str) -> (res: String)
    ensures
        res@ == a@ + b@,
{
    let mut s = a.to_owned();
    s.append(b);
    s
}


/// The texts of `parts` joined by `sep`.
pub open spec fn join_spec(parts: Seq<Seq<char>>, sep: Seq<char>) -> Seq<char>
    decreases parts.len(),
{
    if parts.len() == 0 {
        Seq::empty()
    } else if parts.len() == 1 {
        parts[0]
    } else {
        join_spec(parts.drop_last(), sep) + sep + parts.last()
    }
}

/// Joins the texts of `parts` with `sep` between them.
pub fn join_texts(parts: &Vec<&str>, sep: &str) -> (res: String)
    ensures
        res@ == join_spec(parts@.map_values(|p: &str| p@), sep@),
{
    let ghost all = parts@.map_values(|p: &str| p@);
    let n = parts.len();
    let mut res = String::new();
    let mut i: usize = 0;
    while i < n
        invariant
            n == parts@.len(),
            all == parts@.map_values(|p: &str| p@),
            i <= n,
            res@ == join_spec(all.take(i as int), sep@),
        decreases n - i,
    {
        proof {
            assert(all.take(i + 1).drop_last() =~= all.take(i as int));
            assert(all.take(i + 1).last() == parts@[i as int]@);
        }
        if i > 0 {
            res.append(sep);
        } else {
            assert(join_spec(all.take(0), sep@) =~= Seq::<char>::empty());
        }
        res.append(parts[i]);
        proof {
            if i == 0 {
                assert(all.take(1).len() == 1);
                assert(res@ =~= all.take(1)[0]);
            }
        }
        i = i + 1;
    }
    assert(all.take(n as int) =~= all);
    res
}

/// The decimal digits of `n`.
pub open spec fn decimal(n: nat) -> Seq<char>
    decreases n,
{
    if n < 10 {
        seq![digit_char(n)]
    } else {
        decimal(n / 10).push(digit_char(n % 10))
    }
}

/// The character of the digit `d`.
pub open spec fn digit_char(d: nat) -> char {
    if d == 0 { '0' } else if d == 1 { '1' } else if d == 2 { '2' } else if d == 3 { '3' } else if d == 4 {
        '4'
    } else if d == 5 { '5' } else if d == 6 { '6' } else if d == 7 { '7' } else if d == 8 { '8' } else { '9' }
}

/// The one-character text of the digit `d`.
fn digit_text(d: usize) -> (res: &'static str)
    requires
        d < 10,
    ensures
        res@ == seq![digit_char(d as nat)],
{
    proof {
        reveal_strlit("0");
        reveal_strlit("1");
        reveal_strlit("2");
        reveal_strlit("3");
        reveal_strlit("4");
        reveal_strlit("5");
        reveal_strlit("6");
        reveal_strlit("7");
        reveal_strlit("8");
        reveal_strlit("9");
    }
    if d == 0 {
        "0"
    } else if d == 1 {
        "1"
    } else if d == 2 {
        "2"
    } else if d == 3 {
        "3"
    } else if d == 4 {
        "4"
    } else if d == 5 {
        "5"
    } else if d == 6 {
        "6"
    } else if d == 7 {
        "7"
    } else if d == 8 {
        "8"
    } else {
        "9"
    }
}

/// The decimal text of `n`, as `to_string` writes it.
pub fn u64_text(n: u64) -> (res: String)
    ensures
        res@ == decimal(n as nat),
    decreases n,
{
    if n < 10 {
        digit_text(n as usize).to_owned()
    } else {
        let mut s = u64_text(n / 10);
        s.append(digit_text((n % 10) as usize));
        s
    }
}

/// The decimal text of `n`, as `to_string` writes it.
pub fn usize_text(n: usize) -> (res: String)
    ensures
        res@ == decimal(n as nat),
{
    u64_text(n as u64)
}

/// The decimal text of `n` with a leading `-` when it is negative.
pub open spec fn signed_decimal(n: int) -> Seq<char> {
    if n < 0 {
        "-"@ + decimal((-n) as nat)
    } else {
        decimal(n as nat)
    }
}

/// The decimal text of `n`, as `to_string` writes it.
pub fn i64_text(n: i64) -> (res: String)
    ensures
        res@ == signed_decimal(n as int),
{
    if n < 0 {
        let m: u64 = if n == i64::MIN {
            9223372036854775808u64
        } else {
            (-n) as u64
        };
        let digits = u64_text(m);
        let mut s = "-".to_owned();
        s.append(digits.as_str());
        s
    } else {
        u64_text(n as u64)
    }
}

} // verus!
