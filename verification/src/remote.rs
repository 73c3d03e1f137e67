//! Identifiers that Enable Banking assigns to accounts and sessions (UUIDs).

use vstd::prelude::*;
use crate::text::concat2;
use vstd::string::*;

verus! {

/// What `uuid::Uuid::parse_str` gives for `text`: the UUID as a 128-bit number,
/// or the text of its error.
pub uninterp spec fn uuid_parse(text: Seq<char>) -> Result<u128, Seq<char>>;

/// Calls `uuid::Uuid::parse_str` (then `Uuid::as_u128`, or the error's
/// `to_string`); the contract claims that the result is the named parse.
#[verifier::external_body]
fn parse_uuid(text: &str) -> (res: Result<u128, String>)
    ensures
        match res {
            Ok(v) => uuid_parse(text@) == Ok::<u128, Seq<char>>(v),
            Err(e) => uuid_parse(text@) == Err::<u128, Seq<char>>(e@),
        },
{
    uuid::Uuid::parse_str(text).map(|u| u.as_u128()).map_err(|e| e.to_string())
}

/// The lower-case hexadecimal digits.
pub open spec fn hex_alphabet() -> Seq<char> {
    seq!['0', '1', '2', '3', '4', '5', '6', '7', '8', '9', 'a', 'b', 'c', 'd', 'e', 'f']
}

/// The lower-case hexadecimal digit of `n` (below 16).
pub open spec fn hex_digit(n: nat) -> char {
    hex_alphabet()[n as int]
}

/// The `n` lowest hexadecimal digits of `v`, lowest first.
pub open spec fn low_digits(v: nat, n: nat) -> Seq<char>
    decreases n,
{
    if n == 0 {
        seq![]
    } else {
        seq![hex_digit(v % 16)] + low_digits(v / 16, (n - 1) as nat)
    }
}

/// The digits `d` with a hyphen before the ninth, thirteenth, seventeenth
/// and twenty-first.
pub open spec fn with_hyphens(d: Seq<char>) -> Seq<char>
    decreases d.len(),
{
    if d.len() == 0 {
        seq![]
    } else {
        let k = d.len() - 1;
        with_hyphens(d.drop_last()) + (if k == 8 || k == 12 || k == 16 || k == 20 {
            seq!['-']
        } else {
            seq![]
        }) + seq![d.last()]
    }
}

/// The hyphenated lower-case text of the UUID `value`, as `uuid` writes it:
/// its 32 hexadecimal digits, most significant first, in groups of 8, 4, 4,
/// 4 and 12 joined by hyphens.
pub open spec fn uuid_text(value: u128) -> Seq<char> {
    with_hyphens(low_digits(value as nat, 32).reverse())
}

proof fn lemma_low_digits_len(v: nat, n: nat)
    ensures
        low_digits(v, n).len() == n,
    decreases n,
{
    if n > 0 {
        lemma_low_digits_len(v / 16, (n - 1) as nat);
    }
}

/// The text of the hexadecimal digit `n`.
fn hex_digit_text(n: u8) -> (res: &'static str)
    requires
        n < 16,
    ensures
        res@ == seq![hex_digit(n as nat)],
{
    let digits = "0123456789abcdef";
    proof {
        reveal_strlit("0123456789abcdef");
        assert(digits@ =~= hex_alphabet());
    }
    let res = digits.substring_char(n as usize, n as usize + 1);
    assert(res@ =~= seq![hex_digit(n as nat)]);
    res
}

/// The hyphenated lower-case text of the UUID `value`.
fn format_uuid(value: u128) -> (res: String)
    ensures
        res@ == uuid_text(value),
{
    let ghost low = low_digits(value as nat, 32);
    proof {
        lemma_low_digits_len(value as nat, 32);
    }
    let mut nibbles: Vec<u8> = Vec::new();
    let mut cur: u128 = value;
    let mut i: usize = 0;
    while i < 32
        invariant
            i <= 32,
            nibbles@.len() == i,
            low.len() == 32,
            low == low_digits(value as nat, 32),
            low.skip(i as int) == low_digits(cur as nat, (32 - i) as nat),
            forall|j: int| 0 <= j < i ==> #[trigger] nibbles@[j] < 16 && low[j] == hex_digit(nibbles@[j] as nat),
        decreases 32 - i,
    {
        let ghost m = (32 - i) as nat;
        proof {
            assert(low_digits(cur as nat, m) == seq![hex_digit((cur as nat) % 16)] + low_digits(
                (cur as nat) / 16,
                (m - 1) as nat,
            ));
            assert(low[i as int] == low.skip(i as int)[0]);
            assert(low.skip(i + 1) =~= low.skip(i as int).skip(1));
            assert(low.skip(i as int).skip(1) =~= low_digits((cur as nat) / 16, (m - 1) as nat));
        }
        nibbles.push((cur % 16) as u8);
        cur = cur / 16;
        i = i + 1;
    }
    let ghost high = low.reverse();
    let mut res = String::new();
    let mut k: usize = 0;
    while k < 32
        invariant
            k <= 32,
            nibbles@.len() == 32,
            low.len() == 32,
            high == low.reverse(),
            forall|j: int| 0 <= j < 32 ==> #[trigger] nibbles@[j] < 16 && low[j] == hex_digit(nibbles@[j] as nat),
            res@ == with_hyphens(high.take(k as int)),
        decreases 32 - k,
    {
        let ghost before = res@;
        if k == 8 || k == 12 || k == 16 || k == 20 {
            res.append("-");
        }
        let n = nibbles[31 - k];
        res.append(hex_digit_text(n));
        proof {
            assert(high.take(k + 1).drop_last() =~= high.take(k as int));
            assert(high.take(k + 1).last() == high[k as int]);
            assert(high[k as int] == low[31 - k]);
            assert(low[31 - k] == hex_digit(nibbles@[31 - k as int] as nat));
            reveal_strlit("-");
            assert(res@ =~= with_hyphens(high.take(k + 1)));
        }
        k = k + 1;
    }
    assert(high.take(32) =~= high);
    res
}

/// The text of a refused UUID of a `what` (`account` or `session`).
pub open spec fn invalid_uuid_message(what: Seq<char>, error: Seq<char>) -> Seq<char> {
    "invalid "@ + what + " id: "@ + error
}

/// Reads a UUID; a refusal is described as an invalid `what` id.
pub fn read_uuid(what: &str, text: &str) -> (res: Result<u128, String>)
    ensures
        match uuid_parse(text@) {
            Ok(v) => res == Ok::<u128, String>(v),
            Err(e) => res matches Err(msg) && msg@ == invalid_uuid_message(what@, e),
        },
{
    match parse_uuid(text) {
        Ok(v) => Ok(v),
        Err(e) => {
            let a = concat2("invalid ", what);
            let b = concat2(a.as_str(), " id: ");
            Err(concat2(b.as_str(), e.as_str()))
        },
    }
}

/// The UUID of an account at Enable Banking.
#[derive(Clone, Copy, Debug, PartialEq, Eq, Structural)]
pub struct EnableBankingAccountId(pub u128);

/// The UUID of an authorization session at Enable Banking.
#[derive(Clone, Copy, Debug, PartialEq, Eq, Structural)]
pub struct EnableBankingSessionId(pub u128);

impl EnableBankingAccountId {
    /// Reads an account UUID.
    pub fn parse(text: &str) -> (res: Result<EnableBankingAccountId, String>)
        ensures
            match uuid_parse(text@) {
                Ok(v) => res == Ok::<EnableBankingAccountId, String>(EnableBankingAccountId(v)),
                Err(e) => res matches Err(msg) && msg@ == invalid_uuid_message("account"@, e),
            },
    {
        match read_uuid("account", text) {
            Ok(v) => Ok(EnableBankingAccountId(v)),
            Err(e) => Err(e),
        }
    }

    /// The UUID's text.
    pub fn to_text(&self) -> (res: String)
        ensures
            res@ == uuid_text(self.0),
    {
        format_uuid(self.0)
    }
}

impl EnableBankingSessionId {
    /// Reads a session UUID.
    pub fn parse(text: &str) -> (res: Result<EnableBankingSessionId, String>)
        ensures
            match uuid_parse(text@) {
                Ok(v) => res == Ok::<EnableBankingSessionId, String>(EnableBankingSessionId(v)),
                Err(e) => res matches Err(msg) && msg@ == invalid_uuid_message("session"@, e),
            },
    {
        match read_uuid("session", text) {
            Ok(v) => Ok(EnableBankingSessionId(v)),
            Err(e) => Err(e),
        }
    }

    /// The UUID's text.
    pub fn to_text(&self) -> (res: String)
        ensures
            res@ == uuid_text(self.0),
    {
        format_uuid(self.0)
    }
}

} // verus!
