//! Record identifiers: the kinds of stored records, their short public ids
//! (a two-letter prefix, `_`, and a sqids encoding of the row number), and the
//! content hash that detects changed records.

use vstd::prelude::*;
use crate::text::{concat2, find_char, str_eq};

verus! {

/// What the sqids generator built from `alphabet` and `min_length` (and its
/// default blocklist) returns for `numbers`; `None` where `encode` fails.
pub uninterp spec fn sqids_encoding(alphabet: Seq<char>, min_length: u8, numbers: Seq<u64>) -> Option<Seq<char>>;

/// What the sqids generator built from `alphabet` and `min_length` decodes `id` to.
pub uninterp spec fn sqids_decoding(alphabet: Seq<char>, min_length: u8, id: Seq<char>) -> Seq<u64>;

/// The 64-bit XXH3 hash of `data`.
pub uninterp spec fn xxh3_64_of(data: Seq<u8>) -> u64;

/// Calls `sqids::SqidsBuilder::build` for `alphabet` and `min_length`, then
/// `sqids::Sqids::encode` on `numbers`. The contract claims that the result is
/// the named encoding, that it consists of characters of `alphabet`, and that
/// `Sqids::decode` gives `numbers` back from it, as the crate documents.
#[verifier::external_body]
fn sqids_encode(alphabet: &str, min_length: u8, numbers: &[u64]) -> (res: Option<String>)
    ensures
        match res {
            Some(s) => sqids_encoding(alphabet@, min_length, numbers@) == Some(s@),
            None => sqids_encoding(alphabet@, min_length, numbers@) is None,
        },
        res matches Some(s) ==> sqids_decoding(alphabet@, min_length, s@) == numbers@,
        res matches Some(s) ==> forall|i: int| 0 <= i < s@.len() ==> alphabet@.contains(#[trigger] s@[i]),
{
    let generator = sqids::Sqids::builder().alphabet(alphabet.chars().collect()).min_length(min_length).build().ok()?;
    generator.encode(numbers).ok()
}

/// Calls `sqids::SqidsBuilder::build` for `alphabet` and `min_length`, then
/// `sqids::Sqids::decode` on `id`; the contract claims only that the result is
/// the named decoding.
#[verifier::external_body]
fn sqids_decode(alphabet: &str, min_length: u8, id: &str) -> (res: Vec<u64>)
    ensures
        res@ == sqids_decoding(alphabet@, min_length, id@),
{
    match sqids::Sqids::builder().alphabet(alphabet.chars().collect()).min_length(min_length).build() {
        Ok(generator) => generator.decode(id),
        Err(_) => Vec::new(),
    }
}

/// Calls `xxhash_rust::xxh3::xxh3_64`; the contract claims that the result is
/// the named hash of the bytes.
#[verifier::external_body]
fn xxh3_64(data: &[u8]) -> (res: u64)
    ensures
        res == xxh3_64_of(data@),
{
    xxhash_rust::xxh3::xxh3_64(data)
}

/// The alphabet of public record ids.
pub open spec fn id_alphabet() -> Seq<char> {
    "k3G7QAe51FCsPW92uEOyq4Bg6Sp8YzVTmnU0liwDdHXLajZrfxNhobJIRcMvKt"@
}

/// The minimum length of the encoded part of a public record id.
pub open spec fn id_min_length() -> u8 {
    6
}

fn id_alphabet_str() -> (s: &'static str)
    ensures
        s@ == id_alphabet(),
{
    "k3G7QAe51FCsPW92uEOyq4Bg6Sp8YzVTmnU0liwDdHXLajZrfxNhobJIRcMvKt"
}

proof fn lemma_alphabet_has_no_underscore()
    ensures
        !id_alphabet().contains('_'),
{
    reveal_strlit("k3G7QAe51FCsPW92uEOyq4Bg6Sp8YzVTmnU0liwDdHXLajZrfxNhobJIRcMvKt");
    assert forall|i: int| 0 <= i < id_alphabet().len() implies id_alphabet()[i] != '_' by {
        reveal_strlit("k3G7QAe51FCsPW92uEOyq4Bg6Sp8YzVTmnU0liwDdHXLajZrfxNhobJIRcMvKt");
    }
}

/// The kind of a stored record.
#[derive(Clone, Copy, Debug, PartialEq, Eq, Structural)]
pub enum ResourceType {
    Account,
    Balance,
    Transaction,
}

impl ResourceType {
    /// The record kind's name, after which its tables and id columns are named.
    pub fn name(&self) -> (res: &'static str)
        ensures
            res@ == match self {
                ResourceType::Account => "account"@,
                ResourceType::Balance => "balance"@,
                ResourceType::Transaction => "transaction"@,
            },
    {
        match self {
            ResourceType::Account => "account",
            ResourceType::Balance => "balance",
            ResourceType::Transaction => "transaction",
        }
    }

    /// The two-letter prefix of the public ids of this kind of record.
    pub fn id_prefix(&self) -> (res: &'static str)
        ensures
            res@ == self.prefix_spec(),
    {
        match self {
            ResourceType::Account => "ac",
            ResourceType::Balance => "ba",
            ResourceType::Transaction => "tx",
        }
    }

    pub open spec fn prefix_spec(&self) -> Seq<char> {
        match self {
            ResourceType::Account => "ac"@,
            ResourceType::Balance => "ba"@,
            ResourceType::Transaction => "tx"@,
        }
    }

    /// The key under which the metadata schema of this kind of record is
    /// stored: the plural of its name.
    pub fn schema_target(&self) -> (res: &'static str)
        ensures
            res@ == self.schema_target_spec(),
    {
        match self {
            ResourceType::Account => "accounts",
            ResourceType::Balance => "balances",
            ResourceType::Transaction => "transactions",
        }
    }

    pub open spec fn schema_target_spec(&self) -> Seq<char> {
        match self {
            ResourceType::Account => "accounts"@,
            ResourceType::Balance => "balances"@,
            ResourceType::Transaction => "transactions"@,
        }
    }

    /// The name of the id type of this kind of record.
    pub fn id_type_name(&self) -> (res: &'static str)
        ensures
            res@ == self.type_name_spec(),
    {
        match self {
            ResourceType::Account => "AccountId",
            ResourceType::Balance => "BalanceId",
            ResourceType::Transaction => "TransactionId",
        }
    }

    pub open spec fn type_name_spec(&self) -> Seq<char> {
        match self {
            ResourceType::Account => "AccountId"@,
            ResourceType::Balance => "BalanceId"@,
            ResourceType::Transaction => "TransactionId"@,
        }
    }
}

proof fn lemma_prefix_has_no_underscore(kind: ResourceType)
    ensures
        !kind.prefix_spec().contains('_'),
        kind.prefix_spec().len() == 2,
{
    reveal_strlit("ac");
    reveal_strlit("ba");
    reveal_strlit("tx");
    assert(kind.prefix_spec()[0] != '_');
    assert(kind.prefix_spec()[1] != '_');
}

/// Why a public record id was refused.
#[derive(Clone, Copy, Debug, PartialEq, Eq, Structural)]
pub enum IdError {
    /// No `_` separates prefix and payload.
    InvalidFormat,
    /// The prefix is not the one of the expected record kind.
    InvalidPrefix,
    /// The payload does not decode to exactly one number.
    NotExactlyOneNumber,
    /// The number exceeds the SQLite integer range.
    ExceedsRange,
    /// The number is not positive.
    NotPositive,
    /// The payload is not the canonical encoding of its number.
    NonCanonical,
}

impl IdError {
    /// The error's text.
    pub fn message(&self) -> (res: &'static str)
        ensures
            res@ == self.message_spec(),
    {
        match self {
            IdError::InvalidFormat => "Invalid ID format",
            IdError::InvalidPrefix => "Invalid ID prefix",
            IdError::NotExactlyOneNumber => "ID must encode exactly one number",
            IdError::ExceedsRange => "ID exceeds SQLite integer range",
            IdError::NotPositive => "ID must be positive",
            IdError::NonCanonical => "Non-canonical ID encoding",
        }
    }

    pub open spec fn message_spec(&self) -> Seq<char> {
        match self {
            IdError::InvalidFormat => "Invalid ID format"@,
            IdError::InvalidPrefix => "Invalid ID prefix"@,
            IdError::NotExactlyOneNumber => "ID must encode exactly one number"@,
            IdError::ExceedsRange => "ID exceeds SQLite integer range"@,
            IdError::NotPositive => "ID must be positive"@,
            IdError::NonCanonical => "Non-canonical ID encoding"@,
        }
    }
}

/// The row number that the public id `text` of a `kind` record denotes, or why
/// it is refused.
pub open spec fn parse_id_spec(kind: ResourceType, text: Seq<char>) -> Result<i64, IdError> {
    match text.index_of_first('_') {
        None => Err(IdError::InvalidFormat),
        Some(k) => {
            let head = text.subrange(0, k);
            let payload = text.subrange(k + 1, text.len() as int);
            let numbers = sqids_decoding(id_alphabet(), id_min_length(), payload);
            if head != kind.prefix_spec() {
                Err(IdError::InvalidPrefix)
            } else if numbers.len() != 1 {
                Err(IdError::NotExactlyOneNumber)
            } else if numbers[0] > i64::MAX {
                Err(IdError::ExceedsRange)
            } else if numbers[0] == 0 {
                Err(IdError::NotPositive)
            } else if sqids_encoding(id_alphabet(), id_min_length(), seq![numbers[0]]) != Some(payload) {
                Err(IdError::NonCanonical)
            } else {
                Ok(numbers[0] as i64)
            }
        },
    }
}

/// The public id of the `kind` record with row number `raw`, where sqids
/// encodes it.
pub open spec fn encode_id_spec(kind: ResourceType, raw: i64) -> Option<Seq<char>> {
    match sqids_encoding(id_alphabet(), id_min_length(), seq![raw as u64]) {
        Some(s) => Some(kind.prefix_spec() + "_"@ + s),
        None => None,
    }
}

/// Parses the public id `text` of a `kind` record into its row number.
pub fn parse_id(kind: ResourceType, text: &str) -> (res: Result<i64, IdError>)
    ensures
        res == parse_id_spec(kind, text@),
{
    proof {
        text@.index_of_first_ensures('_');
    }
    let k = match find_char(text, '_') {
        None => return Err(IdError::InvalidFormat),
        Some(k) => k,
    };
    let n = text.unicode_len();
    let head = text.substring_char(0, k);
    let payload = text.substring_char(k + 1, n);
    let numbers = sqids_decode(id_alphabet_str(), 6, payload);
    if !str_eq(head, kind.id_prefix()) {
        return Err(IdError::InvalidPrefix);
    }
    if numbers.len() != 1 {
        return Err(IdError::NotExactlyOneNumber);
    }
    let number = numbers[0];
    if number > 9223372036854775807u64 {
        return Err(IdError::ExceedsRange);
    }
    if number == 0 {
        return Err(IdError::NotPositive);
    }
    let single = vec![number];
    let again = sqids_encode(id_alphabet_str(), 6, single.as_slice());
    assert(single@ =~= seq![number]);
    match again {
        Some(s) => {
            if !str_eq(s.as_str(), payload) {
                return Err(IdError::NonCanonical);
            }
        },
        None => {
            return Err(IdError::NonCanonical);
        },
    }
    Ok(number as i64)
}

/// The public id of the `kind` record with row number `raw`, or `None` where
/// sqids cannot encode it. What this gives back, `parse_id` reads as `raw`.
pub fn encode_id(kind: ResourceType, raw: i64) -> (res: Option<String>)
    requires
        raw > 0,
    ensures
        match res {
            Some(t) => encode_id_spec(kind, raw) == Some(t@),
            None => encode_id_spec(kind, raw) is None,
        },
        res matches Some(t) ==> parse_id_spec(kind, t@) == Ok::<i64, IdError>(raw),
{
    let numbers = vec![raw as u64];
    assert(numbers@ =~= seq![raw as u64]);
    match sqids_encode(id_alphabet_str(), 6, numbers.as_slice()) {
        None => None,
        Some(s) => {
            let with_sep = concat2(kind.id_prefix(), "_");
            let t = concat2(with_sep.as_str(), s.as_str());
            proof {
                reveal_strlit("_");
                assert("_"@ =~= seq!['_']);
                lemma_encode_then_parse(kind, raw, s@, t@);
            }
            Some(t)
        },
    }
}

proof fn lemma_encode_then_parse(kind: ResourceType, raw: i64, s: Seq<char>, t: Seq<char>)
    requires
        raw > 0,
        "_"@ == seq!['_'],
        t == kind.prefix_spec() + "_"@ + s,
        sqids_encoding(id_alphabet(), id_min_length(), seq![raw as u64]) == Some(s),
        sqids_decoding(id_alphabet(), id_min_length(), s) == seq![raw as u64],
        forall|i: int| 0 <= i < s.len() ==> id_alphabet().contains(#[trigger] s[i]),
    ensures
        parse_id_spec(kind, t) == Ok::<i64, IdError>(raw),
{
    lemma_prefix_has_no_underscore(kind);
    lemma_alphabet_has_no_underscore();
    let p = kind.prefix_spec();
    t.index_of_first_ensures('_');
    assert(t[2] == '_');
    assert(t.contains('_'));
    let k = t.index_of_first('_').unwrap();
    if k < 2 {
        assert(t[k] == p[k]);
        assert(p.contains('_'));
    }
    if k > 2 {
        assert(t[k] == s[k - 3]);
        assert(id_alphabet().contains('_'));
    }
    assert(k == 2);
    assert(t.subrange(0, 2) =~= p);
    assert(t.subrange(3, t.len() as int) =~= s);
}

/// Whatever `parse_id` accepts is exactly what `encode_id` gives for the row
/// number it reads: accepted public ids are canonical.
pub proof fn lemma_parse_then_encode(kind: ResourceType, text: Seq<char>)
    requires
        parse_id_spec(kind, text) is Ok,
    ensures
        encode_id_spec(kind, parse_id_spec(kind, text)->Ok_0) == Some(text),
{
    text.index_of_first_ensures('_');
    let k = text.index_of_first('_').unwrap();
    let payload = text.subrange(k + 1, text.len() as int);
    let numbers = sqids_decoding(id_alphabet(), id_min_length(), payload);
    let raw = numbers[0] as i64;
    assert(raw as u64 == numbers[0]);
    reveal_strlit("_");
    assert(text =~= text.subrange(0, k) + "_"@ + payload);
}


/// Row number of a stored account; its public id reads `ac_...`.
#[derive(Clone, Copy, Debug, PartialEq, Eq, Structural)]
pub struct AccountId(i64);

impl View for AccountId {
    type V = i64;

    closed spec fn view(&self) -> i64 {
        self.0
    }
}

impl AccountId {
    #[verifier::type_invariant]
    spec fn positive(self) -> bool {
        self.0 > 0
    }

    /// The id of row `value`; row numbers must be positive.
    pub fn from_raw(value: i64) -> (res: Result<AccountId, IdError>)
        ensures
            value > 0 ==> (res matches Ok(id) && id@ == value),
            value <= 0 ==> res == Err::<AccountId, IdError>(IdError::NotPositive),
    {
        if value <= 0 {
            return Err(IdError::NotPositive);
        }
        Ok(AccountId(value))
    }

    /// The row number.
    pub fn raw(&self) -> (res: i64)
        ensures
            res == self@,
            res > 0,
    {
        proof {
            use_type_invariant(self);
        }
        self.0
    }

    /// Reads a public id such as `ac_...`.
    pub fn parse(text: &str) -> (res: Result<AccountId, IdError>)
        ensures
            match res {
                Ok(id) => parse_id_spec(ResourceType::Account, text@) == Ok::<i64, IdError>(id@),
                Err(e) => parse_id_spec(ResourceType::Account, text@) == Err::<i64, IdError>(e),
            },
    {
        match parse_id(ResourceType::Account, text) {
            Ok(raw) => Ok(AccountId(raw)),
            Err(e) => Err(e),
        }
    }

    /// Reads a public id, describing a refusal in words.
    pub fn from_str(text: &str) -> (res: Result<AccountId, String>)
        ensures
            match res {
                Ok(id) => parse_id_spec(ResourceType::Account, text@) == Ok::<i64, IdError>(id@),
                Err(msg) => parse_id_spec(ResourceType::Account, text@) is Err
                    && msg@ == parse_failure_message(ResourceType::Account, parse_id_spec(ResourceType::Account, text@)->Err_0),
            },
    {
        match Self::parse(text) {
            Ok(id) => Ok(id),
            Err(e) => Err(parse_failure(ResourceType::Account, e)),
        }
    }

    /// The public id, or `None` where sqids cannot encode the row number.
    /// `parse` reads what this gives back as the same id.
    pub fn encode(&self) -> (res: Option<String>)
        ensures
            match res {
                Some(t) => encode_id_spec(ResourceType::Account, self@) == Some(t@),
                None => encode_id_spec(ResourceType::Account, self@) is None,
            },
            res matches Some(t) ==> parse_id_spec(ResourceType::Account, t@) == Ok::<i64, IdError>(self@),
    {
        proof {
            use_type_invariant(self);
        }
        encode_id(ResourceType::Account, self.0)
    }
}

/// Row number of a stored balance; its public id reads `ba_...`.
#[derive(Clone, Copy, Debug, PartialEq, Eq, Structural)]
pub struct BalanceId(i64);

impl View for BalanceId {
    type V = i64;

    closed spec fn view(&self) -> i64 {
        self.0
    }
}

impl BalanceId {
    #[verifier::type_invariant]
    spec fn positive(self) -> bool {
        self.0 > 0
    }

    /// The id of row `value`; row numbers must be positive.
    pub fn from_raw(value: i64) -> (res: Result<BalanceId, IdError>)
        ensures
            value > 0 ==> (res matches Ok(id) && id@ == value),
            value <= 0 ==> res == Err::<BalanceId, IdError>(IdError::NotPositive),
    {
        if value <= 0 {
            return Err(IdError::NotPositive);
        }
        Ok(BalanceId(value))
    }

    /// The row number.
    pub fn raw(&self) -> (res: i64)
        ensures
            res == self@,
            res > 0,
    {
        proof {
            use_type_invariant(self);
        }
        self.0
    }

    /// Reads a public id such as `ba_...`.
    pub fn parse(text: &str) -> (res: Result<BalanceId, IdError>)
        ensures
            match res {
                Ok(id) => parse_id_spec(ResourceType::Balance, text@) == Ok::<i64, IdError>(id@),
                Err(e) => parse_id_spec(ResourceType::Balance, text@) == Err::<i64, IdError>(e),
            },
    {
        match parse_id(ResourceType::Balance, text) {
            Ok(raw) => Ok(BalanceId(raw)),
            Err(e) => Err(e),
        }
    }

    /// Reads a public id, describing a refusal in words.
    pub fn from_str(text: &str) -> (res: Result<BalanceId, String>)
        ensures
            match res {
                Ok(id) => parse_id_spec(ResourceType::Balance, text@) == Ok::<i64, IdError>(id@),
                Err(msg) => parse_id_spec(ResourceType::Balance, text@) is Err
                    && msg@ == parse_failure_message(ResourceType::Balance, parse_id_spec(ResourceType::Balance, text@)->Err_0),
            },
    {
        match Self::parse(text) {
            Ok(id) => Ok(id),
            Err(e) => Err(parse_failure(ResourceType::Balance, e)),
        }
    }

    /// The public id, or `None` where sqids cannot encode the row number.
    /// `parse` reads what this gives back as the same id.
    pub fn encode(&self) -> (res: Option<String>)
        ensures
            match res {
                Some(t) => encode_id_spec(ResourceType::Balance, self@) == Some(t@),
                None => encode_id_spec(ResourceType::Balance, self@) is None,
            },
            res matches Some(t) ==> parse_id_spec(ResourceType::Balance, t@) == Ok::<i64, IdError>(self@),
    {
        proof {
            use_type_invariant(self);
        }
        encode_id(ResourceType::Balance, self.0)
    }
}

/// Row number of a stored transaction; its public id reads `tx_...`.
#[derive(Clone, Copy, Debug, PartialEq, Eq, Structural)]
pub struct TransactionId(i64);

impl View for TransactionId {
    type V = i64;

    closed spec fn view(&self) -> i64 {
        self.0
    }
}

impl TransactionId {
    #[verifier::type_invariant]
    spec fn positive(self) -> bool {
        self.0 > 0
    }

    /// The id of row `value`; row numbers must be positive.
    pub fn from_raw(value: i64) -> (res: Result<TransactionId, IdError>)
        ensures
            value > 0 ==> (res matches Ok(id) && id@ == value),
            value <= 0 ==> res == Err::<TransactionId, IdError>(IdError::NotPositive),
    {
        if value <= 0 {
            return Err(IdError::NotPositive);
        }
        Ok(TransactionId(value))
    }

    /// The row number.
    pub fn raw(&self) -> (res: i64)
        ensures
            res == self@,
            res > 0,
    {
        proof {
            use_type_invariant(self);
        }
        self.0
    }

    /// Reads a public id such as `tx_...`.
    pub fn parse(text: &str) -> (res: Result<TransactionId, IdError>)
        ensures
            match res {
                Ok(id) => parse_id_spec(ResourceType::Transaction, text@) == Ok::<i64, IdError>(id@),
                Err(e) => parse_id_spec(ResourceType::Transaction, text@) == Err::<i64, IdError>(e),
            },
    {
        match parse_id(ResourceType::Transaction, text) {
            Ok(raw) => Ok(TransactionId(raw)),
            Err(e) => Err(e),
        }
    }

    /// Reads a public id, describing a refusal in words.
    pub fn from_str(text: &str) -> (res: Result<TransactionId, String>)
        ensures
            match res {
                Ok(id) => parse_id_spec(ResourceType::Transaction, text@) == Ok::<i64, IdError>(id@),
                Err(msg) => parse_id_spec(ResourceType::Transaction, text@) is Err
                    && msg@ == parse_failure_message(ResourceType::Transaction, parse_id_spec(ResourceType::Transaction, text@)->Err_0),
            },
    {
        match Self::parse(text) {
            Ok(id) => Ok(id),
            Err(e) => Err(parse_failure(ResourceType::Transaction, e)),
        }
    }

    /// The public id, or `None` where sqids cannot encode the row number.
    /// `parse` reads what this gives back as the same id.
    pub fn encode(&self) -> (res: Option<String>)
        ensures
            match res {
                Some(t) => encode_id_spec(ResourceType::Transaction, self@) == Some(t@),
                None => encode_id_spec(ResourceType::Transaction, self@) is None,
            },
            res matches Some(t) ==> parse_id_spec(ResourceType::Transaction, t@) == Ok::<i64, IdError>(self@),
    {
        proof {
            use_type_invariant(self);
        }
        encode_id(ResourceType::Transaction, self.0)
    }
}

/// The text of a refused public id of a `kind` record.
pub open spec fn parse_failure_message(kind: ResourceType, e: IdError) -> Seq<char> {
    "Failed to parse "@ + kind.type_name_spec() + ": "@ + e.message_spec()
}

fn parse_failure(kind: ResourceType, e: IdError) -> (res: String)
    ensures
        res@ == parse_failure_message(kind, e),
{
    let a = concat2("Failed to parse ", kind.id_type_name());
    let b = concat2(a.as_str(), ": ");
    concat2(b.as_str(), e.message())
}

/// A stored record of any kind, by its id.
#[derive(Clone, Copy, Debug, PartialEq, Eq, Structural)]
pub enum Resource {
    Account(AccountId),
    Balance(BalanceId),
    Transaction(TransactionId),
}

impl View for Resource {
    type V = (ResourceType, i64);

    open spec fn view(&self) -> (ResourceType, i64) {
        match self {
            Resource::Account(id) => (ResourceType::Account, id@),
            Resource::Balance(id) => (ResourceType::Balance, id@),
            Resource::Transaction(id) => (ResourceType::Transaction, id@),
        }
    }
}

/// The text before the first `_` of `text`, or all of it.
pub open spec fn id_head(text: Seq<char>) -> Seq<char> {
    match text.index_of_first('_') {
        Some(k) => text.subrange(0, k),
        None => text,
    }
}

/// The record kind whose id prefix is `p`.
pub open spec fn kind_of_prefix(p: Seq<char>) -> Option<ResourceType> {
    if p == "ac"@ {
        Some(ResourceType::Account)
    } else if p == "ba"@ {
        Some(ResourceType::Balance)
    } else if p == "tx"@ {
        Some(ResourceType::Transaction)
    } else {
        None
    }
}

/// The text of an id whose prefix `p` names no record kind.
pub open spec fn unknown_prefix_message(p: Seq<char>) -> Seq<char> {
    "Unknown ID prefix '"@ + p + "'. Must start with ac_, ba_, or tx_."@
}

impl Resource {
    /// The record's kind.
    pub fn kind(&self) -> (res: ResourceType)
        ensures
            res == self@.0,
    {
        match self {
            Resource::Account(_) => ResourceType::Account,
            Resource::Balance(_) => ResourceType::Balance,
            Resource::Transaction(_) => ResourceType::Transaction,
        }
    }

    /// The record's row number.
    pub fn raw(&self) -> (res: i64)
        ensures
            res == self@.1,
            res > 0,
    {
        match self {
            Resource::Account(id) => id.raw(),
            Resource::Balance(id) => id.raw(),
            Resource::Transaction(id) => id.raw(),
        }
    }

    /// Reads the public id of a record of any kind; the prefix picks the kind.
    pub fn from_str(text: &str) -> (res: Result<Resource, String>)
        ensures
            match kind_of_prefix(id_head(text@)) {
                None => res matches Err(msg) && msg@ == unknown_prefix_message(id_head(text@)),
                Some(kind) => match parse_id_spec(kind, text@) {
                    Ok(raw) => res matches Ok(r) && r@ == (kind, raw),
                    Err(e) => res matches Err(msg) && msg@ == parse_failure_message(kind, e),
                },
            },
    {
        proof {
            text@.index_of_first_ensures('_');
        }
        let head = match find_char(text, '_') {
            Some(k) => text.substring_char(0, k),
            None => text,
        };
        if str_eq(head, "ac") {
            match AccountId::from_str(text) {
                Ok(id) => Ok(Resource::Account(id)),
                Err(msg) => Err(msg),
            }
        } else if str_eq(head, "ba") {
            match BalanceId::from_str(text) {
                Ok(id) => Ok(Resource::Balance(id)),
                Err(msg) => Err(msg),
            }
        } else if str_eq(head, "tx") {
            match TransactionId::from_str(text) {
                Ok(id) => Ok(Resource::Transaction(id)),
                Err(msg) => Err(msg),
            }
        } else {
            let a = concat2("Unknown ID prefix '", head);
            Err(concat2(a.as_str(), "'. Must start with ac_, ba_, or tx_."))
        }
    }
}

/// The 64-bit hash of a record's JSON text, kept to notice changed records.
#[derive(Clone, Copy, Debug, PartialEq, Eq, Hash, Structural)]
pub struct ContentHash(pub u64);

impl ContentHash {
    /// The XXH3 hash of `data`.
    pub fn new(data: &[u8]) -> (res: ContentHash)
        ensures
            res.0 == xxh3_64_of(data@),
    {
        ContentHash(xxh3_64(data))
    }
}

} // verus!
