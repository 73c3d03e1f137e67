//! The local database's rules that are not SQL: when a checkpoint counts as
//! failed, how a command's result and the checkpoint's combine, and the
//! statements that keep each kind of record's metadata.

use vstd::prelude::*;
use vstd::string::*;
use crate::ids::ResourceType;
use crate::text::{i64_text, signed_decimal};

verus! {

/// The text of a checkpoint that left frames of the write-ahead log behind.
pub open spec fn checkpoint_incomplete_message(busy: int, log_frames: int, checkpointed: int) -> Seq<char> {
    "SQLite WAL checkpoint incomplete (busy: "@ + signed_decimal(busy) + ", frames: "@ + signed_decimal(
        checkpointed,
    ) + "/"@ + signed_decimal(log_frames) + ")"@
}

/// Judges the reply of `PRAGMA wal_checkpoint(PASSIVE)`: the checkpoint
/// failed when the log exists (`log_frames` is not negative) and fewer of its
/// frames than it holds were copied.
pub fn checkpoint_outcome(busy: i32, log_frames: i32, checkpointed: i32) -> (res: Result<(), String>)
    ensures
        match res {
            Ok(()) => !(log_frames >= 0 && checkpointed < log_frames),
            Err(m) => log_frames >= 0 && checkpointed < log_frames && m@ == checkpoint_incomplete_message(
                busy as int,
                log_frames as int,
                checkpointed as int,
            ),
        },
{
    if log_frames >= 0 && checkpointed < log_frames {
        let b = i64_text(busy as i64);
        let c = i64_text(checkpointed as i64);
        let l = i64_text(log_frames as i64);
        let mut s = "SQLite WAL checkpoint incomplete (busy: ".to_owned();
        s.append(b.as_str());
        s.append(", frames: ");
        s.append(c.as_str());
        s.append("/");
        s.append(l.as_str());
        s.append(")");
        Err(s)
    } else {
        Ok(())
    }
}

/// The result of a command that used the database, given the command's own
/// result and that of the checkpoint after it: the command's error comes
/// first, then the checkpoint's; the command's value when both succeeded.
pub fn command_outcome<T, E>(result: Result<T, E>, checkpoint: Result<(), E>) -> (res: Result<T, E>)
    ensures
        res == (match result {
            Err(e) => Err(e),
            Ok(v) => match checkpoint {
                Ok(()) => Ok(v),
                Err(c) => Err(c),
            },
        }),
{
    match result {
        Err(e) => Err(e),
        Ok(v) => match checkpoint {
            Ok(()) => Ok(v),
            Err(c) => Err(c),
        },
    }
}

/// The statement that stores the metadata of a record of kind `kind`, with
/// the record's row number, the metadata and the time as its parameters; it
/// replaces metadata the record already has.
pub open spec fn metadata_upsert_spec(kind: ResourceType) -> Seq<char> {
    match kind {
        ResourceType::Transaction =>
            "INSERT INTO transaction_metadata (transaction_id, user_metadata, inserted_at, updated_at)\n             VALUES (?1, ?2, ?3, ?4)\n             ON CONFLICT(transaction_id) DO UPDATE SET\n                 user_metadata = excluded.user_metadata,\n                 updated_at = excluded.updated_at"@,
        ResourceType::Account =>
            "INSERT INTO account_metadata (account_id, user_metadata, inserted_at, updated_at)\n             VALUES (?1, ?2, ?3, ?4)\n             ON CONFLICT(account_id) DO UPDATE SET\n                 user_metadata = excluded.user_metadata,\n                 updated_at = excluded.updated_at"@,
        ResourceType::Balance =>
            "INSERT INTO balance_metadata (balance_id, user_metadata, inserted_at, updated_at)\n             VALUES (?1, ?2, ?3, ?4)\n             ON CONFLICT(balance_id) DO UPDATE SET\n                 user_metadata = excluded.user_metadata,\n                 updated_at = excluded.updated_at"@,
    }
}

/// The statement that stores the metadata of a record of kind `kind`.
pub fn metadata_upsert_sql(kind: ResourceType) -> (res: &'static str)
    ensures
        res@ == metadata_upsert_spec(kind),
        res@ == "INSERT INTO "@ + metadata_table(kind) + " ("@ + metadata_key(kind)
            + ", user_metadata, inserted_at, updated_at)\n             VALUES (?1, ?2, ?3, ?4)\n             ON CONFLICT("@ + metadata_key(kind) + ") DO UPDATE SET\n                 user_metadata = excluded.user_metadata,\n                 updated_at = excluded.updated_at"@,
{
    proof {
        lemma_metadata_statements_target_the_record(kind);
    }
    match kind {
        ResourceType::Transaction =>
            "INSERT INTO transaction_metadata (transaction_id, user_metadata, inserted_at, updated_at)\n             VALUES (?1, ?2, ?3, ?4)\n             ON CONFLICT(transaction_id) DO UPDATE SET\n                 user_metadata = excluded.user_metadata,\n                 updated_at = excluded.updated_at",
        ResourceType::Account =>
            "INSERT INTO account_metadata (account_id, user_metadata, inserted_at, updated_at)\n             VALUES (?1, ?2, ?3, ?4)\n             ON CONFLICT(account_id) DO UPDATE SET\n                 user_metadata = excluded.user_metadata,\n                 updated_at = excluded.updated_at",
        ResourceType::Balance =>
            "INSERT INTO balance_metadata (balance_id, user_metadata, inserted_at, updated_at)\n             VALUES (?1, ?2, ?3, ?4)\n             ON CONFLICT(balance_id) DO UPDATE SET\n                 user_metadata = excluded.user_metadata,\n                 updated_at = excluded.updated_at",
    }
}

/// The query for the metadata of a record of kind `kind`, by row number.
pub open spec fn metadata_select_spec(kind: ResourceType) -> Seq<char> {
    match kind {
        ResourceType::Transaction => "SELECT user_metadata FROM transaction_metadata WHERE transaction_id = ?1"@,
        ResourceType::Account => "SELECT user_metadata FROM account_metadata WHERE account_id = ?1"@,
        ResourceType::Balance => "SELECT user_metadata FROM balance_metadata WHERE balance_id = ?1"@,
    }
}

/// The query for the metadata of a record of kind `kind`.
pub fn metadata_select_sql(kind: ResourceType) -> (res: &'static str)
    ensures
        res@ == metadata_select_spec(kind),
        res@ == "SELECT user_metadata FROM "@ + metadata_table(kind) + " WHERE "@ + metadata_key(kind) + " = ?1"@,
{
    proof {
        lemma_metadata_statements_target_the_record(kind);
    }
    match kind {
        ResourceType::Transaction => "SELECT user_metadata FROM transaction_metadata WHERE transaction_id = ?1",
        ResourceType::Account => "SELECT user_metadata FROM account_metadata WHERE account_id = ?1",
        ResourceType::Balance => "SELECT user_metadata FROM balance_metadata WHERE balance_id = ?1",
    }
}

/// The statement that deletes the metadata of a record of kind `kind`.
pub open spec fn metadata_delete_spec(kind: ResourceType) -> Seq<char> {
    match kind {
        ResourceType::Transaction => "DELETE FROM transaction_metadata WHERE transaction_id = ?1"@,
        ResourceType::Account => "DELETE FROM account_metadata WHERE account_id = ?1"@,
        ResourceType::Balance => "DELETE FROM balance_metadata WHERE balance_id = ?1"@,
    }
}

/// The statement that deletes the metadata of a record of kind `kind`.
pub fn metadata_delete_sql(kind: ResourceType) -> (res: &'static str)
    ensures
        res@ == metadata_delete_spec(kind),
        res@ == "DELETE FROM "@ + metadata_table(kind) + " WHERE "@ + metadata_key(kind) + " = ?1"@,
{
    proof {
        lemma_metadata_statements_target_the_record(kind);
    }
    match kind {
        ResourceType::Transaction => "DELETE FROM transaction_metadata WHERE transaction_id = ?1",
        ResourceType::Account => "DELETE FROM account_metadata WHERE account_id = ?1",
        ResourceType::Balance => "DELETE FROM balance_metadata WHERE balance_id = ?1",
    }
}

/// The name of a kind of record, after which its metadata table and the
/// column of its row number there are named.
pub open spec fn record_name(kind: ResourceType) -> Seq<char> {
    match kind {
        ResourceType::Account => "account"@,
        ResourceType::Balance => "balance"@,
        ResourceType::Transaction => "transaction"@,
    }
}

/// The table that holds the metadata of the records of kind `kind`.
pub open spec fn metadata_table(kind: ResourceType) -> Seq<char> {
    record_name(kind) + "_metadata"@
}

/// The column of `metadata_table(kind)` that holds the record's row number.
pub open spec fn metadata_key(kind: ResourceType) -> Seq<char> {
    record_name(kind) + "_id"@
}

proof fn lemma_account_statements()
    ensures
        metadata_select_spec(ResourceType::Account) == "SELECT user_metadata FROM "@ + metadata_table(
            ResourceType::Account,
        ) + " WHERE "@ + metadata_key(ResourceType::Account) + " = ?1"@,
        metadata_delete_spec(ResourceType::Account) == "DELETE FROM "@ + metadata_table(ResourceType::Account) + " WHERE "@
            + metadata_key(ResourceType::Account) + " = ?1"@,
        metadata_upsert_spec(ResourceType::Account) == "INSERT INTO "@ + metadata_table(ResourceType::Account) + " ("@
            + metadata_key(ResourceType::Account) + ", user_metadata, inserted_at, updated_at)\n             VALUES (?1, ?2, ?3, ?4)\n             ON CONFLICT("@
            + metadata_key(ResourceType::Account) + ") DO UPDATE SET\n                 user_metadata = excluded.user_metadata,\n                 updated_at = excluded.updated_at"@,
{
    reveal_strlit("account");
    reveal_strlit("_metadata");
    reveal_strlit("_id");
    reveal_strlit("SELECT user_metadata FROM ");
    reveal_strlit(" WHERE ");
    reveal_strlit(" = ?1");
    reveal_strlit("DELETE FROM ");
    reveal_strlit("INSERT INTO ");
    reveal_strlit(" (");
    reveal_strlit(", user_metadata, inserted_at, updated_at)\n             VALUES (?1, ?2, ?3, ?4)\n             ON CONFLICT(");
    reveal_strlit(") DO UPDATE SET\n                 user_metadata = excluded.user_metadata,\n                 updated_at = excluded.updated_at");
    reveal_strlit("SELECT user_metadata FROM account_metadata WHERE account_id = ?1");
    reveal_strlit("DELETE FROM account_metadata WHERE account_id = ?1");
    reveal_strlit(
        "INSERT INTO account_metadata (account_id, user_metadata, inserted_at, updated_at)\n             VALUES (?1, ?2, ?3, ?4)\n             ON CONFLICT(account_id) DO UPDATE SET\n                 user_metadata = excluded.user_metadata,\n                 updated_at = excluded.updated_at",
    );
    let t = metadata_table(ResourceType::Account);
    let k = metadata_key(ResourceType::Account);
    assert(metadata_select_spec(ResourceType::Account) =~= "SELECT user_metadata FROM "@ + t + " WHERE "@ + k + " = ?1"@);
    assert(metadata_delete_spec(ResourceType::Account) =~= "DELETE FROM "@ + t + " WHERE "@ + k + " = ?1"@);
    assert(metadata_upsert_spec(ResourceType::Account) =~= "INSERT INTO "@ + t + " ("@ + k
        + ", user_metadata, inserted_at, updated_at)\n             VALUES (?1, ?2, ?3, ?4)\n             ON CONFLICT("@ + k + ") DO UPDATE SET\n                 user_metadata = excluded.user_metadata,\n                 updated_at = excluded.updated_at"@);
}

proof fn lemma_balance_statements()
    ensures
        metadata_select_spec(ResourceType::Balance) == "SELECT user_metadata FROM "@ + metadata_table(
            ResourceType::Balance,
        ) + " WHERE "@ + metadata_key(ResourceType::Balance) + " = ?1"@,
        metadata_delete_spec(ResourceType::Balance) == "DELETE FROM "@ + metadata_table(ResourceType::Balance) + " WHERE "@
            + metadata_key(ResourceType::Balance) + " = ?1"@,
        metadata_upsert_spec(ResourceType::Balance) == "INSERT INTO "@ + metadata_table(ResourceType::Balance) + " ("@
            + metadata_key(ResourceType::Balance) + ", user_metadata, inserted_at, updated_at)\n             VALUES (?1, ?2, ?3, ?4)\n             ON CONFLICT("@
            + metadata_key(ResourceType::Balance) + ") DO UPDATE SET\n                 user_metadata = excluded.user_metadata,\n                 updated_at = excluded.updated_at"@,
{
    reveal_strlit("balance");
    reveal_strlit("_metadata");
    reveal_strlit("_id");
    reveal_strlit("SELECT user_metadata FROM ");
    reveal_strlit(" WHERE ");
    reveal_strlit(" = ?1");
    reveal_strlit("DELETE FROM ");
    reveal_strlit("INSERT INTO ");
    reveal_strlit(" (");
    reveal_strlit(", user_metadata, inserted_at, updated_at)\n             VALUES (?1, ?2, ?3, ?4)\n             ON CONFLICT(");
    reveal_strlit(") DO UPDATE SET\n                 user_metadata = excluded.user_metadata,\n                 updated_at = excluded.updated_at");
    reveal_strlit("SELECT user_metadata FROM balance_metadata WHERE balance_id = ?1");
    reveal_strlit("DELETE FROM balance_metadata WHERE balance_id = ?1");
    reveal_strlit(
        "INSERT INTO balance_metadata (balance_id, user_metadata, inserted_at, updated_at)\n             VALUES (?1, ?2, ?3, ?4)\n             ON CONFLICT(balance_id) DO UPDATE SET\n                 user_metadata = excluded.user_metadata,\n                 updated_at = excluded.updated_at",
    );
    let t = metadata_table(ResourceType::Balance);
    let k = metadata_key(ResourceType::Balance);
    assert(metadata_select_spec(ResourceType::Balance) =~= "SELECT user_metadata FROM "@ + t + " WHERE "@ + k + " = ?1"@);
    assert(metadata_delete_spec(ResourceType::Balance) =~= "DELETE FROM "@ + t + " WHERE "@ + k + " = ?1"@);
    assert(metadata_upsert_spec(ResourceType::Balance) =~= "INSERT INTO "@ + t + " ("@ + k
        + ", user_metadata, inserted_at, updated_at)\n             VALUES (?1, ?2, ?3, ?4)\n             ON CONFLICT("@ + k + ") DO UPDATE SET\n                 user_metadata = excluded.user_metadata,\n                 updated_at = excluded.updated_at"@);
}

proof fn lemma_transaction_statements()
    ensures
        metadata_select_spec(ResourceType::Transaction) == "SELECT user_metadata FROM "@ + metadata_table(
            ResourceType::Transaction,
        ) + " WHERE "@ + metadata_key(ResourceType::Transaction) + " = ?1"@,
        metadata_delete_spec(ResourceType::Transaction) == "DELETE FROM "@ + metadata_table(ResourceType::Transaction) + " WHERE "@
            + metadata_key(ResourceType::Transaction) + " = ?1"@,
        metadata_upsert_spec(ResourceType::Transaction) == "INSERT INTO "@ + metadata_table(ResourceType::Transaction) + " ("@
            + metadata_key(ResourceType::Transaction) + ", user_metadata, inserted_at, updated_at)\n             VALUES (?1, ?2, ?3, ?4)\n             ON CONFLICT("@
            + metadata_key(ResourceType::Transaction) + ") DO UPDATE SET\n                 user_metadata = excluded.user_metadata,\n                 updated_at = excluded.updated_at"@,
{
    reveal_strlit("transaction");
    reveal_strlit("_metadata");
    reveal_strlit("_id");
    reveal_strlit("SELECT user_metadata FROM ");
    reveal_strlit(" WHERE ");
    reveal_strlit(" = ?1");
    reveal_strlit("DELETE FROM ");
    reveal_strlit("INSERT INTO ");
    reveal_strlit(" (");
    reveal_strlit(", user_metadata, inserted_at, updated_at)\n             VALUES (?1, ?2, ?3, ?4)\n             ON CONFLICT(");
    reveal_strlit(") DO UPDATE SET\n                 user_metadata = excluded.user_metadata,\n                 updated_at = excluded.updated_at");
    reveal_strlit("SELECT user_metadata FROM transaction_metadata WHERE transaction_id = ?1");
    reveal_strlit("DELETE FROM transaction_metadata WHERE transaction_id = ?1");
    reveal_strlit(
        "INSERT INTO transaction_metadata (transaction_id, user_metadata, inserted_at, updated_at)\n             VALUES (?1, ?2, ?3, ?4)\n             ON CONFLICT(transaction_id) DO UPDATE SET\n                 user_metadata = excluded.user_metadata,\n                 updated_at = excluded.updated_at",
    );
    let t = metadata_table(ResourceType::Transaction);
    let k = metadata_key(ResourceType::Transaction);
    assert(metadata_select_spec(ResourceType::Transaction) =~= "SELECT user_metadata FROM "@ + t + " WHERE "@ + k + " = ?1"@);
    assert(metadata_delete_spec(ResourceType::Transaction) =~= "DELETE FROM "@ + t + " WHERE "@ + k + " = ?1"@);
    assert(metadata_upsert_spec(ResourceType::Transaction) =~= "INSERT INTO "@ + t + " ("@ + k
        + ", user_metadata, inserted_at, updated_at)\n             VALUES (?1, ?2, ?3, ?4)\n             ON CONFLICT("@ + k + ") DO UPDATE SET\n                 user_metadata = excluded.user_metadata,\n                 updated_at = excluded.updated_at"@);
}

/// The metadata statements of every kind of record work on that kind's own
/// table and match rows by that kind's row-number column, equal to the bound
/// row number `?1`: the query reads the `user_metadata` of that one row, the
/// deletion removes that one row, and the upsert inserts the row or, where
/// the record already has metadata, replaces its `user_metadata` and
/// `updated_at` with the new values.
pub proof fn lemma_metadata_statements_target_the_record(kind: ResourceType)
    ensures
        metadata_select_spec(kind) == "SELECT user_metadata FROM "@ + metadata_table(kind) + " WHERE "@
            + metadata_key(kind) + " = ?1"@,
        metadata_delete_spec(kind) == "DELETE FROM "@ + metadata_table(kind) + " WHERE "@ + metadata_key(kind)
            + " = ?1"@,
        metadata_upsert_spec(kind) == "INSERT INTO "@ + metadata_table(kind) + " ("@ + metadata_key(kind)
            + ", user_metadata, inserted_at, updated_at)\n             VALUES (?1, ?2, ?3, ?4)\n             ON CONFLICT("@ + metadata_key(kind)
            + ") DO UPDATE SET\n                 user_metadata = excluded.user_metadata,\n                 updated_at = excluded.updated_at"@,
{
    match kind {
        ResourceType::Account => lemma_account_statements(),
        ResourceType::Balance => lemma_balance_statements(),
        ResourceType::Transaction => lemma_transaction_statements(),
    }
}

} // verus!
