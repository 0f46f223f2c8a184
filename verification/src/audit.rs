//! The audit log: what is written about operations, and where.
//!
//! There are two channels. Read-only operations go to the light one, signing
//! operations to the strong one, so that many reads cannot drown the evidence
//! of a signature.
use vstd::prelude::*;

use crate::json::{json_literal, quote};
use crate::path::{child, child_path};
use crate::text::{clone_opt, join, joined, opt_text, texts};

verus! {

/// An entry of the audit log.
#[derive(Debug)]
pub struct AuditEntry {
    pub timestamp: String,
    pub wallet_id: String,
    pub operation: String,
    pub chain_id: Option<String>,
    pub address: Option<String>,
    pub details: Option<String>,
    /// The name of the secret, for operations on secrets; the wallet is then
    /// named the same.
    pub secret_name: Option<String>,
}

/// The channels of the audit log.
#[derive(Clone, Copy, Debug, PartialEq, Eq, Structural)]
pub enum AuditChannel {
    /// Read-only operations.
    Light,
    /// Signing and broadcasting.
    Strong,
}

/// The file of a channel.
pub open spec fn channel_file(c: AuditChannel) -> Seq<char> {
    match c {
        AuditChannel::Light => "audit.jsonl"@,
        AuditChannel::Strong => "audit-strong.jsonl"@,
    }
}

impl AuditChannel {
    /// The file of the channel.
    pub fn file_name(self) -> (r: &'static str)
        ensures
            r@ == channel_file(self),
    {
        match self {
            AuditChannel::Light => "audit.jsonl",
            AuditChannel::Strong => "audit-strong.jsonl",
        }
    }
}

/// A member of a JSON object behind another one, if it is there.
pub open spec fn member_text(key: Seq<char>, o: Option<Seq<char>>) -> Seq<char> {
    match o {
        Some(s) => ",\""@ + key + "\":"@ + json_literal(s),
        None => Seq::empty(),
    }
}

/// An entry as JSON; what is absent is left out.
pub open spec fn entry_json(e: AuditEntry) -> Seq<char> {
    "{\"timestamp\":"@ + json_literal(e.timestamp@) + ",\"wallet_id\":"@ + json_literal(
        e.wallet_id@,
    ) + ",\"operation\":"@ + json_literal(e.operation@) + member_text(
        "chain_id"@,
        opt_text(e.chain_id),
    ) + member_text("address"@, opt_text(e.address)) + member_text(
        "details"@,
        opt_text(e.details),
    ) + member_text("secret_name"@, opt_text(e.secret_name)) + "}"@
}

fn show_member(key: &str, o: &Option<String>) -> (r: String)
    ensures
        r@ == member_text(key@, opt_text(*o)),
{
    match o {
        Some(s) => ",\"".to_owned().concat(key).concat("\":").concat(quote(s.as_str()).as_str()),
        None => String::new(),
    }
}

impl AuditEntry {
    /// The entry as JSON.
    pub fn to_json(&self) -> (r: String)
        ensures
            r@ == entry_json(*self),
    {
        "{\"timestamp\":".to_owned().concat(quote(self.timestamp.as_str()).as_str()).concat(
            ",\"wallet_id\":",
        ).concat(quote(self.wallet_id.as_str()).as_str()).concat(",\"operation\":").concat(
            quote(self.operation.as_str()).as_str(),
        ).concat(show_member("chain_id", &self.chain_id).as_str()).concat(
            show_member("address", &self.address).as_str(),
        ).concat(show_member("details", &self.details).as_str()).concat(
            show_member("secret_name", &self.secret_name).as_str(),
        ).concat("}")
    }
}

/// A line to append to a file of a directory.
#[derive(Debug)]
pub struct LogAppend {
    pub dir: String,
    pub path: String,
    pub line: String,
}

/// What `a` appends of `e` on channel `c`, below the vault.
pub open spec fn appends(a: LogAppend, e: AuditEntry, c: AuditChannel, vault: Seq<char>) -> bool {
    &&& a.dir@ == child_path(vault, "logs"@)
    &&& a.path@ == child_path(child_path(vault, "logs"@), channel_file(c))
    &&& a.line@ == entry_json(e) + "\n"@
}

/// What an entry appends on a channel.
pub fn log_audit_chan(entry: &AuditEntry, channel: AuditChannel, vault: &str) -> (r: LogAppend)
    ensures
        appends(r, *entry, channel, vault@),
{
    let dir = child(vault, "logs");
    let path = child(dir.as_str(), channel.file_name());
    LogAppend { dir, path, line: entry.to_json().concat("\n") }
}

/// What an entry appends on the strong channel.
pub fn log_audit_strong(entry: &AuditEntry, vault: &str) -> (r: LogAppend)
    ensures
        appends(r, *entry, AuditChannel::Strong, vault@),
{
    log_audit_chan(entry, AuditChannel::Strong, vault)
}

/// What an entry appends on the light channel.
pub fn log_audit(entry: &AuditEntry, vault: &str) -> (r: LogAppend)
    ensures
        appends(r, *entry, AuditChannel::Light, vault@),
{
    log_audit_chan(entry, AuditChannel::Light, vault)
}

/// An operation: its dotted name, and the channel it belongs to.
#[derive(Debug)]
pub struct AuditOp {
    pub name: String,
    pub track: AuditChannel,
}

/// `e` says that `op` happened to a wallet.
pub open spec fn is_wallet_entry(
    e: AuditEntry,
    timestamp: Seq<char>,
    wallet_id: Seq<char>,
    op: Seq<char>,
    chain_id: Option<Seq<char>>,
    address: Option<Seq<char>>,
    details: Option<Seq<char>>,
) -> bool {
    &&& e.timestamp@ == timestamp
    &&& e.wallet_id@ == wallet_id
    &&& e.operation@ == op
    &&& opt_text(e.chain_id) == chain_id
    &&& opt_text(e.address) == address
    &&& opt_text(e.details) == details
    &&& e.secret_name is None
}

/// An entry and the channel it goes to.
#[derive(Debug)]
pub struct Event {
    pub entry: AuditEntry,
    pub channel: AuditChannel,
}

/// The event of an operation on a wallet.
pub fn log_wallet_event(
    timestamp: &str,
    wallet_id: &str,
    op: &AuditOp,
    chain_id: &Option<String>,
    address: &Option<String>,
    details: &Option<String>,
) -> (r: Event)
    ensures
        is_wallet_entry(
            r.entry,
            timestamp@,
            wallet_id@,
            op.name@,
            opt_text(*chain_id),
            opt_text(*address),
            opt_text(*details),
        ),
        r.channel == op.track,
{
    Event {
        entry: AuditEntry {
            timestamp: timestamp.to_owned(),
            wallet_id: wallet_id.to_owned(),
            operation: op.name.clone(),
            chain_id: clone_opt(chain_id),
            address: clone_opt(address),
            details: clone_opt(details),
            secret_name: None,
        },
        channel: op.track,
    }
}

/// The event of an operation on a secret. It names the secret and never holds
/// its value.
pub fn log_secret_event(timestamp: &str, op: &AuditOp, name: &str, details: &Option<String>) -> (r:
    Event)
    ensures
        r.entry.timestamp@ == timestamp@,
        r.entry.wallet_id@ == name@,
        r.entry.operation@ == op.name@,
        r.entry.chain_id is None,
        r.entry.address is None,
        opt_text(r.entry.details) == opt_text(*details),
        opt_text(r.entry.secret_name) == Some(name@),
        r.channel == op.track,
{
    Event {
        entry: AuditEntry {
            timestamp: timestamp.to_owned(),
            wallet_id: name.to_owned(),
            operation: op.name.clone(),
            chain_id: None,
            address: None,
            details: clone_opt(details),
            secret_name: Some(name.to_owned()),
        },
        channel: op.track,
    }
}

/// An account of a wallet.
#[derive(Debug)]
pub struct Account {
    pub chain_id: String,
    pub address: String,
}

/// The accounts as they are logged, one after the other.
pub open spec fn account_texts(v: Seq<Account>) -> Seq<Seq<char>> {
    Seq::new(v.len(), |i: int| v[i].chain_id@ + "="@ + v[i].address@)
}

/// The details that are logged when a wallet is created or imported: its
/// accounts.
pub fn account_details(accounts: &Vec<Account>) -> (r: String)
    ensures
        r@ == join(account_texts(accounts@), ", "@),
{
    let mut parts: Vec<String> = Vec::new();
    let mut i: usize = 0;
    while i < accounts.len()
        invariant
            i <= accounts@.len(),
            texts(parts@) =~= account_texts(accounts@).take(i as int),
        decreases accounts@.len() - i,
    {
        let a = &accounts[i];
        let ghost before = parts@;
        parts.push(a.chain_id.clone().concat("=").concat(a.address.as_str()));
        assert(texts(parts@) =~= texts(before).push(account_texts(accounts@)[i as int]));
        i = i + 1;
    }
    assert(account_texts(accounts@).take(i as int) =~= account_texts(accounts@));
    joined(&parts, ", ")
}

/// The event of a created or imported wallet; `op` says which.
pub fn log_wallet_created(timestamp: &str, wallet_id: &str, accounts: &Vec<Account>, op: &AuditOp) -> (r:
    Event)
    ensures
        is_wallet_entry(
            r.entry,
            timestamp@,
            wallet_id@,
            op.name@,
            None,
            None,
            Some(join(account_texts(accounts@), ", "@)),
        ),
        r.channel == op.track,
{
    log_wallet_event(timestamp, wallet_id, op, &None, &None, &Some(account_details(accounts)))
}

/// The event of a deleted wallet.
pub fn log_wallet_deleted(timestamp: &str, wallet_id: &str, name: &str, op: &AuditOp) -> (r: Event)
    ensures
        is_wallet_entry(
            r.entry,
            timestamp@,
            wallet_id@,
            op.name@,
            None,
            None,
            Some("name="@ + name@),
        ),
        r.channel == op.track,
{
    log_wallet_event(
        timestamp,
        wallet_id,
        op,
        &None,
        &None,
        &Some("name=".to_owned().concat(name)),
    )
}

/// The event of a renamed wallet.
pub fn log_wallet_renamed(
    timestamp: &str,
    wallet_id: &str,
    old_name: &str,
    new_name: &str,
    op: &AuditOp,
) -> (r: Event)
    ensures
        is_wallet_entry(
            r.entry,
            timestamp@,
            wallet_id@,
            op.name@,
            None,
            None,
            Some(old_name@ + " -> "@ + new_name@),
        ),
        r.channel == op.track,
{
    log_wallet_event(
        timestamp,
        wallet_id,
        op,
        &None,
        &None,
        &Some(old_name.to_owned().concat(" -> ").concat(new_name)),
    )
}

/// The event of a broadcast: it always goes to the strong channel.
pub fn log_broadcast(timestamp: &str, wallet_id: &str, chain_id: &str, tx_hash: &str) -> (r: Event)
    ensures
        is_wallet_entry(
            r.entry,
            timestamp@,
            wallet_id@,
            "wallet.broadcast"@,
            Some(chain_id@),
            None,
            Some("tx_hash="@ + tx_hash@),
        ),
        r.channel == AuditChannel::Strong,
{
    Event {
        entry: AuditEntry {
            timestamp: timestamp.to_owned(),
            wallet_id: wallet_id.to_owned(),
            operation: "wallet.broadcast".to_owned(),
            chain_id: Some(chain_id.to_owned()),
            address: None,
            details: Some("tx_hash=".to_owned().concat(tx_hash)),
            secret_name: None,
        },
        channel: AuditChannel::Strong,
    }
}

/// The channels never share a file, so a line of one is never found in the
/// other.
pub proof fn law_channels_are_separate(vault: Seq<char>)
    ensures
        child_path(child_path(vault, "logs"@), channel_file(AuditChannel::Light)) != child_path(
            child_path(vault, "logs"@),
            channel_file(AuditChannel::Strong),
        ),
{
    let dir = child_path(vault, "logs"@);
    let a = channel_file(AuditChannel::Light);
    let b = channel_file(AuditChannel::Strong);
    reveal_strlit("audit.jsonl");
    reveal_strlit("audit-strong.jsonl");
    reveal_strlit("/");
    assert(a.len() == 11);
    assert(b.len() == 18);
    assert(child_path(dir, a).len() < child_path(dir, b).len());
}

/// An entry begins with its time and its wallet and names its operation; what it
/// does not have leaves no trace, and what it has stands under its own name.
pub proof fn law_entries_show_what_they_have(e: AuditEntry)
    ensures
        ("{\"timestamp\":"@ + json_literal(e.timestamp@) + ",\"wallet_id\":"@ + json_literal(
            e.wallet_id@,
        ) + ",\"operation\":"@ + json_literal(e.operation@)).is_prefix_of(entry_json(e)),
        e.chain_id is None && e.address is None && e.details is None && e.secret_name is None
            ==> entry_json(e) == "{\"timestamp\":"@ + json_literal(e.timestamp@)
            + ",\"wallet_id\":"@ + json_literal(e.wallet_id@) + ",\"operation\":"@ + json_literal(
            e.operation@,
        ) + "}"@,
        e.chain_id is None && e.address is None && e.details is None && e.secret_name is Some ==> (
        ",\""@ + "secret_name"@ + "\":"@ + json_literal(e.secret_name->0@) + "}"@).is_suffix_of(
            entry_json(e),
        ),
        e.chain_id is None && e.address is None && e.details is Some && e.secret_name is None ==> (
        ",\""@ + "details"@ + "\":"@ + json_literal(e.details->0@) + "}"@).is_suffix_of(
            entry_json(e),
        ),
        e.chain_id is None && e.address is Some && e.details is None && e.secret_name is None ==> (
        ",\""@ + "address"@ + "\":"@ + json_literal(e.address->0@) + "}"@).is_suffix_of(
            entry_json(e),
        ),
        e.chain_id is Some && e.address is None && e.details is None && e.secret_name is None ==> (
        ",\""@ + "chain_id"@ + "\":"@ + json_literal(e.chain_id->0@) + "}"@).is_suffix_of(
            entry_json(e),
        ),
{
    let j = entry_json(e);
    let head = "{\"timestamp\":"@ + json_literal(e.timestamp@) + ",\"wallet_id\":"@
        + json_literal(e.wallet_id@) + ",\"operation\":"@ + json_literal(e.operation@);
    let a = member_text("chain_id"@, opt_text(e.chain_id));
    let b = member_text("address"@, opt_text(e.address));
    let c = member_text("details"@, opt_text(e.details));
    let d = member_text("secret_name"@, opt_text(e.secret_name));
    assert(j == head + a + b + c + d + "}"@);
    assert(j.take(head.len() as int) =~= head);
    let none = Seq::<char>::empty();
    if a == none && b == none && c == none && d == none {
        assert(j =~= head + "}"@);
    }
    if b == none && c == none && d == none {
        lemma_tail(head, a + "}"@);
        assert(j =~= head + (a + "}"@));
    }
    if a == none && c == none && d == none {
        lemma_tail(head, b + "}"@);
        assert(j =~= head + (b + "}"@));
    }
    if a == none && b == none && d == none {
        lemma_tail(head, c + "}"@);
        assert(j =~= head + (c + "}"@));
    }
    if a == none && b == none && c == none {
        lemma_tail(head, d + "}"@);
        assert(j =~= head + (d + "}"@));
    }
}

proof fn lemma_tail(a: Seq<char>, s: Seq<char>)
    ensures
        s.is_suffix_of(a + s),
{
    let t = a + s;
    assert(t.subrange(t.len() - s.len(), t.len() as int) =~= s);
}

/// Signing is logged beside everything else: in `audit-strong.jsonl`, and the
/// rest in `audit.jsonl`, one entry a line.
pub proof fn law_entries_are_lines_of_their_log(
    a: LogAppend,
    e: AuditEntry,
    c: AuditChannel,
    vault: Seq<char>,
)
    requires
        appends(a, e, c, vault),
    ensures
        c is Strong ==> a.path@ == child_path(child_path(vault, "logs"@), "audit-strong.jsonl"@),
        c is Light ==> a.path@ == child_path(child_path(vault, "logs"@), "audit.jsonl"@),
        a.line@.last() == '\n',
        a.line@.drop_last() == entry_json(e),
{
    reveal_strlit("\n");
    assert(a.line@.drop_last() =~= entry_json(e));
}

/// An entry of a wallet holds what was reported of it, each in its place, and
/// names no secret.
pub proof fn law_wallet_entries_hold_what_was_reported(
    e: AuditEntry,
    timestamp: Seq<char>,
    wallet_id: Seq<char>,
    op: Seq<char>,
    chain_id: Option<Seq<char>>,
    address: Option<Seq<char>>,
    details: Option<Seq<char>>,
)
    requires
        is_wallet_entry(e, timestamp, wallet_id, op, chain_id, address, details),
    ensures
        e.timestamp@ == timestamp && e.wallet_id@ == wallet_id && e.operation@ == op,
        e.secret_name is None,
        e.chain_id is Some <==> chain_id is Some,
        e.chain_id matches Some(c) ==> chain_id == Some(c@),
        e.address is Some <==> address is Some,
        e.address matches Some(a) ==> address == Some(a@),
        e.details is Some <==> details is Some,
        e.details matches Some(d) ==> details == Some(d@),
{
}

/// An account is written as its chain and its address.
pub proof fn law_accounts_are_chain_and_address(v: Seq<Account>, i: int)
    requires
        0 <= i < v.len(),
    ensures
        account_texts(v).len() == v.len(),
        account_texts(v)[i] == v[i].chain_id@ + "="@ + v[i].address@,
{
}

} // verus!
