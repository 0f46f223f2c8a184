//! `migrate`: moving wallets into the secret store.
use vstd::prelude::*;

use crate::error::{invalid_args, CliError, CliErrorView};
use crate::path::{child, child_path};
use crate::text::{dec, decimal, lemma_shows, shows, texts};

verus! {

/// The file of the recipients below the state directory.
pub fn recipients_path(vault_root: &str) -> (r: String)
    ensures
        r@ == child_path(vault_root@, ".age-recipients"@),
{
    child(vault_root, ".age-recipients")
}

/// Migrating needs the file of the recipients.
pub fn check_recipients(path: &str, is_file: bool) -> (r: Result<(), CliError>)
    ensures
        match r {
            Ok(_) => is_file,
            Err(e) => !is_file && e@ == CliErrorView::InvalidArgs(
                "no recipients file found at "@ + path@
                    + "; create one first (e.g. with `age-keygen`)"@,
            ),
        },
{
    if !is_file {
        return Err(
            invalid_args(
                "no recipients file found at ".to_owned().concat(path).concat(
                    "; create one first (e.g. with `age-keygen`)",
                ),
            ),
        );
    }
    Ok(())
}

/// What a rollback reports; the old files are never touched.
pub fn rollback_lines(removed: usize) -> (r: Vec<String>)
    ensures
        texts(r@) == seq![
            "rollback: removed "@ + decimal(removed as int) + " migrated secret entry/entries"@,
            "legacy wallet .json files are unchanged and remain the primary source"@,
        ],
{
    let mut out: Vec<String> = Vec::new();
    out.push(
        "rollback: removed ".to_owned().concat(dec(removed as u128).as_str()).concat(
            " migrated secret entry/entries",
        ),
    );
    out.push("legacy wallet .json files are unchanged and remain the primary source".to_owned());
    assert(texts(out@) =~= seq![
        "rollback: removed "@ + decimal(removed as int) + " migrated secret entry/entries"@,
        "legacy wallet .json files are unchanged and remain the primary source"@,
    ]);
    out
}

/// A wallet that was migrated, or would be.
#[derive(Debug)]
pub struct Migrated {
    pub wallet_name: String,
    pub wallet_id: String,
    pub entry_name: String,
}

/// The line of a wallet.
pub open spec fn migrated_line(m: Migrated) -> Seq<char> {
    "  '"@ + m.wallet_name@ + "' ("@ + m.wallet_id@ + ") -> secret entry '"@ + m.entry_name@ + "'"@
}

/// What a migration reports.
pub open spec fn migration_lines(results: Seq<Migrated>, dry_run: bool) -> Seq<Seq<char>> {
    if results.len() == 0 {
        seq![
            "migrate: no wallets migrated (vault empty, already migrated, or wrong passphrase)"@,
        ]
    } else {
        seq![
            (if dry_run {
                "migrate (dry run)"@
            } else {
                "migrate"@
            }) + ": "@ + decimal(results.len() as int) + " wallet(s) "@ + (if dry_run {
                "would be migrated"@
            } else {
                "migrated"@
            }) + ":"@,
        ] + Seq::new(results.len(), |i: int| migrated_line(results[i])) + seq![
            if dry_run {
                "no files were written (dry run)"@
            } else {
                "legacy .json files were NOT deleted; remove them manually after verifying"@
            },
        ]
    }
}

/// What a migration reports.
pub fn run(results: &Vec<Migrated>, dry_run: bool) -> (r: Vec<String>)
    ensures
        texts(r@) == migration_lines(results@, dry_run),
{
    let mut out: Vec<String> = Vec::new();
    if results.len() == 0 {
        out.push(
            "migrate: no wallets migrated (vault empty, already migrated, or wrong passphrase)".to_owned(),
        );
        assert(texts(out@) =~= migration_lines(results@, dry_run));
        return out;
    }
    let label = if dry_run {
        "migrate (dry run)"
    } else {
        "migrate"
    };
    let verb = if dry_run {
        "would be migrated"
    } else {
        "migrated"
    };
    let last = if dry_run {
        "no files were written (dry run)"
    } else {
        "legacy .json files were NOT deleted; remove them manually after verifying"
    };
    out.push(
        label.to_owned().concat(": ").concat(dec(results.len() as u128).as_str()).concat(
            " wallet(s) ",
        ).concat(verb).concat(":"),
    );
    let ghost all = migration_lines(results@, dry_run);
    let mut i: usize = 0;
    assert(texts(out@) =~= all.take(1));
    while i < results.len()
        invariant
            i <= results@.len(),
            results@.len() > 0,
            all == migration_lines(results@, dry_run),
            texts(out@) =~= all.take(i + 1),
        decreases results@.len() - i,
    {
        let m = &results[i];
        let ghost before = out@;
        out.push(
            "  '".to_owned().concat(m.wallet_name.as_str()).concat("' (").concat(
                m.wallet_id.as_str(),
            ).concat(") -> secret entry '").concat(m.entry_name.as_str()).concat("'"),
        );
        assert(texts(out@) =~= texts(before).push(all[i + 1]));
        i = i + 1;
    }
    let ghost before = out@;
    out.push(last.to_owned());
    assert(texts(out@) =~= texts(before).push(last@));
    assert(all =~= all.take(i + 1).push(last@));
    out
}

/// Every wallet has a line of its own that names it and its entry, between a line
/// with their number and a closing one; a dry run says that nothing was written.
pub proof fn law_every_migrated_wallet_is_named(v: Seq<Migrated>, dry_run: bool, i: int)
    requires
        0 <= i < v.len(),
    ensures
        migration_lines(v, dry_run).len() == v.len() + 2,
        shows(migration_lines(v, dry_run)[i + 1], "  '"@, v[i].wallet_name@),
        shows(migration_lines(v, dry_run)[i + 1], "' ("@, v[i].wallet_id@),
        shows(migration_lines(v, dry_run)[i + 1], "-> secret entry '"@, v[i].entry_name@),
        shows(migration_lines(v, dry_run)[0], ": "@, decimal(v.len() as int)),
        dry_run ==> migration_lines(v, dry_run).last() == "no files were written (dry run)"@
            && "migrate (dry run)"@.is_prefix_of(migration_lines(v, dry_run)[0]),
        !dry_run ==> migration_lines(v, dry_run).last()
            == "legacy .json files were NOT deleted; remove them manually after verifying"@,
{
    let l = migration_lines(v, dry_run);
    let m = v[i];
    let t = migrated_line(m);
    assert(l[i + 1] == t);
    assert(t =~= (Seq::<char>::empty()) + "  '"@ + m.wallet_name@ + ("' ("@ + m.wallet_id@
        + ") -> secret entry '"@ + m.entry_name@ + "'"@));
    lemma_shows(Seq::<char>::empty(), "  '"@, m.wallet_name@, "' ("@ + m.wallet_id@
        + ") -> secret entry '"@ + m.entry_name@ + "'"@);
    assert(t =~= ("  '"@ + m.wallet_name@) + "' ("@ + m.wallet_id@ + (") -> secret entry '"@
        + m.entry_name@ + "'"@));
    lemma_shows("  '"@ + m.wallet_name@, "' ("@, m.wallet_id@, ") -> secret entry '"@
        + m.entry_name@ + "'"@);
    reveal_strlit(") -> secret entry '");
    reveal_strlit(") ");
    reveal_strlit("-> secret entry '");
    assert(") -> secret entry '"@ =~= ") "@ + "-> secret entry '"@);
    let head = "  '"@ + m.wallet_name@ + "' ("@ + m.wallet_id@ + ") "@;
    assert(t =~= head + "-> secret entry '"@ + m.entry_name@ + "'"@);
    lemma_shows(head, "-> secret entry '"@, m.entry_name@, "'"@);
    let a = if dry_run {
        "migrate (dry run)"@
    } else {
        "migrate"@
    };
    let c = if dry_run {
        "would be migrated"@
    } else {
        "migrated"@
    };
    let b = " wallet(s) "@ + c + ":"@;
    assert(l[0] =~= a + ": "@ + decimal(v.len() as int) + b);
    lemma_shows(a, ": "@, decimal(v.len() as int), b);
    assert(l[0].take(a.len() as int) =~= a);
}

} // verus!
