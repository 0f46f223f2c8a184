//! `vault unlock`: checking the passphrase against every wallet.
use vstd::prelude::*;

use crate::error::{invalid, CliError, CliErrorView};
use crate::text::{dec, decimal, texts};

verus! {

/// What came of opening a wallet with the passphrase.
#[derive(Debug)]
pub enum Attempt {
    Opened,
    WrongPassphrase,
    Failed(CliError),
}

/// A wallet that was tried.
#[derive(Debug)]
pub struct Tried {
    pub name: String,
    pub attempt: Attempt,
}

/// What an unlock prints, and how it ends.
#[derive(Debug)]
pub struct Unlocked {
    pub lines: Vec<String>,
    pub result: Result<(), CliError>,
}

/// The first wallet, from position `i` on, that did not open.
pub open spec fn first_failure(v: Seq<Tried>, i: int) -> Option<int>
    decreases v.len() - i,
{
    if i >= v.len() {
        None
    } else if v[i].attempt is Opened {
        first_failure(v, i + 1)
    } else {
        Some(i)
    }
}

/// `u` is how an unlock ends: well when every wallet opens, and at the first
/// one that does not.
pub open spec fn is_unlock(u: Unlocked, v: Seq<Tried>) -> bool {
    if v.len() == 0 {
        &&& u.result is Ok
        &&& texts(u.lines@) == seq![
            "vault unlock: no wallets in vault (passphrase not verified)"@,
        ]
    } else {
        match first_failure(v, 0) {
            None => {
                &&& u.result is Ok
                &&& texts(u.lines@) == seq![
                    "Vault unlocked successfully (verified "@ + decimal(v.len() as int)
                        + " wallet(s))."@,
                    "Note: passphrase verified but not cached; subsequent commands will prompt again."@,
                ]
            },
            Some(i) => match v[i].attempt {
                Attempt::Failed(e) => {
                    &&& u.result matches Err(f) && f@ == e@
                    &&& u.lines@.len() == 0
                },
                _ => {
                    &&& u.result matches Err(f) && f@ == CliErrorView::InvalidArgs(
                        "wrong passphrase"@,
                    )
                    &&& texts(u.lines@) == seq![
                        "vault unlock: wrong passphrase (failed on wallet '"@ + v[i].name@ + "')"@,
                    ]
                },
            },
        }
    }
}

fn failed_at(tried: &Vec<Tried>) -> (r: Option<usize>)
    ensures
        match r {
            Some(i) => i < tried@.len() && first_failure(tried@, 0) == Some(i as int),
            None => first_failure(tried@, 0) is None,
        },
{
    let mut i: usize = 0;
    while i < tried.len()
        invariant
            i <= tried@.len(),
            first_failure(tried@, 0) == first_failure(tried@, i as int),
        decreases tried@.len() - i,
    {
        let opened = match &tried[i].attempt {
            Attempt::Opened => true,
            _ => false,
        };
        if !opened {
            return Some(i);
        }
        i = i + 1;
    }
    None
}

/// How an unlock ends. Trying stops at the first wallet that does not open, so
/// that one is the last of `tried`.
pub fn unlock(tried: Vec<Tried>) -> (u: Unlocked)
    ensures
        is_unlock(u, tried@),
{
    let n: usize = tried.len();
    let mut lines: Vec<String> = Vec::new();
    if n == 0 {
        lines.push("vault unlock: no wallets in vault (passphrase not verified)".to_owned());
        assert(texts(lines@) =~= seq![
            "vault unlock: no wallets in vault (passphrase not verified)"@,
        ]);
        return Unlocked { lines, result: Ok(()) };
    }
    let failure = failed_at(&tried);
    let ghost v = tried@;
    if let Some(i) = failure {
        let mut tried = tried;
        let t = tried.swap_remove(i);
        assert(t == v[i as int]);
        return match t.attempt {
            Attempt::Failed(e) => Unlocked { lines, result: Err(e) },
            _ => {
                lines.push(
                    "vault unlock: wrong passphrase (failed on wallet '".to_owned().concat(
                        t.name.as_str(),
                    ).concat("')"),
                );
                assert(texts(lines@) =~= seq![
                    "vault unlock: wrong passphrase (failed on wallet '"@ + t.name@ + "')"@,
                ]);
                Unlocked { lines, result: Err(invalid("wrong passphrase")) }
            },
        };
    }
    lines.push(
        "Vault unlocked successfully (verified ".to_owned().concat(dec(n as u128).as_str()).concat(
            " wallet(s)).",
        ),
    );
    lines.push(
        "Note: passphrase verified but not cached; subsequent commands will prompt again.".to_owned(),
    );
    assert(texts(lines@) =~= seq![
        "Vault unlocked successfully (verified "@ + decimal(v.len() as int) + " wallet(s))."@,
        "Note: passphrase verified but not cached; subsequent commands will prompt again."@,
    ]);
    Unlocked { lines, result: Ok(()) }
}

/// The first wallet that does not open is the one that fails; a vault unlocks
/// exactly when all its wallets open.
pub proof fn law_vaults_unlock_when_all_wallets_open(u: Unlocked, v: Seq<Tried>)
    requires
        is_unlock(u, v),
    ensures
        u.result is Ok <==> forall|i: int|
            0 <= i < v.len() ==> (#[trigger] v[i]).attempt is Opened,
        forall|i: int|
            (0 <= i < v.len() && (#[trigger] v[i]).attempt is WrongPassphrase && (forall|k: int|
                0 <= k < i ==> (#[trigger] v[k]).attempt is Opened)) ==> (u.result matches Err(e)
                && e@ == CliErrorView::InvalidArgs("wrong passphrase"@)),
{
    lemma_first_failure(v, 0);
}

proof fn lemma_first_failure(v: Seq<Tried>, from: int)
    requires
        0 <= from,
    ensures
        first_failure(v, from) matches Some(i) ==> from <= i < v.len() && !(v[i].attempt is Opened)
            && (forall|k: int| from <= k < i ==> (#[trigger] v[k]).attempt is Opened),
        first_failure(v, from) is None ==> forall|k: int|
            from <= k < v.len() ==> (#[trigger] v[k]).attempt is Opened,
    decreases v.len() - from,
{
    if from < v.len() && v[from].attempt is Opened {
        lemma_first_failure(v, from + 1);
    }
}

} // verus!
