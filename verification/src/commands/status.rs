//! `status`: what runs, and what the vault holds.
use vstd::prelude::*;

use crate::text::{dec, decimal, lemma_shows, shows, texts};

verus! {

/// Whether something answers at its socket.
pub open spec fn running(up: bool) -> Seq<char> {
    if up {
        "RUNNING"@
    } else {
        "STOPPED"@
    }
}

fn show_running(up: bool) -> (r: &'static str)
    ensures
        r@ == running(up),
{
    if up {
        "RUNNING"
    } else {
        "STOPPED"
    }
}

/// What was found out.
#[derive(Debug)]
pub struct StatusProbe {
    pub key_agent: bool,
    pub key_agent_socket: String,
    pub vault_path: String,
    pub wallets: usize,
    pub wc_daemon: bool,
    pub control_socket: String,
}

/// The status as it is printed.
pub open spec fn status_lines(p: StatusProbe) -> Seq<Seq<char>> {
    seq![
        "Key-Agent: "@ + running(p.key_agent) + " (socket: "@ + p.key_agent_socket@ + ")"@,
        if p.wallets == 0 {
            "Vault:     EMPTY (no wallets) at "@ + p.vault_path@
        } else {
            "Vault:     "@ + p.vault_path@ + " ("@ + decimal(p.wallets as int) + " wallet(s))"@
        },
        "WC Daemon: "@ + running(p.wc_daemon) + " (control: "@ + p.control_socket@ + ")"@,
    ]
}

/// The status as it is printed.
pub fn run(p: &StatusProbe) -> (r: Vec<String>)
    ensures
        texts(r@) == status_lines(*p),
{
    let mut out: Vec<String> = Vec::new();
    out.push(
        "Key-Agent: ".to_owned().concat(show_running(p.key_agent)).concat(" (socket: ").concat(
            p.key_agent_socket.as_str(),
        ).concat(")"),
    );
    if p.wallets == 0 {
        out.push("Vault:     EMPTY (no wallets) at ".to_owned().concat(p.vault_path.as_str()));
    } else {
        out.push(
            "Vault:     ".to_owned().concat(p.vault_path.as_str()).concat(" (").concat(
                dec(p.wallets as u128).as_str(),
            ).concat(" wallet(s))"),
        );
    }
    out.push(
        "WC Daemon: ".to_owned().concat(show_running(p.wc_daemon)).concat(" (control: ").concat(
            p.control_socket.as_str(),
        ).concat(")"),
    );
    assert(texts(out@) =~= status_lines(*p));
    out
}

/// Each part is said to run exactly when it does, with the socket of its own; an
/// empty vault is called empty, and any other counted.
pub proof fn law_each_part_has_its_state(p: StatusProbe)
    ensures
        status_lines(p).len() == 3,
        shows(
            status_lines(p)[0],
            "Key-Agent: "@,
            if p.key_agent {
                "RUNNING"@
            } else {
                "STOPPED"@
            },
        ),
        shows(status_lines(p)[0], " (socket: "@, p.key_agent_socket@),
        shows(
            status_lines(p)[2],
            "WC Daemon: "@,
            if p.wc_daemon {
                "RUNNING"@
            } else {
                "STOPPED"@
            },
        ),
        shows(status_lines(p)[2], " (control: "@, p.control_socket@),
        p.wallets == 0 ==> status_lines(p)[1] == "Vault:     EMPTY (no wallets) at "@
            + p.vault_path@,
        p.wallets > 0 ==> shows(status_lines(p)[1], "Vault:     "@, p.vault_path@) && shows(
            status_lines(p)[1],
            " ("@,
            decimal(p.wallets as int),
        ),
{
    let t = status_lines(p)[0];
    assert(t =~= (Seq::<char>::empty()) + "Key-Agent: "@ + running(p.key_agent) + (" (socket: "@
        + p.key_agent_socket@ + ")"@));
    lemma_shows(Seq::<char>::empty(), "Key-Agent: "@, running(p.key_agent), " (socket: "@
        + p.key_agent_socket@ + ")"@);
    assert(t =~= ("Key-Agent: "@ + running(p.key_agent)) + " (socket: "@ + p.key_agent_socket@ + (")"@));
    lemma_shows("Key-Agent: "@ + running(p.key_agent), " (socket: "@, p.key_agent_socket@, ")"@);
    let t = status_lines(p)[2];
    assert(t =~= (Seq::<char>::empty()) + "WC Daemon: "@ + running(p.wc_daemon) + (" (control: "@
        + p.control_socket@ + ")"@));
    lemma_shows(Seq::<char>::empty(), "WC Daemon: "@, running(p.wc_daemon), " (control: "@
        + p.control_socket@ + ")"@);
    assert(t =~= ("WC Daemon: "@ + running(p.wc_daemon)) + " (control: "@ + p.control_socket@ + (")"@));
    lemma_shows("WC Daemon: "@ + running(p.wc_daemon), " (control: "@, p.control_socket@, ")"@);
    if p.wallets > 0 {
        let t = status_lines(p)[1];
    assert(t =~= (Seq::<char>::empty()) + "Vault:     "@ + p.vault_path@ + (" ("@
        + decimal(p.wallets as int) + " wallet(s))"@));
    lemma_shows(Seq::<char>::empty(), "Vault:     "@, p.vault_path@, " ("@
        + decimal(p.wallets as int) + " wallet(s))"@);
    assert(t =~= ("Vault:     "@ + p.vault_path@) + " ("@ + decimal(p.wallets as int)
        + (" wallet(s))"@));
    lemma_shows("Vault:     "@ + p.vault_path@, " ("@, decimal(p.wallets as int), " wallet(s))"@);
    }
}

} // verus!
