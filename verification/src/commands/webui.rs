//! `webui`: opening the web interface.
use vstd::prelude::*;

use crate::error::{invalid_args, CliError, CliErrorView};
use crate::path::{child, child_path};
use crate::text::{opt_text, texts, trim, trimmed};

verus! {

/// How long the port file is waited for, in milliseconds.
pub const READY_TIMEOUT_MS: u64 = 5000;

/// The address of the web interface, from the contents of the port file and of
/// the token file. With a token it is the address of the registration.
pub open spec fn url_of(port: Seq<char>, token: Option<Seq<char>>) -> Seq<char> {
    let t = match token {
        Some(t) => trim(t),
        None => Seq::empty(),
    };
    if t.len() == 0 {
        "http://127.0.0.1:"@ + trim(port) + "/"@
    } else {
        "http://127.0.0.1:"@ + trim(port) + "/register?bootstrap="@ + t
    }
}

/// The address of the web interface; the port file has to be there.
pub fn build_url(home: &str, port: &Option<String>, token: &Option<String>) -> (r: Result<
    String,
    CliError,
>)
    ensures
        match opt_text(*port) {
            Some(p) => r matches Ok(u) && u@ == url_of(p, opt_text(*token)),
            None => r matches Err(e) && e@ == CliErrorView::InvalidArgs(
                "Web UI port file not found at "@ + child_path(home@, "webui.port"@)
                    + " — is the daemon running with [webui] enabled?"@,
            ),
        },
{
    let port = match port {
        Some(p) => trimmed(p.as_str()),
        None => {
            return Err(
                invalid_args(
                    "Web UI port file not found at ".to_owned().concat(
                        child(home, "webui.port").as_str(),
                    ).concat(" — is the daemon running with [webui] enabled?"),
                ),
            );
        },
    };
    let token = match token {
        Some(t) => trimmed(t.as_str()),
        None => String::new(),
    };
    if token.as_str().unicode_len() == 0 {
        Ok("http://127.0.0.1:".to_owned().concat(port.as_str()).concat("/"))
    } else {
        Ok(
            "http://127.0.0.1:".to_owned().concat(port.as_str()).concat(
                "/register?bootstrap=",
            ).concat(token.as_str()),
        )
    }
}

/// What is done while the port file is waited for.
#[derive(Clone, Copy, Debug, PartialEq, Eq, Structural)]
pub enum Wait {
    /// It is there: let the daemon finish writing, and go on.
    Settle,
    /// Look again a moment later.
    Again,
    /// It took too long.
    GiveUp,
}

/// What is done while the port file is waited for.
pub fn wait_step(elapsed_ms: u64, present: bool) -> (w: Wait)
    ensures
        w == if elapsed_ms >= READY_TIMEOUT_MS {
            Wait::GiveUp
        } else if present {
            Wait::Settle
        } else {
            Wait::Again
        },
{
    if elapsed_ms >= READY_TIMEOUT_MS {
        Wait::GiveUp
    } else if present {
        Wait::Settle
    } else {
        Wait::Again
    }
}

/// The address after the daemon was started.
pub fn started_url(home: &str, port: &Option<String>, token: &Option<String>) -> (r: Result<
    String,
    CliError,
>)
    ensures
        match opt_text(*port) {
            Some(p) => r matches Ok(u) && u@ == url_of(p, opt_text(*token)),
            None => r matches Err(e) && e@ == CliErrorView::InvalidArgs(
                "Timed out waiting for Web UI to start. Check daemon logs and ensure [webui] is enabled in "@
                    + child_path(home@, "config.json"@),
            ),
        },
{
    match build_url(home, port, token) {
        Ok(u) => Ok(u),
        Err(_) => Err(
            invalid_args(
                "Timed out waiting for Web UI to start. Check daemon logs and ensure [webui] is enabled in ".to_owned().concat(
                    child(home, "config.json").as_str(),
                ),
            ),
        ),
    }
}

/// What is printed around opening the browser; `opened` is whether it could be
/// opened, where it was tried.
pub open spec fn open_lines(url: Seq<char>, opened: Option<bool>) -> Seq<Seq<char>> {
    seq!["Opening Web UI: "@ + url] + match opened {
        Some(true) => Seq::empty(),
        Some(false) => seq![
            "Could not open browser automatically. Please visit:"@,
            "  "@ + url,
        ],
        None => seq!["  "@ + url],
    }
}

/// What is printed around opening the browser.
pub fn open(url: &str, opened: Option<bool>) -> (r: Vec<String>)
    ensures
        texts(r@) == open_lines(url@, opened),
{
    let mut out: Vec<String> = Vec::new();
    out.push("Opening Web UI: ".to_owned().concat(url));
    match opened {
        Some(ok) => {
            if !ok {
                out.push("Could not open browser automatically. Please visit:".to_owned());
                out.push("  ".to_owned().concat(url));
            }
        },
        None => {
            out.push("  ".to_owned().concat(url));
        },
    }
    assert(texts(out@) =~= open_lines(url@, opened));
    out
}

/// Whether the configuration is written before the daemon is started: only
/// when the interface is not enabled yet.
pub fn ensure_webui_enabled(enabled: bool, path: &str) -> (r: Option<String>)
    ensures
        opt_text(r) == if enabled {
            None
        } else {
            Some("Enabled webui in "@ + path@)
        },
{
    if enabled {
        None
    } else {
        Some("Enabled webui in ".to_owned().concat(path))
    }
}

/// The web interface is on this machine only; a token leads to the registration
/// and stands at the end, and a blank one does not.
pub proof fn law_addresses_are_local(port: Seq<char>, token: Option<Seq<char>>)
    ensures
        ("http://127.0.0.1:"@ + trim(port) + "/"@).is_prefix_of(url_of(port, token)),
        token is None || trim(token->0).len() == 0 ==> url_of(port, token) == "http://127.0.0.1:"@
            + trim(port) + "/"@,
        token is Some && trim(token->0).len() > 0 ==> trim(token->0).is_suffix_of(
            url_of(port, token),
        ) && url_of(port, token) == "http://127.0.0.1:"@ + trim(port) + "/register?bootstrap="@
            + trim(token->0),
{
    reveal_strlit("/");
    reveal_strlit("/register?bootstrap=");
    let u = url_of(port, token);
    let head = "http://127.0.0.1:"@ + trim(port) + "/"@;
    assert(u.take(head.len() as int) =~= head);
    if token is Some && trim(token->0).len() > 0 {
        let t = trim(token->0);
        assert(u.subrange(u.len() - t.len(), u.len() as int) =~= t);
    }
}

/// The address is always shown; where no browser opened it, once more on a line of
/// its own.
pub proof fn law_addresses_are_shown(url: Seq<char>, opened: Option<bool>)
    ensures
        open_lines(url, opened)[0] == "Opening Web UI: "@ + url,
        opened == Some(true) ==> open_lines(url, opened).len() == 1,
        opened == Some(false) ==> open_lines(url, opened).len() == 3 && open_lines(url, opened)[1]
            == "Could not open browser automatically. Please visit:"@,
        opened is None ==> open_lines(url, opened).len() == 2,
        opened != Some(true) ==> open_lines(url, opened).last() == "  "@ + url,
{
}

} // verus!
