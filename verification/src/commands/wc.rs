//! `wc`: WalletConnect pairings, sessions and relays.
//!
//! The relay and the daemon are spoken to outside; here are the lines that are
//! sent to them, what their answers mean, which messages of a relay are for
//! us, and which relay is used.
use vstd::prelude::*;

use crate::codec::{
    base64_bytes, base64_decode, base64_encode, base64_text, hex_bytes, hex_decode, hex_digit,
    hex_fault, hex_text, is_hex, law_hex_round_trips, strip_0x, without_0x,
};
use crate::commands::config::{Change, ChangeView};
use crate::error::{invalid, invalid_args, CliError, CliErrorView};
use crate::json::{
    compact, int_at, json_bytes_document, json_compact, json_document, json_ints, json_literal,
    json_pretty, json_string_at, parse, parse_bytes, pretty, quote, string_at, Setting,
    SettingView,
};
use crate::text::{
    clone_all, clone_opt, dec, decimal, join, joined, lemma_shows, lemma_shows_first,
    lemma_shows_last, lemma_shows_more, lemma_shows_more4, opt_text, same, shows, starts_with,
    strip_prefix, texts, trim, trimmed, without_prefix, zero_pad, zero_padded,
};

verus! {

// ---------------------------------------------------------------------------
// The daemon
// ---------------------------------------------------------------------------

/// The control socket: below the runtime directory where there is one.
pub fn control_socket_path(runtime_dir: &Option<String>) -> (r: String)
    ensures
        r@ == match opt_text(*runtime_dir) {
            Some(d) => d + "/onecipher/control.sock"@,
            None => "/tmp/onecipher-control.sock"@,
        },
{
    match runtime_dir {
        Some(d) => d.clone().concat("/onecipher/control.sock"),
        None => "/tmp/onecipher-control.sock".to_owned(),
    }
}

/// The line that asks the daemon for a pairing.
pub fn pair_command(ttl: Option<u64>) -> (r: String)
    ensures
        r@ == match ttl {
            Some(t) => "PAIR "@ + decimal(t as int) + "\n"@,
            None => "PAIR\n"@,
        },
{
    match ttl {
        Some(t) => "PAIR ".to_owned().concat(dec(t as u128).as_str()).concat("\n"),
        None => "PAIR\n".to_owned(),
    }
}

/// What the daemon answered to a pairing: a URI, or an error.
#[derive(Debug)]
pub enum PairReply {
    Uri(String),
    Refused(String),
}

/// What the daemon's answer to a pairing means: `OK` and the URI, or an error.
pub fn pair(answer: &str) -> (r: PairReply)
    ensures
        match r {
            PairReply::Uri(u) => strip_prefix(trim(answer@), "OK "@) == Some(u@),
            PairReply::Refused(e) => strip_prefix(trim(answer@), "OK "@) is None && e@ == trim(
                answer@,
            ),
        },
{
    let answer = trimmed(answer);
    match without_prefix(answer.as_str(), "OK ") {
        Some(u) => PairReply::Uri(u),
        None => PairReply::Refused(answer),
    }
}

/// The line that hands a pairing URI to the daemon.
pub fn connect_command(uri: &str) -> (r: String)
    ensures
        r@ == "CONNECT "@ + uri@ + "\n"@,
{
    "CONNECT ".to_owned().concat(uri).concat("\n")
}

/// What is told the user, on standard output and on standard error.
#[derive(Debug)]
pub struct Told {
    pub out: Vec<String>,
    pub err: Vec<String>,
}

/// The lines on a pairing's topic and relay.
pub open spec fn pairing_lines(topic: Seq<char>, relay: Option<Seq<char>>) -> Seq<Seq<char>> {
    let head = seq!["  topic: "@ + topic];
    match relay {
        Some(p) => head.push("  relay: "@ + p),
        None => head,
    }
}

/// What is told on standard output after a pairing was handed to the daemon,
/// whose answer is there unless it could not be reached.
pub open spec fn connect_out(
    answer: Option<Seq<char>>,
    topic: Seq<char>,
    relay: Option<Seq<char>>,
    path: Seq<char>,
) -> Seq<Seq<char>> {
    match answer {
        Some(a) => if "OK"@.is_prefix_of(trim(a)) {
            seq![trim(a)] + pairing_lines(topic, relay)
        } else {
            saved_lines(topic, relay, path)
        },
        None => saved_lines(topic, relay, path),
    }
}

/// What is told when the pairing waits on disk.
pub open spec fn saved_lines(
    topic: Seq<char>,
    relay: Option<Seq<char>>,
    path: Seq<char>,
) -> Seq<Seq<char>> {
    seq!["Pairing saved to "@ + path] + pairing_lines(topic, relay) + seq![
        "(daemon not reachable — will load on next start)"@,
    ]
}

fn push_text(out: &mut Vec<String>, s: String)
    ensures
        texts(final(out)@) == texts(old(out)@).push(s@),
{
    let ghost before = out@;
    out.push(s);
    assert(texts(out@) =~= texts(before).push(s@));
}

fn push_pairing(out: &mut Vec<String>, topic: &str, relay: &Option<String>)
    ensures
        texts(final(out)@) == texts(old(out)@) + pairing_lines(topic@, opt_text(*relay)),
{
    let ghost before = texts(out@);
    push_text(out, "  topic: ".to_owned().concat(topic));
    match relay {
        Some(p) => push_text(out, "  relay: ".to_owned().concat(p.as_str())),
        None => {},
    }
    assert(texts(out@) =~= before + pairing_lines(topic@, opt_text(*relay)));
}

/// What is told after a pairing was handed to the daemon.
pub fn connect(answer: &Option<String>, topic: &str, relay: &Option<String>, path: &str) -> (r:
    Told)
    ensures
        texts(r.out@) == connect_out(opt_text(*answer), topic@, opt_text(*relay), path@),
        texts(r.err@) == match opt_text(*answer) {
            Some(a) => if "OK"@.is_prefix_of(trim(a)) {
                Seq::<Seq<char>>::empty()
            } else {
                seq!["daemon responded: "@ + trim(a)]
            },
            None => Seq::<Seq<char>>::empty(),
        },
{
    let mut out: Vec<String> = Vec::new();
    let mut err: Vec<String> = Vec::new();
    assert(texts(out@) =~= Seq::<Seq<char>>::empty());
    assert(texts(err@) =~= Seq::<Seq<char>>::empty());
    match answer {
        Some(a) => {
            let a = trimmed(a.as_str());
            if starts_with(a.as_str(), "OK") {
                let ghost said = a@;
                push_text(&mut out, a);
                push_pairing(&mut out, topic, relay);
                assert(texts(out@) =~= seq![said] + pairing_lines(topic@, opt_text(*relay)));
                return Told { out, err };
            }
            push_text(&mut err, "daemon responded: ".to_owned().concat(a.as_str()));
            assert(texts(err@) =~= seq!["daemon responded: "@ + a@]);
        },
        None => {},
    }
    push_text(&mut out, "Pairing saved to ".to_owned().concat(path));
    push_pairing(&mut out, topic, relay);
    push_text(&mut out, "(daemon not reachable — will load on next start)".to_owned());
    assert(texts(out@) =~= saved_lines(topic@, opt_text(*relay), path@));
    Told { out, err }
}

// ---------------------------------------------------------------------------
// Stored sessions and pairings
// ---------------------------------------------------------------------------

/// A pairing on disk.
#[derive(Debug)]
pub struct StoredPairing {
    pub topic: String,
    pub sym_key: String,
    pub relay_protocol: Option<String>,
    pub version: u32,
    pub methods: Vec<String>,
}

/// A session on disk.
#[derive(Debug)]
pub struct StoredSession {
    pub topic: String,
    pub sym_key: String,
    pub state: String,
    pub expiry_unix: u64,
    pub methods: Vec<String>,
    pub dapp_name: Option<String>,
}

impl StoredPairing {
    /// The pairing that a pairing URI describes; a missing key is empty.
    pub fn new(
        topic: &str,
        sym_key: &Option<String>,
        relay_protocol: &Option<String>,
        version: u32,
        methods: &Vec<String>,
    ) -> (r: StoredPairing)
        ensures
            r.topic@ == topic@,
            r.sym_key@ == match opt_text(*sym_key) {
                Some(k) => k,
                None => Seq::<char>::empty(),
            },
            opt_text(r.relay_protocol) == opt_text(*relay_protocol),
            r.version == version,
            texts(r.methods@) == texts(methods@),
    {
        StoredPairing {
            topic: topic.to_owned(),
            sym_key: match sym_key {
                Some(k) => k.clone(),
                None => String::new(),
            },
            relay_protocol: clone_opt(relay_protocol),
            version,
            methods: clone_all(methods),
        }
    }
}

/// The line of a session.
pub open spec fn session_line(s: StoredSession) -> Seq<char> {
    "  topic="@ + s.topic@ + "  state="@ + s.state@ + "  expiry="@ + decimal(s.expiry_unix as int)
        + "  methods="@ + join(texts(s.methods@), ","@)
}

/// The sessions as they are listed.
pub fn sessions(list: &Vec<StoredSession>) -> (r: Vec<String>)
    ensures
        list@.len() == 0 ==> texts(r@) == seq!["No WalletConnect sessions found."@],
        list@.len() > 0 ==> texts(r@) == Seq::new(list@.len(), |i: int| session_line(list@[i])),
{
    let mut out: Vec<String> = Vec::new();
    assert(texts(out@) =~= Seq::<Seq<char>>::empty());
    if list.len() == 0 {
        push_text(&mut out, "No WalletConnect sessions found.".to_owned());
        assert(texts(out@) =~= seq!["No WalletConnect sessions found."@]);
        return out;
    }
    let ghost want = Seq::new(list@.len(), |i: int| session_line(list@[i]));
    let mut i: usize = 0;
    while i < list.len()
        invariant
            i <= list@.len(),
            want == Seq::new(list@.len(), |k: int| session_line(list@[k])),
            texts(out@) =~= want.take(i as int),
        decreases list@.len() - i,
    {
        let s = &list[i];
        let line = "  topic=".to_owned().concat(s.topic.as_str()).concat("  state=").concat(
            s.state.as_str(),
        ).concat("  expiry=").concat(dec(s.expiry_unix as u128).as_str()).concat(
            "  methods=",
        ).concat(joined(&s.methods, ",").as_str());
        assert(line@ == want[i as int]);
        push_text(&mut out, line);
        i = i + 1;
    }
    assert(want.take(i as int) =~= want);
    out
}

/// The topics of sessions.
pub open spec fn session_topics(v: Seq<StoredSession>) -> Seq<Seq<char>> {
    Seq::new(v.len(), |i: int| v[i].topic@)
}

/// The positions of the sessions that stay when `topic` is disconnected.
pub open spec fn staying(topics: Seq<Seq<char>>, topic: Seq<char>) -> Seq<usize>
    decreases topics.len(),
{
    if topics.len() == 0 {
        Seq::empty()
    } else {
        let rest = staying(topics.drop_last(), topic);
        if topics.last() == topic {
            rest
        } else {
            rest.push((topics.len() - 1) as usize)
        }
    }
}

/// What disconnecting a topic does to the files: the positions of the sessions
/// that stay, if any goes, and whether the pairing goes.
#[derive(Debug)]
pub struct Disconnect {
    pub sessions: Option<Vec<usize>>,
    pub pairing: bool,
}

/// What disconnecting `topic` does: every session of the topic goes, and the
/// pairing if it is of the topic.
pub fn disconnect(sessions: &Vec<StoredSession>, pairing: &Option<StoredPairing>, topic: &str) -> (r:
    Disconnect)
    ensures
        match r.sessions {
            Some(v) => session_topics(sessions@).contains(topic@) && v@ == staying(
                session_topics(sessions@),
                topic@,
            ),
            None => !session_topics(sessions@).contains(topic@),
        },
        r.pairing == (pairing matches Some(p) && p.topic@ == topic@),
{
    let ghost all = session_topics(sessions@);
    let mut left: Vec<usize> = Vec::new();
    let mut i: usize = 0;
    while i < sessions.len()
        invariant
            i <= sessions@.len(),
            all == session_topics(sessions@),
            left@ == staying(all.take(i as int), topic@),
            left@.len() <= i,
            left@.len() < i <==> all.take(i as int).contains(topic@),
        decreases sessions@.len() - i,
    {
        let ghost head = all.take(i as int);
        let ghost next = all.take(i + 1);
        proof {
            assert(next.drop_last() =~= head);
            if head.contains(topic@) {
                let k = choose|k: int| 0 <= k < head.len() && head[k] == topic@;
                assert(next[k] == topic@);
            }
            if next.contains(topic@) {
                let k = choose|k: int| 0 <= k < next.len() && next[k] == topic@;
                if k < i {
                    assert(head[k] == topic@);
                }
            }
            assert(next[i as int] == all[i as int]);
        }
        if !same(sessions[i].topic.as_str(), topic) {
            left.push(i);
        }
        i = i + 1;
    }
    assert(all.take(i as int) =~= all);
    let gone = left.len() < sessions.len();
    Disconnect {
        sessions: if gone {
            Some(left)
        } else {
            None
        },
        pairing: match pairing {
            Some(p) => same(p.topic.as_str(), topic),
            None => false,
        },
    }
}

proof fn lemma_staying(topics: Seq<Seq<char>>, topic: Seq<char>)
    requires
        topics.len() <= usize::MAX,
    ensures
        forall|k: int|
            0 <= k < staying(topics, topic).len() ==> {
                &&& (#[trigger] staying(topics, topic)[k]) < topics.len()
                &&& topics[staying(topics, topic)[k] as int] != topic
            },
        forall|i: int|
            0 <= i < topics.len() && #[trigger] topics[i] != topic ==> staying(
                topics,
                topic,
            ).contains(i as usize),
    decreases topics.len(),
{
    if topics.len() > 0 {
        let front = topics.drop_last();
        let rest = staying(front, topic);
        let all = staying(topics, topic);
        lemma_staying(front, topic);
        assert forall|k: int| 0 <= k < all.len() implies {
            &&& (#[trigger] all[k]) < topics.len()
            &&& topics[all[k] as int] != topic
        } by {
            if k < rest.len() {
                assert(rest[k] < front.len());
                assert(front[rest[k] as int] != topic);
            }
        }
        assert forall|i: int| 0 <= i < topics.len() && #[trigger] topics[i] != topic implies all.contains(
            i as usize,
        ) by {
            if i < front.len() {
                assert(front[i] != topic);
                let k = choose|k: int| 0 <= k < rest.len() && rest[k] == i as usize;
                assert(all[k] == i as usize);
            } else {
                assert(all[rest.len() as int] == i as usize);
            }
        }
    }
}

/// Disconnecting removes exactly the sessions of the topic.
pub proof fn law_disconnect_removes_the_topic(topics: Seq<Seq<char>>, topic: Seq<char>, i: int)
    requires
        topics.len() <= usize::MAX,
        0 <= i < topics.len(),
    ensures
        staying(topics, topic).contains(i as usize) <==> topics[i] != topic,
{
    lemma_staying(topics, topic);
    if staying(topics, topic).contains(i as usize) {
        let k = choose|k: int|
            0 <= k < staying(topics, topic).len() && staying(topics, topic)[k] == i as usize;
        assert(topics[staying(topics, topic)[k] as int] != topic);
    }
}

// ---------------------------------------------------------------------------
// The relay
// ---------------------------------------------------------------------------

/// A relay is reached over a WebSocket.
pub open spec fn is_relay_url(url: Seq<char>) -> bool {
    "wss://"@.is_prefix_of(url) || "ws://"@.is_prefix_of(url)
}

/// The setting of the relay's address or project.
pub open spec fn relay_setting(field: Seq<char>, value: Seq<char>) -> ChangeView {
    ChangeView { section: Some("wc"@), field, value: SettingView::Text(value) }
}

fn relay_change(field: &str, value: String) -> (r: Change)
    ensures
        r@ == relay_setting(field@, value@),
{
    Change { section: Some("wc".to_owned()), field: field.to_owned(), value: Setting::Text(value) }
}

/// The settings that choose a relay: `wc.relay_url`, and `wc.project_id` where
/// one is given.
#[derive(Debug)]
pub struct RelaySettings {
    pub url: Change,
    pub project: Result<Option<Change>, CliError>,
}

/// The settings that choose the relay at `url`. The URL must be a WebSocket
/// URL; a project that is given must not be blank, which is found after the
/// URL is set.
pub fn relay_config(url: &str, project_id: &Option<String>) -> (r: Result<RelaySettings, CliError>)
    ensures
        match r {
            Err(e) => !is_relay_url(trim(url@)) && e@ == CliErrorView::InvalidArgs(
                "invalid relay URL '"@ + trim(url@) + "' (expected wss:// or ws://)"@,
            ),
            Ok(s) => {
                &&& is_relay_url(trim(url@))
                &&& s.url@ == relay_setting("relay_url"@, trim(url@))
                &&& match s.project {
                    Ok(None) => project_id is None,
                    Ok(Some(c)) => project_id matches Some(p) && trim(p@).len() > 0 && c@
                        == relay_setting("project_id"@, trim(p@)),
                    Err(e) => project_id matches Some(p) && trim(p@).len() == 0 && e@
                        == CliErrorView::InvalidArgs("--project-id cannot be empty"@),
                }
            },
        },
{
    let url = trimmed(url);
    if !starts_with(url.as_str(), "wss://") && !starts_with(url.as_str(), "ws://") {
        return Err(
            invalid_args(
                "invalid relay URL '".to_owned().concat(url.as_str()).concat(
                    "' (expected wss:// or ws://)",
                ),
            ),
        );
    }
    let project = match project_id {
        None => Ok(None),
        Some(p) => {
            let p = trimmed(p.as_str());
            if p.as_str().is_empty() {
                Err(invalid("--project-id cannot be empty"))
            } else {
                Ok(Some(relay_change("project_id", p)))
            }
        },
    };
    Ok(RelaySettings { url: relay_change("relay_url", url), project })
}

/// The first of three settings that is not empty; an override counts even when
/// it is empty.
pub open spec fn effective(
    over: Option<Seq<char>>,
    configured: Seq<char>,
    env: Option<Seq<char>>,
) -> Option<Seq<char>> {
    match over {
        Some(o) => Some(o),
        None => if configured.len() > 0 {
            Some(configured)
        } else {
            match env {
                Some(e) => if e.len() > 0 {
                    Some(e)
                } else {
                    None
                },
                None => None,
            }
        },
    }
}

fn choose_effective(over: &Option<String>, configured: &str, env: &Option<String>) -> (r: Option<
    String,
>)
    ensures
        opt_text(r) == effective(opt_text(*over), configured@, opt_text(*env)),
{
    match over {
        Some(o) => Some(o.clone()),
        None => if !configured.is_empty() {
            Some(configured.to_owned())
        } else {
            match env {
                Some(e) => if e.as_str().is_empty() {
                    None
                } else {
                    Some(e.clone())
                },
                None => None,
            }
        },
    }
}

/// What is known about the relay: flags, configuration, environment.
#[derive(Debug)]
pub struct RelaySources {
    pub url_override: Option<String>,
    pub project_override: Option<String>,
    pub configured_url: String,
    pub configured_project: String,
    pub env_url: Option<String>,
    pub env_project: Option<String>,
}

/// The URL of the relay that a client uses: the effective one, or that of the
/// public relay.
pub open spec fn client_relay(
    over: Option<Seq<char>>,
    configured: Seq<char>,
    env: Option<Seq<char>>,
) -> Seq<char> {
    match effective(over, configured, env) {
        Some(u) => u,
        None => "wss://relay.walletconnect.com"@,
    }
}

/// The relay that is used: an explicit URL, the configured one, the
/// environment's, or the public relay, in this order; the project likewise,
/// but there may be none.
pub fn resolve_relay(s: &RelaySources) -> (r: (String, Option<String>))
    ensures
        r.0@ == client_relay(opt_text(s.url_override), s.configured_url@, opt_text(s.env_url)),
        opt_text(r.1) == effective(
            opt_text(s.project_override),
            s.configured_project@,
            opt_text(s.env_project),
        ),
{
    let url = match choose_effective(&s.url_override, s.configured_url.as_str(), &s.env_url) {
        Some(u) => u,
        None => "wss://relay.walletconnect.com".to_owned(),
    };
    let project = choose_effective(
        &s.project_override,
        s.configured_project.as_str(),
        &s.env_project,
    );
    (url, project)
}

/// The identifier of a relay request: the time in milliseconds above twenty
/// bits of entropy, in nineteen digits.
pub fn relay_id_string(millis: u64, entropy: u16) -> (r: String)
    ensures
        r@ == zero_padded(decimal(relay_id(millis, entropy) as int), 19),
{
    let id: u64 = (millis << 20) | ((entropy as u64) & 0xFFFFF);
    zero_pad(dec(id as u128).as_str(), 19)
}

/// The number behind the identifier of a relay request.
pub open spec fn relay_id(millis: u64, entropy: u16) -> u64 {
    (millis << 20) | ((entropy as u64) & 0xFFFFF)
}

/// As long as the time fits in forty-four bits, later requests have larger
/// identifiers, whatever their entropy.
pub proof fn law_relay_ids_grow(m1: u64, m2: u64, e1: u16, e2: u16)
    requires
        m1 < m2,
        m2 < 0x1000_0000_0000,
    ensures
        relay_id(m1, e1) < relay_id(m2, e2),
{
    let x1: u64 = e1 as u64;
    let x2: u64 = e2 as u64;
    assert((m1 << 20) | (x1 & 0xFFFFF) < (m2 << 20) | (x2 & 0xFFFFF)) by (bit_vector)
        requires
            m1 < m2,
            m2 < 0x1000_0000_0000,
    ;
}

/// The request that subscribes to a topic.
pub fn subscribe_message(id: &str, topic: &str) -> (r: String)
    ensures
        r@ == "{\"id\":"@ + json_literal(id@)
            + ",\"jsonrpc\":\"2.0\",\"method\":\"irn_subscribe\",\"params\":{\"topic\":"@
            + json_literal(topic@) + "}}"@,
{
    "{\"id\":".to_owned().concat(quote(id).as_str()).concat(
        ",\"jsonrpc\":\"2.0\",\"method\":\"irn_subscribe\",\"params\":{\"topic\":",
    ).concat(quote(topic).as_str()).concat("}}")
}

/// The payload of a probe.
pub fn probe_payload(timestamp: &str) -> (r: String)
    ensures
        r@ == "{\"probe\":true,\"ts\":"@ + json_literal(timestamp@) + "}"@,
{
    "{\"probe\":true,\"ts\":".to_owned().concat(quote(timestamp).as_str()).concat("}")
}

/// The type byte of an envelope sealed with a shared key.
pub const ENVELOPE_TYPE_0: u8 = 0;

/// The type byte of an envelope that carries the sender's public key.
pub const ENVELOPE_TYPE_1: u8 = 1;

/// The type byte of an envelope in the clear.
pub const ENVELOPE_TYPE_2: u8 = 2;

/// A message in the clear, as it is published.
pub fn plain_envelope(payload: &str) -> (r: String)
    ensures
        r@ == base64_text(seq![ENVELOPE_TYPE_2] + vstd::utf8::encode_utf8(payload@)),
{
    let mut envelope: Vec<u8> = Vec::new();
    envelope.push(ENVELOPE_TYPE_2);
    let bytes = payload.as_bytes();
    let mut i: usize = 0;
    while i < bytes.len()
        invariant
            i <= bytes@.len(),
            bytes@ == vstd::utf8::encode_utf8(payload@),
            envelope@ =~= seq![ENVELOPE_TYPE_2] + bytes@.take(i as int),
        decreases bytes@.len() - i,
    {
        envelope.push(bytes[i]);
        i = i + 1;
    }
    assert(bytes@.take(i as int) =~= bytes@);
    base64_encode(envelope.as_slice())
}

/// The bytes of a published message.
pub fn decode_message(s: &str) -> (r: Result<Vec<u8>, CliError>)
    ensures
        match r {
            Ok(b) => base64_bytes(s@) == Ok::<Seq<u8>, Seq<char>>(b@),
            Err(e) => base64_bytes(s@) matches Err(fault) && e@ == CliErrorView::InvalidArgs(
                "invalid base64: "@ + fault,
            ),
        },
{
    match base64_decode(s) {
        Ok(b) => Ok(b),
        Err(e) => Err(invalid_args("invalid base64: ".to_owned().concat(e.as_str()))),
    }
}

/// What is read of a message from the relay.
#[derive(Debug)]
pub struct Frame {
    pub method: Option<String>,
    pub topic: Option<String>,
    pub message: Option<String>,
}

/// A text, or nothing where there is none.
pub open spec fn or_empty(o: Option<Seq<char>>) -> Seq<char> {
    match o {
        Some(s) => s,
        None => Seq::empty(),
    }
}

/// The published message in a frame, when the frame delivers one on `topic`.
pub open spec fn delivered(
    method: Option<Seq<char>>,
    frame_topic: Option<Seq<char>>,
    message: Option<Seq<char>>,
    topic: Seq<char>,
) -> Option<Seq<char>> {
    if method == Some("irn_subscription"@) && or_empty(frame_topic) == topic {
        Some(or_empty(message))
    } else {
        None
    }
}

/// The published message in a frame, when the frame delivers one on `topic`.
pub fn message_on(f: &Frame, topic: &str) -> (r: Option<String>)
    ensures
        opt_text(r) == delivered(
            opt_text(f.method),
            opt_text(f.topic),
            opt_text(f.message),
            topic@,
        ),
{
    let subscribed = match &f.method {
        Some(m) => same(m.as_str(), "irn_subscription"),
        None => false,
    };
    let on_topic = match &f.topic {
        Some(t) => same(t.as_str(), topic),
        None => {
            assert(topic@.len() == 0 ==> topic@ =~= Seq::<char>::empty());
            topic.is_empty()
        },
    };
    if subscribed && on_topic {
        match &f.message {
            Some(m) => Some(m.clone()),
            None => Some(String::new()),
        }
    } else {
        None
    }
}

/// The published message in a document from the relay.
pub open spec fn delivered_in(v: serde_json::Value, topic: Seq<char>) -> Option<Seq<char>> {
    delivered(
        json_string_at(v, "/method"@),
        json_string_at(v, "/params/data/topic"@),
        json_string_at(v, "/params/data/message"@),
        topic,
    )
}

/// What a text from the relay delivers on `topic`; a text that is no JSON is
/// an error.
pub open spec fn received(raw: Seq<char>, topic: Seq<char>) -> Result<
    Option<Seq<char>>,
    CliErrorView,
> {
    match json_document(raw) {
        Err(fault) => Err(CliErrorView::InvalidArgs("bad relay message: "@ + fault)),
        Ok(v) => Ok(delivered_in(v, topic)),
    }
}

/// What a text from the relay delivers on `topic`.
pub fn receive(raw: &str, topic: &str) -> (r: Result<Option<String>, CliError>)
    ensures
        match r {
            Ok(o) => received(raw@, topic@) == Ok::<Option<Seq<char>>, CliErrorView>(opt_text(o)),
            Err(e) => received(raw@, topic@) == Err::<Option<Seq<char>>, CliErrorView>(e@),
        },
{
    match parse(raw) {
        Err(e) => Err(invalid_args("bad relay message: ".to_owned().concat(e.as_str()))),
        Ok(v) => {
            let f = Frame {
                method: string_at(&v, "/method"),
                topic: string_at(&v, "/params/data/topic"),
                message: string_at(&v, "/params/data/message"),
            };
            Ok(message_on(&f, topic))
        },
    }
}

// ---------------------------------------------------------------------------
// Probing
// ---------------------------------------------------------------------------

/// How long a relay keeps a probe, in seconds.
pub const PROBE_TTL_SECS: u64 = 60;

/// How long a relay keeps a request, in seconds.
pub const REQUEST_TTL_SECS: u64 = 300;

/// The tag of published messages.
pub const MESSAGE_TAG: u32 = 1108;

/// How long the answer to a request is waited for, in nanoseconds.
pub const ANSWER_TIMEOUT_NS: u128 = 30_000_000_000;

/// What is done with a relay.
#[derive(Clone, Copy, Debug, PartialEq, Eq, Structural)]
pub enum RelayStep {
    Connect,
    Subscribe,
    Publish,
    Receive,
    Encrypt,
    Decrypt,
}

/// How the failure of a step is introduced.
pub open spec fn step_label(s: RelayStep) -> Seq<char> {
    match s {
        RelayStep::Connect => "relay connect failed: "@,
        RelayStep::Subscribe => "subscribe failed: "@,
        RelayStep::Publish => "publish failed: "@,
        RelayStep::Receive => "relay recv: "@,
        RelayStep::Encrypt => "encrypt failed: "@,
        RelayStep::Decrypt => "decrypt failed: "@,
    }
}

/// The error for a step that failed.
pub fn relay_error(s: RelayStep, message: &str) -> (e: CliError)
    ensures
        e@ == CliErrorView::InvalidArgs(step_label(s) + message@),
{
    let label = match s {
        RelayStep::Connect => "relay connect failed: ",
        RelayStep::Subscribe => "subscribe failed: ",
        RelayStep::Publish => "publish failed: ",
        RelayStep::Receive => "relay recv: ",
        RelayStep::Encrypt => "encrypt failed: ",
        RelayStep::Decrypt => "decrypt failed: ",
    };
    invalid_args(label.to_owned().concat(message))
}

/// A sealed envelope, as it is published.
pub fn published(envelope: &Vec<u8>) -> (r: String)
    ensures
        r@ == base64_text(envelope@),
{
    base64_encode(envelope.as_slice())
}

/// How long a probe waits: at least a second.
pub fn probe_timeout(secs: u64) -> (r: u64)
    ensures
        r == if secs >= 1 {
            secs
        } else {
            1u64
        },
{
    if secs >= 1 {
        secs
    } else {
        1
    }
}

/// What a text from the relay means to a probe.
#[derive(Debug)]
pub enum ProbeStep {
    /// Something else; the probe waits on.
    Wait,
    /// An echo that is not ours; the probe waits on.
    WrongEnvelope,
    /// Our echo, with the line to show.
    Echo(String),
}

/// A [`ProbeStep`] with its text as a sequence of characters.
pub enum ProbeView {
    Wait,
    WrongEnvelope,
    Echo(Seq<char>),
}

impl View for ProbeStep {
    type V = ProbeView;

    open spec fn view(&self) -> ProbeView {
        match *self {
            ProbeStep::Wait => ProbeView::Wait,
            ProbeStep::WrongEnvelope => ProbeView::WrongEnvelope,
            ProbeStep::Echo(s) => ProbeView::Echo(s@),
        }
    }
}

/// What the bytes of an echo mean.
pub open spec fn echo_of(bytes: Seq<u8>, topic: Seq<char>) -> Result<ProbeView, CliErrorView> {
    if bytes.len() > 0 && bytes[0] == ENVELOPE_TYPE_2 {
        match json_bytes_document(bytes.skip(1)) {
            Err(fault) => Err(CliErrorView::InvalidArgs("bad echo payload: "@ + fault)),
            Ok(v) => Ok(
                ProbeView::Echo(
                    "relay echo received on "@ + topic + ": "@ + json_compact(v),
                ),
            ),
        }
    } else {
        Ok(ProbeView::WrongEnvelope)
    }
}

/// What a text from the relay means to a probe on `topic`.
pub open spec fn probe_of(raw: Seq<char>, topic: Seq<char>) -> Result<ProbeView, CliErrorView> {
    match received(raw, topic) {
        Err(e) => Err(e),
        Ok(None) => Ok(ProbeView::Wait),
        Ok(Some(m)) => match base64_bytes(m) {
            Err(fault) => Err(CliErrorView::InvalidArgs("invalid base64: "@ + fault)),
            Ok(bytes) => echo_of(bytes, topic),
        },
    }
}

/// The views of a probe's step or an error.
pub open spec fn probe_result(r: Result<ProbeStep, CliError>) -> Result<ProbeView, CliErrorView> {
    match r {
        Ok(s) => Ok(s@),
        Err(e) => Err(e@),
    }
}

fn tail_of(bytes: &Vec<u8>) -> (r: Vec<u8>)
    requires
        bytes@.len() > 0,
    ensures
        r@ == bytes@.skip(1),
{
    let mut out: Vec<u8> = Vec::new();
    let mut i: usize = 1;
    while i < bytes.len()
        invariant
            1 <= i <= bytes@.len(),
            out@ =~= bytes@.subrange(1, i as int),
        decreases bytes@.len() - i,
    {
        out.push(bytes[i]);
        i = i + 1;
    }
    assert(bytes@.subrange(1, i as int) =~= bytes@.skip(1));
    out
}

/// What the bytes of an echo mean.
pub fn read_echo(bytes: &Vec<u8>, topic: &str) -> (r: Result<ProbeStep, CliError>)
    ensures
        probe_result(r) == echo_of(bytes@, topic@),
{
    if bytes.len() > 0 && bytes[0] == ENVELOPE_TYPE_2 {
        let payload = tail_of(bytes);
        match parse_bytes(payload.as_slice()) {
            Err(e) => Err(invalid_args("bad echo payload: ".to_owned().concat(e.as_str()))),
            Ok(v) => Ok(
                ProbeStep::Echo(
                    "relay echo received on ".to_owned().concat(topic).concat(": ").concat(
                        compact(&v).as_str(),
                    ),
                ),
            ),
        }
    } else {
        Ok(ProbeStep::WrongEnvelope)
    }
}

/// What a text from the relay means to a probe on `topic`: our echo, an echo
/// in the wrong envelope, or something to wait past.
pub fn probe(raw: &str, topic: &str) -> (r: Result<ProbeStep, CliError>)
    ensures
        probe_result(r) == probe_of(raw@, topic@),
{
    match receive(raw, topic) {
        Err(e) => Err(e),
        Ok(None) => Ok(ProbeStep::Wait),
        Ok(Some(m)) => match decode_message(m.as_str()) {
            Err(e) => Err(e),
            Ok(bytes) => read_echo(&bytes, topic),
        },
    }
}

/// A probe goes on until its time is over, measured from when it was published:
/// how many seconds it waits for the next text, or the error when the time is
/// over.
pub fn probe_wait(elapsed_ns: u128, secs: u64) -> (r: Result<u64, CliError>)
    ensures
        ({
            let limit: int = if secs >= 1 {
                secs as int
            } else {
                1
            };
            if elapsed_ns > limit * 1_000_000_000 {
                r matches Err(e) && e@ == CliErrorView::InvalidArgs(
                    "timeout waiting for relay echo"@,
                )
            } else {
                r matches Ok(n) && n == limit
            }
        }),
{
    let limit = probe_timeout(secs);
    if elapsed_ns > limit as u128 * 1_000_000_000 {
        Err(invalid("timeout waiting for relay echo"))
    } else {
        Ok(limit)
    }
}

/// What waiting for a text came to: the relay failed, no text came in time, or
/// a text did and means something to the probe.
pub fn probe_received(received: &Result<Option<String>, String>, topic: &str) -> (r: Result<
    ProbeStep,
    CliError,
>)
    ensures
        probe_result(r) == match *received {
            Err(m) => Err(CliErrorView::InvalidArgs(step_label(RelayStep::Receive) + m@)),
            Ok(None) => Err(CliErrorView::InvalidArgs("timeout waiting for relay echo"@)),
            Ok(Some(raw)) => probe_of(raw@, topic@),
        },
{
    match received {
        Err(m) => Err(relay_error(RelayStep::Receive, m.as_str())),
        Ok(None) => Err(invalid("timeout waiting for relay echo")),
        Ok(Some(raw)) => probe(raw.as_str(), topic),
    }
}

// ---------------------------------------------------------------------------
// Acting as a dApp
// ---------------------------------------------------------------------------

/// The key in hexadecimal: the flag, or the stored pairing's when it is of the
/// topic and has one.
pub open spec fn key_source(
    flag: Option<Seq<char>>,
    stored: Option<StoredPairing>,
    topic: Seq<char>,
) -> Option<Seq<char>> {
    match flag {
        Some(k) => Some(k),
        None => match stored {
            Some(p) => if p.topic@ == topic && p.sym_key@.len() > 0 {
                Some(p.sym_key@)
            } else {
                None
            },
            None => None,
        },
    }
}

/// The key of a session: 32 bytes in hexadecimal, with or without `0x`.
pub open spec fn session_key(source: Option<Seq<char>>) -> Result<Seq<u8>, CliErrorView> {
    match source {
        None => Err(CliErrorView::InvalidArgs("no sym key for topic (pass --sym-key)"@)),
        Some(k) => {
            let digits = without_0x(k);
            if !is_hex(digits) {
                Err(CliErrorView::InvalidArgs("invalid sym-key hex: "@ + hex_fault(digits)))
            } else if hex_bytes(digits).len() != 32 {
                Err(CliErrorView::InvalidArgs("sym-key must be 32 bytes (64 hex chars)"@))
            } else {
                Ok(hex_bytes(digits))
            }
        },
    }
}

/// The views of bytes or an error.
pub open spec fn bytes_result(r: Result<Vec<u8>, CliError>) -> Result<Seq<u8>, CliErrorView> {
    match r {
        Ok(b) => Ok(b@),
        Err(e) => Err(e@),
    }
}

/// The key of a session.
pub fn resolve_sym_key(flag: &Option<String>, stored: &Option<StoredPairing>, topic: &str) -> (r:
    Result<Vec<u8>, CliError>)
    ensures
        bytes_result(r) == session_key(key_source(opt_text(*flag), *stored, topic@)),
{
    let source = match flag {
        Some(k) => Some(k.clone()),
        None => match stored {
            Some(p) => if same(p.topic.as_str(), topic) && !p.sym_key.as_str().is_empty() {
                Some(p.sym_key.clone())
            } else {
                None
            },
            None => None,
        },
    };
    match source {
        None => Err(invalid("no sym key for topic (pass --sym-key)")),
        Some(k) => match hex_decode(strip_0x(k.as_str()).as_str()) {
            Err(e) => Err(invalid_args("invalid sym-key hex: ".to_owned().concat(e.as_str()))),
            Ok(b) => if b.len() != 32 {
                Err(invalid("sym-key must be 32 bytes (64 hex chars)"))
            } else {
                Ok(b)
            },
        },
    }
}

/// The request of a dApp, with the key that seals it.
#[derive(Debug)]
pub struct DappRequest {
    pub sym_key: Vec<u8>,
    pub request: String,
}

/// A JSON-RPC request; `params` are JSON.
pub open spec fn rpc_request(id: u32, method: Seq<char>, params: Seq<char>) -> Seq<char> {
    "{\"id\":"@ + decimal(id as int) + ",\"jsonrpc\":\"2.0\",\"method\":"@ + json_literal(method)
        + ",\"params\":"@ + params + "}"@
}

/// The parameters of a request, which must be JSON.
pub fn dapp_params(params_json: &str) -> (r: Result<serde_json::Value, CliError>)
    ensures
        match json_document(params_json@) {
            Err(fault) => r matches Err(e) && e@ == CliErrorView::InvalidArgs(
                "invalid params JSON: "@ + fault,
            ),
            Ok(params) => r matches Ok(v) && v == params,
        },
{
    match parse(params_json) {
        Ok(v) => Ok(v),
        Err(e) => Err(invalid_args("invalid params JSON: ".to_owned().concat(e.as_str()))),
    }
}

/// The request that a dApp sends on `topic`: the parameters must be JSON, and
/// there must be a key for the topic.
pub fn dapp_send(
    topic: &str,
    method: &str,
    params_json: &str,
    sym_key_hex: &Option<String>,
    stored: &Option<StoredPairing>,
    id: u32,
) -> (r: Result<DappRequest, CliError>)
    ensures
        match json_document(params_json@) {
            Err(fault) => r matches Err(e) && e@ == CliErrorView::InvalidArgs(
                "invalid params JSON: "@ + fault,
            ),
            Ok(params) => match session_key(key_source(opt_text(*sym_key_hex), *stored, topic@)) {
                Err(f) => r matches Err(e) && e@ == f,
                Ok(key) => r matches Ok(d) && d.sym_key@ == key && d.request@ == rpc_request(
                    id,
                    method@,
                    json_compact(params),
                ),
            },
        },
{
    let params = match dapp_params(params_json) {
        Ok(v) => v,
        Err(e) => return Err(e),
    };
    let sym_key = match resolve_sym_key(sym_key_hex, stored, topic) {
        Ok(k) => k,
        Err(e) => return Err(e),
    };
    let request = "{\"id\":".to_owned().concat(dec(id as u128).as_str()).concat(
        ",\"jsonrpc\":\"2.0\",\"method\":",
    ).concat(quote(method).as_str()).concat(",\"params\":").concat(
        compact(&params).as_str(),
    ).concat("}");
    Ok(DappRequest { sym_key, request })
}

/// How an answer is sealed.
#[derive(Clone, Copy, Debug, PartialEq, Eq, Structural)]
pub enum Sealed {
    Type0,
    Type1,
}

/// What a text from the relay means to a dApp: nothing, or a sealed answer.
#[derive(Debug)]
pub enum DappStep {
    Wait,
    Open(Sealed, Vec<u8>),
}

/// A [`DappStep`] over sequences.
pub enum DappView {
    Wait,
    Open(Sealed, Seq<u8>),
}

impl View for DappStep {
    type V = DappView;

    open spec fn view(&self) -> DappView {
        match *self {
            DappStep::Wait => DappView::Wait,
            DappStep::Open(k, b) => DappView::Open(k, b@),
        }
    }
}

/// The envelope that bytes are.
pub open spec fn sealed_of(bytes: Seq<u8>) -> DappView {
    if bytes.len() > 0 && bytes[0] == ENVELOPE_TYPE_0 {
        DappView::Open(Sealed::Type0, bytes)
    } else if bytes.len() > 0 && bytes[0] == ENVELOPE_TYPE_1 {
        DappView::Open(Sealed::Type1, bytes)
    } else {
        DappView::Wait
    }
}

/// What a text from the relay means to a dApp on `topic`.
pub open spec fn answer_of(raw: Seq<char>, topic: Seq<char>) -> Result<DappView, CliErrorView> {
    match received(raw, topic) {
        Err(e) => Err(e),
        Ok(None) => Ok(DappView::Wait),
        Ok(Some(m)) => match base64_bytes(m) {
            Err(fault) => Err(CliErrorView::InvalidArgs("invalid base64: "@ + fault)),
            Ok(bytes) => Ok(sealed_of(bytes)),
        },
    }
}

/// The envelope that bytes are.
pub fn envelope_of(bytes: Vec<u8>) -> (r: DappStep)
    ensures
        r@ == sealed_of(bytes@),
{
    if bytes.len() > 0 && bytes[0] == ENVELOPE_TYPE_0 {
        DappStep::Open(Sealed::Type0, bytes)
    } else if bytes.len() > 0 && bytes[0] == ENVELOPE_TYPE_1 {
        DappStep::Open(Sealed::Type1, bytes)
    } else {
        DappStep::Wait
    }
}

/// What a text from the relay means to a dApp on `topic`.
pub fn dapp_receive(raw: &str, topic: &str) -> (r: Result<DappStep, CliError>)
    ensures
        match r {
            Ok(s) => answer_of(raw@, topic@) == Ok::<DappView, CliErrorView>(s@),
            Err(e) => answer_of(raw@, topic@) == Err::<DappView, CliErrorView>(e@),
        },
{
    match receive(raw, topic) {
        Err(e) => Err(e),
        Ok(None) => Ok(DappStep::Wait),
        Ok(Some(m)) => match decode_message(m.as_str()) {
            Err(e) => Err(e),
            Ok(bytes) => Ok(envelope_of(bytes)),
        },
    }
}

/// A dApp waits for its answer until its time is over, measured from when the
/// request was published.
pub fn dapp_wait(elapsed_ns: u128) -> (r: Result<(), CliError>)
    ensures
        if elapsed_ns > ANSWER_TIMEOUT_NS {
            r matches Err(e) && e@ == CliErrorView::InvalidArgs("timeout waiting for response"@)
        } else {
            r is Ok
        },
{
    if elapsed_ns > ANSWER_TIMEOUT_NS {
        Err(invalid("timeout waiting for response"))
    } else {
        Ok(())
    }
}

/// The answer in an opened envelope, when it answers the request `id`.
pub fn dapp_response(plaintext: &Vec<u8>, id: u32) -> (r: Result<Option<String>, CliError>)
    ensures
        match json_bytes_document(plaintext@) {
            Err(fault) => r matches Err(e) && e@ == CliErrorView::InvalidArgs(
                "bad response JSON: "@ + fault,
            ),
            Ok(v) => if json_ints(v).contains_key("/id"@) && json_ints(v)["/id"@] == id {
                r matches Ok(Some(t)) && t@ == json_pretty(v)
            } else {
                r matches Ok(None)
            },
        },
{
    match parse_bytes(plaintext.as_slice()) {
        Err(e) => Err(invalid_args("bad response JSON: ".to_owned().concat(e.as_str()))),
        Ok(v) => match int_at(&v, "/id") {
            Some(n) => if n == id as i64 {
                Ok(Some(pretty(&v)))
            } else {
                Ok(None)
            },
            None => Ok(None),
        },
    }
}

/// An override comes before the configuration, and the configuration before the
/// environment; empty settings of the last two do not count.
pub proof fn law_settings_come_in_order(
    over: Option<Seq<char>>,
    configured: Seq<char>,
    env: Option<Seq<char>>,
)
    ensures
        over matches Some(o) ==> effective(over, configured, env) == Some(o),
        over is None && configured.len() > 0 ==> effective(over, configured, env) == Some(
            configured,
        ),
        over is None && configured.len() == 0 && env is Some && env->0.len() > 0 ==> effective(
            over,
            configured,
            env,
        ) == env,
        effective(over, configured, env) is None <==> over is None && configured.len() == 0 && (
        env is None || env->0.len() == 0),
{
}

/// A session key is 32 bytes, and their digits, with or without `0x`, give it.
pub proof fn law_session_keys_are_read_back(b: Seq<u8>, source: Option<Seq<char>>)
    ensures
        session_key(source) matches Ok(k) ==> k.len() == 32 && source is Some && k == hex_bytes(
            without_0x(source->0),
        ),
        b.len() == 32 ==> session_key(Some(hex_text(b))) == Ok::<Seq<u8>, CliErrorView>(b),
        b.len() == 32 ==> session_key(Some("0x"@ + hex_text(b))) == Ok::<Seq<u8>, CliErrorView>(b),
        b.len() != 32 ==> session_key(Some("0x"@ + hex_text(b))) is Err,
{
    law_hex_round_trips(b);
    reveal_strlit("0x");
    let t = hex_text(b);
    assert("0x"@.is_prefix_of("0x"@ + t));
    assert(("0x"@ + t).skip(2) =~= t);
    if "0x"@.is_prefix_of(t) {
        assert(t[1] == "0x"@[1]);
        assert(hex_digit(t[1]) is Some);
    }
}

/// The stored key is used only on its own topic and only without a flag.
pub proof fn law_stored_keys_stay_on_their_topic(
    flag: Option<Seq<char>>,
    stored: Option<StoredPairing>,
    topic: Seq<char>,
)
    ensures
        flag is Some ==> key_source(flag, stored, topic) == flag,
        flag is None ==> (key_source(flag, stored, topic) matches Some(k) ==> (
        stored matches Some(p) && p.topic@ == topic && p.sym_key@ == k && k.len() > 0)),
        flag is None && (stored matches Some(p) && p.topic@ == topic && p.sym_key@.len() > 0)
            ==> key_source(flag, stored, topic) is Some,
{
}

/// Only a subscription on the topic delivers a message, and the one that it
/// carries; a frame on another topic is waited past.
pub proof fn law_only_the_topic_delivers(raw: Seq<char>, topic: Seq<char>)
    requires
        topic.len() > 0,
    ensures
        received(raw, topic) matches Ok(Some(m)) ==> (json_document(raw) matches Ok(v)
            && json_string_at(v, "/method"@) == Some("irn_subscription"@) && json_string_at(
            v,
            "/params/data/topic"@,
        ) == Some(topic) && (json_string_at(v, "/params/data/message"@) == Some(m) || (
        json_string_at(v, "/params/data/message"@) is None && m.len() == 0))),
        (json_document(raw) matches Ok(v) && json_string_at(v, "/params/data/topic"@) != Some(
            topic,
        )) ==> probe_of(raw, topic) == Ok::<ProbeView, CliErrorView>(ProbeView::Wait) && answer_of(
            raw,
            topic,
        ) == Ok::<DappView, CliErrorView>(DappView::Wait),
        (json_document(raw) matches Ok(v) && json_string_at(v, "/method"@) == Some(
            "irn_subscription"@,
        ) && json_string_at(v, "/params/data/topic"@) == Some(topic)) ==> (received(
            raw,
            topic,
        ) matches Ok(Some(_))),
{
}

/// The first byte says how an envelope is sealed: 0 with the shared key, 1 with
/// the sender's public key; any other is waited past. Only an envelope of type 2
/// is an echo.
pub proof fn law_envelopes_are_told_by_their_first_byte(bytes: Seq<u8>, topic: Seq<char>)
    ensures
        sealed_of(bytes) == DappView::Open(Sealed::Type0, bytes) <==> bytes.len() > 0 && bytes[0]
            == 0,
        sealed_of(bytes) == DappView::Open(Sealed::Type1, bytes) <==> bytes.len() > 0 && bytes[0]
            == 1,
        sealed_of(bytes) == DappView::Wait <==> bytes.len() == 0 || bytes[0] > 1,
        echo_of(bytes, topic) == Ok::<ProbeView, CliErrorView>(ProbeView::WrongEnvelope) <==>
            bytes.len() == 0 || bytes[0] != 2,
        echo_of(bytes, topic) is Err ==> bytes.len() > 0 && bytes[0] == 2 && json_bytes_document(
            bytes.skip(1),
        ) is Err,
{
}

/// A probe in the clear is an echo when it comes back as it was sent.
pub proof fn law_echoes_carry_their_payload(payload: Seq<u8>, topic: Seq<char>)
    ensures
        json_bytes_document(payload) matches Ok(v) ==> echo_of(seq![2u8] + payload, topic) == Ok::<
            ProbeView,
            CliErrorView,
        >(ProbeView::Echo("relay echo received on "@ + topic + ": "@ + json_compact(v))),
{
    assert((seq![2u8] + payload).skip(1) =~= payload);
}

/// The settings of a relay are saved in the `wc` section under their own names.
pub proof fn law_relay_settings_are_saved_in_wc(field: Seq<char>, value: Seq<char>)
    ensures
        relay_setting(field, value).section == Some("wc"@),
        relay_setting(field, value).field == field,
        relay_setting(field, value).value == SettingView::Text(value),
{
}

/// A pairing is shown by its topic, and by its relay when it has one; where the
/// daemon did not take it, the place it was saved to and that it waits are shown.
pub proof fn law_pairings_are_shown(
    answer: Option<Seq<char>>,
    topic: Seq<char>,
    relay: Option<Seq<char>>,
    path: Seq<char>,
)
    ensures
        connect_out(answer, topic, relay, path).contains("  topic: "@ + topic),
        relay matches Some(p) ==> connect_out(answer, topic, relay, path).contains(
            "  relay: "@ + p,
        ),
        (answer matches Some(a) && "OK"@.is_prefix_of(trim(a))) ==> connect_out(
            answer,
            topic,
            relay,
            path,
        )[0] == trim(answer->0),
        !(answer matches Some(a) && "OK"@.is_prefix_of(trim(a))) ==> connect_out(
            answer,
            topic,
            relay,
            path,
        )[0] == "Pairing saved to "@ + path && connect_out(answer, topic, relay, path).last()
            == "(daemon not reachable — will load on next start)"@,
        relay is None ==> pairing_lines(topic, relay).len() == 1,
{
    let l = connect_out(answer, topic, relay, path);
    assert(l[1] == "  topic: "@ + topic);
    if let Some(p) = relay {
        assert(l[2] == "  relay: "@ + p);
    }
}

/// A session is shown by its topic, its state, its expiry and its methods.
pub proof fn law_sessions_are_shown(s: StoredSession)
    ensures
        shows(session_line(s), "  topic="@, s.topic@),
        shows(session_line(s), "  state="@, s.state@),
        shows(session_line(s), "  expiry="@, decimal(s.expiry_unix as int)),
        shows(session_line(s), "  methods="@, join(texts(s.methods@), ","@)),
{
    let t = session_line(s);
    let methods = join(texts(s.methods@), ","@);
    let expiry = decimal(s.expiry_unix as int);
    assert(shows(t, "  topic="@, s.topic@)) by {
        lemma_shows_first("  topic="@, s.topic@);
        let u = "  topic="@ + s.topic@;
        lemma_shows_more4(u, "  state="@, s.state@, "  expiry="@, expiry, "  topic="@, s.topic@);
        let u = u + "  state="@ + s.state@ + "  expiry="@ + expiry;
        lemma_shows_more(u, "  methods="@, "  topic="@, s.topic@);
        let u = u + "  methods="@;
        lemma_shows_more(u, methods, "  topic="@, s.topic@);
    }
    assert(shows(t, "  state="@, s.state@)) by {
        let a = "  topic="@ + s.topic@;
        lemma_shows_last(a, "  state="@, s.state@);
        let u = a + "  state="@ + s.state@;
        lemma_shows_more4(u, "  expiry="@, expiry, "  methods="@, methods, "  state="@, s.state@);
    }
    assert(shows(t, "  expiry="@, expiry)) by {
        let a = "  topic="@ + s.topic@ + "  state="@ + s.state@;
        lemma_shows_last(a, "  expiry="@, expiry);
        let u = a + "  expiry="@ + expiry;
        lemma_shows_more(u, "  methods="@, "  expiry="@, expiry);
        let u = u + "  methods="@;
        lemma_shows_more(u, methods, "  expiry="@, expiry);
    }
    assert(shows(t, "  methods="@, methods)) by {
        let a = "  topic="@ + s.topic@ + "  state="@ + s.state@ + "  expiry="@ + expiry;
        lemma_shows_last(a, "  methods="@, methods);
        let u = a + "  methods="@ + methods;
    }
}

/// A request of the relay carries its identifier, its method and its parameters.
pub proof fn law_requests_carry_method_and_parameters(id: u32, method: Seq<char>, params: Seq<char>)
    ensures
        shows(rpc_request(id, method, params), "{\"id\":"@, decimal(id as int)),
        shows(rpc_request(id, method, params), "\"method\":"@, json_literal(method)),
        shows(rpc_request(id, method, params), ",\"params\":"@, params),
        shows(rpc_request(id, method, params), "\"jsonrpc\":"@, "\"2.0\""@),
{
    let t = rpc_request(id, method, params);
    let n = decimal(id as int);
    let m = json_literal(method);
    reveal_strlit(",\"jsonrpc\":\"2.0\",\"method\":");
    reveal_strlit(",");
    reveal_strlit("\"jsonrpc\":");
    reveal_strlit("\"2.0\"");
    reveal_strlit("\"method\":");
    assert(",\"jsonrpc\":\"2.0\",\"method\":"@ =~= ","@ + "\"jsonrpc\":"@ + "\"2.0\""@ + ","@
        + "\"method\":"@);
    assert(shows(t, "{\"id\":"@, n)) by {
        let a = Seq::<char>::empty();
        let b = ","@ + "\"jsonrpc\":"@ + "\"2.0\""@ + ","@ + "\"method\":"@ + m + ",\"params\":"@
            + params + "}"@;
        lemma_shows(a, "{\"id\":"@, n, b);
        assert(t =~= a + "{\"id\":"@ + n + b);
    }
    assert(shows(t, "\"jsonrpc\":"@, "\"2.0\""@)) by {
        let a = "{\"id\":"@ + n + ","@;
        let b = ","@ + "\"method\":"@ + m + ",\"params\":"@ + params + "}"@;
        lemma_shows(a, "\"jsonrpc\":"@, "\"2.0\""@, b);
        assert(t =~= a + "\"jsonrpc\":"@ + "\"2.0\""@ + b);
    }
    assert(shows(t, "\"method\":"@, m)) by {
        let a = "{\"id\":"@ + n + ","@ + "\"jsonrpc\":"@ + "\"2.0\""@ + ","@;
        let b = ",\"params\":"@ + params + "}"@;
        lemma_shows(a, "\"method\":"@, m, b);
        assert(t =~= a + "\"method\":"@ + m + b);
    }
    assert(shows(t, ",\"params\":"@, params)) by {
        let a = "{\"id\":"@ + n + ","@ + "\"jsonrpc\":"@ + "\"2.0\""@ + ","@ + "\"method\":"@ + m;
        let b = "}"@;
        lemma_shows(a, ",\"params\":"@, params, b);
        assert(t =~= a + ",\"params\":"@ + params + b);
    }
}

/// Each step of the relay has words of its own for its failure.
pub proof fn law_steps_have_their_words(a: RelayStep, b: RelayStep)
    ensures
        a is Connect ==> step_label(a) == "relay connect failed: "@,
        a is Subscribe ==> step_label(a) == "subscribe failed: "@,
        a is Publish ==> step_label(a) == "publish failed: "@,
        a is Receive ==> step_label(a) == "relay recv: "@,
        a is Encrypt ==> step_label(a) == "encrypt failed: "@,
        a is Decrypt ==> step_label(a) == "decrypt failed: "@,
{
}

/// What is read of the value in a contract is the value itself, each part under its
/// own name.
pub proof fn law_probe_step_views_keep_each_value(x: ProbeStep)
    ensures
        x is Wait ==> x@ == ProbeView::Wait,
        x is WrongEnvelope ==> x@ == ProbeView::WrongEnvelope,
        x matches ProbeStep::Echo(s) ==> x@ == ProbeView::Echo(s@),
{
}

/// What is read of the value in a contract is the value itself, each part under its
/// own name.
pub proof fn law_dapp_step_views_keep_each_value(x: DappStep)
    ensures
        x is Wait ==> x@ == DappView::Wait,
        x matches DappStep::Open(k, b) ==> x@ == DappView::Open(k, b@),
{
}

/// The address of a relay begins with `wss://` or `ws://`, and with nothing else.
pub proof fn law_relays_are_web_sockets(rest: Seq<char>, url: Seq<char>)
    ensures
        is_relay_url("wss://"@ + rest),
        is_relay_url("ws://"@ + rest),
        is_relay_url(url) ==> url.len() >= 5 && url[0] == 'w' && url[1] == 's' && (url[2] == ':'
            || url[2] == 's' && url[3] == ':'),
{
    reveal_strlit("wss://");
    reveal_strlit("ws://");
    assert(("wss://"@ + rest).take(6) =~= "wss://"@);
    assert(("ws://"@ + rest).take(5) =~= "ws://"@);
    if "wss://"@.is_prefix_of(url) {
        let h = url.take(6);
        assert(h[0] == url[0] && h[1] == url[1] && h[2] == url[2] && h[3] == url[3]);
    }
    if "ws://"@.is_prefix_of(url) {
        let h = url.take(5);
        assert(h[0] == url[0] && h[1] == url[1] && h[2] == url[2]);
    }
}

} // verus!
