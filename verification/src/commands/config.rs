//! `config`: showing the configuration, and setting a value by its key.
use vstd::prelude::*;

use crate::error::{invalid, invalid_args, CliError, CliErrorView};
use crate::json::{
    empty_object, is_null, is_object, json_document, json_is_null, json_members,
    json_of, json_pretty, member,
    parse, pretty, setting_value, with_member, Setting, SettingView,
};
use crate::order::{is_stable_order, stable_order, stable_order_of};
use crate::text::{
    cut_once, law_cutting_gives_both_sides, law_padding_adds_spaces_only, law_sides_are_cut_apart,
    opt_text, pad_right, padded_right, parse_u64, parsed, same, split_once, texts,
};

verus! {

/// Whether `s` is one of the words for yes.
pub open spec fn is_yes(s: Seq<char>) -> bool {
    s == "true"@ || s == "1"@ || s == "yes"@ || s == "on"@
}

/// Whether `s` is one of the words for no.
pub open spec fn is_no(s: Seq<char>) -> bool {
    s == "false"@ || s == "0"@ || s == "no"@ || s == "off"@
}

/// The flag that `s` names.
pub open spec fn flag_of(s: Seq<char>) -> Result<bool, CliErrorView> {
    if is_yes(s) {
        Ok(true)
    } else if is_no(s) {
        Ok(false)
    } else {
        Err(
            CliErrorView::InvalidArgs(
                "'"@ + s + "' is not a valid boolean (use true/false/yes/no/on/off/1/0)"@,
            ),
        )
    }
}

/// The flag that `s` names.
pub fn parse_bool(s: &str) -> (r: Result<bool, CliError>)
    ensures
        match r {
            Ok(b) => flag_of(s@) == Ok::<bool, CliErrorView>(b),
            Err(e) => flag_of(s@) == Err::<bool, CliErrorView>(e@),
        },
{
    if same(s, "true") || same(s, "1") || same(s, "yes") || same(s, "on") {
        Ok(true)
    } else if same(s, "false") || same(s, "0") || same(s, "no") || same(s, "off") {
        Ok(false)
    } else {
        Err(
            invalid_args(
                "'".to_owned().concat(s).concat(
                    "' is not a valid boolean (use true/false/yes/no/on/off/1/0)",
                ),
            ),
        )
    }
}

/// A change of the configuration: the section it is in, if it is in one, the
/// field, and the new value.
#[derive(Debug)]
pub struct Change {
    pub section: Option<String>,
    pub field: String,
    pub value: Setting,
}

/// A [`Change`] with its texts as sequences of characters.
pub struct ChangeView {
    pub section: Option<Seq<char>>,
    pub field: Seq<char>,
    pub value: SettingView,
}

impl View for Change {
    type V = ChangeView;

    open spec fn view(&self) -> ChangeView {
        ChangeView { section: opt_text(self.section), field: self.field@, value: self.value@ }
    }
}

/// The value of a field of the `webui` section.
pub open spec fn webui_setting(field: Seq<char>, value: Seq<char>) -> Result<
    SettingView,
    CliErrorView,
> {
    if field == "enabled"@ || field == "approval_mode"@ {
        match flag_of(value) {
            Ok(b) => Ok(SettingView::Flag(b)),
            Err(e) => Err(e),
        }
    } else if field == "approval_timeout_secs"@ || field == "session_timeout_secs"@ {
        match parsed(value, u64::MAX as int) {
            Some(n) => Ok(SettingView::Number(n as u64)),
            None => Err(CliErrorView::InvalidArgs("'"@ + value + "' is not a valid u64"@)),
        }
    } else if field == "listen"@ || field == "auto_lock_at"@ {
        Ok(SettingView::Text(value))
    } else {
        Err(
            CliErrorView::InvalidArgs(
                "unknown webui field '"@ + field
                    + "'. Valid fields: enabled, approval_mode, approval_timeout_secs, listen, session_timeout_secs, auto_lock_at"@,
            ),
        )
    }
}

/// The error for a key that is no configuration key.
pub open spec fn unknown_key(key: Seq<char>) -> CliErrorView {
    CliErrorView::InvalidArgs(
        "unknown config key '"@ + key
            + "'. Valid top-level keys: vault_path, rpc.<chain>, webui.<field>"@,
    )
}

/// The change that setting `key` to `value` makes. The keys are `vault_path`,
/// `rpc.<chain>` and `webui.<field>`; the first dot separates section and
/// field.
pub open spec fn change_of(key: Seq<char>, value: Seq<char>) -> Result<ChangeView, CliErrorView> {
    match split_once(key, '.') {
        Some((section, field)) => if section == "rpc"@ {
            Ok(ChangeView { section: Some(section), field, value: SettingView::Text(value) })
        } else if section == "webui"@ {
            match webui_setting(field, value) {
                Ok(v) => Ok(ChangeView { section: Some(section), field, value: v }),
                Err(e) => Err(e),
            }
        } else {
            Err(unknown_key(key))
        },
        None => if key == "vault_path"@ {
            Ok(ChangeView { section: None, field: key, value: SettingView::Text(value) })
        } else {
            Err(unknown_key(key))
        },
    }
}

fn webui_value(field: &str, value: &str) -> (r: Result<Setting, CliError>)
    ensures
        match r {
            Ok(s) => webui_setting(field@, value@) == Ok::<SettingView, CliErrorView>(s@),
            Err(e) => webui_setting(field@, value@) == Err::<SettingView, CliErrorView>(e@),
        },
{
    if same(field, "enabled") || same(field, "approval_mode") {
        match parse_bool(value) {
            Ok(b) => Ok(Setting::Flag(b)),
            Err(e) => Err(e),
        }
    } else if same(field, "approval_timeout_secs") || same(field, "session_timeout_secs") {
        match parse_u64(value) {
            Some(n) => Ok(Setting::Number(n)),
            None => Err(invalid_args("'".to_owned().concat(value).concat("' is not a valid u64"))),
        }
    } else if same(field, "listen") || same(field, "auto_lock_at") {
        Ok(Setting::Text(value.to_owned()))
    } else {
        Err(
            invalid_args(
                "unknown webui field '".to_owned().concat(field).concat(
                    "'. Valid fields: enabled, approval_mode, approval_timeout_secs, listen, session_timeout_secs, auto_lock_at",
                ),
            ),
        )
    }
}

fn unknown_key_error(key: &str) -> (e: CliError)
    ensures
        e@ == unknown_key(key@),
{
    invalid_args(
        "unknown config key '".to_owned().concat(key).concat(
            "'. Valid top-level keys: vault_path, rpc.<chain>, webui.<field>",
        ),
    )
}

/// The change that setting `key` to `value` makes.
pub fn parse_change(key: &str, value: &str) -> (r: Result<Change, CliError>)
    ensures
        match r {
            Ok(c) => change_of(key@, value@) == Ok::<ChangeView, CliErrorView>(c@),
            Err(e) => change_of(key@, value@) == Err::<ChangeView, CliErrorView>(e@),
        },
{
    match cut_once(key, '.') {
        Some((section, field)) => {
            if same(section.as_str(), "rpc") {
                Ok(Change { section: Some(section), field, value: Setting::Text(value.to_owned()) })
            } else if same(section.as_str(), "webui") {
                match webui_value(field.as_str(), value) {
                    Ok(v) => Ok(Change { section: Some(section), field, value: v }),
                    Err(e) => Err(e),
                }
            } else {
                Err(unknown_key_error(key))
            }
        },
        None => {
            if same(key, "vault_path") {
                Ok(
                    Change {
                        section: None,
                        field: key.to_owned(),
                        value: Setting::Text(value.to_owned()),
                    },
                )
            } else {
                Err(unknown_key_error(key))
            }
        },
    }
}

/// The members of a section: those that are there, or none when the section is
/// absent or no object.
pub open spec fn section_members(
    root: Map<Seq<char>, serde_json::Value>,
    section: Seq<char>,
) -> Map<Seq<char>, serde_json::Value> {
    if root.contains_key(section) {
        match json_members(root[section]) {
            Some(m) => m,
            None => Map::empty(),
        }
    } else {
        Map::empty()
    }
}

/// `after` is `before` with one setting changed: everything else stays.
pub open spec fn applied(
    before: Map<Seq<char>, serde_json::Value>,
    after: Map<Seq<char>, serde_json::Value>,
    change: ChangeView,
) -> bool {
    match change.section {
        Some(section) => {
            &&& after.contains_key(section)
            &&& after == before.insert(section, after[section])
            &&& json_members(after[section]) == Some(
                section_members(before, section).insert(change.field, json_of(change.value)),
            )
        },
        None => after == before.insert(change.field, json_of(change.value)),
    }
}

/// The configuration after a change; `root` is an object.
pub fn apply(root: serde_json::Value, change: Change) -> (r: serde_json::Value)
    requires
        json_members(root) is Some,
    ensures
        json_members(r) is Some,
        applied(json_members(root)->0, json_members(r)->0, change@),
{
    let value = setting_value(change.value);
    match change.section {
        Some(section) => {
            let held = match member(&root, section.as_str()) {
                Some(s) => if is_object(&s) {
                    s
                } else {
                    empty_object()
                },
                None => empty_object(),
            };
            let held = with_member(held, change.field.as_str(), value);
            with_member(root, section.as_str(), held)
        },
        None => with_member(root, change.field.as_str(), value),
    }
}

/// What a configuration file holds: the members of its object; an empty file
/// slot (`null`) counts as an empty object.
pub open spec fn file_members(d: serde_json::Value) -> Option<Map<Seq<char>, serde_json::Value>> {
    if json_is_null(d) {
        Some(Map::empty())
    } else {
        json_members(d)
    }
}

/// The members that a configuration file with `contents` holds, those of an
/// empty object where there is no file; `Ok(None)` when it holds JSON that is
/// neither an object nor `null`, and the fault when it is no JSON.
pub open spec fn contents_members(contents: Option<Seq<char>>) -> Result<
    Option<Map<Seq<char>, serde_json::Value>>,
    Seq<char>,
> {
    match contents {
        Some(t) => match json_document(t) {
            Ok(d) => Ok(file_members(d)),
            Err(fault) => Err(fault),
        },
        None => Ok(Some(Map::empty())),
    }
}

/// Whether `text` shows an object that is `before` with one setting changed.
pub open spec fn shows_change(
    before: Map<Seq<char>, serde_json::Value>,
    text: Seq<char>,
    change: ChangeView,
) -> bool {
    exists|d: serde_json::Value|
        text == #[trigger] json_pretty(d) && json_members(d) is Some && applied(
            before,
            json_members(d)->0,
            change,
        )
}

/// The error for a configuration file that is no JSON.
pub open spec fn not_json(fault: Seq<char>) -> CliErrorView {
    CliErrorView::InvalidArgs("invalid config JSON: "@ + fault)
}

fn read_root(contents: &Option<String>) -> (r: Result<serde_json::Value, CliError>)
    ensures
        match contents_members(opt_text(*contents)) {
            Err(fault) => r matches Err(e) && e@ == not_json(fault),
            Ok(m) => r matches Ok(v) && json_members(v) == m,
        },
{
    match contents {
        Some(t) => match parse(t.as_str()) {
            Ok(v) => if is_null(&v) {
                Ok(empty_object())
            } else {
                Ok(v)
            },
            Err(e) => Err(invalid_args("invalid config JSON: ".to_owned().concat(e.as_str()))),
        },
        None => Ok(empty_object()),
    }
}

/// The text of the configuration file after a change. `None` when the file
/// holds JSON that is neither an object nor `null`, which cannot be changed; a
/// file that is no JSON is an error.
pub fn write(contents: &Option<String>, change: Change) -> (r: Result<Option<String>, CliError>)
    ensures
        match contents_members(opt_text(*contents)) {
            Err(fault) => r matches Err(e) && e@ == not_json(fault),
            Ok(None) => r matches Ok(None),
            Ok(Some(before)) => r matches Ok(Some(text)) && shows_change(before, text@, change@),
        },
{
    let root = match read_root(contents) {
        Ok(v) => v,
        Err(e) => return Err(e),
    };
    if !is_object(&root) {
        return Ok(None);
    }
    let done = apply(root, change);
    let text = pretty(&done);
    assert(text@ == json_pretty(done));
    Ok(Some(text))
}

/// The text of the configuration file after `key` is set to `value`. `None`
/// when the file holds JSON that is neither an object nor `null`, which cannot be
/// changed.
///
/// A key or value that is wrong, and a file that is no JSON, are errors; the
/// file comes first.
pub fn set(contents: &Option<String>, key: &str, value: &str) -> (r: Result<
    Option<String>,
    CliError,
>)
    ensures
        match (contents_members(opt_text(*contents)), change_of(key@, value@)) {
            (Err(fault), _) => r matches Err(e) && e@ == not_json(fault),
            (Ok(_), Err(wrong)) => r matches Err(e) && e@ == wrong,
            (Ok(None), Ok(_)) => r matches Ok(None),
            (Ok(Some(before)), Ok(change)) => r matches Ok(Some(text)) && shows_change(
                before,
                text@,
                change,
            ),
        },
{
    match parse_change(key, value) {
        Ok(change) => write(contents, change),
        Err(wrong) => match read_root(contents) {
            Ok(_) => Err(wrong),
            Err(e) => Err(e),
        },
    }
}

/// What is said after a setting was written.
pub fn set_message(key: &str, value: &str, path: &str) -> (r: String)
    ensures
        r@ == "Set "@ + key@ + " = "@ + value@ + "\nConfig: "@ + path@ + "\n"@,
{
    "Set ".to_owned().concat(key).concat(" = ").concat(value).concat("\nConfig: ").concat(
        path,
    ).concat("\n")
}

/// One RPC endpoint: the chain, its URL, and the built-in URL if there is one.
#[derive(Debug)]
pub struct Endpoint {
    pub key: String,
    pub url: String,
    pub default_url: Option<String>,
}

/// The line of an endpoint.
pub open spec fn endpoint_line(e: Endpoint) -> Seq<char> {
    let note = if opt_text(e.default_url) == Some(e.url@) {
        "(default)"@
    } else {
        "(custom)"@
    };
    "  "@ + pad_right(e.key@, 40) + " "@ + e.url@ + " "@ + note
}

/// The keys of endpoints.
pub open spec fn endpoint_keys(v: Seq<Endpoint>) -> Seq<Seq<char>> {
    Seq::new(v.len(), |i: int| v[i].key@)
}

/// The lines of the endpoints in the order of their keys.
pub open spec fn endpoint_lines(v: Seq<Endpoint>) -> Seq<Seq<char>> {
    Seq::new(v.len(), |i: int| endpoint_line(v[stable_order_of(endpoint_keys(v))[i] as int]))
}

/// The configuration as it is shown: where the vault and the file are, then
/// the RPC endpoints in the order of their chains.
pub fn show(vault: &str, path: &str, exists: bool, endpoints: &Vec<Endpoint>) -> (r: Vec<String>)
    ensures
        texts(r@) == seq![
            "Vault:  "@ + vault@,
            if exists {
                "Config: "@ + path@
            } else {
                "Config: "@ + path@ + " (not found — using defaults)"@
            },
            ""@,
            "RPC endpoints:"@,
        ] + endpoint_lines(endpoints@),
{
    let mut out: Vec<String> = Vec::new();
    out.push("Vault:  ".to_owned().concat(vault));
    if exists {
        out.push("Config: ".to_owned().concat(path));
    } else {
        out.push(
            "Config: ".to_owned().concat(path).concat(" (not found — using defaults)"),
        );
    }
    out.push("".to_owned());
    out.push("RPC endpoints:".to_owned());
    let ghost head = texts(out@);
    let mut keys: Vec<String> = Vec::new();
    let mut i: usize = 0;
    while i < endpoints.len()
        invariant
            i <= endpoints@.len(),
            texts(keys@) =~= endpoint_keys(endpoints@).take(i as int),
        decreases endpoints@.len() - i,
    {
        let ghost before = keys@;
        keys.push(endpoints[i].key.clone());
        assert(texts(keys@) =~= texts(before).push(endpoint_keys(endpoints@)[i as int]));
        i = i + 1;
    }
    assert(endpoint_keys(endpoints@).take(i as int) =~= endpoint_keys(endpoints@));
    let order = stable_order(&keys);
    let mut k: usize = 0;
    assert(head + endpoint_lines(endpoints@).take(0) =~= head);
    while k < order.len()
        invariant
            k <= order@.len(),
            order@ == stable_order_of(endpoint_keys(endpoints@)),
            is_stable_order(endpoint_keys(endpoints@), order@),
            texts(out@) == head + endpoint_lines(endpoints@).take(k as int),
        decreases order@.len() - k,
    {
        let e = &endpoints[order[k]];
        let note = match &e.default_url {
            Some(d) => if same(d.as_str(), e.url.as_str()) {
                "(default)"
            } else {
                "(custom)"
            },
            None => "(custom)",
        };
        let line = "  ".to_owned().concat(padded_right(e.key.as_str(), 40).as_str()).concat(
            " ",
        ).concat(e.url.as_str()).concat(" ").concat(note);
        let ghost before = out@;
        assert(line@ == endpoint_lines(endpoints@)[k as int]);
        out.push(line);
        assert(texts(out@) =~= texts(before).push(line@));
        assert(texts(out@) =~= head + endpoint_lines(endpoints@).take(k + 1));
        k = k + 1;
    }
    assert(endpoint_lines(endpoints@).take(k as int) =~= endpoint_lines(endpoints@));
    assert(head =~= seq![
        "Vault:  "@ + vault@,
        if exists {
            "Config: "@ + path@
        } else {
            "Config: "@ + path@ + " (not found — using defaults)"@
        },
        ""@,
        "RPC endpoints:"@,
    ]);
    out
}

/// Setting a value and reading the same field gives the value back, and every
/// other field of the section and every other section is as it was.
pub proof fn law_set_changes_one_field(
    before: Map<Seq<char>, serde_json::Value>,
    after: Map<Seq<char>, serde_json::Value>,
    change: ChangeView,
    key: Seq<char>,
)
    requires
        applied(before, after, change),
        change.section is Some,
    ensures
        section_members(after, change.section->0).contains_key(change.field),
        section_members(after, change.section->0)[change.field] == json_of(change.value),
        key != change.field ==> section_members(after, change.section->0).contains_key(key)
            == section_members(before, change.section->0).contains_key(key),
        key != change.field && section_members(before, change.section->0).contains_key(key)
            ==> section_members(after, change.section->0)[key] == section_members(
            before,
            change.section->0,
        )[key],
        key != change.section->0 ==> after.contains_key(key) == before.contains_key(key),
        key != change.section->0 && before.contains_key(key) ==> after[key] == before[key],
{
    let s = change.section->0;
    let b = before.insert(s, after[s]);
    assert(after == b);
    assert(key != s ==> b.contains_key(key) == before.contains_key(key));
}

/// The words for yes set a flag, the words for no clear it, and nothing else
/// does either.
pub proof fn law_flags_have_their_words(s: Seq<char>)
    ensures
        flag_of(s) == Ok::<bool, CliErrorView>(true) <==> s == "true"@ || s == "1"@ || s == "yes"@
            || s == "on"@,
        flag_of(s) == Ok::<bool, CliErrorView>(false) <==> s == "false"@ || s == "0"@ || s == "no"@
            || s == "off"@,
{
    reveal_strlit("true");
    reveal_strlit("1");
    reveal_strlit("yes");
    reveal_strlit("on");
    reveal_strlit("false");
    reveal_strlit("0");
    reveal_strlit("no");
    reveal_strlit("off");
    assert("true"@.len() == 4 && "true"@[0] == 't' && "1"@.len() == 1 && "1"@[0] == '1'
        && "yes"@.len() == 3 && "yes"@[0] == 'y' && "on"@.len() == 2 && "on"@[0] == 'o'
        && "false"@.len() == 5 && "false"@[0] == 'f' && "0"@.len() == 1 && "0"@[0] == '0'
        && "no"@.len() == 2 && "no"@[0] == 'n' && "off"@.len() == 3 && "off"@[0] == 'o');
}

/// A key is a section and a field around its first dot, or `vault_path`; the
/// value of an RPC endpoint and of the vault's path is the text itself.
pub proof fn law_keys_name_their_setting(field: Seq<char>, value: Seq<char>, key: Seq<char>)
    ensures
        change_of("rpc."@ + field, value) == Ok::<ChangeView, CliErrorView>(
            ChangeView {
                section: Some("rpc"@),
                field,
                value: SettingView::Text(value),
            },
        ),
        change_of("vault_path"@, value) == Ok::<ChangeView, CliErrorView>(
            ChangeView { section: None, field: "vault_path"@, value: SettingView::Text(value) },
        ),
        change_of("webui."@ + field, value) matches Ok(c) ==> c.section == Some("webui"@) && c.field
            == field && webui_setting(field, value) == Ok::<SettingView, CliErrorView>(c.value),
        !key.contains('.') && key != "vault_path"@ ==> change_of(key, value) is Err,
{
    reveal_strlit("rpc");
    reveal_strlit("rpc.");
    reveal_strlit("webui");
    reveal_strlit("webui.");
    reveal_strlit("vault_path");
    assert("rpc"@[0] == 'r' && "webui"@[0] == 'w');
    assert("rpc."@ + field =~= "rpc"@ + seq!['.'] + field);
    assert("webui."@ + field =~= "webui"@ + seq!['.'] + field);
    lemma_without_dot("rpc"@);
    lemma_without_dot("webui"@);
    law_sides_are_cut_apart("rpc"@, '.', field);
    law_sides_are_cut_apart("webui"@, '.', field);
    law_cutting_gives_both_sides(key, '.');
    law_cutting_gives_both_sides("vault_path"@, '.');
    assert(!"vault_path"@.contains('.')) by {
        let v = "vault_path"@;
        assert(v =~= seq!['v', 'a', 'u', 'l', 't', '_', 'p', 'a', 't', 'h']);
        if v.contains('.') {
            let k = choose|k: int| 0 <= k < v.len() && v[k] == '.';
            assert(k == 0 || k == 1 || k == 2 || k == 3 || k == 4 || k == 5 || k == 6 || k == 7 || k
                == 8 || k == 9);
        }
    }
}

proof fn lemma_without_dot(s: Seq<char>)
    requires
        s == "rpc"@ || s == "webui"@,
    ensures
        !s.contains('.'),
{
    reveal_strlit("rpc");
    reveal_strlit("webui");
    if s.contains('.') {
        let k = choose|k: int| 0 <= k < s.len() && s[k] == '.';
        assert(k == 0 || k == 1 || k == 2 || k == 3 || k == 4);
    }
}

/// The fields of the web interface have their kinds: two are flags, two are
/// numbers of seconds and two are texts; no other field is accepted.
pub proof fn law_webui_fields_have_their_kinds(field: Seq<char>, value: Seq<char>)
    ensures
        field == "enabled"@ || field == "approval_mode"@ ==> (webui_setting(field, value) matches Ok(
            s,
        ) ==> (s matches SettingView::Flag(b) && flag_of(value) == Ok::<bool, CliErrorView>(b))),
        field == "approval_timeout_secs"@ || field == "session_timeout_secs"@ ==> (webui_setting(
            field,
            value,
        ) is Ok <==> parsed(value, u64::MAX as int) is Some),
        field == "approval_timeout_secs"@ || field == "session_timeout_secs"@ ==> (webui_setting(
            field,
            value,
        ) matches Ok(s) ==> s is Number),
        field == "listen"@ || field == "auto_lock_at"@ ==> webui_setting(field, value) == Ok::<
            SettingView,
            CliErrorView,
        >(SettingView::Text(value)),
        webui_setting(field, value) is Ok ==> field == "enabled"@ || field == "approval_mode"@
            || field == "approval_timeout_secs"@ || field == "session_timeout_secs"@ || field
            == "listen"@ || field == "auto_lock_at"@,
{
    reveal_strlit("enabled");
    reveal_strlit("approval_mode");
    reveal_strlit("approval_timeout_secs");
    reveal_strlit("session_timeout_secs");
    reveal_strlit("listen");
    reveal_strlit("auto_lock_at");
    assert("enabled"@.len() == 7 && "enabled"@[0] == 'e' && "approval_mode"@.len() == 13
        && "approval_mode"@[0] == 'a' && "approval_timeout_secs"@.len() == 21
        && "approval_timeout_secs"@[0] == 'a' && "session_timeout_secs"@.len() == 20
        && "session_timeout_secs"@[0] == 's' && "listen"@.len() == 6 && "listen"@[0] == 'l'
        && "auto_lock_at"@.len() == 12 && "auto_lock_at"@[0] == 'a');
}

/// An endpoint is shown with its address, and as the usual one exactly when it is.
pub proof fn law_endpoints_are_shown(e: Endpoint)
    ensures
        (" "@ + e.url@ + " "@ + "(default)"@).is_suffix_of(endpoint_line(e)) || (" "@ + e.url@
            + " "@ + "(custom)"@).is_suffix_of(endpoint_line(e)),
        (e.default_url matches Some(u) && u@ == e.url@) ==> "(default)"@.is_suffix_of(
            endpoint_line(e),
        ),
        !(e.default_url matches Some(u) && u@ == e.url@) ==> "(custom)"@.is_suffix_of(
            endpoint_line(e),
        ),
        ("  "@ + e.key@).is_prefix_of(endpoint_line(e)),
{
    let t = endpoint_line(e);
    let note = if opt_text(e.default_url) == Some(e.url@) {
        "(default)"@
    } else {
        "(custom)"@
    };
    let tail = " "@ + e.url@ + " "@ + note;
    assert(t.subrange(t.len() - tail.len(), t.len() as int) =~= tail);
    assert(t.subrange(t.len() - note.len(), t.len() as int) =~= note);
    law_padding_adds_spaces_only(e.key@, 40);
    let head = "  "@ + e.key@;
    let padded = pad_right(e.key@, 40);
    assert(padded.take(e.key@.len() as int) =~= e.key@);
    assert forall|i: int| 0 <= i < head.len() implies t[i] == head[i] by {
        if i >= "  "@.len() {
            assert(padded[i - "  "@.len()] == padded.take(e.key@.len() as int)[i - "  "@.len()]);
        }
    }
    assert(t.take(head.len() as int) =~= head);
}

/// A missing configuration and an empty one have no members; one that is no JSON is
/// refused.
pub proof fn law_configurations_are_read(contents: Option<Seq<char>>)
    ensures
        contents is None ==> contents_members(contents) == Ok::<
            Option<Map<Seq<char>, serde_json::Value>>,
            Seq<char>,
        >(Some(Map::empty())),
        contents matches Some(t) ==> (contents_members(contents) is Err <==> json_document(
            t,
        ) is Err),
        (contents matches Some(t) && (json_document(t) matches Ok(d) && json_is_null(d)))
            ==> contents_members(contents) == Ok::<
            Option<Map<Seq<char>, serde_json::Value>>,
            Seq<char>,
        >(Some(Map::empty())),
        (contents matches Some(t) && (json_document(t) matches Ok(d) && !json_is_null(d)))
            ==> contents_members(contents) == Ok::<
            Option<Map<Seq<char>, serde_json::Value>>,
            Seq<char>,
        >(json_members(json_document(contents->0)->Ok_0)),
{
}

/// A written change at the top sets its field and keeps every other one.
pub proof fn law_written_changes_keep_the_rest(
    before: Map<Seq<char>, serde_json::Value>,
    text: Seq<char>,
    change: ChangeView,
)
    requires
        shows_change(before, text, change),
    ensures
        exists|d: serde_json::Value|
            text == #[trigger] json_pretty(d) && (json_members(d) matches Some(m) && (forall|
                k: Seq<char>,
            |
                (change.section is None && k != change.field || change.section is Some && Some(k)
                    != change.section) ==> (m.contains_key(k) <==> before.contains_key(k)) && (
                before.contains_key(k) ==> #[trigger] m[k] == before[k])) && (change.section is None
                ==> m[change.field] == json_of(change.value)) && (change.section matches Some(s) ==> (
            json_members(m[s]) matches Some(x) && x[change.field] == json_of(change.value)))),
{
    let d = choose|d: serde_json::Value|
        text == #[trigger] json_pretty(d) && json_members(d) is Some && applied(
            before,
            json_members(d)->0,
            change,
        );
    assert(text == json_pretty(d));
}

/// What is read of the value in a contract is the value itself, each part under its
/// own name.
pub proof fn law_change_views_keep_each_value(x: Change)
    ensures
        x@.section == opt_text(x.section),
        x@.field == x.field@,
        x@.value == x.value@,
{
}

} // verus!
