//! `sbom`: the list of components, in CycloneDX form.
use vstd::prelude::*;

use crate::error::{invalid, invalid_args, CliError, CliErrorView};
use crate::json::{
    array, empty_object, items, json_bytes_document, json_items, json_members, json_of, json_string,
    member, parse_bytes, setting_value, text_value, with_member, Setting, SettingView,
};
use crate::manifest::{toml_at, toml_document, toml_items, toml_string};
use crate::text::{cut, dec, decimal, lemma_shows, same, shows, split};

verus! {

// ---------------------------------------------------------------------------
// Verification
// ---------------------------------------------------------------------------

/// The member of a document, if it is an object that has it.
pub open spec fn at(v: serde_json::Value, key: Seq<char>) -> Option<serde_json::Value> {
    match json_members(v) {
        Some(m) => if m.contains_key(key) {
            Some(m[key])
        } else {
            None
        },
        None => None,
    }
}

/// The text of a member.
pub open spec fn text_at(v: serde_json::Value, key: Seq<char>) -> Option<Seq<char>> {
    match at(v, key) {
        Some(x) => json_string(x),
        None => None,
    }
}

/// The items of a member.
pub open spec fn items_at(v: serde_json::Value, key: Seq<char>) -> Option<Seq<serde_json::Value>> {
    match at(v, key) {
        Some(x) => json_items(x),
        None => None,
    }
}

fn get_text(v: &serde_json::Value, key: &str) -> (r: Option<String>)
    ensures
        crate::text::opt_text(r) == text_at(*v, key@),
{
    match member(v, key) {
        Some(x) => text_value(&x),
        None => None,
    }
}

/// What is wrong with a component: it needs a name, a version and a source.
pub open spec fn component_fault(c: serde_json::Value, i: int) -> Option<Seq<char>> {
    match text_at(c, "name"@) {
        None => Some("SBOM component["@ + decimal(i) + "] missing `name`"@),
        Some(name) => if text_at(c, "version"@) is None {
            Some(
                "SBOM component \""@ + name + "\" (index "@ + decimal(i) + ") missing `version`"@,
            )
        } else if text_at(c, "purl"@) is None && text_at(c, "cpe"@) is None {
            Some(
                "SBOM component \""@ + name + "\" (index "@ + decimal(i)
                    + ") missing source identifier (`purl` or `cpe`)"@,
            )
        } else {
            None
        },
    }
}

/// What is wrong with the components from position `i` on.
pub open spec fn components_fault(v: Seq<serde_json::Value>, i: int) -> Option<Seq<char>>
    decreases v.len() - i,
{
    if i >= v.len() {
        None
    } else {
        match component_fault(v[i], i) {
            Some(m) => Some(m),
            None => components_fault(v, i + 1),
        }
    }
}

/// What is wrong with a document.
pub open spec fn document_fault(v: serde_json::Value) -> Option<Seq<char>> {
    match text_at(v, "bomFormat"@) {
        None => Some("SBOM missing required field `bomFormat`"@),
        Some(f) => if f != "CycloneDX"@ {
            Some("SBOM `bomFormat` must be \"CycloneDX\", got \""@ + f + "\""@)
        } else {
            match items_at(v, "components"@) {
                None => Some("SBOM missing required field `components` (array)"@),
                Some(cs) => components_fault(cs, 0),
            }
        },
    }
}

/// What is printed of a document in order.
pub open spec fn verified_line(file: Seq<char>, v: serde_json::Value) -> Seq<char> {
    "SBOM verified: "@ + file + " ("@ + (match text_at(v, "specVersion"@) {
        Some(s) => s,
        None => "?"@,
    }) + ") — "@ + decimal(items_at(v, "components"@)->0.len() as int) + " components"@
}

fn check_component(c: &serde_json::Value, i: usize) -> (r: Option<String>)
    ensures
        crate::text::opt_text(r) == component_fault(*c, i as int),
{
    let name = match get_text(c, "name") {
        Some(n) => n,
        None => {
            return Some(
                "SBOM component[".to_owned().concat(dec(i as u128).as_str()).concat(
                    "] missing `name`",
                ),
            );
        },
    };
    if get_text(c, "version").is_none() {
        return Some(
            "SBOM component \"".to_owned().concat(name.as_str()).concat("\" (index ").concat(
                dec(i as u128).as_str(),
            ).concat(") missing `version`"),
        );
    }
    if get_text(c, "purl").is_none() && get_text(c, "cpe").is_none() {
        return Some(
            "SBOM component \"".to_owned().concat(name.as_str()).concat("\" (index ").concat(
                dec(i as u128).as_str(),
            ).concat(") missing source identifier (`purl` or `cpe`)"),
        );
    }
    None
}

/// Checks a document.
pub fn verify_document(file: &str, v: &serde_json::Value) -> (r: Result<String, CliError>)
    ensures
        match document_fault(*v) {
            Some(m) => r matches Err(e) && e@ == CliErrorView::InvalidArgs(m),
            None => r matches Ok(s) && s@ == verified_line(file@, *v),
        },
{
    let format = match get_text(v, "bomFormat") {
        Some(f) => f,
        None => return Err(invalid("SBOM missing required field `bomFormat`")),
    };
    if !same(format.as_str(), "CycloneDX") {
        return Err(
            invalid_args(
                "SBOM `bomFormat` must be \"CycloneDX\", got \"".to_owned().concat(
                    format.as_str(),
                ).concat("\""),
            ),
        );
    }
    let found: Option<Vec<serde_json::Value>> = match member(v, "components") {
        Some(x) => items(&x),
        None => None,
    };
    let cs = match found {
        Some(cs) => cs,
        None => return Err(invalid("SBOM missing required field `components` (array)")),
    };
    let mut i: usize = 0;
    while i < cs.len()
        invariant
            i <= cs@.len(),
            document_fault(*v) == components_fault(cs@, 0),
            components_fault(cs@, 0) == components_fault(cs@, i as int),
        decreases cs@.len() - i,
    {
        if let Some(m) = check_component(&cs[i], i) {
            return Err(invalid_args(m));
        }
        i = i + 1;
    }
    let version = match get_text(v, "specVersion") {
        Some(s) => s,
        None => "?".to_owned(),
    };
    Ok(
        "SBOM verified: ".to_owned().concat(file).concat(" (").concat(version.as_str()).concat(
            ") — ",
        ).concat(dec(cs.len() as u128).as_str()).concat(" components"),
    )
}

/// Checks a file; its content is there when the file is.
pub fn verify(file: &str, content: &Option<Vec<u8>>) -> (r: Result<String, CliError>)
    ensures
        match *content {
            None => r matches Err(e) && e@ == CliErrorView::InvalidArgs(
                "SBOM file not found: "@ + file@,
            ),
            Some(b) => match json_bytes_document(b@) {
                Err(m) => r matches Err(e) && e@ == CliErrorView::Json(m),
                Ok(v) => match document_fault(v) {
                    Some(m) => r matches Err(e) && e@ == CliErrorView::InvalidArgs(m),
                    None => r matches Ok(s) && s@ == verified_line(file@, v),
                },
            },
        },
{
    match content {
        None => Err(invalid_args("SBOM file not found: ".to_owned().concat(file))),
        Some(b) => match parse_bytes(b.as_slice()) {
            Err(m) => Err(CliError::Json(m)),
            Ok(v) => verify_document(file, &v),
        },
    }
}

// ---------------------------------------------------------------------------
// Generation
// ---------------------------------------------------------------------------

/// The value at a path of two keys.
pub open spec fn toml_at2(v: toml::Value, a: Seq<char>, b: Seq<char>) -> Option<toml::Value> {
    match toml_at(v, a) {
        Some(x) => toml_at(x, b),
        None => None,
    }
}

/// The version of a workspace.
pub open spec fn workspace_version(doc: toml::Value) -> Seq<char> {
    let found = match toml_at2(doc, "workspace"@, "package"@) {
        Some(p) => match toml_at(p, "version"@) {
            Some(v) => toml_string(v),
            None => None,
        },
        None => None,
    };
    match found {
        Some(s) => s,
        None => "0.0.0"@,
    }
}

/// The members of a workspace.
pub open spec fn workspace_members(doc: toml::Value) -> Seq<toml::Value> {
    let found = match toml_at2(doc, "workspace"@, "members"@) {
        Some(m) => toml_items(m),
        None => None,
    };
    match found {
        Some(v) => v,
        None => Seq::empty(),
    }
}

/// The name of a member: the last segment of its path.
pub open spec fn crate_name(m: toml::Value) -> Seq<char> {
    split(
        match toml_string(m) {
            Some(s) => s,
            None => Seq::empty(),
        },
        '/',
    ).last()
}

/// A document that is the given text.
pub open spec fn is_text(v: serde_json::Value, s: Seq<char>) -> bool {
    v == json_of(SettingView::Text(s)) && json_string(v) == Some(s)
}

/// `v` is the component of a crate.
pub open spec fn is_component(v: serde_json::Value, name: Seq<char>, version: Seq<char>) -> bool {
    &&& json_members(v) matches Some(m)
    &&& m.dom() == set!["type"@, "name"@, "version"@, "purl"@]
    &&& is_text(m["type"@], "library"@)
    &&& is_text(m["name"@], name)
    &&& is_text(m["version"@], version)
    &&& is_text(m["purl"@], "pkg:cargo/"@ + name + "@"@ + version)
}

/// `v` describes the program itself.
pub open spec fn is_metadata(v: serde_json::Value, version: Seq<char>) -> bool {
    &&& json_members(v) matches Some(outer)
    &&& outer.dom() == set!["component"@]
    &&& json_members(outer["component"@]) matches Some(m)
    &&& m.dom() == set!["type"@, "name"@, "version"@]
    &&& is_text(m["type"@], "application"@)
    &&& is_text(m["name"@], "onecipher"@)
    &&& is_text(m["version"@], version)
}

/// `v` is the list of components of a workspace.
pub open spec fn is_sbom(v: serde_json::Value, doc: toml::Value) -> bool {
    let members = workspace_members(doc);
    let version = workspace_version(doc);
    &&& json_members(v) matches Some(m)
    &&& m.dom() == set!["bomFormat"@, "specVersion"@, "version"@, "metadata"@, "components"@]
    &&& is_text(m["bomFormat"@], "CycloneDX"@)
    &&& is_text(m["specVersion"@], "1.5"@)
    &&& m["version"@] == json_of(SettingView::Number(1))
    &&& is_metadata(m["metadata"@], version)
    &&& json_items(m["components"@]) matches Some(cs)
    &&& cs.len() == members.len()
    &&& forall|i: int|
        0 <= i < cs.len() ==> is_component(#[trigger] cs[i], crate_name(members[i]), version)
}

fn text(s: &str) -> (v: serde_json::Value)
    ensures
        is_text(v, s@),
{
    setting_value(Setting::Text(s.to_owned()))
}

proof fn lemma_component_keys()
    ensures
        "type"@ != "name"@,
        "type"@ != "version"@,
        "type"@ != "purl"@,
        "name"@ != "version"@,
        "name"@ != "purl"@,
        "version"@ != "purl"@,
{
    reveal_strlit("type");
    reveal_strlit("name");
    reveal_strlit("version");
    reveal_strlit("purl");
    assert("type"@[0] == 't');
    assert("name"@[0] == 'n');
    assert("version"@[0] == 'v');
    assert("purl"@[0] == 'p');
}

fn component(name: &str, version: &str) -> (v: serde_json::Value)
    ensures
        is_component(v, name@, version@),
{
    let doc = empty_object();
    let doc = with_member(doc, "type", text("library"));
    let doc = with_member(doc, "name", text(name));
    let doc = with_member(doc, "version", text(version));
    let purl = "pkg:cargo/".to_owned().concat(name).concat("@").concat(version);
    let doc = with_member(doc, "purl", text(purl.as_str()));
    proof {
        lemma_component_keys();
        assert(json_members(doc)->0.dom() =~= set!["type"@, "name"@, "version"@, "purl"@]);
    }
    doc
}

fn metadata(version: &str) -> (v: serde_json::Value)
    ensures
        is_metadata(v, version@),
{
    let inner = empty_object();
    let inner = with_member(inner, "type", text("application"));
    let inner = with_member(inner, "name", text("onecipher"));
    let inner = with_member(inner, "version", text(version));
    proof {
        lemma_component_keys();
        assert(json_members(inner)->0.dom() =~= set!["type"@, "name"@, "version"@]);
    }
    let outer = with_member(empty_object(), "component", inner);
    assert(json_members(outer)->0.dom() =~= set!["component"@]);
    outer
}

fn toml_member2(v: &toml::Value, a: &str, b: &str) -> (r: Option<toml::Value>)
    ensures
        r == toml_at2(*v, a@, b@),
{
    match crate::manifest::member(v, a) {
        Some(x) => crate::manifest::member(&x, b),
        None => None,
    }
}

fn version_of(doc: &toml::Value) -> (r: String)
    ensures
        r@ == workspace_version(*doc),
{
    let found: Option<String> = match toml_member2(doc, "workspace", "package") {
        Some(p) => match crate::manifest::member(&p, "version") {
            Some(v) => crate::manifest::text_value(&v),
            None => None,
        },
        None => None,
    };
    match found {
        Some(s) => s,
        None => "0.0.0".to_owned(),
    }
}

fn last_segment(m: &toml::Value) -> (r: String)
    ensures
        r@ == crate_name(*m),
{
    let path = match crate::manifest::text_value(m) {
        Some(s) => s,
        None => String::new(),
    };
    let parts = cut(path.as_str(), '/');
    assert(crate::text::texts(parts@).last() == parts@[parts@.len() - 1]@);
    parts[parts.len() - 1].clone()
}

/// The list of components of the workspace whose manifest is given.
pub fn generate(manifest: &str) -> (r: Result<serde_json::Value, CliError>)
    ensures
        match toml_document(manifest@) {
            Err(m) => r matches Err(e) && e@ == CliErrorView::InvalidArgs("Cargo.toml: "@ + m),
            Ok(doc) => r matches Ok(v) && is_sbom(v, doc),
        },
{
    let doc = match crate::manifest::parse(manifest) {
        Ok(d) => d,
        Err(m) => {
            return Err(invalid_args("Cargo.toml: ".to_owned().concat(m.as_str())));
        },
    };
    let version = version_of(&doc);
    let found: Option<Vec<toml::Value>> = match toml_member2(&doc, "workspace", "members") {
        Some(m) => crate::manifest::items(&m),
        None => None,
    };
    let members: Vec<toml::Value> = match found {
        Some(v) => v,
        None => Vec::new(),
    };
    assert(members@ =~= workspace_members(doc));
    let mut cs: Vec<serde_json::Value> = Vec::new();
    let mut i: usize = 0;
    while i < members.len()
        invariant
            i <= members@.len(),
            members@ == workspace_members(doc),
            version@ == workspace_version(doc),
            cs@.len() == i,
            forall|k: int|
                0 <= k < i ==> is_component(#[trigger] cs@[k], crate_name(members@[k]), version@),
        decreases members@.len() - i,
    {
        let name = last_segment(&members[i]);
        cs.push(component(name.as_str(), version.as_str()));
        i = i + 1;
    }
    let out = with_member(empty_object(), "bomFormat", text("CycloneDX"));
    let out = with_member(out, "specVersion", text("1.5"));
    let out = with_member(out, "version", setting_value(Setting::Number(1)));
    let out = with_member(out, "metadata", metadata(version.as_str()));
    let out = with_member(out, "components", array(cs));
    proof {
        reveal_strlit("bomFormat");
        reveal_strlit("specVersion");
        reveal_strlit("version");
        reveal_strlit("metadata");
        reveal_strlit("components");
        assert("bomFormat"@[0] == 'b');
        assert("specVersion"@[0] == 's');
        assert("version"@[0] == 'v');
        assert("metadata"@[0] == 'm');
        assert("components"@[0] == 'c');
        assert(json_members(out)->0.dom() =~= set![
            "bomFormat"@,
            "specVersion"@,
            "version"@,
            "metadata"@,
            "components"@,
        ]);
    }
    Ok(out)
}

/// What is printed when the list was written.
pub fn generated_message(output: &str, components: usize) -> (r: String)
    ensures
        r@ == "Minimal SBOM generated: "@ + output@ + " ("@ + decimal(components as int)
            + " components)"@,
{
    "Minimal SBOM generated: ".to_owned().concat(output).concat(" (").concat(
        dec(components as u128).as_str(),
    ).concat(" components)")
}

/// What is tried, in order, to write the list.
#[derive(Clone, Copy, Debug, PartialEq, Eq, Structural)]
pub enum Generator {
    /// The tool wrote it.
    Tool,
    /// The tool failed, so the minimal list is written after a warning.
    AfterFailure,
    /// There is no tool, so the minimal list is written.
    Minimal,
}

/// How the list is written; `ran` is whether the tool succeeded, where there
/// is one.
pub fn choose_generator(ran: Option<bool>) -> (g: Generator)
    ensures
        g == match ran {
            None => Generator::Minimal,
            Some(true) => Generator::Tool,
            Some(false) => Generator::AfterFailure,
        },
{
    match ran {
        None => Generator::Minimal,
        Some(ok) => {
            if ok {
                Generator::Tool
            } else {
                Generator::AfterFailure
            }
        },
    }
}

proof fn lemma_components_pass(cs: Seq<serde_json::Value>, doc: toml::Value, i: int)
    requires
        0 <= i <= cs.len(),
        cs.len() == workspace_members(doc).len(),
        forall|k: int|
            0 <= k < cs.len() ==> is_component(
                #[trigger] cs[k],
                crate_name(workspace_members(doc)[k]),
                workspace_version(doc),
            ),
    ensures
        components_fault(cs, i) is None,
    decreases cs.len() - i,
{
    if i < cs.len() {
        lemma_components_pass(cs, doc, i + 1);
        let c = cs[i];
        assert(is_component(c, crate_name(workspace_members(doc)[i]), workspace_version(doc)));
        let m = json_members(c)->0;
        assert(m.dom().contains("name"@));
        assert(m.dom().contains("version"@));
        assert(m.dom().contains("purl"@));
    }
}

/// A list that was generated passes its own verification.
pub proof fn law_generated_lists_verify(v: serde_json::Value, doc: toml::Value)
    requires
        is_sbom(v, doc),
    ensures
        document_fault(v) is None,
{
    let m = json_members(v)->0;
    assert(m.dom().contains("bomFormat"@));
    assert(m.dom().contains("components"@));
    let cs = json_items(m["components"@])->0;
    lemma_components_pass(cs, doc, 0);
}

/// A component is good exactly when it has a name, a version and a source
/// identifier; a list is good exactly when all its components are; and a document
/// exactly when it says CycloneDX and has a good list.
pub proof fn law_good_documents(v: serde_json::Value, c: serde_json::Value, i: int)
    ensures
        component_fault(c, i) is None <==> text_at(c, "name"@) is Some && text_at(
            c,
            "version"@,
        ) is Some && (text_at(c, "purl"@) is Some || text_at(c, "cpe"@) is Some),
        document_fault(v) is None <==> text_at(v, "bomFormat"@) == Some("CycloneDX"@) && (items_at(
            v,
            "components"@,
        ) matches Some(cs) && (forall|k: int|
            0 <= k < cs.len() ==> component_fault(#[trigger] cs[k], k) is None)),
{
    if let Some(cs) = items_at(v, "components"@) {
        lemma_components_fault(cs, 0);
    }
}

proof fn lemma_components_fault(v: Seq<serde_json::Value>, i: int)
    requires
        0 <= i,
    ensures
        components_fault(v, i) is None <==> forall|k: int|
            i <= k < v.len() ==> component_fault(#[trigger] v[k], k) is None,
    decreases v.len() - i,
{
    if i < v.len() {
        lemma_components_fault(v, i + 1);
    }
}

/// A generated list names each member of the workspace once, in its order, with
/// the version of the workspace and an identifier made of the two.
pub proof fn law_generated_lists_name_the_members(
    v: serde_json::Value,
    doc: toml::Value,
    i: int,
)
    requires
        is_sbom(v, doc),
        0 <= i < workspace_members(doc).len(),
    ensures
        text_at(v, "bomFormat"@) == Some("CycloneDX"@),
        items_at(v, "components"@) matches Some(cs) && cs.len() == workspace_members(doc).len()
            && text_at(cs[i], "name"@) == Some(crate_name(workspace_members(doc)[i])) && text_at(
            cs[i],
            "version"@,
        ) == Some(workspace_version(doc)) && text_at(cs[i], "purl"@) == Some(
            "pkg:cargo/"@ + crate_name(workspace_members(doc)[i]) + "@"@ + workspace_version(doc),
        ),
{
    let cs = items_at(v, "components"@)->0;
    assert(is_component(cs[i], crate_name(workspace_members(doc)[i]), workspace_version(doc)));
}

/// A verified list is reported by its file, its version and the number of its
/// components.
pub proof fn law_verified_lists_are_reported(file: Seq<char>, v: serde_json::Value)
    ensures
        shows(verified_line(file, v), "SBOM verified: "@, file),
        text_at(v, "specVersion"@) matches Some(s) ==> shows(verified_line(file, v), " ("@, s),
        items_at(v, "components"@) matches Some(c) ==> shows(
            verified_line(file, v),
            ") — "@,
            decimal(c.len() as int),
        ),
{
    let t = verified_line(file, v);
    let s = match text_at(v, "specVersion"@) {
        Some(s) => s,
        None => "?"@,
    };
    let n = decimal(items_at(v, "components"@)->0.len() as int);
    assert(shows(t, "SBOM verified: "@, file)) by {
        let a = Seq::<char>::empty();
        let b = " ("@ + s + ") — "@ + n + " components"@;
        lemma_shows(a, "SBOM verified: "@, file, b);
        assert(t =~= a + "SBOM verified: "@ + file + b);
    }
    assert(shows(t, " ("@, s)) by {
        let a = "SBOM verified: "@ + file;
        let b = ") — "@ + n + " components"@;
        lemma_shows(a, " ("@, s, b);
        assert(t =~= a + " ("@ + s + b);
    }
    assert(shows(t, ") — "@, n)) by {
        let a = "SBOM verified: "@ + file + " ("@ + s;
        let b = " components"@;
        lemma_shows(a, ") — "@, n, b);
        assert(t =~= a + ") — "@ + n + b);
    }
}

/// A generated list describes the program itself by its name and the version of the
/// workspace.
pub proof fn law_generated_lists_describe_the_program(v: serde_json::Value, doc: toml::Value)
    requires
        is_sbom(v, doc),
    ensures
        text_at(v, "specVersion"@) == Some("1.5"@),
        json_members(v) matches Some(m) && (json_members(m["metadata"@]) matches Some(o) && text_at(
            o["component"@],
            "name"@,
        ) == Some("onecipher"@) && text_at(o["component"@], "type"@) == Some("application"@)
            && text_at(o["component"@], "version"@) == Some(workspace_version(doc))),
{
}

} // verus!
