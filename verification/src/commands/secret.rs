//! `secret`: the items of the secret store.
use vstd::prelude::*;

use crate::commands::{ItemType, SecretMetadata};
use crate::error::{invalid, invalid_args, CliError, CliErrorView, IoFault};
use crate::json::{compact, json_compact, json_document, json_pretty, parse, pretty};
use crate::output::{gate_refusal, require_force};
use crate::text::{
    dec, decimal, index_or_len, is_space, join, joined, lemma_shows_behind,
    lemma_shows_first, lemma_shows_last, lemma_shows_more, lemma_shows_more4, lines, lines_of,
    opt_text, same, shows, strip_cr, strip_prefix, texts, trim, trim_end, trim_start, trimmed,
    without_prefix,
};

verus! {

/// The decrypted content of an item.
#[derive(Debug)]
pub struct SecretPayload {
    pub secret: String,
    pub notes: Option<String>,
    pub extra: Option<serde_json::Value>,
}

/// [`SecretPayload`] with its texts as sequences of characters.
pub struct PayloadView {
    pub secret: Seq<char>,
    pub notes: Option<Seq<char>>,
    pub extra: Option<serde_json::Value>,
}

impl View for SecretPayload {
    type V = PayloadView;

    open spec fn view(&self) -> PayloadView {
        PayloadView { secret: self.secret@, notes: opt_text(self.notes), extra: self.extra }
    }
}

// ---------------------------------------------------------------------------
// Disclosure
// ---------------------------------------------------------------------------

/// A labelled line, if there is a value.
pub open spec fn label_line(label: Seq<char>, o: Option<Seq<char>>) -> Seq<char> {
    match o {
        Some(s) => label + s + "\n"@,
        None => Seq::empty(),
    }
}

fn show_label_line(label: &str, o: &Option<String>) -> (r: String)
    ensures
        r@ == label_line(label@, opt_text(*o)),
{
    match o {
        Some(s) => label.to_owned().concat(s.as_str()).concat("\n"),
        None => String::new(),
    }
}

/// The indented text of the extra data.
pub open spec fn extra_text(extra: Option<serde_json::Value>) -> Option<Seq<char>> {
    match extra {
        Some(v) => Some(json_pretty(v)),
        None => None,
    }
}

/// The labelled view of an item, with its material in the clear.
pub open spec fn disclosure(
    name: Seq<char>,
    item_type: Seq<char>,
    kind: Seq<char>,
    payload: PayloadView,
) -> Seq<char> {
    "Name:      "@ + name + "\n"@ + "Type:      "@ + item_type + "\n"@ + "Kind:      "@ + kind
        + "\n"@ + "Secret:    "@ + payload.secret + "\n"@ + label_line(
        "Notes:     "@,
        payload.notes,
    ) + label_line("Extra:     "@, extra_text(payload.extra))
}

/// The labelled view of an item; `item_type` and `kind` are the names of its
/// type and kind.
pub fn render_disclosure(name: &str, item_type: &str, kind: &str, payload: &SecretPayload) -> (r:
    String)
    ensures
        r@ == disclosure(name@, item_type@, kind@, payload@),
{
    let extra: Option<String> = match &payload.extra {
        Some(v) => Some(pretty(v)),
        None => None,
    };
    "Name:      ".to_owned().concat(name).concat("\n").concat("Type:      ").concat(
        item_type,
    ).concat("\n").concat("Kind:      ").concat(kind).concat("\n").concat("Secret:    ").concat(
        payload.secret.as_str(),
    ).concat("\n").concat(show_label_line("Notes:     ", &payload.notes).as_str()).concat(
        show_label_line("Extra:     ", &extra).as_str(),
    )
}

/// An item as it is read: what names it, its content, and its metadata as
/// JSON text.
#[derive(Debug)]
pub struct OpenedSecret {
    pub name: String,
    pub item_type: String,
    pub kind: String,
    pub payload: SecretPayload,
    pub metadata: String,
}

/// What a read does with the item.
#[derive(Debug)]
pub enum Disclosure {
    /// Copy the text to the clipboard.
    Copy(String),
    /// Draw the text as a QR code.
    Qr(String),
    /// Print the whole item as a JSON object.
    Envelope,
    /// Print the text.
    Print(String),
    /// Do nothing.
    Nothing,
}

/// [`Disclosure`] with its texts as sequences of characters.
pub enum DisclosureView {
    Copy(Seq<char>),
    Qr(Seq<char>),
    Envelope,
    Print(Seq<char>),
    Nothing,
}

impl View for Disclosure {
    type V = DisclosureView;

    open spec fn view(&self) -> DisclosureView {
        match *self {
            Disclosure::Copy(s) => DisclosureView::Copy(s@),
            Disclosure::Qr(s) => DisclosureView::Qr(s@),
            Disclosure::Envelope => DisclosureView::Envelope,
            Disclosure::Print(s) => DisclosureView::Print(s@),
            Disclosure::Nothing => DisclosureView::Nothing,
        }
    }
}

impl Disclosure {
    /// Every read that discloses something is logged, however it does so.
    pub fn is_logged(&self) -> (r: bool)
        ensures
            r == !(self is Nothing),
    {
        match self {
            Disclosure::Nothing => false,
            _ => true,
        }
    }
}

/// How an item is read.
#[derive(Debug)]
pub struct GetRequest {
    pub field: Option<String>,
    pub json: bool,
    pub qr: bool,
    pub copy: bool,
}

/// The refusal of a field that an item does not have.
pub open spec fn unknown_field(field: Seq<char>) -> CliErrorView {
    CliErrorView::InvalidArgs(
        "unknown field '"@ + field + "' (expected: secret, notes, metadata)"@,
    )
}

fn unknown_field_error(field: &str) -> (e: CliError)
    ensures
        e@ == unknown_field(field@),
{
    invalid_args(
        "unknown field '".to_owned().concat(field).concat(
            "' (expected: secret, notes, metadata)",
        ),
    )
}

/// The text of the notes; empty if there are none.
pub open spec fn notes_text(notes: Option<Seq<char>>) -> Seq<char> {
    match notes {
        Some(n) => n,
        None => Seq::empty(),
    }
}

/// A field of an item that a read asked for.
pub open spec fn copied(item: OpenedSecret, field: Option<Seq<char>>) -> Result<
    DisclosureView,
    CliErrorView,
> {
    match field {
        None => Ok(DisclosureView::Copy(item.payload.secret@)),
        Some(f) => if f == "secret"@ {
            Ok(DisclosureView::Copy(item.payload.secret@))
        } else if f == "notes"@ {
            Ok(DisclosureView::Copy(notes_text(opt_text(item.payload.notes))))
        } else {
            Err(unknown_field(f))
        },
    }
}

/// What is drawn of an item; absent notes are drawn as nothing at all.
pub open spec fn drawn(item: OpenedSecret, field: Option<Seq<char>>) -> Result<
    DisclosureView,
    CliErrorView,
> {
    match field {
        None => Ok(DisclosureView::Qr(item.payload.secret@)),
        Some(f) => if f == "secret"@ {
            Ok(DisclosureView::Qr(item.payload.secret@))
        } else if f == "notes"@ {
            match item.payload.notes {
                Some(n) => Ok(DisclosureView::Qr(n@)),
                None => Ok(DisclosureView::Nothing),
            }
        } else if f == "metadata"@ {
            Ok(DisclosureView::Qr(item.metadata@))
        } else {
            Err(unknown_field(f))
        },
    }
}

/// What is printed of an item.
pub open spec fn printed(item: OpenedSecret, field: Option<Seq<char>>) -> Result<
    DisclosureView,
    CliErrorView,
> {
    match field {
        None => Ok(
            DisclosureView::Print(
                disclosure(item.name@, item.item_type@, item.kind@, item.payload@),
            ),
        ),
        Some(f) => if f == "secret"@ {
            Ok(DisclosureView::Print(item.payload.secret@ + "\n"@))
        } else if f == "notes"@ {
            Ok(DisclosureView::Print(notes_text(opt_text(item.payload.notes)) + "\n"@))
        } else if f == "metadata"@ {
            Ok(DisclosureView::Print(item.metadata@ + "\n"@))
        } else {
            Err(unknown_field(f))
        },
    }
}

/// What a read does. Copying goes before drawing, drawing before JSON, and
/// JSON before text; JSON always shows the whole item.
pub open spec fn disclosed(item: OpenedSecret, req: GetRequest) -> Result<
    DisclosureView,
    CliErrorView,
> {
    let field = opt_text(req.field);
    if req.copy {
        copied(item, field)
    } else if req.qr {
        drawn(item, field)
    } else if req.json {
        Ok(DisclosureView::Envelope)
    } else {
        printed(item, field)
    }
}

/// The result of a read over its view.
pub open spec fn disclosure_result(r: Result<Disclosure, CliError>) -> Result<
    DisclosureView,
    CliErrorView,
> {
    match r {
        Ok(d) => Ok(d@),
        Err(e) => Err(e@),
    }
}

fn notes_or_empty(notes: &Option<String>) -> (r: String)
    ensures
        r@ == notes_text(opt_text(*notes)),
{
    match notes {
        Some(n) => n.clone(),
        None => String::new(),
    }
}

/// What `secret get` does with an item.
pub fn get(item: &OpenedSecret, req: &GetRequest) -> (r: Result<Disclosure, CliError>)
    ensures
        disclosure_result(r) == disclosed(*item, *req),
{
    if req.copy {
        return match &req.field {
            None => Ok(Disclosure::Copy(item.payload.secret.clone())),
            Some(f) => {
                if same(f.as_str(), "secret") {
                    Ok(Disclosure::Copy(item.payload.secret.clone()))
                } else if same(f.as_str(), "notes") {
                    Ok(Disclosure::Copy(notes_or_empty(&item.payload.notes)))
                } else {
                    Err(unknown_field_error(f.as_str()))
                }
            },
        };
    }
    if req.qr {
        return match &req.field {
            None => Ok(Disclosure::Qr(item.payload.secret.clone())),
            Some(f) => {
                if same(f.as_str(), "secret") {
                    Ok(Disclosure::Qr(item.payload.secret.clone()))
                } else if same(f.as_str(), "notes") {
                    match &item.payload.notes {
                        Some(n) => Ok(Disclosure::Qr(n.clone())),
                        None => Ok(Disclosure::Nothing),
                    }
                } else if same(f.as_str(), "metadata") {
                    Ok(Disclosure::Qr(item.metadata.clone()))
                } else {
                    Err(unknown_field_error(f.as_str()))
                }
            },
        };
    }
    if req.json {
        return Ok(Disclosure::Envelope);
    }
    match &req.field {
        None => Ok(
            Disclosure::Print(
                render_disclosure(
                    item.name.as_str(),
                    item.item_type.as_str(),
                    item.kind.as_str(),
                    &item.payload,
                ),
            ),
        ),
        Some(f) => {
            if same(f.as_str(), "secret") {
                Ok(Disclosure::Print(item.payload.secret.clone().concat("\n")))
            } else if same(f.as_str(), "notes") {
                Ok(Disclosure::Print(notes_or_empty(&item.payload.notes).concat("\n")))
            } else if same(f.as_str(), "metadata") {
                Ok(Disclosure::Print(item.metadata.clone().concat("\n")))
            } else {
                Err(unknown_field_error(f.as_str()))
            }
        },
    }
}

/// A read that could not decrypt.
pub fn decryption_failed(message: &str) -> (e: CliError)
    ensures
        e@ == CliErrorView::InvalidArgs("decryption failed: "@ + message@),
{
    invalid_args("decryption failed: ".to_owned().concat(message))
}

// ---------------------------------------------------------------------------
// Listing
// ---------------------------------------------------------------------------

/// An item of the index: nothing of its secret.
#[derive(Debug)]
pub struct IndexEntry {
    pub name: String,
    pub item_type: ItemType,
    pub type_label: String,
    pub id: String,
    pub created_at: String,
    pub updated_at: String,
    pub metadata: SecretMetadata,
}

/// An item is listed: it has the type that was asked for, if one was.
pub open spec fn is_listed(e: IndexEntry, filter: Option<ItemType>) -> bool {
    filter is None || filter == Some(e.item_type)
}

/// The positions of the listed items.
pub open spec fn listed(entries: Seq<IndexEntry>, filter: Option<ItemType>) -> Seq<usize>
    decreases entries.len(),
{
    if entries.len() == 0 {
        Seq::empty()
    } else {
        let rest = listed(entries.drop_last(), filter);
        if is_listed(entries.last(), filter) {
            rest.push((entries.len() - 1) as usize)
        } else {
            rest
        }
    }
}

/// The positions of the listed items, in their order.
pub fn list(entries: &Vec<IndexEntry>, filter: Option<ItemType>) -> (r: Vec<usize>)
    ensures
        r@ == listed(entries@, filter),
{
    let mut out: Vec<usize> = Vec::new();
    let mut i: usize = 0;
    assert(entries@.take(0) =~= Seq::<IndexEntry>::empty());
    while i < entries.len()
        invariant
            i <= entries@.len(),
            out@ == listed(entries@.take(i as int), filter),
        decreases entries@.len() - i,
    {
        assert(entries@.take(i + 1).drop_last() =~= entries@.take(i as int));
        let keep = match filter {
            None => true,
            Some(t) => t == entries[i].item_type,
        };
        if keep {
            out.push(i);
        }
        i = i + 1;
    }
    assert(entries@.take(i as int) =~= entries@);
    out
}

/// The tags of an item, if it has any.
pub open spec fn tags_text(tags: Seq<Seq<char>>) -> Option<Seq<char>> {
    if tags.len() == 0 {
        None
    } else {
        Some(join(tags, ", "@))
    }
}

/// An item as it is shown without its secret.
pub open spec fn index_text(e: IndexEntry) -> Seq<char> {
    "Name:      "@ + e.name@ + "\n"@ + "Type:      "@ + e.type_label@ + "\n"@ + "ID:        "@
        + e.id@ + "\n"@ + "Created:   "@ + e.created_at@ + "\n"@ + "Updated:   "@ + e.updated_at@
        + "\n"@ + label_line("URL:       "@, opt_text(e.metadata.url)) + label_line(
        "Username:  "@,
        opt_text(e.metadata.username),
    ) + label_line("Issuer:    "@, opt_text(e.metadata.issuer)) + label_line(
        "Account:   "@,
        opt_text(e.metadata.account),
    ) + label_line("Tags:      "@, tags_text(texts(e.metadata.tags@)))
}

/// An item as it is shown without its secret.
pub fn print_index_entry(e: &IndexEntry) -> (r: String)
    ensures
        r@ == index_text(*e),
{
    let tags: Option<String> = if e.metadata.tags.len() == 0 {
        None
    } else {
        Some(joined(&e.metadata.tags, ", "))
    };
    "Name:      ".to_owned().concat(e.name.as_str()).concat("\n").concat("Type:      ").concat(
        e.type_label.as_str(),
    ).concat("\n").concat("ID:        ").concat(e.id.as_str()).concat("\n").concat(
        "Created:   ",
    ).concat(e.created_at.as_str()).concat("\n").concat("Updated:   ").concat(
        e.updated_at.as_str(),
    ).concat("\n").concat(show_label_line("URL:       ", &e.metadata.url).as_str()).concat(
        show_label_line("Username:  ", &e.metadata.username).as_str(),
    ).concat(show_label_line("Issuer:    ", &e.metadata.issuer).as_str()).concat(
        show_label_line("Account:   ", &e.metadata.account).as_str(),
    ).concat(show_label_line("Tags:      ", &tags).as_str())
}

/// The texts of the listed items, each with an empty line behind it.
pub open spec fn listed_text(entries: Seq<IndexEntry>, filter: Option<ItemType>) -> Seq<char>
    decreases entries.len(),
{
    if entries.len() == 0 {
        Seq::empty()
    } else {
        let rest = listed_text(entries.drop_last(), filter);
        if is_listed(entries.last(), filter) {
            rest + index_text(entries.last()) + "\n"@
        } else {
            rest
        }
    }
}

/// What `secret list` prints.
pub fn list_text(entries: &Vec<IndexEntry>, filter: Option<ItemType>) -> (r: String)
    ensures
        r@ == if listed(entries@, filter).len() == 0 {
            "No secrets found.\n"@
        } else {
            listed_text(entries@, filter)
        },
{
    let mut out = String::new();
    let mut any = false;
    let mut i: usize = 0;
    assert(entries@.take(0) =~= Seq::<IndexEntry>::empty());
    while i < entries.len()
        invariant
            i <= entries@.len(),
            out@ == listed_text(entries@.take(i as int), filter),
            any == (listed(entries@.take(i as int), filter).len() > 0),
        decreases entries@.len() - i,
    {
        assert(entries@.take(i + 1).drop_last() =~= entries@.take(i as int));
        let keep = match filter {
            None => true,
            Some(t) => t == entries[i].item_type,
        };
        if keep {
            out = out.concat(print_index_entry(&entries[i]).as_str()).concat("\n");
            any = true;
        }
        i = i + 1;
    }
    assert(entries@.take(i as int) =~= entries@);
    if !any {
        return "No secrets found.\n".to_owned();
    }
    out
}

// ---------------------------------------------------------------------------
// Changes
// ---------------------------------------------------------------------------

/// What a change is logged as.
#[derive(Clone, Copy, Debug, PartialEq, Eq, Structural)]
pub enum SecretOp {
    Create,
    Update,
    Delete,
    Rename,
    Copy,
}

/// A change that was made: what is logged of it, and what is printed.
#[derive(Debug)]
pub struct Done {
    pub op: SecretOp,
    pub subject: String,
    pub details: Option<String>,
    pub message: String,
}

/// `d` logs and prints as given.
pub open spec fn is_done(
    d: Done,
    op: SecretOp,
    subject: Seq<char>,
    details: Option<Seq<char>>,
    message: Seq<char>,
) -> bool {
    &&& d.op == op
    &&& d.subject@ == subject
    &&& opt_text(d.details) == details
    &&& d.message@ == message
}

/// An item was added.
pub fn added(name: &str) -> (d: Done)
    ensures
        is_done(d, SecretOp::Create, name@, None, "Secret added: "@ + name@),
{
    Done {
        op: SecretOp::Create,
        subject: name.to_owned(),
        details: None,
        message: "Secret added: ".to_owned().concat(name),
    }
}

/// An item was updated or edited.
pub fn updated(name: &str) -> (d: Done)
    ensures
        is_done(d, SecretOp::Update, name@, None, "Secret updated: "@ + name@),
{
    Done {
        op: SecretOp::Update,
        subject: name.to_owned(),
        details: None,
        message: "Secret updated: ".to_owned().concat(name),
    }
}

/// Deleting an item, which cannot be undone and has to be forced.
pub fn delete(name: &str, force: bool) -> (r: Result<Done, CliError>)
    ensures
        match r {
            Ok(d) => force && is_done(
                d,
                SecretOp::Delete,
                name@,
                None,
                "Secret deleted: "@ + name@,
            ),
            Err(e) => !force && e@ == gate_refusal(
                "delete secret '"@ + name@ + "'"@,
                "--force"@,
            ),
        },
{
    match require_force(force, "delete secret '".to_owned().concat(name).concat("'").as_str()) {
        Ok(_) => {},
        Err(e) => return Err(e),
    }
    Ok(
        Done {
            op: SecretOp::Delete,
            subject: name.to_owned(),
            details: None,
            message: "Secret deleted: ".to_owned().concat(name),
        },
    )
}

/// An item got another name.
pub fn rename(old_name: &str, new_name: &str) -> (d: Done)
    ensures
        is_done(
            d,
            SecretOp::Rename,
            new_name@,
            Some("from="@ + old_name@),
            "Secret renamed: '"@ + old_name@ + "' -> '"@ + new_name@ + "'"@,
        ),
{
    Done {
        op: SecretOp::Rename,
        subject: new_name.to_owned(),
        details: Some("from=".to_owned().concat(old_name)),
        message: "Secret renamed: '".to_owned().concat(old_name).concat("' -> '").concat(
            new_name,
        ).concat("'"),
    }
}

/// An item was copied to another name.
pub fn copy(src: &str, dst: &str) -> (d: Done)
    ensures
        is_done(
            d,
            SecretOp::Copy,
            dst@,
            Some("from="@ + src@),
            "Secret copied: '"@ + src@ + "' -> '"@ + dst@ + "'"@,
        ),
{
    Done {
        op: SecretOp::Copy,
        subject: dst.to_owned(),
        details: Some("from=".to_owned().concat(src)),
        message: "Secret copied: '".to_owned().concat(src).concat("' -> '").concat(dst).concat(
            "'",
        ),
    }
}

/// How an item is moved: renamed in place, or, to overwrite an existing one,
/// copied over it and deleted.
#[derive(Debug)]
pub enum Move {
    Rename { done: Done },
    CopyThenDelete { copied: Done, done: Done },
}

/// Moving an item; only a forced move overwrites.
pub fn mv(src: &str, dst: &str, force: bool) -> (m: Move)
    ensures
        match m {
            Move::Rename { done } => !force && is_done(
                done,
                SecretOp::Rename,
                dst@,
                Some("from="@ + src@),
                "Secret moved: '"@ + src@ + "' -> '"@ + dst@ + "'"@,
            ),
            Move::CopyThenDelete { copied, done } => force && is_done(
                copied,
                SecretOp::Copy,
                dst@,
                Some("from="@ + src@),
                "Secret copied: '"@ + src@ + "' -> '"@ + dst@ + "'"@,
            ) && is_done(
                done,
                SecretOp::Rename,
                dst@,
                Some("from="@ + src@ + " (force)"@),
                "Secret moved: '"@ + src@ + "' -> '"@ + dst@ + "'"@,
            ),
        },
{
    let message = "Secret moved: '".to_owned().concat(src).concat("' -> '").concat(dst).concat(
        "'",
    );
    let from = "from=".to_owned().concat(src);
    if !force {
        return Move::Rename {
            done: Done {
                op: SecretOp::Rename,
                subject: dst.to_owned(),
                details: Some(from),
                message,
            },
        };
    }
    Move::CopyThenDelete {
        copied: copy(src, dst),
        done: Done {
            op: SecretOp::Rename,
            subject: dst.to_owned(),
            details: Some(from.concat(" (force)")),
            message,
        },
    }
}

/// Where an update comes from.
#[derive(Clone, Copy, Debug, PartialEq, Eq, Structural)]
pub enum UpdateSource {
    /// A whole payload on standard input.
    Payload,
    /// A new secret, from the environment or typed.
    Secret,
    /// New notes, from the environment or typed.
    Notes,
}

/// What an update reads.
pub open spec fn update_reads(field: Option<Seq<char>>, stdin: bool) -> Result<
    UpdateSource,
    CliErrorView,
> {
    if stdin {
        Ok(UpdateSource::Payload)
    } else {
        match field {
            None => Ok(UpdateSource::Secret),
            Some(f) => if f == "secret"@ {
                Ok(UpdateSource::Secret)
            } else if f == "notes"@ {
                Ok(UpdateSource::Notes)
            } else {
                Err(
                    CliErrorView::InvalidArgs(
                        "unknown field '"@ + f + "' (expected: secret, notes)"@,
                    ),
                )
            },
        }
    }
}

/// What an update reads; nothing is read for a field that does not exist.
pub fn update_source(field: &Option<String>, stdin: bool) -> (r: Result<UpdateSource, CliError>)
    ensures
        match r {
            Ok(s) => update_reads(opt_text(*field), stdin) == Ok::<UpdateSource, CliErrorView>(s),
            Err(e) => update_reads(opt_text(*field), stdin) == Err::<UpdateSource, CliErrorView>(
                e@,
            ),
        },
{
    if stdin {
        return Ok(UpdateSource::Payload);
    }
    match field {
        None => Ok(UpdateSource::Secret),
        Some(f) => {
            if same(f.as_str(), "secret") {
                Ok(UpdateSource::Secret)
            } else if same(f.as_str(), "notes") {
                Ok(UpdateSource::Notes)
            } else {
                Err(
                    invalid_args(
                        "unknown field '".to_owned().concat(f.as_str()).concat(
                            "' (expected: secret, notes)",
                        ),
                    ),
                )
            }
        },
    }
}

/// What an update brings.
#[derive(Debug)]
pub enum Update {
    Payload(SecretPayload),
    Secret(String),
    Notes(String),
}

/// The payload after an update: all of it, or one field replaced. Empty notes
/// are no notes.
pub open spec fn after_update(p: PayloadView, u: Update) -> PayloadView {
    match u {
        Update::Payload(q) => q@,
        Update::Secret(s) => PayloadView { secret: s@, ..p },
        Update::Notes(n) => PayloadView {
            notes: if n@.len() == 0 {
                None
            } else {
                Some(n@)
            },
            ..p
        },
    }
}

/// The payload after an update.
pub fn update(payload: SecretPayload, change: Update) -> (r: SecretPayload)
    ensures
        r@ == after_update(payload@, change),
{
    match change {
        Update::Payload(q) => q,
        Update::Secret(s) => SecretPayload {
            secret: s,
            notes: payload.notes,
            extra: payload.extra,
        },
        Update::Notes(n) => {
            let notes: Option<String> = if n.as_str().unicode_len() == 0 {
                None
            } else {
                Some(n)
            };
            SecretPayload { secret: payload.secret, notes, extra: payload.extra }
        },
    }
}

// ---------------------------------------------------------------------------
// Editing
// ---------------------------------------------------------------------------

/// The text of the extra data in the editor.
pub open spec fn extra_form(extra: Option<serde_json::Value>) -> Seq<char> {
    match extra {
        Some(v) => json_compact(v),
        None => Seq::empty(),
    }
}

/// The text of a payload in the editor: the secret, the notes and the extra
/// data, each on a line of its own.
pub open spec fn edit_form(p: PayloadView) -> Seq<char> {
    p.secret + "\n"@ + ("Notes: "@ + notes_text(p.notes)) + "\n"@ + ("Extra: "@ + extra_form(
        p.extra,
    )) + "\n"@
}

/// The text of a payload in the editor.
pub fn edit_text(p: &SecretPayload) -> (r: String)
    ensures
        r@ == edit_form(p@),
{
    let notes = "Notes: ".to_owned().concat(notes_or_empty(&p.notes).as_str());
    let extra = "Extra: ".to_owned().concat(
        match &p.extra {
            Some(v) => compact(v),
            None => String::new(),
        }.as_str(),
    );
    p.secret.clone().concat("\n").concat(notes.as_str()).concat("\n").concat(
        extra.as_str(),
    ).concat("\n")
}

/// The editor of `secret edit`: the flag, or `$EDITOR`, or `$VISUAL`, or `vi`.
pub fn edit_command(flag: &Option<String>, editor: &Option<String>, visual: &Option<String>) -> (r:
    String)
    ensures
        r@ == match (opt_text(*flag), opt_text(*editor), opt_text(*visual)) {
            (Some(f), _, _) => f,
            (None, Some(e), _) => e,
            (None, None, Some(v)) => v,
            (None, None, None) => "vi"@,
        },
{
    match flag {
        Some(f) => f.clone(),
        None => match editor {
            Some(e) => e.clone(),
            None => match visual {
                Some(v) => v.clone(),
                None => "vi".to_owned(),
            },
        },
    }
}

/// The lines without the blank ones at the end.
pub open spec fn without_blank_tail(v: Seq<Seq<char>>) -> Seq<Seq<char>>
    decreases v.len(),
{
    if v.len() > 0 && trim(v.last()).len() == 0 {
        without_blank_tail(v.drop_last())
    } else {
        v
    }
}

/// The payload that the lines from position `i` on describe, when the ones
/// before have given `p`. Lines that are neither notes nor extra data are
/// ignored; the last line of a kind counts, except that an empty `Extra:`
/// changes nothing.
pub open spec fn edited_from(v: Seq<Seq<char>>, i: int, p: PayloadView) -> Result<
    PayloadView,
    CliErrorView,
>
    decreases v.len() - i,
{
    if i >= v.len() {
        Ok(p)
    } else if strip_prefix(v[i], "Notes:"@) is Some {
        let val = trim(strip_prefix(v[i], "Notes:"@)->0);
        edited_from(
            v,
            i + 1,
            PayloadView {
                notes: if val.len() == 0 {
                    None
                } else {
                    Some(val)
                },
                ..p
            },
        )
    } else if strip_prefix(v[i], "Extra:"@) is Some {
        let val = trim(strip_prefix(v[i], "Extra:"@)->0);
        if val.len() == 0 {
            edited_from(v, i + 1, p)
        } else {
            match json_document(val) {
                Ok(x) => edited_from(v, i + 1, PayloadView { extra: Some(x), ..p }),
                Err(e) => Err(CliErrorView::InvalidArgs("invalid JSON in Extra field: "@ + e)),
            }
        }
    } else {
        edited_from(v, i + 1, p)
    }
}

/// The payload that an edited text describes.
pub open spec fn edited(text: Seq<char>) -> Result<PayloadView, CliErrorView> {
    let v = without_blank_tail(lines(text));
    if v.len() == 0 {
        Err(CliErrorView::InvalidArgs("edited content is empty — aborting save"@))
    } else if v[0].len() == 0 {
        Err(CliErrorView::InvalidArgs("secret value must not be empty"@))
    } else {
        edited_from(v, 1, PayloadView { secret: v[0], notes: None, extra: None })
    }
}

/// A payload result over its view.
pub open spec fn payload_result(r: Result<SecretPayload, CliError>) -> Result<
    PayloadView,
    CliErrorView,
> {
    match r {
        Ok(p) => Ok(p@),
        Err(e) => Err(e@),
    }
}

/// How many lines are left without the blank ones at the end.
fn used_lines(v: &Vec<String>) -> (n: usize)
    ensures
        n <= v@.len(),
        without_blank_tail(texts(v@)) == texts(v@).take(n as int),
{
    let mut n: usize = v.len();
    assert(texts(v@).take(n as int) =~= texts(v@));
    while n > 0
        invariant_except_break
            n <= v@.len(),
            without_blank_tail(texts(v@)) == without_blank_tail(texts(v@).take(n as int)),
        ensures
            n <= v@.len(),
            without_blank_tail(texts(v@)) == texts(v@).take(n as int),
        decreases n,
    {
        let ghost head = texts(v@).take(n as int);
        assert(head.last() == v@[n - 1]@);
        assert(head.drop_last() =~= texts(v@).take(n - 1));
        let blank = trimmed(v[n - 1].as_str()).as_str().unicode_len() == 0;
        if !blank {
            break;
        }
        n = n - 1;
    }
    n
}

/// The payload that an edited text describes.
pub fn parse_edited_payload(text: &str) -> (r: Result<SecretPayload, CliError>)
    ensures
        payload_result(r) == edited(text@),
{
    let all = lines_of(text);
    let n: usize = used_lines(&all);
    let ghost v = texts(all@).take(n as int);
    if n == 0 {
        return Err(invalid("edited content is empty — aborting save"));
    }
    assert(v[0] == all@[0]@);
    if all[0].as_str().unicode_len() == 0 {
        return Err(invalid("secret value must not be empty"));
    }
    let mut p = SecretPayload { secret: all[0].clone(), notes: None, extra: None };
    let mut i: usize = 1;
    while i < n
        invariant
            1 <= i <= n <= all@.len(),
            v == texts(all@).take(n as int),
            edited(text@) == edited_from(v, i as int, p@),
        decreases n - i,
    {
        let ghost before = p@;
        assert(v[i as int] == all@[i as int]@);
        match without_prefix(all[i].as_str(), "Notes:") {
            Some(rest) => {
                let val = trimmed(rest.as_str());
                let notes: Option<String> = if val.as_str().unicode_len() == 0 {
                    None
                } else {
                    Some(val)
                };
                p = SecretPayload { secret: p.secret, notes, extra: p.extra };
            },
            None => match without_prefix(all[i].as_str(), "Extra:") {
                Some(rest) => {
                    let val = trimmed(rest.as_str());
                    if val.as_str().unicode_len() != 0 {
                        match parse(val.as_str()) {
                            Ok(x) => {
                                p = SecretPayload {
                                    secret: p.secret,
                                    notes: p.notes,
                                    extra: Some(x),
                                };
                            },
                            Err(e) => {
                                return Err(
                                    invalid_args(
                                        "invalid JSON in Extra field: ".to_owned().concat(
                                            e.as_str(),
                                        ),
                                    ),
                                );
                            },
                        }
                    }
                },
                None => {},
            },
        }
        i = i + 1;
    }
    Ok(p)
}

// ---------------------------------------------------------------------------
// Editing changes nothing by itself
// ---------------------------------------------------------------------------

/// A line in front of the rest of a text.
proof fn lemma_first_line(a: Seq<char>, rest: Seq<char>)
    requires
        !a.contains('\n'),
    ensures
        lines(a + "\n"@ + rest) == seq![strip_cr(a)] + lines(rest),
{
    let s = a + "\n"@ + rest;
    reveal_strlit("\n");
    lemma_index(a, "\n"@ + rest);
    assert(a + ("\n"@ + rest) =~= s);
    assert(s.take(a.len() as int) =~= a);
    assert(s.skip((a.len() + 1) as int) =~= rest);
}

/// Where the first line feed stands.
proof fn lemma_index(a: Seq<char>, rest: Seq<char>)
    requires
        !a.contains('\n'),
        rest.len() > 0,
        rest[0] == '\n',
    ensures
        index_or_len(a + rest, '\n') == a.len(),
    decreases a.len(),
{
    let s = a + rest;
    if a.len() > 0 {
        assert(a.contains(a[0]));
        assert(s[0] == a[0]);
        assert(s.skip(1) =~= a.skip(1) + rest);
        assert forall|c: char| a.skip(1).contains(c) implies a.contains(c) by {
            let k = choose|k: int| 0 <= k < a.skip(1).len() && a.skip(1)[k] == c;
            assert(a[k + 1] == c);
        }
        lemma_index(a.skip(1), rest);
    }
}

/// A text that a line of the editor carries unchanged: not empty, on one line,
/// and without white space at its ends.
pub open spec fn fits_a_line(s: Seq<char>) -> bool {
    &&& s.len() > 0
    &&& !s.contains('\n')
    &&& !is_space(s[0])
    &&& !is_space(s.last())
}

/// Trimming keeps a character that is no white space in front.
proof fn lemma_trim_end_keeps(s: Seq<char>)
    requires
        s.len() > 0,
        !is_space(s[0]),
    ensures
        trim_end(s).len() > 0,
    decreases s.len(),
{
    if is_space(s.last()) {
        lemma_trim_end_keeps(s.drop_last());
    }
}

/// The value behind a label and a blank.
proof fn lemma_value_behind(s: Seq<char>)
    requires
        s.len() == 0 || fits_a_line(s),
    ensures
        trim(seq![' '] + s) == s,
{
    let t = seq![' '] + s;
    assert(t.skip(1) =~= s);
    assert(is_space(' '));
    assert(trim_start(t) == s) by {
        reveal_with_fuel(trim_start, 2);
    }
}

/// A labelled line is no longer than its own line.
proof fn lemma_label(label: Seq<char>, s: Seq<char>)
    requires
        label.len() > 0,
        !label.contains('\n'),
        label.last() == ' ',
        s.len() == 0 || fits_a_line(s),
    ensures
        !(label + s).contains('\n'),
        strip_cr(label + s) == label + s,
{
    let t = label + s;
    assert forall|k: int| 0 <= k < t.len() implies t[k] != '\n' by {
        if k < label.len() {
            assert(label.contains(label[k]));
        } else {
            assert(s.contains(s[k - label.len()]));
        }
    }
    assert(is_space('\r'));
}

/// The lines that the editor is given.
proof fn lemma_edit_lines(p: PayloadView)
    requires
        p.secret.len() > 0,
        !p.secret.contains('\n'),
        p.secret.last() != '\r',
        p.notes matches Some(n) ==> fits_a_line(n),
        p.extra matches Some(v) ==> fits_a_line(json_compact(v)),
    ensures
        lines(edit_form(p)) == seq![
            p.secret,
            "Notes: "@ + notes_text(p.notes),
            "Extra: "@ + extra_form(p.extra),
        ],
{
    let nl = "Notes: "@ + notes_text(p.notes);
    let el = "Extra: "@ + extra_form(p.extra);
    let none = Seq::<char>::empty();
    let rest2 = el + "\n"@ + none;
    let rest1 = nl + "\n"@ + rest2;
    assert(edit_form(p) =~= p.secret + "\n"@ + rest1);
    assert("Notes: "@.len() > 0 && !"Notes: "@.contains('\n') && "Notes: "@.last() == ' ') by {
        reveal_strlit("Notes: ");
    }
    assert("Extra: "@.len() > 0 && !"Extra: "@.contains('\n') && "Extra: "@.last() == ' ') by {
        reveal_strlit("Extra: ");
    }
    lemma_label("Notes: "@, notes_text(p.notes));
    lemma_label("Extra: "@, extra_form(p.extra));
    lemma_first_line(p.secret, rest1);
    lemma_first_line(nl, rest2);
    lemma_first_line(el, none);
    assert(lines(none) =~= Seq::<Seq<char>>::empty());
    assert(lines(edit_form(p)) =~= seq![p.secret, nl, el]);
}

/// What stands behind the labels of the editor.
proof fn lemma_labels(s: Seq<char>)
    requires
        s.len() == 0 || fits_a_line(s),
    ensures
        strip_prefix("Notes: "@ + s, "Notes:"@) == Some(seq![' '] + s),
        strip_prefix("Extra: "@ + s, "Extra:"@) == Some(seq![' '] + s),
        strip_prefix("Extra: "@ + s, "Notes:"@) is None,
        trim("Extra: "@ + s).len() > 0,
        trim(seq![' '] + s) == s,
{
    reveal_strlit("Notes: ");
    reveal_strlit("Extra: ");
    reveal_strlit("Notes:");
    reveal_strlit("Extra:");
    let nl = "Notes: "@ + s;
    let el = "Extra: "@ + s;
    assert(nl.skip("Notes:"@.len() as int) =~= seq![' '] + s);
    assert(el.skip("Extra:"@.len() as int) =~= seq![' '] + s);
    assert(nl.take("Notes:"@.len() as int) =~= "Notes:"@);
    assert(el.take("Extra:"@.len() as int) =~= "Extra:"@);
    assert("Notes:"@[0] != el.subrange(0, "Notes:"@.len() as int)[0]);
    assert(el[0] == 'E');
    lemma_trim_end_keeps(el);
    assert(trim_start(el) == el);
    lemma_value_behind(s);
}

/// Saving an edited item without a change keeps it: the payload of the text
/// that the editor is given is the payload itself, for a secret and notes that
/// a line carries unchanged and for extra data that is read back from its own
/// text.
pub proof fn law_unchanged_edit_keeps_the_payload(p: PayloadView)
    requires
        p.secret.len() > 0,
        !p.secret.contains('\n'),
        p.secret.last() != '\r',
        p.notes matches Some(n) ==> fits_a_line(n),
        p.extra matches Some(v) ==> fits_a_line(json_compact(v)) && json_document(json_compact(v))
            == Ok::<serde_json::Value, Seq<char>>(v),
    ensures
        edited(edit_form(p)) == Ok::<PayloadView, CliErrorView>(p),
{
    let v = lines(edit_form(p));
    lemma_edit_lines(p);
    lemma_labels(notes_text(p.notes));
    lemma_labels(extra_form(p.extra));
    assert(without_blank_tail(v) == v);
    let p0 = PayloadView { secret: p.secret, notes: None, extra: None };
    let p1 = PayloadView { notes: p.notes, ..p0 };
    assert(edited_from(v, 3, p) == Ok::<PayloadView, CliErrorView>(p));
    assert(edited_from(v, 2, p1) == edited_from(v, 3, p));
    assert(edited_from(v, 1, p0) == edited_from(v, 2, p1));
}

// ---------------------------------------------------------------------------
// Faults of the store
// ---------------------------------------------------------------------------

/// What the secret store reports.
#[derive(Debug)]
pub enum StoreFault {
    NotFound(String),
    AlreadyExists(String),
    InvalidName(String),
    GenerationMismatch { name: String, expected: u64, got: u64 },
    Tampered { path: String, reason: String },
    Io(IoFault, String),
    Serde(String),
    Entry(String),
}

/// The error that a fault of the store is shown as.
pub open spec fn store_error(f: StoreFault) -> CliErrorView {
    match f {
        StoreFault::NotFound(name) => CliErrorView::InvalidArgs(
            "secret not found: '"@ + name@ + "'"@,
        ),
        StoreFault::AlreadyExists(name) => CliErrorView::InvalidArgs(
            "secret already exists: '"@ + name@ + "'"@,
        ),
        StoreFault::InvalidName(msg) => CliErrorView::InvalidArgs(msg@),
        StoreFault::GenerationMismatch { name, expected, got } => CliErrorView::InvalidArgs(
            "generation mismatch for '"@ + name@ + "': expected "@ + decimal(expected as int)
                + ", got "@ + decimal(got as int),
        ),
        StoreFault::Tampered { path, reason } => CliErrorView::InvalidArgs(
            "tampered secret '"@ + path@ + "': "@ + reason@,
        ),
        StoreFault::Io(k, msg) => CliErrorView::Io(k, msg@),
        StoreFault::Serde(msg) => CliErrorView::Json(msg@),
        StoreFault::Entry(msg) => CliErrorView::InvalidArgs(msg@),
    }
}

/// The error that a fault of the store is shown as.
pub fn map_store_error(f: StoreFault) -> (e: CliError)
    ensures
        e@ == store_error(f),
{
    match f {
        StoreFault::NotFound(name) => invalid_args(
            "secret not found: '".to_owned().concat(name.as_str()).concat("'"),
        ),
        StoreFault::AlreadyExists(name) => invalid_args(
            "secret already exists: '".to_owned().concat(name.as_str()).concat("'"),
        ),
        StoreFault::InvalidName(msg) => invalid_args(msg),
        StoreFault::GenerationMismatch { name, expected, got } => invalid_args(
            "generation mismatch for '".to_owned().concat(name.as_str()).concat(
                "': expected ",
            ).concat(dec(expected as u128).as_str()).concat(", got ").concat(
                dec(got as u128).as_str(),
            ),
        ),
        StoreFault::Tampered { path, reason } => invalid_args(
            "tampered secret '".to_owned().concat(path.as_str()).concat("': ").concat(
                reason.as_str(),
            ),
        ),
        StoreFault::Io(k, msg) => CliError::Io(k, msg),
        StoreFault::Serde(msg) => CliError::Json(msg),
        StoreFault::Entry(msg) => invalid_args(msg),
    }
}

proof fn lemma_field_names()
    ensures
        "secret"@ != "notes"@,
        "secret"@ != "metadata"@,
        "notes"@ != "metadata"@,
{
    reveal_strlit("secret");
    reveal_strlit("notes");
    reveal_strlit("metadata");
    assert("secret"@.len() == 6 && "notes"@.len() == 5 && "metadata"@.len() == 8);
}

/// What a read gives depends only on the field that is asked for: notes and
/// metadata never show the secret, and the secret comes without the notes.
pub proof fn law_reads_show_only_their_field(a: OpenedSecret, b: OpenedSecret, req: GetRequest)
    requires
        opt_text(req.field) is Some,
    ensures
        opt_text(req.field) == Some("notes"@) && opt_text(a.payload.notes) == opt_text(
            b.payload.notes,
        ) ==> disclosed(a, req) == disclosed(b, req),
        opt_text(req.field) == Some("metadata"@) && a.metadata@ == b.metadata@ ==> disclosed(a, req)
            == disclosed(b, req),
        opt_text(req.field) == Some("secret"@) && a.payload.secret@ == b.payload.secret@
            ==> disclosed(a, req) == disclosed(b, req),
{
    lemma_field_names();
}

/// A copy or a QR code holds the text of the field that was asked for, the
/// secret when none was; a print of a field is its text and a line break. A copy
/// comes before a QR code, a QR code before JSON, and JSON before a print.
pub proof fn law_reads_give_the_field(item: OpenedSecret, req: GetRequest)
    ensures
        req.copy && (req.field is None || opt_text(req.field) == Some("secret"@)) ==> disclosed(
            item,
            req,
        ) == Ok::<DisclosureView, CliErrorView>(DisclosureView::Copy(item.payload.secret@)),
        !req.copy && req.qr && (req.field is None || opt_text(req.field) == Some("secret"@))
            ==> disclosed(item, req) == Ok::<DisclosureView, CliErrorView>(
            DisclosureView::Qr(item.payload.secret@),
        ),
        req.copy && opt_text(req.field) == Some("notes"@) ==> (disclosed(item, req) matches Ok(
            DisclosureView::Copy(t),
        ) && (item.payload.notes matches Some(n) ==> t == n@) && (item.payload.notes is None
            ==> t.len() == 0)),
        req.copy && opt_text(req.field) == Some("metadata"@) ==> disclosed(item, req) is Err,
        !req.copy && req.qr && opt_text(req.field) == Some("metadata"@) ==> disclosed(item, req)
            == Ok::<DisclosureView, CliErrorView>(DisclosureView::Qr(item.metadata@)),
        !req.copy && req.qr && opt_text(req.field) == Some("notes"@) ==> (disclosed(item, req)
            == Ok::<DisclosureView, CliErrorView>(DisclosureView::Nothing) <==>
            item.payload.notes is None),
        !req.copy && !req.qr ==> (disclosed(item, req) == Ok::<DisclosureView, CliErrorView>(
            DisclosureView::Envelope,
        ) <==> req.json),
        !req.copy && !req.qr && !req.json && opt_text(req.field) == Some("secret"@) ==> disclosed(
            item,
            req,
        ) == Ok::<DisclosureView, CliErrorView>(
            DisclosureView::Print(item.payload.secret@.push('\n')),
        ),
        !req.copy && !req.qr && !req.json && opt_text(req.field) == Some("metadata"@) ==> disclosed(
            item,
            req,
        ) == Ok::<DisclosureView, CliErrorView>(DisclosureView::Print(item.metadata@.push('\n'))),
        !req.copy && !req.qr && !req.json && opt_text(req.field) == Some("notes"@) && (
        item.payload.notes is Some) ==> disclosed(item, req) == Ok::<DisclosureView, CliErrorView>(
            DisclosureView::Print(item.payload.notes->0@.push('\n')),
        ),
        disclosed(item, req) is Err ==> (req.field is Some && opt_text(req.field) != Some(
            "secret"@,
        ) && opt_text(req.field) != Some("notes"@) && (req.copy || opt_text(req.field) != Some(
            "metadata"@,
        ))),
{
    lemma_field_names();
    reveal_strlit("\n");
    assert(item.payload.secret@ + "\n"@ =~= item.payload.secret@.push('\n'));
    assert(item.metadata@ + "\n"@ =~= item.metadata@.push('\n'));
    if let Some(n) = item.payload.notes {
        assert(n@ + "\n"@ =~= n@.push('\n'));
    }
}

/// The entries that are listed are exactly those of the type that was asked
/// for, all of them when none was, in their order.
pub proof fn law_listed_entries_are_of_the_type(
    entries: Seq<IndexEntry>,
    filter: Option<ItemType>,
    i: int,
)
    requires
        0 <= i < entries.len() <= usize::MAX,
    ensures
        listed(entries, filter).contains(i as usize) <==> (filter matches Some(t)
            ==> entries[i].item_type == t),
        forall|a: int, b: int|
            0 <= a < b < listed(entries, filter).len() ==> #[trigger] listed(entries, filter)[a]
                < #[trigger] listed(entries, filter)[b],
        forall|a: int|
            0 <= a < listed(entries, filter).len() ==> #[trigger] listed(entries, filter)[a]
                < entries.len(),
    decreases entries.len(),
{
    let n = entries.len() - 1;
    let front = entries.drop_last();
    let rest = listed(front, filter);
    let all = listed(entries, filter);
    if n > 0 {
        law_listed_entries_are_of_the_type(
            front,
            filter,
            if i < n {
                i
            } else {
                0
            },
        );
    }
    if i < n {
        assert(front[i] == entries[i]);
        if rest.contains(i as usize) {
            let k = choose|k: int| 0 <= k < rest.len() && rest[k] == i as usize;
            assert(all[k] == i as usize);
        }
        if all.contains(i as usize) {
            let k = choose|k: int| 0 <= k < all.len() && all[k] == i as usize;
            assert(k < rest.len());
            assert(rest[k] == i as usize);
        }
    } else {
        if is_listed(entries.last(), filter) {
            assert(all.last() == i as usize);
            assert(all.contains(i as usize));
        } else if all.contains(i as usize) {
            let k = choose|k: int| 0 <= k < all.len() && all[k] == i as usize;
            assert(rest[k] < front.len());
        }
    }
}

/// An update changes what it names and nothing else; empty notes are no notes.
pub proof fn law_updates_change_one_field(p: PayloadView, u: Update)
    ensures
        u matches Update::Secret(s) ==> after_update(p, u).secret == s@ && after_update(p, u).notes
            == p.notes && after_update(p, u).extra == p.extra,
        u matches Update::Notes(n) ==> after_update(p, u).secret == p.secret && after_update(
            p,
            u,
        ).extra == p.extra && (after_update(p, u).notes is None <==> n@.len() == 0) && (n@.len() > 0
            ==> after_update(p, u).notes == Some(n@)),
        u matches Update::Payload(q) ==> after_update(p, u).secret == q.secret@ && after_update(
            p,
            u,
        ).notes == opt_text(q.notes) && after_update(p, u).extra == q.extra,
{
}

/// What an update reads: a whole payload when it comes on standard input, the
/// notes when they are named, and otherwise the secret; nothing else can be named.
pub proof fn law_updates_read_what_is_named(field: Option<Seq<char>>, stdin: bool)
    ensures
        stdin <==> update_reads(field, stdin) == Ok::<UpdateSource, CliErrorView>(
            UpdateSource::Payload,
        ),
        !stdin ==> (update_reads(field, stdin) == Ok::<UpdateSource, CliErrorView>(
            UpdateSource::Notes,
        ) <==> field == Some("notes"@)),
        !stdin ==> (update_reads(field, stdin) == Ok::<UpdateSource, CliErrorView>(
            UpdateSource::Secret,
        ) <==> field is None || field == Some("secret"@)),
{
    lemma_field_names();
}

proof fn lemma_edited_keeps_secret(v: Seq<Seq<char>>, i: int, p: PayloadView)
    requires
        0 <= i,
    ensures
        edited_from(v, i, p) matches Ok(q) ==> q.secret == p.secret,
        (forall|k: int|
            i <= k < v.len() ==> !"Notes:"@.is_prefix_of(#[trigger] v[k]) && !"Extra:"@.is_prefix_of(
                v[k],
            )) ==> edited_from(v, i, p) == Ok::<PayloadView, CliErrorView>(p),
    decreases v.len() - i,
{
    if i < v.len() {
        let q = match edited_from(v, i, p) {
            Ok(q) => q,
            Err(_) => p,
        };
        if strip_prefix(v[i], "Notes:"@) is Some {
            let val = trim(strip_prefix(v[i], "Notes:"@)->0);
            lemma_edited_keeps_secret(
                v,
                i + 1,
                PayloadView {
                    notes: if val.len() == 0 {
                        None
                    } else {
                        Some(val)
                    },
                    ..p
                },
            );
        } else if strip_prefix(v[i], "Extra:"@) is Some {
            let val = trim(strip_prefix(v[i], "Extra:"@)->0);
            if val.len() == 0 {
                lemma_edited_keeps_secret(v, i + 1, p);
            } else if let Ok(x) = json_document(val) {
                lemma_edited_keeps_secret(v, i + 1, PayloadView { extra: Some(x), ..p });
            }
        } else {
            lemma_edited_keeps_secret(v, i + 1, p);
        }
    }
}

/// The first line of an edited text is the secret, and it is never empty.
pub proof fn law_first_line_is_the_secret(text: Seq<char>)
    ensures
        edited(text) matches Ok(p) ==> p.secret.len() > 0 && lines(text).len() > 0 && p.secret
            == lines(text)[0],
{
    let v = without_blank_tail(lines(text));
    lemma_blank_tail(lines(text));
    lemma_edited_keeps_secret(
        v,
        1,
        PayloadView {
            secret: if v.len() > 0 {
                v[0]
            } else {
                Seq::empty()
            },
            notes: None,
            extra: None,
        },
    );
}

proof fn lemma_blank_tail(v: Seq<Seq<char>>)
    ensures
        without_blank_tail(v).is_prefix_of(v),
    decreases v.len(),
{
    if v.len() > 0 && trim(v.last()).len() == 0 {
        lemma_blank_tail(v.drop_last());
    }
}

proof fn lemma_label_line(label: Seq<char>, s: Seq<char>)
    ensures
        shows(label_line(label, Some(s)), label, s),
{
    lemma_shows_first(label, s);
    lemma_shows_more(label + s, "\n"@, label, s);
}

/// An entry of the index shows each of its values behind its own label.
pub proof fn law_index_entries_show_their_values(e: IndexEntry)
    ensures
        shows(index_text(e), "Name:      "@, e.name@),
        shows(index_text(e), "Type:      "@, e.type_label@),
        shows(index_text(e), "ID:        "@, e.id@),
        shows(index_text(e), "Created:   "@, e.created_at@),
        shows(index_text(e), "Updated:   "@, e.updated_at@),
        e.metadata.url matches Some(s) ==> shows(index_text(e), "URL:       "@, s@),
        e.metadata.username matches Some(s) ==> shows(index_text(e), "Username:  "@, s@),
        e.metadata.issuer matches Some(s) ==> shows(index_text(e), "Issuer:    "@, s@),
        e.metadata.account matches Some(s) ==> shows(index_text(e), "Account:   "@, s@),
        e.metadata.tags@.len() > 0 ==> shows(
            index_text(e),
            "Tags:      "@,
            join(texts(e.metadata.tags@), ", "@),
        ),
{
    let t = index_text(e);
    let url = label_line("URL:       "@, opt_text(e.metadata.url));
    let username = label_line("Username:  "@, opt_text(e.metadata.username));
    let issuer = label_line("Issuer:    "@, opt_text(e.metadata.issuer));
    let account = label_line("Account:   "@, opt_text(e.metadata.account));
    let tags = label_line("Tags:      "@, tags_text(texts(e.metadata.tags@)));
    assert(shows(t, "Name:      "@, e.name@)) by {
        lemma_shows_first("Name:      "@, e.name@);
        let u = "Name:      "@ + e.name@;
        lemma_shows_more4(u, "\n"@, "Type:      "@, e.type_label@, "\n"@, "Name:      "@, e.name@);
        let u = u + "\n"@ + "Type:      "@ + e.type_label@ + "\n"@;
        lemma_shows_more4(u, "ID:        "@, e.id@, "\n"@, "Created:   "@, "Name:      "@, e.name@);
        let u = u + "ID:        "@ + e.id@ + "\n"@ + "Created:   "@;
        lemma_shows_more4(u, e.created_at@, "\n"@, "Updated:   "@, e.updated_at@, "Name:      "@,
            e.name@);
        let u = u + e.created_at@ + "\n"@ + "Updated:   "@ + e.updated_at@;
        lemma_shows_more4(u, "\n"@, url, username, issuer, "Name:      "@, e.name@);
        let u = u + "\n"@ + url + username + issuer;
        lemma_shows_more(u, account, "Name:      "@, e.name@);
        let u = u + account;
        lemma_shows_more(u, tags, "Name:      "@, e.name@);
    }
    assert(shows(t, "Type:      "@, e.type_label@)) by {
        let a = "Name:      "@ + e.name@ + "\n"@;
        lemma_shows_last(a, "Type:      "@, e.type_label@);
        let u = a + "Type:      "@ + e.type_label@;
        lemma_shows_more4(u, "\n"@, "ID:        "@, e.id@, "\n"@, "Type:      "@, e.type_label@);
        let u = u + "\n"@ + "ID:        "@ + e.id@ + "\n"@;
        lemma_shows_more4(u, "Created:   "@, e.created_at@, "\n"@, "Updated:   "@, "Type:      "@,
            e.type_label@);
        let u = u + "Created:   "@ + e.created_at@ + "\n"@ + "Updated:   "@;
        lemma_shows_more4(u, e.updated_at@, "\n"@, url, username, "Type:      "@, e.type_label@);
        let u = u + e.updated_at@ + "\n"@ + url + username;
        lemma_shows_more(u, issuer, "Type:      "@, e.type_label@);
        let u = u + issuer;
        lemma_shows_more(u, account, "Type:      "@, e.type_label@);
        let u = u + account;
        lemma_shows_more(u, tags, "Type:      "@, e.type_label@);
    }
    assert(shows(t, "ID:        "@, e.id@)) by {
        let a = "Name:      "@ + e.name@ + "\n"@ + "Type:      "@ + e.type_label@ + "\n"@;
        lemma_shows_last(a, "ID:        "@, e.id@);
        let u = a + "ID:        "@ + e.id@;
        lemma_shows_more4(u, "\n"@, "Created:   "@, e.created_at@, "\n"@, "ID:        "@, e.id@);
        let u = u + "\n"@ + "Created:   "@ + e.created_at@ + "\n"@;
        lemma_shows_more4(u, "Updated:   "@, e.updated_at@, "\n"@, url, "ID:        "@, e.id@);
        let u = u + "Updated:   "@ + e.updated_at@ + "\n"@ + url;
        lemma_shows_more4(u, username, issuer, account, tags, "ID:        "@, e.id@);
    }
    assert(shows(t, "Created:   "@, e.created_at@)) by {
        let a = "Name:      "@ + e.name@ + "\n"@ + "Type:      "@ + e.type_label@ + "\n"@
            + "ID:        "@ + e.id@ + "\n"@;
        lemma_shows_last(a, "Created:   "@, e.created_at@);
        let u = a + "Created:   "@ + e.created_at@;
        lemma_shows_more4(u, "\n"@, "Updated:   "@, e.updated_at@, "\n"@, "Created:   "@, e.created_at@);
        let u = u + "\n"@ + "Updated:   "@ + e.updated_at@ + "\n"@;
        lemma_shows_more4(u, url, username, issuer, account, "Created:   "@, e.created_at@);
        let u = u + url + username + issuer + account;
        lemma_shows_more(u, tags, "Created:   "@, e.created_at@);
    }
    assert(shows(t, "Updated:   "@, e.updated_at@)) by {
        let a = "Name:      "@ + e.name@ + "\n"@ + "Type:      "@ + e.type_label@ + "\n"@
            + "ID:        "@ + e.id@ + "\n"@ + "Created:   "@ + e.created_at@ + "\n"@;
        lemma_shows_last(a, "Updated:   "@, e.updated_at@);
        let u = a + "Updated:   "@ + e.updated_at@;
        lemma_shows_more4(u, "\n"@, url, username, issuer, "Updated:   "@, e.updated_at@);
        let u = u + "\n"@ + url + username + issuer;
        lemma_shows_more(u, account, "Updated:   "@, e.updated_at@);
        let u = u + account;
        lemma_shows_more(u, tags, "Updated:   "@, e.updated_at@);
    }
    if let Some(s) = e.metadata.url {
        assert(shows(t, "URL:       "@, s@)) by {
            lemma_label_line("URL:       "@, s@);
            let a = "Name:      "@ + e.name@ + "\n"@ + "Type:      "@ + e.type_label@ + "\n"@
                + "ID:        "@ + e.id@ + "\n"@ + "Created:   "@ + e.created_at@ + "\n"@
                + "Updated:   "@ + e.updated_at@ + "\n"@;
            lemma_shows_behind(a, url, "URL:       "@, s@);
            let u = a + url;
            lemma_shows_more4(u, username, issuer, account, tags, "URL:       "@, s@);
        }
    }
    if let Some(s) = e.metadata.username {
        assert(shows(t, "Username:  "@, s@)) by {
            lemma_label_line("Username:  "@, s@);
            let a = "Name:      "@ + e.name@ + "\n"@ + "Type:      "@ + e.type_label@ + "\n"@
                + "ID:        "@ + e.id@ + "\n"@ + "Created:   "@ + e.created_at@ + "\n"@
                + "Updated:   "@ + e.updated_at@ + "\n"@ + url;
            lemma_shows_behind(a, username, "Username:  "@, s@);
            let u = a + username;
            lemma_shows_more(u, issuer, "Username:  "@, s@);
            let u = u + issuer;
            lemma_shows_more(u, account, "Username:  "@, s@);
            let u = u + account;
            lemma_shows_more(u, tags, "Username:  "@, s@);
        }
    }
    if let Some(s) = e.metadata.issuer {
        assert(shows(t, "Issuer:    "@, s@)) by {
            lemma_label_line("Issuer:    "@, s@);
            let a = "Name:      "@ + e.name@ + "\n"@ + "Type:      "@ + e.type_label@ + "\n"@
                + "ID:        "@ + e.id@ + "\n"@ + "Created:   "@ + e.created_at@ + "\n"@
                + "Updated:   "@ + e.updated_at@ + "\n"@ + url + username;
            lemma_shows_behind(a, issuer, "Issuer:    "@, s@);
            let u = a + issuer;
            lemma_shows_more(u, account, "Issuer:    "@, s@);
            let u = u + account;
            lemma_shows_more(u, tags, "Issuer:    "@, s@);
        }
    }
    if let Some(s) = e.metadata.account {
        assert(shows(t, "Account:   "@, s@)) by {
            lemma_label_line("Account:   "@, s@);
            let a = "Name:      "@ + e.name@ + "\n"@ + "Type:      "@ + e.type_label@ + "\n"@
                + "ID:        "@ + e.id@ + "\n"@ + "Created:   "@ + e.created_at@ + "\n"@
                + "Updated:   "@ + e.updated_at@ + "\n"@ + url + username + issuer;
            lemma_shows_behind(a, account, "Account:   "@, s@);
            let u = a + account;
            lemma_shows_more(u, tags, "Account:   "@, s@);
        }
    }
    if e.metadata.tags@.len() > 0 {
        let g = join(texts(e.metadata.tags@), ", "@);
        assert(shows(t, "Tags:      "@, g)) by {
            lemma_label_line("Tags:      "@, g);
            let a = "Name:      "@ + e.name@ + "\n"@ + "Type:      "@ + e.type_label@ + "\n"@
                + "ID:        "@ + e.id@ + "\n"@ + "Created:   "@ + e.created_at@ + "\n"@
                + "Updated:   "@ + e.updated_at@ + "\n"@ + url + username + issuer + account;
            lemma_shows_behind(a, tags, "Tags:      "@, g);
            let u = a + tags;
        }
    }
}

/// A listing shows every entry of the type that is asked for, and no other, in
/// order.
pub proof fn law_listings_show_the_type(v: Seq<IndexEntry>, e: IndexEntry, filter: Option<ItemType>)
    ensures
        is_listed(e, filter) ==> listed_text(v.push(e), filter) == listed_text(v, filter)
            + index_text(e) + "\n"@,
        !is_listed(e, filter) ==> listed_text(v.push(e), filter) == listed_text(v, filter),
        listed_text(Seq::<IndexEntry>::empty(), filter).len() == 0,
{
    assert(v.push(e).drop_last() =~= v);
}

/// What the store refuses is told with the secret it is about and why; files and
/// documents keep their own kind of error.
pub proof fn law_refusals_of_the_store_are_told(f: StoreFault)
    ensures
        f matches StoreFault::NotFound(n) ==> store_error(f) == CliErrorView::InvalidArgs(
            "secret not found: '"@ + n@ + "'"@,
        ),
        f matches StoreFault::AlreadyExists(n) ==> store_error(f) == CliErrorView::InvalidArgs(
            "secret already exists: '"@ + n@ + "'"@,
        ),
        f matches StoreFault::GenerationMismatch { name, expected, got } ==> store_error(f)
            == CliErrorView::InvalidArgs(
            "generation mismatch for '"@ + name@ + "': expected "@ + decimal(expected as int)
                + ", got "@ + decimal(got as int),
        ),
        f matches StoreFault::Tampered { path, reason } ==> store_error(f)
            == CliErrorView::InvalidArgs("tampered secret '"@ + path@ + "': "@ + reason@),
        f matches StoreFault::Io(k, m) ==> store_error(f) == CliErrorView::Io(k, m@),
        f matches StoreFault::Serde(m) ==> store_error(f) == CliErrorView::Json(m@),
        f matches StoreFault::InvalidName(m) ==> store_error(f) == CliErrorView::InvalidArgs(m@),
        f matches StoreFault::Entry(m) ==> store_error(f) == CliErrorView::InvalidArgs(m@),
{
}

/// What was done is recorded with what it was done to, its details and its message,
/// each in its own place.
pub proof fn law_what_was_done_is_recorded(
    d: Done,
    op: SecretOp,
    subject: Seq<char>,
    details: Option<Seq<char>>,
    message: Seq<char>,
)
    requires
        is_done(d, op, subject, details, message),
    ensures
        d.op == op && d.subject@ == subject && d.message@ == message,
        d.details is Some <==> details is Some,
        d.details matches Some(s) ==> details == Some(s@),
{
}

/// What is read of the value in a contract is the value itself, each part under its
/// own name.
pub proof fn law_secret_payload_views_keep_each_value(x: SecretPayload)
    ensures
        x@.secret == x.secret@,
        x@.notes == opt_text(x.notes),
        x@.extra == x.extra,
{
}

/// What is read of the value in a contract is the value itself, each part under its
/// own name.
pub proof fn law_disclosure_views_keep_each_value(x: Disclosure)
    ensures
        x matches Disclosure::Copy(s) ==> x@ == DisclosureView::Copy(s@),
        x matches Disclosure::Qr(s) ==> x@ == DisclosureView::Qr(s@),
        x is Envelope ==> x@ == DisclosureView::Envelope,
        x matches Disclosure::Print(s) ==> x@ == DisclosureView::Print(s@),
        x is Nothing ==> x@ == DisclosureView::Nothing,
{
}

} // verus!
