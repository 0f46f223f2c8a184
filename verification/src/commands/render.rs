//! Reports with one source and two renderings: the fields are the source, and
//! the human text shows the value of a secret field only when asked to.
use vstd::prelude::*;

verus! {

/// One field of a report.
#[derive(Debug)]
pub struct Field {
    /// Display key.
    pub key: String,
    /// Display value.
    pub value: String,
    /// Whether the value is secret.
    pub secret: bool,
}

/// A [`Field`] with its texts as sequences of characters.
pub struct FieldView {
    pub key: Seq<char>,
    pub value: Seq<char>,
    pub secret: bool,
}

impl View for Field {
    type V = FieldView;

    open spec fn view(&self) -> FieldView {
        FieldView { key: self.key@, value: self.value@, secret: self.secret }
    }
}

impl FieldView {
    /// What is shown of the field.
    pub open spec fn shown(self, reveal: bool) -> Seq<char> {
        if self.secret && !reveal {
            "<hidden>"@
        } else {
            self.value
        }
    }

    /// The line of the field.
    pub open spec fn line(self, reveal: bool) -> Seq<char> {
        self.key + ": "@ + self.shown(reveal) + "\n"@
    }
}

/// The views of a sequence of fields.
pub open spec fn fields_view(fields: Seq<Field>) -> Seq<FieldView> {
    Seq::new(fields.len(), |i: int| fields[i]@)
}

/// The lines of the fields, in order.
pub open spec fn field_lines(fields: Seq<FieldView>, reveal: bool) -> Seq<char>
    decreases fields.len(),
{
    if fields.len() == 0 {
        Seq::empty()
    } else {
        field_lines(fields.drop_last(), reveal) + fields.last().line(reveal)
    }
}

/// A public field.
pub open spec fn public_field(key: Seq<char>, value: Seq<char>) -> FieldView {
    FieldView { key, value, secret: false }
}

/// A secret field.
pub open spec fn secret_field(key: Seq<char>, value: Seq<char>) -> FieldView {
    FieldView { key, value, secret: true }
}

impl Field {
    /// A public field.
    pub fn public(key: String, value: String) -> (f: Field)
        ensures
            f@ == public_field(key@, value@),
    {
        Field { key, value, secret: false }
    }

    /// A secret field, hidden unless revealed.
    pub fn secret(key: String, value: String) -> (f: Field)
        ensures
            f@ == secret_field(key@, value@),
    {
        Field { key, value, secret: true }
    }

    /// What is shown of the field.
    pub fn display(&self, reveal: bool) -> (r: &str)
        ensures
            r@ == self@.shown(reveal),
    {
        if self.secret && !reveal {
            "<hidden>"
        } else {
            self.value.as_str()
        }
    }
}

/// A report: a title and fields in order.
#[derive(Debug)]
pub struct Report {
    /// Report title.
    pub title: String,
    /// Ordered fields.
    pub fields: Vec<Field>,
}

/// A [`Report`] with its texts as sequences of characters.
pub struct ReportView {
    pub title: Seq<char>,
    pub fields: Seq<FieldView>,
}

impl View for Report {
    type V = ReportView;

    open spec fn view(&self) -> ReportView {
        ReportView { title: self.title@, fields: fields_view(self.fields@) }
    }
}

impl ReportView {
    /// The report with one more field at its end.
    pub open spec fn with(self, f: FieldView) -> ReportView {
        ReportView { title: self.title, fields: self.fields.push(f) }
    }

    /// The report with the choice whether secrets are shown.
    pub open spec fn choosing(self, shows: bool) -> RevealView {
        RevealView { report: self, shows }
    }

    /// The human text: the title line, then one line per field.
    pub open spec fn human(self, reveal: bool) -> Seq<char> {
        "=== "@ + self.title + " ===\n"@ + field_lines(self.fields, reveal)
    }
}

impl Report {
    /// An empty report.
    pub fn new(title: String) -> (r: Report)
        ensures
            r@.title == title@,
            r@.fields == Seq::<FieldView>::empty(),
    {
        let r = Report { title, fields: Vec::new() };
        assert(fields_view(r.fields@) =~= Seq::<FieldView>::empty());
        r
    }

    /// The report with one more field at its end.
    pub fn then(self, field: Field) -> (r: Report)
        ensures
            r@ == self@.with(field@),
    {
        let mut r = self;
        r.fields.push(field);
        assert(fields_view(r.fields@) =~= fields_view(self.fields@).push(field@));
        r
    }

    /// The report together with the choice whether secrets are shown.
    pub fn revealing(self, reveal: bool) -> (r: Reveal)
        ensures
            r@ == self@.choosing(reveal),
    {
        Reveal { report: self, reveal }
    }

    /// The human text.
    pub fn render_human(&self, reveal: bool) -> (r: String)
        ensures
            r@ == self@.human(reveal),
    {
        let mut out = "=== ".to_owned().concat(self.title.as_str()).concat(" ===\n");
        let ghost head = out@;
        let ghost all = fields_view(self.fields@);
        let mut i: usize = 0;
        assert(head + field_lines(all.take(0), reveal) =~= head);
        while i < self.fields.len()
            invariant
                i <= self.fields@.len(),
                all == fields_view(self.fields@),
                out@ == head + field_lines(all.take(i as int), reveal),
            decreases self.fields@.len() - i,
        {
            let f = &self.fields[i];
            let line = f.key.clone().concat(": ").concat(f.display(reveal)).concat("\n");
            assert(line@ == all[i as int].line(reveal));
            out.append(line.as_str());
            assert(all.take(i + 1).drop_last() =~= all.take(i as int));
            assert(out@ =~= head + field_lines(all.take(i + 1), reveal));
            i = i + 1;
        }
        assert(all.take(i as int) =~= all);
        out
    }
}

impl Default for Report {
    /// A report without title and fields.
    fn default() -> (r: Self)
        ensures
            r@.title == Seq::<char>::empty(),
            r@.fields == Seq::<FieldView>::empty(),
    {
        Report::new(String::new())
    }
}

/// A report with the choice whether secrets are shown; fields can still be
/// added.
#[derive(Debug)]
pub struct Reveal {
    report: Report,
    reveal: bool,
}

/// A [`Reveal`] with its report as a view.
pub struct RevealView {
    pub report: ReportView,
    pub shows: bool,
}

impl View for Reveal {
    type V = RevealView;

    closed spec fn view(&self) -> RevealView {
        RevealView { report: self.report@, shows: self.reveal }
    }
}

impl RevealView {
    /// The report with one more field at its end, and the same choice.
    pub open spec fn with(self, f: FieldView) -> RevealView {
        RevealView { report: self.report.with(f), shows: self.shows }
    }

    /// The human text with the choice that was made.
    pub open spec fn text(self) -> Seq<char> {
        self.report.human(self.shows)
    }
}

impl Reveal {
    /// The report with one more field at its end, and the same choice: what
    /// choosing after the field was added gives, too.
    pub fn then(self, field: Field) -> (r: Reveal)
        ensures
            r@ == self@.with(field@),
            r@.report.title == self@.report.title,
            r@.report.fields == self@.report.fields.push(field@),
            r@.shows == self@.shows,
            forall|report: ReportView, shows: bool|
                self@ == #[trigger] report.choosing(shows) ==> r@ == report.with(field@).choosing(
                    shows,
                ),
    {
        let mut report = self.report;
        report.fields.push(field);
        assert(fields_view(report.fields@) =~= fields_view(self.report.fields@).push(field@));
        Reveal { report, reveal: self.reveal }
    }

    /// The human text with the stored choice.
    pub fn render(self) -> (r: String)
        ensures
            r@ == self@.text(),
    {
        self.report.render_human(self.reveal)
    }
}

/// The fields are equal but for the values of secret fields.
pub open spec fn same_but_secrets(a: ReportView, b: ReportView) -> bool {
    &&& a.title == b.title
    &&& a.fields.len() == b.fields.len()
    &&& forall|i: int|
        0 <= i < a.fields.len() ==> {
            &&& #[trigger] a.fields[i].key == b.fields[i].key
            &&& a.fields[i].secret == b.fields[i].secret
            &&& !a.fields[i].secret ==> a.fields[i].value == b.fields[i].value
        }
}

/// Without reveal, the text of a report does not depend on any secret value.
pub proof fn law_hidden_secrets_do_not_show(a: ReportView, b: ReportView)
    requires
        same_but_secrets(a, b),
    ensures
        a.human(false) == b.human(false),
{
    lemma_hidden_lines(a.fields, b.fields);
}

proof fn lemma_hidden_lines(a: Seq<FieldView>, b: Seq<FieldView>)
    requires
        a.len() == b.len(),
        forall|i: int|
            0 <= i < a.len() ==> {
                &&& #[trigger] a[i].key == b[i].key
                &&& a[i].secret == b[i].secret
                &&& !a[i].secret ==> a[i].value == b[i].value
            },
    ensures
        field_lines(a, false) == field_lines(b, false),
    decreases a.len(),
{
    if a.len() > 0 {
        assert(a[a.len() - 1].key == b[b.len() - 1].key);
        assert forall|i: int| 0 <= i < a.drop_last().len() implies {
            &&& #[trigger] a.drop_last()[i].key == b.drop_last()[i].key
            &&& a.drop_last()[i].secret == b.drop_last()[i].secret
            &&& !a.drop_last()[i].secret ==> a.drop_last()[i].value == b.drop_last()[i].value
        } by {
            assert(a[i].key == b[i].key);
        }
        lemma_hidden_lines(a.drop_last(), b.drop_last());
    }
}

/// The choice to reveal can be made before or after a field is added: the
/// report is the same, with the field at its end, the title and the earlier
/// fields as they were, and the choice remembered.
pub proof fn law_choice_and_fields_commute(r: ReportView, f: FieldView, shows: bool)
    ensures
        r.choosing(shows).with(f) == r.with(f).choosing(shows),
        r.choosing(shows).with(f).report.title == r.title,
        r.choosing(shows).with(f).report.fields.drop_last() == r.fields,
        r.choosing(shows).with(f).report.fields.last() == f,
        r.choosing(shows).with(f).shows == shows,
{
    assert(r.with(f).fields.drop_last() =~= r.fields);
}

/// A field that is added to a report adds its line to the text and changes
/// nothing before it.
pub proof fn law_reveal_chain_has_one_source(r: ReportView, f: FieldView, shows: bool)
    ensures
        r.choosing(shows).with(f).text() == r.choosing(shows).text() + f.line(shows),
        r.with(f).choosing(shows).text() == r.choosing(shows).with(f).text(),
{
    assert(r.with(f).fields.drop_last() =~= r.fields);
    assert(r.with(f).human(shows) =~= r.human(shows) + f.line(shows));
}

/// A field keeps its key and its value, and is secret exactly when it is made so.
pub proof fn law_fields_keep_what_they_are_given(key: Seq<char>, value: Seq<char>)
    ensures
        public_field(key, value).key == key && public_field(key, value).value == value,
        secret_field(key, value).key == key && secret_field(key, value).value == value,
        !public_field(key, value).secret,
        secret_field(key, value).secret,
{
}

/// What is read of the value in a contract is the value itself, each part under its
/// own name.
pub proof fn law_field_views_keep_each_value(x: Field)
    ensures
        x@.key == x.key@,
        x@.value == x.value@,
        x@.secret == x.secret,
{
}

/// What is read of the value in a contract is the value itself, each part under its
/// own name.
pub proof fn law_report_views_keep_each_value(x: Report)
    ensures
        x@.title == x.title@,
        x@.fields == fields_view(x.fields@),
{
}

} // verus!
