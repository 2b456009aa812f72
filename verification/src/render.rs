//! The templates of subject and body, compiled once and rendered for each recipient.
//!
//! The templates are Handlebars templates. A recipient's three fields are at hand in them
//! under the names `name`, `email` and `data`; a template that asks for anything else fails
//! to render. A template may not include another: partial tags are refused when the
//! templates are compiled, so that no rendering can go round in circles.

use crate::table::{RecipientRecord, RecordView};
use crate::text::{text_view, to_chars};
use vstd::prelude::*;

verus! {

/// `handlebars::Handlebars`, the registry of compiled templates.
#[verifier::external_type_specification]
#[verifier::external_body]
pub struct ExRegistry<'reg>(handlebars::Handlebars<'reg>);

/// `handlebars::TemplateError`, what the registry reports of a template that does not
/// compile.
#[verifier::external_type_specification]
#[verifier::external_body]
pub struct ExTemplateError(handlebars::TemplateError);

/// `handlebars::RenderError`, what the registry reports of a rendering that failed.
#[verifier::external_type_specification]
#[verifier::external_body]
pub struct ExRenderError(handlebars::RenderError);

/// The templates that a registry holds: the source of each, by the name it was registered
/// under.
pub uninterp spec fn registered(registry: handlebars::Handlebars<'static>) -> Map<Seq<char>, Seq<char>>;

/// Whether a registry is in strict mode, in which a value that is not there fails the
/// rendering.
pub uninterp spec fn strict(registry: handlebars::Handlebars<'static>) -> bool;

/// What the template registered as `which` among `templates` renders to, in strict mode or
/// not, for data that has the given values under the given names, each name once, in a
/// registry that is otherwise as it was made; `None` where the rendering fails.
pub uninterp spec fn rendering(
    templates: Map<Seq<char>, Seq<char>>,
    strictly: bool,
    which: Seq<char>,
    fields: Seq<(Seq<char>, Seq<char>)>,
) -> Option<Seq<char>>;

/// No templates at all.
pub open spec fn no_templates() -> Map<Seq<char>, Seq<char>> {
    Map::empty()
}

/// Whether `c` may stand between the braces that open a tag and the sign that says what
/// kind of tag it is: a blank, a tilde or a hash.
pub open spec fn is_tag_filler(c: char) -> bool {
    c == ' ' || c == '\t' || c == '\n' || c == '\r' || c == '~' || c == '#'
}

/// Whether two opening braces stand at `start` and nothing but filler stands between them
/// and `end`.
pub open spec fn tag_open(source: Seq<char>, start: int, end: int) -> bool {
    &&& 0 <= start
    &&& start + 2 <= end <= source.len()
    &&& source[start] == '{'
    &&& source[start + 1] == '{'
    &&& forall|k: int| start + 2 <= k < end ==> is_tag_filler(#[trigger] source[k])
}

/// Whether a partial tag begins at `start` and shows its sign at `end`: two opening braces,
/// filler or none, then `>`.
pub open spec fn partial_tag_at(source: Seq<char>, start: int, end: int) -> bool {
    tag_open(source, start, end) && end < source.len() && source[end] == '>'
}

/// Whether a source holds what may be a partial tag, the tag that includes another
/// template. Every partial tag of Handlebars begins so, with or without a block; what begins
/// so inside a comment or a raw block counts too.
pub open spec fn holds_partial_tag(source: Seq<char>) -> bool {
    exists|start: int, end: int| partial_tag_at(source, start, end)
}

/// Whether none of the templates holds a partial tag.
pub open spec fn free_of_partials(templates: Map<Seq<char>, Seq<char>>) -> bool {
    forall|name: Seq<char>| templates.dom().contains(name) ==> !holds_partial_tag(#[trigger] templates[name])
}

/// Whether no name comes twice among the fields.
pub open spec fn distinct_names(fields: Seq<(Seq<char>, Seq<char>)>) -> bool {
    forall|i: int, j: int| 0 <= i < j < fields.len() ==> (#[trigger] fields[i]).0 != (#[trigger] fields[j]).0
}

/// Calls `Handlebars::new`. Claimed of it: the registry it makes holds no template and is
/// not in strict mode.
#[verifier::external_body]
fn new_registry() -> (registry: handlebars::Handlebars<'static>)
    ensures
        registered(registry) == no_templates(),
        !strict(registry),
{
    handlebars::Handlebars::new()
}

/// Calls `Handlebars::set_strict_mode`. Claimed of it: the registry is in strict mode
/// afterwards if and only if `enabled`, and holds the templates it held.
#[verifier::external_body]
fn set_strict(registry: &mut handlebars::Handlebars<'static>, enabled: bool)
    ensures
        strict(*final(registry)) == enabled,
        registered(*final(registry)) == registered(*old(registry)),
{
    registry.set_strict_mode(enabled)
}

/// Calls `Handlebars::register_template_string`. Claimed of it: where it succeeds the
/// registry holds the template under `name`, in place of an earlier one of that name, and
/// the others as before; where it fails the registry holds what it held; the mode stays.
///
/// Nothing is claimed of when it succeeds, and no name is given to that: it is not a matter
/// of the source alone. The parser behind the compiler (`pest`, its `ParserState::rule`)
/// gives up at any rule where less than 64 KiB of stack are left to the thread, or where a
/// limit on its calls that `pest::set_call_limit` sets for the whole process is reached. A
/// source that compiles in one place may so fail in another.
#[verifier::external_body]
fn register(registry: &mut handlebars::Handlebars<'static>, name: &str, source: &str) -> (done: Result<
    (),
    handlebars::TemplateError,
>)
    ensures
        done is Ok ==> registered(*final(registry)) == registered(*old(registry)).insert(name@, source@),
        done is Err ==> registered(*final(registry)) == registered(*old(registry)),
        strict(*final(registry)) == strict(*old(registry)),
{
    registry.register_template_string(name, source)
}

/// Calls `Handlebars::render` on the template registered as `which`, with a map from each
/// name in `fields` to its value as the data. Claimed of it: what comes back depends on
/// nothing but the templates held, the mode, the name and the data. Nothing is claimed of
/// the words of a failure. Templates with partial tags are left out: they may include one
/// another without end, and the call then does not return.
#[verifier::external_body]
fn render(registry: &handlebars::Handlebars<'static>, which: &str, fields: &Vec<(String, String)>) -> (text:
    Result<String, handlebars::RenderError>)
    requires
        free_of_partials(registered(*registry)),
        distinct_names(fields.deep_view()),
    ensures
        match rendering(registered(*registry), strict(*registry), which@, fields.deep_view()) {
            Some(expected) => text is Ok && text->Ok_0@ == expected,
            None => text is Err,
        },
{
    let data: std::collections::BTreeMap<&str, &str> = fields.iter().map(
        |field| (field.0.as_str(), field.1.as_str()),
    ).collect();
    registry.render(which, &data)
}

/// One of the two templates of a run.
#[derive(Debug, Clone, Copy, PartialEq, Eq, Structural)]
pub enum TemplateKind {
    /// The template of the subject line.
    Subject,
    /// The template of the body.
    Body,
}

/// What is wrong with a template.
#[derive(Debug, PartialEq, Eq)]
pub enum FaultCause {
    /// It holds a partial tag.
    Inclusion,
    /// It does not compile; the compiler's own words.
    Syntax(String),
}

/// A template that cannot be used.
#[derive(Debug, PartialEq, Eq)]
pub struct TemplateFault {
    /// Which of the two templates it is.
    pub which: TemplateKind,
    /// What is wrong with it.
    pub cause: FaultCause,
}

/// What a cause holds.
pub ghost enum CauseView {
    Inclusion,
    Syntax(Seq<char>),
}

/// What a fault holds.
pub ghost struct FaultView {
    pub which: TemplateKind,
    pub cause: CauseView,
}

impl View for FaultCause {
    type V = CauseView;

    open spec fn view(&self) -> CauseView {
        match self {
            FaultCause::Inclusion => CauseView::Inclusion,
            FaultCause::Syntax(words) => CauseView::Syntax(words@),
        }
    }
}

impl View for TemplateFault {
    type V = FaultView;

    open spec fn view(&self) -> FaultView {
        FaultView { which: self.which, cause: self.cause@ }
    }
}

/// The view of a fault that may be there.
pub open spec fn fault_view(fault: Option<TemplateFault>) -> Option<FaultView> {
    match fault {
        Some(f) => Some(f@),
        None => None,
    }
}

/// The fault that a renderer was not made for, if it was not made.
pub open spec fn fault_of(made: Result<Renderer, TemplateFault>) -> Option<FaultView> {
    match made {
        Ok(_) => None,
        Err(fault) => Some(fault@),
    }
}

/// The fault that keeps a run from starting, given what the compiler said of each template,
/// `None` for a template that it took and else its words: a partial tag in the body, one in
/// the subject, a body that does not compile, a subject that does not compile, in this
/// order; `None` where the templates can be used.
pub open spec fn startup_fault(
    subject: Seq<char>,
    body: Seq<char>,
    body_refusal: Option<Seq<char>>,
    subject_refusal: Option<Seq<char>>,
) -> Option<FaultView> {
    if holds_partial_tag(body) {
        Some(FaultView { which: TemplateKind::Body, cause: CauseView::Inclusion })
    } else if holds_partial_tag(subject) {
        Some(FaultView { which: TemplateKind::Subject, cause: CauseView::Inclusion })
    } else if body_refusal is Some {
        Some(FaultView { which: TemplateKind::Body, cause: CauseView::Syntax(body_refusal->Some_0) })
    } else if subject_refusal is Some {
        Some(
            FaultView { which: TemplateKind::Subject, cause: CauseView::Syntax(subject_refusal->Some_0) },
        )
    } else {
        None
    }
}

/// A rendering that failed.
#[derive(Debug)]
pub struct RenderFault {
    /// Which of the two templates was rendered.
    pub which: TemplateKind,
    /// The renderer's own words.
    pub detail: String,
}

/// The name that a template is registered under.
pub open spec fn template_name(which: TemplateKind) -> Seq<char> {
    match which {
        TemplateKind::Subject => "subject"@,
        TemplateKind::Body => "body"@,
    }
}

/// The names and values that the templates see of a recipient.
pub open spec fn fields_of(record: RecordView) -> Seq<(Seq<char>, Seq<char>)> {
    seq![("name"@, record.name), ("email"@, record.email), ("data"@, record.data)]
}

/// The templates of a run with these two sources.
pub open spec fn templates_of(subject: Seq<char>, body: Seq<char>) -> Map<Seq<char>, Seq<char>> {
    no_templates().insert(template_name(TemplateKind::Body), body).insert(
        template_name(TemplateKind::Subject),
        subject,
    )
}

/// What one of the templates renders to for a recipient, every value asked for having to be
/// there; `None` where the rendering fails.
pub open spec fn rendered_by(
    templates: Map<Seq<char>, Seq<char>>,
    which: TemplateKind,
    record: RecordView,
) -> Option<Seq<char>> {
    rendering(templates, true, template_name(which), fields_of(record))
}

/// Whether `text` is what a rendering of the template `which` hands out, given what the
/// template renders to.
pub open spec fn render_fits(
    expected: Option<Seq<char>>,
    which: TemplateKind,
    text: Result<String, RenderFault>,
) -> bool {
    match expected {
        Some(rendered) => text is Ok && text->Ok_0@ == rendered,
        None => text is Err && text->Err_0.which == which,
    }
}

/// The three names that the templates see of a recipient differ.
pub proof fn lemma_field_names_differ(record: RecordView)
    ensures
        distinct_names(fields_of(record)),
{
    reveal_strlit("name");
    reveal_strlit("email");
    reveal_strlit("data");
    assert("name"@.len() == 4);
    assert("email"@.len() == 5);
    assert("name"@[0] == 'n');
    assert("data"@[0] == 'd');
}

/// Two templates without a partial tag make a set of templates without one.
pub proof fn lemma_templates_free_of_partials(subject: Seq<char>, body: Seq<char>)
    requires
        !holds_partial_tag(subject),
        !holds_partial_tag(body),
    ensures
        free_of_partials(templates_of(subject, body)),
{
}

/// Rendering is repeatable: two renderings of the same template for the same recipient,
/// by renderers that hold the same templates, succeed or fail together and give the same
/// text.
pub proof fn lemma_rendering_repeats(
    first: Renderer,
    second: Renderer,
    which: TemplateKind,
    record: RecordView,
    once: Result<String, RenderFault>,
    again: Result<String, RenderFault>,
)
    requires
        first.templates() == second.templates(),
        render_fits(first.rendered(which, record), which, once),
        render_fits(second.rendered(which, record), which, again),
    ensures
        once is Ok <==> again is Ok,
        once is Ok ==> once->Ok_0@ == again->Ok_0@,
{
}

/// Tells whether a source holds what may be a partial tag.
pub fn has_partial_tag(source: &str) -> (found: bool)
    ensures
        found == holds_partial_tag(source@),
{
    let chars = to_chars(source);
    let mut armed = false;
    let ghost mut opened: int = 0;
    let mut i: usize = 0;
    while i < chars.len()
        invariant
            i <= chars.len(),
            chars@ == source@,
            armed ==> tag_open(chars@, opened, i as int),
            !armed ==> forall|start: int| !tag_open(chars@, start, i as int),
            forall|start: int, end: int| end < i ==> !partial_tag_at(chars@, start, end),
        decreases chars.len() - i,
    {
        let c = chars[i];
        if armed && c == '>' {
            assert(partial_tag_at(chars@, opened, i as int));
            return true;
        }
        let filler = c == ' ' || c == '\t' || c == '\n' || c == '\r' || c == '~' || c == '#';
        let opens = i >= 1 && chars[i - 1] == '{' && c == '{';
        let ghost was_armed = armed;
        if opens {
            armed = true;
            proof {
                opened = i - 1;
            }
        } else if !(armed && filler) {
            armed = false;
        }
        proof {
            let next: int = i + 1;
            if !armed {
                assert forall|start: int| !tag_open(chars@, start, next) by {
                    if tag_open(chars@, start, next) {
                        if start + 2 <= i {
                            assert(tag_open(chars@, start, i as int));
                            assert(is_tag_filler(chars@[i as int]));
                        }
                    }
                }
            }
            assert forall|start: int, end: int| end < next implies !partial_tag_at(chars@, start, end) by {
                if end == i && partial_tag_at(chars@, start, end) {
                    assert(tag_open(chars@, start, i as int));
                    assert(was_armed);
                }
            }
        }
        i = i + 1;
    }
    false
}

/// Decides whether the templates can be used, given what the compiler said of each: `None`
/// for a template that it took, else its words.
pub fn template_fault(
    subject: &str,
    body: &str,
    body_refusal: Option<String>,
    subject_refusal: Option<String>,
) -> (fault: Option<TemplateFault>)
    ensures
        fault_view(fault) == startup_fault(
            subject@,
            body@,
            text_view(body_refusal),
            text_view(subject_refusal),
        ),
{
    if has_partial_tag(body) {
        return Some(TemplateFault { which: TemplateKind::Body, cause: FaultCause::Inclusion });
    }
    if has_partial_tag(subject) {
        return Some(TemplateFault { which: TemplateKind::Subject, cause: FaultCause::Inclusion });
    }
    if let Some(words) = body_refusal {
        return Some(TemplateFault { which: TemplateKind::Body, cause: FaultCause::Syntax(words) });
    }
    if let Some(words) = subject_refusal {
        return Some(TemplateFault { which: TemplateKind::Subject, cause: FaultCause::Syntax(words) });
    }
    None
}

impl RecipientRecord {
    /// The names and values that the templates see of this recipient.
    pub fn fields(&self) -> (fields: Vec<(String, String)>)
        ensures
            fields.deep_view() == fields_of(self@),
    {
        let mut fields: Vec<(String, String)> = Vec::new();
        fields.push((String::from_str("name"), self.name.clone()));
        fields.push((String::from_str("email"), self.email.clone()));
        fields.push((String::from_str("data"), self.data.clone()));
        assert(fields.deep_view() =~= fields_of(self@));
        fields
    }
}

/// The compiled templates of subject and body.
pub struct Renderer {
    registry: handlebars::Handlebars<'static>,
}

impl Renderer {
    /// What holds of every renderer: none of its templates holds a partial tag, and a value
    /// that is not there fails the rendering.
    #[verifier::type_invariant]
    closed spec fn sound(&self) -> bool {
        free_of_partials(registered(self.registry)) && strict(self.registry)
    }

    /// The sources of the templates held, by name.
    pub closed spec fn templates(&self) -> Map<Seq<char>, Seq<char>> {
        registered(self.registry)
    }

    /// What the template `which` renders to for `record`; `None` where the rendering fails.
    pub open spec fn rendered(&self, which: TemplateKind, record: RecordView) -> Option<Seq<char>> {
        rendered_by(self.templates(), which, record)
    }

    /// Compiles the two templates and makes the renderer, or says which fault keeps the run
    /// from starting.
    ///
    /// A template that holds a partial tag is refused before anything is compiled. Then the
    /// body is compiled and, where that went well, the subject. Whether a template compiles
    /// is the compiler's to say: the fault is the one that `startup_fault` gives for what
    /// the compiler said.
    pub fn new(subject: &str, body: &str) -> (made: Result<Renderer, TemplateFault>)
        ensures
            made matches Ok(renderer) ==> renderer.templates() == templates_of(subject@, body@),
            (made matches Err(fault) && fault.cause is Inclusion) <==> (holds_partial_tag(body@)
                || holds_partial_tag(subject@)),
            exists|body_refusal: Option<Seq<char>>, subject_refusal: Option<Seq<char>>|
                fault_of(made) == #[trigger] startup_fault(subject@, body@, body_refusal, subject_refusal),
    {
        if let Some(fault) = template_fault(subject, body, None, None) {
            assert(fault_of(Err::<Renderer, TemplateFault>(fault)) == startup_fault(
                subject@,
                body@,
                None,
                None,
            ));
            return Err(fault);
        }
        let mut registry = new_registry();
        set_strict(&mut registry, true);
        let body_refusal = match register(&mut registry, "body", body) {
            Ok(_) => None,
            Err(error) => Some(error.to_string()),
        };
        let subject_refusal = if body_refusal.is_none() {
            match register(&mut registry, "subject", subject) {
                Ok(_) => None,
                Err(error) => Some(error.to_string()),
            }
        } else {
            None
        };
        let ghost body_words = text_view(body_refusal);
        let ghost subject_words = text_view(subject_refusal);
        match template_fault(subject, body, body_refusal, subject_refusal) {
            Some(fault) => {
                assert(fault@ == startup_fault(subject@, body@, body_words, subject_words)->Some_0);
                assert(fault_of(Err::<Renderer, TemplateFault>(fault)) == startup_fault(
                    subject@,
                    body@,
                    body_words,
                    subject_words,
                ));
                Err(fault)
            },
            None => {
                proof {
                    lemma_templates_free_of_partials(subject@, body@);
                }
                let renderer = Renderer { registry };
                assert(fault_of(Ok::<Renderer, TemplateFault>(renderer)) == startup_fault(
                    subject@,
                    body@,
                    body_words,
                    subject_words,
                ));
                Ok(renderer)
            },
        }
    }

    /// Renders one of the two templates for a recipient.
    pub fn render(&self, which: TemplateKind, record: &RecipientRecord) -> (text: Result<String, RenderFault>)
        ensures
            render_fits(self.rendered(which, record@), which, text),
    {
        proof {
            use_type_invariant(self);
            lemma_field_names_differ(record@);
        }
        let fields = record.fields();
        let name = match which {
            TemplateKind::Subject => "subject",
            TemplateKind::Body => "body",
        };
        match render(&self.registry, name, &fields) {
            Ok(text) => Ok(text),
            Err(error) => Err(RenderFault { which, detail: error.to_string() }),
        }
    }
}

} // verus!
