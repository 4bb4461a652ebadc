use vstd::prelude::*;

use orgize::export::HtmlHandler;

use crate::DiscoveryError;
use crate::Project;
use crate::discovery::DirSettings;
use crate::discovery::FileEntry;
use crate::discovery::RawEntry;
use crate::paths::SysPath;
use crate::text::eq_ci;
use crate::text::html_name;
use crate::text::opt_text;
use crate::text::html_name_of;
use crate::text::str_eq_ci;

verus! {

/// One element of a parsed document, as the export layer sees it: a metadata
/// keyword with its key and value, or any other node with its standard markup
/// for one side of the visit.
pub enum DocElement {
    Keyword { key: String, value: String },
    Other { html: String },
}

pub enum DocElementView {
    Keyword { key: Seq<char>, value: Seq<char> },
    Other { html: Seq<char> },
}

impl View for DocElement {
    type V = DocElementView;

    open spec fn view(&self) -> DocElementView {
        match self {
            DocElement::Keyword { key, value } => DocElementView::Keyword {
                key: key@,
                value: value@,
            },
            DocElement::Other { html } => DocElementView::Other { html: html@ },
        }
    }
}

impl DeepView for DocElement {
    type V = DocElementView;

    open spec fn deep_view(&self) -> DocElementView {
        self.view()
    }
}

/// One visit event: entering or leaving an element, in document order.
pub struct DocEvent {
    pub enter: bool,
    pub element: DocElement,
}

pub struct DocEventView {
    pub enter: bool,
    pub element: DocElementView,
}

impl View for DocEvent {
    type V = DocEventView;

    open spec fn view(&self) -> DocEventView {
        DocEventView { enter: self.enter, element: self.element@ }
    }
}

impl DeepView for DocEvent {
    type V = DocEventView;

    open spec fn deep_view(&self) -> DocEventView {
        self.view()
    }
}

#[verifier::external_type_specification]
#[verifier::external_body]
pub struct ExElement<'a>(orgize::Element<'a>);

/// The visit events a document's text parses into, in document order.
pub uninterp spec fn org_events(text: Seq<char>) -> Seq<DocEventView>;

/// Relies on orgize's Element: a Keyword carries its key and value; any other
/// element's standard markup for the entering or leaving side comes from
/// DefaultHtmlHandler writing into a buffer. Standard markup is deliberately
/// the default handler's alone: source blocks keep their plain `pre` form,
/// with no syntax highlighting layered on top.
#[verifier::external_body]
fn element_event(enter: bool, element: &orgize::Element) -> (r: DocEvent) {
    match element {
        orgize::Element::Keyword(k) => DocEvent {
            enter,
            element: DocElement::Keyword { key: k.key.to_string(), value: k.value.to_string() },
        },
        other => {
            let mut buf: Vec<u8> = Vec::new();
            let mut h = orgize::export::DefaultHtmlHandler;
            let _ = if enter { h.start(&mut buf, other) } else { h.end(&mut buf, other) };
            let html = String::from_utf8_lossy(&buf).into_owned();
            DocEvent { enter, element: DocElement::Other { html } }
        },
    }
}

/// Relies on orgize's Org::parse and Org::iter: the text parses into a tree
/// whose elements are visited in document order, each entered and left once;
/// the events are a function of the text alone.
#[verifier::external_body]
fn parse_org_events(text: &str) -> (r: Vec<DocEvent>)
    ensures
        r.deep_view() == org_events(text@),
{
    let org = orgize::Org::parse(text);
    let mut out: Vec<DocEvent> = Vec::new();
    for event in org.iter() {
        out.push(match event {
            orgize::Event::Start(e) => element_event(true, e),
            orgize::Event::End(e) => element_event(false, e),
        });
    }
    out
}

/// The markup a keyword emits on entry: a date becomes an inline element with
/// a `date` class, a time becomes a top-level heading, and any other keyword
/// passes through silently.
pub open spec fn keyword_html(key: Seq<char>, value: Seq<char>) -> Seq<char> {
    if eq_ci(key, "date"@) {
        "<span class=\"date\">"@ + value + "</span>"@
    } else if eq_ci(key, "time"@) {
        "<h1>"@ + value + "</h1>"@
    } else {
        Seq::empty()
    }
}

/// The markup one visit event emits.
pub open spec fn event_html(ev: DocEventView) -> Seq<char> {
    match ev.element {
        DocElementView::Keyword { key, value } => if ev.enter {
            keyword_html(key, value)
        } else {
            Seq::empty()
        },
        DocElementView::Other { html } => html,
    }
}

/// The markup a whole visit emits: each event's markup, in order.
pub open spec fn render_events_text(evs: Seq<DocEventView>) -> Seq<char>
    decreases evs.len(),
{
    if evs.len() == 0 {
        Seq::empty()
    } else {
        render_events_text(evs.drop_last()) + event_html(evs.last())
    }
}

/// The value of the first entered keyword with the given key, if any.
pub open spec fn first_keyword(evs: Seq<DocEventView>, key: Seq<char>) -> Option<Seq<char>>
    decreases evs.len(),
{
    if evs.len() == 0 {
        None
    } else {
        match first_keyword(evs.drop_last(), key) {
            Some(v) => Some(v),
            None => keyword_capture(evs.last(), key),
        }
    }
}

/// What one event contributes to metadata capture for the given key.
pub open spec fn keyword_capture(ev: DocEventView, key: Seq<char>) -> Option<Seq<char>> {
    match ev.element {
        DocElementView::Keyword { key: k, value: v } => if ev.enter && eq_ci(k, key) {
            Some(v)
        } else {
            None
        },
        DocElementView::Other { .. } => None,
    }
}

/// The export visitor: it folds visit events into markup, with the keyword
/// overrides, and harvests the page's title and date on the way.
pub struct CustomHtmlHandler {
    pub output: String,
    pub title: Option<String>,
    pub date: Option<String>,
}

impl CustomHtmlHandler {
    pub fn new() -> (r: CustomHtmlHandler)
        ensures
            r.output@ == Seq::<char>::empty(),
            r.title is None,
            r.date is None,
    {
        CustomHtmlHandler { output: String::new(), title: None, date: None }
    }

    /// Handles entering an element: a date keyword renders as an inline
    /// element with a `date` class, a time keyword as a heading, another
    /// keyword as nothing, and any other element as its standard markup; a
    /// first title or date keyword is recorded.
    pub fn start(&mut self, element: &DocElement)
        ensures
            final(self).output@ == old(self).output@ + event_html(
                DocEventView { enter: true, element: element@ },
            ),
            opt_text(final(self).title) == meta_join(
                opt_text(old(self).title),
                DocEventView { enter: true, element: element@ },
                "title"@,
            ),
            opt_text(final(self).date) == meta_join(
                opt_text(old(self).date),
                DocEventView { enter: true, element: element@ },
                "date"@,
            ),
    {
        match element {
            DocElement::Keyword { key, value } => {
                if str_eq_ci(key.as_str(), "date") {
                    self.output.append("<span class=\"date\">");
                    self.output.append(value.as_str());
                    self.output.append("</span>");
                } else if str_eq_ci(key.as_str(), "time") {
                    self.output.append("<h1>");
                    self.output.append(value.as_str());
                    self.output.append("</h1>");
                }
                if self.title.is_none() && str_eq_ci(key.as_str(), "title") {
                    self.title = Some(value.clone());
                }
                if self.date.is_none() && str_eq_ci(key.as_str(), "date") {
                    self.date = Some(value.clone());
                }
            },
            DocElement::Other { html } => {
                self.output.append(html.as_str());
            },
        }
    }

    /// Handles leaving an element: a keyword emits nothing, any other element
    /// its standard leaving markup; metadata is untouched.
    pub fn end(&mut self, element: &DocElement)
        ensures
            final(self).output@ == old(self).output@ + event_html(
                DocEventView { enter: false, element: element@ },
            ),
            final(self).title == old(self).title,
            final(self).date == old(self).date,
    {
        match element {
            DocElement::Keyword { .. } => {},
            DocElement::Other { html } => {
                self.output.append(html.as_str());
            },
        }
    }
}

/// What a capture already made, joined with one more event: the first find
/// wins.
pub open spec fn meta_join(cur: Option<Seq<char>>, ev: DocEventView, key: Seq<char>) -> Option<
    Seq<char>,
> {
    match cur {
        Some(v) => Some(v),
        None => keyword_capture(ev, key),
    }
}

/// A document's whole markup: the visit events of its text, folded in order.
pub open spec fn document_html(text: Seq<char>) -> Seq<char> {
    render_events_text(org_events(text))
}

/// Parses a document's text and renders it through the export visitor.
pub fn export_document(contents: &str) -> (r: CustomHtmlHandler)
    ensures
        r.output@ == document_html(contents@),
        opt_text(r.title) == first_keyword(org_events(contents@), "title"@),
        opt_text(r.date) == first_keyword(org_events(contents@), "date"@),
{
    let events = parse_org_events(contents);
    let mut handler = CustomHtmlHandler::new();
    let mut i: usize = 0;
    proof {
        assert(events.deep_view().take(0int) =~= Seq::<DocEventView>::empty());
    }
    while i < events.len()
        invariant
            i <= events.len(),
            events.deep_view() == org_events(contents@),
            events.deep_view().len() == events@.len(),
            handler.output@ == render_events_text(events.deep_view().take(i as int)),
            opt_text(handler.title) == first_keyword(events.deep_view().take(i as int), "title"@),
            opt_text(handler.date) == first_keyword(events.deep_view().take(i as int), "date"@),
        decreases events.len() - i,
    {
        let ev = &events[i];
        let ghost evv = events.deep_view()[i as int];
        proof {
            assert(evv == events@[i as int].deep_view());
        }
        if ev.enter {
            handler.start(&ev.element);
        } else {
            handler.end(&ev.element);
        }
        proof {
            let taken = events.deep_view().take(i as int + 1);
            assert(taken.drop_last() =~= events.deep_view().take(i as int));
            assert(taken.last() == evv);
            if !ev.enter {
                assert(keyword_capture(evv, "title"@) is None);
                assert(keyword_capture(evv, "date"@) is None);
            }
        }
        i += 1;
    }
    proof {
        assert(events.deep_view().take(events@.len() as int) =~= events.deep_view());
    }
    handler
}

/// One rendered page's record: its output file name and the metadata the
/// visit harvested.
pub struct RenderedPage {
    pub file_name: String,
    pub title: Option<String>,
    pub date: Option<String>,
}

pub struct PageModel {
    pub file_name: Seq<char>,
    pub title: Option<Seq<char>>,
    pub date: Option<Seq<char>>,
}

impl View for RenderedPage {
    type V = PageModel;

    open spec fn view(&self) -> PageModel {
        PageModel {
            file_name: self.file_name@,
            title: opt_text(self.title),
            date: opt_text(self.date),
        }
    }
}

impl RenderedPage {
    /// A copy of the page record.
    pub fn duplicate(&self) -> (r: RenderedPage)
        ensures
            r@ == self@,
    {
        RenderedPage {
            file_name: self.file_name.clone(),
            title: match &self.title {
                Some(t) => Some(t.clone()),
                None => None,
            },
            date: match &self.date {
                Some(d) => Some(d.clone()),
                None => None,
            },
        }
    }
}

/// A planned render: read `source`, render it, write the markup to `dest`.
/// Output file names are flat under the publish root: the source's base name
/// with its extension replaced, whatever directory it was found in.
pub struct RenderJob {
    pub source: SysPath,
    pub dest: SysPath,
    pub file_name: String,
}

/// One exported document: where its markup goes, the markup itself, and the
/// page record the aggregators consume.
pub struct ExportedPage {
    pub dest: SysPath,
    pub html: String,
    pub page: RenderedPage,
}

/// The transformer of the render action: it turns each discovered document
/// into markup under the publish root.
pub struct PublishBuilder {
    pub dir_settings: DirSettings,
}

impl PublishBuilder {
    /// Builds the render transformer for one project; the arguments are those
    /// of the file-set gathering it performs.
    pub fn from_project(
        project: &Project,
        root: &SysPath,
        canonical_source: SysPath,
        listing: &Vec<RawEntry>,
    ) -> (r: Result<PublishBuilder, DiscoveryError>)
        requires
            root.absolute,
        ensures
            r is Ok <==> crate::discovery::patterns_ok(
                crate::discovery::include_patterns(crate::text::opt_text(project.base_extension)),
            ) && crate::discovery::patterns_ok(
                crate::discovery::trimmed_patterns(project.exclude.deep_view()),
            ),
            r matches Ok(b) ==> crate::discovery::settings_for(
                b.dir_settings,
                *project,
                root@,
                canonical_source,
                listing@,
            ),
            r matches Err(e) ==> e is BadPattern,
    {
        match DirSettings::new_from_project(project, root, canonical_source, listing) {
            Ok(ds) => Ok(PublishBuilder { dir_settings: ds }),
            Err(e) => Err(e),
        }
    }

    /// Plans the render of the whole file set: one job per discovered file,
    /// in the file set's order, each writing its page flat under the publish
    /// root.
    pub fn build(&self) -> (r: Vec<RenderJob>)
        requires
            self.dir_settings.wf(),
        ensures
            r@.len() == self.dir_settings.files@.len(),
            forall|i: int|
                0 <= i < r@.len() ==> {
                    let name = self.dir_settings.files@[i].rel@.parts.last();
                    &&& (#[trigger] r@[i]).source@ == self.dir_settings.files@[i].path@
                    &&& r@[i].file_name@ == html_name_of(name)
                    &&& r@[i].dest@.absolute == self.dir_settings.publish_dir@.absolute
                    &&& r@[i].dest@.parts == self.dir_settings.publish_dir@.parts.push(
                        html_name_of(name),
                    )
                },
    {
        let mut jobs: Vec<RenderJob> = Vec::new();
        let n = self.dir_settings.files.len();
        let mut i: usize = 0;
        while i < n
            invariant
                i <= n,
                n == self.dir_settings.files@.len(),
                self.dir_settings.wf(),
                jobs@.len() == i,
                forall|k: int|
                    0 <= k < i ==> {
                        let name = self.dir_settings.files@[k].rel@.parts.last();
                        &&& (#[trigger] jobs@[k]).source@ == self.dir_settings.files@[k].path@
                        &&& jobs@[k].file_name@ == html_name_of(name)
                        &&& jobs@[k].dest@.absolute == self.dir_settings.publish_dir@.absolute
                        &&& jobs@[k].dest@.parts == self.dir_settings.publish_dir@.parts.push(
                            html_name_of(name),
                        )
                    },
            decreases n - i,
        {
            let entry = &self.dir_settings.files[i];
            let last = entry.rel.parts.len() - 1;
            let name = html_name((&entry.rel.parts[last]).as_str());
            let mut dest = self.dir_settings.publish_dir.duplicate();
            dest.push_part(name.clone());
            jobs.push(
                RenderJob { source: entry.path.duplicate(), dest, file_name: name },
            );
            i += 1;
        }
        jobs
    }

    /// Exports one discovered document: the markup of its text, the page
    /// record, and the flat destination its markup belongs at.
    pub fn export_html(&self, file: &FileEntry, contents: &str) -> (r: ExportedPage)
        requires
            self.dir_settings.wf(),
            !file.rel.absolute,
            1 <= file.rel@.parts.len(),
        ensures
            r.html@ == document_html(contents@),
            opt_text(r.page.title) == first_keyword(org_events(contents@), "title"@),
            opt_text(r.page.date) == first_keyword(org_events(contents@), "date"@),
            r.page.file_name@ == html_name_of(file.rel@.parts.last()),
            r.dest@.absolute == self.dir_settings.publish_dir@.absolute,
            r.dest@.parts == self.dir_settings.publish_dir@.parts.push(
                html_name_of(file.rel@.parts.last()),
            ),
    {
        let handler = export_document(contents);
        let last = file.rel.parts.len() - 1;
        let name = html_name((&file.rel.parts[last]).as_str());
        let mut dest = self.dir_settings.publish_dir.duplicate();
        dest.push_part(name.clone());
        ExportedPage {
            dest,
            html: handler.output,
            page: RenderedPage { file_name: name, title: handler.title, date: handler.date },
        }
    }
}

} // verus!
