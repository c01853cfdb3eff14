//! Finding a book's industry identifiers in its EPUB package, and where a
//! local book's identifiers come from.
use vstd::prelude::*;

use quick_xml::events::Event::{Empty, End, Eof, Start, Text};
use quick_xml::Reader;

use crate::text::{chars_of, starts_with};

verus! {

/// quick-xml's pull reader, carried through opaquely.
#[verifier::external_type_specification]
#[verifier::external_body]
#[verifier::reject_recursive_types(R)]
pub struct ExReader<R>(Reader<R>);

/// One event of an XML document, as the library reads it.
#[derive(Debug)]
pub enum XmlEvent {
    /// A start tag, by its local name.
    Start(String),
    /// An end tag, by its local name.
    End(String),
    /// An empty element: its name as written, and each attribute as its name
    /// and unescaped value (`None` for an attribute, or a value, that could
    /// not be read).
    Empty(String, Vec<Option<(String, Option<String>)>>),
    /// Character data, as written.
    Text(String),
    Eof,
    /// The document is malformed.
    Failed(String),
    /// Any other markup.
    Other,
}

/// An XML event as mathematical values.
pub enum EventView {
    Start(Seq<char>),
    End(Seq<char>),
    Empty(Seq<char>, Seq<Option<(Seq<char>, Option<Seq<char>>)>>),
    Text(Seq<char>),
    Eof,
    Failed(Seq<char>),
    Other,
}

pub open spec fn result_view(r: Result<String, String>) -> Result<Seq<char>, Seq<char>> {
    match r {
        Ok(v) => Ok(v@),
        Err(e) => Err(e@),
    }
}

pub open spec fn attribute_view(a: Option<(String, Option<String>)>) -> Option<
    (Seq<char>, Option<Seq<char>>),
> {
    match a {
        Some((k, Some(v))) => Some((k@, Some(v@))),
        Some((k, None)) => Some((k@, None)),
        None => None,
    }
}

pub open spec fn attributes_view(a: Seq<Option<(String, Option<String>)>>) -> Seq<
    Option<(Seq<char>, Option<Seq<char>>)>,
> {
    a.map_values(|x: Option<(String, Option<String>)>| attribute_view(x))
}

pub open spec fn event_view(e: XmlEvent) -> EventView {
    match e {
        XmlEvent::Start(n) => EventView::Start(n@),
        XmlEvent::End(n) => EventView::End(n@),
        XmlEvent::Empty(n, a) => EventView::Empty(n@, attributes_view(a@)),
        XmlEvent::Text(t) => EventView::Text(t@),
        XmlEvent::Eof => EventView::Eof,
        XmlEvent::Failed(m) => EventView::Failed(m@),
        XmlEvent::Other => EventView::Other,
    }
}

pub open spec fn event_views(events: Seq<XmlEvent>) -> Seq<EventView> {
    events.map_values(|e: XmlEvent| event_view(e))
}

/// Whether reading stops at `e`: the end of the document or a failure.
pub open spec fn is_terminal(e: EventView) -> bool {
    e is Eof || e is Failed
}

/// The events that quick-xml's reader gives for `doc`: one for each call of
/// `read_event` on a reader made by `Reader::from_str`, up to and including
/// the first end of document or failure.
pub uninterp spec fn xml_events_of(doc: Seq<char>) -> Seq<EventView>;

/// Relies on `quick_xml::Reader::from_str`: a reader positioned at the start
/// of `doc`.
#[verifier::external_body]
fn xml_reader<'a>(doc: &'a str) -> Reader<&'a [u8]> {
    Reader::from_str(doc)
}

/// A reader of one document, with how many of its events have been read and
/// whether the last of them has.
pub struct XmlReader<'a> {
    reader: Reader<&'a [u8]>,
    doc: Ghost<Seq<char>>,
    count: Ghost<nat>,
    done: Ghost<bool>,
}

impl<'a> XmlReader<'a> {
    fn new(doc: &'a str) -> (r: XmlReader<'a>)
        ensures
            r.doc@ == doc@,
            r.count@ == 0,
            !r.done@,
    {
        XmlReader { reader: xml_reader(doc), doc: Ghost(doc@), count: Ghost(0nat), done: Ghost(false) }
    }

    /// Relies on `quick_xml::Reader::read_event`: the next event of the
    /// document, converted to plain values.
    #[verifier::external_body]
    #[allow(deprecated)]
    fn next_event(&mut self) -> (r: XmlEvent)
        requires
            !old(self).done@,
        ensures
            final(self).doc == old(self).doc,
            final(self).count@ == old(self).count@ + 1,
            old(self).count@ < xml_events_of(old(self).doc@).len(),
            event_view(r) == xml_events_of(old(self).doc@)[old(self).count@ as int],
            final(self).done@ == is_terminal(event_view(r)),
            is_terminal(event_view(r)) <==> final(self).count@ == xml_events_of(old(self).doc@).len(),
    {
        let event = match self.reader.read_event() {
            Ok(event) => event,
            Err(e) => return XmlEvent::Failed(e.to_string())
        };
        match event {
            Start(b) => XmlEvent::Start(b.local_name().as_ref().into()),
            End(b) => XmlEvent::End(b.local_name().as_ref().into()),
            Empty(b) => XmlEvent::Empty(b.name().as_ref().into(), b.attributes().map(|a| a.ok().map(|a| (a.key.as_ref().into(), a.unescape_value().ok().map(String::from)))).collect()),
            Text(b) => XmlEvent::Text(b.to_string()),
            Eof => XmlEvent::Eof,
            _ => XmlEvent::Other
        }
    }
}

/// Whether `char::is_alphanumeric` holds of `c`.
pub uninterp spec fn alphanumeric(c: char) -> bool;

/// Relies on `char::is_alphanumeric`: whether `c` is a Unicode letter or
/// number. Among ASCII characters these are exactly the digits and the
/// letters.
#[verifier::external_body]
fn is_alphanumeric(c: char) -> (r: bool)
    ensures
        r == alphanumeric(c),
        c <= '\x7f' ==> (r <==> (('0' <= c && c <= '9') || ('a' <= c && c <= 'z') || ('A' <= c
            && c <= 'Z'))),
{
    c.is_alphanumeric()
}

/// The number of bytes that UTF-8 takes for `c`.
pub open spec fn utf8_width(c: char) -> nat {
    if c <= '\x7f' {
        1
    } else if c <= '\u{7ff}' {
        2
    } else if c <= '\u{ffff}' {
        3
    } else {
        4
    }
}

/// The number of bytes that UTF-8 takes for `s`.
pub open spec fn utf8_len(s: Seq<char>) -> nat
    decreases s.len(),
{
    if s.len() == 0 {
        0
    } else {
        utf8_len(s.drop_last()) + utf8_width(s.last())
    }
}

/// The letters and numbers of `s`, in order.
pub open spec fn alphanumerics(s: Seq<char>) -> Seq<char>
    decreases s.len(),
{
    if s.len() == 0 {
        s
    } else if alphanumeric(s.last()) {
        alphanumerics(s.drop_last()).push(s.last())
    } else {
        alphanumerics(s.drop_last())
    }
}

/// The position of the last `:` in `s`, if any.
pub open spec fn last_colon(s: Seq<char>) -> Option<int>
    decreases s.len(),
{
    if s.len() == 0 {
        None
    } else if s.last() == ':' {
        Some(s.len() - 1)
    } else {
        last_colon(s.drop_last())
    }
}

/// The identifier that an identifier element's text names: its letters and
/// numbers after its last `:`, where they take 10 or 13 bytes.
pub open spec fn identifier_in(content: Seq<char>) -> Option<Seq<char>> {
    let tail = match last_colon(content) {
        Some(i) => content.skip(i),
        None => content,
    };
    let id = alphanumerics(tail);
    if utf8_len(id) == 10 || utf8_len(id) == 13 {
        Some(id)
    } else {
        None
    }
}

fn width(c: char) -> (r: usize)
    ensures
        r == utf8_width(c),
{
    if c <= '\x7f' {
        1
    } else if c <= '\u{7ff}' {
        2
    } else if c <= '\u{ffff}' {
        3
    } else {
        4
    }
}

/// The identifier that an identifier element's text names, if any.
pub fn identifier_from_text(content: &str) -> (r: Option<String>)
    ensures
        match identifier_in(content@) {
            Some(id) => r matches Some(s) && s@ == id,
            None => r is None,
        },
{
    let c = chars_of(content);
    let n = c.len();
    let mut end: usize = n;
    assert(content@.take(n as int) =~= content@);
    while end > 0 && c[end - 1] != ':'
        invariant
            c@ == content@,
            n == c@.len(),
            end <= n,
            last_colon(content@) == last_colon(content@.take(end as int)),
        decreases end,
    {
        assert(content@.take(end as int).drop_last() =~= content@.take(end - 1));
        end = end - 1;
    }
    let start: usize = if end > 0 {
        end - 1
    } else {
        0
    };
    proof {
        if end > 0 {
            assert(content@.take(end as int).last() == ':');
            assert(last_colon(content@) == Some((end - 1) as int));
        } else {
            assert(content@.take(0) =~= Seq::<char>::empty());
            assert(content@.skip(0) =~= content@);
        }
    }
    let ghost tail = content@.skip(start as int);
    assert(tail =~= match last_colon(content@) {
        Some(i) => content@.skip(i),
        None => content@,
    });
    let mut out = String::new();
    let mut bytes: usize = 0;
    let mut i: usize = start;
    while i < n
        invariant
            c@ == content@,
            n == c@.len(),
            start <= i <= n,
            tail == content@.skip(start as int),
            out@ == alphanumerics(tail.take(i - start)),
            utf8_len(out@) <= 13 ==> bytes == utf8_len(out@),
            utf8_len(out@) > 13 ==> bytes > 13,
            bytes <= 17,
        decreases n - i,
    {
        assert(tail.take(i + 1 - start).drop_last() =~= tail.take(i - start));
        if is_alphanumeric(c[i]) {
            let one = content.substring_char(i, i + 1);
            assert(one@ =~= seq![c@[i as int]]);
            let ghost before = out@;
            out.append(one);
            assert(out@.drop_last() =~= before);
            if bytes <= 13 {
                bytes = bytes + width(c[i]);
            }
        }
        i = i + 1;
    }
    assert(tail.take(n - start) =~= tail);
    if bytes == 10 || bytes == 13 {
        Some(out)
    } else {
        None
    }
}

/// Whether `s` is a well-formed identifier: letters and numbers taking 10 or
/// 13 bytes.
pub open spec fn is_identifier(s: Seq<char>) -> bool {
    (utf8_len(s) == 10 || utf8_len(s) == 13) && forall|i: int|
        0 <= i < s.len() ==> alphanumeric(#[trigger] s[i])
}

proof fn lemma_alphanumerics(s: Seq<char>)
    ensures
        forall|i: int| 0 <= i < alphanumerics(s).len() ==> alphanumeric(#[trigger] alphanumerics(s)[i]),
    decreases s.len(),
{
    if s.len() > 0 {
        lemma_alphanumerics(s.drop_last());
        let p = alphanumerics(s.drop_last());
        if alphanumeric(s.last()) {
            assert forall|i: int| 0 <= i < p.push(s.last()).len() implies alphanumeric(
                #[trigger] p.push(s.last())[i],
            ) by {
                if i < p.len() {
                    assert(p.push(s.last())[i] == p[i]);
                }
            }
        }
    }
}

proof fn lemma_identifier_well_formed(content: Seq<char>)
    requires
        identifier_in(content) is Some,
    ensures
        is_identifier(identifier_in(content)->0),
{
    let tail = match last_colon(content) {
        Some(i) => content.skip(i),
        None => content,
    };
    lemma_alphanumerics(tail);
}

fn contains_text(v: &Vec<String>, s: &String) -> (r: bool)
    ensures
        r == exists|i: int| 0 <= i < v@.len() && #[trigger] v@[i]@ == s@,
{
    let mut i: usize = 0;
    while i < v.len()
        invariant
            i <= v@.len(),
            forall|j: int| 0 <= j < i ==> #[trigger] v@[j]@ != s@,
        decreases v.len() - i,
    {
        if v[i] == *s {
            return true;
        }
        i = i + 1;
    }
    false
}

/// Whether `ids` are well-formed identifiers, no two the same.
pub open spec fn distinct_identifiers(ids: Seq<Seq<char>>) -> bool {
    &&& forall|i: int| 0 <= i < ids.len() ==> is_identifier(#[trigger] ids[i])
    &&& forall|i: int, j: int| 0 <= i < j < ids.len() ==> #[trigger] ids[i] != #[trigger] ids[j]
}

fn is_name(name: &String, expected: &str) -> (r: bool)
    ensures
        r == (name@ == expected@),
{
    *name == String::from_str(expected)
}

/// How far reading an EPUB package document's identifiers has come.
#[derive(Debug)]
pub struct IdentifierScan {
    /// The identifiers found so far, in order, each once.
    pub ids: Vec<String>,
    pub metadata_open: bool,
    pub identifier_open: bool,
}

/// Whether reading goes on after an event.
#[derive(Debug, PartialEq, Eq)]
pub enum ScanStep {
    Continue,
    Done,
    Failed(String),
}

/// A scan as mathematical values.
pub struct ScanView {
    pub ids: Seq<Seq<char>>,
    pub metadata_open: bool,
    pub identifier_open: bool,
}

pub enum StepView {
    Continue,
    Done,
    Failed(Seq<char>),
}

pub open spec fn scan_view(s: IdentifierScan) -> ScanView {
    ScanView {
        ids: crate::text::views(s.ids@),
        metadata_open: s.metadata_open,
        identifier_open: s.identifier_open,
    }
}

pub open spec fn step_view(r: ScanStep) -> StepView {
    match r {
        ScanStep::Continue => StepView::Continue,
        ScanStep::Done => StepView::Done,
        ScanStep::Failed(m) => StepView::Failed(m@),
    }
}

/// What reading event `e` does to scan `s`: `metadata` opens the metadata and
/// ends reading when it closes; an `identifier` opened inside the metadata has
/// its text read as an identifier, kept where it is new; the end of the
/// document ends reading and a failure fails it.
pub open spec fn scan_step(s: ScanView, e: EventView) -> (ScanView, StepView) {
    match e {
        EventView::Start(name) => (
            ScanView {
                ids: s.ids,
                metadata_open: s.metadata_open || name == "metadata"@,
                identifier_open: if name != "metadata"@ && name == "identifier"@ {
                    s.metadata_open
                } else {
                    s.identifier_open
                },
            },
            StepView::Continue,
        ),
        EventView::End(name) => if name == "metadata"@ {
            (s, StepView::Done)
        } else if name == "identifier"@ {
            (
                ScanView { ids: s.ids, metadata_open: s.metadata_open, identifier_open: false },
                StepView::Continue,
            )
        } else {
            (s, StepView::Continue)
        },
        EventView::Text(content) => if s.identifier_open && identifier_in(content) is Some
            && !s.ids.contains(identifier_in(content)->0) {
            (
                ScanView {
                    ids: s.ids.push(identifier_in(content)->0),
                    metadata_open: s.metadata_open,
                    identifier_open: s.identifier_open,
                },
                StepView::Continue,
            )
        } else {
            (s, StepView::Continue)
        },
        EventView::Eof => (s, StepView::Done),
        EventView::Failed(m) => (s, StepView::Failed("Error reading oebps file "@ + m)),
        _ => (s, StepView::Continue),
    }
}

/// Reading `events` from the `i`-th on into scan `s`: the identifiers found
/// when reading ends, or why it failed. Running out of events ends reading.
pub open spec fn scan_from(events: Seq<EventView>, i: int, s: ScanView) -> Result<
    Seq<Seq<char>>,
    Seq<char>,
>
    decreases events.len() - i,
{
    if i < 0 || i >= events.len() {
        Ok(s.ids)
    } else {
        let (t, step) = scan_step(s, events[i]);
        match step {
            StepView::Continue => scan_from(events, i + 1, t),
            StepView::Done => Ok(t.ids),
            StepView::Failed(m) => Err(m),
        }
    }
}

/// The identifiers that reading a package document's `events` finds.
pub open spec fn identifiers_outcome(events: Seq<EventView>) -> Result<Seq<Seq<char>>, Seq<char>> {
    scan_from(events, 0, ScanView { ids: Seq::empty(), metadata_open: false, identifier_open: false })
}

pub open spec fn ids_view(r: Result<Vec<String>, String>) -> Result<Seq<Seq<char>>, Seq<char>> {
    match r {
        Ok(v) => Ok(crate::text::views(v@)),
        Err(e) => Err(e@),
    }
}

/// Reads one event of an EPUB package document into the scan of its
/// identifiers.
pub fn scan_identifiers(scan: &mut IdentifierScan, event: &XmlEvent) -> (r: ScanStep)
    ensures
        (scan_view(*final(scan)), step_view(r)) == scan_step(scan_view(*old(scan)), event_view(*event)),
{
    match event {
        XmlEvent::Failed(msg) => {
            let mut m = String::from_str("Error reading oebps file ");
            m.append(msg.as_str());
            ScanStep::Failed(m)
        },
        XmlEvent::Eof => ScanStep::Done,
        XmlEvent::Start(name) => {
            if is_name(name, "metadata") {
                scan.metadata_open = true;
            } else if is_name(name, "identifier") {
                scan.identifier_open = scan.metadata_open;
            }
            ScanStep::Continue
        },
        XmlEvent::End(name) => {
            if is_name(name, "metadata") {
                ScanStep::Done
            } else {
                if is_name(name, "identifier") {
                    scan.identifier_open = false;
                }
                ScanStep::Continue
            }
        },
        XmlEvent::Text(content) => {
            if scan.identifier_open {
                match identifier_from_text(content.as_str()) {
                    Some(id) => {
                        let ghost before = scan.ids@;
                        let known = contains_text(&scan.ids, &id);
                        proof {
                            if crate::text::views(before).contains(id@) {
                                let k = choose|k: int| 0 <= k < before.len() && crate::text::views(before)[k] == id@;
                                assert(before[k]@ == id@);
                            }
                            if known {
                                let k = choose|k: int| 0 <= k < before.len() && #[trigger] before[k]@ == id@;
                                assert(crate::text::views(before)[k] == id@);
                            }
                        }
                        if !known {
                            scan.ids.push(id);
                            assert(crate::text::views(scan.ids@) =~= crate::text::views(before).push(
                                identifier_in(content@)->0,
                            ));
                        }
                    },
                    None => {},
                }
            }
            ScanStep::Continue
        },
        _ => ScanStep::Continue,
    }
}

/// The identifiers that reading a package document's events finds (see
/// `identifiers_outcome`).
pub fn identifiers_from_events(events: &Vec<XmlEvent>) -> (r: Result<Vec<String>, String>)
    ensures
        ids_view(r) == identifiers_outcome(event_views(events@)),
{
    let ghost views = event_views(events@);
    let mut scan = IdentifierScan { ids: Vec::new(), metadata_open: false, identifier_open: false };
    assert(scan_view(scan).ids =~= Seq::<Seq<char>>::empty());
    let mut i: usize = 0;
    while i < events.len()
        invariant
            i <= events@.len(),
            views == event_views(events@),
            identifiers_outcome(views) == scan_from(views, i as int, scan_view(scan)),
        decreases events.len() - i,
    {
        let step = scan_identifiers(&mut scan, &events[i]);
        match step {
            ScanStep::Continue => {},
            ScanStep::Done => return Ok(scan.ids),
            ScanStep::Failed(m) => return Err(m),
        }
        i = i + 1;
    }
    Ok(scan.ids)
}

/// The industry identifiers in the `metadata` element of an EPUB package
/// document, in order, each once. Reading stops at the end of `metadata`.
pub fn get_identifiers(oebps: &str) -> (r: Result<Vec<String>, String>)
    ensures
        ids_view(r) == identifiers_outcome(xml_events_of(oebps@)),
{
    let ghost events = xml_events_of(oebps@);
    let mut reader = XmlReader::new(oebps);
    let mut scan = IdentifierScan { ids: Vec::new(), metadata_open: false, identifier_open: false };
    assert(scan_view(scan).ids =~= Seq::<Seq<char>>::empty());
    loop
        invariant
            reader.doc@ == oebps@,
            events == xml_events_of(oebps@),
            !reader.done@,
            reader.count@ <= events.len(),
            identifiers_outcome(events) == scan_from(events, reader.count@ as int, scan_view(scan)),
        decreases events.len() - reader.count@,
    {
        let event = reader.next_event();
        let step = scan_identifiers(&mut scan, &event);
        match step {
            ScanStep::Continue => {},
            ScanStep::Done => return Ok(scan.ids),
            ScanStep::Failed(m) => return Err(m),
        }
    }
}

proof fn lemma_step_keeps_distinct(s: ScanView, e: EventView)
    requires
        distinct_identifiers(s.ids),
    ensures
        distinct_identifiers(scan_step(s, e).0.ids),
{
    if let EventView::Text(content) = e {
        if s.identifier_open && identifier_in(content) is Some && !s.ids.contains(
            identifier_in(content)->0,
        ) {
            lemma_identifier_well_formed(content);
            let id = identifier_in(content)->0;
            let a = s.ids.push(id);
            assert forall|i: int| 0 <= i < a.len() implies is_identifier(#[trigger] a[i]) by {
                if i < s.ids.len() {
                    assert(a[i] == s.ids[i]);
                }
            }
            assert forall|i: int, j: int| 0 <= i < j < a.len() implies #[trigger] a[i] != #[trigger] a[j] by {
                assert(a[i] == s.ids[i]);
                if j < s.ids.len() {
                    assert(a[j] == s.ids[j]);
                } else if a[i] == a[j] {
                    assert(s.ids[i] == id);
                }
            }
        }
    }
}

proof fn lemma_scan_from_distinct(events: Seq<EventView>, i: int, s: ScanView)
    requires
        distinct_identifiers(s.ids),
    ensures
        scan_from(events, i, s) matches Ok(ids) ==> distinct_identifiers(ids),
    decreases events.len() - i,
{
    if 0 <= i < events.len() {
        lemma_step_keeps_distinct(s, events[i]);
        let (t, step) = scan_step(s, events[i]);
        if step is Continue {
            lemma_scan_from_distinct(events, i + 1, t);
        }
    }
}

/// Whatever the events, the identifiers that reading them finds are
/// well-formed (letters and numbers taking 10 or 13 bytes), no two the same.
pub proof fn lemma_identifiers_distinct(events: Seq<EventView>)
    ensures
        identifiers_outcome(events) matches Ok(ids) ==> distinct_identifiers(ids),
{
    lemma_scan_from_distinct(
        events,
        0,
        ScanView { ids: Seq::empty(), metadata_open: false, identifier_open: false },
    );
}

/// The value of attribute `key` among the first `n` of `attributes`: that of
/// the last readable one of that name.
pub open spec fn attribute_before(
    attributes: Seq<Option<(Seq<char>, Option<Seq<char>>)>>,
    n: int,
    key: Seq<char>,
) -> Option<Option<Seq<char>>>
    decreases n,
{
    if n <= 0 || n > attributes.len() {
        None
    } else {
        match attributes[n - 1] {
            Some((k, v)) => if k == key {
                Some(v)
            } else {
                attribute_before(attributes, n - 1, key)
            },
            None => attribute_before(attributes, n - 1, key),
        }
    }
}

/// The value of attribute `key` among `attributes`.
pub open spec fn attribute_in(
    attributes: Seq<Option<(Seq<char>, Option<Seq<char>>)>>,
    key: Seq<char>,
) -> Option<Option<Seq<char>>> {
    attribute_before(attributes, attributes.len() as int, key)
}

fn copy_value(v: &Option<String>) -> (r: Option<String>)
    ensures
        match *v {
            Some(x) => r matches Some(y) && y@ == x@,
            None => r is None,
        },
{
    match v {
        Some(x) => Some(x.clone()),
        None => None,
    }
}

fn attribute_value(attributes: &Vec<Option<(String, Option<String>)>>, key: &str) -> (r: Option<
    Option<String>,
>)
    ensures
        match attribute_in(attributes_view(attributes@), key@) {
            None => r is None,
            Some(None) => r == Some(None::<String>),
            Some(Some(v)) => r matches Some(Some(x)) && x@ == v,
        },
{
    let ghost view = attributes_view(attributes@);
    let mut i: usize = attributes.len();
    while i > 0
        invariant
            i <= attributes@.len(),
            view == attributes_view(attributes@),
            attribute_in(view, key@) == attribute_before(view, i as int, key@),
        decreases i,
    {
        assert(view[i - 1] == attribute_view(attributes@[i - 1]));
        match &attributes[i - 1] {
            Some((k, v)) => {
                if is_name(k, key) {
                    return Some(copy_value(v));
                }
            },
            None => {},
        }
        i = i - 1;
    }
    None
}

/// What an empty element of a container manifest says of the package path:
/// nothing unless it is a `rootfile` of the package media type, whose
/// `full-path` is then the path; an attribute that is missing or unreadable
/// is an error.
pub open spec fn package_path_of(
    name: Seq<char>,
    attributes: Seq<Option<(Seq<char>, Option<Seq<char>>)>>,
) -> Option<Result<Seq<char>, Seq<char>>> {
    if name != "rootfile"@ {
        None
    } else {
        match attribute_in(attributes, "media-type"@) {
            None => Some(Err("The rootfile has no `media-type` attribute"@)),
            Some(None) => Some(Err("Failed to decode the `media-type` attribute value"@)),
            Some(Some(t)) => if t != "application/oebps-package+xml"@ {
                None
            } else {
                match attribute_in(attributes, "full-path"@) {
                    None => Some(Err("The rootfile has no `full-path` attribute"@)),
                    Some(None) => Some(Err("Failed to decode the `full-path` attribute value"@)),
                    Some(Some(p)) => Some(Ok(p)),
                }
            },
        }
    }
}

/// What an empty element of a container manifest says of the package path.
pub fn package_path(name: &String, attributes: &Vec<Option<(String, Option<String>)>>) -> (r: Option<
    Result<String, String>,
>)
    ensures
        match package_path_of(name@, attributes_view(attributes@)) {
            None => r is None,
            Some(v) => r matches Some(x) && result_view(x) == v,
        },
{
    if !is_name(name, "rootfile") {
        return None;
    }
    let media_type = match attribute_value(attributes, "media-type") {
        Some(Some(v)) => v,
        Some(None) => return Some(Err(String::from_str("Failed to decode the `media-type` attribute value"))),
        None => return Some(Err(String::from_str("The rootfile has no `media-type` attribute"))),
    };
    if !(media_type == String::from_str("application/oebps-package+xml")) {
        return None;
    }
    match attribute_value(attributes, "full-path") {
        Some(Some(v)) => Some(Ok(v)),
        Some(None) => Some(Err(String::from_str("Failed to decode the `full-path` attribute value"))),
        None => Some(Err(String::from_str("The rootfile has no `full-path` attribute"))),
    }
}

/// Reading a container manifest's `events` from the `i`-th on: the path of
/// the first package `rootfile`, or why there is none.
pub open spec fn path_from(events: Seq<EventView>, i: int) -> Result<Seq<char>, Seq<char>>
    decreases events.len() - i,
{
    if i < 0 || i >= events.len() {
        Err("Failed to find oebps root file path"@)
    } else {
        match events[i] {
            EventView::Failed(m) => Err("Error reading container manifest "@ + m),
            EventView::Eof => Err("Failed to find oebps root file path"@),
            EventView::Empty(name, attributes) => match package_path_of(name, attributes) {
                Some(found) => found,
                None => path_from(events, i + 1),
            },
            _ => path_from(events, i + 1),
        }
    }
}

/// The package path that reading a container manifest's `events` finds.
pub open spec fn oebps_path_outcome(events: Seq<EventView>) -> Result<Seq<char>, Seq<char>> {
    path_from(events, 0)
}

/// What reading one event of a container manifest gives: `None` to read on.
fn path_step(event: &XmlEvent) -> (r: Option<Result<String, String>>)
    ensures
        match event_view(*event) {
            EventView::Failed(m) => r matches Some(x) && result_view(x) == Err::<Seq<char>, Seq<char>>(
                "Error reading container manifest "@ + m,
            ),
            EventView::Eof => r matches Some(x) && result_view(x) == Err::<Seq<char>, Seq<char>>(
                "Failed to find oebps root file path"@,
            ),
            EventView::Empty(name, attributes) => match package_path_of(name, attributes) {
                Some(v) => r matches Some(x) && result_view(x) == v,
                None => r is None,
            },
            _ => r is None,
        },
{
    match event {
        XmlEvent::Failed(msg) => {
            let mut m = String::from_str("Error reading container manifest ");
            m.append(msg.as_str());
            Some(Err(m))
        },
        XmlEvent::Eof => Some(Err(String::from_str("Failed to find oebps root file path"))),
        XmlEvent::Empty(name, attributes) => package_path(name, attributes),
        _ => None,
    }
}

/// The package path that reading a container manifest's events finds (see
/// `oebps_path_outcome`).
pub fn oebps_path_from_events(events: &Vec<XmlEvent>) -> (r: Result<String, String>)
    ensures
        result_view(r) == oebps_path_outcome(event_views(events@)),
{
    let ghost views = event_views(events@);
    let mut i: usize = 0;
    while i < events.len()
        invariant
            i <= events@.len(),
            views == event_views(events@),
            oebps_path_outcome(views) == path_from(views, i as int),
        decreases events.len() - i,
    {
        match path_step(&events[i]) {
            Some(found) => return found,
            None => {},
        }
        i = i + 1;
    }
    Err(String::from_str("Failed to find oebps root file path"))
}

/// The path of the EPUB package document that an EPUB container manifest
/// names: the `full-path` of its first `rootfile` of the package media type.
pub fn get_oebps_path(manifest: &str) -> (r: Result<String, String>)
    ensures
        result_view(r) == oebps_path_outcome(xml_events_of(manifest@)),
{
    let ghost events = xml_events_of(manifest@);
    let mut reader = XmlReader::new(manifest);
    loop
        invariant
            reader.doc@ == manifest@,
            events == xml_events_of(manifest@),
            !reader.done@,
            reader.count@ <= events.len(),
            oebps_path_outcome(events) == path_from(events, reader.count@ as int),
        decreases events.len() - reader.count@,
    {
        let event = reader.next_event();
        match path_step(&event) {
            Some(found) => return found,
            None => {},
        }
    }
}

/// Where a local book's identifiers are read from.
#[derive(Debug, PartialEq, Eq)]
pub enum IsbnSource {
    /// The package metadata of the EPUB file at `path`.
    Epub { path: String },
    /// The device's database, by the book's content id.
    Database { content_id: String },
}

/// Whether a content id names a file: it starts with `file://`.
pub open spec fn is_file_id(content_id: Seq<char>) -> bool {
    7 <= content_id.len() && content_id.take(7) == "file://"@
}

/// Where the identifiers of the book with content id `content_id` are read
/// from: a `file://` id names an EPUB file, anything else a database entry.
pub fn isbn_source(content_id: &str) -> (r: IsbnSource)
    ensures
        is_file_id(content_id@) ==> (r matches IsbnSource::Epub { path } && path@ == content_id@.skip(
            7,
        )),
        !is_file_id(content_id@) ==> (r matches IsbnSource::Database { content_id: id } && id@
            == content_id@),
{
    proof {
        reveal_strlit("file://");
    }
    if starts_with(content_id, "file://") {
        let n = content_id.unicode_len();
        let path = content_id.substring_char(7, n).to_owned();
        assert(path@ =~= content_id@.skip(7));
        IsbnSource::Epub { path }
    } else {
        IsbnSource::Database { content_id: content_id.to_owned() }
    }
}

/// What reading a book's identifiers from its source gave.
#[derive(Debug)]
pub enum IsbnLookup {
    /// The identifiers of an EPUB's package metadata, or why they could not be
    /// read.
    Epub(Result<Vec<String>, String>),
    /// The identifier the database keeps for the book, or why it could not be
    /// read.
    Database(Result<String, String>),
}

/// The outcome of reading a book's identifiers, as the user is told it.
pub open spec fn isbn_outcome(lookup: IsbnLookup) -> Result<Seq<Seq<char>>, Seq<char>> {
    match lookup {
        IsbnLookup::Epub(Err(m)) => Err(
            "Encountered an unexpected error while parsing epub metadata. Please link book manually.<br><br>"@
                + m@,
        ),
        IsbnLookup::Epub(Ok(ids)) => if ids@.len() == 0 {
            Err("Couldn't find an ISBN in the epub metadata. Please link book manually."@)
        } else {
            Ok(crate::text::views(ids@))
        },
        IsbnLookup::Database(Err(m)) => Err(
            "Encountered an unexpected error while fetching ISBN from the database. Please link book manually.<br><br>"@
                + m@,
        ),
        IsbnLookup::Database(Ok(id)) => Ok(seq![id@]),
    }
}

/// The identifiers of a book from what reading its source gave, or the
/// message that tells the user to link the book by hand.
pub fn get_isbn(lookup: IsbnLookup) -> (r: Result<Vec<String>, String>)
    ensures
        match isbn_outcome(lookup) {
            Ok(ids) => r matches Ok(v) && crate::text::views(v@) == ids,
            Err(m) => r matches Err(e) && e@ == m,
        },
{
    match lookup {
        IsbnLookup::Epub(Err(m)) => {
            let mut e = String::from_str(
                "Encountered an unexpected error while parsing epub metadata. Please link book manually.<br><br>",
            );
            e.append(m.as_str());
            Err(e)
        },
        IsbnLookup::Epub(Ok(ids)) => if ids.len() == 0 {
            Err(String::from_str("Couldn't find an ISBN in the epub metadata. Please link book manually."))
        } else {
            Ok(ids)
        },
        IsbnLookup::Database(Err(m)) => {
            let mut e = String::from_str(
                "Encountered an unexpected error while fetching ISBN from the database. Please link book manually.<br><br>",
            );
            e.append(m.as_str());
            Err(e)
        },
        IsbnLookup::Database(Ok(id)) => {
            let v = vec![id];
            assert(crate::text::views(v@) =~= seq![v@[0]@]);
            Ok(v)
        },
    }
}

} // verus!
