use quick_xml::events::Event;
use quick_xml::reader::Reader;
use vstd::prelude::*;

verus! {

/// An attribute of an XML element: its name, and its value once decoded and
/// unescaped (`None` when that failed).
#[derive(Debug, Clone)]
pub struct XmlAttribute {
    pub key: Vec<u8>,
    pub value: Option<String>,
}

/// An element of an XML document, as its start tag shows it: its name, and
/// its attributes in order (`None` for one that could not be read).
#[derive(Debug, Clone)]
pub struct XmlStart {
    pub name: Vec<u8>,
    pub attributes: Vec<Option<XmlAttribute>>,
}

/// An attribute by its plain values.
pub type AttributeView = Option<(Seq<u8>, Option<Seq<char>>)>;

/// An element by its plain values.
pub type StartView = (Seq<u8>, Seq<AttributeView>);

/// An attribute by its plain values.
pub open spec fn attribute_view(a: Option<XmlAttribute>) -> AttributeView {
    match a {
        Some(attr) => Some(
            (
                attr.key@,
                match attr.value {
                    Some(v) => Some(v@),
                    None => None,
                },
            ),
        ),
        None => None,
    }
}

/// A start tag by its plain values.
pub open spec fn start_view(e: XmlStart) -> StartView {
    (e.name@, e.attributes@.map_values(|a: Option<XmlAttribute>| attribute_view(a)))
}

/// One event that the XML reader hands out: a start tag, the end of the
/// document, or any other event.
#[derive(Debug, Clone)]
pub enum XmlEvent {
    Start(XmlStart),
    Eof,
    Other,
}

/// What one read of the XML reader gave, by plain values: a start tag, the
/// end of the document, another event, or an error.
pub enum ReadOutcome {
    Start(StartView),
    End,
    Other,
    Failed,
}

/// A read by its plain values.
pub open spec fn outcome_of(res: Result<XmlEvent, quick_xml::Error>) -> ReadOutcome {
    match res {
        Ok(XmlEvent::Start(e)) => ReadOutcome::Start(start_view(e)),
        Ok(XmlEvent::Eof) => ReadOutcome::End,
        Ok(XmlEvent::Other) => ReadOutcome::Other,
        Err(_) => ReadOutcome::Failed,
    }
}

/// A read after which the reader has nothing more to give.
pub open spec fn is_final(o: ReadOutcome) -> bool {
    o is End || o is Failed
}

/// A sequence of reads that ends with its only final read.
pub open spec fn ends_once(os: Seq<ReadOutcome>) -> bool {
    &&& os.len() > 0
    &&& is_final(os.last())
    &&& forall|k: int| 0 <= k < os.len() - 1 ==> !is_final(#[trigger] os[k])
}

/// The reads, in order, that `quick_xml`'s `Reader::read_event_into` gives on
/// the text `xml` with these two settings, up to and including the first
/// one that ends the document or reports an error.
pub uninterp spec fn xml_read_outcomes(
    xml: Seq<char>,
    trim_text: bool,
    expand_empty_elements: bool,
) -> Seq<ReadOutcome>;

/// The text that a `quick_xml` reader reads.
pub uninterp spec fn reader_text(r: Reader<&[u8]>) -> Seq<char>;

/// Whether a `quick_xml` reader trims white space around text.
pub uninterp spec fn reader_trims_text(r: Reader<&[u8]>) -> bool;

/// Whether a `quick_xml` reader reads an empty element as a start and an end.
pub uninterp spec fn reader_expands_empty_elements(r: Reader<&[u8]>) -> bool;

/// How many events a `quick_xml` reader has handed out.
pub uninterp spec fn reader_reads(r: Reader<&[u8]>) -> nat;

/// The reads that a reader gives from its start, under its settings.
pub open spec fn reader_outcomes(r: Reader<&[u8]>) -> Seq<ReadOutcome> {
    xml_read_outcomes(reader_text(r), reader_trims_text(r), reader_expands_empty_elements(r))
}

/// The declaration of the reader type of `quick_xml`.
#[verifier::external_type_specification]
#[verifier::external_body]
#[verifier::reject_recursive_types(R)]
pub struct ExXmlReader<R>(Reader<R>);

/// The declaration of the error type of `quick_xml`.
#[verifier::external_type_specification]
#[verifier::external_body]
pub struct ExXmlError(quick_xml::Error);

/// A `quick_xml` reader of `xml` made by `Reader::from_str`, with the default
/// settings (no trimming, empty elements read as such) and nothing read yet.
/// The contract also claims that, under any settings, the reads of a text
/// end: each read either consumes input or hands out an end tag that the
/// reader held back, so on a finite text it reaches the end or an error.
#[verifier::external_body]
fn xml_reader<'a>(xml: &'a str) -> (r: Reader<&'a [u8]>)
    ensures
        reader_text(r) == xml@,
        !reader_trims_text(r),
        !reader_expands_empty_elements(r),
        reader_reads(r) == 0,
        forall|t: bool, x: bool| ends_once(#[trigger] xml_read_outcomes(reader_text(r), t, x)),
{
    Reader::from_str(xml)
}

/// Sets `Config::trim_text` of a reader that has read nothing yet.
#[verifier::external_body]
fn set_trim_text(reader: &mut Reader<&[u8]>, trim: bool)
    requires
        reader_reads(*old(reader)) == 0,
    ensures
        reader_text(*final(reader)) == reader_text(*old(reader)),
        reader_trims_text(*final(reader)) == trim,
        reader_expands_empty_elements(*final(reader)) == reader_expands_empty_elements(*old(reader)),
        reader_reads(*final(reader)) == 0,
{
    reader.config_mut().trim_text(trim);
}

/// Sets `Config::expand_empty_elements` of a reader that has read nothing yet.
#[verifier::external_body]
fn set_expand_empty_elements(reader: &mut Reader<&[u8]>, expand: bool)
    requires
        reader_reads(*old(reader)) == 0,
    ensures
        reader_text(*final(reader)) == reader_text(*old(reader)),
        reader_trims_text(*final(reader)) == reader_trims_text(*old(reader)),
        reader_expands_empty_elements(*final(reader)) == expand,
        reader_reads(*final(reader)) == 0,
{
    reader.config_mut().expand_empty_elements = expand;
}

/// Reads one event with `Reader::read_event_into` and hands it out by plain
/// values: a start tag with its name and attributes (each value decoded and
/// unescaped with `Attribute::decode_and_unescape_value`), the end, or any
/// other event.  The contract claims that it is the next of the reads that
/// `quick_xml` gives on the reader's text, named [`xml_read_outcomes`].
#[verifier::external_body]
fn next_event(reader: &mut Reader<&[u8]>) -> (res: Result<XmlEvent, quick_xml::Error>)
    requires
        reader_reads(*old(reader)) < reader_outcomes(*old(reader)).len(),
    ensures
        reader_text(*final(reader)) == reader_text(*old(reader)),
        reader_trims_text(*final(reader)) == reader_trims_text(*old(reader)),
        reader_expands_empty_elements(*final(reader)) == reader_expands_empty_elements(*old(reader)),
        reader_reads(*final(reader)) == reader_reads(*old(reader)) + 1,
        outcome_of(res) == reader_outcomes(*old(reader))[reader_reads(*old(reader)) as int],
{
    let mut buf = Vec::new();
    match reader.read_event_into(&mut buf)? {
        Event::Start(e) => Ok(XmlEvent::Start(XmlStart { name: e.name().0.to_vec(), attributes: e.attributes().map(|a| a.ok().map(|a| XmlAttribute { key: a.key.0.to_vec(), value: a.decode_and_unescape_value(reader.decoder()).ok().map(|v| v.into_owned()) })).collect() })),
        Event::Eof => Ok(XmlEvent::Eof),
        _ => Ok(XmlEvent::Other),
    }
}

/// The bytes of `node` in ASCII, the element that stands for a bus object.
pub open spec fn node_bytes() -> Seq<u8> {
    seq![110u8, 111, 100, 101]
}

/// The bytes of `name` in ASCII, the attribute that names a bus object.
pub open spec fn name_bytes() -> Seq<u8> {
    seq![110u8, 97, 109, 101]
}

/// The values of the `name` attributes among `attrs` that were read and
/// decoded, in order.
pub open spec fn names_in_attributes(attrs: Seq<AttributeView>) -> Seq<Seq<char>>
    decreases attrs.len(),
{
    if attrs.len() == 0 {
        seq![]
    } else {
        let earlier = names_in_attributes(attrs.drop_last());
        match attrs.last() {
            Some((key, Some(value))) => if key == name_bytes() {
                earlier.push(value)
            } else {
                earlier
            },
            _ => earlier,
        }
    }
}

/// The names of the `node` elements among the start tags that the reads
/// `os` gave, in document order.
pub open spec fn event_names(os: Seq<ReadOutcome>) -> Seq<Seq<char>>
    decreases os.len(),
{
    if os.len() == 0 {
        seq![]
    } else {
        let earlier = event_names(os.drop_last());
        match os.last() {
            ReadOutcome::Start((name, attributes)) => if name == node_bytes() {
                earlier + names_in_attributes(attributes)
            } else {
                earlier
            },
            _ => earlier,
        }
    }
}

/// The names that one read contributes: the decoded `name` attributes of a
/// `node` start tag, and nothing for any other read.
pub proof fn lemma_event_names_single(o: ReadOutcome)
    ensures
        event_names(seq![o]) == match o {
            ReadOutcome::Start((name, attributes)) => if name == seq![110u8, 111, 100, 101] {
                names_in_attributes(attributes)
            } else {
                Seq::<Seq<char>>::empty()
            },
            _ => Seq::<Seq<char>>::empty(),
        },
{
    let e = Seq::<ReadOutcome>::empty();
    assert(seq![o].drop_last() =~= e);
    assert(seq![o].last() == o);
    assert(event_names(e) == Seq::<Seq<char>>::empty());
    match o {
        ReadOutcome::Start((name, attributes)) => {
            assert(Seq::<Seq<char>>::empty() + names_in_attributes(attributes) =~= names_in_attributes(attributes));
        },
        _ => {},
    }
}

/// The names of two runs of reads, one after the other, are the names of
/// the first followed by those of the second: every name is kept, in order.
pub proof fn lemma_event_names_append(a: Seq<ReadOutcome>, b: Seq<ReadOutcome>)
    ensures
        event_names(a + b) == event_names(a) + event_names(b),
    decreases b.len(),
{
    if b.len() == 0 {
        assert(a + b =~= a);
        assert(event_names(a) + event_names(b) =~= event_names(a));
    } else {
        lemma_event_names_append(a, b.drop_last());
        assert((a + b).drop_last() =~= a + b.drop_last());
        assert((a + b).last() == b.last());
        assert(event_names(a + b) =~= event_names(a) + event_names(b));
    }
}

/// The names that one attribute contributes: its decoded value when its key
/// is `name`, and nothing otherwise.
pub proof fn lemma_names_in_attributes_single(a: AttributeView)
    ensures
        names_in_attributes(seq![a]) == match a {
            Some((key, Some(value))) => if key == seq![110u8, 97, 109, 101] {
                seq![value]
            } else {
                Seq::<Seq<char>>::empty()
            },
            _ => Seq::<Seq<char>>::empty(),
        },
{
    let e = Seq::<AttributeView>::empty();
    assert(seq![a].drop_last() =~= e);
    assert(seq![a].last() == a);
    assert(names_in_attributes(e) == Seq::<Seq<char>>::empty());
    match a {
        Some((key, Some(value))) => {
            assert(Seq::<Seq<char>>::empty().push(value) =~= seq![value]);
        },
        _ => {},
    }
}

/// The names among two runs of attributes, one after the other, are those
/// of the first followed by those of the second.
pub proof fn lemma_names_in_attributes_append(a: Seq<AttributeView>, b: Seq<AttributeView>)
    ensures
        names_in_attributes(a + b) == names_in_attributes(a) + names_in_attributes(b),
    decreases b.len(),
{
    if b.len() == 0 {
        assert(a + b =~= a);
        assert(names_in_attributes(a) + names_in_attributes(b) =~= names_in_attributes(a));
    } else {
        lemma_names_in_attributes_append(a, b.drop_last());
        assert((a + b).drop_last() =~= a + b.drop_last());
        assert((a + b).last() == b.last());
        assert(names_in_attributes(a + b) =~= names_in_attributes(a) + names_in_attributes(b));
    }
}

/// Some read in `os` reported an error.
pub open spec fn failed_in(os: Seq<ReadOutcome>) -> bool {
    exists|k: int| 0 <= k < os.len() && #[trigger] os[k] is Failed
}

/// Whether `bytes` are the four bytes `w0 w1 w2 w3`.
fn bytes_are(bytes: &Vec<u8>, w0: u8, w1: u8, w2: u8, w3: u8) -> (b: bool)
    ensures
        b == (bytes@ == seq![w0, w1, w2, w3]),
{
    let b = bytes.len() == 4 && bytes[0] == w0 && bytes[1] == w1 && bytes[2] == w2
        && bytes[3] == w3;
    assert(b ==> bytes@ =~= seq![w0, w1, w2, w3]);
    b
}

/// The values of the `name` attributes of an element, in order.
fn attribute_names(attrs: &Vec<Option<XmlAttribute>>) -> (names: Vec<String>)
    ensures
        names.deep_view() == names_in_attributes(
            attrs@.map_values(|a: Option<XmlAttribute>| attribute_view(a)),
        ),
{
    let ghost all = attrs@.map_values(|a: Option<XmlAttribute>| attribute_view(a));
    let mut names: Vec<String> = Vec::new();
    let mut i: usize = 0;
    while i < attrs.len()
        invariant
            i <= attrs.len(),
            all == attrs@.map_values(|a: Option<XmlAttribute>| attribute_view(a)),
            names.deep_view() == names_in_attributes(all.take(i as int)),
        decreases attrs.len() - i,
    {
        proof {
            assert(all.take(i + 1).drop_last() =~= all.take(i as int));
            assert(all.take(i + 1).last() == attribute_view(attrs@[i as int]));
        }
        if let Some(attr) = &attrs[i] {
            if let Some(value) = &attr.value {
                if bytes_are(&attr.key, 110, 97, 109, 101) {
                    names.push(value.clone());
                }
            }
        }
        assert(names.deep_view() =~= names_in_attributes(all.take(i + 1)));
        i = i + 1;
    }
    assert(all.take(attrs.len() as int) =~= all);
    names
}


/// The introspection data could not be read as XML.
#[derive(Debug, Clone, Copy, PartialEq, Eq, Structural)]
pub struct MalformedXml;

/// The names of the objects that the introspection data `xml` lists: the
/// `name` of every `node` element, in document order, as `quick_xml` reads
/// the document with text trimmed and empty elements expanded.  Fails
/// exactly when `quick_xml` reports an error.
pub fn names_from_xml(xml: String) -> (res: Result<Vec<String>, MalformedXml>)
    ensures
        match res {
            Ok(names) => {
                &&& !failed_in(xml_read_outcomes(xml@, true, true))
                &&& names.deep_view() == event_names(xml_read_outcomes(xml@, true, true))
            },
            Err(e) => failed_in(xml_read_outcomes(xml@, true, true)) && e == MalformedXml,
        },
{
    let mut reader = xml_reader(xml.as_str());
    set_trim_text(&mut reader, true);
    set_expand_empty_elements(&mut reader, true);
    let ghost os = reader_outcomes(reader);
    let mut names: Vec<String> = Vec::new();
    loop
        invariant
            os == xml_read_outcomes(xml@, true, true),
            reader_outcomes(reader) == os,
            ends_once(os),
            reader_reads(reader) < os.len(),
            names.deep_view() == event_names(os.take(reader_reads(reader) as int)),
        decreases os.len() - reader_reads(reader),
    {
        let ghost k = reader_reads(reader) as int;
        let event = next_event(&mut reader);
        proof {
            assert(os.take(k + 1).drop_last() =~= os.take(k));
            assert(os.take(k + 1).last() == os[k]);
        }
        match event {
            Err(_) => {
                assert(os[k] is Failed);
                return Err(MalformedXml);
            },
            Ok(XmlEvent::Eof) => {
                assert(k == os.len() - 1);
                assert(os.take(k + 1) =~= os);
                assert(!failed_in(os)) by {
                    if failed_in(os) {
                        let j = choose|j: int| 0 <= j < os.len() && #[trigger] os[j] is Failed;
                        assert(is_final(os[j]));
                    }
                }
                return Ok(names);
            },
            Ok(XmlEvent::Start(start)) => {
                assert(k != os.len() - 1);
                if bytes_are(&start.name, 110, 111, 100, 101) {
                    let mut more = attribute_names(&start.attributes);
                    let ghost earlier = names.deep_view();
                    let ghost added = more.deep_view();
                    names.append(&mut more);
                    assert(names.deep_view() =~= earlier + added);
                }
            },
            Ok(XmlEvent::Other) => {
                assert(k != os.len() - 1);
            },
        }
    }
}

} // verus!
