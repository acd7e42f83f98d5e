//! A decoded protocol message and the two rewrites the proxy applies to it:
//! pointing the routing attribute at the upstream printer, and narrowing the
//! advertised compression support of a reply.
use vstd::prelude::*;
use ipp::value::IppValue;

verus! {

/// ipp's `IppValue`, an attribute value of the wire format: carried through
/// the rewrites without being looked into.
#[verifier::external_type_specification]
#[verifier::external_body]
pub struct ExIppValue(IppValue);

/// An attribute's value. Values the proxy writes are held as plain data;
/// every other value is carried through untouched.
#[derive(Debug, PartialEq)]
pub enum AttrValue {
    Uri(String),
    Keywords(Vec<String>),
    Other(IppValue),
}

#[derive(Debug, PartialEq)]
pub struct Attribute {
    pub name: String,
    pub value: AttrValue,
}

/// A delimited group of attributes, in their order in the message.
#[derive(Debug, PartialEq)]
pub struct AttributeGroup {
    pub tag: u8,
    pub attributes: Vec<Attribute>,
}

/// A decoded message: its header, its attribute groups in order and the
/// document payload that follows them.
#[derive(Debug, PartialEq)]
pub struct Message {
    pub version: u16,
    pub operation_or_status: u16,
    pub request_id: u32,
    pub groups: Vec<AttributeGroup>,
    pub payload: Vec<u8>,
}

pub enum AttrValueView {
    Uri(Seq<char>),
    Keywords(Seq<Seq<char>>),
    Other(IppValue),
}

pub struct AttributeView {
    pub name: Seq<char>,
    pub value: AttrValueView,
}

pub struct GroupView {
    pub tag: u8,
    pub attributes: Seq<AttributeView>,
}

pub struct MessageView {
    pub version: u16,
    pub operation_or_status: u16,
    pub request_id: u32,
    pub groups: Seq<GroupView>,
    pub payload: Seq<u8>,
}

impl View for AttrValue {
    type V = AttrValueView;

    open spec fn view(&self) -> AttrValueView {
        match self {
            AttrValue::Uri(s) => AttrValueView::Uri(s@),
            AttrValue::Keywords(v) => AttrValueView::Keywords(v@.map_values(|k: String| k@)),
            AttrValue::Other(x) => AttrValueView::Other(*x),
        }
    }
}

impl View for Attribute {
    type V = AttributeView;

    open spec fn view(&self) -> AttributeView {
        AttributeView { name: self.name@, value: self.value@ }
    }
}

impl View for AttributeGroup {
    type V = GroupView;

    open spec fn view(&self) -> GroupView {
        GroupView { tag: self.tag, attributes: self.attributes@.map_values(|a: Attribute| a@) }
    }
}

impl View for Message {
    type V = MessageView;

    open spec fn view(&self) -> MessageView {
        MessageView {
            version: self.version,
            operation_or_status: self.operation_or_status,
            request_id: self.request_id,
            groups: self.groups@.map_values(|g: AttributeGroup| g@),
            payload: self.payload@,
        }
    }
}

/// The name of the routing attribute, `printer-uri`.
pub open spec fn routing_name() -> Seq<char> {
    seq!['p', 'r', 'i', 'n', 't', 'e', 'r', '-', 'u', 'r', 'i']
}

/// The name of the advertised compression support, `compression-supported`.
pub open spec fn compression_name() -> Seq<char> {
    seq![
        'c', 'o', 'm', 'p', 'r', 'e', 's', 's', 'i', 'o', 'n', '-',
        's', 'u', 'p', 'p', 'o', 'r', 't', 'e', 'd',
    ]
}

/// The tag of the printer-attributes group.
pub open spec fn printer_attributes_tag() -> u8 {
    4
}

/// The routing URI of an upstream printer: `ipp://` and its address.
pub open spec fn routing_uri(upstream: Seq<char>) -> Seq<char> {
    seq!['i', 'p', 'p', ':', '/', '/'] + upstream
}

/// `a` with its value replaced by `value` where its name is `name`.
pub open spec fn replaced(a: AttributeView, name: Seq<char>, value: AttrValueView) -> AttributeView {
    if a.name == name {
        AttributeView { name: a.name, value }
    } else {
        a
    }
}

/// `g` with every attribute named `name` set to `value`, when `g` is one of
/// the groups the rewrite applies to (every group when `only_tag` is `None`).
pub open spec fn replaced_in_group(g: GroupView, only_tag: Option<u8>, name: Seq<char>, value: AttrValueView) -> GroupView {
    if only_tag is None || g.tag == only_tag->0 {
        GroupView { tag: g.tag, attributes: g.attributes.map_values(|a: AttributeView| replaced(a, name, value)) }
    } else {
        g
    }
}

pub open spec fn replaced_in_message(m: MessageView, only_tag: Option<u8>, name: Seq<char>, value: AttrValueView) -> MessageView {
    MessageView { groups: m.groups.map_values(|g: GroupView| replaced_in_group(g, only_tag, name, value)), ..m }
}

/// `m` with every routing attribute, in every group, pointing at `upstream`.
pub open spec fn routed(m: MessageView, upstream: Seq<char>) -> MessageView {
    replaced_in_message(m, None, routing_name(), AttrValueView::Uri(routing_uri(upstream)))
}

/// The one compression that the proxy's payloads use: `none`.
pub open spec fn no_compression() -> AttrValueView {
    AttrValueView::Keywords(seq![seq!['n', 'o', 'n', 'e']])
}

/// `m` advertising no compression in its printer-attributes groups.
pub open spec fn narrowed(m: MessageView) -> MessageView {
    replaced_in_message(m, Some(printer_attributes_tag()), compression_name(), no_compression())
}

/// Relies on ipp's `IppAttribute::PRINTER_URI`, the routing attribute's name.
#[verifier::external_body]
fn printer_uri_attribute() -> (r: &'static str)
    ensures
        r@ == routing_name(),
{
    ipp::attribute::IppAttribute::PRINTER_URI
}

/// Relies on ipp's `IppAttribute::COMPRESSION_SUPPORTED`, the name of the
/// advertised compression support.
#[verifier::external_body]
fn compression_supported_attribute() -> (r: &'static str)
    ensures
        r@ == compression_name(),
{
    ipp::attribute::IppAttribute::COMPRESSION_SUPPORTED
}

/// Relies on ipp's `DelimiterTag::PrinterAttributes`, the tag of the
/// printer-attributes group.
#[verifier::external_body]
fn printer_attributes_delimiter() -> (r: u8)
    ensures
        r == printer_attributes_tag(),
{
    ipp::model::DelimiterTag::PrinterAttributes as u8
}

/// A copy of a value that the proxy writes.
fn copy_value(v: &AttrValue) -> (r: AttrValue)
    requires
        !(v is Other),
    ensures
        r@ == v@,
{
    match v {
        AttrValue::Uri(s) => AttrValue::Uri(s.clone()),
        AttrValue::Keywords(ks) => {
            let mut out: Vec<String> = Vec::new();
            let mut i: usize = 0;
            while i < ks.len()
                invariant
                    i <= ks@.len(),
                    out@.len() == i,
                    forall|j: int| 0 <= j < i ==> (#[trigger] out@[j])@ == ks@[j]@,
                decreases ks@.len() - i,
            {
                out.push(ks[i].clone());
                i = i + 1;
            }
            assert(out@.map_values(|k: String| k@) =~= ks@.map_values(|k: String| k@));
            AttrValue::Keywords(out)
        },
        AttrValue::Other(_) => {
            proof {
                assert(false);
            }
            AttrValue::Keywords(Vec::new())
        },
    }
}

/// Sets every attribute of `attributes` named `name` to `value`, keeping
/// their order.
fn replace_attributes(attributes: Vec<Attribute>, name: &String, value: &AttrValue) -> (r: Vec<Attribute>)
    requires
        !(value is Other),
    ensures
        r@.map_values(|a: Attribute| a@) == attributes@.map_values(|a: Attribute| a@).map_values(
            |a: AttributeView| replaced(a, name@, value@),
        ),
{
    let ghost before = attributes@;
    let mut rest = attributes;
    let mut out: Vec<Attribute> = Vec::new();
    while rest.len() > 0
        invariant
            out@.len() + rest@.len() == before.len(),
            forall|i: int| 0 <= i < rest@.len() ==> rest@[i] == before[out@.len() + i],
            forall|i: int| 0 <= i < out@.len() ==> (#[trigger] out@[i])@ == replaced(before[i]@, name@, value@),
            !(value is Other),
        decreases rest@.len(),
    {
        let ghost k = out@.len();
        let a = rest.remove(0);
        assert(a == before[k as int]);
        if a.name == *name {
            out.push(Attribute { name: a.name, value: copy_value(value) });
        } else {
            out.push(a);
        }
    }
    assert(out@.map_values(|a: Attribute| a@) =~= before.map_values(|a: Attribute| a@).map_values(
        |a: AttributeView| replaced(a, name@, value@),
    ));
    out
}

/// Applies `replace_attributes` to each group that `only_tag` selects,
/// keeping the order of the groups.
fn replace_in_groups(groups: Vec<AttributeGroup>, only_tag: Option<u8>, name: &String, value: &AttrValue) -> (r: Vec<AttributeGroup>)
    requires
        !(value is Other),
    ensures
        r@.map_values(|g: AttributeGroup| g@) == groups@.map_values(|g: AttributeGroup| g@).map_values(
            |g: GroupView| replaced_in_group(g, only_tag, name@, value@),
        ),
{
    let ghost before = groups@;
    let mut rest = groups;
    let mut out: Vec<AttributeGroup> = Vec::new();
    while rest.len() > 0
        invariant
            out@.len() + rest@.len() == before.len(),
            forall|i: int| 0 <= i < rest@.len() ==> rest@[i] == before[out@.len() + i],
            forall|i: int|
                0 <= i < out@.len() ==> (#[trigger] out@[i])@ == replaced_in_group(before[i]@, only_tag, name@, value@),
            !(value is Other),
        decreases rest@.len(),
    {
        let ghost k = out@.len();
        let g = rest.remove(0);
        assert(g == before[k as int]);
        let selected = match only_tag {
            None => true,
            Some(t) => g.tag == t,
        };
        if selected {
            let tag = g.tag;
            let attributes = replace_attributes(g.attributes, name, value);
            let ng = AttributeGroup { tag, attributes };
            assert(ng@.attributes =~= g@.attributes.map_values(|a: AttributeView| replaced(a, name@, value@)));
            out.push(ng);
        } else {
            out.push(g);
        }
    }
    assert(out@.map_values(|g: AttributeGroup| g@) =~= before.map_values(|g: AttributeGroup| g@).map_values(
        |g: GroupView| replaced_in_group(g, only_tag, name@, value@),
    ));
    out
}

/// Sets every attribute named `name`, in the groups that `only_tag`
/// selects, to `value`.
fn replace_in_message(message: &mut Message, only_tag: Option<u8>, name: &String, value: &AttrValue)
    requires
        !(value is Other),
    ensures
        final(message)@ == replaced_in_message(old(message)@, only_tag, name@, value@),
{
    let mut groups: Vec<AttributeGroup> = Vec::new();
    core::mem::swap(&mut groups, &mut message.groups);
    message.groups = replace_in_groups(groups, only_tag, name, value);
    assert(message@.groups =~= old(message)@.groups.map_values(
        |g: GroupView| replaced_in_group(g, only_tag, name@, value@),
    ));
}

/// Points every routing attribute of `request`, in every group, at the
/// upstream printer `upstream_printer`; nothing else changes.
pub fn patch_ipp_printer_uri(request: &mut Message, upstream_printer: &str)
    ensures
        final(request)@ == routed(old(request)@, upstream_printer@),
{
    let name = String::from_str(printer_uri_attribute());
    let scheme = "ipp://";
    proof {
        reveal_strlit("ipp://");
    }
    let uri = String::from_str(scheme).concat(upstream_printer);
    assert(uri@ =~= routing_uri(upstream_printer@));
    replace_in_message(request, None, &name, &AttrValue::Uri(uri));
}

/// Makes a reply advertise uncompressed payloads only: in its
/// printer-attributes groups, compression support becomes the list `none`.
pub fn patch_ipp_supported_features(response: &mut Message)
    ensures
        final(response)@ == narrowed(old(response)@),
{
    let name = String::from_str(compression_supported_attribute());
    let tag = printer_attributes_delimiter();
    let none = "none";
    proof {
        reveal_strlit("none");
        assert(none@ =~= seq!['n', 'o', 'n', 'e']);
    }
    let mut keywords: Vec<String> = Vec::new();
    keywords.push(String::from_str(none));
    let value = AttrValue::Keywords(keywords);
    assert(value@ =~= no_compression()) by {
        assert(keywords@[0]@ == seq!['n', 'o', 'n', 'e']);
        assert(keywords@.map_values(|k: String| k@) =~= seq![seq!['n', 'o', 'n', 'e']]);
    }
    replace_in_message(response, Some(tag), &name, &value);
}

/// Rewriting the routing a second time, to the same upstream printer,
/// changes nothing. The rewrite keeps the header and the payload, keeps the
/// groups in order with their tags and the attributes of each in order with
/// their names, leaves every other attribute as it was, and points every
/// routing attribute at the upstream printer.
pub proof fn lemma_routing_idempotent(m: MessageView, upstream: Seq<char>)
    ensures
        routed(routed(m, upstream), upstream) == routed(m, upstream),
        routed(m, upstream).version == m.version,
        routed(m, upstream).operation_or_status == m.operation_or_status,
        routed(m, upstream).request_id == m.request_id,
        routed(m, upstream).payload == m.payload,
        routed(m, upstream).groups.len() == m.groups.len(),
        forall|i: int| #![trigger routed(m, upstream).groups[i]]
            0 <= i < m.groups.len() ==> {
                let g = m.groups[i];
                let h = routed(m, upstream).groups[i];
                &&& h.tag == g.tag
                &&& h.attributes.len() == g.attributes.len()
                &&& forall|j: int| #![trigger h.attributes[j]]
                    0 <= j < g.attributes.len() ==> {
                        &&& h.attributes[j].name == g.attributes[j].name
                        &&& g.attributes[j].name != routing_name() ==> h.attributes[j] == g.attributes[j]
                        &&& g.attributes[j].name == routing_name() ==> h.attributes[j].value == AttrValueView::Uri(routing_uri(upstream))
                    }
            },
{
    let r = routed(m, upstream);
    let rr = routed(r, upstream);
    assert forall|i: int| 0 <= i < r.groups.len() implies #[trigger] rr.groups[i] == r.groups[i] by {
        let g = r.groups[i];
        let h = rr.groups[i];
        assert(h.attributes =~= g.attributes);
    }
    assert(rr.groups =~= r.groups);
}

/// Narrowing the advertised compression a second time changes nothing.
pub proof fn lemma_narrowing_idempotent(m: MessageView)
    ensures
        narrowed(narrowed(m)) == narrowed(m),
{
    let r = narrowed(m);
    let rr = narrowed(r);
    assert forall|i: int| 0 <= i < r.groups.len() implies #[trigger] rr.groups[i] == r.groups[i] by {
        let g = r.groups[i];
        let h = rr.groups[i];
        if g.tag == printer_attributes_tag() {
            assert(h.attributes =~= g.attributes);
        }
    }
    assert(rr.groups =~= r.groups);
}

} // verus!
