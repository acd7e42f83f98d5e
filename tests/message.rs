use ipp::value::IppValue;
use ipp_proxy::message::{
    patch_ipp_printer_uri, patch_ipp_supported_features, AttrValue, Attribute, AttributeGroup,
    Message,
};

fn attr(name: &str, value: AttrValue) -> Attribute {
    Attribute { name: name.to_string(), value }
}

fn request() -> Message {
    Message {
        version: 0x0101,
        operation_or_status: 0x0006,
        request_id: 42,
        groups: vec![
            AttributeGroup {
                tag: 0x01,
                attributes: vec![
                    attr("attributes-charset", AttrValue::Other(IppValue::Charset("utf-8".to_string()))),
                    attr("printer-uri", AttrValue::Uri("ipp://proxy.local/printers/x".to_string())),
                    attr("job-id", AttrValue::Other(IppValue::Integer(7))),
                ],
            },
            AttributeGroup {
                tag: 0x02,
                attributes: vec![
                    attr("printer-uri", AttrValue::Other(IppValue::Uri("ipp://other".to_string()))),
                    attr("copies", AttrValue::Other(IppValue::Integer(2))),
                ],
            },
        ],
        payload: b"%PDF".to_vec(),
    }
}

#[test]
fn routing_attribute_points_upstream_everywhere() {
    let mut m = request();
    patch_ipp_printer_uri(&mut m, "10.1.2.3:631");
    let target = AttrValue::Uri("ipp://10.1.2.3:631".to_string());
    assert_eq!(m.groups[0].attributes[1].value, target);
    assert_eq!(m.groups[1].attributes[0].value, target);
}

#[test]
fn routing_rewrite_keeps_everything_else() {
    let mut m = request();
    patch_ipp_printer_uri(&mut m, "10.1.2.3:631");
    let before = request();
    assert_eq!(m.version, before.version);
    assert_eq!(m.operation_or_status, before.operation_or_status);
    assert_eq!(m.request_id, before.request_id);
    assert_eq!(m.payload, before.payload);
    assert_eq!(m.groups.len(), 2);
    for (g, h) in m.groups.iter().zip(before.groups.iter()) {
        assert_eq!(g.tag, h.tag);
        let names: Vec<&str> = g.attributes.iter().map(|a| a.name.as_str()).collect();
        let old_names: Vec<&str> = h.attributes.iter().map(|a| a.name.as_str()).collect();
        assert_eq!(names, old_names);
    }
    assert_eq!(m.groups[0].attributes[0], before.groups[0].attributes[0]);
    assert_eq!(m.groups[0].attributes[2], before.groups[0].attributes[2]);
    assert_eq!(m.groups[1].attributes[1], before.groups[1].attributes[1]);
}

#[test]
fn routing_rewrite_twice_is_routing_rewrite_once() {
    let mut once = request();
    patch_ipp_printer_uri(&mut once, "upstream:631");
    let mut twice = request();
    patch_ipp_printer_uri(&mut twice, "upstream:631");
    patch_ipp_printer_uri(&mut twice, "upstream:631");
    assert_eq!(once, twice);
}

#[test]
fn message_without_routing_attribute_is_unchanged() {
    let mut m = Message {
        version: 0x0200,
        operation_or_status: 0x000B,
        request_id: 1,
        groups: vec![AttributeGroup {
            tag: 0x01,
            attributes: vec![attr("copies", AttrValue::Other(IppValue::Integer(1)))],
        }],
        payload: vec![],
    };
    patch_ipp_printer_uri(&mut m, "u");
    assert_eq!(m.groups[0].attributes[0], attr("copies", AttrValue::Other(IppValue::Integer(1))));
}

fn reply() -> Message {
    let gzip = || AttrValue::Keywords(vec!["none".to_string(), "gzip".to_string()]);
    Message {
        version: 0x0101,
        operation_or_status: 0x0000,
        request_id: 42,
        groups: vec![
            AttributeGroup { tag: 0x01, attributes: vec![attr("compression-supported", gzip())] },
            AttributeGroup {
                tag: 0x04,
                attributes: vec![
                    attr("printer-name", AttrValue::Other(IppValue::NameWithoutLanguage("p".to_string()))),
                    attr("compression-supported", gzip()),
                ],
            },
        ],
        payload: vec![],
    }
}

#[test]
fn reply_advertises_no_compression() {
    let mut m = reply();
    patch_ipp_supported_features(&mut m);
    assert_eq!(
        m.groups[1].attributes[1].value,
        AttrValue::Keywords(vec!["none".to_string()])
    );
    assert_eq!(m.groups[1].attributes[0], reply().groups[1].attributes[0]);
    assert_eq!(m.groups[0], reply().groups[0]);
}

#[test]
fn narrowing_twice_is_narrowing_once() {
    let mut once = reply();
    patch_ipp_supported_features(&mut once);
    let mut twice = reply();
    patch_ipp_supported_features(&mut twice);
    patch_ipp_supported_features(&mut twice);
    assert_eq!(once, twice);
}
