use lab_task::introspect::{names_from_xml, MalformedXml};

#[test]
fn names_of_child_nodes() {
    let xml = r#"<!DOCTYPE node PUBLIC "-//freedesktop//DTD D-BUS Object Introspection 1.0//EN"
 "http://www.freedesktop.org/standards/dbus/1.0/introspect.dtd">
<node>
 <interface name="org.freedesktop.DBus.Peer">
  <method name="Ping"/>
 </interface>
 <node name="sshd_2eservice"/>
 <node name="chen_2dlab_2dtask_2esleep_40now_2eservice"></node>
</node>"#;
    assert_eq!(
        names_from_xml(xml.to_string()).unwrap(),
        vec!["sshd_2eservice", "chen_2dlab_2dtask_2esleep_40now_2eservice"]
    );
}

#[test]
fn names_are_unescaped() {
    let xml = r#"<node><node name="a&amp;b" other="x"/><leaf name="skip"/></node>"#;
    assert_eq!(names_from_xml(xml.to_string()).unwrap(), vec!["a&b"]);
}

#[test]
fn no_nodes_no_names() {
    assert!(names_from_xml(String::new()).unwrap().is_empty());
    assert!(names_from_xml("<a><b/></a>".to_string()).unwrap().is_empty());
}

#[test]
fn malformed_xml_is_refused() {
    assert_eq!(names_from_xml("<node></other>".to_string()), Err(MalformedXml));
}
