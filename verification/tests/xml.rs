use script_deps::xml_parser::Node;
use script_deps::xml_parser::XmlElement;

#[test]
fn as_value_returns_text_or_placeholder() {
    let text = Node::Value("hello".to_string());
    assert_eq!(text.as_value(), "hello");
    let element = Node::XmlElement(XmlElement {
        name: "hd:script".to_string(),
        attributes: vec![],
        children: vec![],
    });
    assert_eq!(element.as_value(), "undefined");
}

#[test]
fn as_element_returns_the_held_element() {
    let element = Node::XmlElement(XmlElement {
        name: "hd:dialog".to_string(),
        attributes: vec![("name".to_string(), "Intake".to_string())],
        children: vec![Node::Value("x".to_string())],
    });
    let e = element.as_element();
    assert_eq!(e.name, "hd:dialog");
    assert_eq!(e.attributes.len(), 1);
    assert_eq!(e.children.len(), 1);
}
