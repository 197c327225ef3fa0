use socha::error::SCError;
use socha::text::render;
use socha::xml::{Element, Token, TreeBuilder};

#[test]
fn test_write() {
    assert_eq!("<Test/>", Element::new("Test").build().to_string());
    assert_eq!(
        "<A><B/><C/></A>",
        Element::new("A").child(Element::new("B").build()).child(Element::new("C").build()).build().to_string()
    )
}

fn sample() -> Element {
    Element::new("root")
        .attribute("k", "a<b & \"c\" 'd'")
        .content("x > y & z")
        .child(Element::new("leaf").attribute("n", "1").build())
        .child(Element::new("inner").content("text").child(Element::new("deep").build()).build())
        .build()
}

#[test]
fn round_trip_text_keeps_the_tree() {
    let e = sample();
    let text = e.to_string();
    let back = Element::from_str(&text).unwrap();
    assert_eq!(back.name(), "root");
    assert_eq!(back.attribute("k").unwrap(), "a<b & \"c\" 'd'");
    assert_eq!(back.content(), "x > y & z");
    assert_eq!(back.child_by_name("leaf").unwrap().attribute("n").unwrap(), "1");
    assert_eq!(back.child_by_name("inner").unwrap().content(), "text");
    assert_eq!(back.to_string(), text);
}

#[test]
fn round_trip_tokens_keeps_the_tree() {
    let e = sample();
    let mut tokens = Vec::new();
    e.write_to(&mut tokens);
    let mut pos = 0usize;
    let back = Element::read_from(&tokens, &mut pos).unwrap();
    assert_eq!(pos, tokens.len());
    assert_eq!(back.to_string(), e.to_string());
}

#[test]
fn parsing_twice_gives_equal_trees() {
    let text = "<a x=\"1\"><b>hi</b><c/></a>";
    let one = Element::from_str(text).unwrap();
    let two = Element::from_str(text).unwrap();
    assert_eq!(one.to_string(), two.to_string());
    assert_eq!(one.to_string(), text);
}

#[test]
fn childless_textless_node_is_self_closing() {
    let e = Element::new("a").attribute("k", "v").build();
    assert_eq!(e.to_string(), "<a k=\"v\"/>");
    let mut tokens = Vec::new();
    e.write_to(&mut tokens);
    assert_eq!(tokens.len(), 1);
    assert!(matches!(tokens[0], Token::Empty(_, _)));
}

#[test]
fn text_only_node_is_not_self_closing() {
    let e = Element::new("a").content("t").build();
    assert_eq!(e.to_string(), "<a>t</a>");
}

#[test]
fn escape_replaces_reserved_characters() {
    let e = Element::new("a").content("1<2&3>\"'").build();
    assert_eq!(e.to_string(), "<a>1&lt;2&amp;3&gt;&quot;&apos;</a>");
}

#[test]
fn text_fragments_are_concatenated() {
    let mut b = TreeBuilder::new();
    assert!(b.feed(Token::Open("a".to_owned(), vec![])).is_none());
    assert!(b.feed(Token::Text("foo".to_owned())).is_none());
    assert!(b.feed(Token::Text("bar".to_owned())).is_none());
    let e = b.feed(Token::Close("a".to_owned())).unwrap();
    assert_eq!(e.content(), "foobar");
}

#[test]
fn stray_close_tag_is_ignored() {
    let tokens = vec![
        Token::Close("x".to_owned()),
        Token::Text("loose".to_owned()),
        Token::Open("a".to_owned(), vec![]),
        Token::Close("a".to_owned()),
        Token::Empty("b".to_owned(), vec![]),
    ];
    let mut pos = 0usize;
    let a = Element::read_from(&tokens, &mut pos).unwrap();
    assert_eq!(a.name(), "a");
    assert_eq!(pos, 4);
    let b = Element::read_from(&tokens, &mut pos).unwrap();
    assert_eq!(b.name(), "b");
    assert_eq!(pos, 5);
}

#[test]
fn unclosed_document_is_eof() {
    let tokens = vec![Token::Open("a".to_owned(), vec![]), Token::Text("x".to_owned())];
    let mut pos = 0usize;
    assert!(matches!(Element::read_from(&tokens, &mut pos), Err(SCError::Eof)));
    assert!(matches!(Element::from_str("<a><b/>"), Err(SCError::Eof)));
}

#[test]
fn malformed_text_is_an_xml_error() {
    assert!(matches!(Element::from_str("<a>x &nope; y</a>"), Err(SCError::Xml(_))));
}

#[test]
fn missing_attribute_and_child_are_reported() {
    let e = Element::new("a").build();
    assert!(matches!(e.attribute("k"), Err(SCError::MissingAttribute(k)) if k == "k"));
    assert!(matches!(e.child_by_name("c"), Err(SCError::MissingChild(c)) if c == "c"));
}

#[test]
fn childs_by_name_keeps_order() {
    let e = Element::from_str("<a><b n=\"1\"/><c/><b n=\"2\"/></a>").unwrap();
    let bs = e.childs_by_name("b");
    assert_eq!(bs.len(), 2);
    assert_eq!(bs[0].attribute("n").unwrap(), "1");
    assert_eq!(bs[1].attribute("n").unwrap(), "2");
    assert_eq!(e.child_by_name("b").unwrap().attribute("n").unwrap(), "1");
}

#[test]
fn builder_attribute_replaces_value() {
    let e = Element::new("a").attribute("k", "1").attribute("k", "2").build();
    assert_eq!(e.to_string(), "<a k=\"2\"/>");
}

#[test]
fn render_of_open_and_close_tokens() {
    let tokens = vec![
        Token::Open("protocol".to_owned(), vec![]),
        Token::Close("protocol".to_owned()),
    ];
    assert_eq!(render(&tokens), "<protocol></protocol>");
}
