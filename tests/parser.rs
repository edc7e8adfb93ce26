use paperclip::markup::{Attribute, AttributeValue, Element, Expression, Node, Str};
use paperclip::parser::parse;

#[test]
fn can_parse_a_simple_text_node() {
  let expr = parse("abc").unwrap();
  let eql = Expression {
    item: Node::Text("abc")
  };

  assert_eq!(expr, eql);
}

#[test]
fn can_parse_a_simple_self_closing_element() {
  let expr = parse("<div />").unwrap();
  let eql = Expression {
    item: Node::Element(Element {
      tag_name: "div",
      attributes: vec![],
      children: vec![]
    })
  };

  assert_eq!(expr, eql);
}

#[test]
fn can_parse_an_element_with_an_attribute_name() {
  let expr = parse("<div a />").unwrap();
  let eql = Expression {
    item: Node::Element(Element {
      tag_name: "div",
      attributes: vec! [
        Expression {
          item: Attribute {
            name: "a",
            value: None
          }
        }
      ],
      children: vec![]
    })
  };

  assert_eq!(expr, eql);
}
#[test]
fn can_parse_an_element_with_an_attribute_value() {
  let expr = parse("<div a='b' />").unwrap();
  let eql = Expression {
    item: Node::Element(Element {
      tag_name: "div",
      attributes: vec! [
        Expression {
          item: Attribute {
            name: "a",
            value: Some(Expression {
              item: AttributeValue::String(Str { value: "b" })
            })
          }
        }
      ],
      children: vec![]
    })
  };

  assert_eq!(expr, eql);
}

#[test]
fn can_parse_multiple_values() {
  let expr = parse("<div a='b' c d />").unwrap();
  let eql = Expression {
    item: Node::Element(Element {
      tag_name: "div",
      attributes: vec! [
        Expression {
          item: Attribute {
            name: "a",
            value: Some(Expression {
              item:  AttributeValue::String(Str { value: "b" })
            })
          }
        },
        Expression {
          item: Attribute {
            name: "c",
            value: None
          }
        },
        Expression {
          item: Attribute {
            name: "d",
            value: None
          }
        }
      ],
      children: vec![]
    })
  };

  assert_eq!(expr, eql);
}


#[test]
fn can_parse_children() {
  let expr = parse("<div> <span /></div>").unwrap();
  let eql = Expression {
    item: Node::Element(Element {
      tag_name: "div",
      attributes: vec! [],
      children: vec![
        Expression {
          item: Node::Element(Element {
            tag_name: "span",
            attributes: vec! [],
            children: vec![]
          })
        }
      ]
    })
  };

  assert_eq!(expr, eql);
}

#[test]
fn can_parse_blocks() {
  let expr = parse("{{block}}").unwrap();
  assert_eq!(expr.to_string(), "{{block}}");
}

#[test]
fn can_parse_a_style() {
  let expr = parse("<style>div { color: red; }</style>").unwrap();
  assert_eq!(expr.to_string(), "<style>div  {\n  color: red;\n}\n</style>");
}

#[test]
fn can_parse_various_nodes() {

  let cases = [

    // text blocks
    "text",

    // slots
    "{{ok}}",

    // elements
    "<div></div>",
    "<div a b></div>",
    "<div a=\"b\" c></div>",

    "<div a=\"b\" c=\"d\">
      <span>
        c {{block}} d {{block}}
      </span>
      <span>
        color {{block}}
      </span>
    </div>",

    // mixed elements

    // styles
    "
    <style>
      div  {
        color: red;
      }
    </style>",

    "
      <style>
        div > a {
          color: red;
        }
        span {
          color: orange;
          background: a b c d;
        }
        block {
          color: blue;
          background: red;
        }
      </style>"
  ];

  for i in 0..cases.len() {
    let case = cases[i];

    // TODO - strip whitespace
    let expr = parse(case).unwrap();
    assert_eq!(expr.to_string().replace("\n", "").replace(" ", ""), case.replace("\n", "").replace(" ", ""));
  }
}
