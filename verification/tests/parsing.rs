use rsx_core::attributes::{classify_attribute, classify_global, AttrCategory, GlobalCategory};
use rsx_core::component::{parse_component, parse_items, rsx, rsx_borrowed};
use rsx_core::ir::{Attribute, ComponentIR, RenderedNode, UIEventHandlingInfo};
use rsx_core::matchers::{match_identifier, match_punctuation};
use rsx_core::tokens::{Adjacency, DelimiterKind, LexicalToken, ParseError};

fn ident(s: &str) -> LexicalToken {
    LexicalToken::Identifier(s.to_string())
}

fn punct(c: char, adj: Adjacency) -> LexicalToken {
    LexicalToken::Punctuation(c, adj)
}

fn lit(s: &str) -> LexicalToken {
    LexicalToken::Literal(s.to_string())
}

fn brace_group(inner: Vec<LexicalToken>) -> LexicalToken {
    LexicalToken::Group(DelimiterKind::Brace, inner)
}

/// `<name/>`
fn self_closing(name: &str) -> Vec<LexicalToken> {
    vec![
        punct('<', Adjacency::Alone),
        ident(name),
        punct('/', Adjacency::Joint),
        punct('>', Adjacency::Alone),
    ]
}

fn opening(name: &str) -> Vec<LexicalToken> {
    vec![punct('<', Adjacency::Alone), ident(name), punct('>', Adjacency::Alone)]
}

fn closing(name: &str) -> Vec<LexicalToken> {
    vec![
        punct('<', Adjacency::Joint),
        punct('/', Adjacency::Alone),
        ident(name),
        punct('>', Adjacency::Alone),
    ]
}

fn html(name: &str, attributes: Vec<Attribute>, children: Vec<RenderedNode>) -> RenderedNode {
    RenderedNode::Html { name: name.to_string(), attributes, children }
}

fn ok(tokens: Vec<LexicalToken>) -> ComponentIR {
    rsx(&tokens).expect("expected a successful parse")
}

fn expr() -> Vec<LexicalToken> {
    vec![ident("a"), punct('.', Adjacency::Alone), ident("b")]
}

#[test]
fn empty_input_is_a_legal_empty_component() {
    let ir = ok(vec![]);
    assert_eq!(ir.rendered_tree, RenderedNode::Empty);
    assert!(ir.event_handlers.is_empty());
    assert!(ir.window_handlers.is_empty());
    assert!(ir.lifecycle_handlers.is_empty());
    assert!(ir.dom_refs.is_empty());
}

#[test]
fn self_closing_tag_parses_with_zero_children() {
    let ir = ok(self_closing("x"));
    assert_eq!(ir.rendered_tree, html("x", vec![], vec![]));
    assert!(ir.event_handlers.is_empty());
    assert!(ir.dom_refs.is_empty());
}

#[test]
fn regular_tag_with_no_children_parses_with_zero_children() {
    let mut tokens = opening("x");
    tokens.extend(closing("x"));
    let ir = ok(tokens);
    assert_eq!(ir.rendered_tree, html("x", vec![], vec![]));
}

#[test]
fn mismatched_closing_tag_fails_fatally_naming_both() {
    let mut tokens = opening("x");
    tokens.extend(closing("y"));
    let err = rsx(&tokens).expect_err("expected a fatal tag mismatch");
    assert_eq!(err, ParseError::TagMismatch("x".to_string(), "y".to_string()));
}

#[test]
fn text_then_tag_splits_at_the_tag_boundary() {
    let mut tokens = vec![ident("foo")];
    tokens.extend(self_closing("bar"));
    let ir = ok(tokens);
    assert_eq!(
        ir.rendered_tree,
        RenderedNode::Fragment(vec![
            RenderedNode::Text("foo".to_string()),
            html("bar", vec![], vec![]),
        ])
    );
}

#[test]
fn attribute_categories_split_one_each_in_order() {
    // <d class="x" on_click=cb ref=r />
    let tokens = vec![
        punct('<', Adjacency::Alone),
        ident("d"),
        ident("class"),
        punct('=', Adjacency::Alone),
        lit("\"x\""),
        ident("on_click"),
        punct('=', Adjacency::Alone),
        ident("cb"),
        ident("ref"),
        punct('=', Adjacency::Alone),
        ident("r"),
        punct('/', Adjacency::Joint),
        punct('>', Adjacency::Alone),
    ];
    let ir = ok(tokens);
    assert_eq!(
        ir.rendered_tree,
        html(
            "d",
            vec![Attribute { name: "class".to_string(), value: vec![lit("\"x\"")] }],
            vec![],
        )
    );
    assert_eq!(ir.event_handlers.len(), 1);
    assert_eq!(ir.event_handlers[0].event, Some("on_click".to_string()));
    assert_eq!(ir.event_handlers[0].callback, vec![ident("cb")]);
    assert!(!ir.event_handlers[0].is_group_expression);
    assert_eq!(ir.event_handlers[0].reversed_path, vec![0]);
    assert_eq!(ir.dom_refs.len(), 1);
    assert_eq!(ir.dom_refs[0].ref_name, "r".to_string());
    assert_eq!(ir.dom_refs[0].reversed_path, vec![0]);
}

#[test]
fn bare_attribute_keeps_an_empty_value() {
    // <x disabled/>
    let tokens = vec![
        punct('<', Adjacency::Alone),
        ident("x"),
        ident("disabled"),
        punct('/', Adjacency::Joint),
        punct('>', Adjacency::Alone),
    ];
    let ir = ok(tokens);
    assert_eq!(
        ir.rendered_tree,
        html("x", vec![Attribute { name: "disabled".to_string(), value: vec![] }], vec![]),
    );
}

#[test]
fn global_handlers_only_yield_an_empty_tree() {
    // on_window_scroll=cb on_mount={go()}
    let tokens = vec![
        ident("on_window_scroll"),
        punct('=', Adjacency::Alone),
        ident("cb"),
        ident("on_mount"),
        punct('=', Adjacency::Alone),
        brace_group(vec![ident("go")]),
    ];
    let ir = ok(tokens);
    assert_eq!(ir.rendered_tree, RenderedNode::Empty);
    assert!(ir.event_handlers.is_empty());
    assert_eq!(ir.window_handlers.len(), 1);
    assert_eq!(ir.window_handlers[0].event, "on_window_scroll".to_string());
    assert_eq!(ir.window_handlers[0].callback, vec![ident("cb")]);
    assert_eq!(ir.lifecycle_handlers.len(), 1);
    assert_eq!(ir.lifecycle_handlers[0].event, "on_mount".to_string());
    assert_eq!(ir.lifecycle_handlers[0].callback, vec![ident("go")]);
}

#[test]
fn trailing_stray_token_is_a_fatal_trailing_input_error() {
    let mut tokens = self_closing("x");
    tokens.push(punct('<', Adjacency::Alone));
    let err = rsx(&tokens).expect_err("expected trailing input");
    assert_eq!(err, ParseError::TrailingInput);
}

#[test]
fn wrongly_delimited_group_is_a_fatal_malformed_group_error() {
    let tokens = vec![LexicalToken::Group(DelimiterKind::Parenthesis, vec![ident("a")])];
    let err = rsx(&tokens).expect_err("expected a malformed group");
    assert_eq!(err, ParseError::MalformedGroup);
}

#[test]
fn expression_group_registers_exactly_one_unnamed_group_handler() {
    let tokens = vec![brace_group(expr())];
    let ir = ok(tokens);
    assert_eq!(ir.rendered_tree, RenderedNode::ExpressionGroup(expr()));
    assert_eq!(ir.event_handlers.len(), 1);
    let handler: &UIEventHandlingInfo = &ir.event_handlers[0];
    assert_eq!(handler.event, None);
    assert!(handler.is_group_expression);
    assert_eq!(handler.callback, expr());
    assert_eq!(handler.reversed_path, vec![0]);
    assert!(ir.dom_refs.is_empty());
}

#[test]
fn sibling_order_and_nesting_depth_follow_the_source() {
    // <a> <b on_click=h/> <c/> <d ref=r/> </a> <e/>
    let mut tokens = opening("a");
    tokens.extend(vec![
        punct('<', Adjacency::Alone),
        ident("b"),
        ident("on_click"),
        punct('=', Adjacency::Alone),
        ident("h"),
        punct('/', Adjacency::Joint),
        punct('>', Adjacency::Alone),
    ]);
    tokens.extend(self_closing("c"));
    tokens.extend(vec![
        punct('<', Adjacency::Alone),
        ident("d"),
        ident("ref"),
        punct('=', Adjacency::Alone),
        ident("r"),
        punct('/', Adjacency::Joint),
        punct('>', Adjacency::Alone),
    ]);
    tokens.extend(closing("a"));
    tokens.extend(self_closing("e"));
    let ir = ok(tokens);
    assert_eq!(
        ir.rendered_tree,
        RenderedNode::Fragment(vec![
            html(
                "a",
                vec![],
                vec![html("b", vec![], vec![]), html("c", vec![], vec![]), html(
                    "d",
                    vec![],
                    vec![]
                )],
            ),
            html("e", vec![], vec![]),
        ])
    );
    // The handler under root sibling 0, child 0: reversed path [0, 0].
    assert_eq!(ir.event_handlers.len(), 1);
    assert_eq!(ir.event_handlers[0].reversed_path, vec![0, 0]);
    // The reference under root sibling 0, child 2: reversed path [2, 0].
    assert_eq!(ir.dom_refs.len(), 1);
    assert_eq!(ir.dom_refs[0].reversed_path, vec![2, 0]);
}

#[test]
fn top_level_siblings_paths_end_with_their_own_index() {
    // <a on_x=h1/> <b on_y=h2/>
    let mut tokens = vec![
        punct('<', Adjacency::Alone),
        ident("a"),
        ident("on_x"),
        punct('=', Adjacency::Alone),
        ident("h1"),
        punct('/', Adjacency::Joint),
        punct('>', Adjacency::Alone),
    ];
    tokens.extend(vec![
        punct('<', Adjacency::Alone),
        ident("b"),
        ident("on_y"),
        punct('=', Adjacency::Alone),
        ident("h2"),
        punct('/', Adjacency::Joint),
        punct('>', Adjacency::Alone),
    ]);
    let ir = ok(tokens);
    assert_eq!(ir.event_handlers.len(), 2);
    assert_eq!(ir.event_handlers[0].reversed_path, vec![0]);
    assert_eq!(ir.event_handlers[1].reversed_path, vec![1]);
}

#[test]
fn deep_mismatch_unwinds_without_backtracking_into_text() {
    // <a> <b> </a> </b>  fails on the inner pair.
    let mut tokens = opening("a");
    tokens.extend(opening("b"));
    tokens.extend(closing("a"));
    tokens.extend(closing("b"));
    let err = rsx(&tokens).expect_err("expected a fatal tag mismatch");
    assert_eq!(err, ParseError::TagMismatch("b".to_string(), "a".to_string()));
}

#[test]
fn text_pieces_join_identifiers_literals_and_punctuation() {
    let tokens = vec![ident("foo"), lit("1"), punct('!', Adjacency::Alone)];
    let ir = ok(tokens);
    assert_eq!(ir.rendered_tree, RenderedNode::Text("foo1!".to_string()));
}

#[test]
fn a_single_punctuation_character_becomes_its_own_text() {
    let tokens = vec![punct('*', Adjacency::Alone)];
    let ir = ok(tokens);
    assert_eq!(ir.rendered_tree, RenderedNode::Text("*".to_string()));
}

#[test]
fn ownership_mode_is_threaded_to_the_ir() {
    assert!(ok(self_closing("x")).owns_captures);
    let borrowed = rsx_borrowed(&self_closing("x")).expect("expected a successful parse");
    assert!(!borrowed.owns_captures);
    let explicit = parse_component(&self_closing("x"), false).expect("expected success");
    assert!(!explicit.owns_captures);
}

#[test]
fn reserved_name_convention_is_stable() {
    assert_eq!(classify_attribute(&"ref".to_string()), AttrCategory::Reference);
    assert_eq!(classify_attribute(&"on_click".to_string()), AttrCategory::Handler);
    assert_eq!(classify_attribute(&"on_".to_string()), AttrCategory::Handler);
    assert_eq!(classify_attribute(&"class".to_string()), AttrCategory::Plain);
    assert_eq!(classify_attribute(&"refs".to_string()), AttrCategory::Plain);
    assert_eq!(classify_global(&"on_window_scroll".to_string()), GlobalCategory::Window);
    assert_eq!(classify_global(&"on_mount".to_string()), GlobalCategory::Lifecycle);
    assert_eq!(classify_global(&"on_unmount".to_string()), GlobalCategory::Lifecycle);
    assert_eq!(classify_global(&"on_click".to_string()), GlobalCategory::NotGlobal);
}

#[test]
fn matchers_fail_with_a_recoverable_mismatch_and_consume_nothing() {
    let tokens = vec![punct('<', Adjacency::Alone)];
    assert_eq!(match_identifier(&tokens, 0), Err(ParseError::LocalMismatch));
    assert_eq!(
        match_punctuation(&tokens, 0, Some('>'), None, &vec![]),
        Err(ParseError::LocalMismatch)
    );
    // The exclusion set refuses an otherwise matching character.
    assert_eq!(
        match_punctuation(&tokens, 0, Some('<'), None, &vec!['<']),
        Err(ParseError::LocalMismatch)
    );
    assert_eq!(match_punctuation(&tokens, 0, Some('<'), None, &vec![]), Ok(('<', 1)));
}

#[test]
fn own_level_handlers_come_before_child_handlers() {
    // <a on_x=h> <b on_y=k/> </a>
    let tokens = vec![
        punct('<', Adjacency::Alone),
        ident("a"),
        ident("on_x"),
        punct('=', Adjacency::Alone),
        ident("h"),
        punct('>', Adjacency::Alone),
        punct('<', Adjacency::Alone),
        ident("b"),
        ident("on_y"),
        punct('=', Adjacency::Alone),
        ident("k"),
        punct('/', Adjacency::Joint),
        punct('>', Adjacency::Alone),
        punct('<', Adjacency::Joint),
        punct('/', Adjacency::Alone),
        ident("a"),
        punct('>', Adjacency::Alone),
    ];
    let ir = ok(tokens);
    assert_eq!(ir.event_handlers.len(), 2);
    assert_eq!(ir.event_handlers[0].event, Some("on_x".to_string()));
    assert_eq!(ir.event_handlers[0].reversed_path, vec![0]);
    assert_eq!(ir.event_handlers[1].event, Some("on_y".to_string()));
    assert_eq!(ir.event_handlers[1].reversed_path, vec![0, 0]);
}

#[test]
fn expression_group_nested_in_a_tag_is_path_annotated() {
    // <a> {cb} </a>
    let mut tokens = opening("a");
    tokens.push(brace_group(vec![ident("cb")]));
    tokens.extend(closing("a"));
    let ir = ok(tokens);
    assert_eq!(
        ir.rendered_tree,
        html("a", vec![], vec![RenderedNode::ExpressionGroup(vec![ident("cb")])]),
    );
    assert_eq!(ir.event_handlers.len(), 1);
    assert!(ir.event_handlers[0].is_group_expression);
    assert_eq!(ir.event_handlers[0].event, None);
    assert_eq!(ir.event_handlers[0].reversed_path, vec![0, 0]);
}

#[test]
fn a_handler_attribute_without_a_callback_fails_the_whole_tag() {
    // <x on_click> — the entry list stops before `on_click`, the tag then
    // mismatches, text cannot absorb the `<`, and the tokens remain.
    let tokens = vec![
        punct('<', Adjacency::Alone),
        ident("x"),
        ident("on_click"),
        punct('>', Adjacency::Alone),
    ];
    let err = rsx(&tokens).expect_err("expected a failed parse");
    assert_eq!(err, ParseError::TrailingInput);
}

#[test]
fn parse_items_collects_each_parenthesized_group() {
    let tokens = vec![
        LexicalToken::Group(DelimiterKind::Parenthesis, vec![ident("a")]),
        LexicalToken::Group(DelimiterKind::Parenthesis, vec![ident("b"), ident("c")]),
    ];
    let items = parse_items(&tokens).expect("expected item groups");
    assert_eq!(items, vec![vec![ident("a")], vec![ident("b"), ident("c")]]);
    assert_eq!(parse_items(&vec![]), Ok(vec![]));
}

#[test]
fn parse_items_refuses_anything_but_parenthesized_groups() {
    let tokens = vec![
        LexicalToken::Group(DelimiterKind::Parenthesis, vec![ident("a")]),
        ident("stray"),
    ];
    assert_eq!(parse_items(&tokens), Err(ParseError::MalformedGroup));
    let braced = vec![brace_group(vec![ident("a")])];
    assert_eq!(parse_items(&braced), Err(ParseError::MalformedGroup));
}
