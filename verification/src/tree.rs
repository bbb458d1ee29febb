//! The syntax tree of a localisation pattern string.
//!
//! The string is tokenised by the lexer, then the tokens are parsed by a state machine into a tree of nodes.
//! The state machine is stated as the spec function [`parse_step`], one transition per token (some transitions
//! look ahead and consume one or two more tokens), and [`parse_run`] runs it over all the tokens.

use crate::lexer::{
    grapheme_total, is_tokenisation, lemma_tokenisation_totals, token_text, tokenise, IcuDataProvider, LexerError,
    Token, TokenType,
};
use crate::utf8::utf8_length;
use std::rc::Rc;
use vstd::prelude::*;

verus! {

/// The node types of the syntax tree:
///
/// * Root: \[Container\] the top level, containing the String container and an optional NamedGroup container,
/// * NamedGroup: \[Container\] exists when at least one named substring is present,
/// * NamedString: \[Container\] an Identifier leaf and its substring String container,
/// * String: \[Container\] the whole string, or a substring of a plural or select pattern,
/// * Text: \[Leaf\] literal text of one or more tokens,
/// * NumberSign: \[Leaf\] the number pattern `#` in text,
/// * Command: \[Container\] command data,
/// * Pattern: \[Container\] a placeholder pattern; its second node is the pattern keyword,
/// * Identifier: \[Leaf\] a single identifier token,
/// * Selector: \[Container\] two Identifier leaves, for `plural` and `select` patterns.
#[derive(Debug, PartialEq, Eq, Clone, Copy, Structural)]
pub enum NodeType {
    Root,
    NamedGroup,
    NamedString,
    String,
    Text,
    NumberSign,
    Command,
    Pattern,
    Identifier,
    Selector,
}

impl NodeType {
    /// Whether nodes of this type may have children.
    pub open spec fn spec_allow_children(self) -> bool {
        match self {
            NodeType::Root | NodeType::String | NodeType::NamedGroup | NodeType::NamedString
            | NodeType::Selector | NodeType::Pattern | NodeType::Command => true,
            _ => false,
        }
    }

    /// Whether nodes of this type may hold tokens.
    pub open spec fn spec_allow_tokens(self) -> bool {
        match self {
            NodeType::Text | NodeType::NumberSign | NodeType::Identifier => true,
            _ => false,
        }
    }

    /// Indicates whether the node can have children nodes.
    pub fn allow_children(&self) -> (result: bool)
        ensures
            result == self.spec_allow_children(),
    {
        match self {
            NodeType::Root | NodeType::String | NodeType::NamedGroup | NodeType::NamedString
            | NodeType::Selector | NodeType::Pattern | NodeType::Command => true,
            _ => false,
        }
    }

    /// Indicates whether the node can have tokens.
    pub fn allow_tokens(&self) -> (result: bool)
        ensures
            result == self.spec_allow_tokens(),
    {
        match self {
            NodeType::Text | NodeType::NumberSign | NodeType::Identifier => true,
            _ => false,
        }
    }

    /// The name of the node type, as its display form.
    pub fn name(&self) -> (result: &'static str)
        ensures
            result@ == self.spec_name(),
    {
        match self {
            NodeType::Root => "Root",
            NodeType::NamedGroup => "NamedGroup",
            NodeType::NamedString => "NamedString",
            NodeType::String => "String",
            NodeType::Text => "Text",
            NodeType::NumberSign => "NumberSign",
            NodeType::Command => "Command",
            NodeType::Pattern => "Pattern",
            NodeType::Identifier => "Identifier",
            NodeType::Selector => "Selector",
        }
    }

    /// The name of the node type.
    pub open spec fn spec_name(self) -> Seq<char> {
        match self {
            NodeType::Root => "Root"@,
            NodeType::NamedGroup => "NamedGroup"@,
            NodeType::NamedString => "NamedString"@,
            NodeType::String => "String"@,
            NodeType::Text => "Text"@,
            NodeType::NumberSign => "NumberSign"@,
            NodeType::Command => "Command"@,
            NodeType::Pattern => "Pattern"@,
            NodeType::Identifier => "Identifier"@,
            NodeType::Selector => "Selector"@,
        }
    }
}

/// The string length in terms of bytes, characters, graphemes, and tokens.
#[derive(Debug)]
pub struct Length {
    pub bytes: usize,
    pub characters: usize,
    pub graphemes: usize,
    pub tokens: usize,
}

/// The states of the parser.
#[derive(Debug, PartialEq, Eq, Copy, Clone, Structural)]
pub enum ParserState {
    NamedGroup,
    NamedString,
    String,
    SubString,
    LiteralText,
    Pattern,
    Literal,
    Command,
    Keyword,
}

impl ParserState {
    /// The name of the parser state, as its display form.
    pub fn name(&self) -> (result: &'static str)
        ensures
            result@ == self.spec_name(),
    {
        match self {
            ParserState::Command => "Command",
            ParserState::Keyword => "Keyword",
            ParserState::Literal => "Literal",
            ParserState::LiteralText => "LiteralText",
            ParserState::NamedGroup => "NamedGroup",
            ParserState::NamedString => "NamedString",
            ParserState::Pattern => "Pattern",
            ParserState::String => "String",
            ParserState::SubString => "SubString",
        }
    }

    /// The name of the parser state.
    pub open spec fn spec_name(self) -> Seq<char> {
        match self {
            ParserState::Command => "Command"@,
            ParserState::Keyword => "Keyword"@,
            ParserState::Literal => "Literal"@,
            ParserState::LiteralText => "LiteralText"@,
            ParserState::NamedGroup => "NamedGroup"@,
            ParserState::NamedString => "NamedString"@,
            ParserState::Pattern => "Pattern"@,
            ParserState::String => "String"@,
            ParserState::SubString => "SubString"@,
        }
    }
}

/// The errors of building a tree:
///
/// * `Lexer`: the lexer failed,
/// * `EndedAbruptly`: the string came to an abrupt end, usually in a pattern,
/// * `InvalidToken`: an unexpected token (parser state, grapheme position, token text),
/// * `UniquePattern`: a duplicate pattern identifier,
/// * `MultiNumberSign`: consecutive number signs (grapheme position),
/// * `UniqueNamed`: a duplicate named substring identifier.
#[derive(Debug, Clone)]
pub enum TreeError {
    Lexer(LexerError),
    EndedAbruptly,
    InvalidToken(ParserState, usize, String),
    UniquePattern(String),
    MultiNumberSign(usize),
    UniqueNamed(String),
}

/// A [`TreeError`] with its strings as character sequences.
pub enum TreeErrorView {
    Lexer(LexerError),
    EndedAbruptly,
    InvalidToken(ParserState, usize, Seq<char>),
    UniquePattern(Seq<char>),
    MultiNumberSign(usize),
    UniqueNamed(Seq<char>),
}

impl View for TreeError {
    type V = TreeErrorView;

    open spec fn view(&self) -> TreeErrorView {
        match self {
            TreeError::Lexer(e) => TreeErrorView::Lexer(*e),
            TreeError::EndedAbruptly => TreeErrorView::EndedAbruptly,
            TreeError::InvalidToken(s, p, t) => TreeErrorView::InvalidToken(*s, *p, t@),
            TreeError::UniquePattern(t) => TreeErrorView::UniquePattern(t@),
            TreeError::MultiNumberSign(p) => TreeErrorView::MultiNumberSign(*p),
            TreeError::UniqueNamed(t) => TreeErrorView::UniqueNamed(t@),
        }
    }
}

/// A node of the tree: its type, its parent, its children (containers) and its token indices (leaves).
#[verifier::ext_equal]
pub struct NodeView {
    pub node_type: NodeType,
    pub parent: Option<usize>,
    pub children: Seq<usize>,
    pub tokens: Seq<usize>,
}

/// The state of the parser: its state, the stack of nested states, the current node, the nodes, and the
/// identifiers of the named substrings and of the patterns seen so far.
#[verifier::ext_equal]
pub struct ParseView {
    pub state: ParserState,
    pub nested: Seq<ParserState>,
    pub current: Option<usize>,
    pub nodes: Seq<NodeView>,
    pub named: Set<Seq<char>>,
    pub patterns: Set<Seq<char>>,
}

/// The outcome of one transition: the next parser state and the index of the next token to read, an error,
/// or a transition that the parser does not define (it would reach a node without children where it needs
/// one, or have no current node).
pub enum StepView {
    Next(ParseView, int),
    Fail(TreeErrorView),
    Stuck,
}

/// The outcome of parsing all the tokens.
pub enum RunView {
    Done(ParseView),
    Fail(TreeErrorView),
    Stuck,
}

/// Every node but the first has a parent that comes before it and may have children.
pub open spec fn parents_ok(nodes: Seq<NodeView>) -> bool {
    forall|j: int|
        1 <= j < nodes.len() ==> (#[trigger] nodes[j].parent is Some && nodes[j].parent.unwrap() < j
            && nodes[nodes[j].parent.unwrap() as int].node_type.spec_allow_children())
}

/// Every child index is the index of a node.
pub open spec fn children_in_range(nodes: Seq<NodeView>) -> bool {
    forall|j: int, k: int|
        0 <= j < nodes.len() && 0 <= k < nodes[j].children.len() ==> #[trigger] nodes[j].children[k] < nodes.len()
}

/// Every token index is below `token_count`.
pub open spec fn tokens_in_range(nodes: Seq<NodeView>, token_count: int) -> bool {
    forall|j: int, k: int|
        0 <= j < nodes.len() && 0 <= k < nodes[j].tokens.len() ==> #[trigger] nodes[j].tokens[k] < token_count
}

/// Leaves have no children.
pub open spec fn leaves_childless(nodes: Seq<NodeView>) -> bool {
    forall|j: int|
        0 <= j < nodes.len() ==> (!(#[trigger] nodes[j]).node_type.spec_allow_children()
            ==> nodes[j].children.len() == 0)
}

/// The nodes are a tree: node 0 is the Root and the only node without a parent, its first child is node 1, a
/// String node; every other node's parent comes before it and may have children, leaves have no children, and
/// children and token indices are in range.
pub open spec fn nodes_wf(nodes: Seq<NodeView>, token_count: int) -> bool {
    &&& nodes.len() >= 2
    &&& nodes[0].node_type == NodeType::Root
    &&& nodes[0].parent is None
    &&& nodes[0].children.len() >= 1
    &&& nodes[0].children[0] == 1
    &&& nodes[1].node_type == NodeType::String
    &&& parents_ok(nodes)
    &&& children_in_range(nodes)
    &&& tokens_in_range(nodes, token_count)
    &&& leaves_childless(nodes)
}

/// The parser state is well formed: the nodes are a tree and the current node, if any, is one of them.
pub open spec fn view_wf(p: ParseView, token_count: int) -> bool {
    &&& nodes_wf(p.nodes, token_count)
    &&& p.current matches Some(c) ==> c < p.nodes.len()
}

/// The error for an unexpected token.
pub open spec fn invalid(state: ParserState, t: Token) -> TreeErrorView {
    TreeErrorView::InvalidToken(state, t.start_grapheme, t.string@)
}

/// The token is the one-character string `c`.
pub open spec fn is_text(t: Token, c: char) -> bool {
    t.string@ == seq![c]
}

/// The token is the grammar character `c`.
pub open spec fn is_grammar(t: Token, c: char) -> bool {
    t.token_type == TokenType::Grammar && is_text(t, c)
}

/// Moves the current node to its parent if the current node is a leaf.
pub open spec fn sp_move_to_container(p: ParseView) -> ParseView {
    let c = p.current.unwrap();
    if !p.nodes[c as int].node_type.spec_allow_children() {
        ParseView { current: p.nodes[c as int].parent, ..p }
    } else {
        p
    }
}

/// Appends a new node of type `node_type` as the last child of node `index`.
pub open spec fn sp_insert(nodes: Seq<NodeView>, index: usize, node_type: NodeType) -> Seq<NodeView> {
    let k = nodes.len() as usize;
    let node = NodeView { node_type, parent: Some(index), children: Seq::empty(), tokens: Seq::empty() };
    let parent = nodes[index as int];
    nodes.update(index as int, NodeView { children: parent.children.push(k), ..parent }).push(node)
}

/// Creates a child node of the container of the current node, and makes it the current node.
pub open spec fn sp_create_node(p: ParseView, node_type: NodeType) -> ParseView {
    let q = sp_move_to_container(p);
    let c = q.current.unwrap();
    ParseView {
        nodes: sp_insert(q.nodes, c, node_type),
        current: Some(q.nodes.len() as usize),
        ..q
    }
}

/// Adds token `token` to the current node.
pub open spec fn sp_push_token(p: ParseView, token: usize) -> ParseView {
    let c = p.current.unwrap();
    let node = p.nodes[c as int];
    ParseView { nodes: p.nodes.update(c as int, NodeView { tokens: node.tokens.push(token), ..node }), ..p }
}

/// Creates a node as [`sp_create_node`] and adds the token to it.
pub open spec fn sp_create_node_add_token(p: ParseView, node_type: NodeType, token: usize) -> ParseView {
    sp_push_token(sp_create_node(p, node_type), token)
}

/// Adds the token to the current node if it has type `node_type`, else to a new node of that type.
pub open spec fn sp_add_token(p: ParseView, node_type: NodeType, token: usize) -> ParseView {
    let c = p.current.unwrap();
    if p.nodes[c as int].node_type == node_type {
        sp_push_token(p, token)
    } else {
        sp_create_node_add_token(p, node_type, token)
    }
}

/// Ends the current nested state: returns to the previous state (or `String`) and to the parent node.
pub open spec fn sp_end_nested(p: ParseView) -> ParseView {
    let c = p.current.unwrap();
    ParseView {
        state: if p.nested.len() > 0 {
            p.nested.last()
        } else {
            ParserState::String
        },
        nested: if p.nested.len() > 0 {
            p.nested.drop_last()
        } else {
            p.nested
        },
        current: p.nodes[c as int].parent,
        ..p
    }
}

/// Pushes a state on the stack of nested states.
pub open spec fn sp_push_nested(p: ParseView, s: ParserState) -> ParseView {
    ParseView { nested: p.nested.push(s), ..p }
}

/// Sets the parser state.
pub open spec fn sp_set_state(p: ParseView, s: ParserState) -> ParseView {
    ParseView { state: s, ..p }
}

/// Starts a pattern whose first token (after `{`) is `tokens[k]`: a placeholder pattern for an identifier,
/// a literal pattern for `` ` ``, a command pattern for `#`.
pub open spec fn sp_pattern_start(p: ParseView, tokens: Seq<Token>, k: int, next: int) -> StepView {
    let t = tokens[k];
    if t.token_type == TokenType::Identifier {
        if p.current is None {
            StepView::Stuck
        } else if p.patterns.contains(t.string@) {
            StepView::Fail(TreeErrorView::UniquePattern(t.string@))
        } else {
            let q = sp_create_node(p, NodeType::Pattern);
            let q = ParseView { patterns: q.patterns.insert(t.string@), ..q };
            let q = sp_move_to_container(sp_create_node_add_token(q, NodeType::Identifier, k as usize));
            StepView::Next(sp_set_state(sp_push_nested(q, q.state), ParserState::Pattern), next)
        }
    } else if t.token_type == TokenType::Grammar && is_text(t, '`') {
        if p.current is None {
            StepView::Stuck
        } else {
            let q = sp_create_node(p, NodeType::Text);
            let q = sp_push_nested(sp_push_nested(q, q.state), ParserState::Literal);
            StepView::Next(sp_set_state(q, ParserState::LiteralText), next)
        }
    } else if t.token_type == TokenType::Grammar && is_text(t, '#') {
        if p.current is None {
            StepView::Stuck
        } else {
            let q = sp_create_node(p, NodeType::Command);
            StepView::Next(sp_set_state(sp_push_nested(q, q.state), ParserState::Command), next)
        }
    } else {
        StepView::Fail(invalid(p.state, t))
    }
}

/// The children of the current node, if the parser can read them: `None` when there is no current node or it
/// is a leaf.
pub open spec fn current_children(p: ParseView) -> Option<Seq<usize>> {
    match p.current {
        Some(c) => if p.nodes[c as int].node_type.spec_allow_children() {
            Some(p.nodes[c as int].children)
        } else {
            None
        },
        None => None,
    }
}

/// A transition that needs a current node.
pub open spec fn with_current(p: ParseView, q: ParseView, next: int) -> StepView {
    if p.current is None {
        StepView::Stuck
    } else {
        StepView::Next(q, next)
    }
}

/// The transition in state `String` for the token `tokens[i]`.
pub open spec fn step_string(p: ParseView, tokens: Seq<Token>, i: int) -> StepView {
    let t = tokens[i];
    if t.token_type == TokenType::Grammar {
        if is_text(t, '`') {
            if i + 1 >= tokens.len() {
                StepView::Fail(TreeErrorView::EndedAbruptly)
            } else {
                with_current(p, sp_add_token(p, NodeType::Text, (i + 1) as usize), i + 2)
            }
        } else if is_text(t, '{') {
            if i + 1 >= tokens.len() {
                StepView::Fail(TreeErrorView::EndedAbruptly)
            } else {
                sp_pattern_start(p, tokens, i + 1, i + 2)
            }
        } else if is_text(t, '#') {
            let q = sp_create_node(ParseView { current: Some(0), ..p }, NodeType::NamedGroup);
            StepView::Next(sp_set_state(q, ParserState::NamedGroup), i + 1)
        } else {
            StepView::Fail(invalid(p.state, t))
        }
    } else {
        with_current(p, sp_add_token(p, NodeType::Text, i as usize), i + 1)
    }
}

/// The transition in state `SubString` for the token `tokens[i]`.
pub open spec fn step_substring(p: ParseView, tokens: Seq<Token>, i: int) -> StepView {
    let t = tokens[i];
    if t.token_type == TokenType::Grammar {
        if is_text(t, '#') {
            match p.current {
                None => StepView::Stuck,
                Some(c) => match p.nodes[c as int].parent {
                    None => StepView::Stuck,
                    Some(parent) => {
                        let node = p.nodes[parent as int];
                        if !node.node_type.spec_allow_children() {
                            StepView::Stuck
                        } else if node.children.len() > 0 && p.nodes[node.children.last() as int].node_type
                            == NodeType::NumberSign {
                            StepView::Fail(TreeErrorView::MultiNumberSign(t.start_grapheme))
                        } else {
                            StepView::Next(sp_create_node_add_token(p, NodeType::NumberSign, i as usize), i + 1)
                        }
                    },
                },
            }
        } else if is_text(t, '`') {
            if i + 1 >= tokens.len() {
                StepView::Fail(TreeErrorView::EndedAbruptly)
            } else {
                with_current(p, sp_add_token(p, NodeType::Text, (i + 1) as usize), i + 2)
            }
        } else if is_text(t, '{') {
            if i + 1 >= tokens.len() {
                StepView::Fail(TreeErrorView::EndedAbruptly)
            } else {
                sp_pattern_start(p, tokens, i + 1, i + 2)
            }
        } else if is_text(t, '}') {
            if p.current is None {
                StepView::Stuck
            } else {
                let q = sp_move_to_container(p);
                if q.current is None {
                    StepView::Stuck
                } else {
                    let q = sp_end_nested(q);
                    match current_children(q) {
                        None => StepView::Stuck,
                        Some(children) => if children.len() != 2 {
                            StepView::Fail(invalid(q.state, t))
                        } else {
                            StepView::Next(sp_end_nested(q), i + 1)
                        },
                    }
                }
            }
        } else {
            StepView::Fail(invalid(p.state, t))
        }
    } else {
        with_current(p, sp_add_token(p, NodeType::Text, i as usize), i + 1)
    }
}

/// The transition in state `Pattern` for the token `tokens[i]`.
pub open spec fn step_pattern(p: ParseView, tokens: Seq<Token>, i: int) -> StepView {
    let t = tokens[i];
    if t.token_type == TokenType::Identifier {
        let q = sp_move_to_container(sp_create_node_add_token(p, NodeType::Identifier, i as usize));
        with_current(p, sp_set_state(q, ParserState::Keyword), i + 1)
    } else if t.token_type == TokenType::WhiteSpace {
        StepView::Next(p, i + 1)
    } else if t.token_type == TokenType::Grammar {
        if !is_text(t, '}') {
            StepView::Fail(invalid(p.state, t))
        } else {
            with_current(p, sp_end_nested(p), i + 1)
        }
    } else {
        StepView::Fail(invalid(p.state, t))
    }
}

/// The transition in state `Keyword` for the token `tokens[i]`: an identifier starts a selector
/// `selector#named`.
pub open spec fn step_keyword(p: ParseView, tokens: Seq<Token>, i: int) -> StepView {
    let t = tokens[i];
    if t.token_type == TokenType::Identifier {
        if p.current is None {
            StepView::Stuck
        } else {
            let q = sp_create_node(p, NodeType::Selector);
            let q = sp_move_to_container(sp_add_token(q, NodeType::Identifier, i as usize));
            if i + 1 >= tokens.len() {
                StepView::Fail(TreeErrorView::EndedAbruptly)
            } else if !is_text(tokens[i + 1], '#') {
                StepView::Fail(invalid(q.state, tokens[i + 1]))
            } else if i + 2 >= tokens.len() {
                StepView::Fail(TreeErrorView::EndedAbruptly)
            } else if tokens[i + 2].token_type != TokenType::Identifier {
                StepView::Fail(invalid(q.state, tokens[i + 2]))
            } else {
                let q = sp_move_to_container(sp_add_token(q, NodeType::Identifier, (i + 2) as usize));
                match q.current {
                    None => StepView::Stuck,
                    Some(c) => StepView::Next(ParseView { current: q.nodes[c as int].parent, ..q }, i + 3),
                }
            }
        }
    } else if t.token_type == TokenType::WhiteSpace {
        StepView::Next(p, i + 1)
    } else if t.token_type == TokenType::Grammar {
        if is_text(t, '}') {
            with_current(p, sp_end_nested(p), i + 1)
        } else {
            StepView::Next(p, i + 1)
        }
    } else {
        StepView::Fail(invalid(p.state, t))
    }
}

/// The transition in state `LiteralText` for the token `tokens[i]`. Two backticks stand for one backtick of
/// the text; a single backtick ends the literal text, and the token after it is read in the state before.
pub open spec fn step_literal_text(p: ParseView, tokens: Seq<Token>, i: int) -> StepView {
    let t = tokens[i];
    if t.token_type == TokenType::Grammar && is_text(t, '`') {
        if i + 1 >= tokens.len() {
            StepView::Fail(TreeErrorView::EndedAbruptly)
        } else if is_text(tokens[i + 1], '`') {
            with_current(p, sp_add_token(p, NodeType::Text, (i + 1) as usize), i + 2)
        } else {
            with_current(p, sp_end_nested(p), i + 1)
        }
    } else {
        with_current(p, sp_add_token(p, NodeType::Text, i as usize), i + 1)
    }
}

/// Returns to the previous state (or `String`), staying at the current node.
pub open spec fn sp_pop_state(p: ParseView) -> ParseView {
    ParseView {
        state: if p.nested.len() > 0 {
            p.nested.last()
        } else {
            ParserState::String
        },
        nested: if p.nested.len() > 0 {
            p.nested.drop_last()
        } else {
            p.nested
        },
        ..p
    }
}

/// The transition in state `Literal` for the token `tokens[i]`: the `}` after the closing backtick ends the
/// literal pattern. The end of the literal text already returned to the node that holds the pattern's text.
pub open spec fn step_literal(p: ParseView, tokens: Seq<Token>, i: int) -> StepView {
    let t = tokens[i];
    if t.token_type == TokenType::Grammar && is_text(t, '}') {
        StepView::Next(sp_pop_state(p), i + 1)
    } else {
        StepView::Fail(invalid(p.state, t))
    }
}

/// The transition in state `Command` for the token `tokens[i]`.
pub open spec fn step_command(p: ParseView, tokens: Seq<Token>, i: int) -> StepView {
    let t = tokens[i];
    if t.token_type == TokenType::Identifier {
        with_current(
            p,
            sp_move_to_container(sp_create_node_add_token(p, NodeType::Identifier, i as usize)),
            i + 1,
        )
    } else if t.token_type == TokenType::Grammar {
        if is_text(t, '}') {
            match current_children(p) {
                None => StepView::Stuck,
                Some(children) => if children.len() == 0 {
                    StepView::Fail(invalid(p.state, t))
                } else {
                    StepView::Next(sp_end_nested(p), i + 1)
                },
            }
        } else if is_text(t, '`') {
            if i + 1 >= tokens.len() {
                StepView::Fail(TreeErrorView::EndedAbruptly)
            } else {
                let q = sp_create_node_add_token(p, NodeType::Text, (i + 1) as usize);
                with_current(
                    p,
                    sp_set_state(sp_push_nested(q, ParserState::Command), ParserState::LiteralText),
                    i + 2,
                )
            }
        } else if is_text(t, '#') {
            match current_children(p) {
                None => StepView::Stuck,
                Some(children) => if children.len() != 1 {
                    StepView::Fail(invalid(p.state, t))
                } else {
                    StepView::Next(sp_create_node_add_token(p, NodeType::NumberSign, i as usize), i + 1)
                },
            }
        } else {
            StepView::Fail(invalid(p.state, t))
        }
    } else if t.token_type == TokenType::WhiteSpace {
        StepView::Next(p, i + 1)
    } else {
        StepView::Fail(invalid(p.state, t))
    }
}

/// Starts the substring of a named string: a String node under the current NamedString node.
pub open spec fn sp_start_substring(p: ParseView) -> ParseView {
    sp_push_nested(sp_create_node(p, NodeType::String), ParserState::NamedString)
}

/// The transition in state `NamedString` for the token `tokens[i]`: an identifier followed by white space,
/// then the substring.
pub open spec fn step_named_string(p: ParseView, tokens: Seq<Token>, i: int) -> StepView {
    let t = tokens[i];
    match current_children(p) {
        None => if t.token_type == TokenType::Grammar && !is_text(t, '#') && !is_text(t, '{') && !is_text(
            t,
            '`',
        ) {
            StepView::Fail(invalid(p.state, t))
        } else {
            StepView::Stuck
        },
        Some(children) => if t.token_type == TokenType::Identifier {
            if children.len() == 0 {
                if p.named.contains(t.string@) {
                    StepView::Fail(TreeErrorView::UniqueNamed(t.string@))
                } else {
                    let q = ParseView { named: p.named.insert(t.string@), ..p };
                    let q = sp_move_to_container(sp_create_node_add_token(q, NodeType::Identifier, i as usize));
                    if i + 1 >= tokens.len() {
                        StepView::Fail(TreeErrorView::EndedAbruptly)
                    } else if tokens[i + 1].token_type == TokenType::WhiteSpace {
                        StepView::Next(q, i + 2)
                    } else {
                        StepView::Fail(invalid(q.state, tokens[i + 1]))
                    }
                }
            } else if children.len() == 1 {
                let q = sp_create_node_add_token(sp_start_substring(p), NodeType::Text, i as usize);
                StepView::Next(sp_set_state(q, ParserState::SubString), i + 1)
            } else {
                StepView::Fail(invalid(p.state, t))
            }
        } else if t.token_type == TokenType::Grammar {
            if is_text(t, '#') {
                if children.len() != 1 {
                    StepView::Fail(invalid(p.state, t))
                } else {
                    let q = sp_create_node_add_token(sp_start_substring(p), NodeType::NumberSign, i as usize);
                    StepView::Next(sp_set_state(q, ParserState::SubString), i + 1)
                }
            } else if is_text(t, '{') {
                if children.len() != 1 {
                    StepView::Fail(invalid(p.state, t))
                } else if i + 1 >= tokens.len() {
                    StepView::Fail(TreeErrorView::EndedAbruptly)
                } else {
                    sp_pattern_start(p, tokens, i, i + 2)
                }
            } else if is_text(t, '`') {
                if children.len() != 1 {
                    StepView::Fail(invalid(p.state, t))
                } else if i + 1 >= tokens.len() {
                    StepView::Fail(TreeErrorView::EndedAbruptly)
                } else {
                    let q = sp_create_node_add_token(sp_start_substring(p), NodeType::Text, (i + 1) as usize);
                    StepView::Next(q, i + 2)
                }
            } else {
                StepView::Fail(invalid(p.state, t))
            }
        } else if t.token_type == TokenType::Syntax {
            if children.len() != 1 {
                StepView::Fail(invalid(p.state, t))
            } else {
                StepView::Next(
                    sp_create_node_add_token(sp_start_substring(p), NodeType::Text, i as usize),
                    i + 1,
                )
            }
        } else {
            if children.len() != 1 {
                StepView::Fail(invalid(p.state, t))
            } else {
                StepView::Next(p, i + 1)
            }
        },
    }
}

/// The transition in state `NamedGroup` for the token `tokens[i]`.
pub open spec fn step_named_group(p: ParseView, tokens: Seq<Token>, i: int) -> StepView {
    let t = tokens[i];
    if t.token_type == TokenType::Grammar {
        if !is_text(t, '{') {
            StepView::Fail(invalid(p.state, t))
        } else {
            let q = sp_push_nested(sp_create_node(p, NodeType::NamedString), ParserState::NamedGroup);
            with_current(p, sp_set_state(q, ParserState::NamedString), i + 1)
        }
    } else if t.token_type == TokenType::WhiteSpace {
        StepView::Next(p, i + 1)
    } else {
        StepView::Fail(invalid(p.state, t))
    }
}

/// The transition of the parser for the token `tokens[i]`.
#[verifier::opaque]
pub open spec fn parse_step(p: ParseView, tokens: Seq<Token>, i: int) -> StepView {
    match p.state {
        ParserState::String => step_string(p, tokens, i),
        ParserState::SubString => step_substring(p, tokens, i),
        ParserState::Pattern => step_pattern(p, tokens, i),
        ParserState::Keyword => step_keyword(p, tokens, i),
        ParserState::LiteralText => step_literal_text(p, tokens, i),
        ParserState::Literal => step_literal(p, tokens, i),
        ParserState::Command => step_command(p, tokens, i),
        ParserState::NamedString => step_named_string(p, tokens, i),
        ParserState::NamedGroup => step_named_group(p, tokens, i),
    }
}

/// Runs the parser from the token `tokens[i]` to the end. At the end every nested state must have ended.
pub open spec fn parse_run(p: ParseView, tokens: Seq<Token>, i: int) -> RunView
    decreases tokens.len() - i,
{
    if i < 0 || i >= tokens.len() {
        if p.nested.len() == 0 {
            RunView::Done(p)
        } else {
            RunView::Fail(TreeErrorView::EndedAbruptly)
        }
    } else {
        match parse_step(p, tokens, i) {
            StepView::Next(q, j) => if i < j <= tokens.len() {
                parse_run(q, tokens, j)
            } else {
                RunView::Stuck
            },
            StepView::Fail(e) => RunView::Fail(e),
            StepView::Stuck => RunView::Stuck,
        }
    }
}

/// The initial state: a Root node with a String child, which is the current node.
pub open spec fn initial_view() -> ParseView {
    let root = NodeView {
        node_type: NodeType::Root,
        parent: None,
        children: seq![1usize],
        tokens: Seq::empty(),
    };
    let string = NodeView {
        node_type: NodeType::String,
        parent: Some(0usize),
        children: Seq::empty(),
        tokens: Seq::empty(),
    };
    ParseView {
        state: ParserState::String,
        nested: Seq::empty(),
        current: Some(1usize),
        nodes: seq![root, string],
        named: Set::empty(),
        patterns: Set::empty(),
    }
}

/// The outcome of parsing the tokens.
pub open spec fn parse_tokens(tokens: Seq<Token>) -> RunView {
    parse_run(initial_view(), tokens, 0)
}



/// A literal pattern ends at its closing backtick and the `}` after it: from `LiteralText` above `Literal`, a
/// single backtick followed by `}` returns to the state before the pattern, at the node that holds the
/// pattern's text, and neither token is taken as text.
pub proof fn lemma_literal_closes(p: ParseView, tokens: Seq<Token>, i: int)
    requires
        p.state == ParserState::LiteralText,
        p.nested.len() >= 2,
        p.nested.last() == ParserState::Literal,
        p.current is Some,
        0 <= i,
        i + 1 < tokens.len(),
        is_grammar(tokens[i], '`'),
        is_grammar(tokens[i + 1], '}'),
    ensures
        parse_run(p, tokens, i) == parse_run(
            ParseView {
                state: p.nested[p.nested.len() - 2],
                nested: p.nested.drop_last().drop_last(),
                current: p.nodes[p.current.unwrap() as int].parent,
                ..p
            },
            tokens,
            i + 2,
        ),
{
    reveal(parse_step);
    assert(tokens[i + 1].string@[0] == '}');
    assert(!is_text(tokens[i + 1], '`'));
    let q = sp_end_nested(p);
    assert(parse_step(p, tokens, i) == StepView::Next(q, i + 1));
    assert(q.state == ParserState::Literal);
    let r = sp_pop_state(q);
    assert(parse_step(q, tokens, i + 1) == StepView::Next(r, i + 2));
    assert(parse_run(p, tokens, i) == parse_run(q, tokens, i + 1));
    assert(parse_run(q, tokens, i + 1) == parse_run(r, tokens, i + 2));
    assert(r == ParseView {
        state: p.nested[p.nested.len() - 2],
        nested: p.nested.drop_last().drop_last(),
        current: p.nodes[p.current.unwrap() as int].parent,
        ..p
    });
}

/// Every token index held by a node is below `bound`.
pub open spec fn tokens_below(nodes: Seq<NodeView>, bound: int) -> bool {
    forall|j: int, m: int| 0 <= j < nodes.len() && 0 <= m < nodes[j].tokens.len() ==> #[trigger] nodes[j].tokens[m] < bound
}

/// Adding token `j` as text to the current node: the current node becomes a Text node whose last token is `j`,
/// and every other token index held stays as it was.
proof fn lemma_add_text(p: ParseView, token_count: int, bound: int, j: int)
    requires
        view_wf(p, token_count),
        p.current is Some,
        0 <= bound <= j < usize::MAX,
        p.nodes.len() < usize::MAX,
        tokens_below(p.nodes, bound),
    ensures
        ({
            let q = sp_add_token(p, NodeType::Text, j as usize);
            &&& q.current matches Some(c) && 0 <= c < q.nodes.len() && q.nodes[c as int].node_type == NodeType::Text
                && q.nodes[c as int].tokens.len() > 0 && q.nodes[c as int].tokens.last() == j
            &&& forall|a: int, m: int|
                0 <= a < q.nodes.len() && 0 <= m < q.nodes[a].tokens.len() ==> #[trigger] q.nodes[a].tokens[m] < bound
                    || q.nodes[a].tokens[m] == j
        }),
{
    let c = p.current.unwrap();
    let q = sp_add_token(p, NodeType::Text, j as usize);
    if p.nodes[c as int].node_type == NodeType::Text {
        let nc = p.nodes[c as int].tokens.push(j as usize);
        assert(q.nodes[c as int].tokens == nc);
        assert(q.current == Some(c));
        assert forall|a: int, m: int| 0 <= a < q.nodes.len() && 0 <= m < q.nodes[a].tokens.len() implies #[trigger] q.nodes[a].tokens[m]
            < bound || q.nodes[a].tokens[m] == j by {
            if a != c {
                assert(q.nodes[a] == p.nodes[a]);
                assert(p.nodes[a].tokens[m] < bound);
            } else if m < p.nodes[a].tokens.len() {
                assert(q.nodes[a].tokens[m] == p.nodes[a].tokens[m]);
                assert(p.nodes[a].tokens[m] < bound);
            } else {
                assert(q.nodes[a].tokens[m] == j);
            }
        }
    } else {
        let cr = sp_create_node(p, NodeType::Text);
        let r = sp_move_to_container(p);
        let d = r.current.unwrap();
        assert(r.nodes == p.nodes);
        assert(d < p.nodes.len());
        let n = p.nodes.len();
        assert(cr.nodes.len() == n + 1);
        assert(cr.current == Some(n as usize));
        assert(forall|a: int| 0 <= a < n ==> (#[trigger] cr.nodes[a]).tokens == p.nodes[a].tokens);
        assert(cr.nodes[n as int].tokens == Seq::<usize>::empty());
        assert(q == sp_push_token(cr, j as usize));
        assert(q.nodes[n as int].tokens =~= seq![j as usize]);
        assert(q.nodes[n as int].node_type == NodeType::Text);
        assert forall|a: int, m: int| 0 <= a < q.nodes.len() && 0 <= m < q.nodes[a].tokens.len() implies #[trigger] q.nodes[a].tokens[m]
            < bound || q.nodes[a].tokens[m] == j by {
            if a < n {
                assert(q.nodes[a] == cr.nodes[a]);
                assert(cr.nodes[a].tokens == p.nodes[a].tokens);
                assert(p.nodes[a].tokens[m] < bound);
            }
        }
    }
}

/// In the `String` and `SubString` states a backtick escapes the token after it: the parser goes on after both
/// tokens, the escaped token is the last token of the current node, a Text node, and no node holds the
/// backtick itself.
pub proof fn lemma_backtick_escapes(p: ParseView, tokens: Seq<Token>, i: int)
    requires
        view_wf(p, tokens.len() as int),
        p.state == ParserState::String || p.state == ParserState::SubString,
        p.current is Some,
        0 <= i,
        i + 1 < tokens.len(),
        tokens.len() <= usize::MAX,
        p.nodes.len() < usize::MAX,
        is_grammar(tokens[i], '`'),
        tokens_below(p.nodes, i),
    ensures
        parse_step(p, tokens, i) matches StepView::Next(q, next) && next == i + 2 && (q.current matches Some(c) && 0
            <= c < q.nodes.len() && q.nodes[c as int].node_type == NodeType::Text && q.nodes[c as int].tokens.len() > 0
            && q.nodes[c as int].tokens.last() == i + 1),
        parse_step(p, tokens, i) matches StepView::Next(q, _) ==> (forall|j: int, m: int|
            0 <= j < q.nodes.len() && 0 <= m < q.nodes[j].tokens.len() ==> #[trigger] q.nodes[j].tokens[m] != i
                && q.nodes[j].tokens[m] < i + 2),
{
    reveal(parse_step);
    let t = tokens[i];
    assert(t.string@ == seq!['`']);
    assert(!is_text(t, '#')) by {
        assert(t.string@[0] == '`');
    }
    let q = sp_add_token(p, NodeType::Text, (i + 1) as usize);
    assert(parse_step(p, tokens, i) == StepView::Next(q, i + 2));
    lemma_add_text(p, tokens.len() as int, i, i + 1);
    assert forall|j: int, m: int| 0 <= j < q.nodes.len() && 0 <= m < q.nodes[j].tokens.len() implies #[trigger] q.nodes[j].tokens[m]
        != i && q.nodes[j].tokens[m] < i + 2 by {
        assert(q.nodes[j].tokens[m] < i || q.nodes[j].tokens[m] == i + 1);
    }
}

/// In the `String` and `SubString` states a token that is no grammar syntax character is text: the parser goes
/// on after it, and it is the last token of the current node, a Text node.
pub proof fn lemma_text_token(p: ParseView, tokens: Seq<Token>, i: int)
    requires
        view_wf(p, tokens.len() as int),
        p.state == ParserState::String || p.state == ParserState::SubString,
        p.current is Some,
        0 <= i < tokens.len(),
        tokens.len() <= usize::MAX,
        p.nodes.len() < usize::MAX,
        tokens[i].token_type != TokenType::Grammar,
        tokens_below(p.nodes, i),
    ensures
        parse_step(p, tokens, i) matches StepView::Next(q, next) && next == i + 1 && (q.current matches Some(c) && 0
            <= c < q.nodes.len() && q.nodes[c as int].node_type == NodeType::Text && q.nodes[c as int].tokens.len() > 0
            && q.nodes[c as int].tokens.last() == i),
{
    reveal(parse_step);
    let q = sp_add_token(p, NodeType::Text, i as usize);
    assert(parse_step(p, tokens, i) == StepView::Next(q, i + 1));
    lemma_add_text(p, tokens.len() as int, i, i);
}

/// In the `String` state, `{` followed by an identifier that names no pattern yet starts a placeholder pattern:
/// the parser goes on after both tokens in the `Pattern` state, nested in the `String` state, at a new Pattern
/// node whose one child is an Identifier node holding the identifier's token; the identifier now names a
/// pattern.
pub proof fn lemma_pattern_opens(p: ParseView, tokens: Seq<Token>, i: int)
    requires
        view_wf(p, tokens.len() as int),
        p.state == ParserState::String,
        p.current is Some,
        0 <= i,
        i + 1 < tokens.len(),
        tokens.len() <= usize::MAX,
        p.nodes.len() + 2 < usize::MAX,
        is_grammar(tokens[i], '{'),
        tokens[i + 1].token_type == TokenType::Identifier,
        !p.patterns.contains(tokens[i + 1].string@),
    ensures
        parse_step(p, tokens, i) matches StepView::Next(q, next) && next == i + 2 && q.state == ParserState::Pattern
            && q.nested == p.nested.push(ParserState::String) && q.current == Some(p.nodes.len() as usize)
            && q.nodes.len() == p.nodes.len() + 2 && q.nodes[p.nodes.len() as int].node_type == NodeType::Pattern
            && q.nodes[p.nodes.len() as int].children == seq![(p.nodes.len() + 1) as usize] && q.nodes[p.nodes.len()
            + 1int].node_type == NodeType::Identifier && q.nodes[p.nodes.len() + 1int].tokens == seq![(i + 1) as usize]
            && q.patterns == p.patterns.insert(tokens[i + 1].string@),
{
    reveal(parse_step);
    let t = tokens[i];
    assert(t.string@ == seq!['{']);
    assert(!is_text(t, '`')) by {
        assert(t.string@[0] == '{');
    }
    let n = p.nodes.len();
    let q1 = sp_create_node(p, NodeType::Pattern);
    let r = sp_move_to_container(p);
    assert(r.nodes == p.nodes);
    assert(r.current.unwrap() < n);
    assert(q1.current == Some(n as usize));
    assert(q1.nodes.len() == n + 1);
    assert(q1.nodes[n as int].node_type == NodeType::Pattern);
    assert(q1.nodes[n as int].children == Seq::<usize>::empty());
    let q2 = ParseView { patterns: q1.patterns.insert(tokens[i + 1].string@), ..q1 };
    let q3 = sp_create_node_add_token(q2, NodeType::Identifier, (i + 1) as usize);
    assert(NodeType::Pattern.spec_allow_children());
    assert(sp_move_to_container(q2) == q2);
    let q4 = sp_create_node(q2, NodeType::Identifier);
    assert(q4.nodes.len() == n + 2);
    assert(q4.nodes[n as int].children =~= seq![(n + 1) as usize]);
    assert(q4.current == Some((n + 1) as usize));
    assert(q3.nodes[n + 1int].tokens =~= seq![(i + 1) as usize]);
    assert(q3.nodes[n as int] == q4.nodes[n as int]);
    assert(!NodeType::Identifier.spec_allow_children());
    let q5 = sp_move_to_container(q3);
    assert(q3.nodes[n + 1int].parent == Some(n as usize));
    assert(q5.current == Some(n as usize));
}

/// In the `String` state, `#` ends the main string: the parser goes on after it in the `NamedGroup` state, at a
/// new NamedGroup node appended to the children of the Root.
pub proof fn lemma_main_string_ends(p: ParseView, tokens: Seq<Token>, i: int)
    requires
        view_wf(p, tokens.len() as int),
        p.state == ParserState::String,
        0 <= i < tokens.len(),
        p.nodes.len() < usize::MAX,
        is_grammar(tokens[i], '#'),
    ensures
        parse_step(p, tokens, i) matches StepView::Next(q, next) && next == i + 1 && q.state
            == ParserState::NamedGroup && q.current == Some(p.nodes.len() as usize) && q.nodes.len() == p.nodes.len() + 1
            && q.nodes[p.nodes.len() as int].node_type == NodeType::NamedGroup && q.nodes[p.nodes.len() as int].parent
            == Some(0usize) && q.nodes[0].children == p.nodes[0].children.push(p.nodes.len() as usize),
{
    reveal(parse_step);
    let t = tokens[i];
    assert(t.string@ == seq!['#']);
    assert(!is_text(t, '`') && !is_text(t, '{')) by {
        assert(t.string@[0] == '#');
    }
    let base = ParseView { current: Some(0), ..p };
    assert(NodeType::Root.spec_allow_children());
    assert(sp_move_to_container(base) == base);
}

/// Tokens that are not grammar syntax characters parse as text: from the `String` state with no nested state,
/// the parser takes each of them into the current node's text and ends.
pub proof fn lemma_parse_plain(p: ParseView, tokens: Seq<Token>, i: int)
    requires
        p.state == ParserState::String,
        p.nested.len() == 0,
        p.current is Some,
        0 <= i,
        forall|j: int| i <= j < tokens.len() ==> (#[trigger] tokens[j]).token_type != TokenType::Grammar,
    ensures
        parse_run(p, tokens, i) is Done,
    decreases tokens.len() - i,
{
    if i < tokens.len() {
        reveal(parse_step);
        let q = sp_add_token(p, NodeType::Text, i as usize);
        assert(tokens[i].token_type != TokenType::Grammar);
        assert(parse_step(p, tokens, i) == StepView::Next(q, i + 1));
        lemma_parse_plain(q, tokens, i + 1);
    }
}

/// Inserting a child under a container keeps the nodes a tree.
proof fn lemma_insert_wf(nodes: Seq<NodeView>, c: usize, node_type: NodeType, n: int)
    requires
        nodes_wf(nodes, n),
        c < nodes.len(),
        nodes[c as int].node_type.spec_allow_children(),
    ensures
        nodes_wf(sp_insert(nodes, c, node_type), n),
{
    let v = sp_insert(nodes, c, node_type);
    assert forall|j: int| 0 <= j < nodes.len() && j != c implies v[j] == nodes[j] by {}
    assert(v[c as int].children == nodes[c as int].children.push(nodes.len() as usize));
    assert(v[c as int].node_type == nodes[c as int].node_type);
    assert(v[c as int].parent == nodes[c as int].parent);
    assert(v[c as int].tokens == nodes[c as int].tokens);
    assert(parents_ok(v)) by {
        assert forall|j: int| 1 <= j < v.len() implies (#[trigger] v[j].parent is Some && v[j].parent.unwrap()
            < j && v[v[j].parent.unwrap() as int].node_type.spec_allow_children()) by {
            if j < nodes.len() {
                assert(nodes[j].parent is Some);
            }
        }
    }
    assert(children_in_range(v)) by {
        assert forall|j: int, k: int| 0 <= j < v.len() && 0 <= k < v[j].children.len() implies #[trigger] v[j].children[k]
            < v.len() by {
            if j < nodes.len() && (j != c || k < nodes[j].children.len()) {
                assert(v[j].children[k] == nodes[j].children[k]);
            }
        }
    }
    assert(tokens_in_range(v, n)) by {
        assert forall|j: int, k: int| 0 <= j < v.len() && 0 <= k < v[j].tokens.len() implies #[trigger] v[j].tokens[k]
            < n by {
            if j < nodes.len() {
                assert(v[j].tokens[k] == nodes[j].tokens[k]);
            }
        }
    }
    assert(leaves_childless(v)) by {
        assert forall|j: int| 0 <= j < v.len() implies (!(#[trigger] v[j]).node_type.spec_allow_children()
            ==> v[j].children.len() == 0) by {
            if j < nodes.len() && j != c {
                assert(v[j] == nodes[j]);
            }
        }
    }
}

/// Adding a token to the current node keeps the nodes a tree.
proof fn lemma_push_token_wf(p: ParseView, token: usize, n: int)
    requires
        view_wf(p, n),
        p.current is Some,
        token < n,
    ensures
        view_wf(sp_push_token(p, token), n),
{
    let c = p.current.unwrap() as int;
    let nodes = p.nodes;
    let v = sp_push_token(p, token).nodes;
    assert forall|j: int| 0 <= j < nodes.len() && j != c implies v[j] == nodes[j] by {}
    assert(v[c].tokens == nodes[c].tokens.push(token));
    assert(v[c].node_type == nodes[c].node_type);
    assert(v[c].parent == nodes[c].parent);
    assert(v[c].children == nodes[c].children);
    assert(parents_ok(v)) by {
        assert forall|j: int| 1 <= j < v.len() implies (#[trigger] v[j].parent is Some && v[j].parent.unwrap()
            < j && v[v[j].parent.unwrap() as int].node_type.spec_allow_children()) by {
            assert(nodes[j].parent is Some);
        }
    }
    assert(children_in_range(v)) by {
        assert forall|j: int, k: int| 0 <= j < v.len() && 0 <= k < v[j].children.len() implies #[trigger] v[j].children[k]
            < v.len() by {
            assert(v[j].children[k] == nodes[j].children[k]);
        }
    }
    assert(tokens_in_range(v, n)) by {
        assert forall|j: int, k: int| 0 <= j < v.len() && 0 <= k < v[j].tokens.len() implies #[trigger] v[j].tokens[k]
            < n by {
            if j != c || k < nodes[j].tokens.len() {
                assert(v[j].tokens[k] == nodes[j].tokens[k]);
            }
        }
    }
    assert(leaves_childless(v)) by {
        assert forall|j: int| 0 <= j < v.len() implies (!(#[trigger] v[j]).node_type.spec_allow_children()
            ==> v[j].children.len() == 0) by {
            assert(v[j].children == nodes[j].children);
        }
    }
}

/// A transition that reads on moves forward by one to three tokens, and stays within the tokens.
proof fn lemma_step_advances(p: ParseView, tokens: Seq<Token>, i: int)
    requires
        0 <= i < tokens.len(),
    ensures
        parse_step(p, tokens, i) matches StepView::Next(_, j) ==> i < j <= tokens.len(),
{
    reveal(parse_step);
}

/// Running the parser from token `i` is the transition for token `i` followed by the run from where it leads.
proof fn lemma_run_step(p: ParseView, tokens: Seq<Token>, i: int)
    requires
        0 <= i < tokens.len(),
    ensures
        parse_step(p, tokens, i) matches StepView::Next(q, j) ==> i < j <= tokens.len() && parse_run(p, tokens, i)
            == parse_run(q, tokens, j),
        parse_step(p, tokens, i) matches StepView::Fail(e) ==> parse_run(p, tokens, i) == RunView::Fail(e),
        parse_step(p, tokens, i) is Stuck ==> parse_run(p, tokens, i) is Stuck,
{
    lemma_step_advances(p, tokens, i);
}

/// A node of the tree. Leaves keep an empty list of children, containers an empty list of tokens.
#[derive(Debug)]
struct Node {
    node_type: NodeType,
    parent: Option<usize>,
    children: Vec<usize>,
    tokens: Vec<usize>,
}

impl View for Node {
    type V = NodeView;

    closed spec fn view(&self) -> NodeView {
        NodeView {
            node_type: self.node_type,
            parent: self.parent,
            children: self.children@,
            tokens: self.tokens@,
        }
    }
}

/// The views of the nodes.
spec fn nodes_view(nodes: Seq<Node>) -> Seq<NodeView> {
    nodes.map_values(|n: Node| n@)
}

/// The set of the texts of the strings.
spec fn string_set(strings: Seq<String>) -> Set<Seq<char>> {
    strings.map_values(|s: String| s@).to_set()
}

/// The outcome of one transition of the parser.
enum ExecStep {
    Next(usize),
    Fail(TreeError),
    Stuck,
}

/// The executed transition `r`, leaving the parser in state `q`, agrees with the transition `s`.
spec fn step_agrees(r: ExecStep, q: ParseView, s: StepView) -> bool {
    match s {
        StepView::Next(v, j) => r matches ExecStep::Next(k) && k == j && q == v,
        StepView::Fail(e) => r matches ExecStep::Fail(err) && err@ == e,
        StepView::Stuck => r is Stuck,
    }
}

/// The state of the parser.
struct Parser {
    state: ParserState,
    nested: Vec<ParserState>,
    current: Option<usize>,
    nodes: Vec<Node>,
    named: Vec<String>,
    patterns: Vec<String>,
}

/// Whether the text occurs among the strings.
fn contains_string(strings: &Vec<String>, text: &String) -> (result: bool)
    ensures
        result == string_set(strings@).contains(text@),
{
    let mut k: usize = 0;
    while k < strings.len()
        invariant
            0 <= k <= strings.len(),
            forall|m: int| 0 <= m < k ==> strings@[m]@ != text@,
        decreases strings.len() - k,
    {
        if strings[k] == *text {
            proof {
                assert(strings@.map_values(|s: String| s@)[k as int] == text@);
            }
            return true;
        }
        k = k + 1;
    }
    proof {
        let views = strings@.map_values(|s: String| s@);
        if views.to_set().contains(text@) {
            let m = choose|m: int| 0 <= m < views.len() && #[trigger] views[m] == text@;
            assert(strings@[m]@ == text@);
        }
    }
    false
}

/// Appends a string to the strings.
proof fn lemma_string_set_push(strings: Seq<String>, s: String)
    ensures
        string_set(strings.push(s)) == string_set(strings).insert(s@),
{
    let a = strings.push(s).map_values(|x: String| x@);
    let b = strings.map_values(|x: String| x@);
    assert(a == b.push(s@));
    assert forall|v: Seq<char>| a.to_set().contains(v) <==> b.to_set().insert(s@).contains(v) by {
        if a.to_set().contains(v) {
            let m = choose|m: int| 0 <= m < a.len() && #[trigger] a[m] == v;
            if m < b.len() {
                assert(b[m] == v);
            }
        }
        if b.to_set().contains(v) && v != s@ {
            let m = choose|m: int| 0 <= m < b.len() && #[trigger] b[m] == v;
            assert(a[m] == v);
        }
        if v == s@ {
            assert(a[b.len() as int] == v);
        }
    }
    assert(a.to_set() =~= b.to_set().insert(s@));
}

/// Whether the token is the one-character string `c`.
fn token_is(t: &Token, c: char) -> (result: bool)
    ensures
        result == is_text(*t, c),
{
    let s = t.string.as_str();
    if s.unicode_len() != 1 {
        proof {
            assert(t.string@.len() != seq![c].len());
        }
        return false;
    }
    let first = s.get_char(0);
    proof {
        if first == c {
            assert(t.string@ =~= seq![c]);
        } else {
            assert(t.string@[0] != seq![c][0]);
        }
    }
    first == c
}

impl Parser {
    spec fn view(&self) -> ParseView {
        ParseView {
            state: self.state,
            nested: self.nested@,
            current: self.current,
            nodes: nodes_view(self.nodes@),
            named: string_set(self.named@),
            patterns: string_set(self.patterns@),
        }
    }

    fn new() -> (result: Parser)
        ensures
            result.view() == initial_view(),
            view_wf(result.view(), 0),
    {
        let mut root_children: Vec<usize> = Vec::new();
        root_children.push(1);
        let root = Node { node_type: NodeType::Root, parent: None, children: root_children, tokens: Vec::new() };
        let string = Node {
            node_type: NodeType::String,
            parent: Some(0),
            children: Vec::new(),
            tokens: Vec::new(),
        };
        let mut nodes: Vec<Node> = Vec::new();
        nodes.push(root);
        nodes.push(string);
        let result = Parser {
            state: ParserState::String,
            nested: Vec::new(),
            current: Some(1),
            nodes,
            named: Vec::new(),
            patterns: Vec::new(),
        };
        proof {
            assert(nodes_view(result.nodes@) =~= initial_view().nodes);
            assert(string_set(result.named@) =~= Set::<Seq<char>>::empty());
            assert(string_set(result.patterns@) =~= Set::<Seq<char>>::empty());
        }
        result
    }

    fn move_to_container(&mut self, Ghost(n): Ghost<int>)
        requires
            view_wf(old(self).view(), n),
            old(self).current is Some,
        ensures
            final(self).view() == sp_move_to_container(old(self).view()),
            view_wf(final(self).view(), n),
            final(self).current is Some,
            final(self).nodes@.len() == old(self).nodes@.len(),
    {
        let c = self.current.unwrap();
        if !self.nodes[c].node_type.allow_children() {
            proof {
                assert(nodes_view(self.nodes@)[c as int] == self.nodes@[c as int]@);
            }
            self.current = self.nodes[c].parent;
        }
    }

    fn create_node(&mut self, node_type: NodeType, Ghost(n): Ghost<int>)
        requires
            view_wf(old(self).view(), n),
            old(self).current is Some,
        ensures
            final(self).view() == sp_create_node(old(self).view(), node_type),
            view_wf(final(self).view(), n),
            final(self).current == Some(old(self).nodes@.len() as usize),
            final(self).nodes@.len() == old(self).nodes@.len() + 1,
    {
        self.move_to_container(Ghost(n));
        let ghost before = self.view();
        let ghost old_nodes = self.nodes@;
        let c = self.current.unwrap();
        let k = self.nodes.len();
        self.nodes[c].children.push(k);
        let node = Node { node_type, parent: Some(c), children: Vec::new(), tokens: Vec::new() };
        self.nodes.push(node);
        self.current = Some(k);
        proof {
            let v = nodes_view(self.nodes@);
            let w = sp_insert(before.nodes, c, node_type);
            assert forall|j: int| 0 <= j < v.len() implies v[j] == w[j] by {
                if j < old_nodes.len() && j != c {
                    assert(self.nodes@[j] == old_nodes[j]);
                }
            }
            assert(v =~= w);
            lemma_insert_wf(before.nodes, c, node_type, n);
        }
    }

    fn push_token(&mut self, token: usize, Ghost(n): Ghost<int>)
        requires
            view_wf(old(self).view(), n),
            old(self).current is Some,
            token < n,
        ensures
            final(self).view() == sp_push_token(old(self).view(), token),
            view_wf(final(self).view(), n),
            final(self).current == old(self).current,
            final(self).nodes@.len() == old(self).nodes@.len(),
    {
        let ghost before = self.view();
        let ghost old_nodes = self.nodes@;
        let c = self.current.unwrap();
        self.nodes[c].tokens.push(token);
        proof {
            let v = nodes_view(self.nodes@);
            let w = sp_push_token(before, token).nodes;
            assert forall|j: int| 0 <= j < v.len() implies v[j] == w[j] by {
                if j != c {
                    assert(self.nodes@[j] == old_nodes[j]);
                }
            }
            assert(v =~= w);
            lemma_push_token_wf(before, token, n);
        }
    }

    fn create_node_add_token(&mut self, node_type: NodeType, token: usize, Ghost(n): Ghost<int>)
        requires
            view_wf(old(self).view(), n),
            old(self).current is Some,
            token < n,
        ensures
            final(self).view() == sp_create_node_add_token(old(self).view(), node_type, token),
            view_wf(final(self).view(), n),
            final(self).current is Some,
    {
        self.create_node(node_type, Ghost(n));
        self.push_token(token, Ghost(n));
    }

    fn add_token(&mut self, node_type: NodeType, token: usize, Ghost(n): Ghost<int>)
        requires
            view_wf(old(self).view(), n),
            old(self).current is Some,
            token < n,
        ensures
            final(self).view() == sp_add_token(old(self).view(), node_type, token),
            view_wf(final(self).view(), n),
            final(self).current is Some,
    {
        let c = self.current.unwrap();
        proof {
            assert(nodes_view(self.nodes@)[c as int] == self.nodes@[c as int]@);
        }
        if self.nodes[c].node_type == node_type {
            self.push_token(token, Ghost(n));
        } else {
            self.create_node_add_token(node_type, token, Ghost(n));
        }
    }

    fn end_nested(&mut self, Ghost(n): Ghost<int>)
        requires
            view_wf(old(self).view(), n),
            old(self).current is Some,
        ensures
            final(self).view() == sp_end_nested(old(self).view()),
            view_wf(final(self).view(), n),
    {
        let c = self.current.unwrap();
        proof {
            assert(nodes_view(self.nodes@)[c as int] == self.nodes@[c as int]@);
        }
        self.state = match self.nested.pop() {
            Some(s) => s,
            None => ParserState::String,
        };
        self.current = self.nodes[c].parent;
    }

    fn push_nested(&mut self, s: ParserState)
        ensures
            final(self).view() == sp_push_nested(old(self).view(), s),
            final(self).current == old(self).current,
            final(self).nodes@ == old(self).nodes@,
    {
        self.nested.push(s);
    }

    /// The children of the current node, as [`current_children`].
    fn current_children_len(&self, Ghost(n): Ghost<int>) -> (result: Option<(usize, Option<usize>)>)
        requires
            view_wf(self.view(), n),
        ensures
            current_children(self.view()) matches Some(ch) ==> result matches Some(r) && r.0 == ch.len()
                && (ch.len() > 0 ==> r.1 == Some(ch.last())),
            current_children(self.view()) is None ==> result is None,
    {
        match self.current {
            None => None,
            Some(c) => {
                proof {
                    assert(nodes_view(self.nodes@)[c as int] == self.nodes@[c as int]@);
                }
                if self.nodes[c].node_type.allow_children() {
                    let len = self.nodes[c].children.len();
                    if len > 0 {
                        Some((len, Some(self.nodes[c].children[len - 1])))
                    } else {
                        Some((0, None))
                    }
                } else {
                    None
                }
            },
        }
    }
}

impl Parser {
    /// The error for an unexpected token.
    fn invalid(&self, t: &Token) -> (result: ExecStep)
        ensures
            result matches ExecStep::Fail(e) && e@ == invalid(self.state, *t),
    {
        ExecStep::Fail(TreeError::InvalidToken(self.state, t.start_grapheme, t.string.clone()))
    }

    /// Starts a pattern at token `k`, as [`sp_pattern_start`].
    fn pattern_start(&mut self, tokens: &Vec<Token>, k: usize, next: usize) -> (result: ExecStep)
        requires
            view_wf(old(self).view(), tokens@.len() as int),
            k < tokens.len(),
        ensures
            step_agrees(result, final(self).view(), sp_pattern_start(old(self).view(), tokens@, k as int, next as int)),
            result is Next ==> view_wf(final(self).view(), tokens@.len() as int),
    {
        let ghost n = tokens@.len() as int;
        let t = &tokens[k];
        if t.token_type == TokenType::Identifier {
            if self.current.is_none() {
                return ExecStep::Stuck;
            }
            if contains_string(&self.patterns, &t.string) {
                return ExecStep::Fail(TreeError::UniquePattern(t.string.clone()));
            }
            self.create_node(NodeType::Pattern, Ghost(n));
            let ghost before = self.patterns@;
            self.patterns.push(t.string.clone());
            proof {
                lemma_string_set_push(before, t.string);
            }
            self.create_node_add_token(NodeType::Identifier, k, Ghost(n));
            self.move_to_container(Ghost(n));
            let s = self.state;
            self.push_nested(s);
            self.state = ParserState::Pattern;
            ExecStep::Next(next)
        } else if t.token_type == TokenType::Grammar && token_is(t, '`') {
            if self.current.is_none() {
                return ExecStep::Stuck;
            }
            self.create_node(NodeType::Text, Ghost(n));
            let s = self.state;
            self.push_nested(s);
            self.push_nested(ParserState::Literal);
            self.state = ParserState::LiteralText;
            ExecStep::Next(next)
        } else if t.token_type == TokenType::Grammar && token_is(t, '#') {
            if self.current.is_none() {
                return ExecStep::Stuck;
            }
            self.create_node(NodeType::Command, Ghost(n));
            let s = self.state;
            self.push_nested(s);
            self.state = ParserState::Command;
            ExecStep::Next(next)
        } else {
            self.invalid(t)
        }
    }

    fn step_string(&mut self, tokens: &Vec<Token>, i: usize) -> (result: ExecStep)
        requires
            view_wf(old(self).view(), tokens@.len() as int),
            i < tokens.len(),
        ensures
            step_agrees(result, final(self).view(), step_string(old(self).view(), tokens@, i as int)),
            result is Next ==> view_wf(final(self).view(), tokens@.len() as int),
    {
        let ghost n = tokens@.len() as int;
        let t = &tokens[i];
        if t.token_type == TokenType::Grammar {
            if token_is(t, '`') {
                if i + 1 >= tokens.len() {
                    return ExecStep::Fail(TreeError::EndedAbruptly);
                }
                if self.current.is_none() {
                    return ExecStep::Stuck;
                }
                self.add_token(NodeType::Text, i + 1, Ghost(n));
                ExecStep::Next(i + 2)
            } else if token_is(t, '{') {
                if i + 1 >= tokens.len() {
                    return ExecStep::Fail(TreeError::EndedAbruptly);
                }
                self.pattern_start(tokens, i + 1, i + 2)
            } else if token_is(t, '#') {
                self.current = Some(0);
                self.create_node(NodeType::NamedGroup, Ghost(n));
                self.state = ParserState::NamedGroup;
                ExecStep::Next(i + 1)
            } else {
                self.invalid(t)
            }
        } else {
            if self.current.is_none() {
                return ExecStep::Stuck;
            }
            self.add_token(NodeType::Text, i, Ghost(n));
            ExecStep::Next(i + 1)
        }
    }

    fn step_substring(&mut self, tokens: &Vec<Token>, i: usize) -> (result: ExecStep)
        requires
            view_wf(old(self).view(), tokens@.len() as int),
            i < tokens.len(),
        ensures
            step_agrees(result, final(self).view(), step_substring(old(self).view(), tokens@, i as int)),
            result is Next ==> view_wf(final(self).view(), tokens@.len() as int),
    {
        let ghost n = tokens@.len() as int;
        let t = &tokens[i];
        if t.token_type == TokenType::Grammar {
            if token_is(t, '#') {
                let c = match self.current {
                    None => return ExecStep::Stuck,
                    Some(c) => c,
                };
                proof {
                    assert(nodes_view(self.nodes@)[c as int] == self.nodes@[c as int]@);
                }
                let parent = match self.nodes[c].parent {
                    None => return ExecStep::Stuck,
                    Some(parent) => parent,
                };
                proof {
                    assert(nodes_view(self.nodes@)[parent as int] == self.nodes@[parent as int]@);
                }
                if !self.nodes[parent].node_type.allow_children() {
                    return ExecStep::Stuck;
                }
                let len = self.nodes[parent].children.len();
                if len > 0 {
                    let last = self.nodes[parent].children[len - 1];
                    proof {
                        assert(self.view().nodes[parent as int].children[len - 1] == last);
                        assert(nodes_view(self.nodes@)[last as int] == self.nodes@[last as int]@);
                    }
                    if self.nodes[last].node_type == NodeType::NumberSign {
                        return ExecStep::Fail(TreeError::MultiNumberSign(t.start_grapheme));
                    }
                }
                self.create_node_add_token(NodeType::NumberSign, i, Ghost(n));
                ExecStep::Next(i + 1)
            } else if token_is(t, '`') {
                if i + 1 >= tokens.len() {
                    return ExecStep::Fail(TreeError::EndedAbruptly);
                }
                if self.current.is_none() {
                    return ExecStep::Stuck;
                }
                self.add_token(NodeType::Text, i + 1, Ghost(n));
                ExecStep::Next(i + 2)
            } else if token_is(t, '{') {
                if i + 1 >= tokens.len() {
                    return ExecStep::Fail(TreeError::EndedAbruptly);
                }
                self.pattern_start(tokens, i + 1, i + 2)
            } else if token_is(t, '}') {
                if self.current.is_none() {
                    return ExecStep::Stuck;
                }
                self.move_to_container(Ghost(n));
                self.end_nested(Ghost(n));
                match self.current_children_len(Ghost(n)) {
                    None => ExecStep::Stuck,
                    Some((len, _)) => {
                        if len != 2 {
                            self.invalid(t)
                        } else {
                            self.end_nested(Ghost(n));
                            ExecStep::Next(i + 1)
                        }
                    },
                }
            } else {
                self.invalid(t)
            }
        } else {
            if self.current.is_none() {
                return ExecStep::Stuck;
            }
            self.add_token(NodeType::Text, i, Ghost(n));
            ExecStep::Next(i + 1)
        }
    }

    fn step_pattern(&mut self, tokens: &Vec<Token>, i: usize) -> (result: ExecStep)
        requires
            view_wf(old(self).view(), tokens@.len() as int),
            i < tokens.len(),
        ensures
            step_agrees(result, final(self).view(), step_pattern(old(self).view(), tokens@, i as int)),
            result is Next ==> view_wf(final(self).view(), tokens@.len() as int),
    {
        let ghost n = tokens@.len() as int;
        let t = &tokens[i];
        if t.token_type == TokenType::Identifier {
            if self.current.is_none() {
                return ExecStep::Stuck;
            }
            self.create_node_add_token(NodeType::Identifier, i, Ghost(n));
            self.move_to_container(Ghost(n));
            self.state = ParserState::Keyword;
            ExecStep::Next(i + 1)
        } else if t.token_type == TokenType::WhiteSpace {
            ExecStep::Next(i + 1)
        } else if t.token_type == TokenType::Grammar {
            if !token_is(t, '}') {
                self.invalid(t)
            } else {
                if self.current.is_none() {
                    return ExecStep::Stuck;
                }
                self.end_nested(Ghost(n));
                ExecStep::Next(i + 1)
            }
        } else {
            self.invalid(t)
        }
    }

    #[verifier::rlimit(40)]
    fn step_keyword(&mut self, tokens: &Vec<Token>, i: usize) -> (result: ExecStep)
        requires
            view_wf(old(self).view(), tokens@.len() as int),
            i < tokens.len(),
        ensures
            step_agrees(result, final(self).view(), step_keyword(old(self).view(), tokens@, i as int)),
            result is Next ==> view_wf(final(self).view(), tokens@.len() as int),
    {
        let ghost n = tokens@.len() as int;
        let t = &tokens[i];
        if t.token_type == TokenType::Identifier {
            if self.current.is_none() {
                return ExecStep::Stuck;
            }
            self.create_node(NodeType::Selector, Ghost(n));
            self.add_token(NodeType::Identifier, i, Ghost(n));
            self.move_to_container(Ghost(n));
            if i + 1 >= tokens.len() {
                return ExecStep::Fail(TreeError::EndedAbruptly);
            }
            if !token_is(&tokens[i + 1], '#') {
                return self.invalid(&tokens[i + 1]);
            }
            if i + 2 >= tokens.len() {
                return ExecStep::Fail(TreeError::EndedAbruptly);
            }
            if tokens[i + 2].token_type != TokenType::Identifier {
                return self.invalid(&tokens[i + 2]);
            }
            self.add_token(NodeType::Identifier, i + 2, Ghost(n));
            self.move_to_container(Ghost(n));
            let c = self.current.unwrap();
            proof {
                assert(nodes_view(self.nodes@)[c as int] == self.nodes@[c as int]@);
            }
            self.current = self.nodes[c].parent;
            ExecStep::Next(i + 3)
        } else if t.token_type == TokenType::WhiteSpace {
            ExecStep::Next(i + 1)
        } else if t.token_type == TokenType::Grammar {
            if token_is(t, '}') {
                if self.current.is_none() {
                    return ExecStep::Stuck;
                }
                self.end_nested(Ghost(n));
            }
            ExecStep::Next(i + 1)
        } else {
            self.invalid(t)
        }
    }

    fn step_literal_text(&mut self, tokens: &Vec<Token>, i: usize) -> (result: ExecStep)
        requires
            view_wf(old(self).view(), tokens@.len() as int),
            i < tokens.len(),
        ensures
            step_agrees(result, final(self).view(), step_literal_text(old(self).view(), tokens@, i as int)),
            result is Next ==> view_wf(final(self).view(), tokens@.len() as int),
    {
        let ghost n = tokens@.len() as int;
        let t = &tokens[i];
        if t.token_type == TokenType::Grammar && token_is(t, '`') {
            if i + 1 >= tokens.len() {
                return ExecStep::Fail(TreeError::EndedAbruptly);
            }
            if self.current.is_none() {
                return ExecStep::Stuck;
            }
            if token_is(&tokens[i + 1], '`') {
                self.add_token(NodeType::Text, i + 1, Ghost(n));
                ExecStep::Next(i + 2)
            } else {
                self.end_nested(Ghost(n));
                ExecStep::Next(i + 1)
            }
        } else {
            if self.current.is_none() {
                return ExecStep::Stuck;
            }
            self.add_token(NodeType::Text, i, Ghost(n));
            ExecStep::Next(i + 1)
        }
    }

    fn step_literal(&mut self, tokens: &Vec<Token>, i: usize) -> (result: ExecStep)
        requires
            view_wf(old(self).view(), tokens@.len() as int),
            i < tokens.len(),
        ensures
            step_agrees(result, final(self).view(), step_literal(old(self).view(), tokens@, i as int)),
            result is Next ==> view_wf(final(self).view(), tokens@.len() as int),
    {
        let ghost n = tokens@.len() as int;
        let t = &tokens[i];
        if t.token_type == TokenType::Grammar && token_is(t, '}') {
            self.state = match self.nested.pop() {
                Some(s) => s,
                None => ParserState::String,
            };
            ExecStep::Next(i + 1)
        } else {
            self.invalid(t)
        }
    }

    fn step_command(&mut self, tokens: &Vec<Token>, i: usize) -> (result: ExecStep)
        requires
            view_wf(old(self).view(), tokens@.len() as int),
            i < tokens.len(),
        ensures
            step_agrees(result, final(self).view(), step_command(old(self).view(), tokens@, i as int)),
            result is Next ==> view_wf(final(self).view(), tokens@.len() as int),
    {
        let ghost n = tokens@.len() as int;
        let t = &tokens[i];
        if t.token_type == TokenType::Identifier {
            if self.current.is_none() {
                return ExecStep::Stuck;
            }
            self.create_node_add_token(NodeType::Identifier, i, Ghost(n));
            self.move_to_container(Ghost(n));
            ExecStep::Next(i + 1)
        } else if t.token_type == TokenType::Grammar {
            if token_is(t, '}') {
                match self.current_children_len(Ghost(n)) {
                    None => ExecStep::Stuck,
                    Some((len, _)) => {
                        if len == 0 {
                            self.invalid(t)
                        } else {
                            self.end_nested(Ghost(n));
                            ExecStep::Next(i + 1)
                        }
                    },
                }
            } else if token_is(t, '`') {
                if i + 1 >= tokens.len() {
                    return ExecStep::Fail(TreeError::EndedAbruptly);
                }
                if self.current.is_none() {
                    return ExecStep::Stuck;
                }
                self.create_node_add_token(NodeType::Text, i + 1, Ghost(n));
                self.push_nested(ParserState::Command);
                self.state = ParserState::LiteralText;
                ExecStep::Next(i + 2)
            } else if token_is(t, '#') {
                match self.current_children_len(Ghost(n)) {
                    None => ExecStep::Stuck,
                    Some((len, _)) => {
                        if len != 1 {
                            self.invalid(t)
                        } else {
                            self.create_node_add_token(NodeType::NumberSign, i, Ghost(n));
                            ExecStep::Next(i + 1)
                        }
                    },
                }
            } else {
                self.invalid(t)
            }
        } else if t.token_type == TokenType::WhiteSpace {
            ExecStep::Next(i + 1)
        } else {
            self.invalid(t)
        }
    }

    /// Starts the substring of a named string, as [`sp_start_substring`].
    fn start_substring(&mut self, Ghost(n): Ghost<int>)
        requires
            view_wf(old(self).view(), n),
            old(self).current is Some,
        ensures
            final(self).view() == sp_start_substring(old(self).view()),
            view_wf(final(self).view(), n),
            final(self).current is Some,
    {
        self.create_node(NodeType::String, Ghost(n));
        self.push_nested(ParserState::NamedString);
    }

    fn step_named_string(&mut self, tokens: &Vec<Token>, i: usize) -> (result: ExecStep)
        requires
            view_wf(old(self).view(), tokens@.len() as int),
            i < tokens.len(),
        ensures
            step_agrees(result, final(self).view(), step_named_string(old(self).view(), tokens@, i as int)),
            result is Next ==> view_wf(final(self).view(), tokens@.len() as int),
    {
        let ghost n = tokens@.len() as int;
        let t = &tokens[i];
        let len = match self.current_children_len(Ghost(n)) {
            None => {
                if t.token_type == TokenType::Grammar && !token_is(t, '#') && !token_is(t, '{') && !token_is(
                    t,
                    '`',
                ) {
                    return self.invalid(t);
                }
                return ExecStep::Stuck;
            },
            Some((len, _)) => len,
        };
        if t.token_type == TokenType::Identifier {
            if len == 0 {
                if contains_string(&self.named, &t.string) {
                    return ExecStep::Fail(TreeError::UniqueNamed(t.string.clone()));
                }
                let ghost before = self.named@;
                self.named.push(t.string.clone());
                proof {
                    lemma_string_set_push(before, t.string);
                }
                self.create_node_add_token(NodeType::Identifier, i, Ghost(n));
                self.move_to_container(Ghost(n));
                if i + 1 >= tokens.len() {
                    return ExecStep::Fail(TreeError::EndedAbruptly);
                }
                if tokens[i + 1].token_type == TokenType::WhiteSpace {
                    ExecStep::Next(i + 2)
                } else {
                    self.invalid(&tokens[i + 1])
                }
            } else if len == 1 {
                self.start_substring(Ghost(n));
                self.create_node_add_token(NodeType::Text, i, Ghost(n));
                self.state = ParserState::SubString;
                ExecStep::Next(i + 1)
            } else {
                self.invalid(t)
            }
        } else if t.token_type == TokenType::Grammar {
            if token_is(t, '#') {
                if len != 1 {
                    return self.invalid(t);
                }
                self.start_substring(Ghost(n));
                self.create_node_add_token(NodeType::NumberSign, i, Ghost(n));
                self.state = ParserState::SubString;
                ExecStep::Next(i + 1)
            } else if token_is(t, '{') {
                if len != 1 {
                    return self.invalid(t);
                }
                if i + 1 >= tokens.len() {
                    return ExecStep::Fail(TreeError::EndedAbruptly);
                }
                self.pattern_start(tokens, i, i + 2)
            } else if token_is(t, '`') {
                if len != 1 {
                    return self.invalid(t);
                }
                if i + 1 >= tokens.len() {
                    return ExecStep::Fail(TreeError::EndedAbruptly);
                }
                self.start_substring(Ghost(n));
                self.create_node_add_token(NodeType::Text, i + 1, Ghost(n));
                ExecStep::Next(i + 2)
            } else {
                self.invalid(t)
            }
        } else if t.token_type == TokenType::Syntax {
            if len != 1 {
                return self.invalid(t);
            }
            self.start_substring(Ghost(n));
            self.create_node_add_token(NodeType::Text, i, Ghost(n));
            ExecStep::Next(i + 1)
        } else {
            if len != 1 {
                return self.invalid(t);
            }
            ExecStep::Next(i + 1)
        }
    }

    fn step_named_group(&mut self, tokens: &Vec<Token>, i: usize) -> (result: ExecStep)
        requires
            view_wf(old(self).view(), tokens@.len() as int),
            i < tokens.len(),
        ensures
            step_agrees(result, final(self).view(), step_named_group(old(self).view(), tokens@, i as int)),
            result is Next ==> view_wf(final(self).view(), tokens@.len() as int),
    {
        let ghost n = tokens@.len() as int;
        let t = &tokens[i];
        if t.token_type == TokenType::Grammar {
            if !token_is(t, '{') {
                self.invalid(t)
            } else {
                if self.current.is_none() {
                    return ExecStep::Stuck;
                }
                self.create_node(NodeType::NamedString, Ghost(n));
                self.push_nested(ParserState::NamedGroup);
                self.state = ParserState::NamedString;
                ExecStep::Next(i + 1)
            }
        } else if t.token_type == TokenType::WhiteSpace {
            ExecStep::Next(i + 1)
        } else {
            self.invalid(t)
        }
    }

    /// One transition of the parser, as [`parse_step`].
    fn step(&mut self, tokens: &Vec<Token>, i: usize) -> (result: ExecStep)
        requires
            view_wf(old(self).view(), tokens@.len() as int),
            i < tokens.len(),
        ensures
            step_agrees(result, final(self).view(), parse_step(old(self).view(), tokens@, i as int)),
            result is Next ==> view_wf(final(self).view(), tokens@.len() as int),
    {
        reveal(parse_step);
        match self.state {
            ParserState::String => self.step_string(tokens, i),
            ParserState::SubString => self.step_substring(tokens, i),
            ParserState::Pattern => self.step_pattern(tokens, i),
            ParserState::Keyword => self.step_keyword(tokens, i),
            ParserState::LiteralText => self.step_literal_text(tokens, i),
            ParserState::Literal => self.step_literal(tokens, i),
            ParserState::Command => self.step_command(tokens, i),
            ParserState::NamedString => self.step_named_string(tokens, i),
            ParserState::NamedGroup => self.step_named_group(tokens, i),
        }
    }
}

/// Runs the parser over all the tokens, as [`parse_tokens`]: the final parser, or the error (`None` where the
/// parser is stuck).
fn run_parser(tokens: &Vec<Token>) -> (result: Result<Parser, Option<TreeError>>)
    ensures
        match parse_tokens(tokens@) {
            RunView::Done(q) => result matches Ok(parser) && parser.view() == q && view_wf(q, tokens@.len() as int),
            RunView::Fail(e) => result matches Err(Some(err)) && err@ == e,
            RunView::Stuck => result matches Err(None),
        },
{
    let n = tokens.len();
    let mut parser = Parser::new();
    let mut i: usize = 0;
    while i < n
        invariant
            n == tokens@.len(),
            0 <= i <= n,
            view_wf(parser.view(), n as int),
            parse_run(parser.view(), tokens@, i as int) == parse_tokens(tokens@),
        decreases n - i,
    {
        let ghost before = parser.view();
        proof {
            lemma_run_step(before, tokens@, i as int);
        }
        match parser.step(tokens, i) {
            ExecStep::Next(j) => {
                i = j;
            },
            ExecStep::Fail(e) => {
                return Err(Some(e));
            },
            ExecStep::Stuck => {
                return Err(None);
            },
        }
    }
    if parser.nested.len() > 0 {
        return Err(Some(TreeError::EndedAbruptly));
    }
    Ok(parser)
}

/// Whether any of the tokens is a grammar syntax character.
fn any_grammar(tokens: &Vec<Token>) -> (result: bool)
    ensures
        result == spec_has_grammar(tokens@),
{
    let n = tokens.len();
    let mut has_grammar = false;
    let mut k: usize = 0;
    while k < n
        invariant
            n == tokens@.len(),
            0 <= k <= n,
            has_grammar == exists|j: int| 0 <= j < k && (#[trigger] tokens@[j]).token_type == TokenType::Grammar,
        decreases n - k,
    {
        if tokens[k].token_type == TokenType::Grammar {
            has_grammar = true;
        }
        k = k + 1;
    }
    has_grammar
}

/// The syntax tree of a string: its tokens, whether any is a grammar syntax character, its lengths, and its
/// nodes (node 0 is the Root).
#[derive(Debug)]
pub struct Tree {
    tokens: Vec<Token>,
    has_grammar: bool,
    lengths: Length,
    nodes: Vec<Node>,
}

/// Whether any of the tokens is a grammar syntax character.
pub open spec fn spec_has_grammar(tokens: Seq<Token>) -> bool {
    exists|j: int| 0 <= j < tokens.len() && (#[trigger] tokens[j]).token_type == TokenType::Grammar
}

/// The tree that parsing `tokens` builds, if parsing succeeds: `tree` holds the tokens and the nodes that the
/// parser built, and its lengths are the totals of the tokens.
pub open spec fn tree_of(tree: Tree, tokens: Seq<Token>, nodes: Seq<NodeView>) -> bool {
    &&& tree.token_view() == tokens
    &&& tree.node_view() == nodes
    &&& tree.spec_has_grammar() == spec_has_grammar(tokens)
    &&& tree.spec_lengths().tokens == tokens.len()
    &&& tree.spec_lengths().characters == token_text(tokens).len()
    &&& tree.spec_lengths().bytes == utf8_length(token_text(tokens))
    &&& tree.spec_lengths().graphemes == grapheme_total(tokens)
    &&& tree.wf()
}

/// The outcome of parsing the tokens, as [`parse_tokens`] states it: `None` where the parser is stuck.
pub open spec fn outcome_agrees(result: Option<Result<Tree, TreeError>>, tokens: Seq<Token>) -> bool {
    match parse_tokens(tokens) {
        RunView::Done(q) => result matches Some(Ok(tree)) && tree_of(tree, tokens, q.nodes),
        RunView::Fail(e) => result matches Some(Err(err)) && err@ == e,
        RunView::Stuck => result is None,
    }
}

impl Tree {
    /// The tokens of the string.
    pub closed spec fn token_view(&self) -> Seq<Token> {
        self.tokens@
    }

    /// The nodes of the tree.
    pub closed spec fn node_view(&self) -> Seq<NodeView> {
        nodes_view(self.nodes@)
    }

    /// Whether the string has a grammar syntax character.
    pub closed spec fn spec_has_grammar(&self) -> bool {
        self.has_grammar
    }

    /// The lengths of the string.
    pub closed spec fn spec_lengths(&self) -> Length {
        self.lengths
    }

    /// The nodes form a tree whose token indices are indices of its tokens.
    pub open spec fn wf(&self) -> bool {
        nodes_wf(self.node_view(), self.token_view().len() as int)
    }

    /// The root of a tree is its only node without a parent, a Root node whose first child is a String node;
    /// every other node's parent comes before it and is a container.
    pub proof fn lemma_root(&self)
        requires
            self.wf(),
        ensures
            self.node_view()[0].node_type == NodeType::Root,
            self.node_view()[0].parent is None,
            self.node_view()[0].children.len() >= 1,
            self.node_view()[self.node_view()[0].children[0] as int].node_type == NodeType::String,
            forall|j: int|
                1 <= j < self.node_view().len() ==> ((#[trigger] self.node_view()[j]).parent matches Some(q) && q < j
                    && self.node_view()[q as int].node_type.spec_allow_children()),
    {
    }

    /// Parses the string, tokenised with the grammar syntax characters `grammar`, into a tree.
    ///
    /// Fails with `Lexer` when the lexer fails, and otherwise as the parser [`parse_tokens`] states. Returns
    /// `None` for the token sequences on which the parser is stuck (it would need the children of a leaf, or
    /// have no current node).
    pub fn try_new(string: &str, grammar: &str, icu_data_provider: &Rc<IcuDataProvider>) -> (result: Option<
        Result<Tree, TreeError>,
    >)
        ensures
            grammar@.len() == 0 ==> (result matches Some(Err(e)) && e@ == TreeErrorView::Lexer(
                LexerError::NoGrammar,
            )),
            grammar@.len() > 0 && string@.len() == 0 ==> (result matches Some(Err(e)) && e@
                == TreeErrorView::Lexer(LexerError::EmptyString)),
            grammar@.len() > 0 && string@.len() > 0 ==> exists|tokens: Seq<Token>|
                is_tokenisation(string@, grammar@, tokens) && outcome_agrees(result, tokens),
            result matches Some(Ok(tree)) ==> tree.spec_lengths().characters == string@.len()
                && tree.spec_lengths().bytes == utf8_length(string@),
    {
        let tokens = match tokenise(string, grammar, icu_data_provider) {
            Ok(tokens) => tokens,
            Err(e) => return Some(Err(TreeError::Lexer(e))),
        };
        let ghost toks = tokens@;
        proof {
            lemma_tokenisation_totals(string@, grammar@, toks);
        }
        let n = tokens.len();
        let characters = string.unicode_len();
        let last = &tokens[n - 1];
        let lengths = Length {
            bytes: last.end_byte,
            characters,
            graphemes: last.start_grapheme + last.length_graphemes,
            tokens: n,
        };
        let result = Tree::from_tokens(tokens, lengths);
        proof {
            assert(is_tokenisation(string@, grammar@, toks) && outcome_agrees(result, toks));
        }
        result
    }

    /// Parses the tokens into a tree with the given lengths, as [`parse_tokens`]; `None` where the parser is stuck.
    fn from_tokens(tokens: Vec<Token>, lengths: Length) -> (result: Option<Result<Tree, TreeError>>)
        ensures
            match parse_tokens(tokens@) {
                RunView::Done(q) => result matches Some(Ok(tree)) && tree.token_view() == tokens@ && tree.node_view()
                    == q.nodes && tree.spec_has_grammar() == spec_has_grammar(tokens@) && tree.spec_lengths()
                    == lengths && tree.wf(),
                RunView::Fail(e) => result matches Some(Err(err)) && err@ == e,
                RunView::Stuck => result is None,
            },
    {
        match run_parser(&tokens) {
            Ok(parser) => {
                let has_grammar = any_grammar(&tokens);
                Some(Ok(Tree { tokens, has_grammar, lengths, nodes: parser.nodes }))
            },
            Err(Some(e)) => Some(Err(e)),
            Err(None) => None,
        }
    }

    /// The lengths of the string in bytes, characters, graphemes and tokens.
    pub fn length(&self) -> (result: &Length)
        ensures
            *result == self.spec_lengths(),
    {
        &self.lengths
    }

    /// Whether the string contains any grammar syntax character.
    pub fn has_grammar(&self) -> (result: bool)
        ensures
            result == self.spec_has_grammar(),
    {
        self.has_grammar
    }

    /// The number of nodes.
    pub fn len(&self) -> (result: usize)
        ensures
            result == self.node_view().len(),
    {
        self.nodes.len()
    }

    /// The type of node `node_index`.
    pub fn node_type(&self, node_index: usize) -> (result: &NodeType)
        requires
            node_index < self.node_view().len(),
        ensures
            *result == self.node_view()[node_index as int].node_type,
    {
        proof {
            assert(self.node_view()[node_index as int] == self.nodes@[node_index as int]@);
        }
        &self.nodes[node_index].node_type
    }

    /// The children of node `node_index`, which must be a container.
    pub fn children(&self, node_index: usize) -> (result: &Vec<usize>)
        requires
            node_index < self.node_view().len(),
            self.node_view()[node_index as int].node_type.spec_allow_children(),
        ensures
            result@ == self.node_view()[node_index as int].children,
    {
        proof {
            assert(self.node_view()[node_index as int] == self.nodes@[node_index as int]@);
        }
        &self.nodes[node_index].children
    }

    /// The first child of node `node_index`, which must be a container.
    pub fn first(&self, node_index: usize) -> (result: Option<usize>)
        requires
            node_index < self.node_view().len(),
            self.node_view()[node_index as int].node_type.spec_allow_children(),
        ensures
            self.node_view()[node_index as int].children.len() == 0 ==> result is None,
            self.node_view()[node_index as int].children.len() > 0 ==> result == Some(
                self.node_view()[node_index as int].children[0],
            ),
    {
        let children = self.children(node_index);
        if children.len() == 0 {
            None
        } else {
            Some(children[0])
        }
    }

    /// The last child of node `node_index`, which must be a container.
    pub fn last(&self, node_index: usize) -> (result: Option<usize>)
        requires
            node_index < self.node_view().len(),
            self.node_view()[node_index as int].node_type.spec_allow_children(),
        ensures
            self.node_view()[node_index as int].children.len() == 0 ==> result is None,
            self.node_view()[node_index as int].children.len() > 0 ==> result == Some(
                self.node_view()[node_index as int].children.last(),
            ),
    {
        let children = self.children(node_index);
        if children.len() == 0 {
            None
        } else {
            Some(children[children.len() - 1])
        }
    }

    /// The token indices of node `node_index`: `None` unless the node may hold tokens.
    pub fn tokens(&self, node_index: usize) -> (result: Option<&Vec<usize>>)
        requires
            node_index < self.node_view().len(),
        ensures
            self.node_view()[node_index as int].node_type.spec_allow_tokens() ==> (result matches Some(v)
                && v@ == self.node_view()[node_index as int].tokens),
            !self.node_view()[node_index as int].node_type.spec_allow_tokens() ==> result is None,
    {
        proof {
            assert(self.node_view()[node_index as int] == self.nodes@[node_index as int]@);
        }
        if self.nodes[node_index].node_type.allow_tokens() {
            Some(&self.nodes[node_index].tokens)
        } else {
            None
        }
    }

    /// The token indices of node `node_index`, whatever its type (empty for a container).
    pub fn node_tokens(&self, node_index: usize) -> (result: &Vec<usize>)
        requires
            node_index < self.node_view().len(),
        ensures
            result@ == self.node_view()[node_index as int].tokens,
    {
        proof {
            assert(self.node_view()[node_index as int] == self.nodes@[node_index as int]@);
        }
        &self.nodes[node_index].tokens
    }

    /// The token `token_index`.
    pub fn token(&self, token_index: usize) -> (result: &Token)
        requires
            token_index < self.token_view().len(),
        ensures
            *result == self.token_view()[token_index as int],
    {
        &self.tokens[token_index]
    }
}

} // verus!
