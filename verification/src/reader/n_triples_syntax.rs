//! The grammar of N-Triples above its tokens: what a statement and a
//! document are, and what reading them ends in.

use crate::error::{ErrorType, ErrorView};
use crate::graph::GraphView;
use crate::node::NodeView;
use crate::reader::lexer::grammar::Syntax;
use crate::reader::lexer::rdf_lexer::{
    SourceView, behind, lemma_behind_wf, lemma_get_advances, lemma_yields_concat,
    lemma_yields_first, yields,
};
use crate::reader::lexer::token::TokenView;
use crate::reader::rdf_parser::{at_delimiter, inside_statement};
use crate::triple::{TripleView, extends_well};
use vstd::prelude::*;

verus! {

/// The node that the token in a statement's first place stands for: a URI or
/// a blank node.
pub open spec fn subject_node(handed: Result<TokenView, ErrorView>) -> Result<NodeView, ErrorView> {
    match handed {
        Ok(TokenView::BlankNode(id)) => Ok(NodeView::BlankNode { id }),
        Ok(TokenView::Uri(uri)) => Ok(NodeView::UriNode { uri }),
        Ok(_) => Err(ErrorView { kind: ErrorType::InvalidToken, text: "Invalid token for NTriples subject."@ }),
        Err(error) => Err(inside_statement(error, "Invalid token for NTriples subject."@)),
    }
}

/// The node that the token in a statement's second place stands for: a URI.
pub open spec fn predicate_node(handed: Result<TokenView, ErrorView>) -> Result<
    NodeView,
    ErrorView,
> {
    match handed {
        Ok(TokenView::Uri(uri)) => Ok(NodeView::UriNode { uri }),
        Ok(_) => Err(ErrorView { kind: ErrorType::InvalidToken, text: "Invalid token for NTriples predicate."@ }),
        Err(error) => Err(inside_statement(error, "Invalid token for NTriples predicate."@)),
    }
}

/// The node that the token in a statement's third place stands for: a URI, a
/// blank node, or a literal of any form.
pub open spec fn object_node(handed: Result<TokenView, ErrorView>) -> Result<NodeView, ErrorView> {
    match handed {
        Ok(TokenView::BlankNode(id)) => Ok(NodeView::BlankNode { id }),
        Ok(TokenView::Uri(uri)) => Ok(NodeView::UriNode { uri }),
        Ok(TokenView::LiteralWithLanguageSpecification(literal, language)) => Ok(
            NodeView::LiteralNode { literal, data_type: None, language: Some(language) },
        ),
        Ok(TokenView::LiteralWithUrlDatatype(literal, data_type)) => Ok(
            NodeView::LiteralNode { literal, data_type: Some(data_type), language: None },
        ),
        Ok(TokenView::Literal(literal)) => Ok(
            NodeView::LiteralNode { literal, data_type: None, language: None },
        ),
        Ok(_) => Err(ErrorView { kind: ErrorType::InvalidToken, text: "Invalid token for NTriples object."@ }),
        Err(error) => Err(inside_statement(error, "Invalid token for NTriples object."@)),
    }
}

/// What the token in a statement's last place makes of the statement: `.` ends it.
pub open spec fn delimiter(handed: Result<TokenView, ErrorView>) -> Result<(), ErrorView> {
    match handed {
        Ok(TokenView::TripleDelimiter) => Ok(()),
        Ok(_) => Err(ErrorView { kind: ErrorType::InvalidReaderInput, text: "Expected triple delimiter."@ }),
        Err(error) => Err(at_delimiter(error, "Expected triple delimiter."@)),
    }
}

/// One statement, read from `source` on: subject, predicate, object and `.`.
/// The result is the triple, or the first failure, and the place
/// behind the last token that was taken.
pub open spec fn statement(source: SourceView) -> (Result<TripleView, ErrorView>, SourceView) {
    let (first, behind_subject) = source.get(Syntax::NTriples);
    let (second, behind_predicate) = behind_subject.get(Syntax::NTriples);
    let (third, behind_object) = behind_predicate.get(Syntax::NTriples);
    let (fourth, behind) = behind_object.get(Syntax::NTriples);
    match subject_node(first) {
        Err(error) => (Err(error), behind_subject),
        Ok(subject) => match predicate_node(second) {
            Err(error) => (Err(error), behind_predicate),
            Ok(predicate) => match object_node(third) {
                Err(error) => (Err(error), behind_object),
                Ok(object) => match delimiter(fourth) {
                    Err(error) => (Err(error), behind),
                    Ok(_) => (Ok(TripleView { subject, predicate, object }), behind),
                },
            },
        },
    }
}

/// The document from `source` on, read into `graph`. Comments between
/// statements are passed over. The end of the input where a statement may
/// begin ends the document; every failure ends it too, and is the result.
pub open spec fn document(source: SourceView, graph: GraphView) -> (
    Result<GraphView, ErrorView>,
    SourceView,
)
    decreases source.left(),
    when source.wf()
    via document_decreases
{
    match source.peek(Syntax::NTriples).0 {
        Ok(TokenView::EndOfInput) => (Ok(graph), source),
        Err(error) => if error.kind is EndOfInput {
            (Ok(graph), source)
        } else {
            (Err(error), source)
        },
        Ok(TokenView::Comment(_)) => document(source.get(Syntax::NTriples).1, graph),
        Ok(_) => match statement(source) {
            (Ok(triple), behind) => document(behind, graph.add_triple(triple)),
            (Err(error), behind) => (Err(error), behind),
        },
    }
}

#[via_fn]
proof fn document_decreases(source: SourceView, graph: GraphView) {
    lemma_statement_advances(source);
    lemma_get_advances(source, Syntax::NTriples);
}

/// A statement leaves the lexer well formed, and one that was read leaves
/// less to read.
pub proof fn lemma_statement_advances(source: SourceView)
    requires
        source.wf(),
    ensures
        statement(source).1.wf(),
        statement(source).1.input == source.input,
        statement(source).0 is Ok ==> statement(source).1.left() < source.left(),
{
    let syntax = Syntax::NTriples;
    lemma_get_advances(source, syntax);
    let s1 = source.get(syntax).1;
    lemma_get_advances(s1, syntax);
    let s2 = s1.get(syntax).1;
    lemma_get_advances(s2, syntax);
    let s3 = s2.get(syntax).1;
    lemma_get_advances(s3, syntax);
}

/// What stands in a document before its end: a comment or a statement.
pub enum Item {
    Comment(Seq<char>),
    Statement(TripleView),
}

/// The token that a node is written as.
pub open spec fn node_token(node: NodeView) -> TokenView {
    match node {
        NodeView::UriNode { uri } => TokenView::Uri(uri),
        NodeView::BlankNode { id } => TokenView::BlankNode(id),
        NodeView::LiteralNode { literal, data_type: Some(data_type), .. } => {
            TokenView::LiteralWithUrlDatatype(literal, data_type)
        },
        NodeView::LiteralNode { literal, data_type: None, language: Some(language) } => {
            TokenView::LiteralWithLanguageSpecification(literal, language)
        },
        NodeView::LiteralNode { literal, data_type: None, language: None } => TokenView::Literal(
            literal,
        ),
    }
}

/// The tokens that a comment or a statement is written as.
pub open spec fn item_tokens(item: Item) -> Seq<TokenView> {
    match item {
        Item::Comment(text) => seq![TokenView::Comment(text)],
        Item::Statement(triple) => seq![
            node_token(triple.subject),
            node_token(triple.predicate),
            node_token(triple.object),
            TokenView::TripleDelimiter,
        ],
    }
}

/// The tokens of a document: those of its items, and the end of the input.
pub open spec fn document_tokens(items: Seq<Item>) -> Seq<TokenView>
    decreases items.len(),
{
    if items.len() == 0 {
        seq![TokenView::EndOfInput]
    } else {
        item_tokens(items[0]) + document_tokens(items.drop_first())
    }
}

/// The statements among the items, in their order.
pub open spec fn statements(items: Seq<Item>) -> Seq<TripleView>
    decreases items.len(),
{
    if items.len() == 0 {
        Seq::empty()
    } else {
        match items[0] {
            Item::Comment(_) => statements(items.drop_first()),
            Item::Statement(triple) => seq![triple] + statements(items.drop_first()),
        }
    }
}

/// Every statement among the items has nodes of the kinds that their places admit.
pub open spec fn well_formed(items: Seq<Item>) -> bool {
    forall|i: int|
        0 <= i < items.len() ==> (#[trigger] items[i] matches Item::Statement(triple)
            ==> triple.wf())
}

/// A statement that is written out in its four tokens is read back as it was.
pub proof fn lemma_statement_read_back(source: SourceView, triple: TripleView)
    requires
        source.wf(),
        triple.wf(),
        yields(source, Syntax::NTriples, item_tokens(Item::Statement(triple))),
    ensures
        statement(source) == (Ok::<TripleView, ErrorView>(triple), behind(source, Syntax::NTriples, 4)),
        source.peek(Syntax::NTriples).0 == Ok::<TokenView, ErrorView>(node_token(triple.subject)),
{
    let syntax = Syntax::NTriples;
    let tokens = item_tokens(Item::Statement(triple));
    let s1 = source.get(syntax).1;
    let s2 = s1.get(syntax).1;
    let s3 = s2.get(syntax).1;
    lemma_yields_first(source, syntax, tokens);
    lemma_yields_first(s1, syntax, tokens.drop_first());
    lemma_yields_first(s2, syntax, tokens.drop_first().drop_first());
    lemma_yields_first(s3, syntax, tokens.drop_first().drop_first().drop_first());
    reveal_with_fuel(behind, 5);
}

/// A document of `k` statements decodes to exactly those `k` triples, in
/// their order, each with the subject, predicate and object that its text
/// names. Comments between the statements add nothing.
pub proof fn lemma_document_of_statements(source: SourceView, items: Seq<Item>, graph: GraphView)
    requires
        source.wf(),
        well_formed(items),
        yields(source, Syntax::NTriples, document_tokens(items)),
    ensures
        document(source, graph).0 == Ok::<GraphView, ErrorView>(
            graph.add_triples(statements(items)),
        ),
    decreases items.len(),
{
    let syntax = Syntax::NTriples;
    if items.len() == 0 {
        lemma_yields_first(source, syntax, document_tokens(items));
        assert(graph.triples + statements(items) =~= graph.triples);
    } else {
        let rest = items.drop_first();
        assert(well_formed(rest)) by {
            assert forall|i: int| 0 <= i < rest.len() implies (#[trigger] rest[i] matches Item::Statement(
                triple,
            ) ==> triple.wf()) by {
                assert(rest[i] == items[i + 1]);
            }
        }
        lemma_yields_concat(source, syntax, item_tokens(items[0]), document_tokens(rest));
        lemma_behind_wf(source, syntax, item_tokens(items[0]).len());
        match items[0] {
            Item::Comment(text) => {
                lemma_yields_first(source, syntax, item_tokens(items[0]));
                reveal_with_fuel(behind, 2);
                lemma_document_of_statements(source.get(syntax).1, rest, graph);
            },
            Item::Statement(triple) => {
                lemma_statement_read_back(source, triple);
                let next = behind(source, syntax, 4);
                lemma_document_of_statements(next, rest, graph.add_triple(triple));
                assert(graph.triples.push(triple) + statements(rest) =~= graph.triples + (
                seq![triple] + statements(rest)));
            },
        }
    }
}

/// A document that is nothing but `k` statements decodes to a graph of `k`
/// triples, the i-th of them the i-th statement.
pub proof fn lemma_counts_statements(source: SourceView, triples: Seq<TripleView>)
    requires
        source.wf(),
        forall|i: int| 0 <= i < triples.len() ==> (#[trigger] triples[i]).wf(),
        yields(
            source,
            Syntax::NTriples,
            document_tokens(Seq::new(triples.len(), |i: int| Item::Statement(triples[i]))),
        ),
    ensures
        document(source, GraphView::empty(None)).0 matches Ok(graph) && graph.triples == triples,
{
    let items = Seq::new(triples.len(), |i: int| Item::Statement(triples[i]));
    lemma_statements_of_statements(triples);
    lemma_document_of_statements(source, items, GraphView::empty(None));
    assert(Seq::<TripleView>::empty() + triples =~= triples);
}

proof fn lemma_statements_of_statements(triples: Seq<TripleView>)
    ensures
        statements(Seq::new(triples.len(), |i: int| Item::Statement(triples[i]))) == triples,
    decreases triples.len(),
{
    let items = Seq::new(triples.len(), |i: int| Item::Statement(triples[i]));
    if triples.len() > 0 {
        let rest = triples.drop_first();
        assert(items.drop_first() =~= Seq::new(rest.len(), |i: int| Item::Statement(rest[i])));
        lemma_statements_of_statements(rest);
        assert(seq![triples[0]] + rest =~= triples);
    } else {
        assert(statements(items) =~= triples);
    }
}

/// A document that holds only whitespace and comments decodes to a graph
/// without triples.
pub proof fn lemma_only_comments(source: SourceView, comments: Seq<Seq<char>>)
    requires
        source.wf(),
        yields(
            source,
            Syntax::NTriples,
            document_tokens(Seq::new(comments.len(), |i: int| Item::Comment(comments[i]))),
        ),
    ensures
        document(source, GraphView::empty(None)).0 == Ok::<GraphView, ErrorView>(
            GraphView::empty(None),
        ),
{
    let items = Seq::new(comments.len(), |i: int| Item::Comment(comments[i]));
    lemma_statements_of_comments(comments);
    lemma_document_of_statements(source, items, GraphView::empty(None));
    assert(Seq::<TripleView>::empty() + Seq::<TripleView>::empty() =~= Seq::<TripleView>::empty());
}

proof fn lemma_statements_of_comments(comments: Seq<Seq<char>>)
    ensures
        statements(Seq::new(comments.len(), |i: int| Item::Comment(comments[i]))) == Seq::<
            TripleView,
        >::empty(),
    decreases comments.len(),
{
    let items = Seq::new(comments.len(), |i: int| Item::Comment(comments[i]));
    if comments.len() > 0 {
        let rest = comments.drop_first();
        assert(items.drop_first() =~= Seq::new(rest.len(), |i: int| Item::Comment(rest[i])));
        lemma_statements_of_comments(rest);
    }
}

/// A text that ends behind a subject is no document: decoding it fails, and
/// not with the failure that stands for the end of the input.
pub proof fn lemma_truncated_after_subject(
    source: SourceView,
    subject: NodeView,
    graph: GraphView,
)
    requires
        source.wf(),
        subject.is_subject(),
        yields(source, Syntax::NTriples, seq![node_token(subject), TokenView::EndOfInput]),
    ensures
        document(source, graph).0 == Err::<GraphView, ErrorView>(
            ErrorView {
                kind: ErrorType::InvalidToken,
                text: "Invalid token for NTriples predicate."@,
            },
        ),
{
    let syntax = Syntax::NTriples;
    let tokens = seq![node_token(subject), TokenView::EndOfInput];
    lemma_yields_first(source, syntax, tokens);
    lemma_yields_first(source.get(syntax).1, syntax, tokens.drop_first());
}

/// A statement that is read has nodes of the kinds that their places admit.
pub proof fn lemma_statement_well_typed(source: SourceView)
    ensures
        statement(source).0 matches Ok(triple) ==> triple.wf(),
{
}

/// Decoding only adds to a graph: the triples that were there stay first,
/// those behind them are well typed, and the base URI and the namespaces are
/// left as they were.
pub proof fn lemma_document_extends(source: SourceView, graph: GraphView)
    requires
        source.wf(),
    ensures
        document(source, graph).0 matches Ok(decoded) ==> {
            &&& extends_well(decoded.triples, graph.triples)
            &&& decoded.base_uri == graph.base_uri
            &&& decoded.namespaces == graph.namespaces
        },
    decreases source.left(),
{
    let syntax = Syntax::NTriples;
    lemma_get_advances(source, syntax);
    lemma_statement_advances(source);
    assert(graph.triples.take(graph.triples.len() as int) =~= graph.triples);
    match source.peek(syntax).0 {
        Ok(TokenView::EndOfInput) | Err(_) => {},
        Ok(TokenView::Comment(_)) => {
            lemma_document_extends(source.get(syntax).1, graph);
        },
        Ok(_) => {
            if let (Ok(triple), next) = statement(source) {
                let grown = graph.add_triple(triple);
                lemma_document_extends(next, grown);
                if let Ok(decoded) = document(next, grown).0 {
                    assert(decoded.triples.take(graph.triples.len() as int)
                        =~= decoded.triples.take(grown.triples.len() as int).take(
                        graph.triples.len() as int,
                    ));
                    assert(grown.triples.take(graph.triples.len() as int) =~= graph.triples);
                    assert forall|i: int|
                        graph.triples.len() <= i < decoded.triples.len() implies (
                    #[trigger] decoded.triples[i]).wf() by {
                        if i == graph.triples.len() {
                            assert(decoded.triples[i] == decoded.triples.take(
                                grown.triples.len() as int,
                            )[i]);
                        }
                    }
                }
            }
        },
    }
}

} // verus!
