//! The grammar of Turtle above its tokens: directives, qualified names,
//! statements with their lists of predicates and objects, and documents.

use crate::error::{ErrorType, ErrorView};
use crate::graph::{GraphView, undefined_prefix};
use crate::node::NodeView;
use crate::reader::lexer::grammar::Syntax;
use crate::reader::lexer::rdf_lexer::{
    SourceView, behind, lemma_behind_add, lemma_behind_wf, lemma_get_advances,
    lemma_yields_concat, lemma_yields_first, yields,
};
use crate::reader::lexer::token::TokenView;
use crate::reader::rdf_parser::{at_delimiter, inside_statement};
use crate::triple::{TripleView, extends_well};
use vstd::prelude::*;

verus! {

/// The path of a qualified name as it is appended to a URI: with `/` for every `:`.
pub open spec fn slashed(path: Seq<char>) -> Seq<char> {
    path.map_values(
        |c: char|
            if c == ':' {
                '/'
            } else {
                c
            },
    )
}

/// The node that a qualified name stands for: the URI of its prefix,
/// lengthened by its path. A prefix that the graph does not know is a failure.
pub open spec fn resolved(graph: GraphView, prefix: Seq<char>, path: Seq<char>) -> Result<
    NodeView,
    ErrorView,
> {
    match graph.namespace_uri(prefix) {
        Some(uri) => Ok(NodeView::UriNode { uri: uri + slashed(path) }),
        None => Err(undefined_prefix()),
    }
}

/// The node that the token in a statement's first place stands for: a blank
/// node, a URI or a qualified name.
pub open spec fn subject_node(graph: GraphView, handed: Result<TokenView, ErrorView>) -> Result<
    NodeView,
    ErrorView,
> {
    match handed {
        Ok(TokenView::BlankNode(id)) => Ok(NodeView::BlankNode { id }),
        Ok(TokenView::QName(prefix, path)) => resolved(graph, prefix, path),
        Ok(TokenView::Uri(uri)) => Ok(NodeView::UriNode { uri }),
        Ok(_) => Err(ErrorView { kind: ErrorType::InvalidToken, text: "Invalid token for Turtle subject."@ }),
        Err(error) => Err(inside_statement(error, "Invalid token for Turtle subject."@)),
    }
}

/// The node that the token in a predicate's place stands for: a URI or a
/// qualified name.
pub open spec fn predicate_node(graph: GraphView, handed: Result<TokenView, ErrorView>) -> Result<
    NodeView,
    ErrorView,
> {
    match handed {
        Ok(TokenView::Uri(uri)) => Ok(NodeView::UriNode { uri }),
        Ok(TokenView::QName(prefix, path)) => resolved(graph, prefix, path),
        Ok(_) => Err(ErrorView { kind: ErrorType::InvalidToken, text: "Invalid token for Turtle predicate."@ }),
        Err(error) => Err(inside_statement(error, "Invalid token for Turtle predicate."@)),
    }
}

/// The node that the token in an object's place stands for: a blank node, a
/// URI, a qualified name, or a literal that is plain or has a language tag
/// or the URI of a datatype.
pub open spec fn object_node(graph: GraphView, handed: Result<TokenView, ErrorView>) -> Result<
    NodeView,
    ErrorView,
> {
    match handed {
        Ok(TokenView::BlankNode(id)) => Ok(NodeView::BlankNode { id }),
        Ok(TokenView::Uri(uri)) => Ok(NodeView::UriNode { uri }),
        Ok(TokenView::QName(prefix, path)) => resolved(graph, prefix, path),
        Ok(TokenView::LiteralWithLanguageSpecification(literal, language)) => Ok(
            NodeView::LiteralNode { literal, data_type: None, language: Some(language) },
        ),
        Ok(TokenView::LiteralWithUrlDatatype(literal, data_type)) => Ok(
            NodeView::LiteralNode { literal, data_type: Some(data_type), language: None },
        ),
        Ok(TokenView::Literal(literal)) => Ok(
            NodeView::LiteralNode { literal, data_type: None, language: None },
        ),
        Ok(_) => Err(ErrorView { kind: ErrorType::InvalidToken, text: "Invalid token for Turtle object."@ }),
        Err(error) => Err(inside_statement(error, "Invalid token for Turtle object."@)),
    }
}

/// A predicate and its object, read from `source` on.
pub open spec fn predicate_with_object(graph: GraphView, source: SourceView) -> (
    Result<(NodeView, NodeView), ErrorView>,
    SourceView,
) {
    let (first, behind_predicate) = source.get(Syntax::Turtle);
    let (second, behind) = behind_predicate.get(Syntax::Turtle);
    match predicate_node(graph, first) {
        Err(error) => (Err(error), behind_predicate),
        Ok(predicate) => match object_node(graph, second) {
            Err(error) => (Err(error), behind),
            Ok(object) => (Ok((predicate, object)), behind),
        },
    }
}

/// The rest of a statement of which `triples` have been read, the last of
/// them with `predicate`. `.` ends the statement. `;` brings a new predicate
/// with its object, `,` one more object for the predicate before it; each
/// makes a triple with the statement's `subject`.
pub open spec fn continued(
    graph: GraphView,
    source: SourceView,
    subject: NodeView,
    predicate: NodeView,
    triples: Seq<TripleView>,
) -> (Result<Seq<TripleView>, ErrorView>, SourceView)
    decreases source.left(),
    when source.wf()
    via continued_decreases
{
    let (handed, behind) = source.get(Syntax::Turtle);
    match handed {
        Ok(TokenView::TripleDelimiter) => (Ok(triples), behind),
        Ok(TokenView::PredicateListDelimiter) => match predicate_with_object(graph, behind) {
            (Ok((next_predicate, object)), rest) => continued(
                graph,
                rest,
                subject,
                next_predicate,
                triples.push(TripleView { subject, predicate: next_predicate, object }),
            ),
            (Err(error), rest) => (Err(error), rest),
        },
        Ok(TokenView::ObjectListDelimiter) => match object_node(
            graph,
            behind.get(Syntax::Turtle).0,
        ) {
            Ok(object) => continued(
                graph,
                behind.get(Syntax::Turtle).1,
                subject,
                predicate,
                triples.push(TripleView { subject, predicate, object }),
            ),
            Err(error) => (Err(error), behind.get(Syntax::Turtle).1),
        },
        Ok(_) => (Err(ErrorView { kind: ErrorType::InvalidReaderInput, text: "Invalid token while parsing Turtle triples."@ }), behind),
        Err(error) => (Err(at_delimiter(error, "Invalid token while parsing Turtle triples."@)), behind),
    }
}

#[via_fn]
proof fn continued_decreases(
    graph: GraphView,
    source: SourceView,
    subject: NodeView,
    predicate: NodeView,
    triples: Seq<TripleView>,
) {
    lemma_get_advances(source, Syntax::Turtle);
    let behind = source.get(Syntax::Turtle).1;
    lemma_get_advances(behind, Syntax::Turtle);
    lemma_pair_advances(graph, behind);
}

/// A predicate with its object leaves the lexer well formed, and a pair that
/// was read leaves less to read.
pub proof fn lemma_pair_advances(graph: GraphView, source: SourceView)
    requires
        source.wf(),
    ensures
        predicate_with_object(graph, source).1.wf(),
        predicate_with_object(graph, source).1.input == source.input,
        predicate_with_object(graph, source).1.left() <= source.left(),
        predicate_with_object(graph, source).0 is Ok ==> predicate_with_object(
            graph,
            source,
        ).1.left() < source.left(),
{
    lemma_get_advances(source, Syntax::Turtle);
    lemma_get_advances(source.get(Syntax::Turtle).1, Syntax::Turtle);
}

/// The rest of a statement leaves the lexer well formed and no more to read
/// than there was.
pub proof fn lemma_continued_advances(
    graph: GraphView,
    source: SourceView,
    subject: NodeView,
    predicate: NodeView,
    triples: Seq<TripleView>,
)
    requires
        source.wf(),
    ensures
        continued(graph, source, subject, predicate, triples).1.wf(),
        continued(graph, source, subject, predicate, triples).1.input == source.input,
        continued(graph, source, subject, predicate, triples).1.left() <= source.left(),
        continued(graph, source, subject, predicate, triples).0 is Ok ==> continued(
            graph,
            source,
            subject,
            predicate,
            triples,
        ).1.left() < source.left(),
    decreases source.left(),
{
    lemma_get_advances(source, Syntax::Turtle);
    let (handed, behind) = source.get(Syntax::Turtle);
    lemma_get_advances(behind, Syntax::Turtle);
    lemma_pair_advances(graph, behind);
    match handed {
        Ok(TokenView::PredicateListDelimiter) => {
            if let (Ok((next_predicate, object)), rest) = predicate_with_object(graph, behind) {
                lemma_continued_advances(
                    graph,
                    rest,
                    subject,
                    next_predicate,
                    triples.push(TripleView { subject, predicate: next_predicate, object }),
                );
            }
        },
        Ok(TokenView::ObjectListDelimiter) => {
            if let Ok(object) = object_node(graph, behind.get(Syntax::Turtle).0) {
                lemma_continued_advances(
                    graph,
                    behind.get(Syntax::Turtle).1,
                    subject,
                    predicate,
                    triples.push(TripleView { subject, predicate, object }),
                );
            }
        },
        _ => {},
    }
}

/// One statement, read from `source` on: a subject, a predicate with its
/// object, and what continues them up to `.`. The result is the triples of
/// the statement in their order, or the first failure, and the
/// place behind the last token that was taken.
pub open spec fn statement(graph: GraphView, source: SourceView) -> (
    Result<Seq<TripleView>, ErrorView>,
    SourceView,
) {
    let (first, behind_subject) = source.get(Syntax::Turtle);
    match subject_node(graph, first) {
        Err(error) => (Err(error), behind_subject),
        Ok(subject) => match predicate_with_object(graph, behind_subject) {
            (Err(error), rest) => (Err(error), rest),
            (Ok((predicate, object)), rest) => continued(
                graph,
                rest,
                subject,
                predicate,
                seq![TripleView { subject, predicate, object }],
            ),
        },
    }
}

/// A statement leaves the lexer well formed, and one that was read leaves
/// less to read.
pub proof fn lemma_statement_advances(graph: GraphView, source: SourceView)
    requires
        source.wf(),
    ensures
        statement(graph, source).1.wf(),
        statement(graph, source).1.input == source.input,
        statement(graph, source).0 is Ok ==> statement(graph, source).1.left() < source.left(),
{
    lemma_get_advances(source, Syntax::Turtle);
    let (first, behind_subject) = source.get(Syntax::Turtle);
    lemma_pair_advances(graph, behind_subject);
    if let Ok(subject) = subject_node(graph, first) {
        if let (Ok((predicate, object)), rest) = predicate_with_object(graph, behind_subject) {
            lemma_continued_advances(
                graph,
                rest,
                subject,
                predicate,
                seq![TripleView { subject, predicate, object }],
            );
        }
    }
}

/// The document from `source` on, read into `graph`. Comments between
/// statements are passed over. A directive changes the graph's base URI or
/// its namespaces. A URI, a blank node or a qualified name begins a
/// statement, whose triples are added to the graph. The end of the input
/// where a statement may begin ends the document. Any other token there is
/// a failure, and every failure ends the document and is its result.
pub open spec fn document(source: SourceView, graph: GraphView) -> (
    Result<GraphView, ErrorView>,
    SourceView,
)
    decreases source.left(),
    when source.wf()
    via document_decreases
{
    let behind_token = source.get(Syntax::Turtle).1;
    match source.peek(Syntax::Turtle).0 {
        Ok(TokenView::EndOfInput) => (Ok(graph), source),
        Err(error) => if error.kind is EndOfInput {
            (Ok(graph), source)
        } else {
            (Err(error), source)
        },
        Ok(TokenView::Comment(_)) => document(behind_token, graph),
        Ok(TokenView::BaseDirective(uri)) => document(behind_token, graph.set_base_uri(uri)),
        Ok(TokenView::PrefixDirective(prefix, uri)) => document(
            behind_token,
            graph.add_namespace(prefix, uri),
        ),
        Ok(TokenView::Uri(_)) | Ok(TokenView::BlankNode(_)) | Ok(TokenView::QName(_, _)) => {
            match statement(graph, source) {
                (Ok(triples), behind) => document(behind, graph.add_triples(triples)),
                (Err(error), behind) => (Err(error), behind),
            }
        },
        Ok(_) => (Err(ErrorView { kind: ErrorType::InvalidToken, text: "Invalid token while parsing Turtle syntax."@ }), source),
    }
}

#[via_fn]
proof fn document_decreases(source: SourceView, graph: GraphView) {
    lemma_statement_advances(graph, source);
    lemma_get_advances(source, Syntax::Turtle);
}

/// The tokens that follow the first predicate and object of a statement
/// whose further predicates, each with its object, are `pairs`: `;` before
/// each pair, and `.` at the end.
pub open spec fn predicate_list_tokens(pairs: Seq<(TokenView, TokenView)>) -> Seq<TokenView>
    decreases pairs.len(),
{
    if pairs.len() == 0 {
        seq![TokenView::TripleDelimiter]
    } else {
        seq![TokenView::PredicateListDelimiter, pairs[0].0, pairs[0].1] + predicate_list_tokens(
            pairs.drop_first(),
        )
    }
}

/// The tokens that follow the first object of a statement whose further
/// objects are `objects`: `,` before each, and `.` at the end.
pub open spec fn object_list_tokens(objects: Seq<TokenView>) -> Seq<TokenView>
    decreases objects.len(),
{
    if objects.len() == 0 {
        seq![TokenView::TripleDelimiter]
    } else {
        seq![TokenView::ObjectListDelimiter, objects[0]] + object_list_tokens(
            objects.drop_first(),
        )
    }
}

/// Whether each pair of tokens stands, in `graph`, for the pair of nodes of
/// the same index: the first as a predicate, the second as an object.
pub open spec fn pairs_stand_for(
    graph: GraphView,
    pairs: Seq<(TokenView, TokenView)>,
    nodes: Seq<(NodeView, NodeView)>,
) -> bool {
    &&& nodes.len() == pairs.len()
    &&& forall|i: int|
        0 <= i < pairs.len() ==> {
            &&& predicate_node(graph, Ok(#[trigger] pairs[i].0)) == Ok::<NodeView, ErrorView>(
                nodes[i].0,
            )
            &&& object_node(graph, Ok(pairs[i].1)) == Ok::<NodeView, ErrorView>(nodes[i].1)
        }
}

/// Whether each token stands, in `graph`, for the node of the same index as an object.
pub open spec fn objects_stand_for(
    graph: GraphView,
    objects: Seq<TokenView>,
    nodes: Seq<NodeView>,
) -> bool {
    &&& nodes.len() == objects.len()
    &&& forall|i: int|
        0 <= i < objects.len() ==> object_node(graph, Ok(#[trigger] objects[i])) == Ok::<
            NodeView,
            ErrorView,
        >(nodes[i])
}

/// One triple for each pair of predicate and object, all with `subject`.
pub open spec fn sharing_subject(subject: NodeView, nodes: Seq<(NodeView, NodeView)>) -> Seq<
    TripleView,
> {
    Seq::new(
        nodes.len(),
        |i: int| TripleView { subject, predicate: nodes[i].0, object: nodes[i].1 },
    )
}

/// One triple for each object, all with `subject` and `predicate`.
pub open spec fn sharing_subject_and_predicate(
    subject: NodeView,
    predicate: NodeView,
    objects: Seq<NodeView>,
) -> Seq<TripleView> {
    Seq::new(objects.len(), |i: int| TripleView { subject, predicate, object: objects[i] })
}

/// The tokens of a statement that chains the pairs of predicate and object
/// with `;` under the subject: the subject, the first pair, and the rest
/// with `;` before each, up to `.`.
pub open spec fn predicate_list_statement(
    subject: TokenView,
    pairs: Seq<(TokenView, TokenView)>,
) -> Seq<TokenView> {
    seq![subject, pairs[0].0, pairs[0].1] + predicate_list_tokens(pairs.drop_first())
}

/// The tokens of a statement that chains the objects with `,` under the
/// subject and the predicate: the subject, the predicate, the first object,
/// and the rest with `,` before each, up to `.`.
pub open spec fn object_list_statement(
    subject: TokenView,
    predicate: TokenView,
    objects: Seq<TokenView>,
) -> Seq<TokenView> {
    seq![subject, predicate, objects[0]] + object_list_tokens(objects.drop_first())
}

/// Pairs of tokens that stand for pairs of nodes still do without the first
/// of each.
pub proof fn lemma_pairs_rest(
    graph: GraphView,
    pairs: Seq<(TokenView, TokenView)>,
    nodes: Seq<(NodeView, NodeView)>,
)
    requires
        pairs.len() > 0,
        pairs_stand_for(graph, pairs, nodes),
    ensures
        pairs_stand_for(graph, pairs.drop_first(), nodes.drop_first()),
{
    let rest_pairs = pairs.drop_first();
    let rest_nodes = nodes.drop_first();
    assert forall|i: int| 0 <= i < rest_pairs.len() implies {
        &&& predicate_node(graph, Ok(#[trigger] rest_pairs[i].0)) == Ok::<NodeView, ErrorView>(
            rest_nodes[i].0,
        )
        &&& object_node(graph, Ok(rest_pairs[i].1)) == Ok::<NodeView, ErrorView>(rest_nodes[i].1)
    } by {
        assert(rest_pairs[i] == pairs[i + 1]);
        assert(rest_nodes[i] == nodes[i + 1]);
    }
}

/// Tokens that stand for objects still do without the first of each.
pub proof fn lemma_objects_rest(graph: GraphView, objects: Seq<TokenView>, nodes: Seq<NodeView>)
    requires
        objects.len() > 0,
        objects_stand_for(graph, objects, nodes),
    ensures
        objects_stand_for(graph, objects.drop_first(), nodes.drop_first()),
{
    let rest_objects = objects.drop_first();
    let rest_nodes = nodes.drop_first();
    assert forall|i: int| 0 <= i < rest_objects.len() implies object_node(
        graph,
        Ok(#[trigger] rest_objects[i]),
    ) == Ok::<NodeView, ErrorView>(rest_nodes[i]) by {
        assert(rest_objects[i] == objects[i + 1]);
        assert(rest_nodes[i] == nodes[i + 1]);
    }
}

/// Behind `;` and a pair of predicate and object, again and again, and then
/// `.`, a statement has one more triple for each pair, all with its subject.
pub proof fn lemma_continued_by_predicates(
    graph: GraphView,
    source: SourceView,
    subject: NodeView,
    predicate: NodeView,
    triples: Seq<TripleView>,
    pairs: Seq<(TokenView, TokenView)>,
    nodes: Seq<(NodeView, NodeView)>,
)
    requires
        source.wf(),
        pairs_stand_for(graph, pairs, nodes),
        yields(source, Syntax::Turtle, predicate_list_tokens(pairs)),
    ensures
        continued(graph, source, subject, predicate, triples) == (
            Ok::<Seq<TripleView>, ErrorView>(triples + sharing_subject(subject, nodes)),
            behind(source, Syntax::Turtle, predicate_list_tokens(pairs).len()),
        ),
    decreases pairs.len(),
{
    let syntax = Syntax::Turtle;
    if pairs.len() == 0 {
        lemma_yields_first(source, syntax, predicate_list_tokens(pairs));
        reveal_with_fuel(behind, 2);
        assert(triples + sharing_subject(subject, nodes) =~= triples);
    } else {
        let head = seq![TokenView::PredicateListDelimiter, pairs[0].0, pairs[0].1];
        let tail = predicate_list_tokens(pairs.drop_first());
        lemma_yields_concat(source, syntax, head, tail);
        let s1 = source.get(syntax).1;
        let s2 = s1.get(syntax).1;
        let s3 = s2.get(syntax).1;
        lemma_yields_first(source, syntax, head);
        lemma_yields_first(s1, syntax, head.drop_first());
        lemma_yields_first(s2, syntax, head.drop_first().drop_first());
        reveal_with_fuel(behind, 4);
        assert(behind(source, syntax, 3) == s3);
        lemma_behind_wf(source, syntax, 3);
        lemma_behind_add(source, syntax, 3, tail.len());
        let triple = TripleView { subject, predicate: nodes[0].0, object: nodes[0].1 };
        let rest = nodes.drop_first();
        lemma_pairs_rest(graph, pairs, nodes);
        lemma_continued_by_predicates(
            graph,
            s3,
            subject,
            nodes[0].0,
            triples.push(triple),
            pairs.drop_first(),
            rest,
        );
        assert(triples.push(triple) + sharing_subject(subject, rest) =~= triples
            + sharing_subject(subject, nodes));
    }
}

/// Behind `,` and an object, again and again, and then `.`, a statement has
/// one more triple for each object, all with its subject and the predicate
/// before the list.
pub proof fn lemma_continued_by_objects(
    graph: GraphView,
    source: SourceView,
    subject: NodeView,
    predicate: NodeView,
    triples: Seq<TripleView>,
    objects: Seq<TokenView>,
    nodes: Seq<NodeView>,
)
    requires
        source.wf(),
        objects_stand_for(graph, objects, nodes),
        yields(source, Syntax::Turtle, object_list_tokens(objects)),
    ensures
        continued(graph, source, subject, predicate, triples) == (
            Ok::<Seq<TripleView>, ErrorView>(
                triples + sharing_subject_and_predicate(subject, predicate, nodes),
            ),
            behind(source, Syntax::Turtle, object_list_tokens(objects).len()),
        ),
    decreases objects.len(),
{
    let syntax = Syntax::Turtle;
    if objects.len() == 0 {
        lemma_yields_first(source, syntax, object_list_tokens(objects));
        reveal_with_fuel(behind, 2);
        assert(triples + sharing_subject_and_predicate(subject, predicate, nodes) =~= triples);
    } else {
        let head = seq![TokenView::ObjectListDelimiter, objects[0]];
        let tail = object_list_tokens(objects.drop_first());
        lemma_yields_concat(source, syntax, head, tail);
        let s1 = source.get(syntax).1;
        let s2 = s1.get(syntax).1;
        lemma_yields_first(source, syntax, head);
        lemma_yields_first(s1, syntax, head.drop_first());
        reveal_with_fuel(behind, 3);
        assert(behind(source, syntax, 2) == s2);
        lemma_behind_wf(source, syntax, 2);
        lemma_behind_add(source, syntax, 2, tail.len());
        let triple = TripleView { subject, predicate, object: nodes[0] };
        let rest = nodes.drop_first();
        lemma_objects_rest(graph, objects, nodes);
        lemma_continued_by_objects(
            graph,
            s2,
            subject,
            predicate,
            triples.push(triple),
            objects.drop_first(),
            rest,
        );
        assert(triples.push(triple) + sharing_subject_and_predicate(subject, predicate, rest)
            =~= triples + sharing_subject_and_predicate(subject, predicate, nodes));
    }
}

/// A statement that chains `m` pairs of predicate and object with `;` under
/// one subject has exactly `m` triples, one for each pair and in their
/// order, all with that subject.
pub proof fn lemma_predicate_list(
    graph: GraphView,
    source: SourceView,
    subject_token: TokenView,
    subject: NodeView,
    pairs: Seq<(TokenView, TokenView)>,
    nodes: Seq<(NodeView, NodeView)>,
)
    requires
        source.wf(),
        subject_node(graph, Ok(subject_token)) == Ok::<NodeView, ErrorView>(subject),
        pairs.len() > 0,
        pairs_stand_for(graph, pairs, nodes),
        yields(source, Syntax::Turtle, predicate_list_statement(subject_token, pairs)),
    ensures
        statement(graph, source) == (
            Ok::<Seq<TripleView>, ErrorView>(sharing_subject(subject, nodes)),
            behind(
                source,
                Syntax::Turtle,
                predicate_list_statement(subject_token, pairs).len(),
            ),
        ),
        sharing_subject(subject, nodes).len() == pairs.len(),
        source.peek(Syntax::Turtle).0 == Ok::<TokenView, ErrorView>(subject_token),
{
    let syntax = Syntax::Turtle;
    let head = seq![subject_token, pairs[0].0, pairs[0].1];
    let tail = predicate_list_tokens(pairs.drop_first());
    lemma_yields_concat(source, syntax, head, tail);
    let s1 = source.get(syntax).1;
    let s2 = s1.get(syntax).1;
    let s3 = s2.get(syntax).1;
    lemma_yields_first(source, syntax, head);
    lemma_yields_first(s1, syntax, head.drop_first());
    lemma_yields_first(s2, syntax, head.drop_first().drop_first());
    reveal_with_fuel(behind, 4);
    assert(behind(source, syntax, 3) == s3);
    lemma_behind_wf(source, syntax, 3);
    lemma_behind_add(source, syntax, 3, tail.len());
    let first = TripleView { subject, predicate: nodes[0].0, object: nodes[0].1 };
    let rest = nodes.drop_first();
    lemma_pairs_rest(graph, pairs, nodes);
    lemma_continued_by_predicates(
        graph,
        s3,
        subject,
        nodes[0].0,
        seq![first],
        pairs.drop_first(),
        rest,
    );
    assert(seq![first] + sharing_subject(subject, rest) =~= sharing_subject(subject, nodes));
}

/// A statement that chains `n` objects with `,` under one subject and one
/// predicate has exactly `n` triples, one for each object and in their
/// order, all with that subject and that predicate.
pub proof fn lemma_object_list(
    graph: GraphView,
    source: SourceView,
    subject_token: TokenView,
    subject: NodeView,
    predicate_token: TokenView,
    predicate: NodeView,
    objects: Seq<TokenView>,
    nodes: Seq<NodeView>,
)
    requires
        source.wf(),
        subject_node(graph, Ok(subject_token)) == Ok::<NodeView, ErrorView>(subject),
        predicate_node(graph, Ok(predicate_token)) == Ok::<NodeView, ErrorView>(predicate),
        objects.len() > 0,
        objects_stand_for(graph, objects, nodes),
        yields(
            source,
            Syntax::Turtle,
            object_list_statement(subject_token, predicate_token, objects),
        ),
    ensures
        statement(graph, source) == (
            Ok::<Seq<TripleView>, ErrorView>(
                sharing_subject_and_predicate(subject, predicate, nodes),
            ),
            behind(
                source,
                Syntax::Turtle,
                object_list_statement(subject_token, predicate_token, objects).len(),
            ),
        ),
        sharing_subject_and_predicate(subject, predicate, nodes).len() == objects.len(),
        source.peek(Syntax::Turtle).0 == Ok::<TokenView, ErrorView>(subject_token),
{
    let syntax = Syntax::Turtle;
    let head = seq![subject_token, predicate_token, objects[0]];
    let tail = object_list_tokens(objects.drop_first());
    lemma_yields_concat(source, syntax, head, tail);
    let s1 = source.get(syntax).1;
    let s2 = s1.get(syntax).1;
    let s3 = s2.get(syntax).1;
    lemma_yields_first(source, syntax, head);
    lemma_yields_first(s1, syntax, head.drop_first());
    lemma_yields_first(s2, syntax, head.drop_first().drop_first());
    reveal_with_fuel(behind, 4);
    assert(behind(source, syntax, 3) == s3);
    lemma_behind_wf(source, syntax, 3);
    lemma_behind_add(source, syntax, 3, tail.len());
    let first = TripleView { subject, predicate, object: nodes[0] };
    let rest = nodes.drop_first();
    lemma_objects_rest(graph, objects, nodes);
    lemma_continued_by_objects(
        graph,
        s3,
        subject,
        predicate,
        seq![first],
        objects.drop_first(),
        rest,
    );
    assert(seq![first] + sharing_subject_and_predicate(subject, predicate, rest)
        =~= sharing_subject_and_predicate(subject, predicate, nodes));
}

/// A document of one statement, which the end of the input follows, decodes
/// to the graph with the triples of that statement added.
pub proof fn lemma_document_of_one_statement(
    graph: GraphView,
    source: SourceView,
    triples: Seq<TripleView>,
)
    requires
        source.wf(),
        subject_node(graph, source.peek(Syntax::Turtle).0) is Ok,
        statement(graph, source).0 == Ok::<Seq<TripleView>, ErrorView>(triples),
        statement(graph, source).1.peek(Syntax::Turtle).0 == Ok::<TokenView, ErrorView>(
            TokenView::EndOfInput,
        ),
    ensures
        document(source, graph).0 == Ok::<GraphView, ErrorView>(graph.add_triples(triples)),
{
    lemma_statement_advances(graph, source);
    let behind_statement = statement(graph, source).1;
    assert(document(behind_statement, graph.add_triples(triples)).0 == Ok::<GraphView, ErrorView>(
        graph.add_triples(triples),
    ));
}

/// A document of one statement that chains `m` pairs of predicate and
/// object with `;` under one subject decodes to the graph with exactly these
/// `m` triples added, all with that subject.
pub proof fn lemma_predicate_list_document(
    graph: GraphView,
    source: SourceView,
    subject_token: TokenView,
    subject: NodeView,
    pairs: Seq<(TokenView, TokenView)>,
    nodes: Seq<(NodeView, NodeView)>,
)
    requires
        source.wf(),
        subject_node(graph, Ok(subject_token)) == Ok::<NodeView, ErrorView>(subject),
        pairs.len() > 0,
        pairs_stand_for(graph, pairs, nodes),
        yields(
            source,
            Syntax::Turtle,
            predicate_list_statement(subject_token, pairs) + seq![TokenView::EndOfInput],
        ),
    ensures
        document(source, graph).0 == Ok::<GraphView, ErrorView>(
            graph.add_triples(sharing_subject(subject, nodes)),
        ),
        sharing_subject(subject, nodes).len() == pairs.len(),
{
    let syntax = Syntax::Turtle;
    let tokens = predicate_list_statement(subject_token, pairs);
    let end = seq![TokenView::EndOfInput];
    lemma_yields_concat(source, syntax, tokens, end);
    lemma_predicate_list(graph, source, subject_token, subject, pairs, nodes);
    lemma_yields_first(behind(source, syntax, tokens.len()), syntax, end);
    lemma_document_of_one_statement(graph, source, sharing_subject(subject, nodes));
}

/// A document of one statement that chains `n` objects with `,` under one
/// subject and one predicate decodes to the graph with exactly these `n`
/// triples added, all with that subject and that predicate.
pub proof fn lemma_object_list_document(
    graph: GraphView,
    source: SourceView,
    subject_token: TokenView,
    subject: NodeView,
    predicate_token: TokenView,
    predicate: NodeView,
    objects: Seq<TokenView>,
    nodes: Seq<NodeView>,
)
    requires
        source.wf(),
        subject_node(graph, Ok(subject_token)) == Ok::<NodeView, ErrorView>(subject),
        predicate_node(graph, Ok(predicate_token)) == Ok::<NodeView, ErrorView>(predicate),
        objects.len() > 0,
        objects_stand_for(graph, objects, nodes),
        yields(
            source,
            Syntax::Turtle,
            object_list_statement(subject_token, predicate_token, objects) + seq![
                TokenView::EndOfInput,
            ],
        ),
    ensures
        document(source, graph).0 == Ok::<GraphView, ErrorView>(
            graph.add_triples(sharing_subject_and_predicate(subject, predicate, nodes)),
        ),
        sharing_subject_and_predicate(subject, predicate, nodes).len() == objects.len(),
{
    let syntax = Syntax::Turtle;
    let tokens = object_list_statement(subject_token, predicate_token, objects);
    let end = seq![TokenView::EndOfInput];
    lemma_yields_concat(source, syntax, tokens, end);
    lemma_object_list(
        graph,
        source,
        subject_token,
        subject,
        predicate_token,
        predicate,
        objects,
        nodes,
    );
    lemma_yields_first(behind(source, syntax, tokens.len()), syntax, end);
    lemma_document_of_one_statement(
        graph,
        source,
        sharing_subject_and_predicate(subject, predicate, nodes),
    );
}

/// Once a directive has declared a prefix, a qualified name with that prefix
/// stands for the declared URI, lengthened by the name's path; and a path
/// without `:` is appended as it is written.
pub proof fn lemma_declared_prefix_resolves(
    graph: GraphView,
    source: SourceView,
    prefix: Seq<char>,
    uri: Seq<char>,
    path: Seq<char>,
)
    requires
        source.wf(),
        source.peek(Syntax::Turtle).0 == Ok::<TokenView, ErrorView>(
            TokenView::PrefixDirective(prefix, uri),
        ),
    ensures
        document(source, graph) == document(
            source.get(Syntax::Turtle).1,
            graph.add_namespace(prefix, uri),
        ),
        resolved(graph.add_namespace(prefix, uri), prefix, path) == Ok::<NodeView, ErrorView>(
            NodeView::UriNode { uri: uri + slashed(path) },
        ),
        !path.contains(':') ==> slashed(path) == path,
{
    lemma_get_advances(source, Syntax::Turtle);
    if !path.contains(':') {
        assert(slashed(path) =~= path);
    }
}

/// A qualified name whose prefix was never declared stands for nothing, in
/// whatever place of a statement it is; where it begins a statement, the
/// whole decode fails with `UndefinedPrefix`.
pub proof fn lemma_undeclared_prefix_aborts(
    graph: GraphView,
    source: SourceView,
    prefix: Seq<char>,
    path: Seq<char>,
)
    requires
        source.wf(),
        !graph.namespaces.dom().contains(prefix),
    ensures
        resolved(graph, prefix, path) == Err::<NodeView, ErrorView>(undefined_prefix()),
        subject_node(graph, Ok(TokenView::QName(prefix, path))) == Err::<NodeView, ErrorView>(
            undefined_prefix(),
        ),
        predicate_node(graph, Ok(TokenView::QName(prefix, path))) == Err::<NodeView, ErrorView>(
            undefined_prefix(),
        ),
        object_node(graph, Ok(TokenView::QName(prefix, path))) == Err::<NodeView, ErrorView>(
            undefined_prefix(),
        ),
        source.peek(Syntax::Turtle).0 == Ok::<TokenView, ErrorView>(TokenView::QName(prefix, path))
            ==> document(source, graph).0 == Err::<GraphView, ErrorView>(
            undefined_prefix(),
        ),
{
}

/// A node that is read for a place of a statement is of a kind that the
/// place admits.
pub proof fn lemma_nodes_well_typed(graph: GraphView, handed: Result<TokenView, ErrorView>)
    ensures
        subject_node(graph, handed) matches Ok(node) ==> node.is_subject(),
        predicate_node(graph, handed) matches Ok(node) ==> node.is_predicate(),
        object_node(graph, handed) matches Ok(node) ==> node.is_object(),
{
}

/// The rest of a statement only adds triples, all of them well typed.
pub proof fn lemma_continued_extends(
    graph: GraphView,
    source: SourceView,
    subject: NodeView,
    predicate: NodeView,
    triples: Seq<TripleView>,
)
    requires
        source.wf(),
        subject.is_subject(),
        predicate.is_predicate(),
    ensures
        continued(graph, source, subject, predicate, triples).0 matches Ok(all) ==> extends_well(
            all,
            triples,
        ),
    decreases source.left(),
{
    let syntax = Syntax::Turtle;
    lemma_get_advances(source, syntax);
    let (handed, next) = source.get(syntax);
    lemma_get_advances(next, syntax);
    lemma_pair_advances(graph, next);
    assert(triples.take(triples.len() as int) =~= triples);
    match handed {
        Ok(TokenView::PredicateListDelimiter) => {
            if let (Ok((next_predicate, object)), rest) = predicate_with_object(graph, next) {
                lemma_nodes_well_typed(graph, next.get(syntax).0);
                lemma_nodes_well_typed(graph, next.get(syntax).1.get(syntax).0);
                let triple = TripleView { subject, predicate: next_predicate, object };
                lemma_continued_extends(
                    graph,
                    rest,
                    subject,
                    next_predicate,
                    triples.push(triple),
                );
                lemma_extends_after_push(
                    continued(graph, rest, subject, next_predicate, triples.push(triple)).0,
                    triples,
                    triple,
                );
            }
        },
        Ok(TokenView::ObjectListDelimiter) => {
            if let Ok(object) = object_node(graph, next.get(syntax).0) {
                lemma_nodes_well_typed(graph, next.get(syntax).0);
                let triple = TripleView { subject, predicate, object };
                lemma_continued_extends(
                    graph,
                    next.get(syntax).1,
                    subject,
                    predicate,
                    triples.push(triple),
                );
                lemma_extends_after_push(
                    continued(
                        graph,
                        next.get(syntax).1,
                        subject,
                        predicate,
                        triples.push(triple),
                    ).0,
                    triples,
                    triple,
                );
            }
        },
        _ => {},
    }
}

proof fn lemma_extends_after_push(
    all: Result<Seq<TripleView>, ErrorView>,
    triples: Seq<TripleView>,
    triple: TripleView,
)
    requires
        triple.wf(),
        all matches Ok(longer) ==> extends_well(longer, triples.push(triple)),
    ensures
        all matches Ok(longer) ==> extends_well(longer, triples),
{
    if let Ok(longer) = all {
        let grown = triples.push(triple);
        assert(longer.take(triples.len() as int) =~= longer.take(grown.len() as int).take(
            triples.len() as int,
        ));
        assert(grown.take(triples.len() as int) =~= triples);
        assert forall|i: int| triples.len() <= i < longer.len() implies (#[trigger] longer[i]).wf() by {
            if i == triples.len() {
                assert(longer[i] == longer.take(grown.len() as int)[i]);
            }
        }
    }
}

/// The triples of a statement that is read are well typed, and there is at
/// least one.
pub proof fn lemma_statement_well_typed(graph: GraphView, source: SourceView)
    requires
        source.wf(),
    ensures
        statement(graph, source).0 matches Ok(triples) ==> triples.len() > 0 && extends_well(
            triples,
            Seq::empty(),
        ),
{
    let syntax = Syntax::Turtle;
    lemma_get_advances(source, syntax);
    let (first, behind_subject) = source.get(syntax);
    lemma_pair_advances(graph, behind_subject);
    lemma_nodes_well_typed(graph, first);
    if let Ok(subject) = subject_node(graph, first) {
        if let (Ok((predicate, object)), rest) = predicate_with_object(graph, behind_subject) {
            lemma_nodes_well_typed(graph, behind_subject.get(syntax).0);
            lemma_nodes_well_typed(graph, behind_subject.get(syntax).1.get(syntax).0);
            let triple = TripleView { subject, predicate, object };
            lemma_continued_extends(graph, rest, subject, predicate, seq![triple]);
            assert(Seq::<TripleView>::empty().push(triple) =~= seq![triple]);
            lemma_extends_after_push(
                continued(graph, rest, subject, predicate, seq![triple]).0,
                Seq::empty(),
                triple,
            );
        }
    }
}

/// Decoding only adds to a graph: the triples that were there stay first,
/// those behind them are well typed, and no prefix that was declared is
/// forgotten.
pub proof fn lemma_document_extends(source: SourceView, graph: GraphView)
    requires
        source.wf(),
    ensures
        document(source, graph).0 matches Ok(decoded) ==> {
            &&& extends_well(decoded.triples, graph.triples)
            &&& graph.namespaces.dom().subset_of(decoded.namespaces.dom())
        },
    decreases source.left(),
{
    let syntax = Syntax::Turtle;
    lemma_get_advances(source, syntax);
    lemma_statement_advances(graph, source);
    lemma_statement_well_typed(graph, source);
    let behind_token = source.get(syntax).1;
    assert(graph.triples.take(graph.triples.len() as int) =~= graph.triples);
    match source.peek(syntax).0 {
        Ok(TokenView::EndOfInput) | Err(_) => {},
        Ok(TokenView::Comment(_)) => {
            lemma_document_extends(behind_token, graph);
        },
        Ok(TokenView::BaseDirective(uri)) => {
            lemma_document_extends(behind_token, graph.set_base_uri(uri));
        },
        Ok(TokenView::PrefixDirective(prefix, uri)) => {
            lemma_document_extends(behind_token, graph.add_namespace(prefix, uri));
        },
        Ok(TokenView::Uri(_)) | Ok(TokenView::BlankNode(_)) | Ok(TokenView::QName(_, _)) => {
            if let (Ok(triples), next) = statement(graph, source) {
                let grown = graph.add_triples(triples);
                lemma_document_extends(next, grown);
                if let Ok(decoded) = document(next, grown).0 {
                    assert(decoded.triples.take(graph.triples.len() as int)
                        =~= decoded.triples.take(grown.triples.len() as int).take(
                        graph.triples.len() as int,
                    ));
                    assert(grown.triples.take(graph.triples.len() as int) =~= graph.triples);
                    assert forall|i: int|
                        graph.triples.len() <= i < decoded.triples.len() implies (
                    #[trigger] decoded.triples[i]).wf() by {
                        if i < grown.triples.len() {
                            assert(decoded.triples[i] == decoded.triples.take(
                                grown.triples.len() as int,
                            )[i]);
                            assert(grown.triples[i] == triples[i - graph.triples.len()]);
                        }
                    }
                }
            }
        },
        Ok(_) => {},
    }
}

} // verus!
