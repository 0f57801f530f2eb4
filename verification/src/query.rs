//! The four forms of query: SELECT, ASK, CONSTRUCT and DESCRIBE.

use vstd::prelude::*;
use crate::dataset::pattern_answer;
use crate::dataset::DatasetView;
use crate::dataset::FloatArithmetic;
use crate::decode::term_decoded;
use crate::decode::decoded_triple_model;
use crate::decode::triple_decoded;
use crate::interpreter::plan_rows;
use crate::interpreter::plan_wf;
use crate::interpreter::witness;
use crate::joins::concat_all;
use crate::joins::pattern_value_wf;
use crate::lexical::random_uuid;
use crate::plan::PatternValue;
use crate::plan::PlanNode;
use crate::plan::TripleTemplate;
use crate::plan::TripleTemplateValue;
use crate::rdf::solution_model;
use crate::rdf::solutions_model;
use crate::rdf::triples_model;
use crate::rdf::variable_names;
use crate::rdf::Bindings;
use crate::rdf::QueryResult;
use crate::rdf::Term;
use crate::rdf::TermModel;
use crate::rdf::Triple;
use crate::rdf::TripleModel;
use crate::rdf::Variable;
use crate::rows::RowModel;
use crate::rows::TupleModel;
use crate::term::row_model;
use crate::term::rows_model;
use crate::term::EncodedQuad;
use crate::term::EncodedTerm;
use crate::term::EncodedTuple;
use crate::term::EvaluationError;
use crate::term::Row;
use crate::tuple::get_tuple_value;
use crate::tuple::tuple_value;
use crate::values::SimpleEvaluator;

verus! {

/// The mathematical form of a decoded row.
pub type SolutionModel = Result<Seq<Option<TermModel>>, EvaluationError>;

/// The mathematical form of a triple of a graph, or an error in its place.
pub type GraphItemModel = Result<TripleModel, EvaluationError>;

/// Tests whether a pattern position is usable.
fn check_pattern_value(selector: &PatternValue) -> (r: bool)
    ensures
        r == pattern_value_wf(*selector),
{
    match selector {
        PatternValue::Constant(_) => true,
        PatternValue::Variable(v) => *v < usize::MAX,
    }
}

/// Tests whether a plan can be run.
pub fn check_plan(node: &PlanNode) -> (r: bool)
    ensures
        r == plan_wf(*node),
    decreases node,
{
    match node {
        PlanNode::Init => true,
        PlanNode::StaticBindings { .. } => true,
        PlanNode::QuadPatternJoin { child, subject, predicate, object, graph_name } => {
            check_plan(child) && check_pattern_value(subject) && check_pattern_value(predicate)
                && check_pattern_value(object) && check_pattern_value(graph_name)
        },
        PlanNode::Join { left, right } => check_plan(left) && check_plan(right),
        PlanNode::LeftJoin { left, right, .. } => check_plan(left) && check_plan(right),
        PlanNode::Filter { child, .. } => check_plan(child),
        PlanNode::Union { entry, children } => {
            if !check_plan(entry) {
                return false;
            }
            let mut j: usize = 0;
            while j < children.len()
                invariant
                    j <= children.len(),
                    *node matches PlanNode::Union { children: c, .. } && c == children,
                    forall|k: int| 0 <= k < j ==> plan_wf(#[trigger] children@[k]),
                decreases children.len() - j,
            {
                if !check_plan(&children[j]) {
                    return false;
                }
                j = j + 1;
            }
            true
        },
        PlanNode::Extend { child, position, .. } => check_plan(child) && *position < usize::MAX,
        PlanNode::Sort { child, .. } => check_plan(child),
        PlanNode::HashDeduplicate { child } => check_plan(child),
        PlanNode::Skip { child, .. } => check_plan(child),
        PlanNode::Limit { child, .. } => check_plan(child),
        PlanNode::Project { child, .. } => check_plan(child),
    }
}

/// The row of `length` slots that binds nothing.
pub open spec fn unbound_tuple(length: nat) -> TupleModel {
    Seq::new(length, |i: int| None::<EncodedTerm>)
}

/// Every slot of `tuple` before place `k` that is bound decoded to a term.
pub open spec fn decoded_before<S: DatasetView, F: FloatArithmetic>(
    view: &S,
    floats: &F,
    tuple: TupleModel,
    k: int,
) -> bool {
    forall|j: int|
        0 <= j < k ==> ((#[trigger] tuple[j]) matches Some(term) ==> exists|t: TermModel|
            term_decoded(view, floats, term, Ok(t)))
}

/// What decoding a tuple gives: the terms of its bound slots decoded, in
/// their places, or the error of the first slot that did not decode, the
/// slots before it having decoded.
pub open spec fn solution_outcome<S: DatasetView, F: FloatArithmetic>(
    view: &S,
    floats: &F,
    tuple: TupleModel,
    r: SolutionModel,
) -> bool {
    match r {
        Ok(terms) => terms.len() == tuple.len() && forall|k: int|
            0 <= k < tuple.len() ==> match tuple[k] {
                Some(term) => (#[trigger] terms[k]) matches Some(t) && term_decoded(
                    view,
                    floats,
                    term,
                    Ok(t),
                ),
                None => terms[k] is None,
            },
        Err(error) => exists|k: int|
            0 <= k < tuple.len() && ((#[trigger] tuple[k]) matches Some(term) && term_decoded(
                view,
                floats,
                term,
                Err(error),
            )) && decoded_before(view, floats, tuple, k),
    }
}

/// What decoding a stream of rows may give: row by row, a tuple decoded
/// and an error unchanged.
pub open spec fn solutions_outcome<S: DatasetView, F: FloatArithmetic>(
    view: &S,
    floats: &F,
    rows: Seq<RowModel>,
    out: Seq<SolutionModel>,
) -> bool {
    &&& out.len() == rows.len()
    &&& forall|i: int|
        0 <= i < rows.len() ==> match rows[i] {
            Ok(tuple) => solution_outcome(view, floats, tuple, #[trigger] out[i]),
            Err(error) => out[i] == Err::<Seq<Option<TermModel>>, EvaluationError>(error),
        }
}

/// What a SELECT may give: the rows of the plan, run on the seed that
/// binds none of the variables, decoded.
pub open spec fn select_outcome<S: DatasetView, F: FloatArithmetic>(
    view: &S,
    floats: &F,
    plan: PlanNode,
    variables: Seq<Variable>,
    bindings: Bindings,
) -> bool {
    &&& variable_names(bindings.variables@) == variable_names(variables)
    &&& exists|rows: Seq<RowModel>| #[trigger]
        witness(rows) && plan_rows(view, floats, plan, unbound_tuple(variables.len()), rows)
            && solutions_outcome(view, floats, rows, solutions_model(bindings.rows@))
}

/// The answer of an ASK from the rows of its plan: true if the first row
/// is a tuple, false if there is no row, and the error if the first row is
/// one.
pub open spec fn ask_value(rows: Seq<RowModel>) -> Result<bool, EvaluationError> {
    if rows.len() == 0 {
        Ok(false)
    } else {
        match rows[0] {
            Ok(_) => Ok(true),
            Err(error) => Err(error),
        }
    }
}

/// The term of a position of a template for one row: its constant, what
/// its variable is bound to, or the blank node of its index among the
/// blank nodes made for the row.
pub open spec fn template_value(
    selector: TripleTemplateValue,
    tuple: TupleModel,
    nodes: Seq<u128>,
) -> Option<EncodedTerm> {
    match selector {
        TripleTemplateValue::Constant(term) => Some(term),
        TripleTemplateValue::Variable(v) => tuple_value(v as int, tuple),
        TripleTemplateValue::BlankNode(id) => if id < nodes.len() {
            Some(EncodedTerm::BlankNode(nodes[id as int]))
        } else {
            None
        },
    }
}

/// How many blank nodes a position of a template needs.
pub open spec fn nodes_needed_by(selector: TripleTemplateValue) -> nat {
    match selector {
        TripleTemplateValue::BlankNode(id) => (id + 1) as nat,
        _ => 0,
    }
}

/// How many blank nodes the templates need for a row: one more than the
/// largest index of a blank node in them.
pub open spec fn nodes_needed(templates: Seq<TripleTemplate>) -> nat
    decreases templates.len(),
{
    if templates.len() == 0 {
        0
    } else {
        let last = templates.last();
        larger(
            nodes_needed(templates.drop_last()),
            larger(
                nodes_needed_by(last.subject),
                larger(nodes_needed_by(last.predicate), nodes_needed_by(last.object)),
            ),
        )
    }
}

/// The larger of two numbers.
pub open spec fn larger(a: nat, b: nat) -> nat {
    if a < b {
        b
    } else {
        a
    }
}

/// What the templates may give for one tuple, from the last template to
/// the first: the decoded triple of each template whose three positions
/// have a term. A template with a position that has none gives nothing.
pub open spec fn construct_part<S: DatasetView, F: FloatArithmetic>(
    view: &S,
    floats: &F,
    templates: Seq<TripleTemplate>,
    tuple: TupleModel,
    nodes: Seq<u128>,
    out: Seq<GraphItemModel>,
) -> bool
    decreases templates.len(),
{
    if templates.len() == 0 {
        out.len() == 0
    } else {
        let last = templates.last();
        match (
            template_value(last.subject, tuple, nodes),
            template_value(last.predicate, tuple, nodes),
            template_value(last.object, tuple, nodes),
        ) {
            (Some(subject), Some(predicate), Some(object)) => out.len() > 0 && triple_decoded(
                view,
                floats,
                subject,
                predicate,
                object,
                out[0],
            ) && construct_part(view, floats, templates.drop_last(), tuple, nodes, out.skip(1)),
            _ => construct_part(view, floats, templates.drop_last(), tuple, nodes, out),
        }
    }
}

/// What the templates may give for one row: for a tuple its triples, with
/// blank nodes made for this row alone; for an error the error.
pub open spec fn construct_row_outcome<S: DatasetView, F: FloatArithmetic>(
    view: &S,
    floats: &F,
    templates: Seq<TripleTemplate>,
    row: RowModel,
    out: Seq<GraphItemModel>,
) -> bool {
    match row {
        Ok(tuple) => exists|nodes: Seq<u128>| #[trigger]
            witness(nodes) && nodes.len() == nodes_needed(templates) && construct_part(
                view,
                floats,
                templates,
                tuple,
                nodes,
                out,
            ),
        Err(error) => out == seq![Err::<TripleModel, EvaluationError>(error)],
    }
}

/// What a CONSTRUCT may give on the rows of its plan: for each row in
/// turn what the templates give for it.
pub open spec fn construct_outcome<S: DatasetView, F: FloatArithmetic>(
    view: &S,
    floats: &F,
    templates: Seq<TripleTemplate>,
    rows: Seq<RowModel>,
    out: Seq<GraphItemModel>,
) -> bool {
    exists|parts: Seq<Seq<GraphItemModel>>| #[trigger]
        witness(parts) && parts.len() == rows.len() && (forall|i: int|
            0 <= i < rows.len() ==> construct_row_outcome(
                view,
                floats,
                templates,
                rows[i],
                #[trigger] parts[i],
            )) && out == concat_all(parts)
}

/// What decoding the quads of an answer may give: quad by quad its triple
/// decoded, and an error of the answer unchanged.
pub open spec fn quads_outcome<S: DatasetView, F: FloatArithmetic>(
    view: &S,
    floats: &F,
    answer: Seq<Result<EncodedQuad, EvaluationError>>,
    out: Seq<GraphItemModel>,
) -> bool {
    &&& out.len() == answer.len()
    &&& forall|j: int|
        0 <= j < answer.len() ==> match answer[j] {
            Ok(quad) => triple_decoded(
                view,
                floats,
                quad.subject,
                quad.predicate,
                quad.object,
                #[trigger] out[j],
            ),
            Err(error) => out[j] == Err::<TripleModel, EvaluationError>(error),
        }
}

/// What a DESCRIBE may give for one tuple, from its last slot to its
/// first: for each term that the tuple binds, the triples of the quads of
/// the dataset that have the term as their subject, in any graph.
pub open spec fn describe_part<S: DatasetView, F: FloatArithmetic>(view: &S, floats: &F, tuple: TupleModel, out: Seq<GraphItemModel>) -> bool
    decreases tuple.len(),
{
    if tuple.len() == 0 {
        out.len() == 0
    } else {
        match tuple.last() {
            Some(term) => exists|
                answer: Seq<Result<EncodedQuad, EvaluationError>>,
                first: Seq<GraphItemModel>,
                rest: Seq<GraphItemModel>,
            |
                #![trigger witness(answer), witness(first), witness(rest)]
                witness(answer) && witness(first) && witness(rest) && pattern_answer(
                    view,
                    Some(term),
                    None,
                    None,
                    None,
                    answer,
                ) && quads_outcome(view, floats, answer, first) && describe_part(
                    view,
                    floats,
                    tuple.drop_last(),
                    rest,
                ) && out == first + rest,
            None => describe_part(view, floats, tuple.drop_last(), out),
        }
    }
}

/// What a DESCRIBE may give for one row: for a tuple its triples, for an
/// error the error.
pub open spec fn describe_row_outcome<S: DatasetView, F: FloatArithmetic>(
    view: &S,
    floats: &F,
    row: RowModel,
    out: Seq<GraphItemModel>,
) -> bool {
    match row {
        Ok(tuple) => describe_part(view, floats, tuple, out),
        Err(error) => out == seq![Err::<TripleModel, EvaluationError>(error)],
    }
}

/// What a DESCRIBE may give on the rows of its plan: for each row in turn
/// its triples. Triples are not deduplicated.
pub open spec fn describe_outcome<S: DatasetView, F: FloatArithmetic>(
    view: &S,
    floats: &F,
    rows: Seq<RowModel>,
    out: Seq<GraphItemModel>,
) -> bool {
    exists|parts: Seq<Seq<GraphItemModel>>| #[trigger]
        witness(parts) && parts.len() == rows.len() && (forall|i: int|
            0 <= i < rows.len() ==> describe_row_outcome(view, floats, rows[i], #[trigger] parts[i]))
            && out == concat_all(parts)
}

/// Adding an item to a graph adds its model to the graph's model.
proof fn lemma_triples_model_push(
    triples: Seq<Result<Triple, EvaluationError>>,
    item: Result<Triple, EvaluationError>,
)
    ensures
        triples_model(triples.push(item)) == triples_model(triples).push(
            decoded_triple_model(item),
        ),
{
    assert(triples_model(triples.push(item)) =~= triples_model(triples).push(
        decoded_triple_model(item),
    ));
}

/// The model of two graphs put together.
proof fn lemma_triples_model_add(
    a: Seq<Result<Triple, EvaluationError>>,
    b: Seq<Result<Triple, EvaluationError>>,
)
    ensures
        triples_model(a + b) == triples_model(a) + triples_model(b),
{
    assert(triples_model(a + b) =~= triples_model(a) + triples_model(b));
}

/// How many blank nodes a position of a template needs; none if the
/// number does not fit.
fn count_nodes_of(selector: &TripleTemplateValue) -> (r: Option<usize>)
    ensures
        r matches Some(n) ==> n == nodes_needed_by(*selector),
        r is None ==> nodes_needed_by(*selector) > usize::MAX,
{
    match selector {
        TripleTemplateValue::BlankNode(id) => if *id < usize::MAX {
            Some(*id + 1)
        } else {
            None
        },
        _ => Some(0),
    }
}

/// How many blank nodes the templates need for a row; none if the number
/// does not fit.
pub fn count_nodes(templates: &Vec<TripleTemplate>) -> (r: Option<usize>)
    ensures
        r matches Some(n) ==> n == nodes_needed(templates@),
        r is None ==> nodes_needed(templates@) > usize::MAX,
{
    let mut count: usize = 0;
    let mut i: usize = 0;
    assert(templates@.take(0) =~= Seq::empty());
    while i < templates.len()
        invariant
            i <= templates.len(),
            count == nodes_needed(templates@.take(i as int)),
        decreases templates.len() - i,
    {
        proof {
            assert(templates@.take(i + 1).drop_last() =~= templates@.take(i as int));
            assert(templates@.take(i + 1).last() == templates@[i as int]);
            lemma_nodes_needed_grows(templates@, i + 1);
        }
        let s = count_nodes_of(&templates[i].subject);
        let p = count_nodes_of(&templates[i].predicate);
        let o = count_nodes_of(&templates[i].object);
        match (s, p, o) {
            (Some(s), Some(p), Some(o)) => {
                if s > count {
                    count = s;
                }
                if p > count {
                    count = p;
                }
                if o > count {
                    count = o;
                }
            },
            _ => {
                return None;
            },
        }
        i = i + 1;
    }
    assert(templates@.take(templates.len() as int) =~= templates@);
    Some(count)
}

/// A prefix of the templates needs no more blank nodes than all of them.
proof fn lemma_nodes_needed_grows(templates: Seq<TripleTemplate>, n: int)
    requires
        0 <= n <= templates.len(),
    ensures
        nodes_needed(templates.take(n)) <= nodes_needed(templates),
    decreases templates.len() - n,
{
    if n == templates.len() {
        assert(templates.take(n) =~= templates);
    } else {
        lemma_nodes_needed_grows(templates, n + 1);
        assert(templates.take(n + 1).drop_last() =~= templates.take(n));
    }
}

/// New random blank nodes, `count` of them.
pub fn fresh_nodes(count: usize) -> (nodes: Vec<u128>)
    ensures
        nodes@.len() == count,
{
    let mut nodes: Vec<u128> = Vec::new();
    while nodes.len() < count
        invariant
            nodes@.len() <= count,
        decreases count - nodes.len(),
    {
        nodes.push(random_uuid());
    }
    nodes
}

/// The term of a position of a template for one row, with the blank nodes
/// made for the row in `bnodes`.
pub fn get_triple_template_value(
    selector: &TripleTemplateValue,
    tuple: &EncodedTuple,
    bnodes: &Vec<u128>,
) -> (value: Option<EncodedTerm>)
    ensures
        value == template_value(*selector, tuple@, bnodes@),
{
    match selector {
        TripleTemplateValue::Constant(term) => Some(*term),
        TripleTemplateValue::Variable(v) => get_tuple_value(*v, tuple),
        TripleTemplateValue::BlankNode(id) => if *id < bnodes.len() {
            Some(EncodedTerm::BlankNode(bnodes[*id]))
        } else {
            None
        },
    }
}

impl<S: DatasetView, F: FloatArithmetic> SimpleEvaluator<S, F> {
    /// Decodes a tuple.
    pub fn decode_tuple(&self, tuple: &EncodedTuple) -> (r: Result<
        Vec<Option<Term>>,
        EvaluationError,
    >)
        ensures
            solution_outcome(&self.dataset, &self.floats, tuple@, solution_model(r)),
    {
        let mut terms: Vec<Option<Term>> = Vec::new();
        let mut k: usize = 0;
        while k < tuple.len()
            invariant
                k <= tuple.len(),
                terms@.len() == k,
                forall|j: int|
                    0 <= j < k ==> match tuple@[j] {
                        Some(term) => (#[trigger] terms@[j]) matches Some(t) && term_decoded(
                            &self.dataset,
                            &self.floats,
                            term,
                            Ok(t@),
                        ),
                        None => terms@[j] is None,
                    },
            decreases tuple.len() - k,
        {
            match tuple[k] {
                Some(term) => match self.decode_term(term) {
                    Ok(decoded) => {
                        terms.push(Some(decoded));
                    },
                    Err(error) => {
                        assert(tuple@[k as int] matches Some(term) && term_decoded(
                            &self.dataset,
                            &self.floats,
                            term,
                            Err(error),
                        ));
                        assert forall|j: int| 0 <= j < k implies ((#[trigger] tuple@[j]) matches Some(
                            term,
                        ) ==> exists|t: TermModel|
                            term_decoded(&self.dataset, &self.floats, term, Ok(t))) by {
                            if let Some(term) = tuple@[j] {
                                let t = terms@[j]->0@;
                                assert(term_decoded(&self.dataset, &self.floats, term, Ok(t)));
                            }
                        }
                        return Err(error);
                    },
                },
                None => {
                    terms.push(None);
                },
            }
            k = k + 1;
        }
        proof {
            let model = solution_model(Ok(terms))->Ok_0;
            assert forall|j: int| 0 <= j < tuple@.len() implies match tuple@[j] {
                Some(term) => (#[trigger] model[j]) matches Some(t) && term_decoded(
                    &self.dataset,
                    &self.floats,
                    term,
                    Ok(t),
                ),
                None => model[j] is None,
            } by {
                assert(terms@[j] is Some ==> model[j] == Some(terms@[j]->0@));
            }
        }
        Ok(terms)
    }

    /// Decodes the rows of a plan for the variables of a SELECT.
    pub fn decode_bindings(&self, rows: &Vec<Row>, variables: &Vec<Variable>) -> (bindings: Bindings)
        ensures
            variable_names(bindings.variables@) == variable_names(variables@),
            solutions_outcome(&self.dataset, &self.floats, rows_model(rows@), solutions_model(bindings.rows@)),
    {
        let mut names: Vec<Variable> = Vec::new();
        let mut v: usize = 0;
        while v < variables.len()
            invariant
                v <= variables.len(),
                names@.len() == v,
                forall|j: int| 0 <= j < v ==> (#[trigger] names@[j])@ == variables@[j]@,
            decreases variables.len() - v,
        {
            names.push(Variable { name: variables[v].name.clone() });
            v = v + 1;
        }
        assert(variable_names(names@) =~= variable_names(variables@));
        let mut out: Vec<Result<Vec<Option<Term>>, EvaluationError>> = Vec::new();
        let mut i: usize = 0;
        while i < rows.len()
            invariant
                i <= rows.len(),
                out@.len() == i,
                forall|j: int|
                    0 <= j < i ==> match rows_model(rows@)[j] {
                        Ok(tuple) => solution_outcome(
                            &self.dataset,
                            &self.floats,
                            tuple,
                            solution_model(#[trigger] out@[j]),
                        ),
                        Err(error) => solution_model(out@[j]) == Err::<
                            Seq<Option<TermModel>>,
                            EvaluationError,
                        >(error),
                    },
            decreases rows.len() - i,
        {
            let row = match &rows[i] {
                Ok(tuple) => self.decode_tuple(tuple),
                Err(error) => Err(*error),
            };
            out.push(row);
            i = i + 1;
        }
        proof {
            let model = solutions_model(out@);
            assert forall|j: int| 0 <= j < rows_model(rows@).len() implies match rows_model(
                rows@,
            )[j] {
                Ok(tuple) => solution_outcome(&self.dataset, &self.floats, tuple, #[trigger] model[j]),
                Err(error) => model[j] == Err::<Seq<Option<TermModel>>, EvaluationError>(error),
            } by {
                assert(model[j] == solution_model(out@[j]));
            }
        }
        Bindings { variables: names, rows: out }
    }

    /// The solutions of a SELECT. A plan that writes a slot that no row
    /// can have is refused.
    pub fn evaluate_select_plan(&self, plan: &PlanNode, variables: &Vec<Variable>) -> (r: Result<
        QueryResult,
        EvaluationError,
    >)
        ensures
            !plan_wf(*plan) ==> r matches Err(EvaluationError::InvalidPlan),
            plan_wf(*plan) ==> (r matches Ok(QueryResult::Bindings(bindings)) && select_outcome(
                &self.dataset,
                &self.floats,
                *plan,
                variables@,
                bindings,
            )),
    {
        if !check_plan(plan) {
            return Err(EvaluationError::InvalidPlan);
        }
        let mut seed: EncodedTuple = Vec::new();
        while seed.len() < variables.len()
            invariant
                seed@.len() <= variables@.len(),
                forall|j: int| 0 <= j < seed@.len() ==> seed@[j] is None,
            decreases variables.len() - seed.len(),
        {
            seed.push(None);
        }
        assert(seed@ =~= unbound_tuple(variables@.len()));
        let rows = self.eval_plan(plan, &seed);
        assert(witness(rows_model(rows@)));
        Ok(QueryResult::Bindings(self.decode_bindings(&rows, variables)))
    }

    /// The answer of an ASK. A plan that writes a slot that no row can
    /// have is refused.
    pub fn evaluate_ask_plan(&self, plan: &PlanNode) -> (r: Result<QueryResult, EvaluationError>)
        ensures
            !plan_wf(*plan) ==> r matches Err(EvaluationError::InvalidPlan),
            plan_wf(*plan) ==> exists|rows: Seq<RowModel>| #[trigger]
                witness(rows) && plan_rows(
                    &self.dataset,
                    &self.floats,
                    *plan,
                    Seq::<Option<EncodedTerm>>::empty(),
                    rows,
                ) && match ask_value(rows) {
                    Ok(answer) => r matches Ok(QueryResult::Boolean(b)) && b == answer,
                    Err(error) => r matches Err(e) && e == error,
                },
    {
        if !check_plan(plan) {
            return Err(EvaluationError::InvalidPlan);
        }
        let seed: EncodedTuple = Vec::new();
        let rows = self.eval_plan(plan, &seed);
        assert(witness(rows_model(rows@)));
        assert(seed@ =~= Seq::<Option<EncodedTerm>>::empty());
        if rows.len() == 0 {
            Ok(QueryResult::Boolean(false))
        } else {
            match &rows[0] {
                Ok(_) => Ok(QueryResult::Boolean(true)),
                Err(error) => {
                    assert(rows_model(rows@)[0] == Err::<TupleModel, EvaluationError>(*error));
                    Err(*error)
                },
            }
        }
    }

    /// The triples of the first `upto` templates for one tuple, from the
    /// last of them to the first.
    fn construct_tuple(
        &self,
        templates: &Vec<TripleTemplate>,
        upto: usize,
        tuple: &EncodedTuple,
        nodes: &Vec<u128>,
    ) -> (out: Vec<Result<Triple, EvaluationError>>)
        requires
            upto <= templates.len(),
        ensures
            construct_part(
                &self.dataset,
                &self.floats,
                templates@.take(upto as int),
                tuple@,
                nodes@,
                triples_model(out@),
            ),
        decreases upto,
    {
        if upto == 0 {
            let out: Vec<Result<Triple, EvaluationError>> = Vec::new();
            assert(triples_model(out@) =~= Seq::empty());
            return out;
        }
        let template = &templates[upto - 1];
        let mut rest = self.construct_tuple(templates, upto - 1, tuple, nodes);
        proof {
            assert(templates@.take(upto as int).drop_last() =~= templates@.take(upto - 1));
            assert(templates@.take(upto as int).last() == *template);
        }
        match (
            get_triple_template_value(&template.subject, tuple, nodes),
            get_triple_template_value(&template.predicate, tuple, nodes),
            get_triple_template_value(&template.object, tuple, nodes),
        ) {
            (Some(subject), Some(predicate), Some(object)) => {
                let mut out: Vec<Result<Triple, EvaluationError>> = Vec::new();
                let item = self.decode_triple(subject, predicate, object);
                let ghost first = decoded_triple_model(item);
                let ghost tail = triples_model(rest@);
                out.push(item);
                proof {
                    lemma_triples_model_push(Seq::empty(), item);
                    lemma_triples_model_add(out@, rest@);
                }
                out.append(&mut rest);
                proof {
                    assert(triples_model(out@) =~= seq![first] + tail);
                    assert(triples_model(out@).skip(1) =~= tail);
                }
                out
            },
            _ => rest,
        }
    }

    /// The triples of the templates for one row.
    pub fn construct_row(&self, templates: &Vec<TripleTemplate>, count: usize, row: &Row) -> (out:
        Vec<Result<Triple, EvaluationError>>)
        requires
            count == nodes_needed(templates@),
        ensures
            construct_row_outcome(
                &self.dataset,
                &self.floats,
                templates@,
                row_model(*row),
                triples_model(out@),
            ),
    {
        match row {
            Ok(tuple) => {
                let nodes = fresh_nodes(count);
                assert(witness(nodes@));
                assert(templates@.take(templates.len() as int) =~= templates@);
                self.construct_tuple(templates, templates.len(), tuple, &nodes)
            },
            Err(error) => {
                let mut out: Vec<Result<Triple, EvaluationError>> = Vec::new();
                out.push(Err(*error));
                assert(triples_model(out@) =~= seq![
                    Err::<TripleModel, EvaluationError>(*error),
                ]);
                out
            },
        }
    }

    /// The graph of a CONSTRUCT. A plan that writes a slot that no row can
    /// have is refused, and so are templates with a blank node whose
    /// index is the largest number.
    pub fn evaluate_construct_plan(&self, plan: &PlanNode, construct: &Vec<TripleTemplate>) -> (r:
        Result<QueryResult, EvaluationError>)
        ensures
            !plan_wf(*plan) || nodes_needed(construct@) > usize::MAX ==> r matches Err(
                EvaluationError::InvalidPlan,
            ),
            plan_wf(*plan) && nodes_needed(construct@) <= usize::MAX ==> (r matches Ok(
                QueryResult::Graph(triples),
            ) && exists|rows: Seq<RowModel>| #[trigger]
                witness(rows) && plan_rows(
                    &self.dataset,
                    &self.floats,
                    *plan,
                    Seq::<Option<EncodedTerm>>::empty(),
                    rows,
                ) && construct_outcome(&self.dataset, &self.floats, construct@, rows, triples_model(triples@))),
    {
        if !check_plan(plan) {
            return Err(EvaluationError::InvalidPlan);
        }
        let count = match count_nodes(construct) {
            Some(count) => count,
            None => {
                return Err(EvaluationError::InvalidPlan);
            },
        };
        let seed: EncodedTuple = Vec::new();
        let rows = self.eval_plan(plan, &seed);
        assert(witness(rows_model(rows@)));
        assert(seed@ =~= Seq::<Option<EncodedTerm>>::empty());
        let ghost all = rows_model(rows@);
        let ghost mut parts: Seq<Seq<GraphItemModel>> = Seq::empty();
        let mut out: Vec<Result<Triple, EvaluationError>> = Vec::new();
        let mut i: usize = 0;
        assert(triples_model(out@) =~= concat_all(parts));
        while i < rows.len()
            invariant
                i <= rows.len(),
                count == nodes_needed(construct@),
                all == rows_model(rows@),
                parts.len() == i,
                forall|k: int|
                    0 <= k < i ==> construct_row_outcome(
                        &self.dataset,
                        &self.floats,
                        construct@,
                        all[k],
                        #[trigger] parts[k],
                    ),
                triples_model(out@) == concat_all(parts),
            decreases rows.len() - i,
        {
            let mut part = self.construct_row(construct, count, &rows[i]);
            proof {
                let before = parts;
                parts = parts.push(triples_model(part@));
                assert(parts.drop_last() =~= before);
                lemma_triples_model_add(out@, part@);
            }
            out.append(&mut part);
            i = i + 1;
        }
        assert(witness(parts));
        Ok(QueryResult::Graph(out))
    }

    /// The decoded triples of the quads of an answer.
    fn decode_quads(&self, answer: &Vec<Result<EncodedQuad, EvaluationError>>) -> (out: Vec<
        Result<Triple, EvaluationError>,
    >)
        ensures
            quads_outcome(&self.dataset, &self.floats, answer@, triples_model(out@)),
    {
        let mut out: Vec<Result<Triple, EvaluationError>> = Vec::new();
        let mut j: usize = 0;
        while j < answer.len()
            invariant
                j <= answer.len(),
                out@.len() == j,
                forall|k: int|
                    0 <= k < j ==> match answer@[k] {
                        Ok(quad) => triple_decoded(
                            &self.dataset,
                            &self.floats,
                            quad.subject,
                            quad.predicate,
                            quad.object,
                            decoded_triple_model(#[trigger] out@[k]),
                        ),
                        Err(error) => decoded_triple_model(out@[k]) == Err::<
                            TripleModel,
                            EvaluationError,
                        >(error),
                    },
            decreases answer.len() - j,
        {
            let item = match &answer[j] {
                Ok(quad) => self.decode_triple(quad.subject, quad.predicate, quad.object),
                Err(error) => Err(*error),
            };
            out.push(item);
            j = j + 1;
        }
        proof {
            let model = triples_model(out@);
            assert forall|k: int| 0 <= k < answer@.len() implies match answer@[k] {
                Ok(quad) => triple_decoded(
                    &self.dataset,
                    &self.floats,
                    quad.subject,
                    quad.predicate,
                    quad.object,
                    #[trigger] model[k],
                ),
                Err(error) => model[k] == Err::<TripleModel, EvaluationError>(error),
            } by {
                assert(model[k] == decoded_triple_model(out@[k]));
            }
        }
        out
    }

    /// The triples of a DESCRIBE for the first `upto` slots of a tuple,
    /// from the last of them to the first.
    fn describe_tuple(&self, tuple: &EncodedTuple, upto: usize) -> (out: Vec<
        Result<Triple, EvaluationError>,
    >)
        requires
            upto <= tuple.len(),
        ensures
            describe_part(&self.dataset, &self.floats, tuple@.take(upto as int), triples_model(out@)),
            witness(triples_model(out@)),
        decreases upto,
    {
        if upto == 0 {
            let out: Vec<Result<Triple, EvaluationError>> = Vec::new();
            assert(triples_model(out@) =~= Seq::empty());
            return out;
        }
        let mut rest = self.describe_tuple(tuple, upto - 1);
        proof {
            assert(tuple@.take(upto as int).drop_last() =~= tuple@.take(upto - 1));
            assert(tuple@.take(upto as int).last() == tuple@[upto - 1]);
        }
        match tuple[upto - 1] {
            Some(subject) => {
                let answer = self.dataset.quads_for_pattern(Some(subject), None, None, None);
                let mut out = self.decode_quads(&answer);
                proof {
                    assert(witness(answer@));
                    assert(witness(triples_model(out@)));
                    lemma_triples_model_add(out@, rest@);
                }
                out.append(&mut rest);
                out
            },
            None => rest,
        }
    }

    /// The triples of a DESCRIBE for one row.
    pub fn describe_row(&self, row: &Row) -> (out: Vec<Result<Triple, EvaluationError>>)
        ensures
            describe_row_outcome(&self.dataset, &self.floats, row_model(*row), triples_model(out@)),
    {
        match row {
            Ok(tuple) => {
                assert(tuple@.take(tuple.len() as int) =~= tuple@);
                self.describe_tuple(tuple, tuple.len())
            },
            Err(error) => {
                let mut out: Vec<Result<Triple, EvaluationError>> = Vec::new();
                out.push(Err(*error));
                assert(triples_model(out@) =~= seq![
                    Err::<TripleModel, EvaluationError>(*error),
                ]);
                out
            },
        }
    }

    /// The graph of a DESCRIBE. A plan that writes a slot that no row can
    /// have is refused.
    pub fn evaluate_describe_plan(&self, plan: &PlanNode) -> (r: Result<
        QueryResult,
        EvaluationError,
    >)
        ensures
            !plan_wf(*plan) ==> r matches Err(EvaluationError::InvalidPlan),
            plan_wf(*plan) ==> (r matches Ok(QueryResult::Graph(triples)) && exists|
                rows: Seq<RowModel>,
            | #[trigger]
                witness(rows) && plan_rows(
                    &self.dataset,
                    &self.floats,
                    *plan,
                    Seq::<Option<EncodedTerm>>::empty(),
                    rows,
                ) && describe_outcome(&self.dataset, &self.floats, rows, triples_model(triples@))),
    {
        if !check_plan(plan) {
            return Err(EvaluationError::InvalidPlan);
        }
        let seed: EncodedTuple = Vec::new();
        let rows = self.eval_plan(plan, &seed);
        assert(witness(rows_model(rows@)));
        assert(seed@ =~= Seq::<Option<EncodedTerm>>::empty());
        let ghost all = rows_model(rows@);
        let ghost mut parts: Seq<Seq<GraphItemModel>> = Seq::empty();
        let mut out: Vec<Result<Triple, EvaluationError>> = Vec::new();
        let mut i: usize = 0;
        assert(triples_model(out@) =~= concat_all(parts));
        while i < rows.len()
            invariant
                i <= rows.len(),
                all == rows_model(rows@),
                parts.len() == i,
                forall|k: int|
                    0 <= k < i ==> describe_row_outcome(
                        &self.dataset,
                        &self.floats,
                        all[k],
                        #[trigger] parts[k],
                    ),
                triples_model(out@) == concat_all(parts),
            decreases rows.len() - i,
        {
            let mut part = self.describe_row(&rows[i]);
            proof {
                let before = parts;
                parts = parts.push(triples_model(part@));
                assert(parts.drop_last() =~= before);
                lemma_triples_model_add(out@, part@);
            }
            out.append(&mut part);
            i = i + 1;
        }
        assert(witness(parts));
        Ok(QueryResult::Graph(out))
    }
}

} // verus!
