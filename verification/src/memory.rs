//! A dataset held in memory, with a dictionary that is closed while the
//! dataset is read.

use vstd::prelude::*;
use crate::dataset::keeps_empty_text;
use crate::dataset::quad_matches;
use crate::dataset::DatasetView;
use crate::lexical::text_is;
use crate::rdf::XSD_BOOLEAN;
use crate::rdf::XSD_DATE_TIME;
use crate::rdf::XSD_DECIMAL;
use crate::rdf::XSD_DOUBLE;
use crate::rdf::XSD_FLOAT;
use crate::rdf::XSD_INTEGER;
use crate::rdf::XSD_STRING;
use crate::term::EncodedQuad;
use crate::term::EncodedTerm;
use crate::term::EvaluationError;

verus! {

/// The IRI of `rdf:langString`.
pub const RDF_LANG_STRING: &'static str = "http://www.w3.org/1999/02/22-rdf-syntax-ns#langString";

/// The code of the failure of a lookup of an id that names no text.
pub const UNKNOWN_ID: u64 = 1;

/// The code of the failure to intern a text that the dictionary lacks
/// while the dataset is read.
pub const CLOSED_DICTIONARY: u64 = 2;

/// A dataset in memory. The id of a text is its place in `strings`.
///
/// While it is read through `DatasetView` its dictionary is closed: a
/// text that it holds keeps its id, and a text that it lacks is not
/// interned, so an expression that makes a new text gives an error. Texts
/// are added between queries, with `intern`.
pub struct MemoryDataset {
    pub strings: Vec<String>,
    pub quads: Vec<EncodedQuad>,
}

/// The quads among `quads` that fit a pattern, in their order.
pub open spec fn matching_quads(
    quads: Seq<EncodedQuad>,
    subject: Option<EncodedTerm>,
    predicate: Option<EncodedTerm>,
    object: Option<EncodedTerm>,
    graph_name: Option<EncodedTerm>,
) -> Seq<Result<EncodedQuad, EvaluationError>>
    decreases quads.len(),
{
    if quads.len() == 0 {
        Seq::empty()
    } else {
        let before = matching_quads(quads.drop_last(), subject, predicate, object, graph_name);
        if quad_matches(subject, predicate, object, graph_name, quads.last()) {
            before.push(Ok(quads.last()))
        } else {
            before
        }
    }
}

/// Whether a term fits a position of a pattern.
fn position_fits(pattern: Option<EncodedTerm>, term: EncodedTerm) -> (r: bool)
    ensures
        r == (pattern matches Some(wanted) ==> term == wanted),
{
    match pattern {
        Some(wanted) => wanted == term,
        None => true,
    }
}

impl MemoryDataset {
    /// The id of `text` among the first `upto` texts, if it is there.
    fn find(&self, text: &str, upto: usize) -> (r: Option<usize>)
        requires
            upto <= self.strings.len(),
        ensures
            r matches Some(i) ==> i < upto && self.strings@[i as int]@ == text@,
            r is None ==> forall|i: int| 0 <= i < upto ==> self.strings@[i]@ != text@,
    {
        let mut i: usize = 0;
        while i < upto
            invariant
                i <= upto <= self.strings.len(),
                forall|j: int| 0 <= j < i ==> self.strings@[j]@ != text@,
            decreases upto - i,
        {
            if text_is(self.strings[i].as_str(), text) {
                return Some(i);
            }
            i = i + 1;
        }
        None
    }

    /// The dataset without quads, whose dictionary holds the empty text
    /// and the IRIs of the datatypes under the ids that are theirs.
    pub fn new() -> (dataset: Self)
        ensures
            dataset.quads@.len() == 0,
            dataset.strings@.len() == 9,
            dataset.text(crate::term::EMPTY_STRING_ID) == Some(Seq::<char>::empty()),
            dataset.text(crate::term::RDF_LANG_STRING_ID) == Some(RDF_LANG_STRING@),
            dataset.text(crate::term::XSD_STRING_ID) == Some(XSD_STRING@),
            dataset.text(crate::term::XSD_BOOLEAN_ID) == Some(XSD_BOOLEAN@),
            dataset.text(crate::term::XSD_FLOAT_ID) == Some(XSD_FLOAT@),
            dataset.text(crate::term::XSD_DOUBLE_ID) == Some(XSD_DOUBLE@),
            dataset.text(crate::term::XSD_INTEGER_ID) == Some(XSD_INTEGER@),
            dataset.text(crate::term::XSD_DECIMAL_ID) == Some(XSD_DECIMAL@),
            dataset.text(crate::term::XSD_DATE_TIME_ID) == Some(XSD_DATE_TIME@),
            keeps_empty_text(&dataset),
    {
        let mut strings: Vec<String> = Vec::new();
        strings.push("".to_owned());
        strings.push(RDF_LANG_STRING.to_owned());
        strings.push(XSD_STRING.to_owned());
        strings.push(XSD_BOOLEAN.to_owned());
        strings.push(XSD_FLOAT.to_owned());
        strings.push(XSD_DOUBLE.to_owned());
        strings.push(XSD_INTEGER.to_owned());
        strings.push(XSD_DECIMAL.to_owned());
        strings.push(XSD_DATE_TIME.to_owned());
        proof {
            reveal_strlit("");
            reveal_strlit("http://www.w3.org/1999/02/22-rdf-syntax-ns#langString");
            reveal_strlit("http://www.w3.org/2001/XMLSchema#string");
            reveal_strlit("http://www.w3.org/2001/XMLSchema#boolean");
            reveal_strlit("http://www.w3.org/2001/XMLSchema#float");
            reveal_strlit("http://www.w3.org/2001/XMLSchema#double");
            reveal_strlit("http://www.w3.org/2001/XMLSchema#integer");
            reveal_strlit("http://www.w3.org/2001/XMLSchema#decimal");
            reveal_strlit("http://www.w3.org/2001/XMLSchema#dateTime");
            assert(strings@[0]@ =~= Seq::<char>::empty());
        }
        let dataset = MemoryDataset { strings, quads: Vec::new() };
        assert forall|id: u64| #![trigger dataset.text(id)] id != crate::term::EMPTY_STRING_ID
            implies dataset.text(id) != Some(Seq::<char>::empty()) by {
            if id < 9 {
                assert(dataset.strings@[id as int]@.len() > 0);
            }
        }
        dataset
    }

    /// The id of `text`, which is added to the dictionary if it is not in
    /// it. Every text keeps its id.
    pub fn intern(&mut self, text: &str) -> (id: u64)
        requires
            old(self).strings@.len() < u64::MAX,
        ensures
            final(self).text(id) == Some(text@),
            forall|other: u64|
                old(self).text(other) is Some ==> final(self).text(other) == old(self).text(other),
            final(self).quads == old(self).quads,
            old(self).strings@.len() <= final(self).strings@.len() <= old(self).strings@.len() + 1,
            keeps_empty_text(old(self)) ==> keeps_empty_text(final(self)),
    {
        match self.find(text, self.strings.len()) {
            Some(i) => i as u64,
            None => {
                proof {
                    if keeps_empty_text(&*old(self)) {
                        assert(old(self).text(crate::term::EMPTY_STRING_ID) == Some(
                            Seq::<char>::empty(),
                        ));
                        assert(old(self).strings@[0]@ != text@);
                        if text@.len() == 0 {
                            assert(text@ =~= Seq::<char>::empty());
                        }
                        assert(text@.len() > 0);
                    }
                }
                self.strings.push(text.to_owned());
                proof {
                    if keeps_empty_text(&*old(self)) {
                        assert forall|id: u64|
                            #![trigger self.text(id)]
                            self.text(id) == Some(Seq::<char>::empty()) <==> id
                                == crate::term::EMPTY_STRING_ID by {
                            if id < old(self).strings@.len() {
                                assert(self.text(id) == old(self).text(id));
                            }
                        }
                    }
                }
                (self.strings.len() - 1) as u64
            },
        }
    }

    /// Adds a quad to the dataset.
    pub fn insert(&mut self, quad: EncodedQuad)
        ensures
            final(self).strings == old(self).strings,
            final(self).quads@ == old(self).quads@.push(quad),
            final(self).holds(quad),
            keeps_empty_text(old(self)) ==> keeps_empty_text(final(self)),
    {
        self.quads.push(quad);
        proof {
            if keeps_empty_text(&*old(self)) {
                assert forall|id: u64|
                    #![trigger self.text(id)]
                    self.text(id) == Some(Seq::<char>::empty()) <==> id
                        == crate::term::EMPTY_STRING_ID by {
                    assert(self.text(id) == old(self).text(id));
                }
            }
        }
        assert(self.quads@[self.quads@.len() - 1] == quad);
    }
}

impl DatasetView for MemoryDataset {
    open spec fn text(&self, id: u64) -> Option<Seq<char>> {
        if id < self.strings@.len() {
            Some(self.strings@[id as int]@)
        } else {
            None
        }
    }

    open spec fn holds(&self, quad: EncodedQuad) -> bool {
        self.quads@.contains(quad)
    }

    fn quads_for_pattern(
        &self,
        subject: Option<EncodedTerm>,
        predicate: Option<EncodedTerm>,
        object: Option<EncodedTerm>,
        graph_name: Option<EncodedTerm>,
    ) -> (answer: Vec<Result<EncodedQuad, EvaluationError>>)
        ensures
            answer@ == matching_quads(self.quads@, subject, predicate, object, graph_name),
    {
        let mut answer: Vec<Result<EncodedQuad, EvaluationError>> = Vec::new();
        let mut i: usize = 0;
        assert(self.quads@.take(0) =~= Seq::empty());
        while i < self.quads.len()
            invariant
                i <= self.quads.len(),
                answer@ == matching_quads(
                    self.quads@.take(i as int),
                    subject,
                    predicate,
                    object,
                    graph_name,
                ),
                forall|k: int|
                    0 <= k < answer@.len() ==> (#[trigger] answer@[k] matches Ok(quad)
                        && self.quads@.contains(quad) && quad_matches(
                        subject,
                        predicate,
                        object,
                        graph_name,
                        quad,
                    )),
                forall|j: int|
                    0 <= j < i && quad_matches(
                        subject,
                        predicate,
                        object,
                        graph_name,
                        #[trigger] self.quads@[j],
                    ) ==> answer@.contains(Ok(self.quads@[j])),
            decreases self.quads.len() - i,
        {
            let quad = self.quads[i];
            let ghost before = answer@;
            proof {
                assert(self.quads@.take(i + 1).drop_last() =~= self.quads@.take(i as int));
                assert(self.quads@.take(i + 1).last() == quad);
            }
            if position_fits(subject, quad.subject) && position_fits(predicate, quad.predicate)
                && position_fits(object, quad.object) && position_fits(
                graph_name,
                quad.graph_name,
            ) {
                answer.push(Ok(quad));
                proof {
                    assert(answer@[answer@.len() - 1] == Ok::<EncodedQuad, EvaluationError>(quad));
                    assert forall|j: int|
                        0 <= j < i + 1 && quad_matches(
                            subject,
                            predicate,
                            object,
                            graph_name,
                            #[trigger] self.quads@[j],
                        ) implies answer@.contains(Ok(self.quads@[j])) by {
                        if j < i {
                            let k = choose|k: int|
                                0 <= k < before.len() && before[k] == Ok::<
                                    EncodedQuad,
                                    EvaluationError,
                                >(self.quads@[j]);
                            assert(answer@[k] == before[k]);
                        }
                    }
                }
            }
            i = i + 1;
        }
        proof {
            assert(self.quads@.take(self.quads.len() as int) =~= self.quads@);
            assert forall|quad: EncodedQuad|
                #[trigger] self.holds(quad) && quad_matches(
                    subject,
                    predicate,
                    object,
                    graph_name,
                    quad,
                ) implies answer@.contains(Ok(quad)) by {
                let j = choose|j: int| 0 <= j < self.quads@.len() && self.quads@[j] == quad;
                assert(quad_matches(subject, predicate, object, graph_name, self.quads@[j]));
            }
        }
        answer
    }

    fn get_str(&self, id: u64) -> (text: Result<String, EvaluationError>)
        ensures
            text is Ok == self.text(id) is Some,
            text matches Err(error) ==> error == (EvaluationError::Store { code: UNKNOWN_ID }),
    {
        if id < self.strings.len() as u64 {
            Ok(self.strings[id as usize].clone())
        } else {
            Err(EvaluationError::Store { code: UNKNOWN_ID })
        }
    }

    fn insert_str(&self, value: &str) -> (id: Result<u64, EvaluationError>)
        ensures
            id is Ok == (exists|i: int| 0 <= i < self.strings@.len() && self.strings@[i]@ == value@),
            id matches Err(error) ==> error == (EvaluationError::Store {
                code: CLOSED_DICTIONARY,
            }),
    {
        match self.find(value, self.strings.len()) {
            Some(i) => Ok(i as u64),
            None => Err(EvaluationError::Store { code: CLOSED_DICTIONARY }),
        }
    }
}

} // verus!
