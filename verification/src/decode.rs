//! Between terms with their texts and encoded terms.

use vstd::prelude::*;
use crate::dataset::DatasetView;
use crate::dataset::FloatArithmetic;
use crate::lexical::date_time_text;
use crate::lexical::date_time_to_string;
use crate::lexical::integer_text;
use crate::lexical::integer_to_string;
use crate::lexical::naive_date_time_text;
use crate::lexical::naive_date_time_to_string;
use crate::numeric::decimal_text;
use crate::numeric::decimal_to_string;
use crate::rdf::Term;
use crate::rdf::TermModel;
use crate::rdf::Triple;
use crate::rdf::TripleModel;
use crate::rdf::XSD_BOOLEAN;
use crate::rdf::XSD_DATE_TIME;
use crate::rdf::XSD_DECIMAL;
use crate::rdf::XSD_DOUBLE;
use crate::rdf::XSD_FLOAT;
use crate::rdf::XSD_INTEGER;
use crate::rdf::XSD_STRING;
use crate::term::EncodedTerm;
use crate::term::EvaluationError;
use crate::values::SimpleEvaluator;

verus! {

/// The mathematical form of the result of a decoding.
pub open spec fn decoded_model(r: Result<Term, EvaluationError>) -> Result<
    TermModel,
    EvaluationError,
> {
    match r {
        Ok(term) => Ok(term@),
        Err(error) => Err(error),
    }
}

/// What decoding a term may give.
///
/// A term that holds ids decodes to the term with the texts of those ids,
/// or to the error of a lookup that failed. A boolean, a number or a date
/// decodes to the typed literal of its text; the texts of the
/// floating-point families are whatever the arithmetic supplied. The
/// default graph is no term, and neither is a decimal or a date that has
/// no text: they give `NotDecodable`.
pub open spec fn decode_outcome<S: DatasetView>(
    view: &S,
    term: EncodedTerm,
    r: Result<TermModel, EvaluationError>,
) -> bool {
    match term {
        EncodedTerm::DefaultGraph => r == Err::<TermModel, EvaluationError>(
            EvaluationError::NotDecodable,
        ),
        EncodedTerm::NamedNode { iri_id } => r matches Ok(t) ==> (view.text(iri_id) matches Some(
            iri,
        ) && t == TermModel::NamedNode { iri }),
        EncodedTerm::BlankNode(id) => r == Ok::<TermModel, EvaluationError>(
            TermModel::BlankNode { id },
        ),
        EncodedTerm::SimpleLiteral { value_id } => r matches Ok(t) ==> (view.text(
            value_id,
        ) matches Some(value) && t == TermModel::SimpleLiteral { value }),
        EncodedTerm::StringLiteral { value_id } => r matches Ok(t) ==> (view.text(
            value_id,
        ) matches Some(value) && t == TermModel::TypedLiteral { value, datatype: XSD_STRING@ }),
        EncodedTerm::LangStringLiteral { value_id, language_id } => r matches Ok(t) ==> (view.text(
            value_id,
        ) matches Some(value) && (view.text(language_id) matches Some(language) && t
            == TermModel::LangStringLiteral { value, language })),
        EncodedTerm::TypedLiteral { value_id, datatype_id } => r matches Ok(t) ==> (view.text(
            value_id,
        ) matches Some(value) && (view.text(datatype_id) matches Some(datatype) && t
            == TermModel::TypedLiteral { value, datatype })),
        EncodedTerm::BooleanLiteral(value) => r == Ok::<TermModel, EvaluationError>(
            TermModel::TypedLiteral {
                value: if value {
                    "true"@
                } else {
                    "false"@
                },
                datatype: XSD_BOOLEAN@,
            },
        ),
        EncodedTerm::FloatLiteral(_) => r matches Ok(TermModel::TypedLiteral { datatype, .. })
            && datatype == XSD_FLOAT@,
        EncodedTerm::DoubleLiteral(_) => r matches Ok(TermModel::TypedLiteral { datatype, .. })
            && datatype == XSD_DOUBLE@,
        EncodedTerm::IntegerLiteral(value) => r == Ok::<TermModel, EvaluationError>(
            TermModel::TypedLiteral { value: integer_text(value), datatype: XSD_INTEGER@ },
        ),
        EncodedTerm::DecimalLiteral(value) => r == if value.wf() {
            Ok::<TermModel, EvaluationError>(
                TermModel::TypedLiteral { value: decimal_text(value), datatype: XSD_DECIMAL@ },
            )
        } else {
            Err(EvaluationError::NotDecodable)
        },
        EncodedTerm::DateTime(value) => r == match date_time_text(value) {
            Some(text) => Ok::<TermModel, EvaluationError>(
                TermModel::TypedLiteral { value: text, datatype: XSD_DATE_TIME@ },
            ),
            None => Err(EvaluationError::NotDecodable),
        },
        EncodedTerm::NaiveDateTime(value) => r == match naive_date_time_text(value) {
            Some(text) => Ok::<TermModel, EvaluationError>(
                TermModel::TypedLiteral { value: text, datatype: XSD_DATE_TIME@ },
            ),
            None => Err(EvaluationError::NotDecodable),
        },
    }
}

/// The term of the text that a lookup gave, or the error of the lookup.
pub open spec fn of_text(
    answer: Result<String, EvaluationError>,
    term: spec_fn(Seq<char>) -> TermModel,
) -> Result<TermModel, EvaluationError> {
    match answer {
        Ok(text) => Ok(term(text@)),
        Err(error) => Err(error),
    }
}

/// What decoding a literal with two ids gives: the error of the first
/// lookup that failed, or the term of the two texts that the lookups gave.
pub open spec fn two_texts_decoded<S: DatasetView>(
    view: &S,
    first: u64,
    second: u64,
    term: spec_fn(Seq<char>, Seq<char>) -> TermModel,
    r: Result<TermModel, EvaluationError>,
) -> bool {
    exists|answer: Result<String, EvaluationError>| #[trigger]
        call_ensures(S::get_str, (view, first), answer) && match answer {
            Ok(value) => exists|other: Result<String, EvaluationError>| #[trigger]
                call_ensures(S::get_str, (view, second), other) && r == of_text(
                    other,
                    |text: Seq<char>| term(value@, text),
                ),
            Err(error) => r == Err::<TermModel, EvaluationError>(error),
        }
}

/// What decoding a term gives where something outside is asked: a term
/// with ids has the texts that the lookups gave, or the error of the
/// first lookup that failed; a `float` or a `double` has the text that
/// `floats` answered for its bits.
pub open spec fn decode_answer<S: DatasetView, F: FloatArithmetic>(
    view: &S,
    floats: &F,
    term: EncodedTerm,
    r: Result<TermModel, EvaluationError>,
) -> bool {
    match term {
        EncodedTerm::NamedNode { iri_id } => exists|answer: Result<String, EvaluationError>| #[trigger]
            call_ensures(S::get_str, (view, iri_id), answer) && r == of_text(
                answer,
                |iri: Seq<char>| TermModel::NamedNode { iri },
            ),
        EncodedTerm::SimpleLiteral { value_id } => exists|
            answer: Result<String, EvaluationError>,
        | #[trigger]
            call_ensures(S::get_str, (view, value_id), answer) && r == of_text(
                answer,
                |value: Seq<char>| TermModel::SimpleLiteral { value },
            ),
        EncodedTerm::StringLiteral { value_id } => exists|
            answer: Result<String, EvaluationError>,
        | #[trigger]
            call_ensures(S::get_str, (view, value_id), answer) && r == of_text(
                answer,
                |value: Seq<char>| TermModel::TypedLiteral { value, datatype: XSD_STRING@ },
            ),
        EncodedTerm::LangStringLiteral { value_id, language_id } => two_texts_decoded(
            view,
            value_id,
            language_id,
            |value: Seq<char>, language: Seq<char>| TermModel::LangStringLiteral { value, language },
            r,
        ),
        EncodedTerm::TypedLiteral { value_id, datatype_id } => two_texts_decoded(
            view,
            value_id,
            datatype_id,
            |value: Seq<char>, datatype: Seq<char>| TermModel::TypedLiteral { value, datatype },
            r,
        ),
        EncodedTerm::FloatLiteral(bits) => exists|text: String| #[trigger]
            call_ensures(F::single_to_string, (floats, bits), text) && r == Ok::<
                TermModel,
                EvaluationError,
            >(TermModel::TypedLiteral { value: text@, datatype: XSD_FLOAT@ }),
        EncodedTerm::DoubleLiteral(bits) => exists|text: String| #[trigger]
            call_ensures(F::double_to_string, (floats, bits), text) && r == Ok::<
                TermModel,
                EvaluationError,
            >(TermModel::TypedLiteral { value: text@, datatype: XSD_DOUBLE@ }),
        _ => true,
    }
}

/// What decoding a term gives: what `decode_outcome` says, with what the
/// dataset and `floats` answered where they were asked.
pub open spec fn term_decoded<S: DatasetView, F: FloatArithmetic>(
    view: &S,
    floats: &F,
    term: EncodedTerm,
    r: Result<TermModel, EvaluationError>,
) -> bool {
    decode_outcome(view, term, r) && decode_answer(view, floats, term, r)
}

/// What decoding a term as a named node gives: what `term_decoded` says
/// for a named node, `NotDecodable` for another term, for which nothing
/// is looked up.
pub open spec fn named_node_decoded<S: DatasetView, F: FloatArithmetic>(
    view: &S,
    floats: &F,
    term: EncodedTerm,
    r: Result<TermModel, EvaluationError>,
) -> bool {
    if term is NamedNode {
        term_decoded(view, floats, term, r)
    } else {
        r == Err::<TermModel, EvaluationError>(EvaluationError::NotDecodable)
    }
}

/// What decoding a term as a named or blank node gives: what
/// `term_decoded` says for such a node, `NotDecodable` for another term,
/// for which nothing is looked up.
pub open spec fn named_or_blank_node_decoded<S: DatasetView, F: FloatArithmetic>(
    view: &S,
    floats: &F,
    term: EncodedTerm,
    r: Result<TermModel, EvaluationError>,
) -> bool {
    if term is NamedNode || term is BlankNode {
        term_decoded(view, floats, term, r)
    } else {
        r == Err::<TermModel, EvaluationError>(EvaluationError::NotDecodable)
    }
}

/// The triple of three decoded terms, or the error of the first of
/// subject, predicate and object that did not decode.
pub open spec fn triple_of(
    subject: Result<TermModel, EvaluationError>,
    predicate: Result<TermModel, EvaluationError>,
    object: Result<TermModel, EvaluationError>,
) -> Result<TripleModel, EvaluationError> {
    match subject {
        Ok(subject) => match predicate {
            Ok(predicate) => match object {
                Ok(object) => Ok(TripleModel { subject, predicate, object }),
                Err(error) => Err(error),
            },
            Err(error) => Err(error),
        },
        Err(error) => Err(error),
    }
}

/// What decoding three terms as a triple gives. The subject is decoded as
/// a named or blank node; if that gave a term, the predicate is decoded
/// as a named node; if that gave a term too, the object is decoded. The
/// result is the triple of the three terms, or the error of the first
/// decoding that failed.
pub open spec fn triple_decoded<S: DatasetView, F: FloatArithmetic>(
    view: &S,
    floats: &F,
    subject: EncodedTerm,
    predicate: EncodedTerm,
    object: EncodedTerm,
    r: Result<TripleModel, EvaluationError>,
) -> bool {
    exists|
        s: Result<TermModel, EvaluationError>,
        p: Result<TermModel, EvaluationError>,
        o: Result<TermModel, EvaluationError>,
    | #[trigger]
        triple_of(s, p, o) == r && named_or_blank_node_decoded(view, floats, subject, s) && (s is Ok
            ==> named_node_decoded(view, floats, predicate, p)) && (s is Ok && p is Ok
            ==> term_decoded(view, floats, object, o))
}

/// The mathematical form of the result of decoding a triple.
pub open spec fn decoded_triple_model(r: Result<Triple, EvaluationError>) -> Result<
    TripleModel,
    EvaluationError,
> {
    match r {
        Ok(triple) => Ok(triple@),
        Err(error) => Err(error),
    }
}

/// What encoding a term may give: the encoded term whose ids name the
/// texts of the term, or the error of an interning that failed. A typed
/// literal keeps its lexical form whatever its datatype, so that a term
/// that was encoded decodes to itself.
pub open spec fn encode_outcome<S: DatasetView>(
    view: &S,
    term: TermModel,
    r: Result<EncodedTerm, EvaluationError>,
) -> bool {
    match term {
        TermModel::NamedNode { iri } => r matches Ok(e) ==> (e matches EncodedTerm::NamedNode {
            iri_id,
        } && view.text(iri_id) == Some(iri)),
        TermModel::BlankNode { id } => r == Ok::<EncodedTerm, EvaluationError>(
            EncodedTerm::BlankNode(id),
        ),
        TermModel::SimpleLiteral { value } => r matches Ok(e) ==> (
        e matches EncodedTerm::SimpleLiteral { value_id } && view.text(value_id) == Some(value)),
        TermModel::LangStringLiteral { value, language } => r matches Ok(e) ==> (
        e matches EncodedTerm::LangStringLiteral { value_id, language_id } && view.text(value_id)
            == Some(value) && view.text(language_id) == Some(language)),
        TermModel::TypedLiteral { value, datatype } => r matches Ok(e) ==> (
        e matches EncodedTerm::TypedLiteral { value_id, datatype_id } && view.text(value_id)
            == Some(value) && view.text(datatype_id) == Some(datatype)),
    }
}

/// `answer` is what interning gave for a text that reads `text`.
pub open spec fn interning<S: DatasetView>(
    view: &S,
    text: Seq<char>,
    answer: Result<u64, EvaluationError>,
) -> bool {
    exists|handed: &str| #[trigger]
        call_ensures(S::insert_str, (view, handed), answer) && handed@ == text
}

/// The term of one interned text: a named node, or else a simple literal.
pub open spec fn term_of_text(named: bool, id: u64) -> EncodedTerm {
    if named {
        EncodedTerm::NamedNode { iri_id: id }
    } else {
        EncodedTerm::SimpleLiteral { value_id: id }
    }
}

/// The term of two interned texts: a typed literal, or else a literal with
/// a language.
pub open spec fn term_of_texts(typed: bool, value_id: u64, other_id: u64) -> EncodedTerm {
    if typed {
        EncodedTerm::TypedLiteral { value_id, datatype_id: other_id }
    } else {
        EncodedTerm::LangStringLiteral { value_id, language_id: other_id }
    }
}

/// `r` is the term of the id that interning gave for `text`, or the error
/// that interning gave.
pub open spec fn text_encoded<S: DatasetView>(
    view: &S,
    named: bool,
    text: Seq<char>,
    r: Result<EncodedTerm, EvaluationError>,
) -> bool {
    exists|answer: Result<u64, EvaluationError>| #[trigger]
        interning(view, text, answer) && r == match answer {
            Ok(id) => Ok::<EncodedTerm, EvaluationError>(term_of_text(named, id)),
            Err(error) => Err(error),
        }
}

/// `r` is the term of the ids that interning gave for `value` and then for
/// `other`, or the error of the first interning that failed; after a
/// failure on `value`, `other` was not interned.
pub open spec fn texts_encoded<S: DatasetView>(
    view: &S,
    typed: bool,
    value: Seq<char>,
    other: Seq<char>,
    r: Result<EncodedTerm, EvaluationError>,
) -> bool {
    exists|first: Result<u64, EvaluationError>| #[trigger]
        interning(view, value, first) && match first {
            Ok(value_id) => exists|second: Result<u64, EvaluationError>| #[trigger]
                interning(view, other, second) && r == match second {
                    Ok(other_id) => Ok::<EncodedTerm, EvaluationError>(
                        term_of_texts(typed, value_id, other_id),
                    ),
                    Err(error) => Err(error),
                },
            Err(error) => r == Err::<EncodedTerm, EvaluationError>(error),
        }
}

/// What encoding a term gives: the term of the ids that interning gave
/// for its texts, or the error of the first interning that failed.
pub open spec fn encode_answer<S: DatasetView>(
    view: &S,
    term: TermModel,
    r: Result<EncodedTerm, EvaluationError>,
) -> bool {
    match term {
        TermModel::NamedNode { iri } => text_encoded(view, true, iri, r),
        TermModel::BlankNode { id } => r == Ok::<EncodedTerm, EvaluationError>(
            EncodedTerm::BlankNode(id),
        ),
        TermModel::SimpleLiteral { value } => text_encoded(view, false, value, r),
        TermModel::LangStringLiteral { value, language } => texts_encoded(
            view,
            false,
            value,
            language,
            r,
        ),
        TermModel::TypedLiteral { value, datatype } => texts_encoded(
            view,
            true,
            value,
            datatype,
            r,
        ),
    }
}

/// The typed literal of a text.
fn typed_literal(value: String, datatype: &str) -> (term: Term)
    ensures
        term@ == (TermModel::TypedLiteral { value: value@, datatype: datatype@ }),
{
    Term::TypedLiteral { value, datatype: datatype.to_owned() }
}

impl<S: DatasetView, F: FloatArithmetic> SimpleEvaluator<S, F> {
    /// Decodes a term.
    pub fn decode_term(&self, term: EncodedTerm) -> (r: Result<Term, EvaluationError>)
        ensures
            term_decoded(&self.dataset, &self.floats, term, decoded_model(r)),
    {
        match term {
            EncodedTerm::DefaultGraph => Err(EvaluationError::NotDecodable),
            EncodedTerm::NamedNode { iri_id } => match self.dataset.get_str(iri_id) {
                Ok(iri) => Ok(Term::NamedNode { iri }),
                Err(error) => Err(error),
            },
            EncodedTerm::BlankNode(id) => Ok(Term::BlankNode { id }),
            EncodedTerm::SimpleLiteral { value_id } => match self.dataset.get_str(value_id) {
                Ok(value) => Ok(Term::SimpleLiteral { value }),
                Err(error) => Err(error),
            },
            EncodedTerm::StringLiteral { value_id } => match self.dataset.get_str(value_id) {
                Ok(value) => Ok(typed_literal(value, XSD_STRING)),
                Err(error) => Err(error),
            },
            EncodedTerm::LangStringLiteral { value_id, language_id } => match self.dataset.get_str(
                value_id,
            ) {
                Ok(value) => match self.dataset.get_str(language_id) {
                    Ok(language) => Ok(Term::LangStringLiteral { value, language }),
                    Err(error) => Err(error),
                },
                Err(error) => Err(error),
            },
            EncodedTerm::TypedLiteral { value_id, datatype_id } => match self.dataset.get_str(
                value_id,
            ) {
                Ok(value) => match self.dataset.get_str(datatype_id) {
                    Ok(datatype) => Ok(Term::TypedLiteral { value, datatype }),
                    Err(error) => Err(error),
                },
                Err(error) => Err(error),
            },
            EncodedTerm::BooleanLiteral(value) => Ok(
                typed_literal(
                    if value {
                        "true".to_owned()
                    } else {
                        "false".to_owned()
                    },
                    XSD_BOOLEAN,
                ),
            ),
            EncodedTerm::FloatLiteral(bits) => Ok(
                typed_literal(self.floats.single_to_string(bits), XSD_FLOAT),
            ),
            EncodedTerm::DoubleLiteral(bits) => Ok(
                typed_literal(self.floats.double_to_string(bits), XSD_DOUBLE),
            ),
            EncodedTerm::IntegerLiteral(value) => Ok(
                typed_literal(integer_to_string(value), XSD_INTEGER),
            ),
            EncodedTerm::DecimalLiteral(value) => if value.is_wf() {
                Ok(typed_literal(decimal_to_string(value), XSD_DECIMAL))
            } else {
                Err(EvaluationError::NotDecodable)
            },
            EncodedTerm::DateTime(value) => match date_time_to_string(value) {
                Some(text) => Ok(typed_literal(text, XSD_DATE_TIME)),
                None => Err(EvaluationError::NotDecodable),
            },
            EncodedTerm::NaiveDateTime(value) => match naive_date_time_to_string(value) {
                Some(text) => Ok(typed_literal(text, XSD_DATE_TIME)),
                None => Err(EvaluationError::NotDecodable),
            },
        }
    }

    /// Encodes a term: its texts are interned.
    pub fn encode_term(&self, term: &Term) -> (r: Result<EncodedTerm, EvaluationError>)
        ensures
            encode_answer(&self.dataset, term@, r),
            encode_outcome(&self.dataset, term@, r),
    {
        match term {
            Term::NamedNode { iri } => {
                let answer = self.dataset.insert_str(iri.as_str());
                assert(interning(&self.dataset, iri@, answer));
                match answer {
                    Ok(iri_id) => Ok(EncodedTerm::NamedNode { iri_id }),
                    Err(error) => Err(error),
                }
            },
            Term::BlankNode { id } => Ok(EncodedTerm::BlankNode(*id)),
            Term::SimpleLiteral { value } => {
                let answer = self.dataset.insert_str(value.as_str());
                assert(interning(&self.dataset, value@, answer));
                match answer {
                    Ok(value_id) => Ok(EncodedTerm::SimpleLiteral { value_id }),
                    Err(error) => Err(error),
                }
            },
            Term::LangStringLiteral { value, language } => {
                let answer = self.dataset.insert_str(value.as_str());
                assert(interning(&self.dataset, value@, answer));
                match answer {
                    Ok(value_id) => {
                        let other = self.dataset.insert_str(language.as_str());
                        assert(interning(&self.dataset, language@, other));
                        match other {
                            Ok(language_id) => Ok(
                                EncodedTerm::LangStringLiteral { value_id, language_id },
                            ),
                            Err(error) => Err(error),
                        }
                    },
                    Err(error) => Err(error),
                }
            },
            Term::TypedLiteral { value, datatype } => {
                let answer = self.dataset.insert_str(value.as_str());
                assert(interning(&self.dataset, value@, answer));
                match answer {
                    Ok(value_id) => {
                        let other = self.dataset.insert_str(datatype.as_str());
                        assert(interning(&self.dataset, datatype@, other));
                        match other {
                            Ok(datatype_id) => Ok(
                                EncodedTerm::TypedLiteral { value_id, datatype_id },
                            ),
                            Err(error) => Err(error),
                        }
                    },
                    Err(error) => Err(error),
                }
            },
        }
    }

    /// Decodes a term that has to be a named node.
    pub fn decode_named_node(&self, term: EncodedTerm) -> (r: Result<Term, EvaluationError>)
        ensures
            named_node_decoded(&self.dataset, &self.floats, term, decoded_model(r)),
            r matches Ok(t) ==> t@ is NamedNode,
    {
        match term {
            EncodedTerm::NamedNode { .. } => self.decode_term(term),
            _ => Err(EvaluationError::NotDecodable),
        }
    }

    /// Decodes a term that has to be a named node or a blank node.
    pub fn decode_named_or_blank_node(&self, term: EncodedTerm) -> (r: Result<
        Term,
        EvaluationError,
    >)
        ensures
            named_or_blank_node_decoded(&self.dataset, &self.floats, term, decoded_model(r)),
            r matches Ok(t) ==> t@ is NamedNode || t@ is BlankNode,
    {
        match term {
            EncodedTerm::NamedNode { .. } => self.decode_term(term),
            EncodedTerm::BlankNode(_) => self.decode_term(term),
            _ => Err(EvaluationError::NotDecodable),
        }
    }

    /// Decodes three terms as a triple.
    pub fn decode_triple(&self, subject: EncodedTerm, predicate: EncodedTerm, object: EncodedTerm) -> (r:
        Result<Triple, EvaluationError>)
        ensures
            triple_decoded(&self.dataset, &self.floats, subject, predicate, object, decoded_triple_model(r)),
            r matches Ok(triple) ==> triple@.wf(),
    {
        let first = self.decode_named_or_blank_node(subject);
        let ghost s = decoded_model(first);
        let subject = match first {
            Ok(term) => term,
            Err(error) => {
                assert(triple_of(s, s, s) == Err::<TripleModel, EvaluationError>(error));
                return Err(error);
            },
        };
        let second = self.decode_named_node(predicate);
        let ghost p = decoded_model(second);
        let predicate = match second {
            Ok(term) => term,
            Err(error) => {
                assert(triple_of(s, p, p) == Err::<TripleModel, EvaluationError>(error));
                return Err(error);
            },
        };
        let third = self.decode_term(object);
        let ghost o = decoded_model(third);
        let object = match third {
            Ok(term) => term,
            Err(error) => {
                assert(triple_of(s, p, o) == Err::<TripleModel, EvaluationError>(error));
                return Err(error);
            },
        };
        let triple = Triple { subject, predicate, object };
        assert(triple_of(s, p, o) == Ok::<TripleModel, EvaluationError>(triple@));
        Ok(triple)
    }
}

} // verus!
