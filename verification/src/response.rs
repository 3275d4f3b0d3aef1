//! The answer as a whole: a flat record around the related topics.

use crate::error::{fault_error, outcome, same_text, DecodeError, DecodeErrorModel};
use crate::icon::{text_field, text_field_of};
use crate::json::{json_models, member_models, Json, JsonModel, Member, MemberModel};
use crate::record::{field, field_of};
use crate::related_topic::{
    related_topic_of, related_topics, related_topics_of, topic_models, topic_result_of,
    topics_outcome, RelatedTopic, RelatedTopicModel, TopicResult, TopicResultModel,
};
use crate::text::parsed_text;
use vstd::prelude::*;

verus! {

pub const ABSTRACT: &'static str = "Abstract";

pub const ABSTRACT_TEXT: &'static str = "AbstractText";

pub const ABSTRACT_SOURCE: &'static str = "AbstractSource";

pub const ABSTRACT_URL: &'static str = "AbstractURL";

pub const IMAGE: &'static str = "Image";

pub const HEADING: &'static str = "Heading";

pub const ANSWER: &'static str = "Answer";

pub const ANSWER_TYPE: &'static str = "AnswerType";

pub const DEFINITION: &'static str = "Definition";

pub const DEFINITION_SOURCE: &'static str = "DefinitionSource";

pub const DEFINITION_URL: &'static str = "DefinitionURL";

pub const RELATED_TOPICS: &'static str = "RelatedTopics";

pub const RESULTS: &'static str = "Results";

pub const TYPE: &'static str = "Type";

pub const REDIRECT: &'static str = "Redirect";

/// The different types of Instant Answers.
#[derive(Clone, Copy, Debug, PartialEq, Eq, Structural)]
pub enum Type {
    /// An article about the answer, written `A`.
    Article,
    /// A disambiguation of the answer, written `D`.
    Disambiguation,
    /// A category, written `C`.
    Category,
    /// A name, written `N`.
    Name,
    /// Exclusive, written `E`.
    Exclusive,
    /// The Instant Answer has no type, written as the empty string.
    Nothing,
}

impl View for Type {
    type V = Type;

    open spec fn view(&self) -> Type {
        *self
    }
}

impl Default for Type {
    fn default() -> (kind: Type)
        ensures
            kind == Type::Nothing,
    {
        Type::Nothing
    }
}

/// The type that a code names.
pub open spec fn type_of_code(code: Seq<char>) -> Option<Type> {
    if code == "A"@ {
        Some(Type::Article)
    } else if code == "D"@ {
        Some(Type::Disambiguation)
    } else if code == "C"@ {
        Some(Type::Category)
    } else if code == "N"@ {
        Some(Type::Name)
    } else if code == "E"@ {
        Some(Type::Exclusive)
    } else if code == ""@ {
        Some(Type::Nothing)
    } else {
        None
    }
}

/// The type that a value names: a string that is one of the codes.
pub open spec fn type_of(value: JsonModel) -> Result<Type, DecodeErrorModel> {
    match value {
        JsonModel::Str(code) => match type_of_code(code) {
            Some(kind) => Ok(kind),
            None => Err(DecodeErrorModel::InvalidValue(value)),
        },
        _ => Err(DecodeErrorModel::InvalidValue(value)),
    }
}

impl Type {
    /// The type that a code names, if it names one.
    pub fn from_code(code: &str) -> (kind: Option<Type>)
        ensures
            kind == type_of_code(code@),
    {
        if same_text(code, "A") {
            Some(Type::Article)
        } else if same_text(code, "D") {
            Some(Type::Disambiguation)
        } else if same_text(code, "C") {
            Some(Type::Category)
        } else if same_text(code, "N") {
            Some(Type::Name)
        } else if same_text(code, "E") {
            Some(Type::Exclusive)
        } else if same_text(code, "") {
            Some(Type::Nothing)
        } else {
            None
        }
    }

    /// Decodes a type.
    pub fn from_json(value: &Json) -> (r: Result<Type, DecodeError>)
        ensures
            outcome(r) == type_of(value@),
    {
        match value {
            Json::Str(code) => match Type::from_code(code.as_str()) {
                Some(kind) => Ok(kind),
                None => Err(DecodeError::InvalidValue(value.clone())),
            },
            _ => Err(DecodeError::InvalidValue(value.clone())),
        }
    }
}

/// The response from DuckDuckGo.
#[derive(Clone, Debug, Default, PartialEq, Eq)]
pub struct Response {
    /// The topic summary (can contain HTML, e.g. italics).
    pub abstract_html: String,
    /// The topic summary with no HTML.
    pub abstract_text: String,
    /// Name of the source of the abstract.
    pub abstract_source: String,
    /// A deep link to the expanded topic page from `abstract_source`.
    pub abstract_url: String,
    /// A link to an image that goes with the abstract.
    pub image: String,
    /// The name of the topic that goes with the abstract.
    pub heading: String,
    /// The Instant Answer.
    pub answer: String,
    /// Type of answer, e.g. calc, color, digest, info, ip, iploc, phone, pw,
    /// rand, regexp, unicode, upc, or zip.
    pub answer_type: String,
    /// The dictionary definition, which may differ from the abstract.
    pub definition: String,
    /// The name of the source of the dictionary definition.
    pub definition_source: String,
    /// The URL of the definition's source.
    pub definition_url: String,
    /// Internal links to related topics associated with the abstract.
    pub related_topics: Vec<RelatedTopic>,
    /// External links associated with the abstract.
    pub results: Vec<TopicResult>,
    /// The response's category: A (article), D (disambiguation), C
    /// (category), N (name), E (exclusive), or nothing.
    pub response_type: Type,
    /// Redirect URL from a !bang query.
    pub redirect: String,
}

/// The mathematical value of a [`Response`].
pub ghost struct ResponseModel {
    pub abstract_html: Seq<char>,
    pub abstract_text: Seq<char>,
    pub abstract_source: Seq<char>,
    pub abstract_url: Seq<char>,
    pub image: Seq<char>,
    pub heading: Seq<char>,
    pub answer: Seq<char>,
    pub answer_type: Seq<char>,
    pub definition: Seq<char>,
    pub definition_source: Seq<char>,
    pub definition_url: Seq<char>,
    pub related_topics: Seq<RelatedTopicModel>,
    pub results: Seq<TopicResultModel>,
    pub response_type: Type,
    pub redirect: Seq<char>,
}

/// The models of a run of links, one for one.
pub open spec fn link_models(items: Seq<TopicResult>) -> Seq<TopicResultModel> {
    Seq::new(items.len(), |i: int| items[i]@)
}

impl View for Response {
    type V = ResponseModel;

    open spec fn view(&self) -> ResponseModel {
        ResponseModel {
            abstract_html: self.abstract_html@,
            abstract_text: self.abstract_text@,
            abstract_source: self.abstract_source@,
            abstract_url: self.abstract_url@,
            image: self.image@,
            heading: self.heading@,
            answer: self.answer@,
            answer_type: self.answer_type@,
            definition: self.definition@,
            definition_source: self.definition_source@,
            definition_url: self.definition_url@,
            related_topics: topic_models(self.related_topics@),
            results: link_models(self.results@),
            response_type: self.response_type,
            redirect: self.redirect@,
        }
    }
}

/// A list of links, or the error in its place, as a value.
pub open spec fn links_outcome(r: Result<Vec<TopicResult>, DecodeError>) -> Result<
    Seq<TopicResultModel>,
    DecodeErrorModel,
> {
    match r {
        Ok(list) => Ok(link_models(list@)),
        Err(error) => Err(error@),
    }
}

/// The links that the items of an array describe, in their order; the first
/// item at fault gives the error.
pub open spec fn topic_results_of(items: Seq<JsonModel>) -> Result<
    Seq<TopicResultModel>,
    DecodeErrorModel,
>
    decreases items.len(),
{
    if items.len() == 0 {
        Ok(Seq::empty())
    } else {
        match topic_results_of(items.drop_last()) {
            Ok(done) => match topic_result_of(items.last()) {
                Ok(link) => Ok(done.push(link)),
                Err(error) => Err(error),
            },
            Err(error) => Err(error),
        }
    }
}

/// The related topics in the field `key` of a record: an array, whose
/// entries may nest `depth` levels of `Topics` arrays.
pub open spec fn related_topics_field_of(members: Seq<MemberModel>, key: Seq<char>, depth: nat) -> Result<
    Seq<RelatedTopicModel>,
    DecodeErrorModel,
> {
    match field_of(members, key) {
        Ok(JsonModel::Array(items)) => related_topics_of(items, depth),
        Ok(value) => Err(DecodeErrorModel::InvalidValue(value)),
        Err(error) => Err(error),
    }
}

/// The links in the field `key` of a record: an array of links.
pub open spec fn topic_results_field_of(members: Seq<MemberModel>, key: Seq<char>) -> Result<
    Seq<TopicResultModel>,
    DecodeErrorModel,
> {
    match field_of(members, key) {
        Ok(JsonModel::Array(items)) => topic_results_of(items),
        Ok(value) => Err(DecodeErrorModel::InvalidValue(value)),
        Err(error) => Err(error),
    }
}

/// The type in the field `key` of a record.
pub open spec fn type_field_of(members: Seq<MemberModel>, key: Seq<char>) -> Result<
    Type,
    DecodeErrorModel,
> {
    match field_of(members, key) {
        Ok(value) => type_of(value),
        Err(error) => Err(error),
    }
}

/// The response that a value describes: an object with the fifteen fields
/// of a response, whatever else it holds. The first field at fault, in the
/// order in which a response declares them, gives the error. The related
/// topics may nest `depth` levels of `Topics` arrays.
pub open spec fn response_of(value: JsonModel, depth: nat) -> Result<ResponseModel, DecodeErrorModel> {
    match value {
        JsonModel::Object(members) => {
            let abstract_html = text_field_of(members, ABSTRACT@);
            let abstract_text = text_field_of(members, ABSTRACT_TEXT@);
            let abstract_source = text_field_of(members, ABSTRACT_SOURCE@);
            let abstract_url = text_field_of(members, ABSTRACT_URL@);
            let image = text_field_of(members, IMAGE@);
            let heading = text_field_of(members, HEADING@);
            let answer = text_field_of(members, ANSWER@);
            let answer_type = text_field_of(members, ANSWER_TYPE@);
            let definition = text_field_of(members, DEFINITION@);
            let definition_source = text_field_of(members, DEFINITION_SOURCE@);
            let definition_url = text_field_of(members, DEFINITION_URL@);
            let related_topics = related_topics_field_of(members, RELATED_TOPICS@, depth);
            let results = topic_results_field_of(members, RESULTS@);
            let response_type = type_field_of(members, TYPE@);
            let redirect = text_field_of(members, REDIRECT@);
            if abstract_html is Err {
                Err(abstract_html->Err_0)
            } else if abstract_text is Err {
                Err(abstract_text->Err_0)
            } else if abstract_source is Err {
                Err(abstract_source->Err_0)
            } else if abstract_url is Err {
                Err(abstract_url->Err_0)
            } else if image is Err {
                Err(image->Err_0)
            } else if heading is Err {
                Err(heading->Err_0)
            } else if answer is Err {
                Err(answer->Err_0)
            } else if answer_type is Err {
                Err(answer_type->Err_0)
            } else if definition is Err {
                Err(definition->Err_0)
            } else if definition_source is Err {
                Err(definition_source->Err_0)
            } else if definition_url is Err {
                Err(definition_url->Err_0)
            } else if related_topics is Err {
                Err(related_topics->Err_0)
            } else if results is Err {
                Err(results->Err_0)
            } else if response_type is Err {
                Err(response_type->Err_0)
            } else if redirect is Err {
                Err(redirect->Err_0)
            } else {
                Ok(
                    ResponseModel {
                        abstract_html: abstract_html->Ok_0,
                        abstract_text: abstract_text->Ok_0,
                        abstract_source: abstract_source->Ok_0,
                        abstract_url: abstract_url->Ok_0,
                        image: image->Ok_0,
                        heading: heading->Ok_0,
                        answer: answer->Ok_0,
                        answer_type: answer_type->Ok_0,
                        definition: definition->Ok_0,
                        definition_source: definition_source->Ok_0,
                        definition_url: definition_url->Ok_0,
                        related_topics: related_topics->Ok_0,
                        results: results->Ok_0,
                        response_type: response_type->Ok_0,
                        redirect: redirect->Ok_0,
                    },
                )
            }
        },
        _ => Err(DecodeErrorModel::InvalidValue(value)),
    }
}

/// The response that a text describes: the text must be JSON, and the
/// document a response.
pub open spec fn response_of_text(text: Seq<char>, depth: nat) -> Result<
    ResponseModel,
    DecodeErrorModel,
> {
    match parsed_text(text) {
        Ok(document) => response_of(document, depth),
        Err(fault) => Err(fault_error(fault)),
    }
}

/// The related topic that a text describes: the text must be JSON, and the
/// document a related topic.
pub open spec fn related_topic_of_text(text: Seq<char>, depth: nat) -> Result<
    RelatedTopicModel,
    DecodeErrorModel,
> {
    match parsed_text(text) {
        Ok(document) => related_topic_of(document, depth),
        Err(fault) => Err(fault_error(fault)),
    }
}

/// Once an item is at fault, the items after it change nothing.
pub proof fn lemma_links_stop_at_fault(items: Seq<JsonModel>, read: int)
    requires
        0 <= read <= items.len(),
        topic_results_of(items.take(read)) is Err,
    ensures
        topic_results_of(items) == topic_results_of(items.take(read)),
    decreases items.len() - read,
{
    if read == items.len() {
        assert(items.take(read) =~= items);
    } else {
        assert(items.drop_last().take(read) =~= items.take(read));
        lemma_links_stop_at_fault(items.drop_last(), read);
    }
}

/// Decodes each item of an array as a link, keeping their order.
pub fn topic_results(items: &Vec<Json>) -> (r: Result<Vec<TopicResult>, DecodeError>)
    ensures
        links_outcome(r) == topic_results_of(json_models(items@)),
{
    let ghost models = json_models(items@);
    let mut done: Vec<TopicResult> = Vec::new();
    let mut i: usize = 0;
    assert(models.take(0) =~= Seq::<JsonModel>::empty());
    assert(link_models(done@) =~= Seq::<TopicResultModel>::empty());
    while i < items.len()
        invariant
            i <= items.len(),
            models == json_models(items@),
            topic_results_of(models.take(i as int)) == Ok::<
                Seq<TopicResultModel>,
                DecodeErrorModel,
            >(link_models(done@)),
        decreases items.len() - i,
    {
        assert(models.take(i + 1).drop_last() =~= models.take(i as int));
        assert(models.take(i + 1).last() == items@[i as int]@);
        match TopicResult::from_json(&items[i]) {
            Ok(link) => {
                let ghost before = link_models(done@);
                done.push(link);
                assert(link_models(done@) =~= before.push(link@));
            },
            Err(error) => {
                proof {
                    lemma_links_stop_at_fault(models, i + 1);
                }
                return Err(error);
            },
        }
        i += 1;
    }
    assert(models.take(i as int) =~= models);
    Ok(done)
}

/// Decodes the related topics in the field `key` of a record.
pub fn related_topics_field(members: &Vec<Member>, key: &str, depth: usize) -> (r: Result<
    Vec<RelatedTopic>,
    DecodeError,
>)
    ensures
        topics_outcome(r) == related_topics_field_of(
            member_models(members@),
            key@,
            depth as nat,
        ),
{
    let value = field(members, key)?;
    match value {
        Json::Array(items) => related_topics(items, depth),
        _ => Err(DecodeError::InvalidValue(value.clone())),
    }
}

/// Decodes the links in the field `key` of a record.
pub fn topic_results_field(members: &Vec<Member>, key: &str) -> (r: Result<
    Vec<TopicResult>,
    DecodeError,
>)
    ensures
        links_outcome(r) == topic_results_field_of(member_models(members@), key@),
{
    let value = field(members, key)?;
    match value {
        Json::Array(items) => topic_results(items),
        _ => Err(DecodeError::InvalidValue(value.clone())),
    }
}

/// Decodes the type in the field `key` of a record.
pub fn type_field(members: &Vec<Member>, key: &str) -> (r: Result<Type, DecodeError>)
    ensures
        outcome(r) == type_field_of(member_models(members@), key@),
{
    let value = field(members, key)?;
    Type::from_json(value)
}

impl Response {
    /// Decodes a response. `depth` is the number of nested `Topics` arrays
    /// allowed below the related topics.
    pub fn from_json(value: &Json, depth: usize) -> (r: Result<Response, DecodeError>)
        ensures
            outcome(r) == response_of(value@, depth as nat),
    {
        match value {
            Json::Object(members) => {
                let abstract_html = text_field(members, ABSTRACT)?;
                let abstract_text = text_field(members, ABSTRACT_TEXT)?;
                let abstract_source = text_field(members, ABSTRACT_SOURCE)?;
                let abstract_url = text_field(members, ABSTRACT_URL)?;
                let image = text_field(members, IMAGE)?;
                let heading = text_field(members, HEADING)?;
                let answer = text_field(members, ANSWER)?;
                let answer_type = text_field(members, ANSWER_TYPE)?;
                let definition = text_field(members, DEFINITION)?;
                let definition_source = text_field(members, DEFINITION_SOURCE)?;
                let definition_url = text_field(members, DEFINITION_URL)?;
                let related_topics = related_topics_field(members, RELATED_TOPICS, depth)?;
                let results = topic_results_field(members, RESULTS)?;
                let response_type = type_field(members, TYPE)?;
                let redirect = text_field(members, REDIRECT)?;
                Ok(
                    Response {
                        abstract_html,
                        abstract_text,
                        abstract_source,
                        abstract_url,
                        image,
                        heading,
                        answer,
                        answer_type,
                        definition,
                        definition_source,
                        definition_url,
                        related_topics,
                        results,
                        response_type,
                        redirect,
                    },
                )
            },
            _ => Err(DecodeError::InvalidValue(value.clone())),
        }
    }

    /// Decodes a response from JSON text.
    pub fn from_str(text: &str, depth: usize) -> (r: Result<Response, DecodeError>)
        ensures
            outcome(r) == response_of_text(text@, depth as nat),
    {
        match Json::parse(text) {
            Ok(document) => Response::from_json(&document, depth),
            Err(fault) => Err(DecodeError::from_fault(fault)),
        }
    }
}

impl RelatedTopic {
    /// Decodes one related topic from JSON text.
    pub fn from_str(text: &str, depth: usize) -> (r: Result<RelatedTopic, DecodeError>)
        ensures
            outcome(r) == related_topic_of_text(text@, depth as nat),
    {
        match Json::parse(text) {
            Ok(document) => RelatedTopic::from_json(&document, depth),
            Err(fault) => Err(DecodeError::from_fault(fault)),
        }
    }
}

} // verus!
