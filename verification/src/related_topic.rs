//! Related topics: one object shape that is either a link or a category,
//! told apart by the keys it carries, in whatever order they come.

use crate::error::{outcome, same_text, DecodeError, DecodeErrorModel};
use crate::icon::{icon_of, text, text_of, Icon, IconModel};
use crate::json::{json_models, member_models, Json, JsonModel, Member, MemberModel};
use crate::scanner::KeyScanner;
use vstd::prelude::*;

verus! {

pub const FIRST_URL: &'static str = "FirstURL";

pub const ICON: &'static str = "Icon";

pub const RESULT: &'static str = "Result";

pub const TEXT: &'static str = "Text";

pub const NAME: &'static str = "Name";

pub const TOPICS: &'static str = "Topics";

/// A link associated with the abstract.
#[derive(Clone, Debug, PartialEq, Eq)]
pub struct TopicResult {
    /// First URL for the result.
    pub first_url: String,
    /// Icon associated with `first_url`.
    pub icon: Icon,
    /// HTML link(s) to external site(s).
    pub result: String,
    /// Text from `first_url`.
    pub text: String,
}

/// A named category and the entries below it.
#[derive(Debug, PartialEq, Eq)]
pub struct Topic {
    /// The entries of the category, in the order of the source.
    pub topics: Vec<RelatedTopic>,
    /// The name of the category: for the query "Apple", it could be botany,
    /// or companies.
    pub name: String,
}

/// Internal link(s) to related topics associated with the abstract: either a
/// single `TopicResult`, or a `Topic` that holds more of them in one area of
/// interest.
#[derive(Debug, PartialEq, Eq)]
pub enum RelatedTopic {
    /// The link had a single topic.
    TopicResult(TopicResult),
    /// The link had a whole topic category.
    Topic(Topic),
}

/// The mathematical value of a [`TopicResult`].
pub ghost struct TopicResultModel {
    pub first_url: Seq<char>,
    pub icon: IconModel,
    pub result: Seq<char>,
    pub text: Seq<char>,
}

/// The mathematical value of a [`Topic`].
pub ghost struct TopicModel {
    pub topics: Seq<RelatedTopicModel>,
    pub name: Seq<char>,
}

/// The mathematical value of a [`RelatedTopic`].
pub ghost enum RelatedTopicModel {
    TopicResult(TopicResultModel),
    Topic(TopicModel),
}

impl View for TopicResult {
    type V = TopicResultModel;

    open spec fn view(&self) -> TopicResultModel {
        TopicResultModel {
            first_url: self.first_url@,
            icon: self.icon@,
            result: self.result@,
            text: self.text@,
        }
    }
}

impl View for RelatedTopic {
    type V = RelatedTopicModel;

    open spec fn view(&self) -> RelatedTopicModel
        decreases self, 0int,
    {
        match self {
            RelatedTopic::TopicResult(link) => RelatedTopicModel::TopicResult(link@),
            RelatedTopic::Topic(topic) => RelatedTopicModel::Topic(
                TopicModel { topics: topic_models(topic.topics@), name: topic.name@ },
            ),
        }
    }
}

impl View for Topic {
    type V = TopicModel;

    open spec fn view(&self) -> TopicModel {
        TopicModel { topics: topic_models(self.topics@), name: self.name@ }
    }
}

/// The models of a run of related topics, one for one.
pub open spec fn topic_models(items: Seq<RelatedTopic>) -> Seq<RelatedTopicModel>
    decreases items, 1int,
{
    Seq::new(items.len(), |i: int| topic_model_at(items, i))
}

/// The model of the related topic at `i`, where there is one.
pub open spec fn topic_model_at(items: Seq<RelatedTopic>, i: int) -> RelatedTopicModel
    decreases items, 0int,
{
    if 0 <= i < items.len() {
        items[i]@
    } else {
        arbitrary()
    }
}

/// What has been gathered from an object so far: one slot for each key of
/// either variant, empty until its key has been read.
pub ghost struct PartialModel {
    pub first_url: Option<Seq<char>>,
    pub icon: Option<IconModel>,
    pub result: Option<Seq<char>>,
    pub text: Option<Seq<char>>,
    pub name: Option<Seq<char>>,
    pub topics: Option<Seq<RelatedTopicModel>>,
}

impl PartialModel {
    /// Nothing gathered yet.
    pub open spec fn empty() -> PartialModel {
        PartialModel {
            first_url: None,
            icon: None,
            result: None,
            text: None,
            name: None,
            topics: None,
        }
    }

    /// Some key of a link has been read.
    pub open spec fn has_link(self) -> bool {
        self.first_url is Some || self.icon is Some || self.result is Some || self.text is Some
    }

    /// Some key of a category has been read.
    pub open spec fn has_category(self) -> bool {
        self.name is Some || self.topics is Some
    }
}

/// The entries that a `Topics` value lists, decoded with `depth` further
/// levels of nesting allowed: the value must be an array, and an array is
/// one level.
pub open spec fn topics_of(value: JsonModel, depth: nat) -> Result<
    Seq<RelatedTopicModel>,
    DecodeErrorModel,
>
    decreases depth, 0int, 0int,
{
    match value {
        JsonModel::Array(items) => if depth == 0 {
            Err(DecodeErrorModel::DepthExceeded)
        } else {
            related_topics_of(items, (depth - 1) as nat)
        },
        _ => Err(DecodeErrorModel::InvalidValue(value)),
    }
}

/// What is gathered once one more member has been read. The key says which
/// slot the value goes to and how it is decoded; a key that fits no slot is
/// unknown, and so are the keys of a category where only a link is allowed
/// (`union` false). A slot that is full already means a repeated key.
pub open spec fn absorb_of(seen: PartialModel, member: MemberModel, depth: nat, union: bool) -> Result<
    PartialModel,
    DecodeErrorModel,
>
    decreases depth, 1int, 0int,
{
    let key = member.key;
    if key == FIRST_URL@ {
        if seen.first_url is Some {
            Err(DecodeErrorModel::DuplicateKey(key))
        } else {
            match text_of(member.value) {
                Ok(text) => Ok(PartialModel { first_url: Some(text), ..seen }),
                Err(error) => Err(error),
            }
        }
    } else if key == ICON@ {
        if seen.icon is Some {
            Err(DecodeErrorModel::DuplicateKey(key))
        } else {
            match icon_of(member.value) {
                Ok(icon) => Ok(PartialModel { icon: Some(icon), ..seen }),
                Err(error) => Err(error),
            }
        }
    } else if key == RESULT@ {
        if seen.result is Some {
            Err(DecodeErrorModel::DuplicateKey(key))
        } else {
            match text_of(member.value) {
                Ok(text) => Ok(PartialModel { result: Some(text), ..seen }),
                Err(error) => Err(error),
            }
        }
    } else if key == TEXT@ {
        if seen.text is Some {
            Err(DecodeErrorModel::DuplicateKey(key))
        } else {
            match text_of(member.value) {
                Ok(text) => Ok(PartialModel { text: Some(text), ..seen }),
                Err(error) => Err(error),
            }
        }
    } else if union && key == NAME@ {
        if seen.name is Some {
            Err(DecodeErrorModel::DuplicateKey(key))
        } else {
            match text_of(member.value) {
                Ok(text) => Ok(PartialModel { name: Some(text), ..seen }),
                Err(error) => Err(error),
            }
        }
    } else if union && key == TOPICS@ {
        if seen.topics is Some {
            Err(DecodeErrorModel::DuplicateKey(key))
        } else {
            match topics_of(member.value, depth) {
                Ok(topics) => Ok(PartialModel { topics: Some(topics), ..seen }),
                Err(error) => Err(error),
            }
        }
    } else {
        Err(DecodeErrorModel::UnknownKey(key))
    }
}

/// What is gathered from the members of an object, read from first to last;
/// the first member at fault gives the error.
pub open spec fn scan_of(members: Seq<MemberModel>, depth: nat, union: bool) -> Result<
    PartialModel,
    DecodeErrorModel,
>
    decreases depth, 2int, members.len(),
{
    if members.len() == 0 {
        Ok(PartialModel::empty())
    } else {
        match scan_of(members.drop_last(), depth, union) {
            Ok(seen) => absorb_of(seen, members.last(), depth, union),
            Err(error) => Err(error),
        }
    }
}

/// The link that the slots make up: each of its four fields is required,
/// and the first one missing, in the order `FirstURL`, `Icon`, `Result`,
/// `Text`, gives the error.
pub open spec fn link_of(seen: PartialModel) -> Result<TopicResultModel, DecodeErrorModel> {
    if seen.first_url is None {
        Err(DecodeErrorModel::MissingRequiredField(FIRST_URL@))
    } else if seen.icon is None {
        Err(DecodeErrorModel::MissingRequiredField(ICON@))
    } else if seen.result is None {
        Err(DecodeErrorModel::MissingRequiredField(RESULT@))
    } else if seen.text is None {
        Err(DecodeErrorModel::MissingRequiredField(TEXT@))
    } else {
        Ok(
            TopicResultModel {
                first_url: seen.first_url->Some_0,
                icon: seen.icon->Some_0,
                result: seen.result->Some_0,
                text: seen.text->Some_0,
            },
        )
    }
}

/// The category that the slots make up: `Name` and `Topics` are required,
/// and the first one missing, in that order, gives the error.
pub open spec fn category_of(seen: PartialModel) -> Result<TopicModel, DecodeErrorModel> {
    if seen.name is None {
        Err(DecodeErrorModel::MissingRequiredField(NAME@))
    } else if seen.topics is None {
        Err(DecodeErrorModel::MissingRequiredField(TOPICS@))
    } else {
        Ok(TopicModel { topics: seen.topics->Some_0, name: seen.name->Some_0 })
    }
}

/// The variant that the slots decide on, once the object has ended: the one
/// of which any key was read. Keys of both, or of neither, decide nothing.
pub open spec fn settle_of(seen: PartialModel) -> Result<RelatedTopicModel, DecodeErrorModel> {
    if seen.has_link() == seen.has_category() {
        Err(DecodeErrorModel::AmbiguousOrEmptyObject)
    } else if seen.has_category() {
        match category_of(seen) {
            Ok(topic) => Ok(RelatedTopicModel::Topic(topic)),
            Err(error) => Err(error),
        }
    } else {
        match link_of(seen) {
            Ok(link) => Ok(RelatedTopicModel::TopicResult(link)),
            Err(error) => Err(error),
        }
    }
}

/// The related topic that a value describes, with `depth` levels of nested
/// `Topics` arrays allowed.
pub open spec fn related_topic_of(value: JsonModel, depth: nat) -> Result<
    RelatedTopicModel,
    DecodeErrorModel,
>
    decreases depth, 3int, 0int,
{
    match value {
        JsonModel::Object(members) => match scan_of(members, depth, true) {
            Ok(seen) => settle_of(seen),
            Err(error) => Err(error),
        },
        _ => Err(DecodeErrorModel::InvalidValue(value)),
    }
}

/// The related topics that the items of an array describe, in their order;
/// the first item at fault gives the error.
pub open spec fn related_topics_of(items: Seq<JsonModel>, depth: nat) -> Result<
    Seq<RelatedTopicModel>,
    DecodeErrorModel,
>
    decreases depth, 4int, items.len(),
{
    if items.len() == 0 {
        Ok(Seq::empty())
    } else {
        match related_topics_of(items.drop_last(), depth) {
            Ok(done) => match related_topic_of(items.last(), depth) {
                Ok(topic) => Ok(done.push(topic)),
                Err(error) => Err(error),
            },
            Err(error) => Err(error),
        }
    }
}

/// The link that a value describes: an object with exactly the keys
/// `FirstURL`, `Icon`, `Result` and `Text`.
pub open spec fn topic_result_of(value: JsonModel) -> Result<TopicResultModel, DecodeErrorModel> {
    match value {
        JsonModel::Object(members) => match scan_of(members, 0, false) {
            Ok(seen) => if seen.has_link() {
                link_of(seen)
            } else {
                Err(DecodeErrorModel::AmbiguousOrEmptyObject)
            },
            Err(error) => Err(error),
        },
        _ => Err(DecodeErrorModel::InvalidValue(value)),
    }
}

/// Once a member is at fault, the members after it change nothing.
pub proof fn lemma_scan_stops_at_fault(
    members: Seq<MemberModel>,
    read: int,
    depth: nat,
    union: bool,
)
    requires
        0 <= read <= members.len(),
        scan_of(members.take(read), depth, union) is Err,
    ensures
        scan_of(members, depth, union) == scan_of(members.take(read), depth, union),
    decreases members.len() - read,
{
    if read == members.len() {
        assert(members.take(read) =~= members);
    } else {
        assert(members.drop_last().take(read) =~= members.take(read));
        lemma_scan_stops_at_fault(members.drop_last(), read, depth, union);
    }
}

/// Once an item is at fault, the items after it change nothing.
pub proof fn lemma_list_stops_at_fault(items: Seq<JsonModel>, read: int, depth: nat)
    requires
        0 <= read <= items.len(),
        related_topics_of(items.take(read), depth) is Err,
    ensures
        related_topics_of(items, depth) == related_topics_of(items.take(read), depth),
    decreases items.len() - read,
{
    if read == items.len() {
        assert(items.take(read) =~= items);
    } else {
        assert(items.drop_last().take(read) =~= items.take(read));
        lemma_list_stops_at_fault(items.drop_last(), read, depth);
    }
}

/// A list of related topics, or the error in its place, as a value.
pub open spec fn topics_outcome(r: Result<Vec<RelatedTopic>, DecodeError>) -> Result<
    Seq<RelatedTopicModel>,
    DecodeErrorModel,
> {
    match r {
        Ok(list) => Ok(topic_models(list@)),
        Err(error) => Err(error@),
    }
}

/// What a slot holds, as a value.
pub open spec fn held<T: View>(slot: Option<T>) -> Option<T::V> {
    match slot {
        Some(value) => Some(value@),
        None => None,
    }
}

/// The slots that the resolver fills while it reads an object.
pub struct Partial {
    pub first_url: Option<String>,
    pub icon: Option<Icon>,
    pub result: Option<String>,
    pub text: Option<String>,
    pub name: Option<String>,
    pub topics: Option<Vec<RelatedTopic>>,
}

impl View for Partial {
    type V = PartialModel;

    open spec fn view(&self) -> PartialModel {
        PartialModel {
            first_url: held(self.first_url),
            icon: held(self.icon),
            result: held(self.result),
            text: held(self.text),
            name: held(self.name),
            topics: match self.topics {
                Some(list) => Some(topic_models(list@)),
                None => None,
            },
        }
    }
}

impl Partial {
    /// All slots empty.
    pub fn new() -> (seen: Partial)
        ensures
            seen@ == PartialModel::empty(),
    {
        Partial { first_url: None, icon: None, result: None, text: None, name: None, topics: None }
    }

    /// Reads the value for `key`, the key that `scanner` has just handed out,
    /// and puts it into the slot that the key names.
    pub fn absorb<'a>(
        self,
        key: &str,
        scanner: &mut KeyScanner<'a>,
        depth: usize,
        union: bool,
    ) -> (r: Result<Partial, DecodeError>)
        requires
            old(scanner).wf(),
            old(scanner).value_due(),
            key@ == old(scanner).members()[old(scanner).position() as int].key,
        ensures
            outcome(r) == absorb_of(
                self@,
                old(scanner).members()[old(scanner).position() as int],
                depth as nat,
                union,
            ),
            final(scanner).members() == old(scanner).members(),
            r is Ok ==> final(scanner).wf(),
            r is Ok ==> !final(scanner).value_due(),
            r is Ok ==> final(scanner).position() == old(scanner).position() + 1,
        decreases depth, 1int, 0int,
    {
        if same_text(key, FIRST_URL) {
            if self.first_url.is_some() {
                return Err(DecodeError::DuplicateKey(key.to_owned()));
            }
            let value = text(scanner.next_value())?;
            Ok(Partial { first_url: Some(value), ..self })
        } else if same_text(key, ICON) {
            if self.icon.is_some() {
                return Err(DecodeError::DuplicateKey(key.to_owned()));
            }
            let value = Icon::from_json(scanner.next_value())?;
            Ok(Partial { icon: Some(value), ..self })
        } else if same_text(key, RESULT) {
            if self.result.is_some() {
                return Err(DecodeError::DuplicateKey(key.to_owned()));
            }
            let value = text(scanner.next_value())?;
            Ok(Partial { result: Some(value), ..self })
        } else if same_text(key, TEXT) {
            if self.text.is_some() {
                return Err(DecodeError::DuplicateKey(key.to_owned()));
            }
            let value = text(scanner.next_value())?;
            Ok(Partial { text: Some(value), ..self })
        } else if union && same_text(key, NAME) {
            if self.name.is_some() {
                return Err(DecodeError::DuplicateKey(key.to_owned()));
            }
            let value = text(scanner.next_value())?;
            Ok(Partial { name: Some(value), ..self })
        } else if union && same_text(key, TOPICS) {
            if self.topics.is_some() {
                return Err(DecodeError::DuplicateKey(key.to_owned()));
            }
            let value = topics(scanner.next_value(), depth)?;
            Ok(Partial { topics: Some(value), ..self })
        } else {
            Err(DecodeError::UnknownKey(key.to_owned()))
        }
    }

    /// Reads the members of an object, one pair at a time, until it ends.
    pub fn scan(members: &Vec<Member>, depth: usize, union: bool) -> (r: Result<
        Partial,
        DecodeError,
    >)
        ensures
            outcome(r) == scan_of(member_models(members@), depth as nat, union),
        decreases depth, 2int, 0int,
    {
        let ghost models = member_models(members@);
        let mut scanner = KeyScanner::new(members);
        let mut seen = Partial::new();
        assert(models.take(0) =~= Seq::<MemberModel>::empty());
        loop
            invariant
                scanner.wf(),
                !scanner.value_due(),
                scanner.members() == models,
                models == member_models(members@),
                scanner.position() <= models.len(),
                scan_of(models.take(scanner.position() as int), depth as nat, union) == Ok::<
                    PartialModel,
                    DecodeErrorModel,
                >(seen@),
            decreases models.len() - scanner.position(),
        {
            let ghost at = scanner.position() as int;
            match scanner.next_key() {
                None => {
                    assert(models.take(at) =~= models);
                    return Ok(seen);
                },
                Some(key) => {
                    assert(models.take(at + 1).drop_last() =~= models.take(at));
                    assert(models.take(at + 1).last() == models[at]);
                    match seen.absorb(key.as_str(), &mut scanner, depth, union) {
                        Ok(next) => {
                            seen = next;
                        },
                        Err(error) => {
                            proof {
                                lemma_scan_stops_at_fault(models, at + 1, depth as nat, union);
                            }
                            return Err(error);
                        },
                    }
                },
            }
        }
    }

    /// Makes the link out of the slots.
    pub fn link(self) -> (r: Result<TopicResult, DecodeError>)
        ensures
            outcome(r) == link_of(self@),
    {
        match self.first_url {
            None => Err(DecodeError::MissingRequiredField(FIRST_URL.to_owned())),
            Some(first_url) => match self.icon {
                None => Err(DecodeError::MissingRequiredField(ICON.to_owned())),
                Some(icon) => match self.result {
                    None => Err(DecodeError::MissingRequiredField(RESULT.to_owned())),
                    Some(result) => match self.text {
                        None => Err(DecodeError::MissingRequiredField(TEXT.to_owned())),
                        Some(text) => Ok(TopicResult { first_url, icon, result, text }),
                    },
                },
            },
        }
    }

    /// Makes the category out of the slots.
    pub fn category(self) -> (r: Result<Topic, DecodeError>)
        ensures
            outcome(r) == category_of(self@),
    {
        match self.name {
            None => Err(DecodeError::MissingRequiredField(NAME.to_owned())),
            Some(name) => match self.topics {
                None => Err(DecodeError::MissingRequiredField(TOPICS.to_owned())),
                Some(topics) => Ok(Topic { topics, name }),
            },
        }
    }

    /// Whether some key of a link has been read.
    pub fn has_link(&self) -> (any: bool)
        ensures
            any == self@.has_link(),
    {
        self.first_url.is_some() || self.icon.is_some() || self.result.is_some()
            || self.text.is_some()
    }

    /// Whether some key of a category has been read.
    pub fn has_category(&self) -> (any: bool)
        ensures
            any == self@.has_category(),
    {
        self.name.is_some() || self.topics.is_some()
    }

    /// Decides the variant and makes it out of the slots.
    pub fn settle(self) -> (r: Result<RelatedTopic, DecodeError>)
        ensures
            outcome(r) == settle_of(self@),
    {
        let link = self.has_link();
        let category = self.has_category();
        if link == category {
            Err(DecodeError::AmbiguousOrEmptyObject)
        } else if category {
            let topic = self.category()?;
            Ok(RelatedTopic::Topic(topic))
        } else {
            let link = self.link()?;
            Ok(RelatedTopic::TopicResult(link))
        }
    }
}

/// Decodes the value of a `Topics` key.
pub fn topics(value: &Json, depth: usize) -> (r: Result<Vec<RelatedTopic>, DecodeError>)
    ensures
        topics_outcome(r) == topics_of(value@, depth as nat),
    decreases depth, 0int, 0int,
{
    match value {
        Json::Array(items) => if depth == 0 {
            Err(DecodeError::DepthExceeded)
        } else {
            related_topics(items, depth - 1)
        },
        _ => Err(DecodeError::InvalidValue(value.clone())),
    }
}

/// Decodes each item of an array as a related topic, keeping their order.
pub fn related_topics(items: &Vec<Json>, depth: usize) -> (r: Result<
    Vec<RelatedTopic>,
    DecodeError,
>)
    ensures
        topics_outcome(r) == related_topics_of(json_models(items@), depth as nat),
    decreases depth, 4int, 0int,
{
    let ghost models = json_models(items@);
    let mut done: Vec<RelatedTopic> = Vec::new();
    let mut i: usize = 0;
    assert(models.take(0) =~= Seq::<JsonModel>::empty());
    assert(topic_models(done@) =~= Seq::<RelatedTopicModel>::empty());
    while i < items.len()
        invariant
            i <= items.len(),
            models == json_models(items@),
            related_topics_of(models.take(i as int), depth as nat) == Ok::<
                Seq<RelatedTopicModel>,
                DecodeErrorModel,
            >(topic_models(done@)),
        decreases items.len() - i,
    {
        assert(models.take(i + 1).drop_last() =~= models.take(i as int));
        assert(models.take(i + 1).last() == items@[i as int]@);
        match RelatedTopic::from_json(&items[i], depth) {
            Ok(topic) => {
                let ghost before = topic_models(done@);
                done.push(topic);
                assert(topic_models(done@) =~= before.push(topic@));
            },
            Err(error) => {
                proof {
                    lemma_list_stops_at_fault(models, i + 1, depth as nat);
                }
                return Err(error);
            },
        }
        i += 1;
    }
    assert(models.take(i as int) =~= models);
    Ok(done)
}

impl RelatedTopic {
    /// Decodes one related topic: classifies the object as a link or a
    /// category by its keys, in whatever order they stand, and assembles the
    /// variant. `depth` is the number of nested `Topics` arrays allowed.
    pub fn from_json(value: &Json, depth: usize) -> (r: Result<RelatedTopic, DecodeError>)
        ensures
            outcome(r) == related_topic_of(value@, depth as nat),
        decreases depth, 3int, 0int,
    {
        match value {
            Json::Object(members) => {
                let seen = Partial::scan(members, depth, true)?;
                seen.settle()
            },
            _ => Err(DecodeError::InvalidValue(value.clone())),
        }
    }
}

impl TopicResult {
    /// Decodes one link: an object with exactly the four keys of a link.
    pub fn from_json(value: &Json) -> (r: Result<TopicResult, DecodeError>)
        ensures
            outcome(r) == topic_result_of(value@),
    {
        match value {
            Json::Object(members) => {
                let seen = Partial::scan(members, 0, false)?;
                if seen.has_link() {
                    seen.link()
                } else {
                    Err(DecodeError::AmbiguousOrEmptyObject)
                }
            },
            _ => Err(DecodeError::InvalidValue(value.clone())),
        }
    }
}

impl Clone for RelatedTopic {
    /// A deep copy.
    fn clone(&self) -> (copy: RelatedTopic)
        ensures
            copy@ == self@,
        decreases self,
    {
        match self {
            RelatedTopic::TopicResult(link) => RelatedTopic::TopicResult(
                TopicResult {
                    first_url: link.first_url.clone(),
                    icon: Icon {
                        height: link.icon.height,
                        url: link.icon.url.clone(),
                        width: link.icon.width,
                    },
                    result: link.result.clone(),
                    text: link.text.clone(),
                },
            ),
            RelatedTopic::Topic(topic) => {
                let mut copies: Vec<RelatedTopic> = Vec::new();
                let mut i: usize = 0;
                while i < topic.topics.len()
                    invariant
                        i <= topic.topics.len(),
                        copies.len() == i,
                        decreases_to!(self => topic.topics),
                        forall|k: int| 0 <= k < i ==> copies@[k]@ == topic.topics@[k]@,
                    decreases topic.topics.len() - i,
                {
                    let item = topic.topics[i].clone();
                    copies.push(item);
                    i += 1;
                }
                assert(topic_models(copies@) =~= topic_models(topic.topics@));
                RelatedTopic::Topic(Topic { topics: copies, name: topic.name.clone() })
            },
        }
    }
}

impl Clone for Topic {
    /// A deep copy.
    fn clone(&self) -> (copy: Topic)
        ensures
            copy@ == self@,
    {
        let mut copies: Vec<RelatedTopic> = Vec::new();
        let mut i: usize = 0;
        while i < self.topics.len()
            invariant
                i <= self.topics.len(),
                copies.len() == i,
                forall|k: int| 0 <= k < i ==> copies@[k]@ == self.topics@[k]@,
            decreases self.topics.len() - i,
        {
            let item = self.topics[i].clone();
            copies.push(item);
            i += 1;
        }
        assert(topic_models(copies@) =~= topic_models(self.topics@));
        Topic { topics: copies, name: self.name.clone() }
    }
}

} // verus!
