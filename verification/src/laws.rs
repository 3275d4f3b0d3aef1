//! What holds of decoding whatever the input: the order of keys is
//! irrelevant, an unknown key is fatal, and the depth limit is exact.

use crate::error::DecodeErrorModel;
use crate::icon::icon_of;
use crate::json::{JsonModel, MemberModel};
use crate::related_topic::{
    absorb_of, lemma_scan_stops_at_fault, related_topic_of, related_topics_of, scan_of,
    topic_result_of, topics_of, PartialModel, RelatedTopicModel, TopicModel, TopicResultModel,
    FIRST_URL, ICON, NAME, RESULT, TEXT, TOPICS,
};
use vstd::prelude::*;

verus! {

/// The six keys are six different texts.
pub proof fn lemma_keys_differ()
    ensures
        FIRST_URL@ != ICON@,
        FIRST_URL@ != RESULT@,
        FIRST_URL@ != TEXT@,
        FIRST_URL@ != NAME@,
        FIRST_URL@ != TOPICS@,
        ICON@ != RESULT@,
        ICON@ != TEXT@,
        ICON@ != NAME@,
        ICON@ != TOPICS@,
        RESULT@ != TEXT@,
        RESULT@ != NAME@,
        RESULT@ != TOPICS@,
        TEXT@ != NAME@,
        TEXT@ != TOPICS@,
        NAME@ != TOPICS@,
{
    reveal_strlit("FirstURL");
    reveal_strlit("Icon");
    reveal_strlit("Result");
    reveal_strlit("Text");
    reveal_strlit("Name");
    reveal_strlit("Topics");
    assert(FIRST_URL@.len() == 8);
    assert(ICON@.len() == 4 && TEXT@.len() == 4 && NAME@.len() == 4);
    assert(RESULT@.len() == 6 && TOPICS@.len() == 6);
    assert(ICON@[0] != TEXT@[0]);
    assert(ICON@[0] != NAME@[0]);
    assert(TEXT@[0] != NAME@[0]);
    assert(RESULT@[0] != TOPICS@[0]);
}

/// The member is in order by itself: its key is known and its value is one
/// that the key admits.
pub open spec fn sound(member: MemberModel, depth: nat, union: bool) -> bool {
    absorb_of(PartialModel::empty(), member, depth, union) is Ok
}

/// No two members have the same key.
pub open spec fn distinct_keys(members: Seq<MemberModel>) -> bool {
    forall|i: int, j: int|
        0 <= i < j < members.len() ==> (#[trigger] members[i]).key != (#[trigger] members[j]).key
}

/// The value of the first member with this key.
pub open spec fn pick(members: Seq<MemberModel>, key: Seq<char>) -> Option<JsonModel>
    decreases members.len(),
{
    if members.len() == 0 {
        None
    } else {
        match pick(members.drop_last(), key) {
            Some(value) => Some(value),
            None => if members.last().key == key {
                Some(members.last().value)
            } else {
                None
            },
        }
    }
}

/// The text under this key, where there is one.
pub open spec fn pick_text(members: Seq<MemberModel>, key: Seq<char>) -> Option<Seq<char>> {
    match pick(members, key) {
        Some(JsonModel::Str(text)) => Some(text),
        _ => None,
    }
}

/// The slots as the keys fill them, whatever the order of the members.
pub open spec fn gather(members: Seq<MemberModel>, depth: nat) -> PartialModel {
    PartialModel {
        first_url: pick_text(members, FIRST_URL@),
        icon: match pick(members, ICON@) {
            Some(value) => match icon_of(value) {
                Ok(icon) => Some(icon),
                Err(_) => None,
            },
            None => None,
        },
        result: pick_text(members, RESULT@),
        text: pick_text(members, TEXT@),
        name: pick_text(members, NAME@),
        topics: match pick(members, TOPICS@) {
            Some(value) => match topics_of(value, depth) {
                Ok(topics) => Some(topics),
                Err(_) => None,
            },
            None => None,
        },
    }
}

/// A key is picked exactly where some member has it, and among distinct
/// keys the pick is the value of that member.
pub proof fn lemma_pick(members: Seq<MemberModel>, key: Seq<char>)
    ensures
        pick(members, key) is None <==> forall|i: int|
            0 <= i < members.len() ==> (#[trigger] members[i]).key != key,
        distinct_keys(members) ==> forall|i: int|
            0 <= i < members.len() && (#[trigger] members[i]).key == key ==> pick(members, key)
                == Some(members[i].value),
    decreases members.len(),
{
    if members.len() > 0 {
        let init = members.drop_last();
        lemma_pick(init, key);
        assert forall|i: int| 0 <= i < init.len() implies (#[trigger] init[i]) == members[i] by {}
        if pick(members, key) is None {
            assert forall|i: int| 0 <= i < members.len() implies (#[trigger] members[i]).key
                != key by {
                if i < init.len() {
                    assert(init[i].key != key);
                }
            }
        }
        if distinct_keys(members) {
            assert(distinct_keys(init)) by {
                assert forall|i: int, j: int| 0 <= i < j < init.len() implies (#[trigger] init[i]).key
                    != (#[trigger] init[j]).key by {
                    assert(members[i].key != members[j].key);
                }
            }
            assert forall|i: int|
                0 <= i < members.len() && (#[trigger] members[i]).key == key implies pick(
                members,
                key,
            ) == Some(members[i].value) by {
                if i < init.len() {
                    assert(init[i].key == key);
                } else {
                    assert forall|k: int| 0 <= k < init.len() implies (#[trigger] init[k]).key
                        != key by {
                        assert(members[k].key != members[i].key);
                    }
                }
            }
        }
    }
}

/// Reading succeeds exactly on members that are each in order and have
/// distinct keys, and then fills the slots as the keys say.
pub proof fn lemma_scan_characterized(members: Seq<MemberModel>, depth: nat, union: bool)
    ensures
        scan_of(members, depth, union) is Ok <==> distinct_keys(members) && forall|i: int|
            0 <= i < members.len() ==> sound(#[trigger] members[i], depth, union),
        scan_of(members, depth, union) is Ok ==> scan_of(members, depth, union)->Ok_0 == gather(
            members,
            depth,
        ),
    decreases members.len(),
{
    lemma_keys_differ();
    if members.len() > 0 {
        let init = members.drop_last();
        let last = members.last();
        lemma_scan_characterized(init, depth, union);
        lemma_pick(init, last.key);
        lemma_pick(init, FIRST_URL@);
        lemma_pick(init, ICON@);
        lemma_pick(init, RESULT@);
        lemma_pick(init, TEXT@);
        lemma_pick(init, NAME@);
        lemma_pick(init, TOPICS@);
        assert forall|i: int| 0 <= i < init.len() implies (#[trigger] init[i]) == members[i] by {}
        let good = distinct_keys(members) && forall|i: int|
            0 <= i < members.len() ==> sound(#[trigger] members[i], depth, union);
        if scan_of(members, depth, union) is Ok {
            let seen = scan_of(init, depth, union)->Ok_0;
            assert(seen == gather(init, depth));
            assert(absorb_of(seen, last, depth, union) is Ok);
            assert(pick(init, last.key) is None);
            assert(sound(last, depth, union));
            assert(distinct_keys(members)) by {
                assert forall|i: int, j: int| 0 <= i < j < members.len() implies (
                #[trigger] members[i]).key != (#[trigger] members[j]).key by {
                    if j < init.len() {
                        assert(init[i].key != init[j].key);
                    } else {
                        assert(init[i].key != last.key);
                    }
                }
            }
            assert forall|i: int| 0 <= i < members.len() implies sound(
                #[trigger] members[i],
                depth,
                union,
            ) by {
                if i < init.len() {
                    assert(sound(init[i], depth, union));
                }
            }
            assert(good);
        }
        if good {
            assert(distinct_keys(init)) by {
                assert forall|i: int, j: int| 0 <= i < j < init.len() implies (#[trigger] init[i]).key
                    != (#[trigger] init[j]).key by {
                    assert(members[i].key != members[j].key);
                }
            }
            assert forall|i: int| 0 <= i < init.len() implies sound(
                #[trigger] init[i],
                depth,
                union,
            ) by {
                assert(sound(members[i], depth, union));
            }
            assert(scan_of(init, depth, union) is Ok);
            assert(sound(members[members.len() - 1], depth, union));
            assert forall|k: int| 0 <= k < init.len() implies (#[trigger] init[k]).key
                != last.key by {
                assert(members[k].key != members[members.len() - 1].key);
            }
            assert(pick(init, last.key) is None);
            let seen = scan_of(init, depth, union)->Ok_0;
            assert(seen == gather(init, depth));
            assert(sound(last, depth, union));
            assert(absorb_of(seen, last, depth, union) is Ok);
            assert(scan_of(members, depth, union) is Ok);
        }
    }
}

/// Members that are each in order and have distinct keys stay so in any
/// other order, and every key picks the same value.
pub proof fn lemma_order_keeps_picks(
    a: Seq<MemberModel>,
    b: Seq<MemberModel>,
    depth: nat,
    union: bool,
)
    requires
        a.to_multiset() == b.to_multiset(),
        distinct_keys(a),
        forall|i: int| 0 <= i < a.len() ==> sound(#[trigger] a[i], depth, union),
    ensures
        distinct_keys(b),
        forall|j: int| 0 <= j < b.len() ==> sound(#[trigger] b[j], depth, union),
        forall|key: Seq<char>| pick(a, key) == pick(b, key),
{
    broadcast use vstd::seq_lib::to_multiset_contains;

    assert forall|j: int| 0 <= j < b.len() implies a.contains(#[trigger] b[j]) by {
        assert(b.contains(b[j]));
        assert(b.to_multiset().count(b[j]) > 0);
    }
    assert forall|i: int| 0 <= i < a.len() implies b.contains(#[trigger] a[i]) by {
        assert(a.contains(a[i]));
        assert(a.to_multiset().count(a[i]) > 0);
    }
    assert(a.no_duplicates()) by {
        assert forall|i: int, j: int| 0 <= i < a.len() && 0 <= j < a.len() && i != j implies a[i]
            != a[j] by {
            if i < j {
                assert(a[i].key != a[j].key);
            } else {
                assert(a[j].key != a[i].key);
            }
        }
    }
    a.lemma_multiset_has_no_duplicates();
    b.lemma_multiset_has_no_duplicates_conv();
    assert forall|i: int, j: int| 0 <= i < j < b.len() implies (#[trigger] b[i]).key != (
    #[trigger] b[j]).key by {
        assert(b[i] != b[j]);
        let p = choose|p: int| 0 <= p < a.len() && a[p] == b[i];
        let q = choose|q: int| 0 <= q < a.len() && a[q] == b[j];
        if p < q {
            assert(a[p].key != a[q].key);
        } else {
            assert(a[q].key != a[p].key);
        }
    }
    assert forall|j: int| 0 <= j < b.len() implies sound(#[trigger] b[j], depth, union) by {
        let p = choose|p: int| 0 <= p < a.len() && a[p] == b[j];
        assert(sound(a[p], depth, union));
    }
    assert forall|key: Seq<char>| pick(a, key) == pick(b, key) by {
        lemma_pick(a, key);
        lemma_pick(b, key);
        if pick(a, key) is None {
            assert forall|j: int| 0 <= j < b.len() implies (#[trigger] b[j]).key != key by {
                let p = choose|p: int| 0 <= p < a.len() && a[p] == b[j];
                assert(a[p].key != key);
            }
        } else {
            let i = choose|i: int| 0 <= i < a.len() && (#[trigger] a[i]).key == key;
            let j = choose|j: int| 0 <= j < b.len() && b[j] == a[i];
            assert(b[j].key == key);
        }
    }
}

/// The order of the members of an object is irrelevant: two objects that
/// hold the same members, in whatever order each, decode alike as soon as
/// one of them decodes.
pub proof fn lemma_member_order_irrelevant(a: Seq<MemberModel>, b: Seq<MemberModel>, depth: nat)
    requires
        a.to_multiset() == b.to_multiset(),
    ensures
        related_topic_of(JsonModel::Object(a), depth) is Ok || related_topic_of(
            JsonModel::Object(b),
            depth,
        ) is Ok ==> related_topic_of(JsonModel::Object(a), depth) == related_topic_of(
            JsonModel::Object(b),
            depth,
        ),
{
    lemma_scan_characterized(a, depth, true);
    lemma_scan_characterized(b, depth, true);
    if scan_of(a, depth, true) is Ok {
        lemma_order_keeps_picks(a, b, depth, true);
    }
    if scan_of(b, depth, true) is Ok {
        lemma_order_keeps_picks(b, a, depth, true);
    }
}

/// The same holds where only a link is allowed: two objects that hold the
/// same members decode to the same link as soon as one of them decodes.
pub proof fn lemma_link_order_irrelevant(a: Seq<MemberModel>, b: Seq<MemberModel>)
    requires
        a.to_multiset() == b.to_multiset(),
    ensures
        topic_result_of(JsonModel::Object(a)) is Ok || topic_result_of(JsonModel::Object(b)) is Ok
            ==> topic_result_of(JsonModel::Object(a)) == topic_result_of(JsonModel::Object(b)),
{
    lemma_scan_characterized(a, 0, false);
    lemma_scan_characterized(b, 0, false);
    if scan_of(a, 0, false) is Ok {
        lemma_order_keeps_picks(a, b, 0, false);
    }
    if scan_of(b, 0, false) is Ok {
        lemma_order_keeps_picks(b, a, 0, false);
    }
}

/// The members of a link, in the order in which a link declares them.
pub open spec fn link_members(
    first_url: JsonModel,
    icon: JsonModel,
    result: JsonModel,
    text: JsonModel,
) -> Seq<MemberModel> {
    seq![
        MemberModel { key: FIRST_URL@, value: first_url },
        MemberModel { key: ICON@, value: icon },
        MemberModel { key: RESULT@, value: result },
        MemberModel { key: TEXT@, value: text },
    ]
}

/// The members of a category, in the order in which a category declares
/// them.
pub open spec fn category_members(name: JsonModel, topics: JsonModel) -> Seq<MemberModel> {
    seq![MemberModel { key: NAME@, value: name }, MemberModel { key: TOPICS@, value: topics }]
}

/// In each of the orders in which the keys `FirstURL`, `Icon`, `Result` and
/// `Text` can stand, the same four values decode to the same link.
pub proof fn lemma_link_in_any_order(
    members: Seq<MemberModel>,
    first_url: Seq<char>,
    icon: JsonModel,
    result: Seq<char>,
    text: Seq<char>,
    depth: nat,
)
    requires
        members.to_multiset() == link_members(
            JsonModel::Str(first_url),
            icon,
            JsonModel::Str(result),
            JsonModel::Str(text),
        ).to_multiset(),
        icon_of(icon) is Ok,
    ensures
        related_topic_of(JsonModel::Object(members), depth) == Ok::<
            RelatedTopicModel,
            DecodeErrorModel,
        >(
            RelatedTopicModel::TopicResult(
                TopicResultModel { first_url, icon: icon_of(icon)->Ok_0, result, text },
            ),
        ),
{
    let declared = link_members(
        JsonModel::Str(first_url),
        icon,
        JsonModel::Str(result),
        JsonModel::Str(text),
    );
    lemma_keys_differ();
    assert(related_topic_of(JsonModel::Object(declared), depth) == Ok::<
        RelatedTopicModel,
        DecodeErrorModel,
    >(
        RelatedTopicModel::TopicResult(
            TopicResultModel { first_url, icon: icon_of(icon)->Ok_0, result, text },
        ),
    )) by {
        lemma_scan_characterized(declared, depth, true);
        lemma_pick(declared, FIRST_URL@);
        lemma_pick(declared, ICON@);
        lemma_pick(declared, RESULT@);
        lemma_pick(declared, TEXT@);
        lemma_pick(declared, NAME@);
        lemma_pick(declared, TOPICS@);
        assert(declared[0].key == FIRST_URL@ && declared[1].key == ICON@ && declared[2].key
            == RESULT@ && declared[3].key == TEXT@);
        assert(distinct_keys(declared));
        assert forall|i: int| 0 <= i < declared.len() implies sound(
            #[trigger] declared[i],
            depth,
            true,
        ) by {}
    }
    lemma_member_order_irrelevant(declared, members, depth);
}

/// In both orders in which the keys `Name` and `Topics` can stand, the same
/// two values decode to the same category.
pub proof fn lemma_category_in_any_order(
    members: Seq<MemberModel>,
    name: Seq<char>,
    topics: JsonModel,
    depth: nat,
)
    requires
        members.to_multiset() == category_members(JsonModel::Str(name), topics).to_multiset(),
        topics_of(topics, depth) is Ok,
    ensures
        related_topic_of(JsonModel::Object(members), depth) == Ok::<
            RelatedTopicModel,
            DecodeErrorModel,
        >(RelatedTopicModel::Topic(TopicModel { topics: topics_of(topics, depth)->Ok_0, name })),
{
    let declared = category_members(JsonModel::Str(name), topics);
    lemma_keys_differ();
    assert(related_topic_of(JsonModel::Object(declared), depth) == Ok::<
        RelatedTopicModel,
        DecodeErrorModel,
    >(RelatedTopicModel::Topic(TopicModel { topics: topics_of(topics, depth)->Ok_0, name })))
        by {
        lemma_scan_characterized(declared, depth, true);
        lemma_pick(declared, FIRST_URL@);
        lemma_pick(declared, ICON@);
        lemma_pick(declared, RESULT@);
        lemma_pick(declared, TEXT@);
        lemma_pick(declared, NAME@);
        lemma_pick(declared, TOPICS@);
        assert(declared[0].key == NAME@ && declared[1].key == TOPICS@);
        assert(distinct_keys(declared));
        assert forall|i: int| 0 <= i < declared.len() implies sound(
            #[trigger] declared[i],
            depth,
            true,
        ) by {}
    }
    lemma_member_order_irrelevant(declared, members, depth);
}

/// The key is one of the six that a related topic knows.
pub open spec fn known_key(key: Seq<char>) -> bool {
    key == FIRST_URL@ || key == ICON@ || key == RESULT@ || key == TEXT@ || key == NAME@ || key
        == TOPICS@
}

/// An unknown key is fatal: an object that holds a key outside the two key
/// sets never decodes, and where the members before that key are in order
/// the error names the key.
pub proof fn lemma_unknown_key_is_fatal(members: Seq<MemberModel>, at: int, depth: nat)
    requires
        0 <= at < members.len(),
        !known_key(members[at].key),
    ensures
        related_topic_of(JsonModel::Object(members), depth) is Err,
        scan_of(members.take(at), depth, true) is Ok ==> related_topic_of(
            JsonModel::Object(members),
            depth,
        ) == Err::<RelatedTopicModel, DecodeErrorModel>(
            DecodeErrorModel::UnknownKey(members[at].key),
        ),
{
    let read = members.take(at + 1);
    assert(read.drop_last() =~= members.take(at));
    assert(read.last() == members[at]);
    if scan_of(members.take(at), depth, true) is Err {
        lemma_scan_stops_at_fault(members, at, depth, true);
    } else {
        let seen = scan_of(members.take(at), depth, true)->Ok_0;
        assert(scan_of(read, depth, true) == absorb_of(seen, members[at], depth, true));
        lemma_scan_stops_at_fault(members, at + 1, depth, true);
    }
}

/// How many `Topics` arrays a related topic nests: none for a link, and for
/// a category one more than the deepest of its entries.
pub open spec fn levels(topic: RelatedTopicModel) -> nat
    decreases topic, 0int,
{
    match topic {
        RelatedTopicModel::TopicResult(_) => 0,
        RelatedTopicModel::Topic(category) => 1 + deepest(category.topics),
    }
}

/// The most levels that any of the entries nests.
pub open spec fn deepest(topics: Seq<RelatedTopicModel>) -> nat
    decreases topics, 1int,
{
    if topics.len() == 0 {
        0
    } else {
        let before = deepest(topics.drop_last());
        let last = levels(topics.last());
        if before >= last {
            before
        } else {
            last
        }
    }
}

/// The levels that the slots hold.
pub open spec fn levels_seen(seen: PartialModel) -> nat {
    match seen.topics {
        Some(topics) => 1 + deepest(topics),
        None => 0,
    }
}

/// What a limit makes of a decoding that succeeds under the limit `enough`
/// and nests `needed` levels: the same where it allows the levels, and
/// `DepthExceeded` where it does not.
pub open spec fn limited<T>(
    under_enough: Result<T, DecodeErrorModel>,
    under_depth: Result<T, DecodeErrorModel>,
    needed: nat,
    enough: nat,
    depth: nat,
) -> bool {
    &&& needed <= enough
    &&& depth >= needed ==> under_depth == under_enough
    &&& depth < needed ==> under_depth == Err::<T, DecodeErrorModel>(
        DecodeErrorModel::DepthExceeded,
    )
}

/// The depth limit is exact for what an object gathers.
pub proof fn lemma_scan_limited(members: Seq<MemberModel>, enough: nat, depth: nat, union: bool)
    requires
        scan_of(members, enough, union) is Ok,
    ensures
        limited(
            scan_of(members, enough, union),
            scan_of(members, depth, union),
            levels_seen(scan_of(members, enough, union)->Ok_0),
            enough,
            depth,
        ),
    decreases enough, 2int, members.len(),
{
    if members.len() > 0 {
        let init = members.drop_last();
        let last = members.last();
        lemma_scan_limited(init, enough, depth, union);
        lemma_keys_differ();
        let before = scan_of(init, enough, union)->Ok_0;
        assert(scan_of(members, enough, union) == absorb_of(before, last, enough, union));
        if union && last.key == TOPICS@ {
            assert(topics_of(last.value, enough) is Ok);
            lemma_topics_limited(last.value, enough, depth);
        }
        if depth >= levels_seen(before) {
            assert(scan_of(members, depth, union) == absorb_of(before, last, depth, union));
        }
    }
}

/// The depth limit is exact for the value of a `Topics` key.
pub proof fn lemma_topics_limited(value: JsonModel, enough: nat, depth: nat)
    requires
        topics_of(value, enough) is Ok,
    ensures
        limited(
            topics_of(value, enough),
            topics_of(value, depth),
            1 + deepest(topics_of(value, enough)->Ok_0),
            enough,
            depth,
        ),
    decreases enough, 0int, 0int,
{
    if depth > 0 {
        lemma_list_limited(value->Array_0, (enough - 1) as nat, (depth - 1) as nat);
    } else {
        lemma_list_limited(value->Array_0, (enough - 1) as nat, 0);
    }
}

/// The depth limit is exact for the items of an array.
pub proof fn lemma_list_limited(items: Seq<JsonModel>, enough: nat, depth: nat)
    requires
        related_topics_of(items, enough) is Ok,
    ensures
        limited(
            related_topics_of(items, enough),
            related_topics_of(items, depth),
            deepest(related_topics_of(items, enough)->Ok_0),
            enough,
            depth,
        ),
    decreases enough, 4int, items.len(),
{
    if items.len() > 0 {
        lemma_list_limited(items.drop_last(), enough, depth);
        lemma_depth_limit_exact(items.last(), enough, depth);
        let done = related_topics_of(items.drop_last(), enough)->Ok_0;
        let topic = related_topic_of(items.last(), enough)->Ok_0;
        assert(done.push(topic).drop_last() =~= done);
    }
}

/// The depth limit is exact: a value that decodes under some limit decodes
/// to the same related topic under every limit that allows the levels it
/// nests, and under every lower limit it fails with `DepthExceeded`.
pub proof fn lemma_depth_limit_exact(value: JsonModel, enough: nat, depth: nat)
    requires
        related_topic_of(value, enough) is Ok,
    ensures
        limited(
            related_topic_of(value, enough),
            related_topic_of(value, depth),
            levels(related_topic_of(value, enough)->Ok_0),
            enough,
            depth,
        ),
    decreases enough, 3int, 0int,
{
    lemma_scan_limited(value->Object_0, enough, depth, true);
}

} // verus!
