//! What each call comes to, told from what it was given and what it gave back: who is a member of
//! a group, what is signed, how votes are handed on, when all candidates of a list are includable.
use crate::context::{index_mapping_of, GroupInfo, TableContext};
use crate::crypto::{ed25519_public_key, ed25519_signature, Pair};
use crate::digest_map::DigestMap;
use crate::includable::{answered, flags_of, survey, IncludabilitySender};
use crate::primitives::{
    BlockId, CandidateReceipt, H256, ParaId, SessionKey, Signature, ValidatorIndex,
};
use crate::statement::{
    attested, statement_digest, AttestedCandidate, GenericStatement, SignedStatement, Statement,
    Summary, TableAttestation, TableCandidate, TableReport, ValidityAttestation,
};
use std::collections::HashMap;
use vstd::prelude::*;
use vstd::std_specs::cmp::PartialEqSpec;

verus! {

/// Digests are equal if and only if all their bytes are, and so are session keys.
pub proof fn law_equal_by_every_byte(a: [u8; 32], b: [u8; 32])
    ensures
        H256(a).eq_spec(&H256(b)) <==> forall|i: int| 0 <= i < 32 ==> #[trigger] a[i] == b[i],
        SessionKey(a).eq_spec(&SessionKey(b)) <==> forall|i: int|
            0 <= i < 32 ==> #[trigger] a[i] == b[i],
{
    if forall|i: int| 0 <= i < 32 ==> #[trigger] a[i] == b[i] {
        assert(a =~= b);
    }
}

/// A block is named by the hash that was given, and a candidate is known by the digest that its
/// receipt carries.
pub proof fn law_names(
    hash: H256,
    id: BlockId,
    receipt: &CandidateReceipt,
    digest: H256,
)
    requires
        call_ensures(BlockId::hash, (hash,), id),
        call_ensures(CandidateReceipt::hash, (receipt,), digest),
    ensures
        id.0 == hash,
        digest == receipt.candidate_hash,
{
}

/// The value of a hexadecimal digit.
pub open spec fn digit_value(digit: char) -> int {
    if '0' <= digit <= '9' {
        digit as int - '0' as int
    } else {
        digit as int - 'a' as int + 10
    }
}

/// Whether two characters are the hexadecimal digits of a byte, in lower case.
pub open spec fn are_digits_of(high: char, low: char, byte: u8) -> bool {
    &&& '0' <= high <= '9' || 'a' <= high <= 'f'
    &&& '0' <= low <= '9' || 'a' <= low <= 'f'
    &&& digit_value(high) * 16 + digit_value(low) == byte
}

/// A digest is shown by the hexadecimal digits of its first two and of its last two bytes, after
/// `0x` and with an ellipsis between.
pub proof fn law_abbreviation(digest: &H256, text: String)
    requires
        call_ensures(H256::abbreviate, (digest,), text),
    ensures
        text@.len() == 11,
        text@[0] == '0' && text@[1] == 'x',
        are_digits_of(text@[2], text@[3], digest.0[0]),
        are_digits_of(text@[4], text@[5], digest.0[1]),
        text@[6] == '\u{2026}',
        are_digits_of(text@[7], text@[8], digest.0[30]),
        are_digits_of(text@[9], text@[10], digest.0[31]),
{
}

/// A key pair made of a seed has the public key that belongs to the seed, and signs with it.
pub proof fn law_key_pair(
    seed: [u8; 32],
    pair: Pair,
    key: SessionKey,
    message: &[u8],
    signature: Signature,
)
    requires
        call_ensures(Pair::from_seed, (seed,), pair),
        call_ensures(Pair::public, (&pair,), key),
        call_ensures(Pair::sign, (&pair, message), signature),
    ensures
        pair.secret() == seed@,
        pair.public_key() == key,
        key.0 == ed25519_public_key(seed@),
        signature.0 == ed25519_signature(seed@, message@),
{
}

/// A new map has no value for any digest.
pub proof fn law_new_map_is_empty<V>(map: DigestMap<V>, digest: &H256, value: Option<&V>)
    requires
        call_ensures(DigestMap::<V>::new, (), map),
        call_ensures(DigestMap::<V>::get, (&map, digest), value),
    ensures
        map.wf(),
        value is None,
{
}

/// After an insertion the map has the value for the digest, and for every other digest what it
/// had before.
pub proof fn law_read_after_insert<V>(
    map: &mut DigestMap<V>,
    digest: H256,
    value: V,
    other: &H256,
    before: Option<&V>,
    after: Option<&V>,
    present: bool,
)
    requires
        call_ensures(DigestMap::<V>::insert, (map, digest, value), ()),
        call_ensures(DigestMap::<V>::get, (&*old(map), other), before),
        call_ensures(DigestMap::<V>::get, (&*final(map), other), after),
        call_ensures(DigestMap::<V>::contains_key, (&*final(map), other), present),
    ensures
        final(map).wf(),
        after == if *other == digest {
            Some(&value)
        } else {
            before
        },
        present <==> after is Some,
{
}

/// A validator is a member of a group if and only if its key stands at some place of the list of
/// guarantors.
pub proof fn law_membership_is_occurrence(info: &GroupInfo, key: &SessionKey, member: bool)
    requires
        call_ensures(GroupInfo::is_guarantor, (info, key), member),
    ensures
        forall|i: int|
            0 <= i < info.validity_guarantors@.len() && #[trigger] info.validity_guarantors@[i]
                == *key ==> member,
        member ==> exists|i: int|
            0 <= i < info.validity_guarantors@.len() && #[trigger] info.validity_guarantors@[i]
                == *key,
{
}

/// Membership does not depend on how many votes a candidate needs, nor on the order of the
/// guarantors or on how often each is listed.
pub proof fn law_membership_depends_on_the_keys_alone(
    info: &GroupInfo,
    other: &GroupInfo,
    key: &SessionKey,
    member: bool,
    other_member: bool,
)
    requires
        forall|key: SessionKey|
            info.validity_guarantors@.contains(key) <==> #[trigger]
            other.validity_guarantors@.contains(key),
        call_ensures(GroupInfo::is_guarantor, (info, key), member),
        call_ensures(GroupInfo::is_guarantor, (other, key), other_member),
    ensures
        member == other_member,
{
    law_membership_is_occurrence(info, key, member);
    law_membership_is_occurrence(other, key, other_member);
    assert(info.validity_guarantors@.contains(*key) == member);
    assert(other.validity_guarantors@.contains(*key) == other_member);
}

/// The validator with an index is a member of a parachain's group if and only if the index has a
/// key, the parachain has a group, and the key stands at some place of its list of guarantors.
pub proof fn law_member_of_a_group(
    context: &TableContext,
    authority: ValidatorIndex,
    group: &ParaId,
    member: bool,
)
    requires
        call_ensures(TableContext::is_member_of, (context, authority, group), member),
    ensures
        member <==> {
            &&& context.index_mapping@.contains_key(authority)
            &&& context.groups@.contains_key(*group)
            &&& exists|i: int|
                0 <= i < context.groups@[*group].validity_guarantors@.len()
                    && #[trigger] context.groups@[*group].validity_guarantors@[i]
                    == context.index_mapping@[authority]
        },
{
}

/// A candidate needs as many votes as its parachain's group asks for, and more than there can be
/// where the parachain has no group.
pub proof fn law_requisite_votes(context: &TableContext, group: &ParaId, votes: usize)
    requires
        call_ensures(TableContext::requisite_votes, (context, group), votes),
    ensures
        context.groups@.contains_key(*group) ==> votes
            == context.groups@[*group].needed_validity,
        !context.groups@.contains_key(*group) ==> votes == usize::MAX,
{
}

/// A context holds what it was made with. Every authority has its position as its index, and no
/// other index has a key. Where there are more authorities than indices, the last of those that
/// share an index has it.
pub proof fn law_new_context(
    authorities: &[SessionKey],
    groups: HashMap<ParaId, GroupInfo>,
    key: Pair,
    parent_hash: H256,
    context: TableContext,
    i: int,
    id: SessionKey,
)
    requires
        call_ensures(TableContext::new, (authorities, groups, key, parent_hash), context),
        call_ensures(TableContext::local_id, (&context,), id),
    ensures
        context.parent_hash == parent_hash,
        context.key == key,
        context.groups == groups,
        id == key.public_key(),
        0 <= i < authorities@.len() <= i + 0x1_0000_0000 ==> {
            &&& context.index_mapping@.contains_key((i % 0x1_0000_0000) as ValidatorIndex)
            &&& context.index_mapping@[(i % 0x1_0000_0000) as ValidatorIndex] == authorities@[i]
        },
        authorities@.len() <= i < 0x1_0000_0000 ==> !context.index_mapping@.contains_key(
            i as ValidatorIndex,
        ),
{
    assert(authorities.len() == authorities@.len());
    lemma_index_mapping(authorities@, i);
}

/// What the index of a position leads to.
pub proof fn lemma_index_mapping(authorities: Seq<SessionKey>, i: int)
    requires
        authorities.len() <= u64::MAX,
    ensures
        0 <= i < authorities.len() <= i + 0x1_0000_0000 ==> {
            &&& index_mapping_of(authorities).contains_key((i % 0x1_0000_0000) as ValidatorIndex)
            &&& index_mapping_of(authorities)[(i % 0x1_0000_0000) as ValidatorIndex]
                == authorities[i]
        },
        authorities.len() <= i < 0x1_0000_0000 ==> !index_mapping_of(authorities).contains_key(
            i as ValidatorIndex,
        ),
    decreases authorities.len(),
{
    if authorities.len() > 0 {
        lemma_index_mapping(authorities.drop_last(), i);
        let last = authorities.len() - 1;
        let position = last as u64;
        assert(position as u32 == (position % 0x1_0000_0000) as u32) by (bit_vector);
        if 0 <= i < last && authorities.len() <= i + 0x1_0000_0000 {
            assert(i % 0x1_0000_0000 != last % 0x1_0000_0000);
        }
    }
}

/// The local validator's index is one that has its key, and it is found wherever there is one.
pub proof fn law_own_index(
    context: &TableContext,
    id: SessionKey,
    index: ValidatorIndex,
    found: Option<ValidatorIndex>,
    other: ValidatorIndex,
)
    requires
        call_ensures(TableContext::local_id, (context,), id),
        call_ensures(TableContext::local_index, (context,), index),
        call_ensures(TableContext::find_local_index, (context,), found),
    ensures
        context.index_mapping@.contains_key(index) && context.index_mapping@[index] == id,
        found is Some ==> context.index_mapping@.contains_key(found->Some_0)
            && context.index_mapping@[found->Some_0] == id,
        context.index_mapping@.contains_key(other) && context.index_mapping@[other] == id
            ==> found is Some,
        context.index_mapping@.contains_key(other) && context.index_mapping@[other] == id
            ==> call_requires(TableContext::local_index, (context,)),
{
    if context.index_mapping@.contains_key(other) && context.index_mapping@[other] == id {
        assert(context.is_local(other));
    }
}

/// A signed statement is the very statement that was to be signed, whatever it says. The signature
/// is the local key's, on what `payload` gave for that statement and the parent hash. The sender
/// is an index that has the local key.
pub proof fn law_signed_statement<P>(
    context: &TableContext,
    statement: Statement,
    payload: P,
    signed: SignedStatement,
) where P: FnOnce(&Statement, &H256) -> Vec<u8>
    requires
        call_ensures(TableContext::sign_statement::<P>, (context, statement, payload), signed),
    ensures
        signed.statement == statement,
        exists|bytes: Vec<u8>|
            {
                &&& #[trigger] call_ensures(
                    payload,
                    (&signed.statement, &context.parent_hash),
                    bytes,
                )
                &&& signed.signature.0 == ed25519_signature(context.key.secret(), bytes@)
            },
        context.index_mapping@.contains_key(signed.sender),
        context.index_mapping@[signed.sender] == context.key.public_key(),
{
}

/// A statement that puts a candidate forward is on the digest of its receipt, and one on the
/// validity of a candidate is on the digest that it names.
pub proof fn law_digest_of_a_statement(
    receipt: CandidateReceipt,
    digest: H256,
    put_forward: H256,
    said_valid: H256,
    said_invalid: H256,
)
    requires
        call_ensures(statement_digest, (&GenericStatement::Candidate(receipt),), put_forward),
        call_ensures(statement_digest, (&GenericStatement::Valid(digest),), said_valid),
        call_ensures(statement_digest, (&GenericStatement::Invalid(digest),), said_invalid),
    ensures
        put_forward == receipt.candidate_hash,
        said_valid == digest,
        said_invalid == digest,
{
}

/// What is gathered of a candidate is what the statement table answers for the very candidate of
/// the summary. There is a report if and only if there is a summary.
pub proof fn law_gathered_report<I, G>(
    summary: Option<Summary>,
    context: &TableContext,
    candidate_includable: I,
    get_candidate: G,
    report: Option<TableReport>,
) where I: FnOnce(&H256, &TableContext) -> bool, G: FnOnce(&H256) -> Option<CandidateReceipt>
    requires
        call_ensures(
            TableReport::gather::<I, G>,
            (summary, context, candidate_includable, get_candidate),
            report,
        ),
    ensures
        report is Some <==> summary is Some,
        report is Some ==> {
            &&& report->Some_0.summary == summary->Some_0
            &&& call_ensures(
                candidate_includable,
                (&summary->Some_0.candidate, context),
                report->Some_0.includable,
            )
            &&& call_ensures(
                get_candidate,
                (&summary->Some_0.candidate,),
                report->Some_0.receipt,
            )
        },
{
}

/// The relay chain is handed the votes that the statement table gave, one for one: the same
/// validator, the same signature, and implicit or explicit as that very vote was.
pub proof fn law_votes_are_handed_on(
    candidate: TableCandidate,
    result: AttestedCandidate,
    k: int,
    signature: Signature,
)
    requires
        call_ensures(attested, (candidate,), result),
    ensures
        result.candidate == candidate.candidate,
        result.validity_votes@.len() == candidate.validity_votes@.len(),
        0 <= k < result.validity_votes@.len() ==> {
            &&& result.validity_votes@[k].0 == candidate.validity_votes@[k].0
            &&& result.validity_votes@[k].1 == ValidityAttestation::Implicit(signature)
                <==> candidate.validity_votes@[k].1 == TableAttestation::Implicit(signature)
            &&& result.validity_votes@[k].1 == ValidityAttestation::Explicit(signature)
                <==> candidate.validity_votes@[k].1 == TableAttestation::Explicit(signature)
        },
{
}

/// Each candidate is asked about once, in the order given.
pub proof fn law_survey<C>(
    candidates: Vec<H256>,
    context: &TableContext,
    candidate_includable: C,
    answers: Vec<(H256, bool)>,
    i: int,
) where C: Fn(&H256, &TableContext) -> bool
    requires
        call_ensures(survey::<C>, (candidates, context, candidate_includable), answers),
    ensures
        answers@.len() == candidates@.len(),
        0 <= i < answers@.len() ==> {
            &&& answers@[i].0 == candidates@[i]
            &&& call_ensures(candidate_includable, (&candidates@[i], context), answers@[i].1)
        },
{
    assert(answered(answers@, candidates@, *context, candidate_includable));
}

/// Whether nothing is said of a candidate of a list after the given place.
pub open spec fn is_last_word(answers: Seq<(H256, bool)>, i: int) -> bool {
    &&& 0 <= i < answers.len()
    &&& forall|j: int| i < j < answers.len() ==> (#[trigger] answers[j]).0 != answers[i].0
}

/// What is tracked are the candidates of the list, each with the last that is said of it. The
/// tracker is complete from the start if and only if that is `true` for every one of them.
pub proof fn law_every_candidate_is_tracked<S>(
    answers: Vec<(H256, bool)>,
    sender: S,
    tracker: IncludabilitySender<S>,
    complete: bool,
    given_up: S,
)
    requires
        call_ensures(IncludabilitySender::<S>::track, (answers, sender), tracker),
        call_ensures(IncludabilitySender::<S>::is_complete, (&tracker,), complete),
        call_ensures(IncludabilitySender::<S>::into_sender, (tracker,), given_up),
    ensures
        tracker.wf(),
        forall|candidate: H256| #[trigger]
            tracker@.flags.contains_key(candidate) <==> exists|i: int|
                0 <= i < answers@.len() && (#[trigger] answers@[i]).0 == candidate,
        forall|i: int| #[trigger]
            is_last_word(answers@, i) ==> tracker@.flags[answers@[i].0] == answers@[i].1,
        complete <==> forall|i: int| #[trigger] is_last_word(answers@, i) ==> answers@[i].1,
        given_up == sender,
{
    lemma_flags(answers@);
    lemma_all_flags(answers@);
    assert(complete == tracker@.complete());
    if !complete {
        let candidate = choose|candidate: H256| #[trigger]
            tracker@.flags.contains_key(candidate) && !tracker@.flags[candidate];
        assert(flags_of(answers@).contains_key(candidate));
    } else {
        assert forall|candidate: H256| #[trigger]
            flags_of(answers@).contains_key(candidate) implies flags_of(answers@)[candidate] by {
            assert(tracker@.flags.contains_key(candidate));
        }
    }
}

/// If no candidate is listed twice, each is tracked with what is said of it, and the tracker is
/// complete from the start if and only if all of them are includable.
pub proof fn law_distinct_candidates_are_tracked<S>(
    answers: Vec<(H256, bool)>,
    sender: S,
    tracker: IncludabilitySender<S>,
    complete: bool,
)
    requires
        forall|i: int, j: int|
            0 <= i < j < answers@.len() ==> (#[trigger] answers@[i]).0 != (
            #[trigger] answers@[j]).0,
        call_ensures(IncludabilitySender::<S>::track, (answers, sender), tracker),
        call_ensures(IncludabilitySender::<S>::is_complete, (&tracker,), complete),
    ensures
        forall|i: int|
            0 <= i < answers@.len() ==> tracker@.flags.contains_key((#[trigger] answers@[i]).0)
                && tracker@.flags[answers@[i].0] == answers@[i].1,
        complete <==> forall|i: int| 0 <= i < answers@.len() ==> (#[trigger] answers@[i]).1,
{
    lemma_flags(answers@);
    lemma_all_flags(answers@);
    assert forall|i: int| 0 <= i < answers@.len() implies tracker@.flags.contains_key(
        (#[trigger] answers@[i]).0,
    ) && tracker@.flags[answers@[i].0] == answers@[i].1 by {
        assert(is_last_word(answers@, i));
    }
    if complete {
        assert forall|i: int| 0 <= i < answers@.len() implies (#[trigger] answers@[i]).1 by {
            assert(is_last_word(answers@, i));
        }
    }
}

/// What the flags of a list are.
pub proof fn lemma_flags(answers: Seq<(H256, bool)>)
    ensures
        forall|candidate: H256| #[trigger]
            flags_of(answers).contains_key(candidate) <==> exists|i: int|
                0 <= i < answers.len() && (#[trigger] answers[i]).0 == candidate,
        forall|i: int| #[trigger]
            is_last_word(answers, i) ==> flags_of(answers)[answers[i].0] == answers[i].1,
    decreases answers.len(),
{
    if answers.len() > 0 {
        let earlier = answers.drop_last();
        let last = answers.len() - 1;
        lemma_flags(earlier);
        assert forall|candidate: H256| #[trigger]
            flags_of(answers).contains_key(candidate) <==> exists|i: int|
                0 <= i < answers.len() && (#[trigger] answers[i]).0 == candidate by {
            if flags_of(earlier).contains_key(candidate) {
                let i = choose|i: int|
                    0 <= i < earlier.len() && (#[trigger] earlier[i]).0 == candidate;
                assert(answers[i].0 == candidate);
            }
            if exists|i: int| 0 <= i < answers.len() && (#[trigger] answers[i]).0 == candidate {
                let i = choose|i: int|
                    0 <= i < answers.len() && (#[trigger] answers[i]).0 == candidate;
                if i < last {
                    assert(earlier[i].0 == candidate);
                } else {
                    assert(answers.last().0 == candidate);
                }
            }
            if candidate == answers.last().0 {
                assert(answers[last].0 == candidate);
            }
        }
        assert forall|i: int| #[trigger] is_last_word(answers, i) implies flags_of(
            answers,
        )[answers[i].0] == answers[i].1 by {
            if i < last {
                assert(answers[last].0 != answers[i].0);
                assert forall|j: int| i < j < earlier.len() implies (#[trigger] earlier[j]).0
                    != earlier[i].0 by {
                    assert(answers[j].0 != answers[i].0);
                }
                assert(is_last_word(earlier, i));
            }
        }
    }
}

/// For every candidate of a list there is a last word on it.
proof fn lemma_last_word(answers: Seq<(H256, bool)>, i: int) -> (last: int)
    requires
        0 <= i < answers.len(),
    ensures
        is_last_word(answers, last),
        answers[last].0 == answers[i].0,
    decreases answers.len() - i,
{
    if is_last_word(answers, i) {
        i
    } else {
        let j = choose|j: int| i < j < answers.len() && (#[trigger] answers[j]).0 == answers[i].0;
        lemma_last_word(answers, j)
    }
}

/// All flags of a list are `true` if and only if every last word is.
pub proof fn lemma_all_flags(answers: Seq<(H256, bool)>)
    ensures
        (forall|candidate: H256| #[trigger]
            flags_of(answers).contains_key(candidate) ==> flags_of(answers)[candidate]) <==> (
        forall|i: int| #[trigger] is_last_word(answers, i) ==> answers[i].1),
{
    let flags = flags_of(answers);
    lemma_flags(answers);
    if forall|candidate: H256| #[trigger] flags.contains_key(candidate) ==> flags[candidate] {
        assert forall|i: int| #[trigger] is_last_word(answers, i) implies answers[i].1 by {
            assert(answers[i].0 == answers[i].0);
            assert(flags.contains_key(answers[i].0));
        }
    }
    if forall|i: int| #[trigger] is_last_word(answers, i) ==> answers[i].1 {
        assert forall|candidate: H256| #[trigger] flags.contains_key(
            candidate,
        ) implies flags[candidate] by {
            let i = choose|i: int|
                0 <= i < answers.len() && (#[trigger] answers[i]).0 == candidate;
            let last = lemma_last_word(answers, i);
            assert(answers[last].1);
        }
    }
}

/// News of a tracked candidate changes what is known of that candidate and of no other, and news
/// of any other candidate changes nothing. The tracker is then complete if and only if every
/// tracked candidate is includable. The sender stays.
pub proof fn law_news_of_a_candidate<S>(
    tracker: &mut IncludabilitySender<S>,
    candidate: H256,
    includable: bool,
    complete: bool,
    other: H256,
)
    requires
        call_ensures(
            IncludabilitySender::<S>::update_candidate,
            (tracker, candidate, includable),
            complete,
        ),
    ensures
        final(tracker).wf(),
        final(tracker)@.sender == old(tracker)@.sender,
        final(tracker)@.flags.contains_key(other) <==> old(tracker)@.flags.contains_key(other),
        old(tracker)@.flags.contains_key(other) ==> final(tracker)@.flags[other] == if other
            == candidate {
            includable
        } else {
            old(tracker)@.flags[other]
        },
        complete ==> forall|any: H256| #[trigger]
            old(tracker)@.flags.contains_key(any) ==> final(tracker)@.flags[any],
        !complete ==> exists|any: H256| #[trigger]
            old(tracker)@.flags.contains_key(any) && !final(tracker)@.flags[any],
{
    let flags = final(tracker)@.flags;
    if complete {
        assert forall|any: H256| #[trigger]
            old(tracker)@.flags.contains_key(any) implies flags[any] by {
            assert(flags.contains_key(any));
        }
    } else {
        let any = choose|any: H256| #[trigger]
            flags.contains_key(any) && !flags[any];
        assert(old(tracker)@.flags.contains_key(any));
    }
}

} // verus!
