//! The key with which a server lets its name be hidden, as its zone publishes it.

use crate::bytes::copy_bytes;
use vstd::prelude::*;

verus! {

/// Seconds that the answer may take.
pub const HTTPS_RR_TIMEOUT: u64 = 3;

/// One parameter of a service record.
pub struct SvcParam {
    /// Whether it is named as the key.
    pub named_ech: bool,
    /// The key, where the parameter holds one.
    pub ech: Option<Vec<u8>>,
}

/// One record of an answer.
pub enum Answer {
    /// A service record, with its parameters.
    Https(Vec<SvcParam>),
    /// Any other record.
    Other,
}

/// Whether a parameter gives the key: it is named so, holds one, and the key is not
/// empty.
pub open spec fn gives_key(p: SvcParam) -> bool {
    p.named_ech && (p.ech matches Some(k) && k@.len() > 0)
}

/// The first key among parameters.
pub open spec fn first_key(params: Seq<SvcParam>) -> Option<Seq<u8>>
    decreases params.len(),
{
    if params.len() == 0 {
        None
    } else if gives_key(params[0]) {
        Some((params[0].ech->0)@)
    } else {
        first_key(params.skip(1))
    }
}

/// The first key in an answer.
pub open spec fn published_key(answers: Seq<Answer>) -> Option<Seq<u8>>
    decreases answers.len(),
{
    if answers.len() == 0 {
        None
    } else {
        let here = match answers[0] {
            Answer::Https(params) => first_key(params@),
            Answer::Other => None,
        };
        match here {
            Some(k) => Some(k),
            None => published_key(answers.skip(1)),
        }
    }
}

fn key_among(params: &Vec<SvcParam>) -> (r: Option<Vec<u8>>)
    ensures
        match first_key(params@) {
            Some(k) => r matches Some(v) && v@ == k,
            None => r is None,
        },
{
    let mut i: usize = 0;
    assert(params@.skip(0) =~= params@);
    while i < params.len()
        invariant
            i <= params@.len(),
            first_key(params@) == first_key(params@.skip(i as int)),
        decreases params@.len() - i,
    {
        assert(params@.skip(i as int).skip(1) =~= params@.skip(i + 1));
        assert(params@.skip(i as int)[0] == params@[i as int]);
        if params[i].named_ech {
            if let Some(k) = &params[i].ech {
                if k.len() > 0 {
                    return Some(copy_bytes(k.as_slice()));
                }
            }
        }
        i = i + 1;
    }
    None
}

/// The key that a zone publishes: the first that is not empty.
pub fn ech_from_answers(answers: &Vec<Answer>) -> (r: Option<Vec<u8>>)
    ensures
        match published_key(answers@) {
            Some(k) => r matches Some(v) && v@ == k,
            None => r is None,
        },
{
    let mut i: usize = 0;
    assert(answers@.skip(0) =~= answers@);
    while i < answers.len()
        invariant
            i <= answers@.len(),
            published_key(answers@) == published_key(answers@.skip(i as int)),
        decreases answers@.len() - i,
    {
        assert(answers@.skip(i as int).skip(1) =~= answers@.skip(i + 1));
        assert(answers@.skip(i as int)[0] == answers@[i as int]);
        if let Answer::Https(params) = &answers[i] {
            if let Some(k) = key_among(params) {
                return Some(k);
            }
        }
        i = i + 1;
    }
    None
}

/// What a failed lookup comes to: no key, and no error.
pub fn ech_from_lookup(answers: Option<Vec<Answer>>) -> (r: Option<Vec<u8>>)
    ensures
        match answers {
            Some(a) => match published_key(a@) {
                Some(k) => r matches Some(v) && v@ == k,
                None => r is None,
            },
            None => r is None,
        },
{
    match answers {
        Some(a) => ech_from_answers(&a),
        None => None,
    }
}

/// A key that is published is never empty.
pub proof fn published_keys_are_not_empty(answers: Seq<Answer>)
    ensures
        published_key(answers) matches Some(k) ==> k.len() > 0,
    decreases answers.len(),
{
    if answers.len() > 0 {
        if let Answer::Https(params) = answers[0] {
            lemma_first_key(params@);
        }
        published_keys_are_not_empty(answers.skip(1));
    }
}

proof fn lemma_first_key(params: Seq<SvcParam>)
    ensures
        first_key(params) matches Some(k) ==> k.len() > 0,
    decreases params.len(),
{
    if params.len() > 0 {
        lemma_first_key(params.skip(1));
    }
}

proof fn lemma_key_place(params: Seq<SvcParam>) -> (at: int)
    ensures
        first_key(params) is Some ==> 0 <= at < params.len() && gives_key(params[at])
            && first_key(params) == Some((params[at].ech->0)@) && forall|i: int|
            0 <= i < at ==> !gives_key(#[trigger] params[i]),
        first_key(params) is None ==> forall|i: int|
            0 <= i < params.len() ==> !gives_key(#[trigger] params[i]),
    decreases params.len(),
{
    if params.len() == 0 {
        0
    } else if gives_key(params[0]) {
        0
    } else {
        let rest = params.skip(1);
        let at = lemma_key_place(rest);
        assert forall|i: int| 0 < i < params.len() implies rest[i - 1] == #[trigger] params[i] by {}
        at + 1
    }
}

proof fn lemma_answer_place(answers: Seq<Answer>) -> (at: int)
    ensures
        published_key(answers) is Some ==> 0 <= at < answers.len() && answers[at] is Https
            && first_key(answers[at]->Https_0@) == published_key(answers) && forall|i: int|
            0 <= i < at ==> (#[trigger] answers[i] is Https ==> first_key(answers[i]->Https_0@)
                is None),
        published_key(answers) is None ==> forall|i: int|
            0 <= i < answers.len() ==> (#[trigger] answers[i] is Https ==> first_key(
                answers[i]->Https_0@,
            ) is None),
    decreases answers.len(),
{
    if answers.len() == 0 {
        0
    } else if answers[0] is Https && first_key(answers[0]->Https_0@) is Some {
        0
    } else {
        let rest = answers.skip(1);
        let at = lemma_answer_place(rest);
        assert forall|i: int| 0 < i < answers.len() implies rest[i - 1] == #[trigger] answers[i] by {}
        at + 1
    }
}

/// The key that is found stands in the answer: in a service record, in a parameter that is
/// named as the key, and it is not empty. There is none in an earlier record, nor in an
/// earlier parameter of the same one.
pub proof fn the_first_key_is_found(answers: &Vec<Answer>, r: Option<Vec<u8>>) -> (place: (
    int,
    int,
))
    requires
        call_ensures(ech_from_answers, (answers,), r),
        r is Some,
    ensures
        0 <= place.0 < answers@.len(),
        answers@[place.0] is Https,
        ({
            let params = answers@[place.0]->Https_0@;
            &&& 0 <= place.1 < params.len()
            &&& params[place.1].named_ech
            &&& params[place.1].ech is Some
            &&& params[place.1].ech->0@ == r->0@
            &&& forall|j: int|
                0 <= j < place.1 ==> !((#[trigger] params[j]).named_ech && params[j].ech is Some
                    && params[j].ech->0@.len() > 0)
        }),
        r->0@.len() > 0,
        forall|i: int, j: int|
            0 <= i < place.0 && answers@[i] is Https && 0 <= j < answers@[i]->Https_0@.len()
                ==> !((#[trigger] answers@[i]->Https_0@[j]).named_ech && answers@[i]->Https_0@[j].ech
                is Some && answers@[i]->Https_0@[j].ech->0@.len() > 0),
{
    let at = lemma_answer_place(answers@);
    let params = answers@[at]->Https_0@;
    let by = lemma_key_place(params);
    assert forall|j: int| 0 <= j < by implies !((#[trigger] params[j]).named_ech && params[j].ech
        is Some && params[j].ech->0@.len() > 0) by {
        assert(!gives_key(params[j]));
    }
    assert forall|i: int, j: int|
        0 <= i < at && answers@[i] is Https && 0 <= j < answers@[i]->Https_0@.len() implies !((
    #[trigger] answers@[i]->Https_0@[j]).named_ech && answers@[i]->Https_0@[j].ech is Some
        && answers@[i]->Https_0@[j].ech->0@.len() > 0) by {
        let none = lemma_key_place(answers@[i]->Https_0@);
        assert(!gives_key(answers@[i]->Https_0@[j]));
    }
    (at, by)
}

/// A key that is there is not missed.
pub proof fn no_key_is_missed(answers: &Vec<Answer>, r: Option<Vec<u8>>, i: int, j: int)
    requires
        call_ensures(ech_from_answers, (answers,), r),
        0 <= i < answers@.len(),
        answers@[i] is Https,
        0 <= j < answers@[i]->Https_0@.len(),
        answers@[i]->Https_0@[j].named_ech,
        answers@[i]->Https_0@[j].ech is Some,
        answers@[i]->Https_0@[j].ech->0@.len() > 0,
    ensures
        r is Some,
{
    let at = lemma_answer_place(answers@);
    let by = lemma_key_place(answers@[i]->Https_0@);
    assert(gives_key(answers@[i]->Https_0@[j]));
    assert(answers@[i] is Https);
}

/// A lookup that failed gives no key, and one that did not gives the key of its answer.
pub proof fn a_failed_lookup_gives_no_key(
    answers: Option<Vec<Answer>>,
    r: Option<Vec<u8>>,
    same: Option<Vec<u8>>,
)
    requires
        call_ensures(ech_from_lookup, (answers,), r),
        answers is Some ==> call_ensures(ech_from_answers, (&answers->0,), same),
    ensures
        answers is None ==> r is None,
        answers is Some ==> r is Some == same is Some,
        answers is Some && r is Some ==> r->0@ == same->0@,
{
}

} // verus!
