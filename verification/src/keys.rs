//! The key of a chain: a serialization of its label and steps that tells chains
//! apart.

use crate::assertion::{Assertion, ChainView, LogicalOp, StepView};
use crate::text::{decimal, decimal_text, digit_char, texts};
use vstd::prelude::*;
use vstd::string::*;

verus! {

/// A text behind its length and a colon, so that where it ends can be told from
/// what precedes it.
pub open spec fn framed(text: Seq<char>) -> Seq<char> {
    decimal(text.len()) + ":"@ + text
}

/// The framed forms of `parts`, one after another.
pub open spec fn framed_all(parts: Seq<Seq<char>>) -> Seq<char>
    decreases parts.len(),
{
    if parts.len() == 0 {
        Seq::empty()
    } else {
        framed_all(parts.drop_last()) + framed(parts.last())
    }
}

/// The mark that stands for a truth value.
pub open spec fn flag_mark(flag: bool) -> Seq<char> {
    if flag {
        "+"@
    } else {
        "-"@
    }
}

/// The mark that stands for the connector behind a step.
pub open spec fn connector_mark(op: Option<LogicalOp>) -> Seq<char> {
    match op {
        Some(LogicalOp::And) => "&"@,
        Some(LogicalOp::Or) => "|"@,
        None => "."@,
    }
}

/// The serialization of one step: its sentence, field by field, then its outcome
/// and its connector.
pub open spec fn step_key(step: StepView) -> Seq<char> {
    framed(step.sentence.subject) + framed(step.sentence.verb) + framed(step.sentence.object)
        + framed(framed_all(step.sentence.qualifiers)) + flag_mark(step.sentence.negated)
        + flag_mark(step.passed) + connector_mark(step.logical_op)
}

/// The serializations of the steps of a chain, in order.
pub open spec fn step_keys(steps: Seq<StepView>) -> Seq<Seq<char>> {
    Seq::new(steps.len(), |i: int| step_key(steps[i]))
}

/// The serializations of `steps`, each framed, in order.
pub open spec fn steps_key(steps: Seq<StepView>) -> Seq<char> {
    framed_all(step_keys(steps))
}

/// The key by which reports are told apart: the label and the steps of a chain,
/// serialized in order. Chains with the same label and steps have the same key.
pub open spec fn chain_key(chain: ChainView) -> Seq<char> {
    framed(chain.label) + steps_key(chain.steps)
}

/// Writes `text` behind its length.
fn frame(text: &str) -> (out: String)
    ensures
        out@ == framed(text@),
{
    let length: usize = text.unicode_len();
    let mut out = decimal_text(length as u128);
    out.append(":");
    out.append(text);
    out
}

/// Writes the framed forms of `parts` one after another.
fn frame_all(parts: &Vec<String>) -> (out: String)
    ensures
        out@ == framed_all(texts(parts@)),
{
    let mut out = String::new();
    let mut i: usize = 0;
    assert(texts(parts@).take(0) =~= Seq::<Seq<char>>::empty());
    while i < parts.len()
        invariant
            i <= parts.len(),
            out@ == framed_all(texts(parts@).take(i as int)),
        decreases parts.len() - i,
    {
        proof {
            let next = texts(parts@).take(i + 1);
            assert(next.drop_last() =~= texts(parts@).take(i as int));
            assert(next.last() == parts@[i as int]@);
        }
        out.append(frame(parts[i].as_str()).as_str());
        i += 1;
    }
    assert(texts(parts@).take(parts.len() as int) =~= texts(parts@));
    out
}

/// Writes the key under which a chain is remembered as reported.
pub fn report_key<T>(chain: &Assertion<T>) -> (key: String)
    ensures
        key@ == chain_key(chain@),
{
    let mut key = frame(chain.expr_str);
    let mut i: usize = 0;
    let ghost steps = chain@.steps;
    assert(step_keys(steps).take(0) =~= Seq::<Seq<char>>::empty());
    assert(key@ + Seq::<char>::empty() =~= key@);
    while i < chain.steps.len()
        invariant
            i <= chain.steps.len(),
            steps == chain@.steps,
            key@ == framed(chain@.label) + framed_all(step_keys(steps).take(i as int)),
        decreases chain.steps.len() - i,
    {
        let step = &chain.steps[i];
        let mut part = frame(step.sentence.subject.as_str());
        part.append(frame(step.sentence.verb.as_str()).as_str());
        part.append(frame(step.sentence.object.as_str()).as_str());
        part.append(frame(frame_all(&step.sentence.qualifiers).as_str()).as_str());
        part.append(
            if step.sentence.negated {
                "+"
            } else {
                "-"
            },
        );
        part.append(
            if step.passed {
                "+"
            } else {
                "-"
            },
        );
        part.append(
            match step.logical_op {
                Some(LogicalOp::And) => "&",
                Some(LogicalOp::Or) => "|",
                None => ".",
            },
        );
        assert(part@ == step_key(step@));
        proof {
            let next = step_keys(steps).take(i + 1);
            assert(next.drop_last() =~= step_keys(steps).take(i as int));
            assert(next.last() == step_key(step@));
            assert(key@ + framed(part@) =~= framed(chain@.label) + (framed_all(
                step_keys(steps).take(i as int),
            ) + framed(step_key(step@))));
        }
        key.append(frame(part.as_str()).as_str());
        i += 1;
    }
    assert(step_keys(steps).take(chain.steps.len() as int) =~= step_keys(steps));
    key
}


/// A decimal form is not empty and holds no colon.
proof fn lemma_decimal_has_no_colon(n: nat)
    ensures
        decimal(n).len() >= 1,
        forall|i: int| 0 <= i < decimal(n).len() ==> decimal(n)[i] != ':',
    decreases n,
{
    if n >= 10 {
        lemma_decimal_has_no_colon(n / 10);
    }
}

/// Different digits are written with different characters.
proof fn lemma_digit_injective(x: int, y: int)
    requires
        0 <= x < 10,
        0 <= y < 10,
        digit_char(x) == digit_char(y),
    ensures
        x == y,
{
}

/// Different numbers have different decimal forms.
proof fn lemma_decimal_injective(a: nat, b: nat)
    requires
        decimal(a) == decimal(b),
    ensures
        a == b,
    decreases a,
{
    lemma_decimal_has_no_colon(a / 10);
    lemma_decimal_has_no_colon(b / 10);
    if a < 10 && b < 10 {
        assert(decimal(a)[0] == digit_char(a as int));
        assert(decimal(b)[0] == digit_char(b as int));
        lemma_digit_injective(a as int, b as int);
    } else if a >= 10 && b >= 10 {
        let da = decimal(a / 10);
        let db = decimal(b / 10);
        assert(decimal(a).last() == digit_char((a % 10) as int));
        assert(decimal(b).last() == digit_char((b % 10) as int));
        lemma_digit_injective((a % 10) as int, (b % 10) as int);
        assert(da =~= decimal(a).drop_last());
        assert(db =~= decimal(b).drop_last());
        lemma_decimal_injective(a / 10, b / 10);
    } else {
        assert(decimal(a).len() == decimal(b).len());
        if a < 10 {
            assert(decimal(a).len() == 1);
            assert(decimal(b).len() == decimal(b / 10).len() + 1);
        } else {
            assert(decimal(b).len() == 1);
            assert(decimal(a).len() == decimal(a / 10).len() + 1);
        }
    }
}

/// A framed text can be read back from the front of a longer text: if two texts
/// that each begin with a frame are equal, the framed texts are equal and so is
/// what follows them.
proof fn lemma_frame_is_read_back(
    first: Seq<char>,
    first_rest: Seq<char>,
    second: Seq<char>,
    second_rest: Seq<char>,
)
    requires
        framed(first) + first_rest == framed(second) + second_rest,
    ensures
        first == second,
        first_rest == second_rest,
{
    reveal_strlit(":");
    let whole = framed(first) + first_rest;
    let d1 = decimal(first.len());
    let d2 = decimal(second.len());
    lemma_decimal_has_no_colon(first.len());
    lemma_decimal_has_no_colon(second.len());
    assert(whole == framed(second) + second_rest);
    assert(forall|i: int| 0 <= i < d1.len() ==> whole[i] == d1[i]);
    assert(forall|i: int| 0 <= i < d2.len() ==> whole[i] == d2[i]);
    assert(framed(first)[d1.len() as int] == ':');
    assert(framed(second)[d2.len() as int] == ':');
    assert(whole[d1.len() as int] == ':');
    assert((framed(second) + second_rest)[d2.len() as int] == ':');
    assert(d1.len() == d2.len()) by {
        if d1.len() < d2.len() {
            assert(whole[d1.len() as int] == d2[d1.len() as int]);
        }
        if d2.len() < d1.len() {
            assert(whole[d2.len() as int] == d1[d2.len() as int]);
        }
    }
    assert(d1 =~= d2);
    lemma_decimal_injective(first.len(), second.len());
    let start: int = d1.len() as int + 1;
    assert(first =~= whole.subrange(start, start + first.len())) by {
        assert(forall|i: int|
            0 <= i < first.len() ==> first[i] == framed(first)[start + i]);
    }
    assert(second =~= (framed(second) + second_rest).subrange(
        start,
        start + second.len(),
    )) by {
        assert(forall|i: int|
            0 <= i < second.len() ==> second[i] == framed(second)[start + i]);
    }
    assert(framed(first).len() == start + first.len());
    assert(first_rest =~= whole.skip(framed(first).len() as int));
    assert(second_rest =~= (framed(second) + second_rest).skip(framed(second).len() as int));
}

/// The framed forms of a list begin with the frame of its first part.
proof fn lemma_framed_all_from_front(parts: Seq<Seq<char>>)
    requires
        parts.len() > 0,
    ensures
        framed_all(parts) == framed(parts.first()) + framed_all(parts.drop_first()),
    decreases parts.len(),
{
    if parts.len() == 1 {
        assert(parts.drop_last() =~= Seq::<Seq<char>>::empty());
        assert(parts.drop_first() =~= Seq::<Seq<char>>::empty());
        assert(framed_all(parts) =~= framed(parts.first()) + framed_all(parts.drop_first()));
    } else {
        let front = parts.drop_last();
        lemma_framed_all_from_front(front);
        assert(front.first() == parts.first());
        assert(front.drop_first() =~= parts.drop_first().drop_last());
        assert(parts.drop_first().last() == parts.last());
        assert(framed_all(parts) =~= framed(parts.first()) + framed_all(parts.drop_first()));
    }
}

/// Different lists of texts have different framed forms.
proof fn lemma_framed_all_injective(first: Seq<Seq<char>>, second: Seq<Seq<char>>)
    requires
        framed_all(first) == framed_all(second),
    ensures
        first == second,
    decreases first.len(),
{
    if first.len() == 0 || second.len() == 0 {
        if first.len() > 0 {
            lemma_framed_all_from_front(first);
            lemma_decimal_has_no_colon(first.first().len());
            assert(framed(first.first()).len() >= 1);
            assert(framed_all(first).len() >= 1);
        }
        if second.len() > 0 {
            lemma_framed_all_from_front(second);
            lemma_decimal_has_no_colon(second.first().len());
            assert(framed(second.first()).len() >= 1);
            assert(framed_all(second).len() >= 1);
        }
        assert(first.len() == 0 ==> framed_all(first).len() == 0);
        assert(second.len() == 0 ==> framed_all(second).len() == 0);
        assert(first =~= second);
    } else {
        lemma_framed_all_from_front(first);
        lemma_framed_all_from_front(second);
        lemma_frame_is_read_back(
            first.first(),
            framed_all(first.drop_first()),
            second.first(),
            framed_all(second.drop_first()),
        );
        lemma_framed_all_injective(first.drop_first(), second.drop_first());
        assert(first =~= seq![first.first()] + first.drop_first());
        assert(second =~= seq![second.first()] + second.drop_first());
    }
}

/// What follows the framed fields in the serialization of a step.
spec fn marks(step: StepView) -> Seq<char> {
    flag_mark(step.sentence.negated) + flag_mark(step.passed) + connector_mark(step.logical_op)
}

/// What follows the object in the serialization of a step.
spec fn behind_object(step: StepView) -> Seq<char> {
    framed(framed_all(step.sentence.qualifiers)) + marks(step)
}

/// What follows the verb in the serialization of a step.
spec fn behind_verb(step: StepView) -> Seq<char> {
    framed(step.sentence.object) + behind_object(step)
}

/// What follows the subject in the serialization of a step.
spec fn behind_subject(step: StepView) -> Seq<char> {
    framed(step.sentence.verb) + behind_verb(step)
}

/// The serialization of a step is its framed subject and what follows it.
proof fn lemma_step_key_from_front(step: StepView)
    ensures
        step_key(step) == framed(step.sentence.subject) + behind_subject(step),
{
    assert(step_key(step) =~= framed(step.sentence.subject) + behind_subject(step));
}

/// Different outcomes and connectors have different marks.
proof fn lemma_marks_injective(first: StepView, second: StepView)
    requires
        marks(first) == marks(second),
    ensures
        first.sentence.negated == second.sentence.negated,
        first.passed == second.passed,
        first.logical_op == second.logical_op,
{
    reveal_strlit("+");
    reveal_strlit("-");
    reveal_strlit("&");
    reveal_strlit("|");
    reveal_strlit(".");
    assert("+"@ =~= seq!['+']);
    assert("-"@ =~= seq!['-']);
    assert("&"@ =~= seq!['&']);
    assert("|"@ =~= seq!['|']);
    assert("."@ =~= seq!['.']);
    assert(marks(first)[0] == flag_mark(first.sentence.negated)[0]);
    assert(marks(first)[1] == flag_mark(first.passed)[0]);
    assert(marks(first)[2] == connector_mark(first.logical_op)[0]);
    assert(marks(second)[0] == flag_mark(second.sentence.negated)[0]);
    assert(marks(second)[1] == flag_mark(second.passed)[0]);
    assert(marks(second)[2] == connector_mark(second.logical_op)[0]);
}

/// Different steps have different serializations.
proof fn lemma_step_key_injective(first: StepView, second: StepView)
    requires
        step_key(first) == step_key(second),
    ensures
        first == second,
{
    let a = first.sentence;
    let b = second.sentence;
    lemma_step_key_from_front(first);
    lemma_step_key_from_front(second);
    lemma_frame_is_read_back(a.subject, behind_subject(first), b.subject, behind_subject(second));
    lemma_frame_is_read_back(a.verb, behind_verb(first), b.verb, behind_verb(second));
    lemma_frame_is_read_back(a.object, behind_object(first), b.object, behind_object(second));
    lemma_frame_is_read_back(
        framed_all(a.qualifiers),
        marks(first),
        framed_all(b.qualifiers),
        marks(second),
    );
    lemma_framed_all_injective(a.qualifiers, b.qualifiers);
    lemma_marks_injective(first, second);
}

/// The key tells chains apart: two chains have the same key exactly when they have
/// the same label and the same steps.
pub proof fn lemma_key_tells_chains_apart(first: ChainView, second: ChainView)
    ensures
        chain_key(first) == chain_key(second) <==> first.label == second.label && first.steps
            == second.steps,
{
    if chain_key(first) == chain_key(second) {
        lemma_frame_is_read_back(
            first.label,
            steps_key(first.steps),
            second.label,
            steps_key(second.steps),
        );
        lemma_framed_all_injective(step_keys(first.steps), step_keys(second.steps));
        assert(first.steps.len() == step_keys(first.steps).len());
        assert(second.steps.len() == step_keys(second.steps).len());
        assert forall|i: int| 0 <= i < first.steps.len() implies first.steps[i]
            == second.steps[i] by {
            assert(step_keys(first.steps)[i] == step_keys(second.steps)[i]);
            lemma_step_key_injective(first.steps[i], second.steps[i]);
        }
        assert(first.steps =~= second.steps);
    }
}

} // verus!
