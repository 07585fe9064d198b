//! Quiz questions: a question with its four options (the first one is the
//! correct answer), the shuffled form sent to players, and the draw of a
//! random question from a list.

use vstd::prelude::*;

use crate::random::random_below;
use crate::text::str_eq;

verus! {

/// A question; `options[0]` is the correct answer.
#[derive(Debug, Clone, Copy)]
pub struct Question {
    pub text: &'static str,
    pub options: [&'static str; 4],
}

/// A question as sent to a player, with its options shuffled.
#[derive(Debug, Clone)]
pub struct ShuffledQuestion {
    pub text: &'static str,
    pub options: [String; 4],
}

/// The questions a game draws from.
#[derive(Debug)]
pub struct QuestionList {
    pub questions: &'static [Question],
}

/// The options of a question as text.
pub open spec fn option_texts(question: Question) -> Seq<Seq<char>> {
    question.options@.map_values(|o: &str| o@)
}

/// The options of a shuffled question as text.
pub open spec fn shuffled_texts(question: ShuffledQuestion) -> Seq<Seq<char>> {
    question.options@.map_values(|o: String| o@)
}

/// The sequence with the entries at `i` and `j` exchanged.
pub open spec fn swapped<A>(s: Seq<A>, i: int, j: int) -> Seq<A> {
    s.update(i, s[j]).update(j, s[i])
}

/// The order that the Fisher-Yates pass leaves four options in, where
/// `draws[0]`, `draws[1]`, `draws[2]` are the positions (at most 3, 2 and
/// 1) drawn to exchange with positions 3, 2 and 1 in turn.
pub open spec fn fisher_yates<A>(s: Seq<A>, draws: Seq<usize>) -> Seq<A> {
    swapped(swapped(swapped(s, 3, draws[0] as int), 2, draws[1] as int), 1, draws[2] as int)
}

/// Whether the draws are the ones a Fisher-Yates pass over four options
/// can make.
pub open spec fn valid_draws(draws: Seq<usize>) -> bool {
    draws.len() == 3 && draws[0] <= 3 && draws[1] <= 2 && draws[2] <= 1
}

/// The first position at which `options` holds `answer` (meaningful when
/// it holds it).
pub open spec fn first_position(options: Seq<Seq<char>>, answer: Seq<char>) -> int {
    choose|k: int|
        0 <= k < options.len() && options[k] == answer && (forall|m: int|
            0 <= m < k ==> #[trigger] options[m] != answer)
}

/// Exchanging two entries keeps the same elements with the same counts.
proof fn lemma_swapped_multiset<A>(s: Seq<A>, i: int, j: int)
    requires
        0 <= i < s.len(),
        0 <= j < s.len(),
    ensures
        swapped(s, i, j).to_multiset() =~= s.to_multiset(),
{
    broadcast use vstd::seq_lib::to_multiset_update;
    broadcast use vstd::multiset::group_multiset_properties;
    broadcast use vstd::multiset::group_multiset_axioms;
    broadcast use vstd::seq_lib::to_multiset_contains;

    let t = s.update(i, s[j]);
    assert(s.contains(s[i]));
    assert(s.contains(s[j]));
    assert(t.to_multiset() == s.to_multiset().insert(s[j]).remove(s[i]));
    assert(t.update(j, s[i]).to_multiset() == t.to_multiset().insert(s[i]).remove(t[j]));
    if i == j {
        assert(t[j] == s[i]);
    } else {
        assert(t[j] == s[j]);
    }
    let m = s.to_multiset();
    let r = m.insert(s[j]).remove(s[i]).insert(s[i]).remove(t[j]);
    assert forall|x: A| r.count(x) == m.count(x) by {
        assert(m.count(s[i]) > 0);
    }
    assert(r =~= m);
}

/// Law of the shuffle: the Fisher-Yates pass only reorders the options; each
/// occurs as often afterwards as before.
pub proof fn lemma_fisher_yates_permutes<A>(s: Seq<A>, draws: Seq<usize>)
    requires
        s.len() == 4,
        valid_draws(draws),
    ensures
        fisher_yates(s, draws).len() == 4,
        fisher_yates(s, draws).to_multiset() == s.to_multiset(),
{
    let s1 = swapped(s, 3, draws[0] as int);
    let s2 = swapped(s1, 2, draws[1] as int);
    lemma_swapped_multiset(s, 3, draws[0] as int);
    lemma_swapped_multiset(s1, 2, draws[1] as int);
    lemma_swapped_multiset(s2, 1, draws[2] as int);
}

/// Law of the shuffle: over four different options, different valid draws
/// give different orders, so each of the 24 valid draw sequences yields its
/// own one of the 24 orders of the options.
pub proof fn lemma_fisher_yates_injective<A>(s: Seq<A>, d: Seq<usize>, e: Seq<usize>)
    requires
        s.len() == 4,
        forall|i: int, j: int| 0 <= i < 4 && 0 <= j < 4 && i != j ==> s[i] != s[j],
        valid_draws(d),
        valid_draws(e),
        fisher_yates(s, d) == fisher_yates(s, e),
    ensures
        d == e,
{
    let fd = fisher_yates(s, d);
    let fe = fisher_yates(s, e);
    assert(fd[0] == fe[0] && fd[1] == fe[1] && fd[2] == fe[2] && fd[3] == fe[3]);
    assert(d =~= e);
}

/// Law of the shuffle: the pass starts by exchanging the last position with
/// the first draw and never touches it again, so the last option of the
/// result is the option at the first draw.
pub proof fn lemma_fisher_yates_last<A>(s: Seq<A>, draws: Seq<usize>)
    requires
        s.len() == 4,
        valid_draws(draws),
    ensures
        fisher_yates(s, draws)[3] == s[draws[0] as int],
{
}

/// Exchanges two entries of a vector.
fn swap_entries(v: &mut Vec<&'static str>, i: usize, j: usize)
    requires
        i < old(v)@.len(),
        j < old(v)@.len(),
    ensures
        final(v)@ == swapped(old(v)@, i as int, j as int),
{
    let a = v[i];
    let b = v[j];
    v.set(i, b);
    v.set(j, a);
}

impl QuestionList {
    /// Builds the shuffled form of question `question_index` from the draws
    /// of a Fisher-Yates pass, and the position its correct answer ends up
    /// at (the first position holding that text).
    pub fn arrange_question(&self, question_index: usize, draws: [usize; 3]) -> (arranged: (ShuffledQuestion, usize))
        requires
            question_index < self.questions@.len(),
            valid_draws(draws@),
        ensures
            arranged.0.text == self.questions@[question_index as int].text,
            shuffled_texts(arranged.0) == fisher_yates(option_texts(self.questions@[question_index as int]), draws@),
            arranged.1 < 4,
            arranged.1 == first_position(shuffled_texts(arranged.0), option_texts(self.questions@[question_index as int])[0]),
            shuffled_texts(arranged.0)[arranged.1 as int] == option_texts(self.questions@[question_index as int])[0],
            forall|m: int|
                0 <= m < arranged.1 ==> #[trigger] shuffled_texts(arranged.0)[m] != option_texts(
                    self.questions@[question_index as int],
                )[0],
    {
        let question = &self.questions[question_index];
        let ghost texts = option_texts(*question);
        let mut shuffled: Vec<&'static str> = Vec::new();
        shuffled.push(question.options[0]);
        shuffled.push(question.options[1]);
        shuffled.push(question.options[2]);
        shuffled.push(question.options[3]);
        assert(shuffled@.map_values(|o: &str| o@) =~= texts);
        swap_entries(&mut shuffled, 3, draws[0]);
        swap_entries(&mut shuffled, 2, draws[1]);
        swap_entries(&mut shuffled, 1, draws[2]);
        let ghost arranged_texts = shuffled@.map_values(|o: &str| o@);
        assert(arranged_texts =~= fisher_yates(texts, draws@));
        proof {
            lemma_fisher_yates_permutes(texts, draws@);
            broadcast use vstd::seq_lib::to_multiset_contains;
            assert(texts.contains(texts[0]));
            assert(arranged_texts.to_multiset().count(texts[0]) > 0);
            assert(arranged_texts.contains(texts[0]));
        }
        let correct = question.options[0];
        let mut k: usize = 0;
        loop
            invariant
                k < 4,
                shuffled@.len() == 4,
                arranged_texts == shuffled@.map_values(|o: &str| o@),
                arranged_texts.contains(correct@),
                forall|m: int| 0 <= m < k ==> #[trigger] arranged_texts[m] != correct@,
            ensures
                k < 4,
                arranged_texts[k as int] == correct@,
                forall|m: int| 0 <= m < k ==> #[trigger] arranged_texts[m] != correct@,
            decreases 4 - k,
        {
            if str_eq(shuffled[k], correct) {
                break;
            }
            proof {
                let w = choose|w: int| 0 <= w < arranged_texts.len() && arranged_texts[w] == correct@;
                assert(w > k);
            }
            k = k + 1;
        }
        let options = [
            shuffled[0].to_owned(),
            shuffled[1].to_owned(),
            shuffled[2].to_owned(),
            shuffled[3].to_owned(),
        ];
        let arranged = ShuffledQuestion { text: question.text, options };
        assert(shuffled_texts(arranged) =~= arranged_texts);
        proof {
            let f = first_position(arranged_texts, correct@);
            assert(0 <= k < arranged_texts.len() && arranged_texts[k as int] == correct@ && (forall|m: int|
                0 <= m < k ==> #[trigger] arranged_texts[m] != correct@));
            if f != k {
                if f < k {
                    assert(arranged_texts[f] != correct@);
                } else {
                    assert(arranged_texts[k as int] != correct@);
                }
            }
        }
        (arranged, k)
    }
}

impl QuestionList {
    /// Draws a random question and shuffles its options with a Fisher-Yates
    /// pass; also gives the position of the correct answer among the
    /// shuffled options. Whatever is drawn, the result is the arrangement
    /// of some question of the list under some valid draws.
    pub fn select_random_question(&self) -> (selected: (ShuffledQuestion, usize))
        requires
            self.questions@.len() > 0,
        ensures
            selected.1 < 4,
            exists|qi: int, draws: Seq<usize>|
                #![trigger fisher_yates(option_texts(self.questions@[qi]), draws)]
                {
                    &&& 0 <= qi < self.questions@.len()
                    &&& valid_draws(draws)
                    &&& selected.0.text == self.questions@[qi].text
                    &&& shuffled_texts(selected.0) == fisher_yates(option_texts(self.questions@[qi]), draws)
                    &&& selected.1 == first_position(shuffled_texts(selected.0), option_texts(self.questions@[qi])[0])
                    &&& shuffled_texts(selected.0)[selected.1 as int] == option_texts(self.questions@[qi])[0]
                },
    {
        let question_index = random_below(self.questions.len());
        let d0 = random_below(4);
        let d1 = random_below(3);
        let d2 = random_below(2);
        let draws = [d0, d1, d2];
        let selected = self.arrange_question(question_index, draws);
        assert(fisher_yates(option_texts(self.questions@[question_index as int]), draws@) == shuffled_texts(selected.0));
        selected
    }
}

/// Whether the option the player picked is the correct one.
pub fn check_answer(selected_index: usize, correct_index: usize) -> (correct: bool)
    ensures
        correct == (selected_index == correct_index),
{
    selected_index == correct_index
}

} // verus!
