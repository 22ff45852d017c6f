//! How the text of a query is read: as words and clauses with blank space between them, and signs
//! between numbers.
use vstd::prelude::*;

verus! {

/// What stands between two words: a space, or a line break and the indentation of the next line.
pub open spec fn gap(indentation: int) -> Seq<char> {
    if indentation < 0 {
        seq![' ']
    } else {
        seq!['\n'] + Seq::new(indentation as nat, |i: int| ' ')
    }
}

/// The first of some words, with gaps between them.
pub open spec fn spaced(words: Seq<Seq<char>>, gaps: Seq<int>, n: nat) -> Seq<char>
    decreases n,
{
    if n == 0 {
        Seq::empty()
    } else if n == 1 {
        words[0]
    } else {
        spaced(words, gaps, (n - 1) as nat) + gap(gaps[n - 2]) + words[n - 1]
    }
}

/// Whether a text is read as these words: they are all that it holds, in this order, apart from the
/// space between them.
pub open spec fn reads_as(text: Seq<char>, words: Seq<Seq<char>>) -> bool {
    exists|gaps: Seq<int>| text == #[trigger] spaced(words, gaps, words.len())
}

/// Texts that are put together piece by piece hold the same, whichever pieces are joined first.
pub broadcast proof fn lemma_joined_first(a: Seq<char>, b: Seq<char>, c: Seq<char>)
    ensures
        #[trigger] (a + (b + c)) == a + b + c,
{
    assert(a + (b + c) =~= a + b + c);
}

/// Two texts are equal where they are known to be.
pub proof fn lemma_equal(text: Seq<char>, other: Seq<char>)
    requires
        text == other,
    ensures
        text == other,
{
}

/// A text is read as words where some gaps make it of them.
pub proof fn lemma_reads(text: Seq<char>, words: Seq<Seq<char>>, gaps: Seq<int>)
    requires
        text == spaced(words, gaps, words.len()),
    ensures
        reads_as(text, words),
{
}

/// Words with one more in front of them are that word, a space and the others.
proof fn lemma_spaced_after(head: Seq<char>, words: Seq<Seq<char>>, gaps: Seq<int>, n: nat)
    requires
        1 <= n <= words.len(),
        gaps.len() == words.len(),
    ensures
        spaced(seq![head] + words, seq![-1int] + gaps, n + 1) == head + gap(-1) + spaced(words, gaps, n),
    decreases n,
{
    reveal_with_fuel(spaced, 2);
    let more = seq![head] + words;
    let wider = seq![-1int] + gaps;
    assert(more[n as int] == words[n - 1] && wider[n - 1] == (if n == 1 {
        -1
    } else {
        gaps[n - 2]
    }));
    if n > 1 {
        lemma_spaced_after(head, words, gaps, (n - 1) as nat);
        let before = spaced(words, gaps, (n - 1) as nat);
        assert(head + gap(-1) + before + gap(gaps[n - 2]) + words[n - 1] =~= head + gap(-1) + (before
            + gap(gaps[n - 2]) + words[n - 1]));
    } else {
        assert(more[0] == head);
    }
}

/// Only the words themselves and the gaps between them count.
proof fn lemma_spaced_same(words: Seq<Seq<char>>, gaps: Seq<int>, others: Seq<Seq<char>>, wider: Seq<int>, n: nat)
    requires
        n <= words.len(),
        n <= others.len(),
        forall|i: int| 0 <= i < n ==> words[i] == others[i],
        forall|i: int| 0 <= i < n - 1 ==> gaps[i] == wider[i],
    ensures
        spaced(words, gaps, n) == spaced(others, wider, n),
    decreases n,
{
    if n > 1 {
        lemma_spaced_same(words, gaps, others, wider, (n - 1) as nat);
    }
}

/// A word is read as itself.
pub proof fn first(word: Seq<char>) -> (r: (Seq<char>, Seq<Seq<char>>))
    ensures
        r == (word, seq![word]),
        reads_as(r.0, r.1),
        r.1.len() == 1,
{
    let words = seq![word];
    assert(spaced(words, Seq::empty(), 1) == word);
    lemma_reads(word, words, Seq::empty());
    (word, words)
}

/// A text that is the same is read as the same words.
pub proof fn lemma_same_text(text: Seq<char>, read: (Seq<char>, Seq<Seq<char>>))
    requires
        text == read.0,
        reads_as(read.0, read.1),
    ensures
        reads_as(text, read.1),
{
}

/// A text that is read as words is read as one more, where that stands behind it.
pub proof fn next(read: (Seq<char>, Seq<Seq<char>>), indentation: int, word: Seq<char>) -> (r: (
    Seq<char>,
    Seq<Seq<char>>,
))
    requires
        reads_as(read.0, read.1),
        read.1.len() > 0,
    ensures
        r == (read.0 + gap(indentation) + word, read.1.push(word)),
        reads_as(r.0, r.1),
        r.1.len() > 0,
{
    let words = read.1;
    let n = words.len();
    let gaps = choose|gaps: Seq<int>| read.0 == #[trigger] spaced(words, gaps, n);
    let wider = Seq::new(n, |i: int| if i < n - 1 {
        gaps[i]
    } else {
        indentation
    });
    let more = words.push(word);
    lemma_spaced_same(words, gaps, more, wider, n);
    assert(spaced(more, wider, n + 1) == spaced(more, wider, n) + gap(wider[n - 1]) + more[n as int]);
    lemma_reads(read.0 + gap(indentation) + word, more, wider);
    (read.0 + gap(indentation) + word, more)
}

/// A text that is read as words is read as these after one more, where that stands in front of it.
pub proof fn lemma_reads_after(head: Seq<char>, text: Seq<char>, words: Seq<Seq<char>>)
    requires
        reads_as(text, words),
        words.len() > 0,
    ensures
        reads_as(head + gap(-1) + text, seq![head] + words),
{
    let gaps = choose|gaps: Seq<int>| text == #[trigger] spaced(words, gaps, words.len());
    let exact = Seq::new(words.len(), |i: int| gaps[i]);
    lemma_spaced_same(words, gaps, words, exact, words.len());
    lemma_spaced_after(head, words, exact, words.len());
    assert((seq![head] + words).len() == words.len() + 1);
    lemma_reads(head + gap(-1) + text, seq![head] + words, seq![-1int] + exact);
}

/// Whether a sign holds between two numbers.
pub open spec fn holds(sign: Seq<char>, a: int, b: int) -> bool {
    if sign == " = "@ {
        a == b
    } else if sign == " < "@ {
        a < b
    } else if sign == " <= "@ {
        a <= b
    } else if sign == " > "@ {
        a > b
    } else {
        sign == " >= "@ && a >= b
    }
}

/// The signs are told apart.
pub proof fn lemma_signs()
    ensures
        forall|a: int, b: int| #[trigger] holds(" = "@, a, b) <==> a == b,
        forall|a: int, b: int| #[trigger] holds(" < "@, a, b) <==> a < b,
        forall|a: int, b: int| #[trigger] holds(" <= "@, a, b) <==> a <= b,
        forall|a: int, b: int| #[trigger] holds(" > "@, a, b) <==> a > b,
        forall|a: int, b: int| #[trigger] holds(" >= "@, a, b) <==> a >= b,
{
    reveal_strlit(" = ");
    reveal_strlit(" < ");
    reveal_strlit(" <= ");
    reveal_strlit(" > ");
    reveal_strlit(" >= ");
    assert(" = "@[1] == '=' && " = "@.len() == 3);
    assert(" < "@[1] == '<' && " < "@.len() == 3);
    assert(" > "@[1] == '>' && " > "@.len() == 3);
    assert(" <= "@[1] == '<' && " <= "@.len() == 4);
    assert(" >= "@[1] == '>' && " >= "@.len() == 4);
}

} // verus!
