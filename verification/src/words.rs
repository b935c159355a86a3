//! The word source: a validated in-memory corpus of lowercase words,
//! grouped in buckets (one per backing file), from which random lines
//! of space-separated words are sampled.

use vstd::prelude::*;

verus! {

/// A word is nonempty and consists of lowercase ASCII letters only.
pub open spec fn word_wf(w: Seq<char>) -> bool {
    &&& w.len() > 0
    &&& forall|k: int| 0 <= k < w.len() ==> 'a' <= #[trigger] w[k] <= 'z'
}

/// A usable corpus has at least one bucket, no empty bucket, and only
/// well-formed words.
pub open spec fn corpus_wf(c: Seq<Seq<Seq<char>>>) -> bool {
    &&& c.len() > 0
    &&& forall|i: int| 0 <= i < c.len() ==> (#[trigger] c[i]).len() > 0
    &&& forall|i: int, j: int|
        0 <= i < c.len() && 0 <= j < c[i].len() ==> word_wf(#[trigger] c[i][j])
}

/// `w` is one of the corpus entries.
pub open spec fn is_word_of(c: Seq<Seq<Seq<char>>>, w: Seq<char>) -> bool {
    exists|i: int, j: int| 0 <= i < c.len() && 0 <= j < c[i].len() && w == #[trigger] c[i][j]
}

/// Every entry of `ws` is a corpus word.
pub open spec fn all_words_of(c: Seq<Seq<Seq<char>>>, ws: Seq<Seq<char>>) -> bool {
    forall|i: int| 0 <= i < ws.len() ==> is_word_of(c, #[trigger] ws[i])
}

/// The concatenation of the given words, each followed by one space.
pub open spec fn spaced_concat(ws: Seq<Seq<char>>) -> Seq<char>
    decreases ws.len(),
{
    if ws.len() == 0 {
        Seq::<char>::empty()
    } else {
        spaced_concat(ws.drop_last()) + ws.last() + seq![' ']
    }
}

/// `s` is a line of `n` corpus words, each followed by a single space.
pub open spec fn is_line_of(c: Seq<Seq<Seq<char>>>, n: nat, s: Seq<char>) -> bool {
    exists|ws: Seq<Seq<char>>|
        #![trigger all_words_of(c, ws)]
        (ws.len() == n && all_words_of(c, ws) && s == spaced_concat(ws))
}

/// A line of `n` words grows to a line of `n + 1` words when one more
/// corpus word and a space are appended.
proof fn lemma_line_extend(
    c: Seq<Seq<Seq<char>>>,
    n: nat,
    prefix: Seq<char>,
    w: Seq<char>,
    s: Seq<char>,
)
    requires
        is_line_of(c, n, prefix),
        is_word_of(c, w),
        s == prefix + w + seq![' '],
    ensures
        is_line_of(c, n + 1, s),
{
    let ws = choose|ws: Seq<Seq<char>>|
        #![trigger all_words_of(c, ws)]
        (ws.len() == n && all_words_of(c, ws) && prefix == spaced_concat(ws));
    let ws2 = ws.push(w);
    assert(ws2.drop_last() =~= ws);
    assert(all_words_of(c, ws2)) by {
        assert forall|i: int| 0 <= i < ws2.len() implies is_word_of(c, #[trigger] ws2[i]) by {
            if i < ws.len() {
                assert(ws2[i] == ws[i]);
            } else {
                assert(ws2[i] == w);
            }
        }
    }
    assert(spaced_concat(ws2) == prefix + w + seq![' ']);
    assert(is_line_of(c, n + 1, s));
}

/// The view of one bucket: the sequence of its words.
pub open spec fn bucket_view(b: Vec<Vec<char>>) -> Seq<Seq<char>> {
    Seq::new(b@.len(), |j: int| b@[j]@)
}

/// The view of a whole corpus: the sequence of its bucket views.
pub open spec fn buckets_view(b: Vec<Vec<Vec<char>>>) -> Seq<Seq<Seq<char>>> {
    Seq::new(b@.len(), |i: int| bucket_view(b@[i]))
}

/// Rejected corpus input: no bucket, an empty bucket, an empty word, or
/// a word with a character outside `'a'..='z'`.
#[derive(Clone, Copy, Debug, PartialEq, Eq, Structural)]
pub struct CorpusError;

/// Supplies random words from a backing corpus. The corpus is handed in
/// as plain values (the caller reads the word files); this type only
/// guards the invariant and samples.
pub struct WordSource {
    buckets: Vec<Vec<Vec<char>>>,
}

impl View for WordSource {
    type V = Seq<Seq<Seq<char>>>;

    closed spec fn view(&self) -> Seq<Seq<Seq<char>>> {
        buckets_view(self.buckets)
    }
}

impl WordSource {
    /// A source with no buckets; it cannot sample and fails `corpus_wf`.
    /// It is the placeholder held by a freshly constructed model.
    pub fn empty() -> (r: WordSource)
        ensures
            r@ == Seq::<Seq<Seq<char>>>::empty(),
    {
        let r = WordSource { buckets: Vec::new() };
        proof {
            assert(r@ =~= Seq::<Seq<Seq<char>>>::empty());
        }
        r
    }

    /// Validates and wraps a corpus; returns an error exactly when the
    /// corpus breaks `corpus_wf`.
    pub fn new(buckets: Vec<Vec<Vec<char>>>) -> (r: Result<WordSource, CorpusError>)
        ensures
            r is Ok <==> corpus_wf(buckets_view(buckets)),
            r matches Ok(ws) ==> ws@ == buckets_view(buckets),
    {
        let ghost c = buckets_view(buckets);
        if buckets.len() == 0 {
            return Err(CorpusError);
        }
        let mut i: usize = 0;
        while i < buckets.len()
            invariant
                i <= buckets.len(),
                c == buckets_view(buckets),
                forall|p: int| 0 <= p < i ==> (#[trigger] c[p]).len() > 0,
                forall|p: int, q: int|
                    0 <= p < i && 0 <= q < c[p].len() ==> word_wf(#[trigger] c[p][q]),
            decreases buckets.len() - i,
        {
            let bucket = &buckets[i];
            proof {
                assert(c[i as int] == bucket_view(buckets@[i as int]));
            }
            if bucket.len() == 0 {
                proof {
                    assert(c[i as int].len() == 0);
                }
                return Err(CorpusError);
            }
            let mut j: usize = 0;
            while j < bucket.len()
                invariant
                    j <= bucket.len(),
                    i < buckets.len(),
                    c == buckets_view(buckets),
                    bucket == buckets@[i as int],
                    c[i as int] == bucket_view(buckets@[i as int]),
                    forall|q: int| 0 <= q < j ==> word_wf(#[trigger] c[i as int][q]),
                decreases bucket.len() - j,
            {
                let word = &bucket[j];
                proof {
                    assert(c[i as int][j as int] == word@);
                }
                if word.len() == 0 {
                    return Err(CorpusError);
                }
                let mut k: usize = 0;
                while k < word.len()
                    invariant
                        k <= word.len(),
                        i < buckets.len(),
                        c == buckets_view(buckets),
                        j < c[i as int].len(),
                        c[i as int][j as int] == word@,
                        forall|t: int| 0 <= t < k ==> 'a' <= #[trigger] word@[t] <= 'z',
                    decreases word.len() - k,
                {
                    let ch = word[k];
                    if !('a' <= ch && ch <= 'z') {
                        proof {
                            assert(!('a' <= word@[k as int] <= 'z'));
                            assert(!word_wf(c[i as int][j as int]));
                        }
                        return Err(CorpusError);
                    }
                    k += 1;
                }
                proof {
                    assert(word_wf(c[i as int][j as int]));
                }
                j += 1;
            }
            i += 1;
        }
        let r = WordSource { buckets };
        proof {
            assert(corpus_wf(c));
        }
        Ok(r)
    }

    /// How many buckets the source holds.
    pub fn num_buckets(&self) -> (n: usize)
        ensures
            n == self@.len(),
    {
        self.buckets.len()
    }
}

/// Relies on `rand::thread_rng` and `rand::Rng::gen_range`: a value
/// sampled from the nonempty range `0..n` is below `n`.
#[verifier::external_body]
fn random_index(n: usize) -> (r: usize)
    requires
        n > 0,
    ensures
        r < n,
{
    rand::Rng::gen_range(&mut rand::thread_rng(), 0..n)
}

/// Samples `amount` random corpus words and concatenates them, each
/// followed by a single space, forming the next target line. Sampling
/// zero words needs no corpus at all and yields the empty line.
pub fn get_words(source: &WordSource, amount: usize) -> (line: Vec<char>)
    requires
        amount > 0 ==> corpus_wf(source@),
    ensures
        is_line_of(source@, amount as nat, line@),
{
    let mut line: Vec<char> = Vec::new();
    let mut k: usize = 0;
    proof {
        assert(line@ =~= Seq::<char>::empty());
        let ws0 = Seq::<Seq<char>>::empty();
        assert(all_words_of(source@, ws0));
        assert(spaced_concat(ws0) == Seq::<char>::empty());
        assert(is_line_of(source@, 0, line@));
    }
    while k < amount
        invariant
            k <= amount,
            amount > 0 ==> corpus_wf(source@),
            is_line_of(source@, k as nat, line@),
        decreases amount - k,
    {
        let bi = random_index(source.buckets.len());
        let bucket = &source.buckets[bi];
        proof {
            assert(source@[bi as int] == bucket_view(source.buckets@[bi as int]));
            assert(source@[bi as int].len() > 0);
        }
        let wi = random_index(bucket.len());
        let word = &bucket[wi];
        let ghost before = line@;
        let mut p: usize = 0;
        while p < word.len()
            invariant
                p <= word.len(),
                word == source.buckets@[bi as int]@[wi as int],
                line@ == before + word@.subrange(0, p as int),
            decreases word.len() - p,
        {
            line.push(word[p]);
            proof {
                assert(line@ =~= before + word@.subrange(0, p + 1));
            }
            p += 1;
        }
        line.push(' ');
        proof {
            assert(word@.subrange(0, word@.len() as int) =~= word@);
            assert(line@ =~= before + word@ + seq![' ']);
            assert(source@[bi as int] == bucket_view(source.buckets@[bi as int]));
            assert(source@[bi as int][wi as int] == word@);
            assert(is_word_of(source@, word@));
            lemma_line_extend(source@, k as nat, before, word@, line@);
        }
        k += 1;
    }
    line
}

} // verus!
