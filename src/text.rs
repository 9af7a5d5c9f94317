use vstd::prelude::*;
use vstd::string::*;

verus! {

/// The pieces of `s` between occurrences of `sep`, as `str::split` yields them:
/// one more piece than there are separators, empty pieces kept.
pub open spec fn split_on(s: Seq<char>, sep: char) -> Seq<Seq<char>>
    decreases s.len(),
{
    if s.len() == 0 {
        seq![Seq::<char>::empty()]
    } else {
        let prev = split_on(s.drop_last(), sep);
        if s.last() == sep {
            prev.push(Seq::<char>::empty())
        } else {
            prev.update(prev.len() - 1, prev.last().push(s.last()))
        }
    }
}

/// Splitting always yields at least one piece.
pub proof fn lemma_split_nonempty(s: Seq<char>, sep: char)
    ensures
        split_on(s, sep).len() >= 1,
    decreases s.len(),
{
    if s.len() > 0 {
        lemma_split_nonempty(s.drop_last(), sep);
    }
}

/// Splits `s` at every occurrence of `sep`.
pub fn split_chars(s: &str, sep: char) -> (r: Vec<String>)
    ensures
        r.deep_view() == split_on(s@, sep),
{
    let n = s.unicode_len();
    let mut tokens: Vec<String> = Vec::new();
    let mut start: usize = 0;
    let mut i: usize = 0;
    proof {
        assert(s@.take(0) =~= Seq::<char>::empty());
        assert(tokens.deep_view().push(s@.subrange(0, 0)) =~= seq![Seq::<char>::empty()]);
    }
    while i < n
        invariant
            n == s@.len(),
            start <= i <= n,
            tokens.deep_view().push(s@.subrange(start as int, i as int)) == split_on(
                s@.take(i as int),
                sep,
            ),
        decreases n - i,
    {
        let c = s.get_char(i);
        let ghost prev = tokens.deep_view();
        proof {
            assert(s@.take(i + 1).drop_last() =~= s@.take(i as int));
            assert(s@.take(i + 1).last() == c);
        }
        if c == sep {
            let piece = s.substring_char(start, i).to_owned();
            tokens.push(piece);
            start = i + 1;
            proof {
                assert(tokens.deep_view() =~= prev.push(piece@));
                assert(s@.subrange(start as int, i + 1) =~= Seq::<char>::empty());
                assert(tokens.deep_view().push(s@.subrange(start as int, i + 1)) =~= prev.push(
                    piece@,
                ).push(Seq::<char>::empty()));
            }
        } else {
            proof {
                assert(s@.subrange(start as int, i + 1) =~= s@.subrange(start as int, i as int).push(
                    c,
                ));
                assert(tokens.deep_view().push(s@.subrange(start as int, i + 1)) =~= prev.push(
                    s@.subrange(start as int, i as int),
                ).update(prev.len() as int, s@.subrange(start as int, i as int).push(c)));
            }
        }
        i = i + 1;
    }
    let last = s.substring_char(start, n).to_owned();
    let ghost prev = tokens.deep_view();
    tokens.push(last);
    proof {
        assert(s@.take(n as int) =~= s@);
        assert(tokens.deep_view() =~= prev.push(last@));
    }
    tokens
}

/// Splits a line of a scene file at single spaces into its keyword (the first
/// piece) and the pieces that follow it.
pub fn tokenize_line(s: String) -> (r: (String, Vec<String>))
    ensures
        r.0@ == split_on(s@, ' ')[0],
        r.1.deep_view() == split_on(s@, ' ').drop_first(),
{
    let mut tokens = split_chars(s.as_str(), ' ');
    proof {
        lemma_split_nonempty(s@, ' ');
    }
    let ghost all = tokens.deep_view();
    let id = tokens.remove(0);
    proof {
        assert(tokens.deep_view() =~= all.drop_first());
    }
    (id, tokens)
}

/// Whether `s` is exactly the word `w`.
pub fn is_word(s: &str, w: &[char]) -> (r: bool)
    ensures
        r == (s@ == w@),
{
    let n = s.unicode_len();
    if n != w.len() {
        return false;
    }
    let mut i: usize = 0;
    while i < n
        invariant
            n == s@.len(),
            n == w@.len(),
            i <= n,
            forall|j: int| 0 <= j < i ==> s@[j] == w@[j],
        decreases n - i,
    {
        if s.get_char(i) != w[i] {
            return false;
        }
        i = i + 1;
    }
    assert(s@ =~= w@);
    true
}

} // verus!
