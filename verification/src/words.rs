use vstd::prelude::*;

verus! {

/// The characters of `s`, in order.
pub fn chars_of(s: &str) -> (r: Vec<char>)
    ensures
        r@ == s@,
{
    let mut r: Vec<char> = Vec::new();
    for c in it: s.chars()
        invariant
            r@ == it.seq().take(it.index()),
    {
        r.push(c);
    }
    r
}


/// Whether `c` has the Unicode `White_Space` property: the characters that
/// `str::split_whitespace` splits on.
pub open spec fn spec_is_white_space(c: char) -> bool {
    let u = c as u32;
    ||| 0x09 <= u <= 0x0d
    ||| u == 0x20
    ||| u == 0x85
    ||| u == 0xa0
    ||| u == 0x1680
    ||| 0x2000 <= u <= 0x200a
    ||| u == 0x2028
    ||| u == 0x2029
    ||| u == 0x202f
    ||| u == 0x205f
    ||| u == 0x3000
}

/// Tells whether `c` has the Unicode `White_Space` property.
pub fn is_white_space(c: char) -> (r: bool)
    ensures
        r == spec_is_white_space(c),
{
    let u = c as u32;
    (0x09 <= u && u <= 0x0d) || u == 0x20 || u == 0x85 || u == 0xa0 || u == 0x1680 || (0x2000 <= u
        && u <= 0x200a) || u == 0x2028 || u == 0x2029 || u == 0x202f || u == 0x205f || u == 0x3000
}

/// The words of `s`: its maximal runs of characters that are not white
/// space, in order, the way a shell word-splits an unquoted variable.
pub open spec fn spec_words(s: Seq<char>) -> Seq<Seq<char>>
    decreases s.len(),
{
    if s.len() == 0 {
        Seq::empty()
    } else {
        let prior = spec_words(s.drop_last());
        let c = s.last();
        if spec_is_white_space(c) {
            prior
        } else if s.len() > 1 && !spec_is_white_space(s[s.len() - 2]) {
            prior.update(prior.len() - 1, prior.last().push(c))
        } else {
            prior.push(seq![c])
        }
    }
}

/// The texts of a sequence of strings.
pub open spec fn texts(v: Seq<String>) -> Seq<Seq<char>> {
    v.map_values(|w: String| w@)
}

/// Appends `c` to `s` through `String::push`, which is trusted, as its
/// documentation says, to add `c` at the end of the string and change
/// nothing else.
#[verifier::external_body]
fn push_char(s: &mut String, c: char)
    ensures
        final(s)@ == old(s)@.push(c),
{
    s.push(c);
}

/// Splits `s` into its words (as `str::split_whitespace` does).
pub fn split_words(s: &str) -> (r: Vec<String>)
    ensures
        texts(r@) == spec_words(s@),
{
    let cs = chars_of(s);
    let n = cs.len();
    let mut words: Vec<String> = Vec::new();
    let mut cur = String::new();
    let mut in_word = false;
    let mut i: usize = 0;
    assert(cs@.take(0) =~= Seq::<char>::empty());
    while i < n
        invariant
            n == cs@.len(),
            cs@ == s@,
            i <= n,
            in_word == (i > 0 && !spec_is_white_space(cs@[i - 1])),
            !in_word ==> cur@ == Seq::<char>::empty(),
            texts(words@) + (if in_word { seq![cur@] } else { Seq::empty() }) == spec_words(
                cs@.take(i as int),
            ),
        decreases n - i,
    {
        let c = cs[i];
        let ghost prefix = cs@.take(i + 1);
        let ghost before = texts(words@);
        assert(prefix.drop_last() =~= cs@.take(i as int));
        assert(prefix.last() == c);
        if is_white_space(c) {
            if in_word {
                let done = cur;
                cur = String::new();
                words.push(done);
                assert(texts(words@) =~= before + seq![done@]);
            }
            in_word = false;
        } else {
            push_char(&mut cur, c);
            if in_word {
                assert(prefix[prefix.len() - 2] == cs@[i - 1]);
            }
            in_word = true;
            assert(texts(words@) + seq![cur@] =~= spec_words(prefix));
        }
        i = i + 1;
    }
    if in_word {
        let ghost before = texts(words@);
        words.push(cur);
        assert(texts(words@) =~= before + seq![cur@]);
    } else {
        assert(texts(words@) =~= texts(words@) + Seq::<Seq<char>>::empty());
    }
    assert(cs@.take(n as int) =~= cs@);
    words
}

/// A text has no words exactly when all of it is white space.
pub proof fn law_blank_text_has_no_words(s: Seq<char>)
    ensures
        spec_words(s).len() == 0 <==> forall|i: int|
            0 <= i < s.len() ==> spec_is_white_space(#[trigger] s[i]),
    decreases s.len(),
{
    if s.len() > 0 {
        let prior = s.drop_last();
        law_blank_text_has_no_words(prior);
        lemma_words_len_monotone(s);
        if forall|i: int| 0 <= i < s.len() ==> spec_is_white_space(#[trigger] s[i]) {
            assert forall|i: int| 0 <= i < prior.len() implies spec_is_white_space(
                #[trigger] prior[i],
            ) by {
                assert(prior[i] == s[i]);
            }
            assert(spec_is_white_space(s[s.len() - 1]));
        }
        if spec_words(s).len() == 0 {
            assert forall|i: int| 0 <= i < s.len() implies spec_is_white_space(#[trigger] s[i]) by {
                if i < s.len() - 1 {
                    assert(s[i] == prior[i]);
                }
            }
        }
    }
}

proof fn lemma_words_len_monotone(s: Seq<char>)
    requires
        s.len() > 0,
    ensures
        spec_words(s.drop_last()).len() <= spec_words(s).len(),
        !spec_is_white_space(s.last()) ==> spec_words(s).len() > 0,
    decreases s.len(),
{
    let prior = s.drop_last();
    if s.len() > 1 && !spec_is_white_space(s[s.len() - 2]) {
        lemma_words_len_monotone(prior);
        assert(prior.last() == s[s.len() - 2]);
    }
}

/// Every word is non-empty and holds no white space.
pub proof fn law_words_are_nonempty_and_blank_free(s: Seq<char>)
    ensures
        forall|k: int|
            0 <= k < spec_words(s).len() ==> (#[trigger] spec_words(s)[k]).len() > 0 && forall|
                j: int,
            |
                0 <= j < spec_words(s)[k].len() ==> !spec_is_white_space(
                    #[trigger] spec_words(s)[k][j],
                ),
    decreases s.len(),
{
    if s.len() > 0 {
        let prior = s.drop_last();
        law_words_are_nonempty_and_blank_free(prior);
        lemma_words_len_monotone(s);
        let pw = spec_words(prior);
        let c = s.last();
        if !spec_is_white_space(c) {
            if s.len() > 1 && !spec_is_white_space(s[s.len() - 2]) {
                lemma_words_len_monotone(prior);
                assert(prior.last() == s[s.len() - 2]);
                let grown = pw.last().push(c);
                assert forall|j: int| 0 <= j < grown.len() implies !spec_is_white_space(
                    #[trigger] grown[j],
                ) by {
                    if j < grown.len() - 1 {
                        assert(grown[j] == pw[pw.len() - 1][j]);
                    }
                }
            } else {
                let single = seq![c];
                assert(forall|j: int| 0 <= j < single.len() ==> single[j] == c);
            }
        }
    }
}


/// Among ASCII characters, white space is exactly tab, line feed, vertical
/// tab, form feed, carriage return and space; every printable ASCII
/// character other than space (letters, digits, punctuation such as `,`)
/// is part of a word.
pub proof fn law_ascii_white_space(c: char)
    requires
        (c as u32) < 0x80,
    ensures
        spec_is_white_space(c) <==> (c == '\t' || c == '\n' || c == '\u{b}' || c == '\u{c}' || c
            == '\r' || c == ' '),
        '!' <= c <= '~' ==> !spec_is_white_space(c),
{
}

/// Beyond ASCII, white space is exactly next line, no-break space, ogham
/// space mark, the spaces from en quad to hair space, line and paragraph
/// separators, narrow no-break space, medium mathematical space and
/// ideographic space.
pub proof fn law_non_ascii_white_space(c: char)
    requires
        (c as u32) >= 0x80,
    ensures
        spec_is_white_space(c) <==> (c == '\u{85}' || c == '\u{a0}' || c == '\u{1680}' || (
        '\u{2000}' <= c <= '\u{200a}') || c == '\u{2028}' || c == '\u{2029}' || c == '\u{202f}'
            || c == '\u{205f}' || c == '\u{3000}'),
{
}

/// Splitting loses nothing but white space: the words, put back together,
/// are the text with its white space removed.
pub proof fn law_words_keep_every_other_character(s: Seq<char>)
    ensures
        spec_words(s).flatten() == s.filter(|c: char| !spec_is_white_space(c)),
    decreases s.len(),
{
    let keep = |c: char| !spec_is_white_space(c);
    if s.len() == 0 {
        reveal(Seq::filter);
        assert(s.filter(keep) =~= Seq::<char>::empty());
    } else {
        let prior_text = s.drop_last();
        let c = s.last();
        law_words_keep_every_other_character(prior_text);
        assert(prior_text.push(c) =~= s);
        prior_text.lemma_filter_push(c, keep);
        let prior = spec_words(prior_text);
        if spec_is_white_space(c) {
        } else if s.len() > 1 && !spec_is_white_space(s[s.len() - 2]) {
            lemma_words_len_monotone(prior_text);
            assert(prior_text.last() == s[s.len() - 2]);
            let front = prior.drop_last();
            let updated = prior.update(prior.len() - 1, prior.last().push(c));
            assert(prior =~= front.push(prior.last()));
            assert(updated =~= front.push(prior.last().push(c)));
            front.lemma_flatten_push(prior.last());
            front.lemma_flatten_push(prior.last().push(c));
            assert(updated.flatten() =~= prior.flatten().push(c));
        } else {
            prior.lemma_flatten_push(seq![c]);
            assert(prior.flatten() + seq![c] =~= prior.flatten().push(c));
        }
    }
}

/// White space separates words: the words of a text with a white-space
/// character in it are the words before it followed by the words after it.
pub proof fn law_white_space_separates_words(before: Seq<char>, c: char, after: Seq<char>)
    requires
        spec_is_white_space(c),
    ensures
        spec_words(before.push(c) + after) == spec_words(before) + spec_words(after),
    decreases after.len(),
{
    let whole = before.push(c) + after;
    if after.len() == 0 {
        assert(whole =~= before.push(c));
        assert(whole.drop_last() =~= before);
        assert(spec_words(before) + spec_words(after) =~= spec_words(before));
    } else {
        let shorter = after.drop_last();
        let x = after.last();
        law_white_space_separates_words(before, c, shorter);
        assert(whole.drop_last() =~= before.push(c) + shorter);
        assert(whole.last() == x);
        let left = spec_words(before);
        let mid = spec_words(shorter);
        if spec_is_white_space(x) {
        } else if shorter.len() > 0 && !spec_is_white_space(shorter.last()) {
            assert(whole[whole.len() - 2] == shorter.last());
            assert(after[after.len() - 2] == shorter.last());
            lemma_words_len_monotone(shorter);
            assert(shorter.drop_last().push(shorter.last()) =~= shorter);
            assert((left + mid).update(left.len() + mid.len() - 1, mid.last().push(x)) =~= left
                + mid.update(mid.len() - 1, mid.last().push(x)));
        } else {
            if shorter.len() == 0 {
                assert(whole[whole.len() - 2] == c);
            } else {
                assert(whole[whole.len() - 2] == shorter.last());
                assert(after[after.len() - 2] == shorter.last());
            }
            assert((left + mid).push(seq![x]) =~= left + mid.push(seq![x]));
        }
    }
}

/// A non-empty text without white space is one word: itself.
pub proof fn law_text_without_white_space_is_one_word(s: Seq<char>)
    requires
        s.len() > 0,
        forall|i: int| 0 <= i < s.len() ==> !spec_is_white_space(#[trigger] s[i]),
    ensures
        spec_words(s) == seq![s],
    decreases s.len(),
{
    let prior = s.drop_last();
    if s.len() == 1 {
        assert(prior =~= Seq::<char>::empty());
        assert(seq![s.last()] =~= s);
        assert(spec_words(prior) == Seq::<Seq<char>>::empty());
        assert(!spec_is_white_space(s.last()));
        assert(spec_words(s) == spec_words(prior).push(seq![s.last()]));
        assert(Seq::<Seq<char>>::empty().push(seq![s.last()]) =~= seq![s]);
    } else {
        assert(forall|i: int| 0 <= i < prior.len() ==> prior[i] == s[i]);
        law_text_without_white_space_is_one_word(prior);
        assert(s[s.len() - 2] == prior[prior.len() - 1]);
        assert(prior.push(s.last()) =~= s);
        assert(!spec_is_white_space(s.last()));
        assert(!spec_is_white_space(s[s.len() - 2]));
        assert(spec_words(s) == spec_words(prior).update(0, prior.push(s.last())));
        assert(seq![prior].update(0, prior.push(s.last())) =~= seq![s]);
    }
}

} // verus!
