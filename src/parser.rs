use crate::dict::{resolve_next, BorthDict, DictView};
use crate::expression::{block_model, BorthExpression, ExprModel};
use crate::text::{chars_of, is_space, is_whitespace, push_char};
use std::rc::Rc;
use vstd::prelude::*;

verus! {

/// A word and the white space that followed it.
pub type BorthToken = (String, String);

/// Abstract form of a token: the characters of the word and of its white space.
pub type TokenView = (Seq<char>, Seq<char>);

pub open spec fn token_view(t: BorthToken) -> TokenView {
    (t.0@, t.1@)
}

pub open spec fn tokens_view(ts: Seq<BorthToken>) -> Seq<TokenView> {
    Seq::new(ts.len(), |i: int| token_view(ts[i]))
}

/// Number of characters before the first white space of `s`.
pub open spec fn word_len(s: Seq<char>) -> nat
    decreases s.len(),
{
    if s.len() == 0 || is_space(s[0]) {
        0
    } else {
        1 + word_len(s.drop_first())
    }
}

/// Splits `s` at every white-space character. Each token holds the word
/// before the character and the character itself; two white-space
/// characters in a row give an empty word. A last word with nothing after it
/// comes with empty white space, and white space at the very end gives no
/// further token.
pub open spec fn tokenize(s: Seq<char>) -> Seq<TokenView>
    decreases s.len(),
{
    if s.len() == 0 {
        Seq::empty()
    } else {
        let k = word_len(s) as int;
        if k >= s.len() {
            seq![(s, Seq::empty())]
        } else {
            seq![(s.take(k), seq![s[k]])] + tokenize(s.skip(k + 1))
        }
    }
}

proof fn lemma_word_len(s: Seq<char>, k: int)
    requires
        0 <= k <= s.len(),
        forall|j: int| 0 <= j < k ==> !is_space(#[trigger] s[j]),
        k == s.len() || is_space(s[k]),
    ensures
        word_len(s) == k,
    decreases k,
{
    if k > 0 {
        let t = s.drop_first();
        assert forall|j: int| 0 <= j < k - 1 implies !is_space(#[trigger] t[j]) by {
            assert(t[j] == s[j + 1]);
        }
        if k < s.len() {
            assert(t[k - 1] == s[k]);
        }
        lemma_word_len(t, k - 1);
    }
}

/// Parses a string into tokens.
pub fn parse_tokens(code: &str) -> (r: BorthTokens)
    ensures
        r@ == tokenize(code@),
{
    let cs = chars_of(code);
    let ghost s = code@;
    let mut tokens: Vec<BorthToken> = Vec::new();
    let mut word = String::new();
    let mut start: usize = 0;
    let mut i: usize = 0;
    assert(s.skip(0) == s);
    assert(tokens_view(tokens@) + tokenize(s) == tokenize(s));
    while i < cs.len()
        invariant
            cs@ == s,
            start <= i <= cs.len(),
            word@ == s.subrange(start as int, i as int),
            forall|j: int| start <= j < i ==> !is_space(#[trigger] s[j]),
            tokens_view(tokens@) + tokenize(s.skip(start as int)) == tokenize(s),
        decreases cs.len() - i,
    {
        let c = cs[i];
        if is_whitespace(c) {
            let ghost rest = s.skip(start as int);
            proof {
                assert forall|j: int| 0 <= j < i - start implies !is_space(#[trigger] rest[j]) by {
                    assert(rest[j] == s[start + j]);
                }
                assert(rest[i - start] == c);
                lemma_word_len(rest, i - start);
                assert(rest.take(i - start) == word@);
                assert(rest.skip(i - start + 1) == s.skip(i + 1));
            }
            let mut space = String::new();
            push_char(&mut space, c);
            let ghost before = tokens@;
            tokens.push((word, space));
            assert(tokens_view(tokens@) == tokens_view(before).push((rest.take(i - start), seq![c])));
            word = String::new();
            start = i + 1;
        } else {
            push_char(&mut word, c);
        }
        i = i + 1;
    }
    if start < cs.len() {
        let ghost rest = s.skip(start as int);
        proof {
            assert forall|j: int| 0 <= j < rest.len() implies !is_space(#[trigger] rest[j]) by {
                assert(rest[j] == s[start + j]);
            }
            lemma_word_len(rest, rest.len() as int);
            assert(rest == word@);
        }
        let ghost before = tokens@;
        tokens.push((word, String::new()));
        assert(tokens_view(tokens@) == tokens_view(before).push((rest, Seq::<char>::empty())));
    } else {
        assert(s.skip(start as int).len() == 0);
    }
    assert(tokens_view(tokens@) + Seq::<TokenView>::empty() == tokens_view(tokens@));
    BorthTokens { tokens }
}

/// Every expression from position `i` on, and the dictionary after them.
pub open spec fn resolve_all(d: DictView, toks: Seq<TokenView>, i: int) -> (Seq<ExprModel>, DictView)
    decreases toks.len() - i,
{
    match resolve_next(d, toks, i) {
        None => (Seq::empty(), d),
        Some(p) => if i < p.pos <= toks.len() {
            let (rest, after) = resolve_all(p.dict, toks, p.pos);
            (seq![p.expr] + rest, after)
        } else {
            (seq![p.expr], p.dict)
        },
    }
}

/// Parse tokens into expressions.
pub fn parse_expressions(tokens: BorthTokens, dict: &mut BorthDict) -> (r: Vec<Rc<BorthExpression>>)
    requires
        old(dict).wf(),
    ensures
        final(dict).wf(),
        (block_model(r@), final(dict)@) == resolve_all(old(dict)@, tokens@, 0),
{
    let mut expressions: Vec<Rc<BorthExpression>> = Vec::new();
    let mut iterator = tokens.iter();
    let ghost toks = tokens@;
    assert(block_model(expressions@) == Seq::<ExprModel>::empty());
    assert(Seq::<ExprModel>::empty() + resolve_all(dict@, toks, 0).0 == resolve_all(dict@, toks, 0).0);
    loop
        invariant
            iterator.wf(),
            iterator.tokens() == toks,
            toks == tokens@,
            dict.wf(),
            resolve_all(old(dict)@, toks, 0) == (
                block_model(expressions@) + resolve_all(dict@, toks, iterator.pos()).0,
                resolve_all(dict@, toks, iterator.pos()).1,
            ),
        decreases toks.len() - iterator.pos(),
    {
        let ghost at = iterator.pos();
        let ghost d = dict@;
        match dict.detect_next(&mut iterator) {
            None => {
                assert(resolve_all(d, toks, at) == (Seq::<ExprModel>::empty(), d));
                assert(block_model(expressions@) + Seq::<ExprModel>::empty() == block_model(expressions@));
                return expressions;
            },
            Some(expression) => {
                let ghost before = expressions@;
                expressions.push(expression);
                assert(expressions@.subrange(0, expressions@.len() - 1) == before);
                assert(block_model(expressions@) == block_model(before).push((*expression)@));
                assert(block_model(before) + (seq![(*expression)@] + resolve_all(dict@, toks, iterator.pos()).0)
                    == block_model(expressions@) + resolve_all(dict@, toks, iterator.pos()).0);
            },
        }
    }
}

/// The tokens of a piece of source text, in order.
pub struct BorthTokens {
    tokens: Vec<BorthToken>,
}

impl View for BorthTokens {
    type V = Seq<TokenView>;

    closed spec fn view(&self) -> Seq<TokenView> {
        tokens_view(self.tokens@)
    }
}

impl BorthTokens {
    /// Number of tokens.
    pub fn len(&self) -> (r: usize)
        ensures
            r == self@.len(),
    {
        self.tokens.len()
    }

    /// A cursor at the first token.
    pub fn iter(&self) -> (r: BorthIterator<'_>)
        ensures
            r.wf(),
            r.tokens() == self@,
            r.pos() == 0,
    {
        BorthIterator { tokens: &self.tokens, pos: 0 }
    }
}

/// A cursor over tokens: those before its position have been read.
pub struct BorthIterator<'a> {
    tokens: &'a Vec<BorthToken>,
    pos: usize,
}

impl<'a> BorthIterator<'a> {
    /// All the tokens, read or not.
    pub closed spec fn tokens(&self) -> Seq<TokenView> {
        tokens_view(self.tokens@)
    }

    /// How many tokens have been read.
    pub closed spec fn pos(&self) -> int {
        self.pos as int
    }

    pub open spec fn wf(&self) -> bool {
        0 <= self.pos() <= self.tokens().len()
    }

    /// The tokens not read yet.
    pub open spec fn remaining(&self) -> Seq<TokenView> {
        self.tokens().skip(self.pos())
    }

    /// Reads the next token, if any is left.
    pub fn next(&mut self) -> (r: Option<&'a BorthToken>)
        requires
            old(self).wf(),
        ensures
            final(self).wf(),
            final(self).tokens() == old(self).tokens(),
            0 <= old(self).pos() <= old(self).tokens().len(),
            old(self).pos() < old(self).tokens().len() ==> r is Some && token_view(*r->0)
                == old(self).tokens()[old(self).pos()] && final(self).pos() == old(self).pos() + 1,
            old(self).pos() >= old(self).tokens().len() ==> r is None && final(self).pos()
                == old(self).pos(),
    {
        if self.pos < self.tokens.len() {
            let t = &self.tokens[self.pos];
            self.pos = self.pos + 1;
            Some(t)
        } else {
            None
        }
    }
}

} // verus!
