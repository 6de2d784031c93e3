use crate::expression::specials::{dot_quote, if_else_then, word_def};
use crate::expression::{block_model, BorthExpression, ExprModel, Primitive};
use crate::number::{item_value, parse_item};
use crate::parser::{BorthIterator, TokenView};
use crate::text::same_text;
use std::rc::Rc;
use vstd::prelude::*;

verus! {

/// Abstract form of a dictionary: folded word names to what they denote.
pub type DictView = Map<Seq<char>, ExprModel>;

/// What `str::to_lowercase` gives for the characters `s`.
pub uninterp spec fn lower_of(s: Seq<char>) -> Seq<char>;

/// Relies on str::to_lowercase: the result depends on the characters alone.
#[verifier::external_body]
pub(crate) fn lowercase(s: &str) -> (r: String)
    ensures
        r@ == lower_of(s@),
{
    s.to_lowercase()
}

/// Relies on Rc::clone: the new handle points at the same value.
#[verifier::external_body]
pub(crate) fn share(e: &Rc<BorthExpression>) -> (r: Rc<BorthExpression>)
    ensures
        r == *e,
{
    Rc::clone(e)
}

/// The dictionary a run starts with: each primitive under its name.
pub open spec fn builtin_words() -> DictView {
    Map::empty().insert(lower_of("+"@), ExprModel::Operation(Primitive::Add)).insert(
        lower_of("-"@),
        ExprModel::Operation(Primitive::Sub),
    ).insert(lower_of("*"@), ExprModel::Operation(Primitive::Mul)).insert(
        lower_of("/"@),
        ExprModel::Operation(Primitive::Div),
    ).insert(lower_of("dup"@), ExprModel::Operation(Primitive::Dup)).insert(
        lower_of("drop"@),
        ExprModel::Operation(Primitive::Drop),
    ).insert(lower_of("swap"@), ExprModel::Operation(Primitive::Swap)).insert(
        lower_of("over"@),
        ExprModel::Operation(Primitive::Over),
    ).insert(lower_of("rot"@), ExprModel::Operation(Primitive::Rot)).insert(
        lower_of("="@),
        ExprModel::Operation(Primitive::Eq),
    ).insert(lower_of("<"@), ExprModel::Operation(Primitive::Lt)).insert(
        lower_of(">"@),
        ExprModel::Operation(Primitive::Gt),
    ).insert(lower_of("and"@), ExprModel::Operation(Primitive::And)).insert(
        lower_of("or"@),
        ExprModel::Operation(Primitive::Or),
    ).insert(lower_of("not"@), ExprModel::Operation(Primitive::Not)).insert(
        lower_of("."@),
        ExprModel::Operation(Primitive::Dot),
    ).insert(lower_of("emit"@), ExprModel::Operation(Primitive::Emit)).insert(
        lower_of("cr"@),
        ExprModel::Operation(Primitive::Cr),
    )
}

/// What one resolution step produced: the expression, the dictionary after
/// it, and the position of the first token it did not read.
pub struct Resolution {
    pub expr: ExprModel,
    pub dict: DictView,
    pub pos: int,
}

/// `w` without the double quotes at its end.
pub open spec fn trim_quotes(w: Seq<char>) -> Seq<char>
    decreases w.len(),
{
    if w.len() > 0 && w.last() == '"' {
        trim_quotes(w.drop_last())
    } else {
        w
    }
}

/// A string literal whose text so far is `acc`, read from position `i` on:
/// words and their white space up to the first word that ends in a double
/// quote. Running out of tokens first is an incomplete statement.
pub open spec fn string_literal(toks: Seq<TokenView>, i: int, acc: Seq<char>) -> (ExprModel, int)
    decreases toks.len() - i,
{
    if i < 0 || i >= toks.len() {
        (ExprModel::IncompleteStatement, toks.len() as int)
    } else {
        let w = toks[i].0;
        if w.len() > 0 && w.last() == '"' {
            (ExprModel::DotQuote(acc + trim_quotes(w)), i + 1)
        } else {
            string_literal(toks, i + 1, acc + w + toks[i].1)
        }
    }
}

/// The next expression from position `i`, empty words skipped; `None` when
/// no word is left.
pub open spec fn resolve_next(d: DictView, toks: Seq<TokenView>, i: int) -> Option<Resolution>
    decreases toks.len() - i, 1int,
{
    if i < 0 || i >= toks.len() {
        None
    } else if toks[i].0.len() == 0 {
        resolve_next(d, toks, i + 1)
    } else {
        Some(resolve_word(d, toks[i].0, toks, i + 1))
    }
}

/// The expression that the word `w` starts, its following tokens from `i` on.
pub open spec fn resolve_word(d: DictView, w: Seq<char>, toks: Seq<TokenView>, i: int) -> Resolution
    decreases toks.len() - i, 4int,
{
    resolve_folded(d, w, lower_of(w), toks, i)
}

/// The expression that the word `w`, whose folded form is `f`, starts: a
/// number, a word of the dictionary, a special form, or an unknown word.
pub open spec fn resolve_folded(
    d: DictView,
    w: Seq<char>,
    f: Seq<char>,
    toks: Seq<TokenView>,
    i: int,
) -> Resolution
    decreases toks.len() - i, 3int,
{
    match item_value(w) {
        Some(v) => Resolution { expr: ExprModel::Number(v), dict: d, pos: i },
        None => if d.contains_key(f) {
            Resolution { expr: d[f], dict: d, pos: i }
        } else if f == ".\""@ {
            let (e, p) = string_literal(toks, i, Seq::empty());
            Resolution { expr: e, dict: d, pos: p }
        } else if f == "if"@ {
            conditional(d, toks, i, Seq::empty(), Seq::empty(), false)
        } else if f == ":"@ {
            definition(d, toks, i)
        } else {
            Resolution { expr: ExprModel::UnknownWord(w), dict: d, pos: i }
        },
    }
}

/// A conditional whose branches so far are `if_block` and `else_block`, read
/// from position `i` on, up to `then`; `else` switches to the second branch.
pub open spec fn conditional(
    d: DictView,
    toks: Seq<TokenView>,
    i: int,
    if_block: Seq<ExprModel>,
    else_block: Seq<ExprModel>,
    in_else: bool,
) -> Resolution
    decreases toks.len() - i, 0int,
{
    if i < 0 || i >= toks.len() {
        Resolution { expr: ExprModel::IncompleteStatement, dict: d, pos: toks.len() as int }
    } else {
        let w = toks[i].0;
        let f = lower_of(w);
        if w.len() == 0 {
            conditional(d, toks, i + 1, if_block, else_block, in_else)
        } else if f == "then"@ {
            Resolution { expr: ExprModel::IfElseThen(if_block, else_block), dict: d, pos: i + 1 }
        } else if f == "else"@ {
            conditional(d, toks, i + 1, if_block, else_block, true)
        } else {
            let p = resolve_folded(d, w, f, toks, i + 1);
            if i < p.pos <= toks.len() {
                if in_else {
                    conditional(p.dict, toks, p.pos, if_block, else_block.push(p.expr), true)
                } else {
                    conditional(p.dict, toks, p.pos, if_block.push(p.expr), else_block, false)
                }
            } else {
                Resolution { expr: ExprModel::IncompleteStatement, dict: p.dict, pos: toks.len() as int }
            }
        }
    }
}

/// A word definition read from position `i` on: the name, then the body up
/// to `;`. A numeric name or an empty body is an invalid word.
pub open spec fn definition(d: DictView, toks: Seq<TokenView>, i: int) -> Resolution
    decreases toks.len() - i, 0int,
{
    if i < 0 || i >= toks.len() {
        Resolution { expr: ExprModel::InvalidWord, dict: d, pos: toks.len() as int }
    } else if item_value(toks[i].0) is Some {
        Resolution { expr: ExprModel::InvalidWord, dict: d, pos: i + 1 }
    } else {
        definition_body(d, toks[i].0, toks, i + 1, Seq::empty())
    }
}

/// Registers `body` under `name`, unless it is empty.
pub open spec fn define(d: DictView, name: Seq<char>, body: Seq<ExprModel>, pos: int) -> Resolution {
    if body.len() == 0 {
        Resolution { expr: ExprModel::InvalidWord, dict: d, pos }
    } else {
        Resolution { expr: ExprModel::WordCreated, dict: d.insert(lower_of(name), ExprModel::Word(body)), pos }
    }
}

/// The rest of the body of the word `name`, collected so far in `body`, from
/// position `j` on. Each element is resolved against the dictionary as it
/// stands then.
pub open spec fn definition_body(
    d: DictView,
    name: Seq<char>,
    toks: Seq<TokenView>,
    j: int,
    body: Seq<ExprModel>,
) -> Resolution
    decreases toks.len() - j, 2int,
{
    match resolve_next(d, toks, j) {
        None => define(d, name, body, toks.len() as int),
        Some(p) => if p.expr == ExprModel::UnknownWord(";"@) {
            define(p.dict, name, body, p.pos)
        } else if j < p.pos <= toks.len() {
            definition_body(p.dict, name, toks, p.pos, body.push(p.expr))
        } else {
            Resolution { expr: ExprModel::InvalidWord, dict: p.dict, pos: toks.len() as int }
        },
    }
}

/// The dictionary that a list of entries stands for: a later entry hides an
/// earlier one with the same name.
pub open spec fn entries_view(es: Seq<(String, Rc<BorthExpression>)>) -> DictView
    decreases es.len(),
{
    if es.len() == 0 {
        Map::empty()
    } else {
        entries_view(es.drop_last()).insert(es.last().0@, (*es.last().1)@)
    }
}

proof fn lemma_entries_suffix(es: Seq<(String, Rc<BorthExpression>)>, k: int, key: Seq<char>)
    requires
        0 <= k <= es.len(),
        forall|j: int| k <= j < es.len() ==> (#[trigger] es[j]).0@ != key,
    ensures
        entries_view(es).contains_key(key) == entries_view(es.take(k)).contains_key(key),
        entries_view(es).contains_key(key) ==> entries_view(es)[key] == entries_view(es.take(k))[key],
    decreases es.len(),
{
    if k < es.len() {
        let init = es.drop_last();
        assert(init.take(k) == es.take(k));
        lemma_entries_suffix(init, k, key);
    } else {
        assert(es.take(k) == es);
    }
}

/// Store words and their definitions
pub struct BorthDict {
    words: Vec<(String, Rc<BorthExpression>)>,
    word_created: Rc<BorthExpression>,
}

impl View for BorthDict {
    type V = DictView;

    closed spec fn view(&self) -> DictView {
        entries_view(self.words@)
    }
}

impl BorthDict {
    pub closed spec fn wf(&self) -> bool {
        (*self.word_created)@ == ExprModel::WordCreated
    }

    /// Create a new BorthDict instance with builtin words
    pub fn new() -> (r: Self)
        ensures
            r.wf(),
            r@ == builtin_words(),
    {
        let mut this = Self { words: Vec::new(), word_created: Rc::new(BorthExpression::WordCreated) };
        this.init_words();
        this
    }

    fn init_words(&mut self)
        requires
            old(self)@ == Map::<Seq<char>, ExprModel>::empty(),
        ensures
            final(self)@ == builtin_words(),
            final(self).wf() == old(self).wf(),
    {
        self.add("+", BorthExpression::Operation(Primitive::Add));
        self.add("-", BorthExpression::Operation(Primitive::Sub));
        self.add("*", BorthExpression::Operation(Primitive::Mul));
        self.add("/", BorthExpression::Operation(Primitive::Div));
        self.add("dup", BorthExpression::Operation(Primitive::Dup));
        self.add("drop", BorthExpression::Operation(Primitive::Drop));
        self.add("swap", BorthExpression::Operation(Primitive::Swap));
        self.add("over", BorthExpression::Operation(Primitive::Over));
        self.add("rot", BorthExpression::Operation(Primitive::Rot));
        self.add("=", BorthExpression::Operation(Primitive::Eq));
        self.add("<", BorthExpression::Operation(Primitive::Lt));
        self.add(">", BorthExpression::Operation(Primitive::Gt));
        self.add("and", BorthExpression::Operation(Primitive::And));
        self.add("or", BorthExpression::Operation(Primitive::Or));
        self.add("not", BorthExpression::Operation(Primitive::Not));
        self.add(".", BorthExpression::Operation(Primitive::Dot));
        self.add("emit", BorthExpression::Operation(Primitive::Emit));
        self.add("cr", BorthExpression::Operation(Primitive::Cr));
    }

    /// Registers `exp` under the folded form of `token`, replacing what was
    /// there.
    fn add(&mut self, token: &str, exp: BorthExpression)
        ensures
            final(self)@ == old(self)@.insert(lower_of(token@), exp@),
            final(self).wf() == old(self).wf(),
    {
        let key = lowercase(token);
        self.insert(key, Rc::new(exp));
    }

    /// Registers `exp` under `key`, which is taken as already folded.
    pub fn insert(&mut self, key: String, exp: Rc<BorthExpression>)
        ensures
            final(self)@ == old(self)@.insert(key@, (*exp)@),
            final(self).wf() == old(self).wf(),
    {
        let ghost before = self.words@;
        self.words.push((key, exp));
        assert(self.words@.drop_last() == before);
    }

    /// Add a new word to the dictionary
    pub fn add_word(&mut self, token: &str, body: Vec<Rc<BorthExpression>>) -> (r: Rc<BorthExpression>)
        requires
            old(self).wf(),
        ensures
            final(self).wf(),
            final(self)@ == old(self)@.insert(lower_of(token@), ExprModel::Word(block_model(body@))),
            (*r)@ == ExprModel::WordCreated,
    {
        self.add(token, BorthExpression::Word(body));
        share(&self.word_created)
    }

    /// What the dictionary holds under `key`, which is taken as already folded.
    pub fn lookup(&self, key: &str) -> (r: Option<Rc<BorthExpression>>)
        ensures
            r is Some == self@.contains_key(key@),
            r is Some ==> (*r->0)@ == self@[key@],
    {
        let mut j: usize = self.words.len();
        while j > 0
            invariant
                j <= self.words.len(),
                forall|k: int| j <= k < self.words.len() ==> (#[trigger] self.words@[k]).0@ != key@,
            decreases j,
        {
            if same_text(self.words[j - 1].0.as_str(), key) {
                proof {
                    lemma_entries_suffix(self.words@, j as int, key@);
                    assert(self.words@.take(j as int).drop_last() == self.words@.take(j - 1));
                }
                return Some(share(&self.words[j - 1].1));
            }
            j = j - 1;
        }
        proof {
            lemma_entries_suffix(self.words@, 0, key@);
        }
        None
    }

    /// Detect the next expression in the iterator
    pub fn detect_next(&mut self, iterator: &mut BorthIterator) -> (r: Option<Rc<BorthExpression>>)
        requires
            old(self).wf(),
            old(iterator).wf(),
        ensures
            final(self).wf(),
            final(iterator).wf(),
            final(iterator).tokens() == old(iterator).tokens(),
            final(iterator).pos() >= old(iterator).pos(),
            r is Some ==> final(iterator).pos() > old(iterator).pos(),
            match resolve_next(old(self)@, old(iterator).tokens(), old(iterator).pos()) {
                None => r is None && final(self)@ == old(self)@ && final(iterator).pos()
                    == old(iterator).tokens().len(),
                Some(p) => r is Some && (*r->0)@ == p.expr && final(self)@ == p.dict
                    && final(iterator).pos() == p.pos,
            },
        decreases old(iterator).tokens().len() - old(iterator).pos(), 1int,
    {
        let ghost toks = iterator.tokens();
        let ghost start = iterator.pos();
        loop
            invariant
                iterator.wf(),
                iterator.tokens() == toks,
                toks == old(iterator).tokens(),
                start <= iterator.pos(),
                start == old(iterator).pos(),
                self.wf(),
                self@ == old(self)@,
                resolve_next(self@, toks, start) == resolve_next(self@, toks, iterator.pos()),
            decreases toks.len() - iterator.pos(),
        {
            match iterator.next() {
                None => {
                    return None;
                },
                Some(t) => {
                    let word = t.0.as_str();
                    if word.unicode_len() == 0 {
                        continue;
                    }
                    return Some(self.detect_word(word, iterator));
                },
            }
        }
    }

    /// The expression that `word` starts, its following tokens read from
    /// `iterator` as needed.
    pub fn detect_word(&mut self, word: &str, iterator: &mut BorthIterator) -> (r: Rc<BorthExpression>)
        requires
            old(self).wf(),
            old(iterator).wf(),
        ensures
            final(self).wf(),
            final(iterator).wf(),
            final(iterator).tokens() == old(iterator).tokens(),
            final(iterator).pos() >= old(iterator).pos(),
            ({
                let p = resolve_word(old(self)@, word@, old(iterator).tokens(), old(iterator).pos());
                (*r)@ == p.expr && final(self)@ == p.dict && final(iterator).pos() == p.pos
            }),
        decreases old(iterator).tokens().len() - old(iterator).pos(), 4int,
    {
        let folded = lowercase(word);
        self.detect_folded(word, folded.as_str(), iterator)
    }

    /// The expression that `word`, whose folded form is `folded`, starts: a
    /// number, a word of the dictionary, or a special form (`."`, `if`, `:`).
    pub fn detect_folded(&mut self, word: &str, folded: &str, iterator: &mut BorthIterator) -> (r: Rc<
        BorthExpression,
    >)
        requires
            old(self).wf(),
            old(iterator).wf(),
        ensures
            final(self).wf(),
            final(iterator).wf(),
            final(iterator).tokens() == old(iterator).tokens(),
            final(iterator).pos() >= old(iterator).pos(),
            ({
                let p = resolve_folded(
                    old(self)@,
                    word@,
                    folded@,
                    old(iterator).tokens(),
                    old(iterator).pos(),
                );
                (*r)@ == p.expr && final(self)@ == p.dict && final(iterator).pos() == p.pos
            }),
        decreases old(iterator).tokens().len() - old(iterator).pos(), 3int,
    {
        if let Some(value) = parse_item(word) {
            return Rc::new(BorthExpression::Number(value));
        }
        if let Some(exp) = self.lookup(folded) {
            return exp;
        }
        if same_text(folded, ".\"") {
            Rc::new(dot_quote::create(iterator))
        } else if same_text(folded, "if") {
            Rc::new(if_else_then::create(iterator, self))
        } else if same_text(folded, ":") {
            word_def::create(iterator, self)
        } else {
            Rc::new(BorthExpression::UnknownWord(String::from_str(word)))
        }
    }

    /// Try to detect a word and return its expression
    pub fn try_detect(&self, token: &str) -> (r: Option<Rc<BorthExpression>>)
        ensures
            r is Some == (item_value(token@) is Some || self@.contains_key(lower_of(token@))),
            r is Some ==> (*r->0)@ == match item_value(token@) {
                Some(v) => ExprModel::Number(v),
                None => self@[lower_of(token@)],
            },
    {
        if let Some(value) = parse_item(token) {
            return Some(Rc::new(BorthExpression::Number(value)));
        }
        let key = lowercase(token);
        self.lookup(key.as_str())
    }
}

} // verus!
