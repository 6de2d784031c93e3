use crate::errors::{BorthError, BorthResult};
use crate::number::{
    decimal, decimal_string, item_value, lemma_decimal_round_trip, parse_item, parse_size_from, size_value,
};
use crate::stack::BorthItem;
use crate::text::{chars_of, push_char};
use vstd::prelude::*;

verus! {

/// Stack size in bytes when none is given.
pub const DEFAULT_STACK_SIZE: usize = 128_000;

/// The flag that sets the stack size; the size follows it directly.
pub open spec fn size_flag() -> Seq<char> {
    "--stack-size="@
}

/// Whether `s` starts with `p`.
pub open spec fn starts_with(s: Seq<char>, p: Seq<char>) -> bool {
    p.len() <= s.len() && s.take(p.len() as int) == p
}

/// What a command line asks for: the path of the source and, when there is a
/// third argument, the stack size in bytes that it gives as
/// `--stack-size=<digits>`. Any other third argument is a bad argument.
pub open spec fn parsed_args(args: Seq<Seq<char>>) -> BorthResult<(Seq<char>, Option<usize>)> {
    if args.len() < 2 {
        Err(BorthError::MissingArguments)
    } else if args.len() > 3 {
        Err(BorthError::TooManyArguments)
    } else if args.len() == 2 {
        Ok((args[1], None))
    } else if !starts_with(args[2], size_flag()) {
        Err(BorthError::BadArguments)
    } else {
        match size_value(args[2].skip(size_flag().len() as int)) {
            Some(v) => Ok((args[1], Some(v))),
            None => Err(BorthError::BadArguments),
        }
    }
}

pub open spec fn args_view(args: Seq<String>) -> Seq<Seq<char>> {
    Seq::new(args.len(), |i: int| args[i]@)
}

/// Whether `pat` occurs in `cs` at `i`.
fn occurs_at(cs: &Vec<char>, i: usize, pat: &Vec<char>) -> (r: bool)
    requires
        i <= cs.len(),
    ensures
        r == (i + pat.len() <= cs.len() && cs@.subrange(i as int, i + pat.len()) == pat@),
{
    if cs.len() - i < pat.len() {
        return false;
    }
    let mut k: usize = 0;
    while k < pat.len()
        invariant
            k <= pat.len(),
            i + pat.len() <= cs.len(),
            cs@.subrange(i as int, i + k) == pat@.take(k as int),
        decreases pat.len() - k,
    {
        if cs[i + k] != pat[k] {
            assert(cs@.subrange(i as int, i + pat.len())[k as int] != pat@[k as int]);
            return false;
        }
        assert(cs@.subrange(i as int, i + k + 1) == cs@.subrange(i as int, i + k).push(cs@[i + k]));
        assert(pat@.take(k + 1) == pat@.take(k as int).push(pat@[k as int]));
        k = k + 1;
    }
    assert(pat@.take(k as int) == pat@);
    true
}

/// Reads the command line: the path of the source and an optional
/// `--stack-size=<bytes>`.
pub fn parse_args(args: &[String]) -> (r: BorthResult<(String, Option<usize>)>)
    ensures
        match (r, parsed_args(args_view(args@))) {
            (Ok((path, size)), Ok((p, s))) => path@ == p && size == s,
            (Err(e), Err(f)) => e == f,
            _ => false,
        },
{
    let len = args.len();
    if len < 2 {
        return Err(BorthError::MissingArguments);
    }
    if len > 3 {
        return Err(BorthError::TooManyArguments);
    }
    let path = args[1].clone();
    if args.len() <= 2 {
        return Ok((path, None));
    }
    let flag = chars_of(args[2].as_str());
    let prefix = chars_of("--stack-size=");
    if !occurs_at(&flag, 0, &prefix) {
        return Err(BorthError::BadArguments);
    }
    assert(flag@.subrange(0, prefix.len() as int) == flag@.take(prefix.len() as int));
    match parse_size_from(&flag, prefix.len()) {
        Some(size) => Ok((path, Some(size))),
        None => Err(BorthError::BadArguments),
    }
}

/// The persisted form of a stack: its items in decimal, oldest first, one
/// space between two items and none after the last.
pub open spec fn stack_text(xs: Seq<BorthItem>) -> Seq<char>
    decreases xs.len(),
{
    if xs.len() == 0 {
        Seq::empty()
    } else if xs.len() == 1 {
        decimal(xs[0] as int)
    } else {
        decimal(xs[0] as int) + seq![' '] + stack_text(xs.drop_first())
    }
}

/// Number of characters before the first space of `s`.
pub open spec fn field_len(s: Seq<char>) -> nat
    decreases s.len(),
{
    if s.len() == 0 || s[0] == ' ' {
        0
    } else {
        1 + field_len(s.drop_first())
    }
}

/// The pieces of `s` between single spaces.
pub open spec fn fields(s: Seq<char>) -> Seq<Seq<char>>
    decreases s.len(),
{
    let k = field_len(s) as int;
    if k >= s.len() {
        seq![s]
    } else {
        seq![s.take(k)] + fields(s.skip(k + 1))
    }
}

/// The items that `fs` write, if each of them writes one.
pub open spec fn items_of(fs: Seq<Seq<char>>) -> Option<Seq<BorthItem>>
    decreases fs.len(),
{
    if fs.len() == 0 {
        Some(Seq::empty())
    } else {
        match (item_value(fs[0]), items_of(fs.drop_first())) {
            (Some(x), Some(rest)) => Some(seq![x] + rest),
            _ => None,
        }
    }
}

/// The stack that a persisted text describes, if it describes one.
pub open spec fn read_stack_text(s: Seq<char>) -> Option<Seq<BorthItem>> {
    if s.len() == 0 {
        Some(Seq::empty())
    } else {
        items_of(fields(s))
    }
}

proof fn lemma_field_len(s: Seq<char>, k: int)
    requires
        0 <= k <= s.len(),
        forall|j: int| 0 <= j < k ==> #[trigger] s[j] != ' ',
        k == s.len() || s[k] == ' ',
    ensures
        field_len(s) == k,
    decreases k,
{
    if k > 0 {
        let t = s.drop_first();
        assert forall|j: int| 0 <= j < k - 1 implies #[trigger] t[j] != ' ' by {
            assert(t[j] == s[j + 1]);
        }
        if k < s.len() {
            assert(t[k - 1] == s[k]);
        }
        lemma_field_len(t, k - 1);
    }
}

proof fn lemma_stack_text_push(xs: Seq<BorthItem>, x: BorthItem)
    ensures
        stack_text(xs.push(x)) == if xs.len() == 0 {
            decimal(x as int)
        } else {
            stack_text(xs) + seq![' '] + decimal(x as int)
        },
    decreases xs.len(),
{
    let d = decimal(x as int);
    if xs.len() >= 2 {
        let t = xs.drop_first();
        assert(xs.push(x).drop_first() == t.push(x));
        lemma_stack_text_push(t, x);
        assert(xs.push(x)[0] == xs[0]);
        let h = decimal(xs[0] as int) + seq![' '];
        assert(stack_text(xs.push(x)) == h + stack_text(t.push(x)));
        assert(stack_text(xs) == h + stack_text(t));
        assert(h + (stack_text(t) + seq![' '] + d) == (h + stack_text(t)) + seq![' '] + d);
    } else if xs.len() == 1 {
        assert(xs.push(x).drop_first() == seq![x]);
        assert(seq![x][0] == x);
        assert(stack_text(seq![x]) == d);
        assert(xs.push(x)[0] == xs[0]);
    } else {
        assert(xs.push(x) == seq![x]);
        assert(seq![x][0] == x);
    }
}

proof fn lemma_read_fields(xs: Seq<BorthItem>)
    requires
        xs.len() > 0,
    ensures
        items_of(fields(stack_text(xs))) == Some(xs),
    decreases xs.len(),
{
    let d = decimal(xs[0] as int);
    lemma_decimal_round_trip(xs[0]);
    if xs.len() == 1 {
        lemma_field_len(d, d.len() as int);
        assert(stack_text(xs) == d);
        assert(fields(d) == seq![d]);
        assert(seq![d][0] == d);
        assert(seq![d].drop_first() == Seq::<Seq<char>>::empty());
        assert(items_of(Seq::<Seq<char>>::empty()) == Some(Seq::<BorthItem>::empty()));
        assert(seq![xs[0]] + Seq::<BorthItem>::empty() == xs);
    } else {
        let t = stack_text(xs.drop_first());
        let s = d + seq![' '] + t;
        assert forall|j: int| 0 <= j < d.len() implies #[trigger] s[j] != ' ' by {
            assert(s[j] == d[j]);
        }
        lemma_field_len(s, d.len() as int);
        assert(s.take(d.len() as int) == d);
        assert(s.skip(d.len() as int + 1) == t);
        lemma_read_fields(xs.drop_first());
        assert(stack_text(xs) == s);
        assert(fields(s) == seq![d] + fields(t));
        assert((seq![d] + fields(t))[0] == d);
        assert((seq![d] + fields(t)).drop_first() == fields(t));
        assert(seq![xs[0]] + xs.drop_first() == xs);
    }
}

/// Writing a stack in its persisted form and reading the text back gives the
/// same items in the same order.
pub proof fn lemma_stack_text_round_trip(xs: Seq<BorthItem>)
    ensures
        read_stack_text(stack_text(xs)) == Some(xs),
{
    if xs.len() > 0 {
        lemma_read_fields(xs);
        lemma_decimal_round_trip(xs[0]);
        if xs.len() > 1 {
            assert(stack_text(xs).len() > 0);
        }
    } else {
        assert(xs == Seq::<BorthItem>::empty());
    }
}

/// The persisted form of a stack.
pub fn format_stack(items: &[BorthItem]) -> (r: String)
    ensures
        r@ == stack_text(items@),
{
    let mut r = String::new();
    let mut i: usize = 0;
    assert(items@.take(0) == Seq::<BorthItem>::empty());
    while i < items.len()
        invariant
            i <= items.len(),
            r@ == stack_text(items@.take(i as int)),
        decreases items.len() - i,
    {
        proof {
            assert(items@.take(i + 1) == items@.take(i as int).push(items@[i as int]));
            lemma_stack_text_push(items@.take(i as int), items@[i as int]);
        }
        if i > 0 {
            push_char(&mut r, ' ');
        }
        let digits = decimal_string(items[i]);
        r.append(digits.as_str());
        i = i + 1;
    }
    assert(items@.take(i as int) == items@);
    r
}

/// The stack that a persisted text describes, if it describes one.
pub fn parse_stack(text: &str) -> (r: Option<Vec<BorthItem>>)
    ensures
        match r {
            Some(v) => read_stack_text(text@) == Some(v@),
            None => read_stack_text(text@) is None,
        },
{
    let cs = chars_of(text);
    let ghost s = text@;
    let mut items: Vec<BorthItem> = Vec::new();
    if cs.len() == 0 {
        return Some(items);
    }
    let mut field = String::new();
    let mut start: usize = 0;
    let mut i: usize = 0;
    assert(s.skip(0) == s);
    while i < cs.len()
        invariant
            cs@ == s,
            s == text@,
            s.len() > 0,
            start <= i <= cs.len(),
            field@ == s.subrange(start as int, i as int),
            forall|j: int| start <= j < i ==> #[trigger] s[j] != ' ',
            items_of(fields(s)) == match items_of(fields(s.skip(start as int))) {
                Some(rest) => Some(items@ + rest),
                None => None::<Seq<BorthItem>>,
            },
        decreases cs.len() - i,
    {
        if cs[i] == ' ' {
            let ghost rest = s.skip(start as int);
            proof {
                assert forall|j: int| 0 <= j < i - start implies #[trigger] rest[j] != ' ' by {
                    assert(rest[j] == s[start + j]);
                }
                assert(rest[i - start] == ' ');
                lemma_field_len(rest, i - start);
                assert(rest.take(i - start) == field@);
                assert(rest.skip(i - start + 1) == s.skip(i + 1));
                assert(fields(rest) == seq![field@] + fields(s.skip(i + 1)));
                assert((seq![field@] + fields(s.skip(i + 1)))[0] == field@);
                assert((seq![field@] + fields(s.skip(i + 1))).drop_first() == fields(s.skip(i + 1)));
            }
            match parse_item(field.as_str()) {
                Some(x) => {
                    let ghost before = items@;
                    items.push(x);
                    proof {
                        if let Some(r) = items_of(fields(s.skip(i + 1))) {
                            assert(before + (seq![x] + r) == items@ + r);
                        }
                    }
                },
                None => {
                    assert(items_of(fields(rest)) is None);
                    assert(read_stack_text(s) == items_of(fields(s)));
                    return None;
                },
            }
            field = String::new();
            start = i + 1;
        } else {
            push_char(&mut field, cs[i]);
        }
        i = i + 1;
    }
    let ghost rest = s.skip(start as int);
    proof {
        assert forall|j: int| 0 <= j < rest.len() implies #[trigger] rest[j] != ' ' by {
            assert(rest[j] == s[start + j]);
        }
        lemma_field_len(rest, rest.len() as int);
        assert(rest == field@);
        assert(fields(rest) == seq![field@]);
        assert(seq![field@][0] == field@);
        assert(seq![field@].drop_first() == Seq::<Seq<char>>::empty());
        assert(items_of(Seq::<Seq<char>>::empty()) == Some(Seq::<BorthItem>::empty()));
    }
    match parse_item(field.as_str()) {
        Some(x) => {
            let ghost before = items@;
            items.push(x);
            assert(before + (seq![x] + Seq::<BorthItem>::empty()) == items@);
            Some(items)
        },
        None => None,
    }
}

/// Where the source is and how large the stack is.
pub struct BorthRunner {
    code_path: String,
    stack_size: usize,
}

impl BorthRunner {
    /// Reads the command line; the stack size defaults to 128000 bytes.
    pub fn from_args(args: &[String]) -> (r: BorthResult<Self>)
        ensures
            match (r, parsed_args(args_view(args@))) {
                (Ok(runner), Ok((p, s))) => runner.code_path()@ == p && runner.stack_size() == match s {
                    Some(v) => v,
                    None => DEFAULT_STACK_SIZE,
                },
                (Err(e), Err(f)) => e == f,
                _ => false,
            },
    {
        let (code_path, stack_size) = parse_args(args)?;
        let stack_size = match stack_size {
            Some(v) => v,
            None => DEFAULT_STACK_SIZE,
        };
        Ok(Self { code_path, stack_size })
    }

    pub closed spec fn code_path(&self) -> String {
        self.code_path
    }

    pub closed spec fn stack_size(&self) -> usize {
        self.stack_size
    }

    /// The path of the source file.
    pub fn path(&self) -> (r: &str)
        ensures
            r@ == self.code_path()@,
    {
        self.code_path.as_str()
    }

    /// The stack size in bytes.
    pub fn size(&self) -> (r: usize)
        ensures
            r == self.stack_size(),
    {
        self.stack_size
    }
}

} // verus!
