//! Reading path text back into commands.
//!
//! Reading goes in two steps. The text is first cut into tokens: a number
//! is a minus sign, a digit or a point followed by a run of digits and
//! points (so a minus sign always starts a new number); a numeric token that
//! does not read as a number is dropped, and one too large for `Num` is
//! saturated, so that every command keeps its own operands; every other
//! character is a symbol
//! token of its own. The tokens are then read as commands: a command letter
//! takes exactly its number of operands, skipping any symbols between them;
//! other symbols and stray numbers are skipped. A command whose operands run
//! out at the end of the text is dropped.
use vstd::prelude::*;
use crate::num::{Num, is_digit, num_text, parse_num, parse_chars, lemma_num_text_round_trip};
use crate::shapes::path::{
    PathCommand,
    letter,
    operands,
    flag_num,
    operands_text,
    commands_text,
};
use crate::text::chars_of;

verus! {

/// A piece of path text: a single character other than a number, by its
/// code point, or a number.
#[derive(Clone, Copy, Debug, PartialEq, Eq, Structural)]
pub enum Token {
    Sym(u32),
    Number(Num),
}

/// `a` followed by the elements of `s`.
pub open spec fn prepend<A>(a: A, s: Seq<A>) -> Seq<A> {
    seq![a] + s
}

/// A character that continues a number.
pub open spec fn is_run(c: char) -> bool {
    is_digit(c) || c == '.'
}

/// A character that starts a number.
pub open spec fn starts_number(c: char) -> bool {
    is_run(c) || c == '-'
}

/// How many characters at the start of `t` continue a number.
pub open spec fn run_len(t: Seq<char>) -> nat
    decreases t.len(),
{
    if t.len() > 0 && is_run(t[0]) {
        1 + run_len(t.drop_first())
    } else {
        0
    }
}

pub proof fn lemma_run_len_bound(t: Seq<char>)
    ensures
        run_len(t) <= t.len(),
    decreases t.len(),
{
    if t.len() > 0 && is_run(t[0]) {
        lemma_run_len_bound(t.drop_first());
    }
}

/// The tokens of a text.
pub open spec fn lex(s: Seq<char>) -> Seq<Token>
    decreases s.len(),
    via lex_decreases
{
    if s.len() == 0 {
        seq![]
    } else if starts_number(s[0]) {
        let n = 1 + run_len(s.drop_first());
        let rest = lex(s.subrange(n as int, s.len() as int));
        match parse_num(s.subrange(0, n as int)) {
            Some(v) => prepend(Token::Number(v), rest),
            None => rest,
        }
    } else {
        prepend(Token::Sym(s[0] as u32), lex(s.drop_first()))
    }
}

#[via_fn]
proof fn lex_decreases(s: Seq<char>) {
    if s.len() > 0 {
        lemma_run_len_bound(s.drop_first());
    }
}

/// The number of operands that the command letter with code point `code`
/// takes, if it is one.
pub open spec fn arity(code: u32) -> Option<nat> {
    if code == 'M' as u32 || code == 'm' as u32 || code == 'L' as u32 || code == 'l' as u32
        || code == 'T' as u32 || code == 't' as u32 {
        Some(2)
    } else if code == 'H' as u32 || code == 'h' as u32 || code == 'V' as u32 || code == 'v' as u32 {
        Some(1)
    } else if code == 'C' as u32 || code == 'c' as u32 {
        Some(6)
    } else if code == 'S' as u32 || code == 's' as u32 || code == 'Q' as u32 || code == 'q' as u32 {
        Some(4)
    } else if code == 'A' as u32 || code == 'a' as u32 {
        Some(7)
    } else if code == 'Z' as u32 || code == 'z' as u32 {
        Some(0)
    } else {
        None
    }
}

/// The command that the letter with code point `code` names with operands
/// `ns` (`t` gives the absolute smooth quadratic curve; a non-zero flag
/// operand is set).
pub open spec fn build(code: u32, ns: Seq<Num>) -> PathCommand {
    if code == 'M' as u32 {
        PathCommand::MoveTo(ns[0], ns[1])
    } else if code == 'm' as u32 {
        PathCommand::MoveBy(ns[0], ns[1])
    } else if code == 'L' as u32 {
        PathCommand::LineTo(ns[0], ns[1])
    } else if code == 'l' as u32 {
        PathCommand::LineBy(ns[0], ns[1])
    } else if code == 'H' as u32 {
        PathCommand::HorizontalTo(ns[0])
    } else if code == 'h' as u32 {
        PathCommand::HorizontalBy(ns[0])
    } else if code == 'V' as u32 {
        PathCommand::VerticalTo(ns[0])
    } else if code == 'v' as u32 {
        PathCommand::VerticalBy(ns[0])
    } else if code == 'C' as u32 {
        PathCommand::CurveTo(ns[0], ns[1], ns[2], ns[3], ns[4], ns[5])
    } else if code == 'c' as u32 {
        PathCommand::CurveBy(ns[0], ns[1], ns[2], ns[3], ns[4], ns[5])
    } else if code == 'S' as u32 {
        PathCommand::SmoothCurveTo(ns[0], ns[1], ns[2], ns[3])
    } else if code == 's' as u32 {
        PathCommand::SmoothCurveBy(ns[0], ns[1], ns[2], ns[3])
    } else if code == 'Q' as u32 {
        PathCommand::QuadraticBezierCurveTo(ns[0], ns[1], ns[2], ns[3])
    } else if code == 'q' as u32 {
        PathCommand::QuadraticBezierCurveBy(ns[0], ns[1], ns[2], ns[3])
    } else if code == 'T' as u32 || code == 't' as u32 {
        PathCommand::SmoothQuadraticBezierCurveTo(ns[0], ns[1])
    } else if code == 'A' as u32 {
        PathCommand::EllipticalArcTo(
            ns[0],
            ns[1],
            ns[2],
            ns[3].micros != 0,
            ns[4].micros != 0,
            ns[5],
            ns[6],
        )
    } else if code == 'a' as u32 {
        PathCommand::EllipticalArcBy(
            ns[0],
            ns[1],
            ns[2],
            ns[3].micros != 0,
            ns[4].micros != 0,
            ns[5],
            ns[6],
        )
    } else {
        PathCommand::Close
    }
}

/// The first `k` numbers of `ts`, skipping symbols, and how many tokens
/// they span; `None` when fewer than `k` numbers are left.
pub open spec fn take_numbers(ts: Seq<Token>, k: nat) -> Option<(Seq<Num>, nat)>
    decreases ts.len(),
{
    if k == 0 {
        Some((seq![], 0))
    } else if ts.len() == 0 {
        None
    } else {
        match ts[0] {
            Token::Number(n) => match take_numbers(ts.drop_first(), (k - 1) as nat) {
                Some((ns, used)) => Some((prepend(n, ns), used + 1)),
                None => None,
            },
            Token::Sym(_) => match take_numbers(ts.drop_first(), k) {
                Some((ns, used)) => Some((ns, used + 1)),
                None => None,
            },
        }
    }
}

pub proof fn lemma_take_numbers_bound(ts: Seq<Token>, k: nat)
    ensures
        match take_numbers(ts, k) {
            Some((ns, used)) => used <= ts.len() && ns.len() == k,
            None => true,
        },
    decreases ts.len(),
{
    if k > 0 && ts.len() > 0 {
        match ts[0] {
            Token::Number(_) => lemma_take_numbers_bound(ts.drop_first(), (k - 1) as nat),
            Token::Sym(_) => lemma_take_numbers_bound(ts.drop_first(), k),
        }
    }
}

/// The commands that a token sequence reads as.
pub open spec fn parse_tokens(ts: Seq<Token>) -> Seq<PathCommand>
    decreases ts.len(),
    via parse_tokens_decreases
{
    if ts.len() == 0 {
        seq![]
    } else {
        match ts[0] {
            Token::Sym(l) => {
                if arity(l) is Some {
                    match take_numbers(ts.drop_first(), arity(l)->0) {
                        Some((ns, used)) => prepend(
                            build(l, ns),
                            parse_tokens(ts.subrange(1 + used as int, ts.len() as int)),
                        ),
                        None => seq![],
                    }
                } else {
                    parse_tokens(ts.drop_first())
                }
            },
            Token::Number(_) => parse_tokens(ts.drop_first()),
        }
    }
}

#[via_fn]
proof fn parse_tokens_decreases(ts: Seq<Token>) {
    if ts.len() > 0 {
        if let Token::Sym(l) = ts[0] {
            if arity(l) is Some {
                lemma_take_numbers_bound(ts.drop_first(), arity(l)->0);
            }
        }
    }
}

/// The commands that a path text reads as.
pub open spec fn parse_path(s: Seq<char>) -> Seq<PathCommand> {
    parse_tokens(lex(s))
}

fn is_run_char(c: char) -> (r: bool)
    ensures
        r == is_run(c),
{
    ('0' <= c && c <= '9') || c == '.'
}

/// Cuts a text into tokens.
pub fn tokenize(cs: &Vec<char>) -> (toks: Vec<Token>)
    ensures
        toks@ == lex(cs@),
{
    let n = cs.len();
    let mut toks: Vec<Token> = Vec::new();
    let mut i: usize = 0;
    assert(cs@.subrange(0, n as int) =~= cs@);
    while i < n
        invariant
            n == cs@.len(),
            i <= n,
            toks@ + lex(cs@.subrange(i as int, n as int)) == lex(cs@),
        decreases n - i,
    {
        let ghost s = cs@.subrange(i as int, n as int);
        let ghost before = toks@;
        let c = cs[i];
        assert(s.len() > 0 && s[0] == c);
        if is_run_char(c) || c == '-' {
            let mut j: usize = i + 1;
            assert(s.drop_first() =~= cs@.subrange(i + 1, n as int));
            while j < n && is_run_char(cs[j])
                invariant
                    i < j <= n,
                    n == cs@.len(),
                    run_len(cs@.subrange(i + 1, n as int)) == (j - i - 1) + run_len(
                        cs@.subrange(j as int, n as int),
                    ),
                decreases n - j,
            {
                assert(cs@.subrange(j as int, n as int).drop_first() =~= cs@.subrange(
                    j + 1,
                    n as int,
                ));
                j = j + 1;
            }
            assert(run_len(cs@.subrange(j as int, n as int)) == 0);
            assert(s.subrange(0, (j - i) as int) =~= cs@.subrange(i as int, j as int));
            assert(s.subrange((j - i) as int, s.len() as int) =~= cs@.subrange(j as int, n as int));
            let ghost head: Seq<Token> = match parse_num(cs@.subrange(i as int, j as int)) {
                Some(v) => seq![Token::Number(v)],
                None => seq![],
            };
            assert(lex(s) =~= head + lex(cs@.subrange(j as int, n as int)));
            match parse_chars(cs, i, j) {
                Some(v) => {
                    toks.push(Token::Number(v));
                },
                None => {},
            }
            assert(toks@ =~= before + head);
            assert(toks@ + lex(cs@.subrange(j as int, n as int)) =~= before + lex(s));
            i = j;
        } else {
            toks.push(Token::Sym(c as u32));
            assert(s.drop_first() =~= cs@.subrange(i + 1, n as int));
            i = i + 1;
        }
        assert(toks@ + lex(cs@.subrange(i as int, n as int)) =~= lex(cs@));
    }
    toks
}


fn arity_of(code: u32) -> (r: Option<usize>)
    ensures
        r is Some <==> arity(code) is Some,
        r is Some ==> r->0 as nat == arity(code)->0,
{
    if code == 'M' as u32 || code == 'm' as u32 || code == 'L' as u32 || code == 'l' as u32
        || code == 'T' as u32 || code == 't' as u32 {
        Some(2)
    } else if code == 'H' as u32 || code == 'h' as u32 || code == 'V' as u32 || code == 'v' as u32 {
        Some(1)
    } else if code == 'C' as u32 || code == 'c' as u32 {
        Some(6)
    } else if code == 'S' as u32 || code == 's' as u32 || code == 'Q' as u32 || code == 'q' as u32 {
        Some(4)
    } else if code == 'A' as u32 || code == 'a' as u32 {
        Some(7)
    } else if code == 'Z' as u32 || code == 'z' as u32 {
        Some(0)
    } else {
        None
    }
}

fn build_command(code: u32, ns: &Vec<Num>) -> (r: PathCommand)
    requires
        arity(code) is Some,
        ns@.len() == arity(code)->0,
    ensures
        r == build(code, ns@),
{
    if code == 'M' as u32 {
        PathCommand::MoveTo(ns[0], ns[1])
    } else if code == 'm' as u32 {
        PathCommand::MoveBy(ns[0], ns[1])
    } else if code == 'L' as u32 {
        PathCommand::LineTo(ns[0], ns[1])
    } else if code == 'l' as u32 {
        PathCommand::LineBy(ns[0], ns[1])
    } else if code == 'H' as u32 {
        PathCommand::HorizontalTo(ns[0])
    } else if code == 'h' as u32 {
        PathCommand::HorizontalBy(ns[0])
    } else if code == 'V' as u32 {
        PathCommand::VerticalTo(ns[0])
    } else if code == 'v' as u32 {
        PathCommand::VerticalBy(ns[0])
    } else if code == 'C' as u32 {
        PathCommand::CurveTo(ns[0], ns[1], ns[2], ns[3], ns[4], ns[5])
    } else if code == 'c' as u32 {
        PathCommand::CurveBy(ns[0], ns[1], ns[2], ns[3], ns[4], ns[5])
    } else if code == 'S' as u32 {
        PathCommand::SmoothCurveTo(ns[0], ns[1], ns[2], ns[3])
    } else if code == 's' as u32 {
        PathCommand::SmoothCurveBy(ns[0], ns[1], ns[2], ns[3])
    } else if code == 'Q' as u32 {
        PathCommand::QuadraticBezierCurveTo(ns[0], ns[1], ns[2], ns[3])
    } else if code == 'q' as u32 {
        PathCommand::QuadraticBezierCurveBy(ns[0], ns[1], ns[2], ns[3])
    } else if code == 'T' as u32 || code == 't' as u32 {
        PathCommand::SmoothQuadraticBezierCurveTo(ns[0], ns[1])
    } else if code == 'A' as u32 {
        PathCommand::EllipticalArcTo(
            ns[0],
            ns[1],
            ns[2],
            ns[3].micros != 0,
            ns[4].micros != 0,
            ns[5],
            ns[6],
        )
    } else if code == 'a' as u32 {
        PathCommand::EllipticalArcBy(
            ns[0],
            ns[1],
            ns[2],
            ns[3].micros != 0,
            ns[4].micros != 0,
            ns[5],
            ns[6],
        )
    } else {
        PathCommand::Close
    }
}

/// `taken` followed by what a later `take_numbers` found, `skipped` more
/// tokens in.
pub open spec fn after_taken(
    taken: Seq<Num>,
    skipped: nat,
    later: Option<(Seq<Num>, nat)>,
) -> Option<(Seq<Num>, nat)> {
    match later {
        Some((ns, used)) => Some((taken + ns, used + skipped)),
        None => None,
    }
}

/// Collects `k` numbers from `toks[start..]`, skipping symbols; gives them
/// with the index just past the last one.
fn take_numbers_from(toks: &Vec<Token>, start: usize, k: usize) -> (r: Option<(Vec<Num>, usize)>)
    requires
        start <= toks@.len(),
    ensures
        match take_numbers(toks@.subrange(start as int, toks@.len() as int), k as nat) {
            Some((ns, used)) => match r {
                Some((got, end)) => got@ == ns && end == start + used,
                None => false,
            },
            None => r is None,
        },
{
    let n = toks.len();
    let mut got: Vec<Num> = Vec::new();
    let mut j = start;
    while got.len() < k && j < n
        invariant
            n == toks@.len(),
            start <= j <= n,
            got@.len() <= k,
            take_numbers(toks@.subrange(start as int, n as int), k as nat) == after_taken(
                got@,
                (j - start) as nat,
                take_numbers(toks@.subrange(j as int, n as int), (k - got@.len()) as nat),
            ),
        decreases n - j,
    {
        let ghost rest = toks@.subrange(j as int, n as int);
        let ghost k1 = (k - got@.len()) as nat;
        assert(rest.drop_first() =~= toks@.subrange(j + 1, n as int));
        assert(rest[0] == toks@[j as int]);
        match toks[j] {
            Token::Number(v) => {
                let ghost before = got@;
                got.push(v);
                proof {
                    let later = take_numbers(toks@.subrange(j + 1, n as int), (k1 - 1) as nat);
                    match later {
                        Some((ns, used)) => {
                            assert(got@ + ns =~= before + prepend(v, ns));
                        },
                        None => {},
                    }
                }
            },
            Token::Sym(_) => {},
        }
        j = j + 1;
    }
    if got.len() == k {
        assert(take_numbers(toks@.subrange(j as int, n as int), 0) == Some((Seq::<Num>::empty(), 0nat)));
        assert(got@ + Seq::<Num>::empty() =~= got@);
        Some((got, j))
    } else {
        assert(toks@.subrange(j as int, n as int).len() == 0);
        None
    }
}

/// Reads a token sequence as commands.
pub fn parse_token_list(toks: &Vec<Token>) -> (r: Vec<PathCommand>)
    ensures
        r@ == parse_tokens(toks@),
{
    let n = toks.len();
    let mut out: Vec<PathCommand> = Vec::new();
    let mut i: usize = 0;
    assert(toks@.subrange(0, n as int) =~= toks@);
    while i < n
        invariant
            n == toks@.len(),
            i <= n,
            out@ + parse_tokens(toks@.subrange(i as int, n as int)) == parse_tokens(toks@),
        decreases n - i,
    {
        let ghost rest = toks@.subrange(i as int, n as int);
        let ghost before = out@;
        assert(rest.drop_first() =~= toks@.subrange(i + 1, n as int));
        assert(rest[0] == toks@[i as int]);
        match toks[i] {
            Token::Sym(code) => {
                match arity_of(code) {
                    Some(k) => {
                        match take_numbers_from(toks, i + 1, k) {
                            Some((ns, j)) => {
                                proof {
                                    lemma_take_numbers_bound(rest.drop_first(), k as nat);
                                }
                                let c = build_command(code, &ns);
                                out.push(c);
                                proof {
                                    lemma_take_numbers_bound(rest.drop_first(), k as nat);
                                    assert(rest.subrange(1 + (j - i - 1), rest.len() as int)
                                        =~= toks@.subrange(j as int, n as int));
                                    assert(out@ + parse_tokens(toks@.subrange(j as int, n as int))
                                        =~= before + parse_tokens(rest));
                                }
                                i = j;
                            },
                            None => {
                                assert(parse_tokens(rest) == Seq::<PathCommand>::empty());
                                assert(out@ =~= parse_tokens(toks@));
                                assert(toks@.subrange(n as int, n as int) =~= Seq::<Token>::empty());
                                i = n;
                            },
                        }
                    },
                    None => {
                        i = i + 1;
                    },
                }
            },
            Token::Number(_) => {
                i = i + 1;
            },
        }
    }
    assert(toks@.subrange(n as int, n as int) =~= Seq::<Token>::empty());
    assert(out@ + Seq::<PathCommand>::empty() =~= out@);
    out
}

/// Reads path text as commands (see the module documentation).
pub fn parse_path_commands(path_data: &str) -> (r: Vec<PathCommand>)
    ensures
        r@ == parse_path(path_data@),
{
    let cs = chars_of(path_data);
    let toks = tokenize(&cs);
    parse_token_list(&toks)
}


proof fn lemma_run_len_concat(x: Seq<char>, b: Seq<char>)
    requires
        b.len() == 0 || !is_run(b[0]),
    ensures
        run_len(x + b) == run_len(x),
    decreases x.len(),
{
    if x.len() == 0 {
        assert(x + b =~= b);
    } else {
        assert((x + b)[0] == x[0]);
        assert((x + b).drop_first() =~= x.drop_first() + b);
        lemma_run_len_concat(x.drop_first(), b);
    }
}

proof fn lemma_run_len_all(x: Seq<char>)
    requires
        forall|i: int| 0 <= i < x.len() ==> #[trigger] is_run(x[i]),
    ensures
        run_len(x) == x.len(),
    decreases x.len(),
{
    if x.len() > 0 {
        assert forall|i: int| 0 <= i < x.drop_first().len() implies #[trigger] is_run(
            x.drop_first()[i],
        ) by {
            assert(x.drop_first()[i] == x[i + 1]);
        }
        lemma_run_len_all(x.drop_first());
    }
}

/// Tokens do not reach across a boundary that is followed by a character
/// that cannot continue a number.
pub proof fn lemma_lex_concat(a: Seq<char>, b: Seq<char>)
    requires
        b.len() == 0 || !is_run(b[0]),
    ensures
        lex(a + b) == lex(a) + lex(b),
    decreases a.len(),
{
    if a.len() == 0 {
        assert(a + b =~= b);
        assert(lex(a) + lex(b) =~= lex(b));
    } else {
        let ab = a + b;
        assert(ab[0] == a[0]);
        assert(ab.drop_first() =~= a.drop_first() + b);
        if starts_number(a[0]) {
            lemma_run_len_concat(a.drop_first(), b);
            lemma_run_len_bound(a.drop_first());
            let n = 1 + run_len(a.drop_first());
            assert(ab.subrange(0, n as int) =~= a.subrange(0, n as int));
            let a2 = a.subrange(n as int, a.len() as int);
            assert(ab.subrange(n as int, ab.len() as int) =~= a2 + b);
            lemma_lex_concat(a2, b);
            match parse_num(a.subrange(0, n as int)) {
                Some(v) => {
                    assert(prepend(Token::Number(v), lex(a2) + lex(b)) =~= prepend(
                        Token::Number(v),
                        lex(a2),
                    ) + lex(b));
                },
                None => {},
            }
        } else {
            lemma_lex_concat(a.drop_first(), b);
            assert(prepend(Token::Sym(a[0] as u32), lex(a.drop_first()) + lex(b)) =~= prepend(
                Token::Sym(a[0] as u32),
                lex(a.drop_first()),
            ) + lex(b));
        }
    }
}

/// The canonical text of a number is one number token.
proof fn lemma_lex_number(n: Num)
    ensures
        lex(num_text(n.micros as int)) == seq![Token::Number(n)],
{
    let t = num_text(n.micros as int);
    lemma_num_text_round_trip(n);
    assert forall|i: int| 0 <= i < t.drop_first().len() implies #[trigger] is_run(
        t.drop_first()[i],
    ) by {
        assert(t.drop_first()[i] == t[i + 1]);
    }
    lemma_run_len_all(t.drop_first());
    assert(t.subrange(0, t.len() as int) =~= t);
    assert(t.subrange(t.len() as int, t.len() as int) =~= Seq::<char>::empty());
    assert(lex(Seq::<char>::empty()) == Seq::<Token>::empty());
    assert(prepend(Token::Number(n), Seq::<Token>::empty()) =~= seq![Token::Number(n)]);
}

/// The tokens of the operand text `ns`.
pub open spec fn operand_tokens(ns: Seq<Num>) -> Seq<Token>
    decreases ns.len(),
{
    if ns.len() == 0 {
        seq![]
    } else {
        prepend(
            Token::Sym(' ' as u32),
            prepend(Token::Number(ns[0]), operand_tokens(ns.drop_first())),
        )
    }
}

/// The tokens of the text of a command sequence.
pub open spec fn commands_tokens(cmds: Seq<PathCommand>) -> Seq<Token>
    decreases cmds.len(),
{
    if cmds.len() == 0 {
        seq![]
    } else {
        prepend(
            Token::Sym(letter(cmds[0]) as u32),
            operand_tokens(operands(cmds[0])) + prepend(
                Token::Sym(' ' as u32),
                commands_tokens(cmds.drop_first()),
            ),
        )
    }
}

proof fn lemma_lex_operands(ns: Seq<Num>)
    ensures
        lex(operands_text(ns)) == operand_tokens(ns),
    decreases ns.len(),
{
    if ns.len() > 0 {
        let t = operands_text(ns);
        let nt = num_text(ns[0].micros as int);
        let rt = operands_text(ns.drop_first());
        assert(t =~= seq![' '] + (nt + rt));
        assert(t[0] == ' ');
        assert(t.drop_first() =~= nt + rt);
        lemma_lex_operands(ns.drop_first());
        if rt.len() > 0 {
            assert(rt[0] == ' ');
        }
        lemma_lex_concat(nt, rt);
        lemma_lex_number(ns[0]);
        assert(seq![Token::Number(ns[0])] + operand_tokens(ns.drop_first()) =~= prepend(
            Token::Number(ns[0]),
            operand_tokens(ns.drop_first()),
        ));
    } else {
        assert(operands_text(ns) == Seq::<char>::empty());
    }
}

proof fn lemma_letter_not_number(c: PathCommand)
    ensures
        !starts_number(letter(c)),
        arity(letter(c) as u32) == Some(operands(c).len()),
        build(letter(c) as u32, operands(c)) == c,
{
    match c {
        PathCommand::EllipticalArcTo(rx, ry, rot, large, sweep, x, y) => {
            assert(operands(c)[3] == flag_num(large));
            assert(operands(c)[4] == flag_num(sweep));
        },
        PathCommand::EllipticalArcBy(rx, ry, rot, large, sweep, x, y) => {
            assert(operands(c)[3] == flag_num(large));
            assert(operands(c)[4] == flag_num(sweep));
        },
        _ => {},
    }
}

proof fn lemma_lex_commands(cmds: Seq<PathCommand>)
    ensures
        lex(commands_text(cmds)) == commands_tokens(cmds),
    decreases cmds.len(),
{
    if cmds.len() == 0 {
        assert(commands_text(cmds) == Seq::<char>::empty());
    } else {
        let c = cmds[0];
        let ot = operands_text(operands(c));
        let rest_text = commands_text(cmds.drop_first());
        let tail = seq![' '] + rest_text;
        let t = commands_text(cmds);
        assert(t =~= seq![letter(c)] + (ot + tail));
        lemma_letter_not_number(c);
        assert(t[0] == letter(c));
        assert(t.drop_first() =~= ot + tail);
        lemma_lex_concat(ot, tail);
        lemma_lex_operands(operands(c));
        assert(tail[0] == ' ');
        assert(tail.drop_first() =~= rest_text);
        lemma_lex_commands(cmds.drop_first());
    }
}

proof fn lemma_take_operands(ns: Seq<Num>, rest: Seq<Token>)
    ensures
        take_numbers(operand_tokens(ns) + rest, ns.len()) == Some((ns, 2 * ns.len())),
    decreases ns.len(),
{
    if ns.len() == 0 {
        assert(take_numbers(operand_tokens(ns) + rest, 0) == Some((Seq::<Num>::empty(), 0nat)));
        assert(ns =~= Seq::<Num>::empty());
    } else {
        let k = ns.len();
        let ts = operand_tokens(ns) + rest;
        let inner = operand_tokens(ns.drop_first()) + rest;
        lemma_take_operands(ns.drop_first(), rest);
        assert(ts[0] == Token::Sym(' ' as u32));
        assert(ts.drop_first()[0] == Token::Number(ns[0]));
        assert(ts.drop_first().drop_first() =~= inner);
        assert(take_numbers(inner, (k - 1) as nat) == Some((ns.drop_first(), (2 * (k - 1)) as nat)));
        assert(take_numbers(ts.drop_first(), k) == Some(
            (prepend(ns[0], ns.drop_first()), (2 * (k - 1) + 1) as nat),
        ));
        assert(prepend(ns[0], ns.drop_first()) =~= ns);
    }
}

proof fn lemma_parse_head(c: PathCommand, tail: Seq<Token>)
    requires
        tail.len() > 0,
        tail[0] == Token::Sym(' ' as u32),
    ensures
        parse_tokens(prepend(Token::Sym(letter(c) as u32), operand_tokens(operands(c)) + tail))
            == prepend(c, parse_tokens(tail.drop_first())),
{
    let ops = operands(c);
    let x = operand_tokens(ops) + tail;
    let ts = prepend(Token::Sym(letter(c) as u32), x);
    lemma_letter_not_number(c);
    assert(ts[0] == Token::Sym(letter(c) as u32));
    assert(ts.drop_first() =~= x);
    lemma_take_operands(ops, tail);
    lemma_operand_tokens_len(ops);
    let rest = ts.subrange(1 + 2 * ops.len() as int, ts.len() as int);
    assert(rest =~= tail);
    assert(parse_tokens(ts) == prepend(build(letter(c) as u32, ops), parse_tokens(rest)));
    assert(parse_tokens(tail) == parse_tokens(tail.drop_first()));
}

proof fn lemma_parse_commands_tokens(cmds: Seq<PathCommand>)
    ensures
        parse_tokens(commands_tokens(cmds)) == cmds,
    decreases cmds.len(),
{
    if cmds.len() == 0 {
        assert(cmds =~= Seq::<PathCommand>::empty());
    } else {
        let c = cmds[0];
        let tail = prepend(Token::Sym(' ' as u32), commands_tokens(cmds.drop_first()));
        assert(tail.drop_first() =~= commands_tokens(cmds.drop_first()));
        lemma_parse_head(c, tail);
        lemma_parse_commands_tokens(cmds.drop_first());
        assert(prepend(c, cmds.drop_first()) =~= cmds);
    }
}

proof fn lemma_operand_tokens_len(ns: Seq<Num>)
    ensures
        operand_tokens(ns).len() == 2 * ns.len(),
    decreases ns.len(),
{
    if ns.len() > 0 {
        lemma_operand_tokens_len(ns.drop_first());
    }
}

/// Reading the text of any command sequence gives the sequence back, so
/// writing, reading and writing again gives the first text.
pub proof fn lemma_path_round_trip(cmds: Seq<PathCommand>)
    ensures
        parse_path(commands_text(cmds)) == cmds,
        commands_text(parse_path(commands_text(cmds))) == commands_text(cmds),
{
    lemma_lex_commands(cmds);
    lemma_parse_commands_tokens(cmds);
}

} // verus!
