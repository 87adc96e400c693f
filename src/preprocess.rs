use vstd::prelude::*;
use crate::error::ErrorKind;
use crate::keywords::str_eq;
use crate::machine::{trunc, wrap_signed};
use crate::scanner::{Lexeme, Scanner, lex_at, skip_trivia, token_is};
use crate::token::{Token, TokenType, TokenValue};

verus! {

/// Every token of `src` from `p` on, each with the position where it starts,
/// up to the end of the file; or the first lexical error and its position.
pub open spec fn scan_all(src: Seq<char>, p: int) -> Result<Seq<(Lexeme, int)>, (ErrorKind, int)>
    decreases src.len() - p,
{
    let q = skip_trivia(src, p);
    match lex_at(src, q) {
        Err(e) => Err((e, q)),
        Ok(l) => if l.kind == TokenType::END_OF_FILE || l.end <= p || l.end > src.len() {
            Ok(seq![])
        } else {
            match scan_all(src, l.end) {
                Ok(rest) => Ok(seq![(l, q)] + rest),
                Err(e) => Err(e),
            }
        },
    }
}

/// `t` holds the tokens of the lexemes, located in `file`.
pub open spec fn lexed(t: Seq<Token>, ls: Seq<(Lexeme, int)>, file: Seq<char>, src: Seq<char>) -> bool {
    &&& t.len() == ls.len()
    &&& forall|i: int| 0 <= i < t.len() ==> token_is(#[trigger] t[i], ls[i].0, file, src, ls[i].1)
}

/// The source lexes into `t`, whose colons all follow labels, whose branch
/// operands all resolve into `text`, and whose entry label stands at `entry`.
#[verifier::opaque]
pub open spec fn loaded(src: Seq<char>, file: Seq<char>, text: Seq<Token>, entry: int) -> bool {
    &&& scan_all(src, 0) is Ok
    &&& exists|t: Seq<Token>|
        {
            &&& #[trigger] lexed(t, scan_all(src, 0)->Ok_0, file, src)
            &&& bad_colon_from(t, 0) is None
            &&& resolve_from(t, 0) == Ok::<Seq<Token>, (ErrorKind, int)>(text)
            &&& entry == entry_before(t, t.len() as int)
        }
}

/// Loading the source fails with `kind`: a lexical error, or in the tokens a
/// misplaced colon or a bad branch operand at `pos`.
#[verifier::opaque]
pub open spec fn load_error(src: Seq<char>, file: Seq<char>, kind: ErrorKind, pos: int) -> bool {
    ||| (scan_all(src, 0) is Err && kind == scan_all(src, 0)->Err_0.0)
    ||| (scan_all(src, 0) is Ok && exists|t: Seq<Token>|
        {
            &&& #[trigger] lexed(t, scan_all(src, 0)->Ok_0, file, src)
            &&& ((bad_colon_from(t, 0) == Some(pos) && kind == ErrorKind::MisplacedColon) || (bad_colon_from(t, 0) is None
                && resolve_from(t, 0) == Err::<Seq<Token>, (ErrorKind, int)>((kind, pos))))
        })
}

/// First colon that does not follow a label, from `i` on.
pub open spec fn bad_colon_from(t: Seq<Token>, i: int) -> Option<int>
    decreases t.len() - i,
{
    if i < 0 || i >= t.len() {
        None
    } else if t[i].value == TokenValue::COLON && !(i >= 1 && t[i - 1].token_type == TokenType::LABEL) {
        Some(i)
    } else {
        bad_colon_from(t, i + 1)
    }
}

/// A label definition: a label token followed by a colon.
pub open spec fn is_def(t: Seq<Token>, j: int) -> bool {
    0 <= j && j + 1 < t.len() && t[j].token_type == TokenType::LABEL && t[j + 1].value == TokenValue::COLON
}

/// The last definition of `name` before `k`.
pub open spec fn find_label_before(t: Seq<Token>, name: Seq<char>, k: int) -> Option<int>
    decreases k,
{
    if k <= 0 {
        None
    } else if is_def(t, k - 1) && t[k - 1].name@ == name {
        Some(k - 1)
    } else {
        find_label_before(t, name, k - 1)
    }
}

pub open spec fn is_entry_name(n: Seq<char>) -> bool {
    n == "main"@ || n == "start"@ || n == "_main"@ || n == "_start"@
}

/// The last definition of an entry label (`main`, `start`, `_main`, `_start`)
/// before `k`; 0 when there is none.
pub open spec fn entry_before(t: Seq<Token>, k: int) -> int
    decreases k,
{
    if k <= 0 {
        0
    } else if is_def(t, k - 1) && is_entry_name(t[k - 1].name@) {
        k - 1
    } else {
        entry_before(t, k - 1)
    }
}

pub open spec fn is_branch(v: TokenValue) -> bool {
    match v {
        TokenValue::CALL | TokenValue::JMP | TokenValue::JE | TokenValue::JNE | TokenValue::JG | TokenValue::JGE
        | TokenValue::JL | TokenValue::JLE | TokenValue::JA | TokenValue::JAE | TokenValue::JB | TokenValue::JBE => true,
        _ => false,
    }
}

/// Whether the token at `i` is the operand of a branch or call.
pub open spec fn is_operand(t: Seq<Token>, i: int) -> bool
    decreases i,
{
    if i <= 0 {
        false
    } else {
        is_branch(t[i - 1].value) && !is_operand(t, i - 1)
    }
}

/// Displacement that takes the position after the operand at `i` to `target`.
pub open spec fn displacement(target: int, i: int) -> int {
    target - i - 1
}

/// The token at `i` after its label operand, if it is one, became a displacement.
pub open spec fn rewrite_at(t: Seq<Token>, i: int) -> Result<Token, ErrorKind> {
    if !is_operand(t, i) {
        Ok(t[i])
    } else if t[i].token_type != TokenType::LABEL {
        Err(ErrorKind::ExpectedLabel)
    } else {
        match find_label_before(t, t[i].name@, t.len() as int) {
            None => Err(ErrorKind::UnknownLabel),
            Some(j) => Ok(
                Token { token_type: TokenType::IMMEDIATE_DATA, int_value: trunc(displacement(j, i), 4), ..t[i] },
            ),
        }
    }
}

/// The stream from `i` on with every branch operand resolved.
pub open spec fn resolve_from(t: Seq<Token>, i: int) -> Result<Seq<Token>, (ErrorKind, int)>
    decreases t.len() - i,
{
    if i < 0 || i >= t.len() {
        Ok(seq![])
    } else {
        match rewrite_at(t, i) {
            Err(e) => Err((e, i)),
            Ok(x) => match resolve_from(t, i + 1) {
                Ok(rest) => Ok(seq![x] + rest),
                Err(e) => Err(e),
            },
        }
    }
}

/// Reads every token up to the end of the file.
pub fn scan_tokens(scanner: &mut Scanner) -> (r: Result<Vec<Token>, (ErrorKind, usize)>)
    requires
        old(scanner).wf(),
    ensures
        final(scanner).wf(),
        final(scanner).source() == old(scanner).source(),
        final(scanner).file() == old(scanner).file(),
        scan_all(old(scanner).source(), old(scanner).position()) is Ok ==> r is Ok && lexed(
            r->Ok_0@,
            scan_all(old(scanner).source(), old(scanner).position())->Ok_0,
            old(scanner).file(),
            old(scanner).source(),
        ),
        scan_all(old(scanner).source(), old(scanner).position()) is Err ==> r is Err && r->Err_0.0 == scan_all(
            old(scanner).source(),
            old(scanner).position(),
        )->Err_0.0,
{
    let mut out: Vec<Token> = Vec::new();
    let ghost src = old(scanner).source();
    let ghost file = old(scanner).file();
    let ghost done: Seq<(Lexeme, int)> = seq![];
    let ghost start = scanner.position();
    loop
        invariant
            scanner.wf(),
            src == old(scanner).source(),
            file == old(scanner).file(),
            start == old(scanner).position(),
            scanner.source() == src,
            scanner.file() == file,
            lexed(out@, done, file, src),
            match scan_all(src, scanner.position()) {
                Ok(rest) => scan_all(src, start) == Ok::<Seq<(Lexeme, int)>, (ErrorKind, int)>(done + rest),
                Err(e) => scan_all(src, start) == Err::<Seq<(Lexeme, int)>, (ErrorKind, int)>(e),
            },
        decreases src.len() - scanner.position(),
    {
        let ghost p = scanner.position();
        let ghost q = skip_trivia(src, p);
        let res = scanner.get_next_token();
        let tok = match res {
            Err(x) => {
                proof {
                    let e = lex_at(src, q)->Err_0;
                    assert(lex_at(src, q) == Err::<Lexeme, ErrorKind>(e));
                    assert(scan_all(src, p) == Err::<Seq<(Lexeme, int)>, (ErrorKind, int)>((e, q)));
                    assert(x.kind == e);
                    assert(scan_all(src, start) == Err::<Seq<(Lexeme, int)>, (ErrorKind, int)>((e, q)));
                }
                return Err((x.kind, out.len()));
            },
            Ok(t) => t,
        };
        let ghost l = lex_at(src, q)->Ok_0;
        if tok.token_type == TokenType::END_OF_FILE {
            assert(scan_all(src, p) == Ok::<Seq<(Lexeme, int)>, (ErrorKind, int)>(seq![]));
            assert(done + seq![] =~= done);
            return Ok(out);
        }
        proof {
            let done0 = done;
            done = done + seq![(l, q)];
            match scan_all(src, l.end) {
                Ok(rest) => {
                    assert(scan_all(src, p) == Ok::<Seq<(Lexeme, int)>, (ErrorKind, int)>(seq![(l, q)] + rest));
                    assert(done0 + (seq![(l, q)] + rest) =~= done + rest);
                },
                Err(e) => {
                    assert(scan_all(src, p) == Err::<Seq<(Lexeme, int)>, (ErrorKind, int)>(e));
                },
            }
        }
        let ghost before = out@;
        out.push(tok);
        assert(forall|i: int| 0 <= i < before.len() ==> out@[i] == before[i]);
    }
}

/// Position of the first colon that does not follow a label.
pub fn check_colons(t: &Vec<Token>) -> (r: Option<usize>)
    ensures
        r matches Some(i) ==> bad_colon_from(t@, 0) == Some(i as int),
        r is None ==> bad_colon_from(t@, 0) is None,
{
    let mut i: usize = 0;
    while i < t.len()
        invariant
            i <= t@.len(),
            bad_colon_from(t@, 0) == bad_colon_from(t@, i as int),
        decreases t@.len() - i,
    {
        if t[i].value == TokenValue::COLON && !(i >= 1 && t[i - 1].token_type == TokenType::LABEL) {
            return Some(i);
        }
        i = i + 1;
    }
    None
}

fn is_def_exec(t: &Vec<Token>, j: usize) -> (r: bool)
    ensures
        r == is_def(t@, j as int),
{
    j < t.len() && j + 1 < t.len() && t[j].token_type == TokenType::LABEL && t[j + 1].value == TokenValue::COLON
}

/// Position of the last definition of the label `name`.
pub fn find_label(t: &Vec<Token>, name: &String) -> (r: Option<usize>)
    ensures
        r matches Some(j) ==> find_label_before(t@, name@, t@.len() as int) == Some(j as int),
        r is None ==> find_label_before(t@, name@, t@.len() as int) is None,
{
    let mut k: usize = t.len();
    while k > 0
        invariant
            k <= t@.len(),
            find_label_before(t@, name@, t@.len() as int) == find_label_before(t@, name@, k as int),
        decreases k,
    {
        if is_def_exec(t, k - 1) && str_eq(t[k - 1].name.as_str(), name.as_str()) {
            return Some(k - 1);
        }
        k = k - 1;
    }
    None
}

/// Position of the last definition of an entry label, 0 when there is none.
pub fn find_entry(t: &Vec<Token>) -> (r: usize)
    ensures
        r == entry_before(t@, t@.len() as int),
{
    let mut k: usize = t.len();
    while k > 0
        invariant
            k <= t@.len(),
            entry_before(t@, t@.len() as int) == entry_before(t@, k as int),
        decreases k,
    {
        if is_def_exec(t, k - 1) {
            let n = t[k - 1].name.as_str();
            if str_eq(n, "main") || str_eq(n, "start") || str_eq(n, "_main") || str_eq(n, "_start") {
                return k - 1;
            }
        }
        k = k - 1;
    }
    0
}

fn is_branch_exec(v: TokenValue) -> (r: bool)
    ensures
        r == is_branch(v),
{
    match v {
        TokenValue::CALL | TokenValue::JMP | TokenValue::JE | TokenValue::JNE | TokenValue::JG | TokenValue::JGE
        | TokenValue::JL | TokenValue::JLE | TokenValue::JA | TokenValue::JAE | TokenValue::JB | TokenValue::JBE => true,
        _ => false,
    }
}

/// The stream with each branch and call operand turned from a label into the
/// displacement to that label; the first bad operand is an error.
pub fn resolve(t: &Vec<Token>) -> (r: Result<Vec<Token>, (ErrorKind, usize)>)
    ensures
        resolve_from(t@, 0) is Ok ==> r is Ok && r->Ok_0@ == resolve_from(t@, 0)->Ok_0,
        resolve_from(t@, 0) is Err ==> r is Err && r->Err_0.0 == resolve_from(t@, 0)->Err_0.0
            && r->Err_0.1 == resolve_from(t@, 0)->Err_0.1,
{
    let mut out: Vec<Token> = Vec::new();
    let mut i: usize = 0;
    let mut operand = false;
    while i < t.len()
        invariant
            i <= t@.len(),
            operand == is_operand(t@, i as int),
            resolve_from(t@, i as int) is Ok ==> resolve_from(t@, 0) == Ok::<Seq<Token>, (ErrorKind, int)>(
                out@ + resolve_from(t@, i as int)->Ok_0,
            ),
            resolve_from(t@, i as int) is Err ==> resolve_from(t@, 0) == resolve_from(t@, i as int),
        decreases t@.len() - i,
    {
        let x = if !operand {
            t[i].duplicate()
        } else if t[i].token_type != TokenType::LABEL {
            return Err((ErrorKind::ExpectedLabel, i));
        } else {
            match find_label(t, &t[i].name) {
                None => return Err((ErrorKind::UnknownLabel, i)),
                Some(j) => {
                    let d: i128 = j as i128 - i as i128 - 1;
                    let v = wrap_signed(d < 0, if d < 0 { (-d) as u128 } else { d as u128 }, 4);
                    let mut y = t[i].duplicate();
                    y.token_type = TokenType::IMMEDIATE_DATA;
                    y.int_value = v;
                    y
                },
            }
        };
        proof {
            assert(rewrite_at(t@, i as int) == Ok::<Token, ErrorKind>(x));
            if resolve_from(t@, i + 1) is Ok {
                assert(out@.push(x) + resolve_from(t@, i + 1)->Ok_0 =~= out@ + (seq![x] + resolve_from(t@, i + 1)->Ok_0));
            }
        }
        out.push(x);
        operand = is_branch_exec(t[i].value) && !operand;
        i = i + 1;
    }
    proof {
        assert(out@ + seq![] =~= out@);
    }
    Ok(out)
}

/// Two token sequences that agree on all the preprocessor reads.
pub open spec fn same_tokens(t: Seq<Token>, u: Seq<Token>) -> bool {
    &&& t.len() == u.len()
    &&& forall|i: int|
        0 <= i < t.len() ==> {
            &&& (#[trigger] t[i]).token_type == u[i].token_type
            &&& t[i].value == u[i].value
            &&& t[i].name@ == u[i].name@
        }
}

proof fn lemma_lexed_same(t: Seq<Token>, u: Seq<Token>, ls: Seq<(Lexeme, int)>, file: Seq<char>, src: Seq<char>)
    requires
        lexed(t, ls, file, src),
        lexed(u, ls, file, src),
    ensures
        same_tokens(t, u),
{
    assert forall|i: int| 0 <= i < t.len() implies {
        &&& (#[trigger] t[i]).token_type == u[i].token_type
        &&& t[i].value == u[i].value
        &&& t[i].name@ == u[i].name@
    } by {
        assert(token_is(t[i], ls[i].0, file, src, ls[i].1));
        assert(token_is(u[i], ls[i].0, file, src, ls[i].1));
    }
}

proof fn lemma_same_colon(t: Seq<Token>, u: Seq<Token>, i: int)
    requires
        same_tokens(t, u),
    ensures
        bad_colon_from(t, i) == bad_colon_from(u, i),
    decreases t.len() - i,
{
    if 0 <= i < t.len() {
        if i >= 1 {
            assert(t[i - 1].token_type == u[i - 1].token_type);
        }
        assert(t[i].value == u[i].value);
        lemma_same_colon(t, u, i + 1);
    }
}

proof fn lemma_same_operand(t: Seq<Token>, u: Seq<Token>, i: int)
    requires
        same_tokens(t, u),
        i <= t.len(),
    ensures
        is_operand(t, i) == is_operand(u, i),
    decreases i,
{
    if i > 0 {
        assert(t[i - 1].value == u[i - 1].value);
        lemma_same_operand(t, u, i - 1);
    }
}

proof fn lemma_same_label(t: Seq<Token>, u: Seq<Token>, name: Seq<char>, k: int)
    requires
        same_tokens(t, u),
        k <= t.len(),
    ensures
        find_label_before(t, name, k) == find_label_before(u, name, k),
    decreases k,
{
    if k > 0 {
        assert(t[k - 1].token_type == u[k - 1].token_type);
        assert(t[k - 1].name@ == u[k - 1].name@);
        if k < t.len() {
            assert(t[k].value == u[k].value);
        }
        lemma_same_label(t, u, name, k - 1);
    }
}

proof fn lemma_same_resolve(t: Seq<Token>, u: Seq<Token>, i: int)
    requires
        same_tokens(t, u),
    ensures
        resolve_from(t, i) is Err <==> resolve_from(u, i) is Err,
        resolve_from(t, i) is Err ==> resolve_from(t, i) == resolve_from(u, i),
    decreases t.len() - i,
{
    if 0 <= i < t.len() {
        lemma_same_operand(t, u, i);
        assert(t[i].token_type == u[i].token_type);
        assert(t[i].name@ == u[i].name@);
        lemma_same_label(t, u, t[i].name@, t.len() as int);
        lemma_same_resolve(t, u, i + 1);
    }
}

/// Loading a source either succeeds or fails, never both.
pub proof fn lemma_load_exclusive(src: Seq<char>, file: Seq<char>, text: Seq<Token>, entry: int, kind: ErrorKind, pos: int)
    requires
        loaded(src, file, text, entry),
    ensures
        !load_error(src, file, kind, pos),
{
    reveal(loaded);
    reveal(load_error);
    let ls = scan_all(src, 0)->Ok_0;
    let t = choose|t: Seq<Token>|
        {
            &&& #[trigger] lexed(t, ls, file, src)
            &&& bad_colon_from(t, 0) is None
            &&& resolve_from(t, 0) == Ok::<Seq<Token>, (ErrorKind, int)>(text)
            &&& entry == entry_before(t, t.len() as int)
        };
    assert forall|u: Seq<Token>| #[trigger] lexed(u, ls, file, src) implies !((bad_colon_from(u, 0) == Some(pos) && kind
        == ErrorKind::MisplacedColon) || (bad_colon_from(u, 0) is None && resolve_from(u, 0) == Err::<
        Seq<Token>,
        (ErrorKind, int),
    >((kind, pos)))) by {
        lemma_lexed_same(t, u, ls, file, src);
        lemma_same_colon(t, u, 0);
        lemma_same_resolve(t, u, 0);
    }
}

} // verus!
