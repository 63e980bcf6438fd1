use vstd::prelude::*;
use crate::scanner::{lemma_lex_advances, lex, Lexeme, Scanner, Token, TokenType};

verus! {

/// The tokens of `s` from cursor `cur` on line `line`, in order, up to the
/// end of input or the first error token, neither of which is included.
pub open spec fn tokens_from(s: Seq<char>, cur: int, line: int) -> Seq<Lexeme>
    decreases s.len() - cur,
    via tokens_from_decreases
{
    if cur < 0 || cur > s.len() {
        Seq::empty()
    } else {
        let (t, next, next_line) = lex(s, cur, line);
        if t.kind == TokenType::Eof || t.kind == TokenType::Error {
            Seq::empty()
        } else {
            seq![t] + tokens_from(s, next, next_line)
        }
    }
}

#[via_fn]
proof fn tokens_from_decreases(s: Seq<char>, cur: int, line: int) {
    if 0 <= cur <= s.len() {
        lemma_lex_advances(s, cur, line);
    }
}

/// Scans `source` from its beginning and collects its tokens, stopping at the
/// end of input or at the first error token.
pub fn compile(source: &str) -> (r: Vec<Token>)
    requires
        source@.len() < usize::MAX,
    ensures
        r@.map_values(|t: Token| t@) == tokens_from(source@, 0, 1),
{
    let mut scanner = Scanner::new(source);
    let mut tokens: Vec<Token> = Vec::new();
    loop
        invariant
            scanner.wf(),
            scanner@.source == source@,
            0 <= scanner@.current <= source@.len(),
            tokens_from(source@, 0, 1) == tokens@.map_values(|t: Token| t@) + tokens_from(
                source@,
                scanner@.current,
                scanner@.line,
            ),
        decreases source@.len() - scanner@.current,
    {
        let ghost before = scanner@;
        let ghost shown = tokens@.map_values(|t: Token| t@);
        proof {
            lemma_lex_advances(before.source, before.current, before.line);
        }
        let token = scanner.scan_token();
        let kind = token.get_token_type();
        if kind == TokenType::Eof || kind == TokenType::Error {
            assert(shown + Seq::<Lexeme>::empty() =~= shown);
            return tokens;
        }
        tokens.push(token);
        assert(tokens@.map_values(|t: Token| t@) =~= shown.push(token@));
        assert(shown + (seq![token@] + tokens_from(source@, scanner@.current, scanner@.line))
            =~= shown.push(token@) + tokens_from(source@, scanner@.current, scanner@.line));
    }
}

} // verus!
