use vstd::prelude::*;
use vstd::string::*;
use crate::strutil::{first_at, lemma_first_at, lemma_first_at_is};
use crate::value::is_digit;

verus! {

/// One token of the route-specification grammar.
#[derive(Clone, Debug)]
pub enum Token {
    /// An identifier: a method name, a parameter name or a wildcard name.
    Ident(String),
    /// A quoted string: a literal path segment.
    Lit(String),
    /// `,` between method names.
    Comma,
    /// `:` between the methods and the segments.
    Colon,
    /// `/` between segments.
    Slash,
    /// `*` after a wildcard name.
    Star,
}

/// Mathematical form of a [`Token`].
pub enum TokenModel {
    /// An identifier.
    Ident(Seq<char>),
    /// A quoted string.
    Lit(Seq<char>),
    /// `,`
    Comma,
    /// `:`
    Colon,
    /// `/`
    Slash,
    /// `*`
    Star,
}

impl Token {
    pub open spec fn model(self) -> TokenModel {
        match self {
            Token::Ident(s) => TokenModel::Ident(s@),
            Token::Lit(s) => TokenModel::Lit(s@),
            Token::Comma => TokenModel::Comma,
            Token::Colon => TokenModel::Colon,
            Token::Slash => TokenModel::Slash,
            Token::Star => TokenModel::Star,
        }
    }
}

/// The models of a sequence of tokens.
pub open spec fn toks_model(ts: Seq<Token>) -> Seq<TokenModel> {
    ts.map_values(|t: Token| t.model())
}

/// Whether `c` is blank space between tokens.
pub open spec fn is_ws(c: char) -> bool {
    c == ' ' || c == '\t' || c == '\n' || c == '\r'
}

/// Whether `c` may open an identifier.
pub open spec fn is_ident_start(c: char) -> bool {
    ('a' <= c && c <= 'z') || ('A' <= c && c <= 'Z') || c == '_'
}

/// Whether `c` may continue an identifier.
pub open spec fn is_ident_char(c: char) -> bool {
    is_ident_start(c) || is_digit(c)
}

/// Number of leading identifier characters of `s`.
pub open spec fn ident_end(s: Seq<char>) -> int
    decreases s.len(),
{
    if s.len() == 0 {
        0
    } else if !is_ident_char(s[0]) {
        0
    } else {
        1 + ident_end(s.skip(1))
    }
}

pub proof fn lemma_ident_end(s: Seq<char>)
    ensures
        0 <= ident_end(s) <= s.len(),
        ident_end(s) < s.len() ==> !is_ident_char(s[ident_end(s)]),
        forall|j: int| 0 <= j < ident_end(s) ==> is_ident_char(s[j]),
    decreases s.len(),
{
    if s.len() > 0 && is_ident_char(s[0]) {
        lemma_ident_end(s.skip(1));
        assert forall|j: int| 0 <= j < ident_end(s) implies is_ident_char(s[j]) by {
            if j > 0 {
                assert(s.skip(1)[j - 1] == s[j]);
            }
        }
    }
}

pub proof fn lemma_ident_end_is(s: Seq<char>, i: int)
    requires
        0 <= i <= s.len(),
        forall|j: int| 0 <= j < i ==> is_ident_char(s[j]),
        i < s.len() ==> !is_ident_char(s[i]),
    ensures
        ident_end(s) == i,
    decreases s.len(),
{
    if s.len() > 0 && is_ident_char(s[0]) {
        assert(i >= 1);
        lemma_ident_end_is(s.skip(1), i - 1);
    }
}

/// Prepend a token to the outcome of lexing the rest: the rest failing
/// means the whole fails.
pub open spec fn lex_cons(t: TokenModel, rest: Option<Seq<TokenModel>>) -> Option<
    Seq<TokenModel>,
> {
    match rest {
        Some(ts) => Some(seq![t] + ts),
        None => None,
    }
}

/// The tokens of `s`, or nothing when `s` is no sequence of tokens:
/// blank space is skipped, `",:/*"` are single tokens, `"` opens a
/// literal that the next `"` closes, and letters, digits and `_` form
/// identifiers.
pub open spec fn spec_lex(s: Seq<char>) -> Option<Seq<TokenModel>>
    decreases s.len(),
    via spec_lex_decreases
{
    if s.len() == 0 {
        Some(Seq::empty())
    } else if is_ws(s[0]) {
        spec_lex(s.skip(1))
    } else if s[0] == ',' {
        lex_cons(TokenModel::Comma, spec_lex(s.skip(1)))
    } else if s[0] == ':' {
        lex_cons(TokenModel::Colon, spec_lex(s.skip(1)))
    } else if s[0] == '/' {
        lex_cons(TokenModel::Slash, spec_lex(s.skip(1)))
    } else if s[0] == '*' {
        lex_cons(TokenModel::Star, spec_lex(s.skip(1)))
    } else if s[0] == '"' {
        if first_at(s.skip(1), '"') == s.skip(1).len() {
            None
        } else {
            lex_cons(
                TokenModel::Lit(s.skip(1).take(first_at(s.skip(1), '"'))),
                spec_lex(s.skip(1).skip(first_at(s.skip(1), '"') + 1)),
            )
        }
    } else if is_ident_start(s[0]) {
        lex_cons(TokenModel::Ident(s.take(ident_end(s))), spec_lex(s.skip(ident_end(s))))
    } else {
        None
    }
}

#[via_fn]
proof fn spec_lex_decreases(s: Seq<char>) {
    if s.len() > 0 {
        lemma_first_at(s.skip(1), '"');
        lemma_ident_end(s);
        if is_ident_start(s[0]) {
            assert(ident_end(s) >= 1);
        }
    }
}

/// Split `s` into tokens, exactly as [`spec_lex`] describes.
pub(crate) fn lex(s: &str) -> (r: Option<Vec<Token>>)
    ensures
        match r {
            Some(toks) => spec_lex(s@) == Some(toks_model(toks@)),
            None => spec_lex(s@) is None,
        },
{
    let n = s.unicode_len();
    let mut toks: Vec<Token> = Vec::new();
    let mut pos: usize = 0;
    proof {
        assert(s@.skip(0) =~= s@);
        assert(toks_model(toks@) =~= Seq::<TokenModel>::empty());
        match spec_lex(s@) {
            Some(ts) => {
                assert(toks_model(toks@) + ts =~= ts);
            },
            None => {},
        }
    }
    while pos < n
        invariant
            0 <= pos <= n,
            n == s@.len(),
            spec_lex(s@) == lex_concat(toks_model(toks@), spec_lex(s@.skip(pos as int))),
        decreases n - pos,
    {
        let ghost rem = s@.skip(pos as int);
        let c = s.get_char(pos);
        assert(rem[0] == c);
        if c == ' ' || c == '\t' || c == '\n' || c == '\r' {
            proof {
                assert(rem.skip(1) =~= s@.skip(pos + 1));
            }
            pos = pos + 1;
        } else if c == ',' || c == ':' || c == '/' || c == '*' {
            let t = if c == ',' {
                Token::Comma
            } else if c == ':' {
                Token::Colon
            } else if c == '/' {
                Token::Slash
            } else {
                Token::Star
            };
            proof {
                assert(rem.skip(1) =~= s@.skip(pos + 1));
                lemma_lex_concat_push(toks_model(toks@), t.model(), spec_lex(s@.skip(pos + 1)));
                assert(toks_model(toks@.push(t)) =~= toks_model(toks@).push(t.model()));
            }
            toks.push(t);
            pos = pos + 1;
        } else if c == '"' {
            let sub = s.substring_char(pos + 1, n);
            proof {
                assert(sub@ =~= rem.skip(1));
            }
            let e = crate::strutil::find_char(sub, '"');
            proof {
                lemma_first_at(sub@, '"');
            }
            if e == n - (pos + 1) {
                return None;
            }
            let inner = s.substring_char(pos + 1, pos + 1 + e);
            proof {
                assert(inner@ =~= rem.skip(1).take(e as int));
                assert(rem.skip(1).skip(e + 1) =~= s@.skip(pos + 2 + e));
            }
            let t = Token::Lit(String::from_str(inner));
            proof {
                lemma_lex_concat_push(
                    toks_model(toks@),
                    t.model(),
                    spec_lex(s@.skip(pos + 2 + e)),
                );
                assert(toks_model(toks@.push(t)) =~= toks_model(toks@).push(t.model()));
            }
            toks.push(t);
            pos = pos + 2 + e;
        } else if c == '_' || (c >= 'a' && c <= 'z') || (c >= 'A' && c <= 'Z') {
            let mut j: usize = pos + 1;
            while j < n && is_ident_char_exec(s.get_char(j))
                invariant
                    pos < j <= n,
                    n == s@.len(),
                    forall|k: int| pos < k < j ==> is_ident_char(s@[k]),
                decreases n - j,
            {
                j = j + 1;
            }
            proof {
                assert(is_ident_char(rem[0]));
                assert forall|k: int| 0 <= k < j - pos implies is_ident_char(rem[k]) by {
                    assert(rem[k] == s@[pos + k]);
                }
                if j < n {
                    assert(rem[j - pos] == s@[j as int]);
                }
                lemma_ident_end_is(rem, j - pos);
            }
            let name = s.substring_char(pos, j);
            proof {
                assert(name@ =~= rem.take(j - pos));
                assert(rem.skip(j - pos) =~= s@.skip(j as int));
            }
            let t = Token::Ident(String::from_str(name));
            proof {
                lemma_lex_concat_push(toks_model(toks@), t.model(), spec_lex(s@.skip(j as int)));
                assert(toks_model(toks@.push(t)) =~= toks_model(toks@).push(t.model()));
            }
            toks.push(t);
            pos = j;
        } else {
            return None;
        }
    }
    proof {
        assert(s@.skip(n as int) =~= Seq::<char>::empty());
        assert(spec_lex(s@) == Some(toks_model(toks@) + Seq::<TokenModel>::empty()));
        assert(toks_model(toks@) + Seq::<TokenModel>::empty() =~= toks_model(toks@));
    }
    Some(toks)
}

/// Append the outcome of lexing a remainder to already-lexed tokens.
pub open spec fn lex_concat(
    done: Seq<TokenModel>,
    rest: Option<Seq<TokenModel>>,
) -> Option<Seq<TokenModel>> {
    match rest {
        Some(ts) => Some(done + ts),
        None => None,
    }
}

proof fn lemma_lex_concat_push(
    done: Seq<TokenModel>,
    t: TokenModel,
    rest: Option<Seq<TokenModel>>,
)
    ensures
        lex_concat(done, lex_cons(t, rest)) == lex_concat(done.push(t), rest),
{
    match rest {
        Some(ts) => {
            assert(done + (seq![t] + ts) =~= done.push(t) + ts);
        },
        None => {},
    }
}

/// Whether `c` may continue an identifier.
fn is_ident_char_exec(c: char) -> (r: bool)
    ensures
        r == is_ident_char(c),
{
    c == '_' || (c >= 'a' && c <= 'z') || (c >= 'A' && c <= 'Z') || (c >= '0' && c <= '9')
}

} // verus!
