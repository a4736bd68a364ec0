//! The grammar of the `DEFINE` statements: what each parser reads from the
//! tokens, as a function from the tokens and a position to what is read and
//! the position behind it, or to the token that does not fit.

use vstd::prelude::*;
use crate::expr::access_type::{
    AccessDuration, AccessType, JwtAccess, JwtAccessIssue, JwtAccessVerify, JwtAccessVerifyJwks,
    JwtAccessVerifyKey, RecordAccess,
};
use crate::expr::algorithm::Algorithm;
use crate::expr::base::Base;
use crate::expr::changefeed::ChangeFeed;
use crate::expr::filter::{Filter, Language};
use crate::expr::kind::Kind;
use crate::expr::statements::define::analyzer::{filters_view, tokenizers_view};
use crate::expr::statements::define::config::{
    ConfigInner, DefineConfigStatement, GraphQLConfig, TableConfig, TablesConfig,
};
use crate::expr::statements::define::{
    DefineAccessStatement, DefineAnalyzerStatement, DefineDatabaseStatement,
    DefineNamespaceStatement, DefineSequenceStatement, DefineUserStatement,
};
use crate::expr::tokenizer::Tokenizer;
use crate::expr::user::{UserDuration, UserSecret};
use crate::syn::error::Expected;
use crate::syn::parser::stmt::define::DefineStatement;
use crate::syn::parser::{
    Parsed, duration, exists_clause, fail, identifier, integer, keyword, strand, symbol,
};
use crate::syn::token::{Keyword, Token, TokenKind, is_keyword, kind_at};

verus! {


/// The comments from position `i` on: each is the keyword `COMMENT` and a
/// text, and the last one counts.
pub open spec fn comments(tokens: Seq<Token>, i: int, comment: Option<String>) -> Parsed<
    Option<String>,
>
    decreases tokens.len() - i,
{
    if is_keyword(tokens, i, Keyword::Comment) {
        match strand(tokens, i + 1) {
            Ok((s, j)) => comments(tokens, j, Some(s)),
            Err(e) => Err(e),
        }
    } else {
        Ok((comment, i))
    }
}

/// `DEFINE NAMESPACE`: the clause on what exists, the name, and comments.
pub open spec fn define_namespace(tokens: Seq<Token>, i: int) -> Parsed<DefineNamespaceStatement> {
    match exists_clause(tokens, i) {
        Err(e) => Err(e),
        Ok(((if_not_exists, overwrite), j)) => match identifier(tokens, j) {
            Err(e) => Err(e),
            Ok((name, k)) => match comments(tokens, k, None) {
                Err(e) => Err(e),
                Ok((comment, end)) => Ok(
                    (
                        DefineNamespaceStatement { id: None, name, comment, if_not_exists, overwrite },
                        end,
                    ),
                ),
            },
        },
    }
}

/// A change feed from position `i` on: how long changes are kept, and
/// `INCLUDE ORIGINAL` where the state before a change is kept.
pub open spec fn changefeed(tokens: Seq<Token>, i: int) -> Parsed<ChangeFeed> {
    match duration(tokens, i) {
        Err(e) => Err(e),
        Ok((expiry, j)) => if is_keyword(tokens, j, Keyword::Include) {
            if is_keyword(tokens, j + 1, Keyword::Original) {
                Ok((ChangeFeed { expiry, store_diff: true }, j + 2))
            } else {
                fail(j + 1, Expected::Keyword(Keyword::Original))
            }
        } else {
            Ok((ChangeFeed { expiry, store_diff: false }, j))
        },
    }
}

/// The clauses of a database from position `i` on: comments and change
/// feeds, in any order; the last of each counts.
pub open spec fn database_clauses(tokens: Seq<Token>, i: int, d: DefineDatabaseStatement) -> Parsed<
    DefineDatabaseStatement,
>
    decreases tokens.len() - i,
{
    if is_keyword(tokens, i, Keyword::Comment) {
        match strand(tokens, i + 1) {
            Ok((s, j)) => database_clauses(
                tokens,
                j,
                DefineDatabaseStatement { comment: Some(s), ..d },
            ),
            Err(e) => Err(e),
        }
    } else if is_keyword(tokens, i, Keyword::Changefeed) {
        match changefeed(tokens, i + 1) {
            Ok((c, j)) => database_clauses(
                tokens,
                j,
                DefineDatabaseStatement { changefeed: Some(c), ..d },
            ),
            Err(e) => Err(e),
        }
    } else {
        Ok((d, i))
    }
}

/// `DEFINE DATABASE`: the clause on what exists, the name, and the clauses
/// of a database.
pub open spec fn define_database(tokens: Seq<Token>, i: int) -> Parsed<DefineDatabaseStatement> {
    match exists_clause(tokens, i) {
        Err(e) => Err(e),
        Ok(((if_not_exists, overwrite), j)) => match identifier(tokens, j) {
            Err(e) => Err(e),
            Ok((name, k)) => database_clauses(
                tokens,
                k,
                DefineDatabaseStatement {
                    id: None,
                    name,
                    comment: None,
                    changefeed: None,
                    if_not_exists,
                    overwrite,
                },
            ),
        },
    }
}

/// The number after the keyword `k`, or `otherwise` where the keyword is not
/// there.
pub open spec fn keyword_integer(
    tokens: Seq<Token>,
    i: int,
    k: Keyword,
    min: int,
    max: int,
    otherwise: i64,
) -> Parsed<i64> {
    if is_keyword(tokens, i, k) {
        integer(tokens, i + 1, min, max)
    } else {
        Ok((otherwise, i))
    }
}

/// A timeout from position `i` on, where there is one: the keyword `TIMEOUT`
/// and a length of time.
pub open spec fn timeout(tokens: Seq<Token>, i: int) -> Parsed<Option<u64>> {
    if is_keyword(tokens, i, Keyword::Timeout) {
        match duration(tokens, i + 1) {
            Ok((d, j)) => Ok((Some(d), j)),
            Err(e) => Err(e),
        }
    } else {
        Ok((None, i))
    }
}

/// `DEFINE SEQUENCE`: the clause on what exists, the name, then `BATCH` with
/// a number (1000 where it is not said), `START` with a number (0 where it is
/// not said), and a timeout, each at most once and in this order.
pub open spec fn define_sequence(tokens: Seq<Token>, i: int) -> Parsed<DefineSequenceStatement> {
    match exists_clause(tokens, i) {
        Err(e) => Err(e),
        Ok(((if_not_exists, overwrite), j)) => match identifier(tokens, j) {
            Err(e) => Err(e),
            Ok((name, k)) => match keyword_integer(tokens, k, Keyword::Batch, 0, u32::MAX as int, 1000) {
                Err(e) => Err(e),
                Ok((batch, l)) => match keyword_integer(
                    tokens,
                    l,
                    Keyword::Start,
                    i64::MIN as int,
                    i64::MAX as int,
                    0,
                ) {
                    Err(e) => Err(e),
                    Ok((start, m)) => match timeout(tokens, m) {
                        Err(e) => Err(e),
                        Ok((timeout, end)) => Ok(
                            (
                                DefineSequenceStatement {
                                    name,
                                    if_not_exists,
                                    overwrite,
                                    batch: batch as u32,
                                    start,
                                    timeout,
                                },
                                end,
                            ),
                        ),
                    },
                },
            },
        },
    }
}

/// The names after the first of a list of tables, from position `i` on: each
/// follows a `|`.
pub open spec fn more_tables(tokens: Seq<Token>, i: int, names: Seq<String>) -> Parsed<Seq<String>>
    decreases tokens.len() - i,
{
    if kind_at(tokens, i) is Pipe {
        match identifier(tokens, i + 1) {
            Ok((s, j)) => more_tables(tokens, j, names.push(s)),
            Err(e) => Err(e),
        }
    } else {
        Ok((names, i))
    }
}

/// A list of tables from position `i` on: one name or more, with `|` between
/// them.
pub open spec fn tables(tokens: Seq<Token>, i: int) -> Parsed<Seq<String>> {
    match identifier(tokens, i) {
        Ok((s, j)) => more_tables(tokens, j, seq![s]),
        Err(e) => Err(e),
    }
}

/// Whether the kind is a record of these tables.
pub open spec fn is_record_of(kind: Kind, names: Seq<String>) -> bool {
    kind matches Kind::Record(v) && v@ == names
}

/// Whether the kind is a record of these tables, where there are some, and
/// there is no kind otherwise.
pub open spec fn is_end_of(kind: Option<Kind>, names: Option<Seq<String>>) -> bool {
    match names {
        Some(n) => kind is Some && is_record_of(kind->0, n),
        None => kind is None,
    }
}

/// The ends of a relation from position `i` on: `FROM` or `IN` with the
/// tables that the edges come from, `TO` or `OUT` with the tables that they
/// go to, in any order; the last of each counts.
pub open spec fn relation_ends(
    tokens: Seq<Token>,
    i: int,
    from: Option<Seq<String>>,
    to: Option<Seq<String>>,
) -> Parsed<(Option<Seq<String>>, Option<Seq<String>>)>
    decreases tokens.len() - i,
{
    if is_keyword(tokens, i, Keyword::From) || is_keyword(tokens, i, Keyword::In) {
        match tables(tokens, i + 1) {
            Ok((names, j)) => if i < j <= tokens.len() {
                relation_ends(tokens, j, Some(names), to)
            } else {
                Ok(((from, to), i))
            },
            Err(e) => Err(e),
        }
    } else if is_keyword(tokens, i, Keyword::To) || is_keyword(tokens, i, Keyword::Out) {
        match tables(tokens, i + 1) {
            Ok((names, j)) => if i < j <= tokens.len() {
                relation_ends(tokens, j, from, Some(names))
            } else {
                Ok(((from, to), i))
            },
            Err(e) => Err(e),
        }
    } else {
        Ok(((from, to), i))
    }
}

/// The schema of a relation from position `i` on: its ends, and `ENFORCED`
/// where the records that an edge connects must exist.
pub open spec fn relation_schema(tokens: Seq<Token>, i: int) -> Parsed<
    (Option<Seq<String>>, Option<Seq<String>>, bool),
> {
    match relation_ends(tokens, i, None, None) {
        Err(e) => Err(e),
        Ok(((from, to), j)) => if is_keyword(tokens, j, Keyword::Enforced) {
            Ok(((from, to, true), j + 1))
        } else {
            Ok(((from, to, false), j))
        },
    }
}

/// A list of tables ends after where it starts, and within the tokens.
pub proof fn lemma_tables_advance(tokens: Seq<Token>, i: int)
    requires
        tables(tokens, i) is Ok,
    ensures
        i < tables(tokens, i)->Ok_0.1 <= tokens.len(),
{
    let j = identifier(tokens, i)->Ok_0.1;
    lemma_more_tables_advance(tokens, j, seq![identifier(tokens, i)->Ok_0.0]);
}

proof fn lemma_more_tables_advance(tokens: Seq<Token>, i: int, names: Seq<String>)
    requires
        i <= tokens.len(),
        more_tables(tokens, i, names) is Ok,
    ensures
        i <= more_tables(tokens, i, names)->Ok_0.1 <= tokens.len(),
    decreases tokens.len() - i,
{
    if kind_at(tokens, i) is Pipe {
        let (s, j) = identifier(tokens, i + 1)->Ok_0;
        lemma_more_tables_advance(tokens, j, names.push(s));
    }
}

/// Two numbers from 0 to 65535 between brackets, with a comma between them.
pub open spec fn bracketed_pair(tokens: Seq<Token>, i: int) -> Parsed<(u16, u16)> {
    match symbol(tokens, i, TokenKind::OpenParen, Expected::OpenParen) {
        Err(e) => Err(e),
        Ok((_, j)) => match integer(tokens, j, 0, 0xffff) {
            Err(e) => Err(e),
            Ok((a, k)) => match symbol(tokens, k, TokenKind::Comma, Expected::Comma) {
                Err(e) => Err(e),
                Ok((_, l)) => match integer(tokens, l, 0, 0xffff) {
                    Err(e) => Err(e),
                    Ok((b, m)) => match symbol(
                        tokens,
                        m,
                        TokenKind::CloseParen,
                        Expected::CloseParen,
                    ) {
                        Err(e) => Err(e),
                        Ok((_, end)) => Ok(((a as u16, b as u16), end)),
                    },
                },
            },
        },
    }
}

/// A language between brackets.
pub open spec fn bracketed_language(tokens: Seq<Token>, i: int) -> Parsed<Language> {
    match symbol(tokens, i, TokenKind::OpenParen, Expected::OpenParen) {
        Err(e) => Err(e),
        Ok((_, j)) => match kind_at(tokens, j) {
            TokenKind::Language(l) => match symbol(
                tokens,
                j + 1,
                TokenKind::CloseParen,
                Expected::CloseParen,
            ) {
                Err(e) => Err(e),
                Ok((_, end)) => Ok((l, end)),
            },
            _ => fail(j, Expected::Language),
        },
    }
}

/// A text between brackets.
pub open spec fn bracketed_strand(tokens: Seq<Token>, i: int) -> Parsed<String> {
    match symbol(tokens, i, TokenKind::OpenParen, Expected::OpenParen) {
        Err(e) => Err(e),
        Ok((_, j)) => match strand(tokens, j) {
            Err(e) => Err(e),
            Ok((s, k)) => match symbol(tokens, k, TokenKind::CloseParen, Expected::CloseParen) {
                Err(e) => Err(e),
                Ok((_, end)) => Ok((s, end)),
            },
        },
    }
}

/// A filter at position `i`: its name and, where it takes some, its
/// arguments between brackets.
pub open spec fn filter(tokens: Seq<Token>, i: int) -> Parsed<Filter> {
    match kind_at(tokens, i) {
        TokenKind::Keyword(Keyword::Ascii) => Ok((Filter::Ascii, i + 1)),
        TokenKind::Keyword(Keyword::Lowercase) => Ok((Filter::Lowercase, i + 1)),
        TokenKind::Keyword(Keyword::Uppercase) => Ok((Filter::Uppercase, i + 1)),
        TokenKind::Keyword(Keyword::Edgengram) => match bracketed_pair(tokens, i + 1) {
            Err(e) => Err(e),
            Ok(((a, b), j)) => Ok((Filter::EdgeNgram(a, b), j)),
        },
        TokenKind::Keyword(Keyword::Ngram) => match bracketed_pair(tokens, i + 1) {
            Err(e) => Err(e),
            Ok(((a, b), j)) => Ok((Filter::Ngram(a, b), j)),
        },
        TokenKind::Keyword(Keyword::Snowball) => match bracketed_language(tokens, i + 1) {
            Err(e) => Err(e),
            Ok((l, j)) => Ok((Filter::Snowball(l), j)),
        },
        TokenKind::Keyword(Keyword::Mapper) => match bracketed_strand(tokens, i + 1) {
            Err(e) => Err(e),
            Ok((path, j)) => Ok((Filter::Mapper(path), j)),
        },
        _ => fail(i, Expected::Filter),
    }
}

/// A list of filters from position `i` on, after the filters `acc`: one
/// filter or more, with commas between them.
pub open spec fn filters(tokens: Seq<Token>, i: int, acc: Seq<Filter>) -> Parsed<Seq<Filter>>
    decreases tokens.len() - i,
{
    match filter(tokens, i) {
        Err(e) => Err(e),
        Ok((f, j)) => if j > i && kind_at(tokens, j) is Comma {
            filters(tokens, j + 1, acc.push(f))
        } else {
            Ok((acc.push(f), j))
        },
    }
}

/// A tokenizer at position `i`.
pub open spec fn tokenizer(tokens: Seq<Token>, i: int) -> Parsed<Tokenizer> {
    match kind_at(tokens, i) {
        TokenKind::Keyword(Keyword::Blank) => Ok((Tokenizer::Blank, i + 1)),
        TokenKind::Keyword(Keyword::Camel) => Ok((Tokenizer::Camel, i + 1)),
        TokenKind::Keyword(Keyword::Class) => Ok((Tokenizer::Class, i + 1)),
        TokenKind::Keyword(Keyword::Punct) => Ok((Tokenizer::Punct, i + 1)),
        _ => fail(i, Expected::Tokenizer),
    }
}

/// A list of tokenizers from position `i` on, after the tokenizers `acc`: one
/// tokenizer or more, with commas between them.
pub open spec fn tokenizers(tokens: Seq<Token>, i: int, acc: Seq<Tokenizer>) -> Parsed<
    Seq<Tokenizer>,
>
    decreases tokens.len() - i,
{
    match tokenizer(tokens, i) {
        Err(e) => Err(e),
        Ok((t, j)) => if kind_at(tokens, j) is Comma {
            tokenizers(tokens, j + 1, acc.push(t))
        } else {
            Ok((acc.push(t), j))
        },
    }
}

/// The rest of the path of a function from position `i` on, after the path
/// `acc`: names that each follow a `::`, joined by `::`.
pub open spec fn path_segments(tokens: Seq<Token>, i: int, acc: Seq<char>) -> Parsed<Seq<char>>
    decreases tokens.len() - i,
{
    if kind_at(tokens, i) is PathSeparator {
        match identifier(tokens, i + 1) {
            Err(e) => Err(e),
            Ok((s, j)) => path_segments(tokens, j, acc + "::"@ + s@),
        }
    } else {
        Ok((acc, i))
    }
}

/// The function of an analyzer from position `i` on: `fn`, `::` and the path
/// of the function.
pub open spec fn function_path(tokens: Seq<Token>, i: int) -> Parsed<Seq<char>> {
    match keyword(tokens, i, Keyword::Fn) {
        Err(e) => Err(e),
        Ok((_, j)) => match symbol(tokens, j, TokenKind::PathSeparator, Expected::PathSeparator) {
            Err(e) => Err(e),
            Ok((_, k)) => match identifier(tokens, k) {
                Err(e) => Err(e),
                Ok((s, l)) => path_segments(tokens, l, s@),
            },
        },
    }
}

/// What a `DEFINE ANALYZER` statement says.
pub struct AnalyzerShape {
    pub name: String,
    pub function: Option<Seq<char>>,
    pub tokenizers: Option<Seq<Tokenizer>>,
    pub filters: Option<Seq<Filter>>,
    pub comment: Option<String>,
    pub if_not_exists: bool,
    pub overwrite: bool,
}

/// Whether the statement says what the shape says.
pub open spec fn has_shape(d: DefineAnalyzerStatement, s: AnalyzerShape) -> bool {
    &&& d.name == s.name
    &&& match s.function {
        Some(f) => d.function is Some && d.function->0@ == f,
        None => d.function is None,
    }
    &&& tokenizers_view(d.tokenizers) == s.tokenizers
    &&& filters_view(d.filters) == s.filters
    &&& d.comment == s.comment
    &&& d.if_not_exists == s.if_not_exists
    &&& d.overwrite == s.overwrite
}

/// The clauses of an analyzer from position `i` on: `FILTERS` with a list of
/// filters, `TOKENIZERS` with a list of tokenizers, `FUNCTION` with the path
/// of a function, and comments, in any order; the last of each counts.
pub open spec fn analyzer_clauses(tokens: Seq<Token>, i: int, s: AnalyzerShape) -> Parsed<
    AnalyzerShape,
>
    decreases tokens.len() - i,
{
    if is_keyword(tokens, i, Keyword::Filters) {
        match filters(tokens, i + 1, Seq::empty()) {
            Err(e) => Err(e),
            Ok((f, j)) => if i < j <= tokens.len() {
                analyzer_clauses(tokens, j, AnalyzerShape { filters: Some(f), ..s })
            } else {
                Ok((s, i))
            },
        }
    } else if is_keyword(tokens, i, Keyword::Tokenizers) {
        match tokenizers(tokens, i + 1, Seq::empty()) {
            Err(e) => Err(e),
            Ok((t, j)) => if i < j <= tokens.len() {
                analyzer_clauses(tokens, j, AnalyzerShape { tokenizers: Some(t), ..s })
            } else {
                Ok((s, i))
            },
        }
    } else if is_keyword(tokens, i, Keyword::Function) {
        match function_path(tokens, i + 1) {
            Err(e) => Err(e),
            Ok((f, j)) => if i < j <= tokens.len() {
                analyzer_clauses(tokens, j, AnalyzerShape { function: Some(f), ..s })
            } else {
                Ok((s, i))
            },
        }
    } else if is_keyword(tokens, i, Keyword::Comment) {
        match strand(tokens, i + 1) {
            Err(e) => Err(e),
            Ok((c, j)) => analyzer_clauses(tokens, j, AnalyzerShape { comment: Some(c), ..s }),
        }
    } else {
        Ok((s, i))
    }
}

/// `DEFINE ANALYZER`: the clause on what exists, the name, and the clauses
/// of an analyzer.
pub open spec fn define_analyzer(tokens: Seq<Token>, i: int) -> Parsed<AnalyzerShape> {
    match exists_clause(tokens, i) {
        Err(e) => Err(e),
        Ok(((if_not_exists, overwrite), j)) => match identifier(tokens, j) {
            Err(e) => Err(e),
            Ok((name, k)) => analyzer_clauses(
                tokens,
                k,
                AnalyzerShape {
                    name,
                    function: None,
                    tokenizers: None,
                    filters: None,
                    comment: None,
                    if_not_exists,
                    overwrite,
                },
            ),
        },
    }
}

/// The level at position `i`: `NAMESPACE`, `DATABASE`, `ROOT` or, where
/// scopes are allowed, `SCOPE` and the name of a scope.
pub open spec fn base(tokens: Seq<Token>, i: int, scope_allowed: bool) -> Parsed<Base> {
    match kind_at(tokens, i) {
        TokenKind::Keyword(Keyword::Namespace) => Ok((Base::Ns, i + 1)),
        TokenKind::Keyword(Keyword::Database) => Ok((Base::Db, i + 1)),
        TokenKind::Keyword(Keyword::Root) => Ok((Base::Root, i + 1)),
        TokenKind::Keyword(Keyword::Scope) if scope_allowed => match identifier(tokens, i + 1) {
            Err(e) => Err(e),
            Ok((name, j)) => Ok((Base::Sc(name), j)),
        },
        _ => fail(i, Expected::Base),
    }
}

/// How the tokens of an access method are verified, from position `i` on:
/// `ALGORITHM`, an algorithm, `KEY` and a key; or `URL` and the address of a
/// set of keys.
///
/// With it come the key that signs tokens where the statement says nothing
/// more of it, and whether tokens are issued at all. A symmetric algorithm
/// signs with the key that verifies, and tokens are issued; every other case
/// signs with `default_key`, and tokens are not issued.
pub open spec fn jwt_verify(tokens: Seq<Token>, i: int, default_key: String) -> Parsed<
    (JwtAccessVerify, JwtAccessIssue, bool),
> {
    match kind_at(tokens, i) {
        TokenKind::Keyword(Keyword::Algorithm) => match kind_at(tokens, i + 1) {
            TokenKind::Algorithm(alg) => if is_keyword(tokens, i + 2, Keyword::Key) {
                match strand(tokens, i + 3) {
                    Err(e) => Err(e),
                    Ok((key, j)) => Ok(
                        (
                            (
                                JwtAccessVerify::Key(JwtAccessVerifyKey { alg, key }),
                                JwtAccessIssue {
                                    alg,
                                    key: if alg.symmetric() {
                                        key
                                    } else {
                                        default_key
                                    },
                                },
                                alg.symmetric(),
                            ),
                            j,
                        ),
                    ),
                }
            } else {
                fail(i + 2, Expected::Keyword(Keyword::Key))
            },
            _ => fail(i + 1, Expected::ValidAlgorithm),
        },
        TokenKind::Keyword(Keyword::Url) => match strand(tokens, i + 1) {
            Err(e) => Err(e),
            Ok((url, j)) => Ok(
                (
                    (
                        JwtAccessVerify::Jwks(JwtAccessVerifyJwks { url }),
                        JwtAccessIssue { alg: Algorithm::Hs512, key: default_key },
                        false,
                    ),
                    j,
                ),
            ),
        },
        _ => fail(i, Expected::AlgorithmOrUrl),
    }
}

/// Whether tokens are verified with a key for another algorithm than `alg`.
pub open spec fn other_algorithm(verify: JwtAccessVerify, alg: Algorithm) -> bool {
    verify matches JwtAccessVerify::Key(ver) && alg != ver.alg
}

/// Whether tokens are verified with a symmetric key that is not `key`.
pub open spec fn other_symmetric_key(verify: JwtAccessVerify, key: String) -> bool {
    verify matches JwtAccessVerify::Key(ver) && ver.alg.symmetric() && key@ != ver.key@
}

/// What a statement says of the issuer of tokens, from position `i` on:
/// `ALGORITHM` with an algorithm and `KEY` with a key, in any order; the last
/// of each counts. The algorithm must be the one that verifies, where tokens
/// are verified with a key; and the key must be the one that verifies, where
/// that key is symmetric.
pub open spec fn issuer_clauses(
    tokens: Seq<Token>,
    i: int,
    verify: JwtAccessVerify,
    iss: JwtAccessIssue,
) -> Parsed<JwtAccessIssue>
    decreases tokens.len() - i,
{
    if is_keyword(tokens, i, Keyword::Algorithm) {
        match kind_at(tokens, i + 1) {
            TokenKind::Algorithm(alg) => if other_algorithm(verify, alg) {
                fail(i + 1, Expected::CompatibleAlgorithm)
            } else {
                issuer_clauses(tokens, i + 2, verify, JwtAccessIssue { alg, key: iss.key })
            },
            _ => fail(i + 1, Expected::ValidAlgorithm),
        }
    } else if is_keyword(tokens, i, Keyword::Key) {
        match strand(tokens, i + 1) {
            Err(e) => Err(e),
            Ok((key, j)) => if other_symmetric_key(verify, key) {
                fail(i, Expected::SymmetricKey)
            } else {
                issuer_clauses(tokens, j, verify, JwtAccessIssue { alg: iss.alg, key })
            },
        }
    } else {
        Ok((iss, i))
    }
}

/// Access by token, from position `i` on: how tokens are verified and, after
/// `WITH ISSUER`, what is said of the issuer.
pub open spec fn jwt(tokens: Seq<Token>, i: int, default_key: String) -> Parsed<JwtAccess> {
    match jwt_verify(tokens, i, default_key) {
        Err(e) => Err(e),
        Ok(((verify, iss, issued), j)) => if is_keyword(tokens, j, Keyword::With) {
            if !is_keyword(tokens, j + 1, Keyword::Issuer) {
                fail(j + 1, Expected::Keyword(Keyword::Issuer))
            } else {
                match issuer_clauses(tokens, j + 2, verify, iss) {
                    Err(e) => Err(e),
                    Ok((issue, end)) => Ok((JwtAccess { verify, issue: Some(issue) }, end)),
                }
            }
        } else {
            Ok(
                (
                    JwtAccess {
                        verify,
                        issue: if issued {
                            Some(iss)
                        } else {
                            None
                        },
                    },
                    j,
                ),
            )
        },
    }
}

/// The clauses of a token definition from position `i` on: comments, and
/// `TYPE` with an algorithm or `JWKS`, then `VALUE` and a key or an address,
/// in any order; the last of each counts.
pub open spec fn token_clauses(
    tokens: Seq<Token>,
    i: int,
    comment: Option<String>,
    verify: JwtAccessVerify,
) -> Parsed<(Option<String>, JwtAccessVerify)>
    decreases tokens.len() - i,
{
    if is_keyword(tokens, i, Keyword::Comment) {
        match strand(tokens, i + 1) {
            Err(e) => Err(e),
            Ok((c, j)) => token_clauses(tokens, j, Some(c), verify),
        }
    } else if is_keyword(tokens, i, Keyword::Type) {
        match kind_at(tokens, i + 1) {
            TokenKind::Algorithm(alg) => if is_keyword(tokens, i + 2, Keyword::Value) {
                match strand(tokens, i + 3) {
                    Err(e) => Err(e),
                    Ok((key, j)) => token_clauses(
                        tokens,
                        j,
                        comment,
                        JwtAccessVerify::Key(JwtAccessVerifyKey { alg, key }),
                    ),
                }
            } else {
                fail(i + 2, Expected::Keyword(Keyword::Value))
            },
            TokenKind::Keyword(Keyword::Jwks) => if is_keyword(tokens, i + 2, Keyword::Value) {
                match strand(tokens, i + 3) {
                    Err(e) => Err(e),
                    Ok((url, j)) => token_clauses(
                        tokens,
                        j,
                        comment,
                        JwtAccessVerify::Jwks(JwtAccessVerifyJwks { url }),
                    ),
                }
            } else {
                fail(i + 2, Expected::Keyword(Keyword::Value))
            },
            _ => fail(i + 1, Expected::AlgorithmOrJwks),
        }
    } else {
        Ok(((comment, verify), i))
    }
}

/// `DEFINE TOKEN`: the clause on what exists, the name, `ON` and a level,
/// and the clauses of a token definition.
///
/// A token on a scope defines access as a record of the database, every
/// other token access by token. Tokens are verified with `default_key` and
/// the algorithm HS512 where the statement does not say how, and none are
/// issued.
pub open spec fn define_token(tokens: Seq<Token>, i: int, default_key: String) -> Parsed<
    DefineAccessStatement,
> {
    match exists_clause(tokens, i) {
        Err(e) => Err(e),
        Ok(((if_not_exists, overwrite), j)) => match identifier(tokens, j) {
            Err(e) => Err(e),
            Ok((name, k)) => if !is_keyword(tokens, k, Keyword::On) {
                fail(k, Expected::Keyword(Keyword::On))
            } else {
                match base(tokens, k + 1, true) {
                    Err(e) => Err(e),
                    Ok((b, l)) => match token_clauses(
                        tokens,
                        l,
                        None,
                        JwtAccessVerify::Key(
                            JwtAccessVerifyKey { alg: Algorithm::Hs512, key: default_key },
                        ),
                    ) {
                        Err(e) => Err(e),
                        Ok(((comment, verify), end)) => Ok(
                            (
                                DefineAccessStatement {
                                    name,
                                    base: if b is Sc {
                                        Base::Db
                                    } else {
                                        b
                                    },
                                    kind: if b is Sc {
                                        AccessType::Record(
                                            RecordAccess {
                                                signup: None,
                                                signin: None,
                                                jwt: JwtAccess { verify, issue: None },
                                                bearer: None,
                                            },
                                        )
                                    } else {
                                        AccessType::Jwt(JwtAccess { verify, issue: None })
                                    },
                                    authenticate: None,
                                    duration: AccessDuration {
                                        grant: Some(2592000),
                                        token: Some(3600),
                                        session: None,
                                    },
                                    comment,
                                    if_not_exists,
                                    overwrite,
                                },
                                end,
                            ),
                        ),
                    },
                }
            },
        },
    }
}

/// Whether `c` is `lower`, or the capital letter of it.
pub open spec fn is_letter(c: char, lower: char) -> bool {
    c == lower || (0x41 <= c as u32 <= 0x5a && c as u32 + 0x20 == lower as u32)
}

/// Whether `name` is `lower` but for the case of its letters.
pub open spec fn is_word(name: Seq<char>, lower: Seq<char>) -> bool {
    name.len() == lower.len() && forall|i: int|
        0 <= i < name.len() ==> is_letter(#[trigger] name[i], lower[i])
}

/// Whether `name` is the name of a role: `viewer`, `editor` or `owner`, in
/// small or capital letters.
pub open spec fn is_role(name: Seq<char>) -> bool {
    is_word(name, "viewer"@) || is_word(name, "editor"@) || is_word(name, "owner"@)
}

/// A list of roles from position `i` on, after the roles `acc`: one role or
/// more, with commas between them.
pub open spec fn roles(tokens: Seq<Token>, i: int, acc: Seq<String>) -> Parsed<Seq<String>>
    decreases tokens.len() - i,
{
    match identifier(tokens, i) {
        Err(e) => Err(e),
        Ok((role, j)) => if !is_role(role@) {
            fail(i, Expected::Role)
        } else if kind_at(tokens, j) is Comma {
            roles(tokens, j + 1, acc.push(role))
        } else {
            Ok((acc.push(role), j))
        },
    }
}

/// The position after a comma at position `i`, where there is one.
pub open spec fn after_comma(tokens: Seq<Token>, i: int) -> int {
    if kind_at(tokens, i) is Comma {
        i + 1
    } else {
        i
    }
}

/// The durations of a user from position `i` on: each is `FOR`, then `TOKEN`
/// and a duration or `SESSION` and a duration or `NONE`, and a comma may
/// follow it. A `FOR` that neither follows ends the durations.
pub open spec fn durations(tokens: Seq<Token>, i: int, d: UserDuration) -> Parsed<UserDuration>
    decreases tokens.len() - i,
{
    if is_keyword(tokens, i, Keyword::For) {
        if is_keyword(tokens, i + 1, Keyword::Token) {
            if is_keyword(tokens, i + 2, Keyword::Nothing) {
                fail(i + 2, Expected::TokenDuration)
            } else {
                match duration(tokens, i + 2) {
                    Err(e) => Err(e),
                    Ok((t, j)) => durations(
                        tokens,
                        after_comma(tokens, j),
                        UserDuration { token: Some(t), session: d.session },
                    ),
                }
            }
        } else if is_keyword(tokens, i + 1, Keyword::Session) {
            if is_keyword(tokens, i + 2, Keyword::Nothing) {
                durations(
                    tokens,
                    after_comma(tokens, i + 3),
                    UserDuration { token: d.token, session: None },
                )
            } else {
                match duration(tokens, i + 2) {
                    Err(e) => Err(e),
                    Ok((t, j)) => durations(
                        tokens,
                        after_comma(tokens, j),
                        UserDuration { token: d.token, session: Some(t) },
                    ),
                }
            }
        } else {
            Ok((d, i + 1))
        }
    } else {
        Ok((d, i))
    }
}

/// What a `DEFINE USER` statement says.
pub struct UserShape {
    pub name: String,
    pub base: Base,
    pub secret: UserSecret,
    /// The roles that the statement gives; `None` where it gives none, and
    /// the user is a viewer.
    pub roles: Option<Seq<String>>,
    pub duration: UserDuration,
    pub comment: Option<String>,
    pub if_not_exists: bool,
    pub overwrite: bool,
}

/// Whether the statement says what the shape says.
pub open spec fn has_user_shape(d: DefineUserStatement, s: UserShape) -> bool {
    &&& d.name == s.name
    &&& d.base == s.base
    &&& d.secret == s.secret
    &&& match s.roles {
        Some(r) => d.roles@ == r,
        None => d.roles@.len() == 1 && d.roles@[0]@ == "Viewer"@,
    }
    &&& d.duration == s.duration
    &&& d.comment == s.comment
    &&& d.if_not_exists == s.if_not_exists
    &&& d.overwrite == s.overwrite
}

/// The clauses of a user from position `i` on: comments, `PASSWORD` with a
/// password, `PASSHASH` with a hash, `ROLES` with a list of roles, and
/// `DURATION` with durations, in any order; the last of each counts, and the
/// password and the hash are one clause.
pub open spec fn user_clauses(tokens: Seq<Token>, i: int, s: UserShape) -> Parsed<UserShape>
    decreases tokens.len() - i,
{
    if is_keyword(tokens, i, Keyword::Comment) {
        match strand(tokens, i + 1) {
            Err(e) => Err(e),
            Ok((c, j)) => user_clauses(tokens, j, UserShape { comment: Some(c), ..s }),
        }
    } else if is_keyword(tokens, i, Keyword::Password) {
        match strand(tokens, i + 1) {
            Err(e) => Err(e),
            Ok((p, j)) => user_clauses(
                tokens,
                j,
                UserShape { secret: UserSecret::Password(p), ..s },
            ),
        }
    } else if is_keyword(tokens, i, Keyword::Passhash) {
        match strand(tokens, i + 1) {
            Err(e) => Err(e),
            Ok((p, j)) => user_clauses(
                tokens,
                j,
                UserShape { secret: UserSecret::Passhash(p), ..s },
            ),
        }
    } else if is_keyword(tokens, i, Keyword::Roles) {
        match roles(tokens, i + 1, Seq::empty()) {
            Err(e) => Err(e),
            Ok((r, j)) => if i < j <= tokens.len() {
                user_clauses(tokens, j, UserShape { roles: Some(r), ..s })
            } else {
                Ok((s, i))
            },
        }
    } else if is_keyword(tokens, i, Keyword::Duration) {
        match durations(tokens, i + 1, s.duration) {
            Err(e) => Err(e),
            Ok((d, j)) => if i < j <= tokens.len() {
                user_clauses(tokens, j, UserShape { duration: d, ..s })
            } else {
                Ok((s, i))
            },
        }
    } else {
        Ok((s, i))
    }
}

/// `DEFINE USER`: the clause on what exists, the name, `ON` and a level,
/// and the clauses of a user. A user for whom no roles are said is a viewer.
pub open spec fn define_user(tokens: Seq<Token>, i: int) -> Parsed<UserShape> {
    match exists_clause(tokens, i) {
        Err(e) => Err(e),
        Ok(((if_not_exists, overwrite), j)) => match identifier(tokens, j) {
            Err(e) => Err(e),
            Ok((name, k)) => if !is_keyword(tokens, k, Keyword::On) {
                fail(k, Expected::Keyword(Keyword::On))
            } else {
                match base(tokens, k + 1, false) {
                    Err(e) => Err(e),
                    Ok((b, l)) => match user_clauses(
                        tokens,
                        l,
                        UserShape {
                            name,
                            base: b,
                            secret: UserSecret::Unset,
                            roles: None,
                            duration: UserDuration { token: Some(3600), session: None },
                            comment: None,
                            if_not_exists,
                            overwrite,
                        },
                    ) {
                        Err(e) => Err(e),
                        Ok((s, end)) => Ok((s, end)),
                    },
                }
            },
        },
    }
}

/// The names of the tables of a list.
pub open spec fn table_names(tables: Seq<TableConfig>) -> Seq<String> {
    Seq::new(tables.len(), |i: int| tables[i].name)
}

/// A list of tables of the GraphQL schema from position `i` on, after the
/// tables `acc`: one name or more, with commas between them.
pub open spec fn table_configs(tokens: Seq<Token>, i: int, acc: Seq<String>) -> Parsed<Seq<String>>
    decreases tokens.len() - i,
{
    match kind_at(tokens, i) {
        TokenKind::Identifier(name) => if kind_at(tokens, i + 1) is Comma {
            table_configs(tokens, i + 2, acc.push(name))
        } else {
            Ok((acc.push(name), i + 1))
        },
        _ => fail(i, Expected::TableConfig),
    }
}

/// Which tables a configuration of the GraphQL schema shows.
pub enum TablesShape {
    Nothing,
    Auto,
    Include(Seq<String>),
}

/// Whether the configuration of the GraphQL schema says what the shapes say;
/// a shape that is not there stands for no table and for no function.
pub open spec fn has_graphql_shape(
    c: GraphQLConfig,
    tables: Option<TablesShape>,
    functions: Option<bool>,
) -> bool {
    &&& match tables {
        None | Some(TablesShape::Nothing) => c.tables is Nothing,
        Some(TablesShape::Auto) => c.tables is Auto,
        Some(TablesShape::Include(names)) => c.tables matches TablesConfig::Include(t)
            && table_names(t@) == names,
    }
    &&& match functions {
        None | Some(false) => c.functions is Nothing,
        Some(true) => c.functions is Auto,
    }
}

/// The clauses of a configuration of the GraphQL schema from position `i`
/// on, in any order; the last word on the tables and the last on the
/// functions count.
///
/// `NONE` and `AUTO` speak of both. `TABLES` is followed by `NONE`, `AUTO`, or
/// `INCLUDE` or `EXCLUDE` with a list of tables: the tables of either list
/// are shown. `FUNCTIONS` is followed by `NONE` or `AUTO`, or by `INCLUDE` or
/// `EXCLUDE`, which say nothing. The functions are told by whether every
/// function is shown.
pub open spec fn graphql_clauses(
    tokens: Seq<Token>,
    i: int,
    tables: Option<TablesShape>,
    functions: Option<bool>,
) -> Parsed<(Option<TablesShape>, Option<bool>)>
    decreases tokens.len() - i,
{
    if is_keyword(tokens, i, Keyword::Nothing) {
        graphql_clauses(tokens, i + 1, Some(TablesShape::Nothing), Some(false))
    } else if is_keyword(tokens, i, Keyword::Auto) {
        graphql_clauses(tokens, i + 1, Some(TablesShape::Auto), Some(true))
    } else if is_keyword(tokens, i, Keyword::Tables) {
        if is_keyword(tokens, i + 1, Keyword::Include) || is_keyword(
            tokens,
            i + 1,
            Keyword::Exclude,
        ) {
            match table_configs(tokens, i + 2, Seq::empty()) {
                Err(e) => Err(e),
                Ok((names, j)) => if i < j <= tokens.len() {
                    graphql_clauses(tokens, j, Some(TablesShape::Include(names)), functions)
                } else {
                    Ok(((tables, functions), i))
                },
            }
        } else if is_keyword(tokens, i + 1, Keyword::Nothing) {
            graphql_clauses(tokens, i + 2, Some(TablesShape::Nothing), functions)
        } else if is_keyword(tokens, i + 1, Keyword::Auto) {
            graphql_clauses(tokens, i + 2, Some(TablesShape::Auto), functions)
        } else {
            fail(i + 1, Expected::Selection)
        }
    } else if is_keyword(tokens, i, Keyword::Functions) {
        if is_keyword(tokens, i + 1, Keyword::Include) || is_keyword(
            tokens,
            i + 1,
            Keyword::Exclude,
        ) {
            graphql_clauses(tokens, i + 2, tables, functions)
        } else if is_keyword(tokens, i + 1, Keyword::Nothing) {
            graphql_clauses(tokens, i + 2, tables, Some(false))
        } else if is_keyword(tokens, i + 1, Keyword::Auto) {
            graphql_clauses(tokens, i + 2, tables, Some(true))
        } else {
            fail(i + 1, Expected::Selection)
        }
    } else {
        Ok(((tables, functions), i))
    }
}

/// What a `DEFINE CONFIG` statement says.
pub enum ConfigShape {
    GraphQL(Option<TablesShape>, Option<bool>),
    Api,
}

/// Whether the statement says what the shape and the clause on what exists
/// say.
pub open spec fn has_config_shape(
    d: DefineConfigStatement,
    s: ConfigShape,
    if_not_exists: bool,
    overwrite: bool,
) -> bool {
    &&& d.if_not_exists == if_not_exists
    &&& d.overwrite == overwrite
    &&& match s {
        ConfigShape::GraphQL(tables, functions) => d.inner matches ConfigInner::GraphQL(c)
            && has_graphql_shape(c, tables, functions),
        ConfigShape::Api => d.inner is Api,
    }
}

/// `DEFINE CONFIG`: the clause on what exists, then `GRAPHQL` and the clauses
/// of a configuration of the GraphQL schema, or `API`.
pub open spec fn define_config(tokens: Seq<Token>, i: int) -> Parsed<(ConfigShape, bool, bool)> {
    match exists_clause(tokens, i) {
        Err(e) => Err(e),
        Ok(((if_not_exists, overwrite), j)) => if is_keyword(tokens, j, Keyword::Api) {
            Ok(((ConfigShape::Api, if_not_exists, overwrite), j + 1))
        } else if is_keyword(tokens, j, Keyword::Graphql) {
            match graphql_clauses(tokens, j + 1, None, None) {
                Err(e) => Err(e),
                Ok(((tables, functions), end)) => Ok(
                    ((ConfigShape::GraphQL(tables, functions), if_not_exists, overwrite), end),
                ),
            }
        } else {
            fail(j, Expected::ConfigKind)
        },
    }
}

/// Whether the keyword names a definition that holds expressions.
pub open spec fn holds_expressions(k: Keyword) -> bool {
    k is Function || k is Scope || k is Param || k is Table || k is Api || k is Event || k is Field
        || k is Index || k is Access || k is Bucket
}

/// What a `DEFINE` statement says.
pub enum DefineShape {
    Namespace(DefineNamespaceStatement),
    Database(DefineDatabaseStatement),
    User(UserShape),
    Access(DefineAccessStatement),
    Analyzer(AnalyzerShape),
    Sequence(DefineSequenceStatement),
    Config(ConfigShape, bool, bool),
    Pending(Keyword),
}

/// Whether the statement says what the shape says.
pub open spec fn has_define_shape(d: DefineStatement, s: DefineShape) -> bool {
    match (d, s) {
        (DefineStatement::Namespace(a), DefineShape::Namespace(b)) => a == b,
        (DefineStatement::Database(a), DefineShape::Database(b)) => a == b,
        (DefineStatement::User(a), DefineShape::User(b)) => has_user_shape(a, b),
        (DefineStatement::Access(a), DefineShape::Access(b)) => a == b,
        (DefineStatement::Analyzer(a), DefineShape::Analyzer(b)) => has_shape(a, b),
        (DefineStatement::Sequence(a), DefineShape::Sequence(b)) => a == b,
        (DefineStatement::Config(a), DefineShape::Config(s, i, o)) => has_config_shape(a, s, i, o),
        (DefineStatement::Pending(a), DefineShape::Pending(b)) => a == b,
        _ => false,
    }
}

/// A `DEFINE` statement from position `i` on: the keyword that names what is
/// defined, and the definition.
pub open spec fn define_stmt(tokens: Seq<Token>, i: int, default_key: String) -> Parsed<DefineShape> {
    match kind_at(tokens, i) {
        TokenKind::Keyword(Keyword::Namespace) => match define_namespace(tokens, i + 1) {
            Err(e) => Err(e),
            Ok((d, j)) => Ok((DefineShape::Namespace(d), j)),
        },
        TokenKind::Keyword(Keyword::Database) => match define_database(tokens, i + 1) {
            Err(e) => Err(e),
            Ok((d, j)) => Ok((DefineShape::Database(d), j)),
        },
        TokenKind::Keyword(Keyword::User) => match define_user(tokens, i + 1) {
            Err(e) => Err(e),
            Ok((d, j)) => Ok((DefineShape::User(d), j)),
        },
        TokenKind::Keyword(Keyword::Token) => match define_token(tokens, i + 1, default_key) {
            Err(e) => Err(e),
            Ok((d, j)) => Ok((DefineShape::Access(d), j)),
        },
        TokenKind::Keyword(Keyword::Analyzer) => match define_analyzer(tokens, i + 1) {
            Err(e) => Err(e),
            Ok((d, j)) => Ok((DefineShape::Analyzer(d), j)),
        },
        TokenKind::Keyword(Keyword::Sequence) => match define_sequence(tokens, i + 1) {
            Err(e) => Err(e),
            Ok((d, j)) => Ok((DefineShape::Sequence(d), j)),
        },
        TokenKind::Keyword(Keyword::Config) => match define_config(tokens, i + 1) {
            Err(e) => Err(e),
            Ok(((s, a, b), j)) => Ok((DefineShape::Config(s, a, b), j)),
        },
        TokenKind::Keyword(k) if holds_expressions(k) => Ok((DefineShape::Pending(k), i + 1)),
        _ => fail(i, Expected::DefineKeyword),
    }
}

} // verus!
