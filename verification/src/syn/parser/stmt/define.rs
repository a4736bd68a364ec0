//! The parsers of the `DEFINE` statements. Each starts after the keyword that
//! names what is defined.

use vstd::prelude::*;
use vstd::string::{StrSliceExecFns, StringExecFns};
use crate::expr::access_type::{
    AccessDuration, AccessType, JwtAccess, JwtAccessIssue, JwtAccessVerify, JwtAccessVerifyJwks,
    JwtAccessVerifyKey, RecordAccess,
};
use crate::expr::algorithm::Algorithm;
use crate::expr::base::Base;
use crate::expr::changefeed::ChangeFeed;
use crate::expr::filter::{Filter, Language};
use crate::expr::kind::Kind;
use crate::expr::statements::define::config::{
    ConfigInner, FunctionsConfig, GraphQLConfig, TableConfig, TablesConfig,
};
use crate::expr::statements::define::{
    DefineAccessStatement, DefineAnalyzerStatement, DefineConfigStatement,
    DefineDatabaseStatement, DefineNamespaceStatement, DefineSequenceStatement,
    DefineUserStatement,
};
use crate::expr::table_type::Relation;
use crate::expr::tokenizer::Tokenizer;
use crate::expr::user::{UserDuration, UserSecret};
use crate::syn::error::{Expected, SyntaxError};
use crate::syn::parser::stmt::grammar::{
    AnalyzerShape, TablesShape, UserShape, analyzer_clauses, define_config,
    graphql_clauses, has_config_shape, has_graphql_shape, table_configs, table_names, base, bracketed_language, bracketed_pair,
    bracketed_strand, changefeed, comments, database_clauses, define_analyzer, define_database,
    define_namespace, define_sequence, define_stmt, define_token, define_user, durations, filter,
    filters, function_path, has_define_shape, has_shape, has_user_shape, is_end_of, is_letter,
    is_record_of, is_word, issuer_clauses, jwt, lemma_tables_advance, more_tables, path_segments,
    relation_ends, relation_schema, roles, tables, timeout, token_clauses, tokenizer, tokenizers,
    user_clauses,
};
use crate::syn::parser::{Parser, duration};
use crate::syn::token::{Keyword, Token, TokenKind, kind_at};

verus! {

/// A `DEFINE` statement.
#[derive(Debug, PartialEq, Eq)]
pub enum DefineStatement {
    Namespace(DefineNamespaceStatement),
    Database(DefineDatabaseStatement),
    User(DefineUserStatement),
    Access(DefineAccessStatement),
    Analyzer(DefineAnalyzerStatement),
    Sequence(DefineSequenceStatement),
    Config(DefineConfigStatement),
    /// A statement whose definition holds expressions: a function, a scope, a
    /// param, a table, an API, an event, a field, an index, an access method
    /// or a bucket. The parser stands behind the keyword, and the
    /// parser of expressions reads on.
    Pending(Keyword),
}

impl Parser {
    /// Reads comments; `comment` is the comment that was read before.
    #[verifier::loop_isolation(false)]
    #[verifier::spinoff_prover]
    fn parse_comments(&mut self, first: Option<String>) -> (r: Result<Option<String>, SyntaxError>)
        requires
            old(self).wf(),
        ensures
            final(self).reports(old(self), r, comments(old(self).tokens(), old(self).pos(), first)),
    {
        let mut comment = first;
        while self.at_keyword(Keyword::Comment)
            invariant
                self.wf(),
                self.tokens() == old(self).tokens(),
                self.default_key() == old(self).default_key(),
                comments(old(self).tokens(), old(self).pos(), first) == comments(
                    self.tokens(),
                    self.pos(),
                    comment,
                ),
            decreases self.tokens().len() - self.pos(),
        {
            self.pop_peek();
            comment = Some(self.next_strand()?);
        }
        Ok(comment)
    }

    /// Parses `DEFINE NAMESPACE`.
    pub fn parse_define_namespace(&mut self) -> (r: Result<DefineNamespaceStatement, SyntaxError>)
        requires
            old(self).wf(),
        ensures
            final(self).reports(old(self), r, define_namespace(old(self).tokens(), old(self).pos())),
    {
        let (if_not_exists, overwrite) = self.parse_exists_clause()?;
        let name = self.next_identifier()?;
        let comment = self.parse_comments(None)?;
        Ok(DefineNamespaceStatement { id: None, name, comment, if_not_exists, overwrite })
    }

    /// Reads a change feed.
    pub fn parse_changefeed(&mut self) -> (r: Result<ChangeFeed, SyntaxError>)
        requires
            old(self).wf(),
        ensures
            final(self).reports(old(self), r, changefeed(old(self).tokens(), old(self).pos())),
    {
        let expiry = self.next_duration()?;
        let store_diff = if self.eat(Keyword::Include) {
            self.expect(Keyword::Original)?;
            true
        } else {
            false
        };
        Ok(ChangeFeed { expiry, store_diff })
    }

    /// Parses `DEFINE DATABASE`.
    #[verifier::loop_isolation(false)]
    #[verifier::spinoff_prover]
    pub fn parse_define_database(&mut self) -> (r: Result<DefineDatabaseStatement, SyntaxError>)
        requires
            old(self).wf(),
        ensures
            final(self).reports(old(self), r, define_database(old(self).tokens(), old(self).pos())),
    {
        let (if_not_exists, overwrite) = self.parse_exists_clause()?;
        let name = self.next_identifier()?;
        let mut res = DefineDatabaseStatement {
            id: None,
            name,
            comment: None,
            changefeed: None,
            if_not_exists,
            overwrite,
        };
        loop
            invariant
                self.wf(),
                self.tokens() == old(self).tokens(),
                self.default_key() == old(self).default_key(),
                define_database(old(self).tokens(), old(self).pos()) == database_clauses(
                    self.tokens(),
                    self.pos(),
                    res,
                ),
            decreases self.tokens().len() - self.pos(),
        {
            if self.eat(Keyword::Comment) {
                res.comment = Some(self.next_strand()?);
            } else if self.eat(Keyword::Changefeed) {
                res.changefeed = Some(self.parse_changefeed()?);
            } else {
                break ;
            }
        }
        Ok(res)
    }

    /// Parses `DEFINE SEQUENCE`.
    pub fn parse_define_sequence(&mut self) -> (r: Result<DefineSequenceStatement, SyntaxError>)
        requires
            old(self).wf(),
        ensures
            final(self).reports(old(self), r, define_sequence(old(self).tokens(), old(self).pos())),
    {
        let (if_not_exists, overwrite) = self.parse_exists_clause()?;
        let name = self.next_identifier()?;
        let batch = if self.eat(Keyword::Batch) {
            self.next_integer(0, u32::MAX as i64)?
        } else {
            1000
        };
        let start = if self.eat(Keyword::Start) {
            self.next_integer(i64::MIN, i64::MAX)?
        } else {
            0
        };
        let timeout = self.try_parse_timeout()?;
        Ok(
            DefineSequenceStatement {
                name,
                if_not_exists,
                overwrite,
                batch: batch as u32,
                start,
                timeout,
            },
        )
    }

    /// Reads two numbers between brackets.
    fn parse_bracketed_pair(&mut self) -> (r: Result<(u16, u16), SyntaxError>)
        requires
            old(self).wf(),
        ensures
            final(self).reports(old(self), r, bracketed_pair(old(self).tokens(), old(self).pos())),
            r is Ok ==> final(self).pos() > old(self).pos(),
    {
        self.expect_symbol(&TokenKind::OpenParen, Expected::OpenParen)?;
        let a = self.next_integer(0, 0xffff)?;
        self.expect_symbol(&TokenKind::Comma, Expected::Comma)?;
        let b = self.next_integer(0, 0xffff)?;
        self.expect_symbol(&TokenKind::CloseParen, Expected::CloseParen)?;
        Ok((a as u16, b as u16))
    }

    /// Reads a language between brackets.
    fn parse_bracketed_language(&mut self) -> (r: Result<Language, SyntaxError>)
        requires
            old(self).wf(),
        ensures
            final(self).reports(
                old(self),
                r,
                bracketed_language(old(self).tokens(), old(self).pos()),
            ),
            r is Ok ==> final(self).pos() > old(self).pos(),
    {
        self.expect_symbol(&TokenKind::OpenParen, Expected::OpenParen)?;
        let found = match self.peek_kind() {
            TokenKind::Language(l) => Some(*l),
            _ => None,
        };
        let language = match found {
            Some(l) => {
                self.pop_peek();
                l
            },
            None => {
                return self.unexpected(Expected::Language);
            },
        };
        self.expect_symbol(&TokenKind::CloseParen, Expected::CloseParen)?;
        Ok(language)
    }

    /// Reads a text between brackets.
    fn parse_bracketed_strand(&mut self) -> (r: Result<String, SyntaxError>)
        requires
            old(self).wf(),
        ensures
            final(self).reports(old(self), r, bracketed_strand(old(self).tokens(), old(self).pos())),
            r is Ok ==> final(self).pos() > old(self).pos(),
    {
        self.expect_symbol(&TokenKind::OpenParen, Expected::OpenParen)?;
        let s = self.next_strand()?;
        self.expect_symbol(&TokenKind::CloseParen, Expected::CloseParen)?;
        Ok(s)
    }

    /// Reads a filter.
    fn parse_filter(&mut self) -> (r: Result<Filter, SyntaxError>)
        requires
            old(self).wf(),
        ensures
            final(self).reports(old(self), r, filter(old(self).tokens(), old(self).pos())),
            r is Ok ==> final(self).pos() > old(self).pos(),
    {
        let found = match self.peek_kind() {
            TokenKind::Keyword(k) => Some(*k),
            _ => None,
        };
        match found {
            Some(Keyword::Ascii) => {
                self.pop_peek();
                Ok(Filter::Ascii)
            },
            Some(Keyword::Lowercase) => {
                self.pop_peek();
                Ok(Filter::Lowercase)
            },
            Some(Keyword::Uppercase) => {
                self.pop_peek();
                Ok(Filter::Uppercase)
            },
            Some(Keyword::Edgengram) => {
                self.pop_peek();
                let (a, b) = self.parse_bracketed_pair()?;
                Ok(Filter::EdgeNgram(a, b))
            },
            Some(Keyword::Ngram) => {
                self.pop_peek();
                let (a, b) = self.parse_bracketed_pair()?;
                Ok(Filter::Ngram(a, b))
            },
            Some(Keyword::Snowball) => {
                self.pop_peek();
                let language = self.parse_bracketed_language()?;
                Ok(Filter::Snowball(language))
            },
            Some(Keyword::Mapper) => {
                self.pop_peek();
                let path = self.parse_bracketed_strand()?;
                Ok(Filter::Mapper(path))
            },
            _ => self.unexpected(Expected::Filter),
        }
    }

    /// Reads a list of filters.
    #[verifier::loop_isolation(false)]
    #[verifier::spinoff_prover]
    fn parse_filters(&mut self) -> (r: Result<Vec<Filter>, SyntaxError>)
        requires
            old(self).wf(),
        ensures
            match filters(old(self).tokens(), old(self).pos(), Seq::empty()) {
                Ok((f, to)) => final(self).follows(old(self), to) && (r matches Ok(v) && v@ == f),
                Err(e) => r == Err::<Vec<Filter>, SyntaxError>(e) && final(self).follows(
                    old(self),
                    e.at as int,
                ),
            },
            r is Ok ==> final(self).pos() > old(self).pos(),
    {
        let mut out: Vec<Filter> = Vec::new();
        loop
            invariant
                self.wf(),
                self.tokens() == old(self).tokens(),
                self.default_key() == old(self).default_key(),
                self.pos() >= old(self).pos(),
                filters(old(self).tokens(), old(self).pos(), Seq::empty()) == filters(
                    self.tokens(),
                    self.pos(),
                    out@,
                ),
            decreases self.tokens().len() - self.pos(),
        {
            out.push(self.parse_filter()?);
            if !self.eat_symbol(&TokenKind::Comma) {
                break ;
            }
        }
        Ok(out)
    }

    /// Reads a tokenizer.
    fn parse_tokenizer(&mut self) -> (r: Result<Tokenizer, SyntaxError>)
        requires
            old(self).wf(),
        ensures
            final(self).reports(old(self), r, tokenizer(old(self).tokens(), old(self).pos())),
            r is Ok ==> final(self).pos() > old(self).pos(),
    {
        let found = match self.peek_kind() {
            TokenKind::Keyword(k) => Some(*k),
            _ => None,
        };
        let tokenizer = match found {
            Some(Keyword::Blank) => Tokenizer::Blank,
            Some(Keyword::Camel) => Tokenizer::Camel,
            Some(Keyword::Class) => Tokenizer::Class,
            Some(Keyword::Punct) => Tokenizer::Punct,
            _ => {
                return self.unexpected(Expected::Tokenizer);
            },
        };
        self.pop_peek();
        Ok(tokenizer)
    }

    /// Reads a list of tokenizers.
    #[verifier::loop_isolation(false)]
    #[verifier::spinoff_prover]
    fn parse_tokenizers(&mut self) -> (r: Result<Vec<Tokenizer>, SyntaxError>)
        requires
            old(self).wf(),
        ensures
            match tokenizers(old(self).tokens(), old(self).pos(), Seq::empty()) {
                Ok((t, to)) => final(self).follows(old(self), to) && (r matches Ok(v) && v@ == t),
                Err(e) => r == Err::<Vec<Tokenizer>, SyntaxError>(e) && final(self).follows(
                    old(self),
                    e.at as int,
                ),
            },
            r is Ok ==> final(self).pos() > old(self).pos(),
    {
        let mut out: Vec<Tokenizer> = Vec::new();
        loop
            invariant
                self.wf(),
                self.tokens() == old(self).tokens(),
                self.default_key() == old(self).default_key(),
                self.pos() >= old(self).pos(),
                tokenizers(old(self).tokens(), old(self).pos(), Seq::empty()) == tokenizers(
                    self.tokens(),
                    self.pos(),
                    out@,
                ),
            decreases self.tokens().len() - self.pos(),
        {
            out.push(self.parse_tokenizer()?);
            if !self.eat_symbol(&TokenKind::Comma) {
                break ;
            }
        }
        Ok(out)
    }

    /// Reads the function of an analyzer.
    #[verifier::loop_isolation(false)]
    #[verifier::spinoff_prover]
    fn parse_function_path(&mut self) -> (r: Result<String, SyntaxError>)
        requires
            old(self).wf(),
        ensures
            match function_path(old(self).tokens(), old(self).pos()) {
                Ok((f, to)) => final(self).follows(old(self), to) && (r matches Ok(s) && s@ == f),
                Err(e) => r == Err::<String, SyntaxError>(e) && final(self).follows(
                    old(self),
                    e.at as int,
                ),
            },
            r is Ok ==> final(self).pos() > old(self).pos(),
    {
        self.expect(Keyword::Fn)?;
        self.expect_symbol(&TokenKind::PathSeparator, Expected::PathSeparator)?;
        let mut ident = self.next_identifier()?;
        while self.at_symbol(&TokenKind::PathSeparator)
            invariant
                self.wf(),
                self.tokens() == old(self).tokens(),
                self.default_key() == old(self).default_key(),
                self.pos() > old(self).pos(),
                function_path(old(self).tokens(), old(self).pos()) == path_segments(
                    self.tokens(),
                    self.pos(),
                    ident@,
                ),
            decreases self.tokens().len() - self.pos(),
        {
            self.pop_peek();
            let value = self.next_identifier()?;
            ident.append("::");
            ident.append(value.as_str());
        }
        Ok(ident)
    }

    /// Parses `DEFINE ANALYZER`.
    #[verifier::loop_isolation(false)]
    #[verifier::spinoff_prover]
    pub fn parse_define_analyzer(&mut self) -> (r: Result<DefineAnalyzerStatement, SyntaxError>)
        requires
            old(self).wf(),
        ensures
            match define_analyzer(old(self).tokens(), old(self).pos()) {
                Ok((s, to)) => final(self).follows(old(self), to) && r is Ok && has_shape(
                    r->Ok_0,
                    s,
                ),
                Err(e) => r == Err::<DefineAnalyzerStatement, SyntaxError>(e) && final(self).follows(
                    old(self),
                    e.at as int,
                ),
            },
    {
        let (if_not_exists, overwrite) = self.parse_exists_clause()?;
        let name = self.next_identifier()?;
        let mut res = DefineAnalyzerStatement {
            name,
            function: None,
            tokenizers: None,
            filters: None,
            comment: None,
            if_not_exists,
            overwrite,
        };
        let ghost mut shape = AnalyzerShape {
            name,
            function: None,
            tokenizers: None,
            filters: None,
            comment: None,
            if_not_exists,
            overwrite,
        };
        loop
            invariant
                self.wf(),
                self.tokens() == old(self).tokens(),
                self.default_key() == old(self).default_key(),
                has_shape(res, shape),
                define_analyzer(old(self).tokens(), old(self).pos()) == analyzer_clauses(
                    self.tokens(),
                    self.pos(),
                    shape,
                ),
            decreases self.tokens().len() - self.pos(),
        {
            let ghost here = self.pos();
            if self.eat(Keyword::Filters) {
                let filters = self.parse_filters()?;
                proof {
                    shape = AnalyzerShape { filters: Some(filters@), ..shape };
                }
                res.filters = Some(filters);
            } else if self.eat(Keyword::Tokenizers) {
                let tokenizers = self.parse_tokenizers()?;
                proof {
                    shape = AnalyzerShape { tokenizers: Some(tokenizers@), ..shape };
                }
                res.tokenizers = Some(tokenizers);
            } else if self.eat(Keyword::Function) {
                let ident = self.parse_function_path()?;
                proof {
                    shape = AnalyzerShape { function: Some(ident@), ..shape };
                }
                res.function = Some(ident);
            } else if self.eat(Keyword::Comment) {
                let comment = self.next_strand()?;
                proof {
                    shape = AnalyzerShape { comment: Some(comment), ..shape };
                }
                res.comment = Some(comment);
            } else {
                break ;
            }
        }
        Ok(res)
    }

    /// Reads a level.
    pub fn parse_base(&mut self, scope_allowed: bool) -> (r: Result<Base, SyntaxError>)
        requires
            old(self).wf(),
        ensures
            final(self).reports(old(self), r, base(old(self).tokens(), old(self).pos(), scope_allowed)),
    {
        let found = match self.peek_kind() {
            TokenKind::Keyword(k) => Some(*k),
            _ => None,
        };
        match found {
            Some(Keyword::Namespace) => {
                self.pop_peek();
                Ok(Base::Ns)
            },
            Some(Keyword::Database) => {
                self.pop_peek();
                Ok(Base::Db)
            },
            Some(Keyword::Root) => {
                self.pop_peek();
                Ok(Base::Root)
            },
            Some(Keyword::Scope) => {
                if scope_allowed {
                    self.pop_peek();
                    let name = self.next_identifier()?;
                    Ok(Base::Sc(name))
                } else {
                    self.unexpected(Expected::Base)
                }
            },
            _ => self.unexpected(Expected::Base),
        }
    }

    /// The algorithm that the next token names, which is not read.
    fn peek_algorithm(&self) -> (r: Option<Algorithm>)
        requires
            self.wf(),
        ensures
            match r {
                Some(alg) => kind_at(self.tokens(), self.pos()) == TokenKind::Algorithm(alg),
                None => !(kind_at(self.tokens(), self.pos()) is Algorithm),
            },
    {
        match self.peek_kind() {
            TokenKind::Algorithm(alg) => Some(*alg),
            _ => None,
        }
    }

    /// Parses access by token.
    #[verifier::loop_isolation(false)]
    #[verifier::spinoff_prover]
    pub fn parse_jwt(&mut self) -> (r: Result<JwtAccess, SyntaxError>)
        requires
            old(self).wf(),
        ensures
            final(self).reports(
                old(self),
                r,
                jwt(old(self).tokens(), old(self).pos(), old(self).default_key()),
            ),
    {
        // By default, a JWT access method is only used to verify.
        let mut issue: Option<JwtAccessIssue> = None;
        let mut iss = JwtAccessIssue { alg: Algorithm::Hs512, key: self.fresh_default_key() };
        let verify;
        if self.eat(Keyword::Algorithm) {
            let alg = match self.peek_algorithm() {
                Some(alg) => alg,
                None => {
                    return self.unexpected(Expected::ValidAlgorithm);
                },
            };
            self.pop_peek();
            self.expect(Keyword::Key)?;
            let key = self.next_strand()?;
            verify = JwtAccessVerify::Key(JwtAccessVerifyKey { alg, key: key.clone() });
            // Currently, issuer and verifier must use the same algorithm.
            iss.alg = alg;
            // If the algorithm is symmetric, the issuer and verifier keys are the same.
            // For asymmetric algorithms, the key needs to be explicitly defined.
            if alg.is_symmetric() {
                iss.key = key;
                // Since all the issuer data is known, it can already be assigned.
                // What the statement says of the issuer later goes to `iss`.
                issue = Some(JwtAccessIssue { alg: iss.alg, key: iss.key.clone() });
            }
        } else if self.eat(Keyword::Url) {
            let url = self.next_strand()?;
            verify = JwtAccessVerify::Jwks(JwtAccessVerifyJwks { url });
        } else {
            return self.unexpected(Expected::AlgorithmOrUrl);
        }
        if self.eat(Keyword::With) {
            self.expect(Keyword::Issuer)?;
            let ghost start = self.pos();
            let ghost first = iss;
            loop
                invariant
                    self.wf(),
                    self.tokens() == old(self).tokens(),
                    self.default_key() == old(self).default_key(),
                    issuer_clauses(self.tokens(), start, verify, first) == issuer_clauses(
                        self.tokens(),
                        self.pos(),
                        verify,
                        iss,
                    ),
                decreases self.tokens().len() - self.pos(),
            {
                let at = self.position();
                if self.eat(Keyword::Algorithm) {
                    let alg = match self.peek_algorithm() {
                        Some(alg) => alg,
                        None => {
                            return self.unexpected(Expected::ValidAlgorithm);
                        },
                    };
                    // If an algorithm is already defined, a different value is not expected.
                    if let JwtAccessVerify::Key(ver) = &verify {
                        if !(alg == ver.alg) {
                            return self.unexpected(Expected::CompatibleAlgorithm);
                        }
                    }
                    self.pop_peek();
                    iss.alg = alg;
                } else if self.eat(Keyword::Key) {
                    let key = self.next_strand()?;
                    // If the algorithm is symmetric and a key is already defined, a different key is not expected.
                    if let JwtAccessVerify::Key(ver) = &verify {
                        if ver.alg.is_symmetric() && !(key == ver.key) {
                            self.rewind(at);
                            return self.unexpected(Expected::SymmetricKey);
                        }
                    }
                    iss.key = key;
                } else {
                    break ;
                }
            }
            issue = Some(iss);
        }
        Ok(JwtAccess { verify, issue })
    }

    /// Parses `DEFINE TOKEN`.
    #[verifier::loop_isolation(false)]
    #[verifier::spinoff_prover]
    pub fn parse_define_token(&mut self) -> (r: Result<DefineAccessStatement, SyntaxError>)
        requires
            old(self).wf(),
        ensures
            final(self).reports(
                old(self),
                r,
                define_token(old(self).tokens(), old(self).pos(), old(self).default_key()),
            ),
    {
        let (if_not_exists, overwrite) = self.parse_exists_clause()?;
        let name = self.next_identifier()?;
        self.expect(Keyword::On)?;
        let base = self.parse_base(true)?;
        let mut comment: Option<String> = None;
        let mut verify = JwtAccessVerify::Key(
            JwtAccessVerifyKey { alg: Algorithm::Hs512, key: self.fresh_default_key() },
        );
        let ghost start = self.pos();
        let ghost first = verify;
        loop
            invariant
                self.wf(),
                self.tokens() == old(self).tokens(),
                self.default_key() == old(self).default_key(),
                token_clauses(self.tokens(), start, None, first) == token_clauses(
                    self.tokens(),
                    self.pos(),
                    comment,
                    verify,
                ),
            decreases self.tokens().len() - self.pos(),
        {
            if self.eat(Keyword::Comment) {
                comment = Some(self.next_strand()?);
            } else if self.eat(Keyword::Type) {
                // For backward compatibility, value is always expected after type
                // This matches the display format of the legacy statement
                if let Some(alg) = self.peek_algorithm() {
                    self.pop_peek();
                    self.expect(Keyword::Value)?;
                    let key = self.next_strand()?;
                    verify = JwtAccessVerify::Key(JwtAccessVerifyKey { alg, key });
                } else if self.eat(Keyword::Jwks) {
                    self.expect(Keyword::Value)?;
                    let url = self.next_strand()?;
                    verify = JwtAccessVerify::Jwks(JwtAccessVerifyJwks { url });
                } else {
                    return self.unexpected(Expected::AlgorithmOrJwks);
                }
            } else {
                break ;
            }
        }
        let jwt = JwtAccess { verify, issue: None };
        let (base, kind) = match base {
            // DEFINE TOKEN ON SCOPE is now record access with JWT
            Base::Sc(_) => (
                Base::Db,
                AccessType::Record(RecordAccess { signup: None, signin: None, jwt, bearer: None }),
            ),
            // DEFINE TOKEN anywhere else is now JWT access
            other => (other, AccessType::Jwt(jwt)),
        };
        Ok(
            DefineAccessStatement {
                name,
                base,
                kind,
                authenticate: None,
                duration: AccessDuration::default(),
                comment,
                if_not_exists,
                overwrite,
            },
        )
    }

    /// Whether `name` is `lower` but for the case of its letters.
    fn is_word(name: &str, lower: &str) -> (r: bool)
        ensures
            r == is_word(name@, lower@),
    {
        let n = name.unicode_len();
        if n != lower.unicode_len() {
            return false;
        }
        let mut i: usize = 0;
        while i < n
            invariant
                i <= n,
                n == name@.len(),
                n == lower@.len(),
                forall|j: int| 0 <= j < i ==> is_letter(#[trigger] name@[j], lower@[j]),
            decreases n - i,
        {
            let c = name.get_char(i);
            let l = lower.get_char(i);
            let same = c == l || (0x41 <= c as u32 && c as u32 <= 0x5a && c as u32 + 0x20
                == l as u32);
            if !same {
                return false;
            }
            i += 1;
        }
        true
    }

    /// Reads a list of roles.
    #[verifier::loop_isolation(false)]
    #[verifier::spinoff_prover]
    fn parse_roles(&mut self) -> (r: Result<Vec<String>, SyntaxError>)
        requires
            old(self).wf(),
        ensures
            match roles(old(self).tokens(), old(self).pos(), Seq::empty()) {
                Ok((names, to)) => final(self).follows(old(self), to) && (r matches Ok(v) && v@
                    == names),
                Err(e) => r == Err::<Vec<String>, SyntaxError>(e) && final(self).follows(
                    old(self),
                    e.at as int,
                ),
            },
            r is Ok ==> final(self).pos() > old(self).pos(),
    {
        let mut out: Vec<String> = Vec::new();
        loop
            invariant
                self.wf(),
                self.tokens() == old(self).tokens(),
                self.default_key() == old(self).default_key(),
                self.pos() >= old(self).pos(),
                roles(old(self).tokens(), old(self).pos(), Seq::empty()) == roles(
                    self.tokens(),
                    self.pos(),
                    out@,
                ),
            decreases self.tokens().len() - self.pos(),
        {
            let at = self.position();
            let role = self.next_identifier()?;
            // Users cannot define roles of their own: a role is one of three.
            if !(Self::is_word(role.as_str(), "viewer") || Self::is_word(role.as_str(), "editor")
                || Self::is_word(role.as_str(), "owner")) {
                self.rewind(at);
                return self.unexpected(Expected::Role);
            }
            out.push(role);
            if !self.eat_symbol(&TokenKind::Comma) {
                break ;
            }
        }
        Ok(out)
    }

    /// Reads the durations of a user; `first` holds the durations that were
    /// said before.
    #[verifier::loop_isolation(false)]
    #[verifier::spinoff_prover]
    fn parse_durations(&mut self, first: UserDuration) -> (r: Result<UserDuration, SyntaxError>)
        requires
            old(self).wf(),
        ensures
            final(self).reports(old(self), r, durations(old(self).tokens(), old(self).pos(), first)),
            r is Ok ==> final(self).pos() >= old(self).pos(),
    {
        let mut d = first;
        while self.eat(Keyword::For)
            invariant
                self.wf(),
                self.tokens() == old(self).tokens(),
                self.default_key() == old(self).default_key(),
                self.pos() >= old(self).pos(),
                durations(old(self).tokens(), old(self).pos(), first) == durations(
                    self.tokens(),
                    self.pos(),
                    d,
                ),
            decreases self.tokens().len() - self.pos(),
        {
            if self.eat(Keyword::Token) {
                if self.at_keyword(Keyword::Nothing) {
                    // A token cannot last for ever: some duration must be set.
                    return self.unexpected(Expected::TokenDuration);
                }
                d.token = Some(self.next_duration()?);
            } else if self.eat(Keyword::Session) {
                if self.eat(Keyword::Nothing) {
                    d.session = None;
                } else {
                    d.session = Some(self.next_duration()?);
                }
            } else {
                return Ok(d);
            }
            self.eat_symbol(&TokenKind::Comma);
        }
        Ok(d)
    }

    /// Parses `DEFINE USER`.
    #[verifier::loop_isolation(false)]
    #[verifier::spinoff_prover]
    pub fn parse_define_user(&mut self) -> (r: Result<DefineUserStatement, SyntaxError>)
        requires
            old(self).wf(),
        ensures
            match define_user(old(self).tokens(), old(self).pos()) {
                Ok((s, to)) => final(self).follows(old(self), to) && r is Ok && has_user_shape(
                    r->Ok_0,
                    s,
                ),
                Err(e) => r == Err::<DefineUserStatement, SyntaxError>(e) && final(self).follows(
                    old(self),
                    e.at as int,
                ),
            },
    {
        let (if_not_exists, overwrite) = self.parse_exists_clause()?;
        let name = self.next_identifier()?;
        self.expect(Keyword::On)?;
        let base = self.parse_base(false)?;
        // New users get the viewer role by default
        let mut roles: Vec<String> = Vec::new();
        roles.push("Viewer".to_owned());
        let mut res = DefineUserStatement::from_parsed_values(
            name,
            base,
            roles,
            UserDuration::default(),
        );
        if if_not_exists {
            res.if_not_exists = true;
        }
        if overwrite {
            res.overwrite = true;
        }
        let ghost mut shape = UserShape {
            name,
            base,
            secret: UserSecret::Unset,
            roles: None,
            duration: UserDuration { token: Some(3600), session: None },
            comment: None,
            if_not_exists,
            overwrite,
        };
        let ghost start = self.pos();
        let ghost first = shape;
        loop
            invariant
                self.wf(),
                self.tokens() == old(self).tokens(),
                self.default_key() == old(self).default_key(),
                has_user_shape(res, shape),
                user_clauses(self.tokens(), start, first) == user_clauses(
                    self.tokens(),
                    self.pos(),
                    shape,
                ),
            decreases self.tokens().len() - self.pos(),
        {
            if self.eat(Keyword::Comment) {
                let comment = self.next_strand()?;
                proof {
                    shape = UserShape { comment: Some(comment), ..shape };
                }
                res.comment = Some(comment);
            } else if self.eat(Keyword::Password) {
                let password = self.next_strand()?;
                proof {
                    shape = UserShape { secret: UserSecret::Password(password), ..shape };
                }
                res.secret = UserSecret::Password(password);
            } else if self.eat(Keyword::Passhash) {
                let passhash = self.next_strand()?;
                proof {
                    shape = UserShape { secret: UserSecret::Passhash(passhash), ..shape };
                }
                res.set_passhash(passhash);
            } else if self.eat(Keyword::Roles) {
                let roles = self.parse_roles()?;
                proof {
                    shape = UserShape { roles: Some(roles@), ..shape };
                }
                res.roles = roles;
            } else if self.at_keyword(Keyword::Duration) {
                let ghost here = self.pos();
                self.pop_peek();
                let duration = self.parse_durations(res.duration)?;
                proof {
                    shape = UserShape { duration, ..shape };
                }
                res.duration = duration;
            } else {
                break ;
            }
        }
        Ok(res)
    }

    /// Parses a `DEFINE` statement, as far as it holds no expressions.
    pub fn parse_define_stmt(&mut self) -> (r: Result<DefineStatement, SyntaxError>)
        requires
            old(self).wf(),
        ensures
            match define_stmt(old(self).tokens(), old(self).pos(), old(self).default_key()) {
                Ok((s, to)) => final(self).follows(old(self), to) && r is Ok && has_define_shape(
                    r->Ok_0,
                    s,
                ),
                Err(e) => r == Err::<DefineStatement, SyntaxError>(e) && final(self).follows(
                    old(self),
                    e.at as int,
                ),
            },
    {
        let found = match self.peek_kind() {
            TokenKind::Keyword(k) => Some(*k),
            _ => None,
        };
        match found {
            Some(Keyword::Namespace) => {
                self.pop_peek();
                Ok(DefineStatement::Namespace(self.parse_define_namespace()?))
            },
            Some(Keyword::Database) => {
                self.pop_peek();
                Ok(DefineStatement::Database(self.parse_define_database()?))
            },
            Some(Keyword::User) => {
                self.pop_peek();
                Ok(DefineStatement::User(self.parse_define_user()?))
            },
            Some(Keyword::Token) => {
                self.pop_peek();
                Ok(DefineStatement::Access(self.parse_define_token()?))
            },
            Some(Keyword::Analyzer) => {
                self.pop_peek();
                Ok(DefineStatement::Analyzer(self.parse_define_analyzer()?))
            },
            Some(Keyword::Sequence) => {
                self.pop_peek();
                Ok(DefineStatement::Sequence(self.parse_define_sequence()?))
            },
            Some(Keyword::Config) => {
                self.pop_peek();
                Ok(DefineStatement::Config(self.parse_define_config()?))
            },
            Some(Keyword::Function)
            | Some(Keyword::Scope)
            | Some(Keyword::Param)
            | Some(Keyword::Table)
            | Some(Keyword::Api)
            | Some(Keyword::Event)
            | Some(Keyword::Field)
            | Some(Keyword::Index)
            | Some(Keyword::Access)
            | Some(Keyword::Bucket) => {
                self.pop_peek();
                Ok(DefineStatement::Pending(found.unwrap()))
            },
            _ => self.unexpected(Expected::DefineKeyword),
        }
    }

    /// Parses `DEFINE CONFIG`.
    pub fn parse_define_config(&mut self) -> (r: Result<DefineConfigStatement, SyntaxError>)
        requires
            old(self).wf(),
        ensures
            match define_config(old(self).tokens(), old(self).pos()) {
                Ok(((s, if_not_exists, overwrite), to)) => final(self).follows(old(self), to)
                    && r is Ok && has_config_shape(r->Ok_0, s, if_not_exists, overwrite),
                Err(e) => r == Err::<DefineConfigStatement, SyntaxError>(e) && final(self).follows(
                    old(self),
                    e.at as int,
                ),
            },
    {
        let (if_not_exists, overwrite) = self.parse_exists_clause()?;
        let inner = if self.eat(Keyword::Api) {
            ConfigInner::Api
        } else if self.eat(Keyword::Graphql) {
            ConfigInner::GraphQL(self.parse_graphql_config()?)
        } else {
            return self.unexpected(Expected::ConfigKind);
        };
        Ok(DefineConfigStatement { inner, if_not_exists, overwrite })
    }

    /// Reads the configuration of the GraphQL schema.
    #[verifier::loop_isolation(false)]
    #[verifier::spinoff_prover]
    fn parse_graphql_config(&mut self) -> (r: Result<GraphQLConfig, SyntaxError>)
        requires
            old(self).wf(),
        ensures
            match graphql_clauses(old(self).tokens(), old(self).pos(), None, None) {
                Ok(((tables, functions), to)) => final(self).follows(old(self), to) && r is Ok
                    && has_graphql_shape(r->Ok_0, tables, functions),
                Err(e) => r == Err::<GraphQLConfig, SyntaxError>(e) && final(self).follows(
                    old(self),
                    e.at as int,
                ),
            },
    {
        let mut tmp_tables: Option<TablesConfig> = None;
        let mut tmp_fncs: Option<FunctionsConfig> = None;
        let ghost mut tables: Option<TablesShape> = None;
        let ghost mut functions: Option<bool> = None;
        loop
            invariant
                self.wf(),
                self.tokens() == old(self).tokens(),
                self.default_key() == old(self).default_key(),
                graphql_clauses(old(self).tokens(), old(self).pos(), None, None) == graphql_clauses(
                    self.tokens(),
                    self.pos(),
                    tables,
                    functions,
                ),
                match tables {
                    None => tmp_tables is None,
                    Some(TablesShape::Nothing) => tmp_tables == Some(TablesConfig::Nothing),
                    Some(TablesShape::Auto) => tmp_tables == Some(TablesConfig::Auto),
                    Some(TablesShape::Include(names)) => tmp_tables matches Some(
                        TablesConfig::Include(t),
                    ) && table_names(t@) == names,
                },
                match functions {
                    None => tmp_fncs is None,
                    Some(false) => tmp_fncs == Some(FunctionsConfig::Nothing),
                    Some(true) => tmp_fncs == Some(FunctionsConfig::Auto),
                },
            decreases self.tokens().len() - self.pos(),
        {
            if self.eat(Keyword::Nothing) {
                tmp_tables = Some(TablesConfig::Nothing);
                tmp_fncs = Some(FunctionsConfig::Nothing);
                proof {
                    tables = Some(TablesShape::Nothing);
                    functions = Some(false);
                }
            } else if self.eat(Keyword::Auto) {
                tmp_tables = Some(TablesConfig::Auto);
                tmp_fncs = Some(FunctionsConfig::Auto);
                proof {
                    tables = Some(TablesShape::Auto);
                    functions = Some(true);
                }
            } else if self.eat(Keyword::Tables) {
                if self.at_keyword(Keyword::Include) || self.at_keyword(Keyword::Exclude) {
                    self.pop_peek();
                    let configs = self.parse_graphql_table_configs()?;
                    proof {
                        tables = Some(TablesShape::Include(table_names(configs@)));
                    }
                    tmp_tables = Some(TablesConfig::Include(configs));
                } else if self.eat(Keyword::Nothing) {
                    tmp_tables = Some(TablesConfig::Nothing);
                    proof {
                        tables = Some(TablesShape::Nothing);
                    }
                } else if self.eat(Keyword::Auto) {
                    tmp_tables = Some(TablesConfig::Auto);
                    proof {
                        tables = Some(TablesShape::Auto);
                    }
                } else {
                    return self.unexpected(Expected::Selection);
                }
            } else if self.eat(Keyword::Functions) {
                if self.at_keyword(Keyword::Include) || self.at_keyword(Keyword::Exclude) {
                    self.pop_peek();
                } else if self.eat(Keyword::Nothing) {
                    tmp_fncs = Some(FunctionsConfig::Nothing);
                    proof {
                        functions = Some(false);
                    }
                } else if self.eat(Keyword::Auto) {
                    tmp_fncs = Some(FunctionsConfig::Auto);
                    proof {
                        functions = Some(true);
                    }
                } else {
                    return self.unexpected(Expected::Selection);
                }
            } else {
                break ;
            }
        }
        Ok(
            GraphQLConfig {
                tables: match tmp_tables {
                    Some(t) => t,
                    None => TablesConfig::Nothing,
                },
                functions: match tmp_fncs {
                    Some(f) => f,
                    None => FunctionsConfig::Nothing,
                },
            },
        )
    }

    /// Reads a list of tables of the GraphQL schema.
    #[verifier::loop_isolation(false)]
    #[verifier::spinoff_prover]
    fn parse_graphql_table_configs(&mut self) -> (r: Result<Vec<TableConfig>, SyntaxError>)
        requires
            old(self).wf(),
        ensures
            match table_configs(old(self).tokens(), old(self).pos(), Seq::empty()) {
                Ok((names, to)) => final(self).follows(old(self), to) && (r matches Ok(v)
                    && table_names(v@) == names),
                Err(e) => r == Err::<Vec<TableConfig>, SyntaxError>(e) && final(self).follows(
                    old(self),
                    e.at as int,
                ),
            },
            r is Ok ==> final(self).pos() > old(self).pos(),
    {
        let mut acc: Vec<TableConfig> = Vec::new();
        assert(table_names(acc@) =~= Seq::<String>::empty());
        loop
            invariant
                self.wf(),
                self.tokens() == old(self).tokens(),
                self.default_key() == old(self).default_key(),
                self.pos() >= old(self).pos(),
                table_configs(old(self).tokens(), old(self).pos(), Seq::empty()) == table_configs(
                    self.tokens(),
                    self.pos(),
                    table_names(acc@),
                ),
            decreases self.tokens().len() - self.pos(),
        {
            let ghost before = table_names(acc@);
            let found = match self.peek_kind() {
                TokenKind::Identifier(name) => Some(name.clone()),
                _ => None,
            };
            match found {
                Some(name) => {
                    self.pop_peek();
                    acc.push(TableConfig { name });
                    assert(table_names(acc@) =~= before.push(name));
                },
                None => {
                    assert(table_names(acc@) =~= before);
                    return self.unexpected(Expected::TableConfig);
                },
            }
            if !self.eat_symbol(&TokenKind::Comma) {
                break ;
            }
        }
        Ok(acc)
    }

    /// Reads a timeout, where there is one.
    pub fn try_parse_timeout(&mut self) -> (r: Result<Option<u64>, SyntaxError>)
        requires
            old(self).wf(),
        ensures
            final(self).reports(old(self), r, timeout(old(self).tokens(), old(self).pos())),
    {
        if self.eat(Keyword::Timeout) {
            Ok(Some(self.next_duration()?))
        } else {
            Ok(None)
        }
    }

    /// Whether the next token is `|`.
    fn at_pipe(&self) -> (r: bool)
        requires
            self.wf(),
        ensures
            r == (kind_at(self.tokens(), self.pos()) is Pipe),
    {
        match self.peek_kind() {
            TokenKind::Pipe => true,
            _ => false,
        }
    }

    /// Reads the names of a list of tables.
    #[verifier::loop_isolation(false)]
    #[verifier::spinoff_prover]
    fn parse_table_names(&mut self) -> (r: Result<Vec<String>, SyntaxError>)
        requires
            old(self).wf(),
        ensures
            match tables(old(self).tokens(), old(self).pos()) {
                Ok((names, to)) => final(self).follows(old(self), to) && (r matches Ok(v) && v@
                    == names),
                Err(e) => r == Err::<Vec<String>, SyntaxError>(e) && final(self).follows(
                    old(self),
                    e.at as int,
                ),
            },
    {
        let mut names: Vec<String> = Vec::new();
        names.push(self.next_identifier()?);
        while self.at_pipe()
            invariant
                self.wf(),
                self.tokens() == old(self).tokens(),
                self.default_key() == old(self).default_key(),
                tables(old(self).tokens(), old(self).pos()) == more_tables(
                    self.tokens(),
                    self.pos(),
                    names@,
                ),
            decreases self.tokens().len() - self.pos(),
        {
            self.pop_peek();
            names.push(self.next_identifier()?);
        }
        Ok(names)
    }

    /// Parses a list of tables: the kind of the records of these tables.
    pub fn parse_tables(&mut self) -> (r: Result<Kind, SyntaxError>)
        requires
            old(self).wf(),
        ensures
            match tables(old(self).tokens(), old(self).pos()) {
                Ok((names, to)) => final(self).follows(old(self), to) && r is Ok && is_record_of(
                    r->Ok_0,
                    names,
                ),
                Err(e) => r == Err::<Kind, SyntaxError>(e) && final(self).follows(
                    old(self),
                    e.at as int,
                ),
            },
    {
        Ok(Kind::Record(self.parse_table_names()?))
    }

    /// Parses the schema of a relation.
    #[verifier::loop_isolation(false)]
    #[verifier::spinoff_prover]
    pub fn parse_relation_schema(&mut self) -> (r: Result<Relation, SyntaxError>)
        requires
            old(self).wf(),
        ensures
            match relation_schema(old(self).tokens(), old(self).pos()) {
                Ok(((from, to, enforced), end)) => final(self).follows(old(self), end) && r is Ok
                    && is_end_of(r->Ok_0.from, from) && is_end_of(r->Ok_0.to, to) && r->Ok_0.enforced
                    == enforced,
                Err(e) => r == Err::<Relation, SyntaxError>(e) && final(self).follows(
                    old(self),
                    e.at as int,
                ),
            },
    {
        let mut res = Relation { from: None, to: None, enforced: false };
        let ghost mut from: Option<Seq<String>> = None;
        let ghost mut to: Option<Seq<String>> = None;
        loop
            invariant
                self.wf(),
                self.tokens() == old(self).tokens(),
                self.default_key() == old(self).default_key(),
                is_end_of(res.from, from),
                is_end_of(res.to, to),
                !res.enforced,
                relation_ends(old(self).tokens(), old(self).pos(), None, None) == relation_ends(
                    self.tokens(),
                    self.pos(),
                    from,
                    to,
                ),
            decreases self.tokens().len() - self.pos(),
        {
            let ghost here = self.pos();
            if self.at_keyword(Keyword::From) || self.at_keyword(Keyword::In) {
                self.pop_peek();
                proof {
                    if tables(self.tokens(), here + 1) is Ok {
                        lemma_tables_advance(self.tokens(), here + 1);
                    }
                }
                let kind = self.parse_tables()?;
                proof {
                    from = Some(tables(self.tokens(), here + 1)->Ok_0.0);
                }
                res.from = Some(kind);
            } else if self.at_keyword(Keyword::To) || self.at_keyword(Keyword::Out) {
                self.pop_peek();
                proof {
                    if tables(self.tokens(), here + 1) is Ok {
                        lemma_tables_advance(self.tokens(), here + 1);
                    }
                }
                let kind = self.parse_tables()?;
                proof {
                    to = Some(tables(self.tokens(), here + 1)->Ok_0.0);
                }
                res.to = Some(kind);
            } else {
                break ;
            }
        }
        if self.eat(Keyword::Enforced) {
            res.enforced = true;
        }
        Ok(res)
    }
}

} // verus!
