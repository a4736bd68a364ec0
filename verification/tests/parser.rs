use surrealdb_core::expr::access_type::{
    AccessDuration, AccessType, JwtAccess, JwtAccessIssue, JwtAccessVerify, JwtAccessVerifyJwks,
    JwtAccessVerifyKey, RecordAccess,
};
use surrealdb_core::expr::algorithm::Algorithm;
use surrealdb_core::expr::base::Base;
use surrealdb_core::expr::changefeed::ChangeFeed;
use surrealdb_core::expr::filter::{Filter, Language};
use surrealdb_core::expr::kind::Kind;
use surrealdb_core::expr::statements::define::config::{
    ConfigInner, FunctionsConfig, GraphQLConfig, TableConfig, TablesConfig,
};
use surrealdb_core::expr::statements::define::{
    DefineAccessStatement, DefineAnalyzerStatement, DefineConfigStatement,
    DefineDatabaseStatement, DefineNamespaceStatement, DefineSequenceStatement,
    DefineUserStatement,
};
use surrealdb_core::expr::table_type::Relation;
use surrealdb_core::expr::tokenizer::Tokenizer;
use surrealdb_core::expr::user::{UserDuration, UserSecret};
use surrealdb_core::syn::error::{Expected, SyntaxError};
use surrealdb_core::syn::parser::stmt::define::DefineStatement;
use surrealdb_core::syn::parser::Parser;
use surrealdb_core::syn::token::{Keyword, Token, TokenKind};

fn kw(k: Keyword) -> TokenKind {
    TokenKind::Keyword(k)
}

fn id(s: &str) -> TokenKind {
    TokenKind::Identifier(s.to_string())
}

fn st(s: &str) -> TokenKind {
    TokenKind::Strand(s.to_string())
}

fn parser(kinds: Vec<TokenKind>) -> Parser {
    let tokens = kinds
        .into_iter()
        .enumerate()
        .map(|(i, kind)| Token { kind, offset: i as u32, len: 1 })
        .collect();
    Parser::new(tokens, "default-key".to_string())
}

fn err<T>(at: usize, expected: Expected) -> Result<T, SyntaxError> {
    Err(SyntaxError { at, expected })
}

#[test]
fn parse_define_namespace_reads_name_and_comments() {
    let mut p = parser(vec![id("test")]);
    assert_eq!(p.parse_define_namespace(), Ok(DefineNamespaceStatement::new("test".to_string())));
    assert_eq!(p.position(), 1);
    let mut p = parser(vec![
        kw(Keyword::If),
        kw(Keyword::Not),
        kw(Keyword::Exists),
        id("test"),
        kw(Keyword::Comment),
        st("a"),
        kw(Keyword::Comment),
        st("b"),
        kw(Keyword::Changefeed),
    ]);
    assert_eq!(
        p.parse_define_namespace(),
        Ok(DefineNamespaceStatement {
            id: None,
            name: "test".to_string(),
            comment: Some("b".to_string()),
            if_not_exists: true,
            overwrite: false,
        })
    );
    assert_eq!(p.position(), 8);
    let mut p = parser(vec![kw(Keyword::Overwrite), id("test")]);
    assert_eq!(p.parse_define_namespace().map(|s| (s.if_not_exists, s.overwrite)), Ok((false, true)));
}

#[test]
fn parse_define_namespace_reports_what_does_not_fit() {
    assert_eq!(parser(vec![]).parse_define_namespace(), err(0, Expected::Identifier));
    assert_eq!(
        parser(vec![kw(Keyword::If), kw(Keyword::Exists)]).parse_define_namespace(),
        err(1, Expected::Keyword(Keyword::Not))
    );
    assert_eq!(
        parser(vec![kw(Keyword::If), kw(Keyword::Not), id("x")]).parse_define_namespace(),
        err(2, Expected::Keyword(Keyword::Exists))
    );
    let mut p = parser(vec![id("x"), kw(Keyword::Comment), id("y")]);
    assert_eq!(p.parse_define_namespace(), err(2, Expected::Strand));
    assert_eq!(p.position(), 2);
    assert_eq!(parser(vec![st("x")]).parse_define_namespace(), err(0, Expected::Identifier));
}

#[test]
fn parse_define_database_reads_changefeeds() {
    let mut p = parser(vec![
        id("test"),
        kw(Keyword::Changefeed),
        TokenKind::Duration(3600),
        kw(Keyword::Comment),
        st("c"),
        kw(Keyword::Changefeed),
        TokenKind::Duration(60),
        kw(Keyword::Include),
        kw(Keyword::Original),
    ]);
    assert_eq!(
        p.parse_define_database(),
        Ok(DefineDatabaseStatement {
            id: None,
            name: "test".to_string(),
            comment: Some("c".to_string()),
            changefeed: Some(ChangeFeed { expiry: 60, store_diff: true }),
            if_not_exists: false,
            overwrite: false,
        })
    );
    assert_eq!(p.position(), 9);
    let mut p = parser(vec![id("test"), kw(Keyword::Changefeed), TokenKind::Duration(3600)]);
    assert_eq!(
        p.parse_define_database().map(|d| d.changefeed),
        Ok(Some(ChangeFeed { expiry: 3600, store_diff: false }))
    );
    assert_eq!(parser(vec![id("test")]).parse_define_database(), Ok(DefineDatabaseStatement::new("test".to_string())));
    assert_eq!(
        parser(vec![id("test"), kw(Keyword::Changefeed), st("1h")]).parse_define_database(),
        err(2, Expected::Duration)
    );
    assert_eq!(
        parser(vec![id("t"), kw(Keyword::Changefeed), TokenKind::Duration(1), kw(Keyword::Include)])
            .parse_define_database(),
        err(4, Expected::Keyword(Keyword::Original))
    );
}

#[test]
fn parse_define_sequence_has_defaults() {
    assert_eq!(
        parser(vec![id("seq")]).parse_define_sequence(),
        Ok(DefineSequenceStatement {
            name: "seq".to_string(),
            if_not_exists: false,
            overwrite: false,
            batch: 1000,
            start: 0,
            timeout: None,
        })
    );
    let mut p = parser(vec![
        kw(Keyword::Overwrite),
        id("seq"),
        kw(Keyword::Batch),
        TokenKind::Integer(10),
        kw(Keyword::Start),
        TokenKind::Integer(-5),
        kw(Keyword::Timeout),
        TokenKind::Duration(3),
    ]);
    assert_eq!(
        p.parse_define_sequence(),
        Ok(DefineSequenceStatement {
            name: "seq".to_string(),
            if_not_exists: false,
            overwrite: true,
            batch: 10,
            start: -5,
            timeout: Some(3),
        })
    );
    assert_eq!(p.position(), 8);
    // The clauses come in one order.
    let mut p = parser(vec![id("seq"), kw(Keyword::Start), TokenKind::Integer(1), kw(Keyword::Batch), TokenKind::Integer(2)]);
    assert_eq!(p.parse_define_sequence().map(|s| (s.batch, s.start)), Ok((1000, 1)));
    assert_eq!(p.position(), 3);
    assert_eq!(
        parser(vec![id("seq"), kw(Keyword::Batch), TokenKind::Integer(-1)]).parse_define_sequence(),
        err(2, Expected::Integer)
    );
    assert_eq!(
        parser(vec![id("seq"), kw(Keyword::Batch), TokenKind::Integer(4294967296)]).parse_define_sequence(),
        err(2, Expected::Integer)
    );
    assert_eq!(
        parser(vec![id("seq"), kw(Keyword::Batch), TokenKind::Integer(4294967295)])
            .parse_define_sequence()
            .map(|s| s.batch),
        Ok(u32::MAX)
    );
    assert_eq!(
        parser(vec![id("seq"), kw(Keyword::Timeout)]).parse_define_sequence(),
        err(2, Expected::Duration)
    );
}

#[test]
fn parse_tables_reads_names_between_bars() {
    let mut p = parser(vec![id("a"), TokenKind::Pipe, id("b"), TokenKind::Pipe, id("c"), id("d")]);
    assert_eq!(
        p.parse_tables(),
        Ok(Kind::Record(vec!["a".to_string(), "b".to_string(), "c".to_string()]))
    );
    assert_eq!(p.position(), 5);
    assert_eq!(parser(vec![id("a")]).parse_tables(), Ok(Kind::Record(vec!["a".to_string()])));
    assert_eq!(parser(vec![]).parse_tables(), err(0, Expected::Identifier));
    assert_eq!(parser(vec![id("a"), TokenKind::Pipe]).parse_tables(), err(2, Expected::Identifier));
    assert_eq!(
        parser(vec![id("a"), TokenKind::Pipe, TokenKind::Pipe]).parse_tables(),
        err(2, Expected::Identifier)
    );
}

#[test]
fn parse_relation_schema_reads_both_ends() {
    let record = |n: &[&str]| Some(Kind::Record(n.iter().map(|s| s.to_string()).collect()));
    let mut p = parser(vec![
        kw(Keyword::From),
        id("a"),
        TokenKind::Pipe,
        id("b"),
        kw(Keyword::To),
        id("c"),
        kw(Keyword::Enforced),
    ]);
    assert_eq!(
        p.parse_relation_schema(),
        Ok(Relation { from: record(&["a", "b"]), to: record(&["c"]), enforced: true })
    );
    assert_eq!(p.position(), 7);
    let mut p = parser(vec![kw(Keyword::Out), id("c"), kw(Keyword::In), id("a"), kw(Keyword::In), id("z"), id("x")]);
    assert_eq!(
        p.parse_relation_schema(),
        Ok(Relation { from: record(&["z"]), to: record(&["c"]), enforced: false })
    );
    assert_eq!(p.position(), 6);
    assert_eq!(
        parser(vec![kw(Keyword::Enforced)]).parse_relation_schema(),
        Ok(Relation { from: None, to: None, enforced: true })
    );
    assert_eq!(parser(vec![]).parse_relation_schema(), Ok(Relation { from: None, to: None, enforced: false }));
    assert_eq!(parser(vec![kw(Keyword::From)]).parse_relation_schema(), err(1, Expected::Identifier));
}

#[test]
fn parse_define_analyzer_reads_its_clauses() {
    let mut p = parser(vec![
        id("az"),
        kw(Keyword::Tokenizers),
        kw(Keyword::Blank),
        TokenKind::Comma,
        kw(Keyword::Class),
        kw(Keyword::Filters),
        kw(Keyword::Lowercase),
        TokenKind::Comma,
        kw(Keyword::Edgengram),
        TokenKind::OpenParen,
        TokenKind::Integer(2),
        TokenKind::Comma,
        TokenKind::Integer(5),
        TokenKind::CloseParen,
        TokenKind::Comma,
        kw(Keyword::Snowball),
        TokenKind::OpenParen,
        TokenKind::Language(Language::English),
        TokenKind::CloseParen,
        TokenKind::Comma,
        kw(Keyword::Mapper),
        TokenKind::OpenParen,
        st("m.txt"),
        TokenKind::CloseParen,
        kw(Keyword::Function),
        kw(Keyword::Fn),
        TokenKind::PathSeparator,
        id("a"),
        TokenKind::PathSeparator,
        id("b"),
        kw(Keyword::Comment),
        st("c"),
    ]);
    assert_eq!(
        p.parse_define_analyzer(),
        Ok(DefineAnalyzerStatement {
            name: "az".to_string(),
            function: Some("a::b".to_string()),
            tokenizers: Some(vec![Tokenizer::Blank, Tokenizer::Class]),
            filters: Some(vec![
                Filter::Lowercase,
                Filter::EdgeNgram(2, 5),
                Filter::Snowball(Language::English),
                Filter::Mapper("m.txt".to_string()),
            ]),
            comment: Some("c".to_string()),
            if_not_exists: false,
            overwrite: false,
        })
    );
    assert_eq!(p.position(), 32);
    assert_eq!(parser(vec![id("az")]).parse_define_analyzer(), Ok(DefineAnalyzerStatement::new("az".to_string())));
    let mut p = parser(vec![
        id("az"),
        kw(Keyword::Filters),
        kw(Keyword::Ascii),
        kw(Keyword::Filters),
        kw(Keyword::Uppercase),
        TokenKind::Comma,
        kw(Keyword::Ngram),
        TokenKind::OpenParen,
        TokenKind::Integer(0),
        TokenKind::Comma,
        TokenKind::Integer(65535),
        TokenKind::CloseParen,
    ]);
    assert_eq!(
        p.parse_define_analyzer().map(|a| a.filters),
        Ok(Some(vec![Filter::Uppercase, Filter::Ngram(0, 65535)]))
    );
}

#[test]
fn parse_define_analyzer_reports_what_does_not_fit() {
    let a = |rest: Vec<TokenKind>| {
        let mut v = vec![id("az")];
        v.extend(rest);
        parser(v).parse_define_analyzer()
    };
    assert_eq!(a(vec![kw(Keyword::Filters), kw(Keyword::Blank)]), err(2, Expected::Filter));
    assert_eq!(a(vec![kw(Keyword::Filters)]), err(2, Expected::Filter));
    assert_eq!(a(vec![kw(Keyword::Filters), kw(Keyword::Ascii), TokenKind::Comma]), err(4, Expected::Filter));
    assert_eq!(a(vec![kw(Keyword::Tokenizers), kw(Keyword::Ascii)]), err(2, Expected::Tokenizer));
    assert_eq!(a(vec![kw(Keyword::Filters), kw(Keyword::Ngram), TokenKind::Integer(1)]), err(3, Expected::OpenParen));
    assert_eq!(
        a(vec![kw(Keyword::Filters), kw(Keyword::Ngram), TokenKind::OpenParen, TokenKind::Integer(65536)]),
        err(4, Expected::Integer)
    );
    assert_eq!(
        a(vec![kw(Keyword::Filters), kw(Keyword::Ngram), TokenKind::OpenParen, TokenKind::Integer(1), TokenKind::Integer(2)]),
        err(5, Expected::Comma)
    );
    assert_eq!(
        a(vec![
            kw(Keyword::Filters),
            kw(Keyword::Ngram),
            TokenKind::OpenParen,
            TokenKind::Integer(1),
            TokenKind::Comma,
            TokenKind::Integer(2),
        ]),
        err(7, Expected::CloseParen)
    );
    assert_eq!(
        a(vec![kw(Keyword::Filters), kw(Keyword::Snowball), TokenKind::OpenParen, id("english")]),
        err(4, Expected::Language)
    );
    assert_eq!(
        a(vec![kw(Keyword::Filters), kw(Keyword::Mapper), TokenKind::OpenParen, id("m")]),
        err(4, Expected::Strand)
    );
    assert_eq!(a(vec![kw(Keyword::Function), id("a")]), err(2, Expected::Keyword(Keyword::Fn)));
    assert_eq!(a(vec![kw(Keyword::Function), kw(Keyword::Fn), id("a")]), err(3, Expected::PathSeparator));
    assert_eq!(
        a(vec![kw(Keyword::Function), kw(Keyword::Fn), TokenKind::PathSeparator, id("a"), TokenKind::PathSeparator]),
        err(6, Expected::Identifier)
    );
}

fn key(alg: Algorithm, key: &str) -> JwtAccessVerify {
    JwtAccessVerify::Key(JwtAccessVerifyKey { alg, key: key.to_string() })
}

#[test]
fn parse_jwt_with_a_symmetric_key_issues_tokens() {
    let mut p = parser(vec![
        kw(Keyword::Algorithm),
        TokenKind::Algorithm(Algorithm::Hs256),
        kw(Keyword::Key),
        st("secret"),
    ]);
    assert_eq!(
        p.parse_jwt(),
        Ok(JwtAccess {
            verify: key(Algorithm::Hs256, "secret"),
            issue: Some(JwtAccessIssue { alg: Algorithm::Hs256, key: "secret".to_string() }),
        })
    );
    assert_eq!(p.position(), 4);
}

#[test]
fn parse_jwt_without_an_issuer_only_verifies() {
    let mut p = parser(vec![
        kw(Keyword::Algorithm),
        TokenKind::Algorithm(Algorithm::Rs256),
        kw(Keyword::Key),
        st("public"),
    ]);
    assert_eq!(p.parse_jwt(), Ok(JwtAccess { verify: key(Algorithm::Rs256, "public"), issue: None }));
    let mut p = parser(vec![kw(Keyword::Url), st("https://example.com/jwks")]);
    assert_eq!(
        p.parse_jwt(),
        Ok(JwtAccess {
            verify: JwtAccessVerify::Jwks(JwtAccessVerifyJwks { url: "https://example.com/jwks".to_string() }),
            issue: None,
        })
    );
}

#[test]
fn parse_jwt_with_an_issuer() {
    let mut p = parser(vec![
        kw(Keyword::Algorithm),
        TokenKind::Algorithm(Algorithm::Rs256),
        kw(Keyword::Key),
        st("public"),
        kw(Keyword::With),
        kw(Keyword::Issuer),
        kw(Keyword::Key),
        st("private"),
        kw(Keyword::Algorithm),
        TokenKind::Algorithm(Algorithm::Rs256),
    ]);
    assert_eq!(
        p.parse_jwt(),
        Ok(JwtAccess {
            verify: key(Algorithm::Rs256, "public"),
            issue: Some(JwtAccessIssue { alg: Algorithm::Rs256, key: "private".to_string() }),
        })
    );
    assert_eq!(p.position(), 10);
    // An issuer of whom nothing is said signs with the key that is given to the parser.
    let mut p = parser(vec![kw(Keyword::Url), st("u"), kw(Keyword::With), kw(Keyword::Issuer)]);
    assert_eq!(
        p.parse_jwt().map(|j| j.issue),
        Ok(Some(JwtAccessIssue { alg: Algorithm::Hs512, key: "default-key".to_string() }))
    );
    let mut p = parser(vec![
        kw(Keyword::Url),
        st("u"),
        kw(Keyword::With),
        kw(Keyword::Issuer),
        kw(Keyword::Algorithm),
        TokenKind::Algorithm(Algorithm::Es256),
    ]);
    assert_eq!(
        p.parse_jwt().map(|j| j.issue),
        Ok(Some(JwtAccessIssue { alg: Algorithm::Es256, key: "default-key".to_string() }))
    );
    let mut p = parser(vec![
        kw(Keyword::Algorithm),
        TokenKind::Algorithm(Algorithm::Hs256),
        kw(Keyword::Key),
        st("secret"),
        kw(Keyword::With),
        kw(Keyword::Issuer),
        kw(Keyword::Key),
        st("secret"),
    ]);
    assert_eq!(
        p.parse_jwt().map(|j| j.issue),
        Ok(Some(JwtAccessIssue { alg: Algorithm::Hs256, key: "secret".to_string() }))
    );
}

#[test]
fn parse_jwt_reports_what_does_not_fit() {
    assert_eq!(parser(vec![]).parse_jwt(), err(0, Expected::AlgorithmOrUrl));
    assert_eq!(parser(vec![kw(Keyword::Key)]).parse_jwt(), err(0, Expected::AlgorithmOrUrl));
    assert_eq!(parser(vec![kw(Keyword::Algorithm), id("HS256")]).parse_jwt(), err(1, Expected::ValidAlgorithm));
    assert_eq!(
        parser(vec![kw(Keyword::Algorithm), TokenKind::Algorithm(Algorithm::Hs256), st("k")]).parse_jwt(),
        err(2, Expected::Keyword(Keyword::Key))
    );
    assert_eq!(
        parser(vec![kw(Keyword::Algorithm), TokenKind::Algorithm(Algorithm::Hs256), kw(Keyword::Key)]).parse_jwt(),
        err(3, Expected::Strand)
    );
    assert_eq!(parser(vec![kw(Keyword::Url)]).parse_jwt(), err(1, Expected::Strand));
    let start = || {
        vec![kw(Keyword::Algorithm), TokenKind::Algorithm(Algorithm::Hs256), kw(Keyword::Key), st("secret"), kw(Keyword::With)]
    };
    assert_eq!(parser(start()).parse_jwt(), err(5, Expected::Keyword(Keyword::Issuer)));
    let mut t = start();
    t.extend(vec![kw(Keyword::Issuer), kw(Keyword::Algorithm), TokenKind::Algorithm(Algorithm::Hs512)]);
    assert_eq!(parser(t).parse_jwt(), err(7, Expected::CompatibleAlgorithm));
    let mut t = start();
    t.extend(vec![kw(Keyword::Issuer), kw(Keyword::Algorithm), st("x")]);
    assert_eq!(parser(t).parse_jwt(), err(7, Expected::ValidAlgorithm));
    let mut t = start();
    t.extend(vec![kw(Keyword::Issuer), kw(Keyword::Key), st("other")]);
    let mut p = parser(t);
    assert_eq!(p.parse_jwt(), err(6, Expected::SymmetricKey));
    assert_eq!(p.position(), 6);
    let mut t = start();
    t.extend(vec![kw(Keyword::Issuer), kw(Keyword::Key)]);
    assert_eq!(parser(t).parse_jwt(), err(7, Expected::Strand));
}

fn access(name: &str, base: Base, kind: AccessType, comment: Option<&str>) -> DefineAccessStatement {
    DefineAccessStatement {
        name: name.to_string(),
        base,
        kind,
        authenticate: None,
        duration: AccessDuration { grant: Some(2592000), token: Some(3600), session: None },
        comment: comment.map(|c| c.to_string()),
        if_not_exists: false,
        overwrite: false,
    }
}

#[test]
fn parse_define_token_on_a_database_is_access_by_token() {
    let mut p = parser(vec![
        id("tk"),
        kw(Keyword::On),
        kw(Keyword::Database),
        kw(Keyword::Type),
        TokenKind::Algorithm(Algorithm::Hs512),
        kw(Keyword::Value),
        st("secret"),
        kw(Keyword::Comment),
        st("c"),
    ]);
    assert_eq!(
        p.parse_define_token(),
        Ok(access(
            "tk",
            Base::Db,
            AccessType::Jwt(JwtAccess { verify: key(Algorithm::Hs512, "secret"), issue: None }),
            Some("c"),
        ))
    );
    assert_eq!(p.position(), 9);
    let mut p = parser(vec![id("tk"), kw(Keyword::On), kw(Keyword::Root)]);
    assert_eq!(
        p.parse_define_token(),
        Ok(access(
            "tk",
            Base::Root,
            AccessType::Jwt(JwtAccess { verify: key(Algorithm::Hs512, "default-key"), issue: None }),
            None,
        ))
    );
    assert_eq!(AccessDuration::default(), AccessDuration { grant: Some(2592000), token: Some(3600), session: None });
}

#[test]
fn parse_define_token_on_a_scope_is_access_as_a_record() {
    let mut p = parser(vec![
        id("tk"),
        kw(Keyword::On),
        kw(Keyword::Scope),
        id("account"),
        kw(Keyword::Type),
        kw(Keyword::Jwks),
        kw(Keyword::Value),
        st("https://example.com"),
    ]);
    assert_eq!(
        p.parse_define_token(),
        Ok(access(
            "tk",
            Base::Db,
            AccessType::Record(RecordAccess {
                signup: None,
                signin: None,
                jwt: JwtAccess {
                    verify: JwtAccessVerify::Jwks(JwtAccessVerifyJwks { url: "https://example.com".to_string() }),
                    issue: None,
                },
                bearer: None,
            }),
            None,
        ))
    );
}

#[test]
fn parse_define_token_reports_what_does_not_fit() {
    assert_eq!(parser(vec![id("tk")]).parse_define_token(), err(1, Expected::Keyword(Keyword::On)));
    assert_eq!(parser(vec![id("tk"), kw(Keyword::On), id("x")]).parse_define_token(), err(2, Expected::Base));
    assert_eq!(
        parser(vec![id("tk"), kw(Keyword::On), kw(Keyword::Scope)]).parse_define_token(),
        err(3, Expected::Identifier)
    );
    let tail = |rest: Vec<TokenKind>| {
        let mut v = vec![id("tk"), kw(Keyword::On), kw(Keyword::Namespace), kw(Keyword::Type)];
        v.extend(rest);
        parser(v).parse_define_token()
    };
    assert_eq!(tail(vec![st("HS512")]), err(4, Expected::AlgorithmOrJwks));
    assert_eq!(tail(vec![TokenKind::Algorithm(Algorithm::Hs512), st("k")]), err(5, Expected::Keyword(Keyword::Value)));
    assert_eq!(tail(vec![kw(Keyword::Jwks), st("k")]), err(5, Expected::Keyword(Keyword::Value)));
    assert_eq!(tail(vec![kw(Keyword::Jwks), kw(Keyword::Value)]), err(6, Expected::Strand));
}

fn user(name: &str, base: Base) -> DefineUserStatement {
    DefineUserStatement::from_parsed_values(
        name.to_string(),
        base,
        vec!["Viewer".to_string()],
        UserDuration::default(),
    )
}

#[test]
fn parse_define_user_has_defaults() {
    let mut p = parser(vec![id("tobie"), kw(Keyword::On), kw(Keyword::Root)]);
    assert_eq!(p.parse_define_user(), Ok(user("tobie", Base::Root)));
    assert_eq!(user("tobie", Base::Root).roles, vec!["Viewer".to_string()]);
    assert_eq!(user("tobie", Base::Root).duration, UserDuration { token: Some(3600), session: None });
    assert_eq!(user("tobie", Base::Root).secret, UserSecret::Unset);
}

#[test]
fn parse_define_user_reads_its_clauses() {
    let mut p = parser(vec![
        kw(Keyword::If),
        kw(Keyword::Not),
        kw(Keyword::Exists),
        id("tobie"),
        kw(Keyword::On),
        kw(Keyword::Namespace),
        kw(Keyword::Password),
        st("pw"),
        kw(Keyword::Roles),
        id("EDITOR"),
        TokenKind::Comma,
        id("owner"),
        kw(Keyword::Duration),
        kw(Keyword::For),
        kw(Keyword::Token),
        TokenKind::Duration(60),
        TokenKind::Comma,
        kw(Keyword::For),
        kw(Keyword::Session),
        TokenKind::Duration(600),
        kw(Keyword::Comment),
        st("c"),
        kw(Keyword::Passhash),
        st("hash"),
    ]);
    let mut want = user("tobie", Base::Ns);
    want.if_not_exists = true;
    want.secret = UserSecret::Passhash("hash".to_string());
    want.roles = vec!["EDITOR".to_string(), "owner".to_string()];
    want.duration = UserDuration { token: Some(60), session: Some(600) };
    want.comment = Some("c".to_string());
    assert_eq!(p.parse_define_user(), Ok(want));
    assert_eq!(p.position(), 24);
    let mut p = parser(vec![
        id("u"),
        kw(Keyword::On),
        kw(Keyword::Database),
        kw(Keyword::Duration),
        kw(Keyword::For),
        kw(Keyword::Session),
        TokenKind::Duration(5),
        kw(Keyword::For),
        kw(Keyword::Session),
        kw(Keyword::Nothing),
        kw(Keyword::Password),
        st("pw"),
    ]);
    let mut want = user("u", Base::Db);
    want.secret = UserSecret::Password("pw".to_string());
    assert_eq!(p.parse_define_user(), Ok(want));
    // A `FOR` that is followed by nothing that lasts ends the durations.
    let mut p = parser(vec![id("u"), kw(Keyword::On), kw(Keyword::Root), kw(Keyword::Duration), kw(Keyword::For), kw(Keyword::Comment), st("c")]);
    assert_eq!(p.parse_define_user().map(|u| u.comment), Ok(Some("c".to_string())));
    assert_eq!(p.position(), 7);
}

#[test]
fn parse_define_user_reports_what_does_not_fit() {
    let u = |rest: Vec<TokenKind>| {
        let mut v = vec![id("u"), kw(Keyword::On), kw(Keyword::Root)];
        v.extend(rest);
        parser(v).parse_define_user()
    };
    assert_eq!(u(vec![kw(Keyword::Roles), id("admin")]), err(4, Expected::Role));
    assert_eq!(u(vec![kw(Keyword::Roles), id("viewers")]), err(4, Expected::Role));
    assert_eq!(u(vec![kw(Keyword::Roles), id("viewe")]), err(4, Expected::Role));
    assert_eq!(u(vec![kw(Keyword::Roles), id("Owner"), TokenKind::Comma, id("x")]), err(6, Expected::Role));
    assert_eq!(u(vec![kw(Keyword::Roles)]), err(4, Expected::Identifier));
    assert_eq!(
        u(vec![kw(Keyword::Duration), kw(Keyword::For), kw(Keyword::Token), kw(Keyword::Nothing)]),
        err(6, Expected::TokenDuration)
    );
    assert_eq!(
        u(vec![kw(Keyword::Duration), kw(Keyword::For), kw(Keyword::Token), st("1h")]),
        err(6, Expected::Duration)
    );
    assert_eq!(u(vec![kw(Keyword::Password), id("pw")]), err(4, Expected::Strand));
    assert_eq!(
        parser(vec![id("u"), kw(Keyword::On), kw(Keyword::Scope), id("s")]).parse_define_user(),
        err(2, Expected::Base)
    );
    assert_eq!(parser(vec![id("u"), kw(Keyword::Root)]).parse_define_user(), err(1, Expected::Keyword(Keyword::On)));
}

#[test]
fn the_parser_steps_over_its_tokens() {
    let mut p = parser(vec![kw(Keyword::If), TokenKind::Comma, TokenKind::Eof, id("x")]);
    assert_eq!(p.peek_kind(), &kw(Keyword::If));
    assert!(p.at_keyword(Keyword::If));
    assert!(!p.eat(Keyword::Not));
    assert_eq!(p.expect(Keyword::Not), err(0, Expected::Keyword(Keyword::Not)));
    assert!(p.eat(Keyword::If));
    assert!(!p.eat_symbol(&TokenKind::Pipe));
    assert!(p.eat_symbol(&TokenKind::Comma));
    assert_eq!(p.peek_kind(), &TokenKind::Eof);
    p.pop_peek();
    assert_eq!(p.next_strand(), err(3, Expected::Strand));
    assert_eq!(p.next_identifier(), Ok("x".to_string()));
    assert_eq!(p.peek_kind(), &TokenKind::Eof);
    p.pop_peek();
    assert_eq!(p.position(), 4);
    assert_eq!(p.next_identifier(), err(4, Expected::Identifier));
    p.rewind(1);
    assert_eq!(p.position(), 1);
    assert!(Algorithm::Hs384.is_symmetric());
    assert!(!Algorithm::EdDSA.is_symmetric());
    assert_eq!(p.fresh_default_key(), "default-key");
}

#[test]
fn parse_define_stmt_goes_by_the_keyword() {
    let mut p = parser(vec![kw(Keyword::Namespace), id("test"), kw(Keyword::Comment), st("c")]);
    let mut want = DefineNamespaceStatement::new("test".to_string());
    want.comment = Some("c".to_string());
    assert_eq!(p.parse_define_stmt(), Ok(DefineStatement::Namespace(want)));
    assert_eq!(p.position(), 4);
    assert_eq!(
        parser(vec![kw(Keyword::Database), id("test")]).parse_define_stmt(),
        Ok(DefineStatement::Database(DefineDatabaseStatement::new("test".to_string())))
    );
    assert_eq!(
        parser(vec![kw(Keyword::User), id("u"), kw(Keyword::On), kw(Keyword::Root)]).parse_define_stmt(),
        Ok(DefineStatement::User(user("u", Base::Root)))
    );
    assert!(matches!(
        parser(vec![kw(Keyword::Token), id("t"), kw(Keyword::On), kw(Keyword::Database)]).parse_define_stmt(),
        Ok(DefineStatement::Access(_))
    ));
    assert_eq!(
        parser(vec![kw(Keyword::Analyzer), id("az")]).parse_define_stmt(),
        Ok(DefineStatement::Analyzer(DefineAnalyzerStatement::new("az".to_string())))
    );
    assert!(matches!(
        parser(vec![kw(Keyword::Sequence), id("s")]).parse_define_stmt(),
        Ok(DefineStatement::Sequence(_))
    ));
    for k in [
        Keyword::Function,
        Keyword::Scope,
        Keyword::Param,
        Keyword::Table,
        Keyword::Api,
        Keyword::Event,
        Keyword::Field,
        Keyword::Index,
        Keyword::Access,
        Keyword::Bucket,
    ] {
        let mut p = parser(vec![kw(k), id("x")]);
        assert_eq!(p.parse_define_stmt(), Ok(DefineStatement::Pending(k)));
        assert_eq!(p.position(), 1);
    }
    assert_eq!(parser(vec![]).parse_define_stmt(), err(0, Expected::DefineKeyword));
    assert_eq!(parser(vec![id("table")]).parse_define_stmt(), err(0, Expected::DefineKeyword));
    assert_eq!(parser(vec![kw(Keyword::Comment)]).parse_define_stmt(), err(0, Expected::DefineKeyword));
    assert_eq!(parser(vec![kw(Keyword::Namespace)]).parse_define_stmt(), err(1, Expected::Identifier));
}

fn graphql(tables: TablesConfig, functions: FunctionsConfig) -> DefineConfigStatement {
    DefineConfigStatement {
        inner: ConfigInner::GraphQL(GraphQLConfig { tables, functions }),
        if_not_exists: false,
        overwrite: false,
    }
}

fn shown(names: &[&str]) -> TablesConfig {
    TablesConfig::Include(names.iter().map(|n| TableConfig { name: n.to_string() }).collect())
}

#[test]
fn parse_define_config_reads_the_graphql_schema() {
    let g = |rest: Vec<TokenKind>| {
        let mut v = vec![kw(Keyword::Graphql)];
        v.extend(rest);
        parser(v).parse_define_config()
    };
    assert_eq!(g(vec![]), Ok(graphql(TablesConfig::Nothing, FunctionsConfig::Nothing)));
    assert_eq!(g(vec![kw(Keyword::Auto)]), Ok(graphql(TablesConfig::Auto, FunctionsConfig::Auto)));
    assert_eq!(
        g(vec![kw(Keyword::Auto), kw(Keyword::Nothing)]),
        Ok(graphql(TablesConfig::Nothing, FunctionsConfig::Nothing))
    );
    assert_eq!(
        g(vec![
            kw(Keyword::Tables),
            kw(Keyword::Include),
            id("a"),
            TokenKind::Comma,
            id("b"),
            kw(Keyword::Functions),
            kw(Keyword::Auto),
        ]),
        Ok(graphql(shown(&["a", "b"]), FunctionsConfig::Auto))
    );
    assert_eq!(
        g(vec![kw(Keyword::Tables), kw(Keyword::Exclude), id("a")]),
        Ok(graphql(shown(&["a"]), FunctionsConfig::Nothing))
    );
    assert_eq!(
        g(vec![kw(Keyword::Auto), kw(Keyword::Tables), kw(Keyword::Nothing), kw(Keyword::Functions), kw(Keyword::Include)]),
        Ok(graphql(TablesConfig::Nothing, FunctionsConfig::Auto))
    );
    assert_eq!(
        g(vec![kw(Keyword::Functions), kw(Keyword::Nothing), kw(Keyword::Tables), kw(Keyword::Auto)]),
        Ok(graphql(TablesConfig::Auto, FunctionsConfig::Nothing))
    );
    assert_eq!(g(vec![kw(Keyword::Tables)]), err(2, Expected::Selection));
    assert_eq!(g(vec![kw(Keyword::Functions), id("f")]), err(2, Expected::Selection));
    assert_eq!(g(vec![kw(Keyword::Tables), kw(Keyword::Include)]), err(3, Expected::TableConfig));
    assert_eq!(
        g(vec![kw(Keyword::Tables), kw(Keyword::Include), id("a"), TokenKind::Comma, kw(Keyword::Auto)]),
        err(5, Expected::TableConfig)
    );
}

#[test]
fn parse_define_config_knows_two_kinds() {
    let mut p = parser(vec![kw(Keyword::Overwrite), kw(Keyword::Api), id("x")]);
    assert_eq!(
        p.parse_define_config(),
        Ok(DefineConfigStatement { inner: ConfigInner::Api, if_not_exists: false, overwrite: true })
    );
    assert_eq!(p.position(), 2);
    let mut p = parser(vec![kw(Keyword::If), kw(Keyword::Not), kw(Keyword::Exists), kw(Keyword::Graphql), kw(Keyword::Auto)]);
    let mut want = graphql(TablesConfig::Auto, FunctionsConfig::Auto);
    want.if_not_exists = true;
    assert_eq!(p.parse_define_config(), Ok(want));
    assert_eq!(parser(vec![id("x")]).parse_define_config(), err(0, Expected::ConfigKind));
    assert_eq!(parser(vec![]).parse_define_config(), err(0, Expected::ConfigKind));
    assert_eq!(
        parser(vec![kw(Keyword::Config), kw(Keyword::Graphql)]).parse_define_stmt(),
        Ok(DefineStatement::Config(graphql(TablesConfig::Nothing, FunctionsConfig::Nothing)))
    );
    assert_eq!(parser(vec![kw(Keyword::Config), id("x")]).parse_define_stmt(), err(1, Expected::ConfigKind));
}
