//! Targeting expressions: their grammar and their meaning over a caller's
//! attributes.
//!
//! An expression is one term, or `AND(expression, expression, ...)`, which
//! holds when each of its expressions holds. A term is
//! `IN(field, value, ...)`, which holds when the attribute `field` is present
//! and equals one of the values, or `EQ(field, value)`, which is `IN` with one
//! value. A value is a bare word or a text between double quotes. White space
//! between tokens carries no meaning. A text without a token is the
//! expression that always holds. Anything else is malformed.

use vstd::prelude::*;
use crate::core_qualification_dto::attributes;
use crate::string_map::StringMap;
use crate::text::{chars_of, matches_chars};

verus! {

/// A token of an expression. A word and a quoted text are kept as the range
/// of characters they cover, the quotes left out.
#[derive(Clone, Copy, Debug, PartialEq, Eq, Structural)]
pub enum Token {
    Open,
    Close,
    Comma,
    Word { start: usize, end: usize },
    Quoted { start: usize, end: usize },
}

/// Where the scanner stands between two characters.
#[derive(Clone, Copy, Debug, PartialEq, Eq, Structural)]
pub enum ScanMode {
    Between,
    Word { start: usize },
    Quoted { start: usize },
}

pub open spec fn is_space(c: char) -> bool {
    c == ' ' || c == '\t' || c == '\n' || c == '\r'
}

pub open spec fn punctuation(c: char) -> Option<Token> {
    if c == '(' {
        Some(Token::Open)
    } else if c == ')' {
        Some(Token::Close)
    } else if c == ',' {
        Some(Token::Comma)
    } else {
        None
    }
}

/// Whether `c` cannot be part of a bare word.
pub open spec fn ends_word(c: char) -> bool {
    is_space(c) || c == '"' || punctuation(c) is Some
}

/// The scanner's step on character `c` at place `at`, outside any word.
pub open spec fn step_between(tokens: Seq<Token>, c: char, at: usize) -> (Seq<Token>, ScanMode) {
    if is_space(c) {
        (tokens, ScanMode::Between)
    } else if c == '"' {
        (tokens, ScanMode::Quoted { start: (at + 1) as usize })
    } else {
        match punctuation(c) {
            Some(t) => (tokens.push(t), ScanMode::Between),
            None => (tokens, ScanMode::Word { start: at }),
        }
    }
}

/// The scanner's step on character `c` at place `at`.
pub open spec fn scan_step(state: (Seq<Token>, ScanMode), c: char, at: usize) -> (
    Seq<Token>,
    ScanMode,
) {
    match state.1 {
        ScanMode::Quoted { start } => if c == '"' {
            (state.0.push(Token::Quoted { start, end: at }), ScanMode::Between)
        } else {
            state
        },
        ScanMode::Word { start } => if ends_word(c) {
            step_between(state.0.push(Token::Word { start, end: at }), c, at)
        } else {
            state
        },
        ScanMode::Between => step_between(state.0, c, at),
    }
}

/// The scanner's state after the first `n` characters of `text`.
pub open spec fn scan_prefix(text: Seq<char>, n: nat) -> (Seq<Token>, ScanMode)
    decreases n,
{
    if n == 0 {
        (Seq::empty(), ScanMode::Between)
    } else {
        scan_step(scan_prefix(text, (n - 1) as nat), text[n - 1], (n - 1) as usize)
    }
}

/// The tokens of `text`, or `None` where a quoted text is left open.
pub open spec fn tokens_of(text: Seq<char>) -> Option<Seq<Token>> {
    let state = scan_prefix(text, text.len());
    match state.1 {
        ScanMode::Between => Some(state.0),
        ScanMode::Word { start } => Some(
            state.0.push(Token::Word { start, end: text.len() as usize }),
        ),
        ScanMode::Quoted { .. } => None,
    }
}

/// Whether the range of a token lies within the first `n` characters.
pub open spec fn token_within(token: Token, n: int) -> bool {
    match token {
        Token::Word { start, end } => start <= end <= n,
        Token::Quoted { start, end } => start <= end <= n,
        _ => true,
    }
}

pub open spec fn tokens_within(tokens: Seq<Token>, n: int) -> bool {
    forall|k: int| 0 <= k < tokens.len() ==> token_within(#[trigger] tokens[k], n)
}

/// The text of a word or of a quoted text.
pub open spec fn value_of(text: Seq<char>, token: Token) -> Option<Seq<char>> {
    match token {
        Token::Word { start, end } => Some(text.subrange(start as int, end as int)),
        Token::Quoted { start, end } => Some(text.subrange(start as int, end as int)),
        _ => None,
    }
}

/// Whether `token` is the bare word `word`.
pub open spec fn is_word(text: Seq<char>, token: Token, word: Seq<char>) -> bool {
    token matches Token::Word { start, end } && text.subrange(start as int, end as int) == word
}

pub open spec fn keyword_and() -> Seq<char> {
    seq!['A', 'N', 'D']
}

pub open spec fn keyword_in() -> Seq<char> {
    seq!['I', 'N']
}

pub open spec fn keyword_eq() -> Seq<char> {
    seq!['E', 'Q']
}

/// The view of a `Term`: the attribute it reads and the values it accepts.
pub struct TermView {
    pub field: Seq<char>,
    pub values: Seq<Seq<char>>,
}

pub open spec fn prepend<T>(front: Seq<T>, rest: Option<(Seq<T>, int)>) -> Option<(Seq<T>, int)> {
    match rest {
        Some((items, next)) => Some((front + items, next)),
        None => None,
    }
}

/// Reads `value (, value)* )` from token `at` on: the values, and the place
/// after the closing bracket.
pub open spec fn parse_values(text: Seq<char>, tokens: Seq<Token>, at: int) -> Option<
    (Seq<Seq<char>>, int),
>
    decreases tokens.len() - at,
{
    if at < 0 || at + 1 >= tokens.len() {
        None
    } else {
        match value_of(text, tokens[at]) {
            None => None,
            Some(value) => match tokens[at + 1] {
                Token::Close => Some((seq![value], at + 2)),
                Token::Comma => prepend(seq![value], parse_values(text, tokens, at + 2)),
                _ => None,
            },
        }
    }
}

/// Reads one term from token `at` on: the term, and the place after it.
pub open spec fn parse_term(text: Seq<char>, tokens: Seq<Token>, at: int) -> Option<
    (TermView, int),
> {
    if at < 0 || at + 3 >= tokens.len() {
        None
    } else if !(tokens[at + 1] is Open && tokens[at + 2] is Word && tokens[at + 3] is Comma) {
        None
    } else if is_word(text, tokens[at], keyword_in()) || is_word(text, tokens[at], keyword_eq()) {
        match parse_values(text, tokens, at + 4) {
            Some((values, next)) => if is_word(text, tokens[at], keyword_eq()) && values.len()
                != 1 {
                None
            } else {
                Some((TermView { field: value_of(text, tokens[at + 2])->0, values }, next))
            },
            None => None,
        }
    } else {
        None
    }
}

pub proof fn lemma_parse_values_advances(text: Seq<char>, tokens: Seq<Token>, at: int)
    ensures
        parse_values(text, tokens, at) matches Some((values, next)) ==> at + 2 <= next
            <= tokens.len() && values.len() >= 1,
    decreases tokens.len() - at,
{
    if at >= 0 && at + 1 < tokens.len() {
        lemma_parse_values_advances(text, tokens, at + 2);
    }
}

pub proof fn lemma_parse_term_advances(text: Seq<char>, tokens: Seq<Token>, at: int)
    ensures
        parse_term(text, tokens, at) matches Some((term, next)) ==> at + 6 <= next <= tokens.len(),
{
    lemma_parse_values_advances(text, tokens, at + 4);
}

/// Reads one expression from token `at` on: a term, or `AND(` and what
/// `parse_items` reads after it. Gives the terms of the expression, all of
/// which must hold, and the place after it.
pub open spec fn parse_one(text: Seq<char>, tokens: Seq<Token>, at: int) -> Option<
    (Seq<TermView>, int),
>
    decreases tokens.len() - at, 0int,
{
    if at < 0 {
        None
    } else if at + 1 < tokens.len() && is_word(text, tokens[at], keyword_and()) && tokens[at + 1]
        is Open {
        parse_items(text, tokens, at + 2)
    } else {
        match parse_term(text, tokens, at) {
            Some((term, next)) => Some((seq![term], next)),
            None => None,
        }
    }
}

/// Reads `expression (, expression)* )` from token `at` on: the terms of
/// all the expressions, and the place after the closing bracket.
pub open spec fn parse_items(text: Seq<char>, tokens: Seq<Token>, at: int) -> Option<
    (Seq<TermView>, int),
>
    decreases tokens.len() - at, 1int,
{
    match parse_one(text, tokens, at) {
        None => None,
        Some((terms, next)) => {
            // An expression takes up tokens (`lemma_expression_advances`);
            // the first test is there for the recursion to be well founded.
            if next <= at || next >= tokens.len() {
                None
            } else {
                match tokens[next] {
                    Token::Close => Some((terms, next + 1)),
                    Token::Comma => prepend(terms, parse_items(text, tokens, next + 1)),
                    _ => None,
                }
            }
        },
    }
}

/// The terms that the tokens spell, all of which must hold; `None` where the
/// tokens are not one expression. No token at all is the expression without
/// a term, which holds of any attributes.
pub open spec fn parse_tokens(text: Seq<char>, tokens: Seq<Token>) -> Option<Seq<TermView>> {
    if tokens.len() == 0 {
        Some(Seq::empty())
    } else {
        match parse_one(text, tokens, 0) {
            Some((terms, next)) => if next == tokens.len() {
                Some(terms)
            } else {
                None
            },
            None => None,
        }
    }
}

/// An expression that is read takes up tokens, and ends within them.
pub proof fn lemma_expression_advances(text: Seq<char>, tokens: Seq<Token>, at: int)
    ensures
        parse_one(text, tokens, at) matches Some((terms, next)) ==> at < next <= tokens.len(),
    decreases tokens.len() - at, 0int,
{
    if at >= 0 {
        if at + 1 < tokens.len() && is_word(text, tokens[at], keyword_and()) && tokens[at + 1]
            is Open {
            lemma_items_advance(text, tokens, at + 2);
        } else {
            lemma_parse_term_advances(text, tokens, at);
        }
    }
}

/// The expressions of a conjunction take up tokens, and end within them.
pub proof fn lemma_items_advance(text: Seq<char>, tokens: Seq<Token>, at: int)
    ensures
        parse_items(text, tokens, at) matches Some((terms, next)) ==> at < next <= tokens.len(),
    decreases tokens.len() - at, 1int,
{
    lemma_expression_advances(text, tokens, at);
    match parse_one(text, tokens, at) {
        Some((terms, next)) => {
            if at < next < tokens.len() && tokens[next] is Comma {
                lemma_items_advance(text, tokens, next + 1);
            }
        },
        None => {},
    }
}

/// The same reading as `parse_tokens`, token by token: from token `at` on,
/// inside `depth` open conjunctions and with `terms` read so far. Where
/// `item_next` holds, a term or the opening `AND(` of a conjunction is due.
/// Else an expression has just ended: a comma asks for the next one, a
/// closing bracket ends the conjunction, and outside any conjunction the
/// tokens must be at their end. `lemma_walk_follows_grammar` ties it to the
/// grammar.
pub open spec fn parse_from(
    text: Seq<char>,
    tokens: Seq<Token>,
    at: int,
    depth: nat,
    item_next: bool,
    terms: Seq<TermView>,
) -> Option<Seq<TermView>>
    decreases tokens.len() - at,
{
    if at < 0 {
        None
    } else if item_next {
        if at + 1 < tokens.len() && is_word(text, tokens[at], keyword_and()) && tokens[at + 1]
            is Open {
            parse_from(text, tokens, at + 2, depth + 1, true, terms)
        } else {
            match parse_term(text, tokens, at) {
                Some((term, next)) => {
                    proof {
                        lemma_parse_term_advances(text, tokens, at);
                    }
                    parse_from(text, tokens, next, depth, false, terms.push(term))
                },
                None => None,
            }
        }
    } else if depth == 0 {
        if at == tokens.len() {
            Some(terms)
        } else {
            None
        }
    } else if at >= tokens.len() {
        None
    } else {
        match tokens[at] {
            Token::Comma => parse_from(text, tokens, at + 1, depth, true, terms),
            Token::Close => parse_from(text, tokens, at + 1, (depth - 1) as nat, false, terms),
            _ => None,
        }
    }
}

/// What the reading token by token makes of one expression: where an
/// expression is due, it goes on behind the expression that the grammar
/// reads, with that expression's terms added.
pub open spec fn walk_after(
    text: Seq<char>,
    tokens: Seq<Token>,
    depth: nat,
    terms: Seq<TermView>,
    read: Option<(Seq<TermView>, int)>,
) -> Option<Seq<TermView>> {
    match read {
        Some((more, next)) => parse_from(text, tokens, next, depth, false, terms + more),
        None => None,
    }
}

proof fn lemma_walk_one(
    text: Seq<char>,
    tokens: Seq<Token>,
    at: int,
    depth: nat,
    terms: Seq<TermView>,
)
    requires
        0 <= at,
    ensures
        parse_from(text, tokens, at, depth, true, terms) == walk_after(
            text,
            tokens,
            depth,
            terms,
            parse_one(text, tokens, at),
        ),
    decreases tokens.len() - at, 0int,
{
    if at + 1 < tokens.len() && is_word(text, tokens[at], keyword_and()) && tokens[at + 1]
        is Open {
        lemma_walk_items(text, tokens, at + 2, depth, terms);
    } else {
        match parse_term(text, tokens, at) {
            Some((term, next)) => {
                assert(terms.push(term) =~= terms + seq![term]);
            },
            None => {},
        }
    }
}

proof fn lemma_walk_items(
    text: Seq<char>,
    tokens: Seq<Token>,
    at: int,
    depth: nat,
    terms: Seq<TermView>,
)
    requires
        0 <= at,
    ensures
        parse_from(text, tokens, at, depth + 1, true, terms) == walk_after(
            text,
            tokens,
            depth,
            terms,
            parse_items(text, tokens, at),
        ),
    decreases tokens.len() - at, 1int,
{
    lemma_walk_one(text, tokens, at, depth + 1, terms);
    lemma_expression_advances(text, tokens, at);
    match parse_one(text, tokens, at) {
        Some((first, next)) => {
            if next < tokens.len() && tokens[next] is Comma {
                lemma_walk_items(text, tokens, next + 1, depth, terms + first);
                match parse_items(text, tokens, next + 1) {
                    Some((rest, end)) => {
                        assert((terms + first) + rest =~= terms + (first + rest));
                    },
                    None => {},
                }
            }
        },
        None => {},
    }
}

/// The reading token by token gives what the grammar gives.
pub proof fn lemma_walk_follows_grammar(text: Seq<char>, tokens: Seq<Token>)
    requires
        tokens.len() > 0,
    ensures
        parse_from(text, tokens, 0, 0, true, Seq::empty()) == parse_tokens(text, tokens),
{
    lemma_walk_one(text, tokens, 0, 0, Seq::empty());
    match parse_one(text, tokens, 0) {
        Some((terms, next)) => {
            assert(Seq::<TermView>::empty() + terms =~= terms);
        },
        None => {},
    }
}

/// The terms of the expression written as `text`; `None` where `text` is
/// malformed.
pub open spec fn parse_expression(text: Seq<char>) -> Option<Seq<TermView>> {
    match tokens_of(text) {
        Some(tokens) => parse_tokens(text, tokens),
        None => None,
    }
}

/// Whether a term holds of the attributes: the attribute it reads is present
/// and equals one of its values.
pub open spec fn term_holds(term: TermView, attrs: Map<Seq<char>, Seq<char>>) -> bool {
    attrs.contains_key(term.field) && term.values.contains(attrs[term.field])
}

/// Whether every term holds of the attributes.
pub open spec fn all_hold(terms: Seq<TermView>, attrs: Map<Seq<char>, Seq<char>>) -> bool {
    forall|i: int| 0 <= i < terms.len() ==> term_holds(#[trigger] terms[i], attrs)
}

/// What the expression written as `text` says of the attributes; `None` where
/// `text` is malformed.
pub open spec fn evaluation(text: Seq<char>, attrs: Map<Seq<char>, Seq<char>>) -> Option<bool> {
    match parse_expression(text) {
        Some(terms) => Some(all_hold(terms, attrs)),
        None => None,
    }
}

/// The views of a list of texts.
pub open spec fn char_seqs(list: Seq<Vec<char>>) -> Seq<Seq<char>> {
    list.map_values(|v: Vec<char>| v@)
}

/// One condition on one attribute.
#[derive(Debug, PartialEq)]
pub struct Term {
    pub field: Vec<char>,
    pub values: Vec<Vec<char>>,
}

impl View for Term {
    type V = TermView;

    open spec fn view(&self) -> TermView {
        TermView { field: self.field@, values: char_seqs(self.values@) }
    }
}

/// A parsed expression: the terms, all of which must hold.
#[derive(Debug, PartialEq)]
pub struct Expression {
    pub terms: Vec<Term>,
}

impl View for Expression {
    type V = Seq<TermView>;

    open spec fn view(&self) -> Seq<TermView> {
        self.terms@.map_values(|t: Term| t@)
    }
}

fn is_space_char(c: char) -> (r: bool)
    ensures
        r == is_space(c),
{
    c == ' ' || c == '\t' || c == '\n' || c == '\r'
}

fn punctuation_of(c: char) -> (r: Option<Token>)
    ensures
        r == punctuation(c),
{
    if c == '(' {
        Some(Token::Open)
    } else if c == ')' {
        Some(Token::Close)
    } else if c == ',' {
        Some(Token::Comma)
    } else {
        None
    }
}

fn scan_between(tokens: &mut Vec<Token>, c: char, at: usize) -> (mode: ScanMode)
    requires
        at < usize::MAX,
        tokens_within(old(tokens)@, at as int),
    ensures
        (final(tokens)@, mode) == step_between(old(tokens)@, c, at),
        tokens_within(final(tokens)@, at + 1),
        mode matches ScanMode::Word { start } ==> start <= at + 1,
        mode matches ScanMode::Quoted { start } ==> start <= at + 1,
{
    if is_space_char(c) {
        ScanMode::Between
    } else if c == '"' {
        ScanMode::Quoted { start: at + 1 }
    } else {
        match punctuation_of(c) {
            Some(t) => {
                tokens.push(t);
                ScanMode::Between
            },
            None => ScanMode::Word { start: at },
        }
    }
}

/// The tokens of `chars`, or `None` where a quoted text is left open.
pub fn scan(chars: &Vec<char>) -> (r: Option<Vec<Token>>)
    ensures
        match r {
            Some(tokens) => tokens_of(chars@) == Some(tokens@) && tokens_within(
                tokens@,
                chars@.len() as int,
            ),
            None => tokens_of(chars@) is None,
        },
{
    let mut tokens: Vec<Token> = Vec::new();
    let mut mode = ScanMode::Between;
    let mut i: usize = 0;
    while i < chars.len()
        invariant
            i <= chars.len(),
            (tokens@, mode) == scan_prefix(chars@, i as nat),
            tokens_within(tokens@, i as int),
            mode matches ScanMode::Word { start } ==> start <= i,
            mode matches ScanMode::Quoted { start } ==> start <= i,
        decreases chars.len() - i,
    {
        let c = chars[i];
        match mode {
            ScanMode::Quoted { start } => {
                if c == '"' {
                    tokens.push(Token::Quoted { start, end: i });
                    mode = ScanMode::Between;
                }
            },
            ScanMode::Word { start } => {
                let closes = is_space_char(c) || c == '"' || punctuation_of(c).is_some();
                if closes {
                    tokens.push(Token::Word { start, end: i });
                    mode = scan_between(&mut tokens, c, i);
                }
            },
            ScanMode::Between => {
                mode = scan_between(&mut tokens, c, i);
            },
        }
        i = i + 1;
    }
    match mode {
        ScanMode::Between => Some(tokens),
        ScanMode::Word { start } => {
            tokens.push(Token::Word { start, end: i });
            Some(tokens)
        },
        ScanMode::Quoted { .. } => None,
    }
}

fn copy_range(chars: &Vec<char>, start: usize, end: usize) -> (r: Vec<char>)
    requires
        start <= end <= chars.len(),
    ensures
        r@ == chars@.subrange(start as int, end as int),
{
    let mut r: Vec<char> = Vec::new();
    let mut i: usize = start;
    while i < end
        invariant
            start <= i <= end <= chars.len(),
            r@ == chars@.subrange(start as int, i as int),
        decreases end - i,
    {
        r.push(chars[i]);
        proof {
            assert(chars@.subrange(start as int, i + 1) =~= chars@.subrange(
                start as int,
                i as int,
            ).push(chars@[i as int]));
        }
        i = i + 1;
    }
    r
}

fn token_value(chars: &Vec<char>, token: Token) -> (r: Option<Vec<char>>)
    requires
        token_within(token, chars@.len() as int),
    ensures
        match r {
            Some(v) => value_of(chars@, token) == Some(v@),
            None => value_of(chars@, token) is None,
        },
{
    match token {
        Token::Word { start, end } => Some(copy_range(chars, start, end)),
        Token::Quoted { start, end } => Some(copy_range(chars, start, end)),
        _ => None,
    }
}

fn token_is_word(chars: &Vec<char>, token: Token, word: &Vec<char>) -> (r: bool)
    requires
        token_within(token, chars@.len() as int),
    ensures
        r == is_word(chars@, token, word@),
{
    match token {
        Token::Word { start, end } => {
            if end - start != word.len() {
                return false;
            }
            let mut i: usize = 0;
            while i < word.len()
                invariant
                    token == (Token::Word { start, end }),
                    start <= end <= chars.len(),
                    end - start == word.len(),
                    i <= word.len(),
                    chars@.subrange(start as int, start + i) == word@.take(i as int),
                decreases word.len() - i,
            {
                if chars[start + i] != word[i] {
                    proof {
                        let covered = chars@.subrange(start as int, end as int);
                        assert(covered[i as int] != word@[i as int]);
                    }
                    return false;
                }
                proof {
                    assert(word@.take(i + 1) =~= word@.take(i as int).push(word@[i as int]));
                }
                i = i + 1;
            }
            proof {
                assert(word@.take(i as int) =~= word@);
            }
            true
        },
        _ => false,
    }
}

fn read_values(chars: &Vec<char>, tokens: &Vec<Token>, at: usize) -> (r: Option<
    (Vec<Vec<char>>, usize),
>)
    requires
        tokens_within(tokens@, chars@.len() as int),
    ensures
        match r {
            Some((values, next)) => parse_values(chars@, tokens@, at as int) == Some(
                (char_seqs(values@), next as int),
            ),
            None => parse_values(chars@, tokens@, at as int) is None,
        },
{
    let mut values: Vec<Vec<char>> = Vec::new();
    let mut i: usize = at;
    loop
        invariant
            tokens_within(tokens@, chars@.len() as int),
            parse_values(chars@, tokens@, at as int) == prepend(
                char_seqs(values@),
                parse_values(chars@, tokens@, i as int),
            ),
        decreases tokens.len() - i,
    {
        if i >= tokens.len() || tokens.len() - i < 2 {
            return None;
        }
        let value = match token_value(chars, tokens[i]) {
            Some(v) => v,
            None => {
                return None;
            },
        };
        let ghost before = char_seqs(values@);
        values.push(value);
        proof {
            assert(char_seqs(values@) =~= before + seq![value@]);
        }
        match tokens[i + 1] {
            Token::Close => {
                return Some((values, i + 2));
            },
            Token::Comma => {
                proof {
                    let rest = parse_values(chars@, tokens@, i + 2);
                    if rest is Some {
                        assert(before + (seq![value@] + rest.unwrap().0) =~= char_seqs(values@)
                            + rest.unwrap().0);
                    }
                }
                i = i + 2;
            },
            _ => {
                return None;
            },
        }
    }
}

fn read_term(chars: &Vec<char>, tokens: &Vec<Token>, at: usize) -> (r: Option<(Term, usize)>)
    requires
        tokens_within(tokens@, chars@.len() as int),
    ensures
        match r {
            Some((term, next)) => parse_term(chars@, tokens@, at as int) == Some(
                (term@, next as int),
            ),
            None => parse_term(chars@, tokens@, at as int) is None,
        },
{
    if at >= tokens.len() || tokens.len() - at < 4 {
        return None;
    }
    let field = match (tokens[at + 1], tokens[at + 2], tokens[at + 3]) {
        (Token::Open, Token::Word { start, end }, Token::Comma) => copy_range(chars, start, end),
        _ => {
            return None;
        },
    };
    let in_word: Vec<char> = vec!['I', 'N'];
    let eq_word: Vec<char> = vec!['E', 'Q'];
    let is_in = token_is_word(chars, tokens[at], &in_word);
    let is_eq = token_is_word(chars, tokens[at], &eq_word);
    if !is_in && !is_eq {
        return None;
    }
    match read_values(chars, tokens, at + 4) {
        Some((values, next)) => {
            if is_eq && values.len() != 1 {
                None
            } else {
                Some((Term { field, values }, next))
            }
        },
        None => None,
    }
}

impl Term {
    /// Whether the term holds of the attributes.
    pub fn holds(&self, attrs: &StringMap<String>) -> (r: bool)
        ensures
            r == term_holds(self@, attributes(attrs@)),
    {
        match attrs.get_chars(&self.field) {
            None => false,
            Some(found) => {
                let mut i: usize = 0;
                while i < self.values.len()
                    invariant
                        i <= self.values.len(),
                        attributes(attrs@).contains_key(self.field@),
                        attributes(attrs@)[self.field@] == found@,
                        forall|j: int| 0 <= j < i ==> char_seqs(self.values@)[j] != found@,
                    decreases self.values.len() - i,
                {
                    if matches_chars(found.as_str(), &self.values[i]) {
                        assert(char_seqs(self.values@)[i as int] == found@);
                        return true;
                    }
                    i = i + 1;
                }
                false
            },
        }
    }
}

impl Expression {
    /// The expression written as `text`; `None` where `text` is malformed.
    pub fn parse(text: &str) -> (r: Option<Expression>)
        ensures
            match r {
                Some(e) => parse_expression(text@) == Some(e@),
                None => parse_expression(text@) is None,
            },
    {
        let chars = chars_of(text);
        let tokens = match scan(&chars) {
            Some(tokens) => tokens,
            None => {
                return None;
            },
        };
        let mut terms: Vec<Term> = Vec::new();
        assert(terms@.map_values(|t: Term| t@) =~= Seq::empty());
        if tokens.len() == 0 {
            return Some(Expression { terms });
        }
        proof {
            lemma_walk_follows_grammar(chars@, tokens@);
        }
        let and_word: Vec<char> = vec!['A', 'N', 'D'];
        let mut at: usize = 0;
        let mut depth: usize = 0;
        let mut item_next: bool = true;
        loop
            invariant
                and_word@ == keyword_and(),
                tokens_within(tokens@, chars@.len() as int),
                at <= tokens.len(),
                depth <= at,
                parse_expression(text@) == parse_from(
                    chars@,
                    tokens@,
                    at as int,
                    depth as nat,
                    item_next,
                    terms@.map_values(|t: Term| t@),
                ),
            decreases tokens.len() - at,
        {
            if item_next {
                let opens = tokens.len() - at >= 2 && token_is_word(&chars, tokens[at], &and_word)
                    && matches!(tokens[at + 1], Token::Open);
                if opens {
                    at = at + 2;
                    depth = depth + 1;
                } else {
                    let (term, next) = match read_term(&chars, &tokens, at) {
                        Some(found) => found,
                        None => {
                            return None;
                        },
                    };
                    proof {
                        lemma_parse_term_advances(chars@, tokens@, at as int);
                    }
                    let ghost before = terms@.map_values(|t: Term| t@);
                    let ghost item = term@;
                    terms.push(term);
                    proof {
                        assert(terms@.map_values(|t: Term| t@) =~= before.push(item));
                    }
                    at = next;
                    item_next = false;
                }
            } else if depth == 0 {
                if at == tokens.len() {
                    return Some(Expression { terms });
                } else {
                    return None;
                }
            } else if at >= tokens.len() {
                return None;
            } else {
                match tokens[at] {
                    Token::Comma => {
                        item_next = true;
                    },
                    Token::Close => {
                        depth = depth - 1;
                    },
                    _ => {
                        return None;
                    },
                }
                at = at + 1;
            }
        }
    }

    /// Whether every term holds of the attributes.
    pub fn holds(&self, attrs: &StringMap<String>) -> (r: bool)
        ensures
            r == all_hold(self@, attributes(attrs@)),
    {
        let mut i: usize = 0;
        while i < self.terms.len()
            invariant
                i <= self.terms.len(),
                forall|j: int| 0 <= j < i ==> term_holds(#[trigger] self@[j], attributes(attrs@)),
            decreases self.terms.len() - i,
        {
            if !self.terms[i].holds(attrs) {
                assert(!term_holds(self@[i as int], attributes(attrs@)));
                return false;
            }
            i = i + 1;
        }
        true
    }
}

/// What the expression written as `text` says of the attributes; `None` where
/// `text` is malformed.
pub fn evaluate(text: &str, attrs: &StringMap<String>) -> (r: Option<bool>)
    ensures
        r == evaluation(text@, attributes(attrs@)),
{
    match Expression::parse(text) {
        Some(e) => Some(e.holds(attrs)),
        None => None,
    }
}

} // verus!
