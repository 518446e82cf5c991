use vstd::prelude::*;
use crate::error::{SimError, TokenFault};
use crate::outcome::{valid_column, MAX_COLUMN, MIN_COLUMN};

verus! {

/// The tokens that `str::split_whitespace` cuts from a text.
pub uninterp spec fn whitespace_tokens(s: Seq<char>) -> Seq<Seq<char>>;

/// The value that `str::parse::<u32>` reads from a token, if any.
pub uninterp spec fn u32_of(s: Seq<char>) -> Option<u32>;

/// Relies on `str::split_whitespace`: the tokens are a function of the text.
#[verifier::external_body]
fn split_tokens(text: &str) -> (r: Vec<String>)
    ensures
        r@.map_values(|t: String| t@) == whitespace_tokens(text@),
{
    text.split_whitespace().map(|t| t.to_string()).collect()
}

/// Relies on `str::parse::<u32>`: the value read, or `None` where the token is
/// not an unsigned integer that fits in `u32`.
#[verifier::external_body]
fn parse_u32(token: &str) -> (r: Option<u32>)
    ensures
        r == u32_of(token@),
{
    token.parse::<u32>().ok()
}

/// A token names a column: it reads as an integer in 2..=12.
pub open spec fn token_ok(t: Seq<char>) -> bool {
    u32_of(t) is Some && valid_column(u32_of(t)->Some_0)
}

/// Every token names a column.
pub open spec fn all_tokens_ok(toks: Seq<Seq<char>>) -> bool {
    forall|i: int| 0 <= i < toks.len() ==> token_ok(#[trigger] toks[i])
}

/// `e` refuses the first token of `toks` that names no column.
pub open spec fn first_refusal(toks: Seq<Seq<char>>, e: SimError) -> bool {
    exists|i: int|
        0 <= i < toks.len() && !token_ok(#[trigger] toks[i]) && all_tokens_ok(toks.take(i))
            && refusal_of(toks[i], e)
}

/// `e` is the refusal of token `t`, with the reason that applies to it.
pub open spec fn refusal_of(t: Seq<char>, e: SimError) -> bool {
    match e {
        SimError::InvalidPatternToken { token, fault } => token@ == t && fault == if u32_of(
            t,
        ) is None {
            TokenFault::NotAnInteger
        } else {
            TokenFault::OutOfRange
        },
        _ => false,
    }
}

/// The verdict on `token`, given what it reads as (`parsed`): its column value,
/// or a refusal that quotes it.
pub fn validate_token(token: &String, parsed: Option<u32>) -> (r: Result<u32, SimError>)
    ensures
        match parsed {
            Some(v) => valid_column(v) ==> r == Ok::<u32, SimError>(v),
            None => true,
        },
        match r {
            Ok(v) => parsed == Some(v) && valid_column(v),
            Err(SimError::InvalidPatternToken { token: t, fault }) => t@ == token@ && (fault
                == TokenFault::NotAnInteger <==> parsed is None) && !(parsed is Some
                && valid_column(parsed->Some_0)),
            Err(_) => false,
        },
{
    match parsed {
        None => Err(SimError::InvalidPatternToken { token: token.clone(), fault: TokenFault::NotAnInteger }),
        Some(v) => {
            if MIN_COLUMN <= v && v <= MAX_COLUMN {
                Ok(v)
            } else {
                Err(SimError::InvalidPatternToken { token: token.clone(), fault: TokenFault::OutOfRange })
            }
        },
    }
}

/// Reads a pattern written as whitespace-separated column values. The first
/// token that is not an integer in 2..=12 is refused and quoted.
pub fn parse_pattern(text: &str) -> (r: Result<Vec<u32>, SimError>)
    ensures
        r is Ok <==> all_tokens_ok(whitespace_tokens(text@)),
        r is Ok ==> r->Ok_0@ == whitespace_tokens(text@).map_values(
            |t: Seq<char>| u32_of(t)->Some_0,
        ),
        r is Err ==> first_refusal(whitespace_tokens(text@), r->Err_0),
{
    let tokens = split_tokens(text);
    let ghost toks = whitespace_tokens(text@);
    assert(tokens@.len() == toks.len());
    let mut values: Vec<u32> = Vec::new();
    let mut i: usize = 0;
    while i < tokens.len()
        invariant
            i <= tokens@.len(),
            toks == whitespace_tokens(text@),
            tokens@.map_values(|t: String| t@) == toks,
            values@.len() == i,
            forall|k: int| 0 <= k < i ==> token_ok(#[trigger] toks[k]),
            forall|k: int| 0 <= k < i ==> Some(#[trigger] values@[k]) == u32_of(toks[k]),
        decreases tokens@.len() - i,
    {
        assert(toks[i as int] == tokens@[i as int]@);
        let parsed = parse_u32(tokens[i].as_str());
        match validate_token(&tokens[i], parsed) {
            Ok(v) => values.push(v),
            Err(e) => {
                assert(refusal_of(toks[i as int], e));
                assert(!token_ok(toks[i as int]));
                assert(all_tokens_ok(toks.take(i as int)));
                assert(first_refusal(toks, e));
                return Err(e);
            },
        }
        i = i + 1;
    }
    assert(values@ =~= toks.map_values(|t: Seq<char>| u32_of(t)->Some_0));
    Ok(values)
}

/// Number of playable three-column combinations in the built-in table.
pub const BUILTIN_PATTERN_COUNT: usize = 29;

/// The playable three-column combinations.
pub open spec fn builtin_table() -> Seq<Seq<u32>> {
    seq![
        seq![6u32, 7, 8],
        seq![5u32, 6, 7],
        seq![5u32, 6, 8],
        seq![5u32, 6, 9],
        seq![4u32, 6, 7],
        seq![4u32, 6, 8],
        seq![4u32, 5, 7],
        seq![4u32, 5, 6],
        seq![4u32, 5, 9],
        seq![3u32, 6, 7],
        seq![3u32, 6, 8],
        seq![3u32, 5, 7],
        seq![3u32, 5, 6],
        seq![3u32, 4, 7],
        seq![3u32, 4, 6],
        seq![3u32, 4, 5],
        seq![3u32, 4, 10],
        seq![2u32, 6, 7],
        seq![2u32, 6, 8],
        seq![2u32, 5, 7],
        seq![2u32, 5, 6],
        seq![2u32, 4, 7],
        seq![2u32, 4, 6],
        seq![2u32, 4, 5],
        seq![2u32, 4, 10],
        seq![2u32, 3, 7],
        seq![2u32, 3, 6],
        seq![2u32, 3, 5],
        seq![2u32, 3, 4],
    ]
}

fn triple(a: u32, b: u32, c: u32) -> (r: Vec<u32>)
    ensures
        r@ == seq![a, b, c],
{
    let mut v: Vec<u32> = Vec::new();
    v.push(a);
    v.push(b);
    v.push(c);
    assert(v@ =~= seq![a, b, c]);
    v
}

/// The built-in table of playable three-column combinations.
pub fn builtin_patterns() -> (r: Vec<Vec<u32>>)
    ensures
        r@.len() == BUILTIN_PATTERN_COUNT,
        r@.map_values(|p: Vec<u32>| p@) == builtin_table(),
{
    let mut table: Vec<Vec<u32>> = Vec::new();
    table.push(triple(6, 7, 8));
    table.push(triple(5, 6, 7));
    table.push(triple(5, 6, 8));
    table.push(triple(5, 6, 9));
    table.push(triple(4, 6, 7));
    table.push(triple(4, 6, 8));
    table.push(triple(4, 5, 7));
    table.push(triple(4, 5, 6));
    table.push(triple(4, 5, 9));
    table.push(triple(3, 6, 7));
    table.push(triple(3, 6, 8));
    table.push(triple(3, 5, 7));
    table.push(triple(3, 5, 6));
    table.push(triple(3, 4, 7));
    table.push(triple(3, 4, 6));
    table.push(triple(3, 4, 5));
    table.push(triple(3, 4, 10));
    table.push(triple(2, 6, 7));
    table.push(triple(2, 6, 8));
    table.push(triple(2, 5, 7));
    table.push(triple(2, 5, 6));
    table.push(triple(2, 4, 7));
    table.push(triple(2, 4, 6));
    table.push(triple(2, 4, 5));
    table.push(triple(2, 4, 10));
    table.push(triple(2, 3, 7));
    table.push(triple(2, 3, 6));
    table.push(triple(2, 3, 5));
    table.push(triple(2, 3, 4));
    assert(table@.map_values(|p: Vec<u32>| p@) =~= builtin_table());
    table
}

} // verus!
