//! The batch encoder: the accepted attempts of a batch become the bytes of
//! one call of `multiple_withdraw`, whose parameters are parallel arrays.
//! Every number is widened to 256 bits, and the arrays keep the order of the
//! attempts.

use crate::abi::{
    addressable, call_data, encoded_size, token_views, uint_values, ElementType, Function, Param,
    Token, TokenView,
};
use crate::msg::Deposit;
use crate::uint256::Uint256;
use vstd::prelude::*;

verus! {

/// The name of the function that is called.
pub open spec fn function_name() -> Seq<char> {
    "multiple_withdraw"@
}

/// The values of a list of 32-bit numbers.
pub open spec fn widened(values: Seq<u32>) -> Seq<nat> {
    Seq::new(values.len(), |i: int| values[i] as nat)
}

/// Whether a call with `arrays` arrays of `attempts` elements each is small
/// enough to be encoded.
pub open spec fn batch_fits(arrays: nat, attempts: nat) -> bool {
    addressable(arrays * (64 + 32 * attempts))
}

/// Decides whether a call with `arrays` arrays of `attempts` elements each is
/// small enough to be encoded.
pub fn is_batch_fitting(arrays: u8, attempts: usize) -> (fits: bool)
    ensures
        fits == batch_fits(arrays as nat, attempts as nat),
{
    if attempts > 0x0800_0000 {
        assert(arrays * (64 + 32 * attempts) >= arrays * 0x1_0000_0040) by (nonlinear_arith)
            requires
                attempts > 0x0800_0000,
                arrays >= 0,
        ;
        return arrays == 0;
    }
    let each: u64 = 64 + 32 * (attempts as u64);
    assert(arrays * each <= 255 * each) by (nonlinear_arith)
        requires
            0 <= arrays <= 255,
            each >= 0,
    ;
    let size: u64 = (arrays as u64) * each;
    size <= 0xffff_ffff && size <= (isize::MAX as u64) / 32
}

/// The parameter types of a call for attempts that name a deposit and
/// nothing else.
pub open spec fn id_inputs() -> Seq<ElementType> {
    seq![ElementType::Uint(256)]
}

/// The arguments of a call for attempts on the deposits `ids`.
pub open spec fn id_tokens(ids: Seq<u32>) -> Seq<TokenView> {
    seq![TokenView::UintArray(widened(ids))]
}

/// The bytes of a call for attempts on the deposits `ids`.
pub open spec fn id_payload(ids: Seq<u32>) -> Seq<u8> {
    call_data(function_name(), id_inputs(), id_tokens(ids))
}

/// The parameter types of a call for attempts with a least amount and a
/// withdraw type.
pub open spec fn deposit_inputs() -> Seq<ElementType> {
    seq![ElementType::Uint(256), ElementType::Uint(256), ElementType::Uint(256)]
}

/// The arguments of a call for the attempts `deposits`: their deposit ids,
/// their least amounts and their withdraw types.
pub open spec fn deposit_tokens(deposits: Seq<Deposit>) -> Seq<TokenView> {
    seq![
        TokenView::UintArray(Seq::new(deposits.len(), |i: int| deposits[i].deposit_id as nat)),
        TokenView::UintArray(Seq::new(deposits.len(), |i: int| deposits[i].min_amount0@)),
        TokenView::UintArray(Seq::new(deposits.len(), |i: int| deposits[i].withdraw_type as nat)),
    ]
}

/// The bytes of a call for the attempts `deposits`.
pub open spec fn deposit_payload(deposits: Seq<Deposit>) -> Seq<u8> {
    call_data(function_name(), deposit_inputs(), deposit_tokens(deposits))
}

/// The parameter types of a call for attempts with a flag.
pub open spec fn flagged_inputs() -> Seq<ElementType> {
    seq![ElementType::Uint(256), ElementType::Bool]
}

/// The arguments of a call for attempts on the deposits `ids` with the flags
/// `flags`.
pub open spec fn flagged_tokens(ids: Seq<u32>, flags: Seq<bool>) -> Seq<TokenView> {
    seq![TokenView::UintArray(widened(ids)), TokenView::BoolArray(flags)]
}

/// The bytes of a call for attempts on the deposits `ids` with the flags
/// `flags`.
pub open spec fn flagged_payload(ids: Seq<u32>, flags: Seq<bool>) -> Seq<u8> {
    call_data(function_name(), flagged_inputs(), flagged_tokens(ids, flags))
}

/// Arrays of one length take the same number of bytes each.
pub proof fn lemma_encoded_size_uniform(tokens: Seq<TokenView>, n: nat)
    requires
        forall|i: int| 0 <= i < tokens.len() ==> (#[trigger] tokens[i]).len() == n,
    ensures
        encoded_size(tokens) == tokens.len() * (64 + 32 * n),
    decreases tokens.len(),
{
    if tokens.len() > 0 {
        lemma_encoded_size_uniform(tokens.drop_last(), n);
        let k = tokens.len() as int;
        let c = (64 + 32 * n) as int;
        assert((k - 1) * c + c == k * c) by (nonlinear_arith);
    }
}

/// Widens each number of a list to 256 bits.
pub fn widen(values: &Vec<u32>) -> (words: Vec<Uint256>)
    ensures
        uint_values(words@) == widened(values@),
{
    let mut words: Vec<Uint256> = Vec::new();
    let mut i: usize = 0;
    while i < values.len()
        invariant
            0 <= i <= values.len(),
            uint_values(words@) == widened(values@).take(i as int),
        decreases values.len() - i,
    {
        let ghost earlier = words@;
        words.push(Uint256::from_u32(values[i]));
        assert(uint_values(words@) =~= uint_values(earlier).push(values[i as int] as nat));
        assert(uint_values(words@) =~= widened(values@).take(i + 1));
        i = i + 1;
    }
    assert(uint_values(words@) =~= widened(values@));
    words
}

/// The signature of `multiple_withdraw` for attempts that name a deposit and
/// nothing else.
pub fn ids_function() -> (f: Function)
    ensures
        f.name@ == function_name(),
        f.input_types() == id_inputs(),
        f.input_names() == seq!["deposit_ids"@],
{
    let f = Function {
        name: "multiple_withdraw".to_owned(),
        inputs: vec![Param { name: "deposit_ids".to_owned(), element: ElementType::Uint(256) }],
    };
    assert(f.input_types() =~= id_inputs());
    assert(f.input_names() =~= seq!["deposit_ids"@]);
    f
}

/// The signature of `multiple_withdraw` for attempts with a least amount and
/// a withdraw type.
pub fn deposits_function() -> (f: Function)
    ensures
        f.name@ == function_name(),
        f.input_types() == deposit_inputs(),
        f.input_names() == seq!["deposit_ids"@, "min_amounts0"@, "withdraw_types"@],
{
    let f = Function {
        name: "multiple_withdraw".to_owned(),
        inputs: vec![
            Param { name: "deposit_ids".to_owned(), element: ElementType::Uint(256) },
            Param { name: "min_amounts0".to_owned(), element: ElementType::Uint(256) },
            Param { name: "withdraw_types".to_owned(), element: ElementType::Uint(256) },
        ],
    };
    assert(f.input_types() =~= deposit_inputs());
    assert(f.input_names() =~= seq!["deposit_ids"@, "min_amounts0"@, "withdraw_types"@]);
    f
}

/// The signature of `multiple_withdraw` for attempts with a flag.
pub fn flagged_function() -> (f: Function)
    ensures
        f.name@ == function_name(),
        f.input_types() == flagged_inputs(),
        f.input_names() == seq!["deposit_ids"@, "profit_taking_or_stop_loss"@],
{
    let f = Function {
        name: "multiple_withdraw".to_owned(),
        inputs: vec![
            Param { name: "deposit_ids".to_owned(), element: ElementType::Uint(256) },
            Param { name: "profit_taking_or_stop_loss".to_owned(), element: ElementType::Bool },
        ],
    };
    assert(f.input_types() =~= flagged_inputs());
    assert(f.input_names() =~= seq!["deposit_ids"@, "profit_taking_or_stop_loss"@]);
    f
}

/// Encodes the call for accepted attempts on the deposits `ids`.
pub fn encode_ids(ids: &Vec<u32>) -> (payload: Vec<u8>)
    requires
        batch_fits(1, ids.len() as nat),
    ensures
        payload@ == id_payload(ids@),
{
    let tokens: Vec<Token> = vec![Token::UintArray(widen(ids))];
    let function = ids_function();
    proof {
        assert(token_views(tokens@) =~= id_tokens(ids@));
        lemma_encoded_size_uniform(id_tokens(ids@), ids.len() as nat);
    }
    function.encode_call(&tokens)
}

/// Encodes the call for the accepted attempts `deposits`.
pub fn encode_deposits(deposits: &Vec<Deposit>) -> (payload: Vec<u8>)
    requires
        batch_fits(3, deposits.len() as nat),
    ensures
        payload@ == deposit_payload(deposits@),
{
    let mut ids: Vec<Uint256> = Vec::new();
    let mut amounts: Vec<Uint256> = Vec::new();
    let mut types: Vec<Uint256> = Vec::new();
    let mut i: usize = 0;
    while i < deposits.len()
        invariant
            0 <= i <= deposits.len(),
            uint_values(ids@) == Seq::new(i as nat, |j: int| deposits[j].deposit_id as nat),
            uint_values(amounts@) == Seq::new(i as nat, |j: int| deposits[j].min_amount0@),
            uint_values(types@) == Seq::new(i as nat, |j: int| deposits[j].withdraw_type as nat),
        decreases deposits.len() - i,
    {
        let ghost earlier = (ids@, amounts@, types@);
        let deposit = &deposits[i];
        ids.push(Uint256::from_u32(deposit.deposit_id));
        amounts.push(deposit.min_amount0);
        types.push(Uint256::from_u32(deposit.withdraw_type));
        assert(uint_values(ids@) =~= uint_values(earlier.0).push(deposit.deposit_id as nat));
        assert(uint_values(amounts@) =~= uint_values(earlier.1).push(deposit.min_amount0@));
        assert(uint_values(types@) =~= uint_values(earlier.2).push(deposit.withdraw_type as nat));
        assert(uint_values(ids@) =~= Seq::new((i + 1) as nat, |j: int| deposits[j].deposit_id as nat));
        assert(uint_values(amounts@) =~= Seq::new((i + 1) as nat, |j: int| deposits[j].min_amount0@));
        assert(uint_values(types@) =~= Seq::new(
            (i + 1) as nat,
            |j: int| deposits[j].withdraw_type as nat,
        ));
        i = i + 1;
    }
    let tokens: Vec<Token> = vec![
        Token::UintArray(ids),
        Token::UintArray(amounts),
        Token::UintArray(types),
    ];
    let function = deposits_function();
    proof {
        assert(token_views(tokens@) =~= deposit_tokens(deposits@));
        lemma_encoded_size_uniform(deposit_tokens(deposits@), deposits.len() as nat);
    }
    function.encode_call(&tokens)
}

/// Encodes the call for accepted attempts on the deposits `ids` with the
/// flags `flags`.
pub fn encode_flagged(ids: &Vec<u32>, flags: &Vec<bool>) -> (payload: Vec<u8>)
    requires
        ids.len() == flags.len(),
        batch_fits(2, ids.len() as nat),
    ensures
        payload@ == flagged_payload(ids@, flags@),
{
    let tokens: Vec<Token> = vec![Token::UintArray(widen(ids)), Token::BoolArray(flags.clone())];
    let function = flagged_function();
    proof {
        assert(token_views(tokens@) =~= flagged_tokens(ids@, flags@));
        lemma_encoded_size_uniform(flagged_tokens(ids@, flags@), ids.len() as nat);
    }
    function.encode_call(&tokens)
}

/// Encoding is deterministic: two lists of accepted attempts that hold the
/// same values in the same order have the same payload.
pub proof fn lemma_deposit_payload_deterministic(a: Seq<Deposit>, b: Seq<Deposit>)
    requires
        a.len() == b.len(),
        forall|i: int|
            0 <= i < a.len() ==> {
                &&& a[i].deposit_id == b[i].deposit_id
                &&& a[i].min_amount0@ == b[i].min_amount0@
                &&& a[i].withdraw_type == b[i].withdraw_type
            },
    ensures
        deposit_payload(a) == deposit_payload(b),
{
    assert(deposit_tokens(a)[0]->UintArray_0 =~= deposit_tokens(b)[0]->UintArray_0);
    assert(deposit_tokens(a)[1]->UintArray_0 =~= deposit_tokens(b)[1]->UintArray_0);
    assert(deposit_tokens(a)[2]->UintArray_0 =~= deposit_tokens(b)[2]->UintArray_0);
    assert(deposit_tokens(a) =~= deposit_tokens(b));
}

} // verus!
