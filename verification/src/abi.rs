//! Calls of contract functions in the binary interface of the Ethereum
//! virtual machine.
//!
//! Every parameter of the functions described here is an array of unknown
//! size, of unsigned integers or of booleans. The bytes of a call are produced
//! by the `ethabi` crate.

use crate::uint256::Uint256;
use vstd::prelude::*;

verus! {

/// What the elements of an array parameter are.
#[derive(Clone, Copy, Debug, PartialEq, Eq, Structural)]
pub enum ElementType {
    /// Unsigned integers of the given number of bits.
    Uint(usize),
    /// Booleans.
    Bool,
}

/// A parameter of a function: an array of unknown size.
#[derive(Clone, Debug, PartialEq, Eq)]
pub struct Param {
    /// The parameter's name.
    pub name: String,
    /// The type of the array's elements.
    pub element: ElementType,
}

/// The signature of a contract function.
#[derive(Clone, Debug, PartialEq, Eq)]
pub struct Function {
    /// The function's name.
    pub name: String,
    /// The parameters, in order.
    pub inputs: Vec<Param>,
}

/// An argument of a call: the elements of one array.
#[derive(Clone, Debug, PartialEq, Eq)]
pub enum Token {
    /// An array of unsigned integers.
    UintArray(Vec<Uint256>),
    /// An array of booleans.
    BoolArray(Vec<bool>),
}

/// What a `Token` holds, as mathematical values.
pub enum TokenView {
    UintArray(Seq<nat>),
    BoolArray(Seq<bool>),
}

impl View for Token {
    type V = TokenView;

    open spec fn view(&self) -> TokenView {
        match self {
            Token::UintArray(values) => TokenView::UintArray(uint_values(values@)),
            Token::BoolArray(values) => TokenView::BoolArray(values@),
        }
    }
}

/// The values of a sequence of 256-bit integers.
pub open spec fn uint_values(words: Seq<Uint256>) -> Seq<nat> {
    Seq::new(words.len(), |i: int| words[i]@)
}

/// The views of a sequence of tokens.
pub open spec fn token_views(tokens: Seq<Token>) -> Seq<TokenView> {
    Seq::new(tokens.len(), |i: int| tokens[i]@)
}

impl TokenView {
    /// The number of elements of the array.
    pub open spec fn len(self) -> nat {
        match self {
            TokenView::UintArray(values) => values.len(),
            TokenView::BoolArray(values) => values.len(),
        }
    }

    /// Whether the array's elements are of type `element`.
    pub open spec fn has_type(self, element: ElementType) -> bool {
        match self {
            TokenView::UintArray(_) => element is Uint,
            TokenView::BoolArray(_) => element is Bool,
        }
    }
}

/// Why no call can be encoded.
#[derive(Clone, Copy, Debug, PartialEq, Eq, Structural)]
pub enum EncodeError {
    /// The arguments are not of the parameters' types.
    InvalidData,
    /// The arguments take more bytes than can be encoded.
    TooLarge,
}

/// Whether `tokens` are arguments for parameters of the types `inputs`: as
/// many, and each of its parameter's type.
pub open spec fn tokens_match(inputs: Seq<ElementType>, tokens: Seq<TokenView>) -> bool {
    &&& inputs.len() == tokens.len()
    &&& forall|i: int| 0 <= i < tokens.len() ==> (#[trigger] tokens[i]).has_type(inputs[i])
}

/// The number of bytes that the arguments `tokens` take in a call, after the
/// selector: for each array one word for its offset, one for its length and
/// one for each element, a word being 32 bytes.
pub open spec fn encoded_size(tokens: Seq<TokenView>) -> nat
    decreases tokens.len(),
{
    if tokens.len() == 0 {
        0
    } else {
        encoded_size(tokens.drop_last()) + 64 + 32 * tokens.last().len()
    }
}

/// Whether arguments that take `size` bytes can be encoded: `ethabi` counts
/// the bytes in 32 bits, and sets aside a buffer of 32 times as many bytes,
/// which has to be one that a vector can hold.
pub open spec fn addressable(size: nat) -> bool {
    size <= u32::MAX && 32 * size <= isize::MAX
}

/// The first four bytes of a call of the function `name`, whose parameters
/// are arrays of the types `inputs`: what `ethabi::short_signature` returns
/// for them.
pub uninterp spec fn short_signature(name: Seq<char>, inputs: Seq<ElementType>) -> Seq<u8>;

/// The bytes that the arguments `tokens` take in a call: what
/// `ethabi::encode` returns for them.
pub uninterp spec fn encoded(tokens: Seq<TokenView>) -> Seq<u8>;

/// The bytes of a call of the function `name`, whose parameters are arrays of
/// the types `inputs`, with the arguments `tokens`: the selector of the
/// function, then the arguments.
pub open spec fn call_data(name: Seq<char>, inputs: Seq<ElementType>, tokens: Seq<TokenView>) -> Seq<
    u8,
> {
    short_signature(name, inputs) + encoded(tokens)
}

/// Calls `ethabi::short_signature` with the name given and with one
/// `ParamType::Array` for each element type.
///
/// Trusted: the four bytes returned are `short_signature` of the name and of
/// the element types.
#[verifier::external_body]
fn ethabi_short_signature(name: &str, inputs: &Vec<ElementType>) -> (selector: [u8; 4])
    ensures
        selector@ == short_signature(name@, inputs@),
{
    let kinds: Vec<ethabi::ParamType> = inputs.iter().map(|e| ethabi::ParamType::Array(Box::new(match e {
        ElementType::Uint(bits) => ethabi::ParamType::Uint(*bits),
        ElementType::Bool => ethabi::ParamType::Bool,
    }))).collect();
    ethabi::short_signature(name, &kinds)
}

/// Calls `ethabi::encode` with one `Token::Array` for each array given, of
/// `Token::Uint` or of `Token::Bool`.
///
/// Trusted: the bytes returned are `encoded` of the arrays. `ethabi` adds up
/// the bytes of the arguments in 32 bits and asks for a buffer of 32 times
/// their number: `requires` leaves out the arguments for which either would
/// fail.
#[verifier::external_body]
fn ethabi_encode(tokens: &Vec<Token>) -> (data: Vec<u8>)
    requires
        addressable(encoded_size(token_views(tokens@))),
    ensures
        data@ == encoded(token_views(tokens@)),
{
    let arguments: Vec<ethabi::Token> = tokens.iter().map(|t| ethabi::Token::Array(match t {
        Token::UintArray(v) => v.iter().map(|w| ethabi::Token::Uint(ethabi::Uint::from_big_endian(&w.bytes))).collect(),
        Token::BoolArray(v) => v.iter().map(|b| ethabi::Token::Bool(*b)).collect(),
    })).collect();
    ethabi::encode(&arguments)
}

impl Token {
    /// The number of elements of the array.
    pub fn len(&self) -> (n: usize)
        ensures
            n == self@.len(),
    {
        match self {
            Token::UintArray(values) => values.len(),
            Token::BoolArray(values) => values.len(),
        }
    }

    /// Whether the array's elements are of type `element`.
    pub fn has_type(&self, element: ElementType) -> (b: bool)
        ensures
            b == self@.has_type(element),
    {
        match self {
            Token::UintArray(_) => match element {
                ElementType::Uint(_) => true,
                ElementType::Bool => false,
            },
            Token::BoolArray(_) => match element {
                ElementType::Uint(_) => false,
                ElementType::Bool => true,
            },
        }
    }
}

/// The arguments before a position take no more bytes than all of them.
pub proof fn lemma_encoded_size_prefix(tokens: Seq<TokenView>, n: int)
    requires
        0 <= n <= tokens.len(),
    ensures
        encoded_size(tokens.take(n)) <= encoded_size(tokens),
    decreases tokens.len(),
{
    if n == tokens.len() {
        assert(tokens.take(n) =~= tokens);
    } else {
        lemma_encoded_size_prefix(tokens.drop_last(), n);
        assert(tokens.drop_last().take(n) =~= tokens.take(n));
    }
}

/// Whether the arrays `tokens` are small enough to be encoded.
pub fn is_addressable(tokens: &Vec<Token>) -> (fits: bool)
    ensures
        fits == (addressable(encoded_size(token_views(tokens@)))),
{
    let ghost views = token_views(tokens@);
    let mut total: u64 = 0;
    let mut i: usize = 0;
    while i < tokens.len()
        invariant
            0 <= i <= tokens.len(),
            views == token_views(tokens@),
            total == encoded_size(views.take(i as int)),
            addressable(total as nat),
        decreases tokens.len() - i,
    {
        let n: u64 = tokens[i].len() as u64;
        proof {
            assert(views.take(i + 1).drop_last() =~= views.take(i as int));
            assert(views.take(i + 1).last() == tokens[i as int]@);
            lemma_encoded_size_prefix(views, i + 1);
        }
        if n > 0x0800_0000 {
            return false;
        }
        total = total + 64 + 32 * n;
        if total > 0xffff_ffff || total > (isize::MAX as u64) / 32 {
            return false;
        }
        i = i + 1;
    }
    proof {
        assert(views.take(i as int) =~= views);
    }
    true
}

impl Function {
    /// The element types of the parameters, in order.
    pub open spec fn input_types(&self) -> Seq<ElementType> {
        Seq::new(self.inputs@.len(), |i: int| self.inputs@[i].element)
    }

    /// The names of the parameters, in order.
    pub open spec fn input_names(&self) -> Seq<Seq<char>> {
        Seq::new(self.inputs@.len(), |i: int| self.inputs@[i].name@)
    }

    /// Whether `tokens` are arguments for this function.
    pub fn accepts(&self, tokens: &Vec<Token>) -> (ok: bool)
        ensures
            ok == tokens_match(self.input_types(), token_views(tokens@)),
    {
        if self.inputs.len() != tokens.len() {
            return false;
        }
        let mut i: usize = 0;
        while i < tokens.len()
            invariant
                0 <= i <= tokens.len(),
                self.inputs.len() == tokens.len(),
                forall|j: int|
                    0 <= j < i ==> (#[trigger] token_views(tokens@)[j]).has_type(
                        self.input_types()[j],
                    ),
            decreases tokens.len() - i,
        {
            if !tokens[i].has_type(self.inputs[i].element) {
                assert(!token_views(tokens@)[i as int].has_type(self.input_types()[i as int]));
                return false;
            }
            i = i + 1;
        }
        true
    }

    /// Encodes a call of this function with the arguments `tokens`.
    pub fn encode_call(&self, tokens: &Vec<Token>) -> (data: Vec<u8>)
        requires
            tokens_match(self.input_types(), token_views(tokens@)),
            addressable(encoded_size(token_views(tokens@))),
        ensures
            data@ == call_data(self.name@, self.input_types(), token_views(tokens@)),
    {
        let mut types: Vec<ElementType> = Vec::new();
        let mut i: usize = 0;
        while i < self.inputs.len()
            invariant
                0 <= i <= self.inputs.len(),
                types@ == self.input_types().take(i as int),
            decreases self.inputs.len() - i,
        {
            types.push(self.inputs[i].element);
            assert(types@ =~= self.input_types().take(i + 1));
            i = i + 1;
        }
        assert(types@ =~= self.input_types());
        let selector = ethabi_short_signature(self.name.as_str(), &types);
        let mut arguments = ethabi_encode(tokens);
        let mut data: Vec<u8> = Vec::new();
        data.push(selector[0]);
        data.push(selector[1]);
        data.push(selector[2]);
        data.push(selector[3]);
        data.append(&mut arguments);
        assert(data@ =~= selector@ + encoded(token_views(tokens@)));
        data
    }

    /// Encodes a call of this function with the arguments `tokens`, where they
    /// are of the parameters' types and small enough to be encoded.
    pub fn encode_input(&self, tokens: &Vec<Token>) -> (r: Result<Vec<u8>, EncodeError>)
        ensures
            match r {
                Ok(data) => {
                    &&& tokens_match(self.input_types(), token_views(tokens@))
                    &&& addressable(encoded_size(token_views(tokens@)))
                    &&& data@ == call_data(self.name@, self.input_types(), token_views(tokens@))
                },
                Err(EncodeError::InvalidData) => !tokens_match(
                    self.input_types(),
                    token_views(tokens@),
                ),
                Err(EncodeError::TooLarge) => {
                    &&& tokens_match(self.input_types(), token_views(tokens@))
                    &&& !addressable(encoded_size(token_views(tokens@)))
                },
            },
    {
        if !self.accepts(tokens) {
            Err(EncodeError::InvalidData)
        } else if !is_addressable(tokens) {
            Err(EncodeError::TooLarge)
        } else {
            Ok(self.encode_call(tokens))
        }
    }
}

/// Encoding is deterministic: two calls of functions of one name and of the
/// same parameter types, with arguments that hold the same values in the same
/// order, have the same bytes.
pub proof fn lemma_call_data_deterministic(
    f: Function,
    s: Seq<Token>,
    g: Function,
    t: Seq<Token>,
)
    requires
        f.name@ == g.name@,
        f.input_types() == g.input_types(),
        s.len() == t.len(),
        forall|i: int| 0 <= i < s.len() ==> s[i]@ == t[i]@,
    ensures
        call_data(f.name@, f.input_types(), token_views(s)) == call_data(
            g.name@,
            g.input_types(),
            token_views(t),
        ),
{
    assert(token_views(s) =~= token_views(t));
}

} // verus!
