use limit_order_bot::abi::{is_addressable, ElementType, EncodeError, Function, Param, Token};
use limit_order_bot::encoder::{
    deposits_function, encode_deposits, encode_flagged, encode_ids, flagged_function, ids_function,
    is_batch_fitting, widen,
};
use limit_order_bot::msg::Deposit;
use limit_order_bot::uint256::Uint256;

fn function(name: &str, elements: &[ElementType]) -> Function {
    Function {
        name: name.to_string(),
        inputs: elements
            .iter()
            .map(|element| Param { name: "values".to_string(), element: *element })
            .collect(),
    }
}

fn hex(text: &str) -> Vec<u8> {
    let digits: Vec<u8> = text
        .chars()
        .filter(|c| !c.is_whitespace())
        .map(|c| c.to_digit(16).unwrap() as u8)
        .collect();
    digits.chunks(2).map(|pair| pair[0] * 16 + pair[1]).collect()
}

#[test]
fn encodes_three_parallel_arrays() {
    let deposits: Vec<Deposit> = (0u32..3)
        .map(|deposit_id| Deposit { deposit_id, min_amount0: Uint256::zero(), withdraw_type: 0 })
        .collect();
    let expected = hex(
        "0be45000
         0000000000000000000000000000000000000000000000000000000000000060
         00000000000000000000000000000000000000000000000000000000000000e0
         0000000000000000000000000000000000000000000000000000000000000160
         0000000000000000000000000000000000000000000000000000000000000003
         0000000000000000000000000000000000000000000000000000000000000000
         0000000000000000000000000000000000000000000000000000000000000001
         0000000000000000000000000000000000000000000000000000000000000002
         0000000000000000000000000000000000000000000000000000000000000003
         0000000000000000000000000000000000000000000000000000000000000000
         0000000000000000000000000000000000000000000000000000000000000000
         0000000000000000000000000000000000000000000000000000000000000000
         0000000000000000000000000000000000000000000000000000000000000003
         0000000000000000000000000000000000000000000000000000000000000000
         0000000000000000000000000000000000000000000000000000000000000000
         0000000000000000000000000000000000000000000000000000000000000000",
    );
    assert_eq!(encode_deposits(&deposits), expected);
}

#[test]
fn encodes_one_array_of_ids() {
    let expected = hex(
        "94ba423c
         0000000000000000000000000000000000000000000000000000000000000020
         0000000000000000000000000000000000000000000000000000000000000002
         0000000000000000000000000000000000000000000000000000000001020304
         00000000000000000000000000000000000000000000000000000000ffffffff",
    );
    assert_eq!(encode_ids(&vec![0x0102_0304, u32::MAX]), expected);
}

#[test]
fn encodes_ids_with_flags() {
    let expected = hex(
        "e5fa26d9
         0000000000000000000000000000000000000000000000000000000000000040
         00000000000000000000000000000000000000000000000000000000000000a0
         0000000000000000000000000000000000000000000000000000000000000002
         0000000000000000000000000000000000000000000000000000000000000007
         0000000000000000000000000000000000000000000000000000000000000008
         0000000000000000000000000000000000000000000000000000000000000002
         0000000000000000000000000000000000000000000000000000000000000001
         0000000000000000000000000000000000000000000000000000000000000000",
    );
    assert_eq!(encode_flagged(&vec![7, 8], &vec![true, false]), expected);
}

#[test]
fn encodes_empty_arrays() {
    let expected = hex(
        "94ba423c
         0000000000000000000000000000000000000000000000000000000000000020
         0000000000000000000000000000000000000000000000000000000000000000",
    );
    assert_eq!(encode_ids(&vec![]), expected);
}

#[test]
fn encoding_is_deterministic() {
    let deposits = vec![
        Deposit { deposit_id: 5, min_amount0: Uint256::from_u32(77), withdraw_type: 1 },
        Deposit { deposit_id: 3, min_amount0: Uint256::from_u32(12), withdraw_type: 2 },
    ];
    let first = encode_deposits(&deposits);
    let second = encode_deposits(&deposits.clone());
    assert_eq!(first, second);
    assert_eq!(encode_ids(&vec![1, 2, 3]), encode_ids(&vec![1, 2, 3]));
    assert_ne!(encode_ids(&vec![1, 2, 3]), encode_ids(&vec![1, 3, 2]));
}

#[test]
fn selector_depends_on_name_and_types() {
    let tokens = vec![Token::UintArray(vec![])];
    let f = function("f", &[ElementType::Uint(8)]).encode_input(&tokens).unwrap();
    assert_eq!(f[..4], [0xcb, 0xdb, 0x45, 0x26]);
    let wide = function("multiple_withdraw", &[ElementType::Uint(256)])
        .encode_input(&tokens)
        .unwrap();
    assert_eq!(wide[..4], [0x94, 0xba, 0x42, 0x3c]);
    assert_eq!(f[4..], wide[4..]);
    let g = function("g", &[ElementType::Bool])
        .encode_input(&vec![Token::BoolArray(vec![true])])
        .unwrap();
    assert_eq!(
        g,
        hex(
            "afceb390
             0000000000000000000000000000000000000000000000000000000000000020
             0000000000000000000000000000000000000000000000000000000000000001
             0000000000000000000000000000000000000000000000000000000000000001"
        )
    );
}

#[test]
fn encode_input_matches_encode_call() {
    let tokens = vec![Token::UintArray(widen(&vec![4, 5])), Token::BoolArray(vec![false, true])];
    let function = flagged_function();
    assert!(function.accepts(&tokens));
    assert_eq!(function.encode_input(&tokens), Ok(function.encode_call(&tokens)));
    assert_eq!(function.encode_call(&tokens), encode_flagged(&vec![4, 5], &vec![false, true]));
}

#[test]
fn wrong_argument_types_are_invalid_data() {
    let function = flagged_function();
    let swapped = vec![Token::BoolArray(vec![true]), Token::UintArray(widen(&vec![1]))];
    assert!(!function.accepts(&swapped));
    assert_eq!(function.encode_input(&swapped), Err(EncodeError::InvalidData));
    let short = vec![Token::UintArray(widen(&vec![1]))];
    assert_eq!(function.encode_input(&short), Err(EncodeError::InvalidData));
    let long = vec![
        Token::UintArray(vec![]),
        Token::BoolArray(vec![]),
        Token::BoolArray(vec![]),
    ];
    assert_eq!(function.encode_input(&long), Err(EncodeError::InvalidData));
    assert_eq!(
        ids_function().encode_input(&vec![Token::BoolArray(vec![])]),
        Err(EncodeError::InvalidData)
    );
}

#[test]
fn oversized_arguments_are_too_large() {
    let tokens = vec![Token::BoolArray(vec![false; 134_217_727])];
    assert!(!is_addressable(&tokens));
    assert_eq!(
        function("g", &[ElementType::Bool]).encode_input(&tokens),
        Err(EncodeError::TooLarge)
    );
    assert!(is_addressable(&vec![Token::BoolArray(vec![false; 1000])]));
}

#[test]
fn signatures_name_their_parameters() {
    let names = |f: &Function| f.inputs.iter().map(|p| p.name.clone()).collect::<Vec<String>>();
    let types = |f: &Function| f.inputs.iter().map(|p| p.element).collect::<Vec<ElementType>>();
    let ids = ids_function();
    assert_eq!(ids.name, "multiple_withdraw");
    assert_eq!(names(&ids), vec!["deposit_ids"]);
    assert_eq!(types(&ids), vec![ElementType::Uint(256)]);
    let deposits = deposits_function();
    assert_eq!(deposits.name, "multiple_withdraw");
    assert_eq!(names(&deposits), vec!["deposit_ids", "min_amounts0", "withdraw_types"]);
    assert_eq!(types(&deposits), vec![ElementType::Uint(256); 3]);
    let flagged = flagged_function();
    assert_eq!(flagged.name, "multiple_withdraw");
    assert_eq!(names(&flagged), vec!["deposit_ids", "profit_taking_or_stop_loss"]);
    assert_eq!(types(&flagged), vec![ElementType::Uint(256), ElementType::Bool]);
}

#[test]
fn token_reports_length_and_type() {
    let uints = Token::UintArray(widen(&vec![1, 2, 3]));
    let bools = Token::BoolArray(vec![true]);
    assert_eq!(uints.len(), 3);
    assert_eq!(bools.len(), 1);
    assert!(uints.has_type(ElementType::Uint(256)));
    assert!(uints.has_type(ElementType::Uint(8)));
    assert!(!uints.has_type(ElementType::Bool));
    assert!(bools.has_type(ElementType::Bool));
    assert!(!bools.has_type(ElementType::Uint(256)));
}

#[test]
fn batch_limits_are_exact() {
    assert!(is_batch_fitting(1, 134_217_725));
    assert!(!is_batch_fitting(1, 134_217_726));
    assert!(is_batch_fitting(2, 67_108_861));
    assert!(!is_batch_fitting(2, 67_108_862));
    assert!(is_batch_fitting(3, 44_739_240));
    assert!(!is_batch_fitting(3, 44_739_241));
    assert!(is_batch_fitting(3, 0));
    assert!(is_batch_fitting(0, usize::MAX));
    assert!(!is_batch_fitting(1, usize::MAX));
}
