//! Decoder and registry behaviour, including round trips.

use brontes::{
    encode_v2, encode_v3, try_decode_v2, try_decode_v3, Address, DecodeError, DecodedCall,
    ProtocolRegistry, StaticBindings, StaticReturnBindings, SushiSwapV2_Enum, UniswapV2Calls,
    UniswapV2_Enum, UniswapV3Calls, UniswapV3_Enum,
};

fn addr(n: u64) -> Address {
    Address::from_low(n)
}

#[test]
fn v2_swap_roundtrip() {
    let call = UniswapV2Calls::Swap {
        amount0_out: 1_000_000,
        amount1_out: 0,
        to: addr(77),
    };
    let bytes = encode_v2(&call);
    assert_eq!(bytes.len(), 100);
    assert_eq!(try_decode_v2(&bytes), Ok(call));
}

#[test]
fn v2_mint_and_burn_roundtrip() {
    let mint = UniswapV2Calls::Mint { to: addr(5) };
    let burn = UniswapV2Calls::Burn { to: addr(6) };
    assert_eq!(try_decode_v2(&encode_v2(&mint)), Ok(mint));
    assert_eq!(try_decode_v2(&encode_v2(&burn)), Ok(burn));
}

#[test]
fn v3_swap_roundtrip_negative_amount() {
    let call = UniswapV3Calls::Swap {
        recipient: addr(9),
        zero_for_one: true,
        amount_specified: -123_456,
    };
    assert_eq!(try_decode_v3(&encode_v3(&call)), Ok(call));
}

#[test]
fn v3_mint_roundtrip_negative_ticks() {
    let call = UniswapV3Calls::Mint {
        recipient: addr(9),
        tick_lower: -887_220,
        tick_upper: 887_220,
        amount: 42,
    };
    assert_eq!(try_decode_v3(&encode_v3(&call)), Ok(call));
}

#[test]
fn v3_burn_and_collect_roundtrip() {
    let burn = UniswapV3Calls::Burn {
        tick_lower: -60,
        tick_upper: 60,
        amount: 500,
    };
    let collect = UniswapV3Calls::Collect {
        recipient: addr(4),
        tick_lower: -60,
        tick_upper: 60,
        amount0: 7,
        amount1: 8,
    };
    assert_eq!(try_decode_v3(&encode_v3(&burn)), Ok(burn));
    assert_eq!(try_decode_v3(&encode_v3(&collect)), Ok(collect));
}

#[test]
fn static_bindings_roundtrip_all_protocols() {
    let v2 = StaticReturnBindings::UniswapV2(UniswapV2Calls::Mint { to: addr(1) });
    let sushi = StaticReturnBindings::SushiSwapV2(UniswapV2Calls::Mint { to: addr(1) });
    let v3 = StaticReturnBindings::UniswapV3(UniswapV3Calls::Burn {
        tick_lower: 0,
        tick_upper: 10,
        amount: 3,
    });
    let b2 = StaticBindings::UniswapV2(UniswapV2_Enum::Table);
    let bs = StaticBindings::SushiSwapV2(SushiSwapV2_Enum::Table);
    let b3 = StaticBindings::UniswapV3(UniswapV3_Enum::Table);
    assert_eq!(b2.try_decode(&v2.encode()), Ok(v2));
    assert_eq!(bs.try_decode(&sushi.encode()), Ok(sushi));
    assert_eq!(b3.try_decode(&v3.encode()), Ok(v3));
}

#[test]
fn too_short_payload() {
    let b = StaticBindings::UniswapV2(UniswapV2_Enum::Table);
    assert_eq!(b.try_decode(&vec![0x02, 0x2c]), Err(DecodeError::TooShort));
}

#[test]
fn unknown_selector() {
    let b = StaticBindings::UniswapV2(UniswapV2_Enum::Table);
    assert_eq!(
        b.try_decode(&vec![0xde, 0xad, 0xbe, 0xef]),
        Err(DecodeError::UnknownSelector)
    );
}

#[test]
fn truncated_payload_is_malformed() {
    let call = UniswapV2Calls::Swap {
        amount0_out: 5,
        amount1_out: 6,
        to: addr(7),
    };
    let mut bytes = encode_v2(&call);
    bytes.truncate(60);
    assert_eq!(try_decode_v2(&bytes), Err(DecodeError::Malformed));
}

#[test]
fn dirty_padding_is_malformed() {
    let call = UniswapV2Calls::Mint { to: addr(7) };
    let mut bytes = encode_v2(&call);
    // scribble into the zero padding of the address word
    bytes[6] = 0xff;
    assert_eq!(try_decode_v2(&bytes), Err(DecodeError::Malformed));
}

#[test]
fn registry_lookup_and_filter() {
    let mut reg = ProtocolRegistry::new();
    let pool = addr(100);
    reg.register(pool, StaticBindings::UniswapV2(UniswapV2_Enum::Table));
    assert!(reg.is_protocol_address(&pool));
    assert!(!reg.is_protocol_address(&addr(101)));
    assert_eq!(
        reg.lookup(&pool),
        Some(StaticBindings::UniswapV2(UniswapV2_Enum::Table))
    );
}

#[test]
fn registry_decode_call_outcomes() {
    let mut reg = ProtocolRegistry::new();
    let pool = addr(100);
    reg.register(pool, StaticBindings::UniswapV2(UniswapV2_Enum::Table));
    let call = UniswapV2Calls::Mint { to: addr(7) };
    let bytes = encode_v2(&call);
    // known address, good payload
    assert_eq!(
        reg.decode_call(&pool, &bytes),
        DecodedCall::Known(StaticReturnBindings::UniswapV2(call))
    );
    // unknown address: explicit unrecognized, never an error
    assert_eq!(reg.decode_call(&addr(55), &bytes), DecodedCall::Unrecognized);
    // known address, unknown selector: unrecognized for this frame only
    assert_eq!(
        reg.decode_call(&pool, &vec![9, 9, 9, 9]),
        DecodedCall::Unrecognized
    );
    // known address, malformed payload: contained, unrecognized
    let mut bad = encode_v2(&call);
    bad.truncate(20);
    assert_eq!(reg.decode_call(&pool, &bad), DecodedCall::Unrecognized);
}
