use yatima_core::address::{parse_cid, Cid, Multihash, Version, BLAKE2B_256, DAG_CBOR};
use yatima_core::codec::{cid, decode, encode};
use yatima_core::ipld::Value;

#[test]
fn encode_small_list() {
    let v = Value::List(vec![Value::Integer(1), Value::Bool(true), Value::Null]);
    assert_eq!(encode(&v), Ok(vec![0x83, 0x01, 0xf5, 0xf6]));
}

#[test]
fn decode_gives_back_what_encode_took() {
    let link = cid(&Value::String("source".to_string()));
    let v = Value::List(vec![
        Value::Integer(-7),
        Value::String("id".to_string()),
        Value::Bytes(vec![1, 2, 3]),
        Value::StringMap(vec![("a".to_string(), Value::Null)]),
        Value::Link(link),
    ]);
    let bytes = encode(&v).unwrap();
    assert_eq!(decode(&bytes), Ok(v));
}

#[test]
fn block_cid_is_v1_dag_cbor_blake2b() {
    let c = cid(&Value::Null);
    assert_eq!(c.version, Version::V1);
    assert_eq!(c.codec, DAG_CBOR);
    assert_eq!(c.hash.code, BLAKE2B_256);
    assert_eq!(c.hash.digest.len(), 32);
    let text = c.to_text().unwrap();
    assert!(text.starts_with("bafy2bza"));
    assert_eq!(parse_cid(&text), Some(c));
}

#[test]
fn encode_refuses_wide_integer_and_bad_link() {
    assert!(encode(&Value::Integer(1i128 << 64)).is_err());
    assert!(encode(&Value::Integer(-(1i128 << 64))).is_ok());
    assert!(encode(&Value::Integer(-(1i128 << 64) - 1)).is_err());
    let bad = Cid {
        version: Version::V0,
        codec: DAG_CBOR,
        hash: Multihash { code: BLAKE2B_256, digest: vec![0; 32] },
    };
    assert!(!bad.is_valid());
    assert!(encode(&Value::Link(bad)).is_err());
}

#[test]
fn decode_refuses_lengths_beyond_the_end() {
    let bad: Vec<Vec<u8>> = vec![
        vec![0x5b, 0xff, 0xff, 0xff, 0xff, 0xff, 0xff, 0xff, 0xff],
        vec![0x7b, 0x7f, 0xff, 0xff, 0xff, 0xff, 0xff, 0xff, 0xff],
        vec![0x9b, 0xff, 0xff, 0xff, 0xff, 0xff, 0xff, 0xff, 0xff],
        vec![0x9b, 0x00, 0x00, 0x00, 0x01, 0x00, 0x00, 0x00, 0x00],
        vec![0x5a, 0x00, 0x00, 0x00, 0x02, 0x00],
        vec![0x42, 0x01],
        vec![0x82, 0x01],
        vec![0x82, 0x01, 0x59, 0x10, 0x00, 0x00],
        vec![0x9f, 0x01, 0x5b, 0xff, 0xff, 0xff, 0xff, 0xff, 0xff, 0xff, 0xff],
        vec![0xa1, 0x61, 0x61, 0x9a, 0x00, 0x01, 0x00, 0x00],
        vec![0xa1, 0x7a, 0x00, 0x01, 0x00, 0x00, 0x61],
        vec![0xbf, 0x61, 0x61, 0x62, 0x61],
    ];
    for bytes in bad {
        assert_eq!(decode(&bytes), Err("length out of range".to_string()), "{:x?}", bytes);
    }
}

#[test]
fn decode_says_why_bytes_hold_no_value() {
    let broken: Vec<Vec<u8>> = vec![
        vec![],
        vec![0x18],
        vec![0x1c],
        vec![0xff],
        vec![0x9f, 0x01],
        vec![0xa1, 0x01, 0x01],
        vec![0xd8, 0x2a, 0x58, 0x00],
        vec![0xd8, 0x2b, 0x01],
        vec![0x61, 0xff],
        vec![0xfb, 0x3f, 0xf8, 0, 0, 0, 0, 0, 0],
    ];
    for bytes in broken {
        let why = decode(&bytes).unwrap_err();
        assert_ne!(why, "length out of range", "{:x?}", bytes);
        assert!(!why.is_empty());
    }
}

#[test]
fn decode_reads_every_kind_of_item() {
    assert_eq!(decode(&vec![0x00]), Ok(Value::Integer(0)));
    assert_eq!(decode(&vec![0x18, 0xff]), Ok(Value::Integer(255)));
    assert_eq!(decode(&vec![0x19, 0x01, 0x00]), Ok(Value::Integer(256)));
    assert_eq!(decode(&vec![0x1a, 0x00, 0x01, 0x00, 0x00]), Ok(Value::Integer(65536)));
    assert_eq!(
        decode(&vec![0x1b, 0xff, 0xff, 0xff, 0xff, 0xff, 0xff, 0xff, 0xff]),
        Ok(Value::Integer(u64::MAX as i128))
    );
    assert_eq!(decode(&vec![0x20]), Ok(Value::Integer(-1)));
    assert_eq!(
        decode(&vec![0x3b, 0xff, 0xff, 0xff, 0xff, 0xff, 0xff, 0xff, 0xff]),
        Ok(Value::Integer(-(1i128 << 64)))
    );
    assert_eq!(decode(&vec![0x42, 0x01, 0x02]), Ok(Value::Bytes(vec![1, 2])));
    assert_eq!(decode(&vec![0x58, 0x01, 0x07]), Ok(Value::Bytes(vec![7])));
    assert_eq!(decode(&vec![0x62, 0x68, 0x69]), Ok(Value::String("hi".to_string())));
    assert_eq!(decode(&vec![0x80]), Ok(Value::List(vec![])));
    assert_eq!(
        decode(&vec![0x9f, 0x01, 0x81, 0xf6, 0xff]),
        Ok(Value::List(vec![Value::Integer(1), Value::List(vec![Value::Null])]))
    );
    assert_eq!(
        decode(&vec![0xa2, 0x61, 0x62, 0x01, 0x61, 0x61, 0xf5]),
        Ok(Value::StringMap(vec![
            ("a".to_string(), Value::Bool(true)),
            ("b".to_string(), Value::Integer(1)),
        ]))
    );
    assert_eq!(
        decode(&vec![0xbf, 0x61, 0x61, 0xf4, 0xff]),
        Ok(Value::StringMap(vec![("a".to_string(), Value::Bool(false))]))
    );
    assert_eq!(decode(&vec![0xf6]), Ok(Value::Null));
    assert_eq!(decode(&vec![0xf7]), Ok(Value::Null));
    let link = cid(&Value::Null);
    let bytes = encode(&Value::Link(link.clone())).unwrap();
    assert_eq!(bytes[0], 0xd8);
    assert_eq!(decode(&bytes), Ok(Value::Link(link)));
}

#[test]
fn block_cid_of_known_bytes() {
    let null = cid(&Value::Null);
    assert_eq!(
        null.hash.digest,
        vec![
            0x01, 0xf4, 0xb7, 0x88, 0x59, 0x3d, 0x4f, 0x70, 0xde, 0x2a, 0x45, 0xc2, 0xe1, 0xe8, 0x70,
            0x88, 0xbf, 0xbd, 0xfa, 0x29, 0x57, 0x7a, 0xe1, 0xb6, 0x2a, 0xba, 0x60, 0xe0, 0x95, 0xe3,
            0xab, 0x53,
        ]
    );
    assert_eq!(
        null.to_text(),
        Some("bafy2bzaceaa7jn4ile6u64g6fjc4fypiocel7pp2fflxvynwfk5gbyev4ovvg".to_string())
    );
    let pair = cid(&Value::List(vec![Value::Integer(1), Value::String("a".to_string())]));
    assert_eq!(
        pair.to_text(),
        Some("bafy2bzaceamwqvxamjp5d5ir6syhpwa322fyxu4zckxj57cs67lsnf3hsmrrg".to_string())
    );
    assert_eq!(
        parse_cid("bafy2bzaceamwqvxamjp5d5ir6syhpwa322fyxu4zckxj57cs67lsnf3hsmrrg"),
        Some(pair)
    );
    assert_eq!(parse_cid("not a cid"), None);
    assert_eq!(parse_cid(""), None);
    let v0 = parse_cid("QmdfTbBqBPQ7VNxZEYEj14VmRuZBkqFbiwReogJgS1zR1n").unwrap();
    assert_eq!(v0.version, Version::V0);
    assert_eq!(v0.codec, 0x70);
    assert_eq!(v0.hash.code, 0x12);
    assert!(v0.is_valid());
    assert_eq!(
        v0.to_text(),
        Some("QmdfTbBqBPQ7VNxZEYEj14VmRuZBkqFbiwReogJgS1zR1n".to_string())
    );
}

#[test]
fn encode_wants_the_keys_of_maps_in_order() {
    let map = |keys: &[&str]| {
        Value::StringMap(keys.iter().map(|k| (k.to_string(), Value::Null)).collect())
    };
    assert!(map(&[]).is_ordered());
    assert!(map(&["a"]).is_ordered());
    assert!(map(&["a", "b", "ba", "c"]).is_ordered());
    assert!(map(&["", "a"]).is_ordered());
    assert!(map(&["Z", "a", "é", "λ"]).is_ordered());
    assert!(!map(&["b", "a"]).is_ordered());
    assert!(!map(&["a", "a"]).is_ordered());
    assert!(!map(&["a", "b", "b"]).is_ordered());
    assert!(!map(&["ab", "a"]).is_ordered());
    assert!(!map(&["λ", "é"]).is_ordered());
    assert_eq!(
        encode(&map(&["a", "b"])),
        Ok(vec![0xa2, 0x61, 0x61, 0xf6, 0x61, 0x62, 0xf6])
    );
    for bad in [map(&["b", "a"]), map(&["k", "k"])] {
        assert_eq!(encode(&bad), Err("map keys out of order".to_string()));
        assert_eq!(
            encode(&Value::List(vec![Value::Integer(1), bad.clone()])),
            Err("map keys out of order".to_string())
        );
        let inside = Value::StringMap(vec![("x".to_string(), bad)]);
        assert!(!inside.is_ordered());
        assert!(encode(&inside).is_err());
    }
    let twice = Value::StringMap(vec![
        ("k".to_string(), Value::Integer(1i128 << 78)),
        ("k".to_string(), Value::Null),
    ]);
    assert!(encode(&twice).is_err());
    let wide = Value::StringMap(vec![("k".to_string(), Value::Integer(1i128 << 78))]);
    assert!(wide.is_ordered());
    assert!(encode(&wide).is_err());
    let back = decode(&encode(&map(&["a", "b", "c"])).unwrap()).unwrap();
    assert!(back.is_ordered());
    assert_eq!(back, map(&["a", "b", "c"]));
}
