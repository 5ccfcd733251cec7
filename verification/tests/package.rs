use yatima_core::address::{Cid, Multihash, Version, BLAKE2B_256, DAG_CBOR};
use yatima_core::codec;
use yatima_core::error::IpldError;
use yatima_core::ipld::Value;
use yatima_core::meta::Meta;
use yatima_core::package::{import_alias, Entry, Import, Index, Package};
use yatima_core::position::{Pos, Position};

fn block(text: &str) -> Cid {
    codec::cid(&Value::String(text.to_string()))
}

fn pos(from: u64, upto: u64) -> Pos {
    Pos(Some(Position { input: block("source text"), from_offset: from, upto_offset: upto }))
}

fn leaf(p: Pos) -> Meta {
    Meta { pos: p, name: None, link: None, children: vec![] }
}

fn binder(p: Pos, name: &str, children: Vec<Meta>) -> Meta {
    Meta { pos: p, name: Some(name.to_string()), link: None, children }
}

fn id_meta() -> Meta {
    binder(
        pos(0, 20),
        "A",
        vec![binder(
            pos(5, 20),
            "x",
            vec![Meta {
                pos: pos(19, 20),
                name: Some("x".to_string()),
                link: None,
                children: vec![],
            }],
        )],
    )
}

fn id_entry() -> Entry {
    Entry {
        pos: pos(0, 40),
        type_anon: block("type of id"),
        term_anon: block("term of id"),
        type_meta: binder(pos(0, 10), "A", vec![leaf(Pos(None)), leaf(pos(3, 4))]),
        term_meta: id_meta(),
    }
}

fn id_package() -> Package {
    Package {
        pos: pos(0, 60),
        name: "id".to_string(),
        imports: vec![Import {
            cid: block("package bool"),
            name: "bool".to_string(),
            alias: "B".to_string(),
            with: vec!["True".to_string(), "False".to_string()],
        }],
        index: Index(vec![("id".to_string(), id_entry().cid())]),
    }
}

#[test]
fn pos_forms() {
    assert_eq!(Pos(None).to_ipld(), Value::List(vec![]));
    assert_eq!(
        pos(3, 9).to_ipld(),
        Value::List(vec![Value::Integer(3), Value::Integer(9), Value::Link(block("source text"))])
    );
    assert_eq!(Pos::from_ipld(&Pos(None).to_ipld()), Ok(Pos(None)));
    assert_eq!(Pos::from_ipld(&pos(3, 9).to_ipld()), Ok(pos(3, 9)));
    assert_eq!(Pos::from_ipld(&pos(u64::MAX, 0).to_ipld()), Ok(pos(u64::MAX, 0)));
}

#[test]
fn pos_from_ipld_refuses_other_shapes() {
    let link = Value::Link(block("source text"));
    let bad = vec![
        Value::Null,
        Value::List(vec![Value::Integer(1)]),
        Value::List(vec![Value::Integer(1), Value::Integer(2), Value::Integer(3)]),
        Value::List(vec![Value::Integer(-1), Value::Integer(2), link.clone()]),
        Value::List(vec![Value::Integer(1), Value::Integer(1i128 << 64), link.clone()]),
        Value::List(vec![link.clone(), Value::Integer(2), Value::Integer(1)]),
    ];
    for v in bad {
        assert_eq!(Pos::from_ipld(&v), Err(IpldError::InvalidShape(v.clone())));
    }
}

#[test]
fn meta_ipld() {
    let m = id_meta();
    assert_eq!(Meta::from_ipld(&m.to_ipld()), Ok(m));
    let r = Meta {
        pos: Pos(None),
        name: Some("id".to_string()),
        link: Some(block("entry of id")),
        children: vec![],
    };
    assert_eq!(
        r.to_ipld(),
        Value::List(vec![
            Value::List(vec![]),
            Value::String("id".to_string()),
            Value::Link(block("entry of id")),
            Value::List(vec![]),
        ])
    );
    assert_eq!(Meta::from_ipld(&r.to_ipld()), Ok(r));
}

#[test]
fn meta_from_ipld_refuses_other_shapes() {
    let good = leaf(Pos(None)).to_ipld();
    assert_eq!(
        good,
        Value::List(vec![Value::List(vec![]), Value::Null, Value::Null, Value::List(vec![])])
    );
    let no_list = Value::Integer(3);
    assert_eq!(Meta::from_ipld(&no_list), Err(IpldError::InvalidShape(no_list.clone())));
    let short = Value::List(vec![Value::List(vec![]), Value::Null, Value::Null]);
    assert_eq!(Meta::from_ipld(&short), Err(IpldError::InvalidShape(short.clone())));
    let bad_name =
        Value::List(vec![Value::List(vec![]), Value::Integer(1), Value::Null, Value::List(vec![])]);
    assert_eq!(Meta::from_ipld(&bad_name), Err(IpldError::InvalidShape(bad_name.clone())));
    let bad_pos = Value::List(vec![Value::Integer(1)]);
    let with_bad_pos =
        Value::List(vec![bad_pos.clone(), Value::Null, Value::Null, Value::List(vec![])]);
    assert_eq!(Meta::from_ipld(&with_bad_pos), Err(IpldError::InvalidShape(bad_pos)));
    let bad_child = Value::Bool(true);
    let with_bad_child = Value::List(vec![
        Value::List(vec![]),
        Value::Null,
        Value::Null,
        Value::List(vec![good.clone(), bad_child.clone(), Value::Integer(9)]),
    ]);
    assert_eq!(Meta::from_ipld(&with_bad_child), Err(IpldError::InvalidShape(bad_child)));
}

#[test]
fn entry_ipld() {
    let x = id_entry();
    assert_eq!(Entry::from_ipld(&x.to_ipld()), Ok(x));
}

#[test]
fn entry_form_is_a_list_of_five() {
    let x = id_entry();
    assert_eq!(
        x.to_ipld(),
        Value::List(vec![
            x.pos.to_ipld(),
            Value::Link(block("type of id")),
            Value::Link(block("term of id")),
            x.type_meta.to_ipld(),
            x.term_meta.to_ipld(),
        ])
    );
}

#[test]
fn entry_from_ipld_refuses_other_shapes() {
    let x = id_entry();
    let Value::List(items) = x.to_ipld() else { panic!("no list") };
    let no_list = Value::Null;
    assert_eq!(Entry::from_ipld(&no_list), Err(IpldError::InvalidShape(no_list.clone())));
    let mut four = items.clone();
    four.pop();
    let four = Value::List(four);
    assert_eq!(Entry::from_ipld(&four), Err(IpldError::InvalidShape(four.clone())));
    let mut no_link = items.clone();
    no_link[1] = Value::Integer(0);
    no_link[0] = Value::Integer(0);
    let no_link = Value::List(no_link);
    assert_eq!(Entry::from_ipld(&no_link), Err(IpldError::InvalidShape(no_link.clone())));
    let mut bad_pos = items.clone();
    bad_pos[0] = Value::Integer(0);
    bad_pos[3] = Value::Integer(1);
    assert_eq!(
        Entry::from_ipld(&Value::List(bad_pos)),
        Err(IpldError::InvalidShape(Value::Integer(0)))
    );
    let mut bad_meta = items.clone();
    bad_meta[3] = Value::Integer(1);
    bad_meta[4] = Value::Integer(2);
    assert_eq!(
        Entry::from_ipld(&Value::List(bad_meta)),
        Err(IpldError::InvalidShape(Value::Integer(1)))
    );
}

#[test]
fn entry_cid_is_stable() {
    let a = id_entry();
    let b = Entry {
        term_meta: id_meta(),
        type_meta: binder(pos(0, 10), "A", vec![leaf(Pos(None)), leaf(pos(3, 4))]),
        term_anon: block("term of id"),
        type_anon: block("type of id"),
        pos: pos(0, 40),
    };
    assert_eq!(a.cid(), b.cid());
    assert_eq!(a.cid(), codec::cid(&a.to_ipld()));
    assert_eq!(a.cid().version, Version::V1);
    assert_eq!(a.cid().codec, DAG_CBOR);
    assert_eq!(a.cid().hash.code, BLAKE2B_256);
    let mut other = id_entry();
    other.pos = Pos(None);
    assert_ne!(a.cid(), other.cid());
}

#[test]
fn index_ipld() {
    let x = Index(vec![
        ("id".to_string(), block("entry of id")),
        ("const".to_string(), block("entry of const")),
    ]);
    assert_eq!(
        x.to_ipld(),
        Value::List(vec![
            Value::List(vec![Value::String("id".to_string()), Value::Link(block("entry of id"))]),
            Value::List(vec![
                Value::String("const".to_string()),
                Value::Link(block("entry of const"))
            ]),
        ])
    );
    assert_eq!(Index::from_ipld(&x.to_ipld()), Ok(x));
    assert_eq!(Index::from_ipld(&Value::List(vec![])), Ok(Index(vec![])));
}

#[test]
fn index_keys() {
    let x = Index(vec![
        ("id".to_string(), block("entry of id")),
        ("const".to_string(), block("entry of const")),
    ]);
    assert_eq!(x.keys(), vec!["id".to_string(), "const".to_string()]);
    assert_eq!(Index(vec![]).keys(), Vec::<String>::new());
}

#[test]
fn index_from_ipld_refuses_repeated_names_and_other_shapes() {
    let twice = Index(vec![
        ("id".to_string(), block("entry of id")),
        ("const".to_string(), block("entry of const")),
        ("id".to_string(), block("another entry of id")),
    ]);
    assert_eq!(
        Index::from_ipld(&twice.to_ipld()),
        Err(IpldError::DuplicateName("id".to_string()))
    );
    let no_list = Value::String("id".to_string());
    assert_eq!(Index::from_ipld(&no_list), Err(IpldError::InvalidShape(no_list.clone())));
    let bad_item = Value::List(vec![Value::String("id".to_string())]);
    let with_bad_item = Value::List(vec![
        Value::List(vec![Value::String("a".to_string()), Value::Link(block("a"))]),
        bad_item.clone(),
        Value::Null,
    ]);
    assert_eq!(Index::from_ipld(&with_bad_item), Err(IpldError::InvalidShape(bad_item)));
    let swapped = Value::List(vec![Value::Link(block("a")), Value::String("a".to_string())]);
    assert_eq!(
        Index::from_ipld(&Value::List(vec![swapped.clone()])),
        Err(IpldError::InvalidShape(swapped))
    );
    assert_eq!(
        Index::from_ipld(&Value::List(vec![Value::Null])),
        Err(IpldError::InvalidShape(Value::Null))
    );
}

#[test]
fn import_ipld() {
    let x = Import {
        cid: block("package bool"),
        name: "bool".to_string(),
        alias: "B".to_string(),
        with: vec!["True".to_string(), "False".to_string()],
    };
    assert_eq!(
        x.to_ipld(),
        Value::List(vec![
            Value::Link(block("package bool")),
            Value::String("bool".to_string()),
            Value::String("B".to_string()),
            Value::List(vec![
                Value::String("True".to_string()),
                Value::String("False".to_string())
            ]),
        ])
    );
    assert_eq!(Import::from_ipld(&x.to_ipld()), Ok(x));
}

#[test]
fn import_from_ipld_refuses_other_shapes() {
    let no_list = Value::Null;
    assert_eq!(Import::from_ipld(&no_list), Err(IpldError::InvalidShape(no_list.clone())));
    let no_link = Value::List(vec![
        Value::Null,
        Value::String("bool".to_string()),
        Value::String("B".to_string()),
        Value::List(vec![]),
    ]);
    assert_eq!(Import::from_ipld(&no_link), Err(IpldError::InvalidShape(no_link.clone())));
    let bad_name = Value::List(vec![
        Value::Link(block("package bool")),
        Value::String("bool".to_string()),
        Value::String("B".to_string()),
        Value::List(vec![Value::String("True".to_string()), Value::Integer(1), Value::Null]),
    ]);
    assert_eq!(Import::from_ipld(&bad_name), Err(IpldError::InvalidShape(Value::Integer(1))));
}

#[test]
fn import_alias_qualifies_names() {
    let import = |alias: &str| Import {
        cid: block("package bool"),
        name: "bool".to_string(),
        alias: alias.to_string(),
        with: vec!["True".to_string(), "False".to_string()],
    };
    assert_eq!(import_alias("True".to_string(), &import("")), "True");
    assert_eq!(import_alias("True".to_string(), &import("B")), "B.True");
    assert_eq!(import_alias("not".to_string(), &import("B")), "B.not");
    assert_eq!(import_alias("not".to_string(), &import("")), "bool.not");
    assert_eq!(import_alias("False".to_string(), &import("Data.Bool")), "Data.Bool.False");
    assert_eq!(import_alias("eql".to_string(), &import("Data.Bool")), "Data.Bool.eql");
}

#[test]
fn package_ipld() {
    let x = id_package();
    assert_eq!(Package::from_ipld(&x.to_ipld()), Ok(x));
    let empty = Package {
        pos: Pos(None),
        name: "empty".to_string(),
        imports: vec![],
        index: Index(vec![]),
    };
    assert_eq!(
        empty.to_ipld(),
        Value::List(vec![
            Value::List(vec![]),
            Value::String("empty".to_string()),
            Value::List(vec![]),
            Value::List(vec![]),
        ])
    );
    assert_eq!(Package::from_ipld(&empty.to_ipld()), Ok(empty));
}

#[test]
fn package_from_ipld_refuses_other_shapes() {
    let x = id_package();
    let Value::List(items) = x.to_ipld() else { panic!("no list") };
    let no_list = Value::Bool(false);
    assert_eq!(Package::from_ipld(&no_list), Err(IpldError::InvalidShape(no_list.clone())));
    let mut no_name = items.clone();
    no_name[1] = Value::Null;
    let no_name = Value::List(no_name);
    assert_eq!(Package::from_ipld(&no_name), Err(IpldError::InvalidShape(no_name.clone())));
    let mut bad_import = items.clone();
    bad_import[2] = Value::List(vec![Value::Integer(5)]);
    bad_import[3] = Value::Integer(6);
    assert_eq!(
        Package::from_ipld(&Value::List(bad_import)),
        Err(IpldError::InvalidShape(Value::Integer(5)))
    );
    let mut bad_index = items.clone();
    bad_index[3] = Value::Integer(6);
    assert_eq!(
        Package::from_ipld(&Value::List(bad_index)),
        Err(IpldError::InvalidShape(Value::Integer(6)))
    );
    let mut twice = items.clone();
    twice[3] = Index(vec![
        ("id".to_string(), block("a")),
        ("id".to_string(), block("b")),
    ])
    .to_ipld();
    assert_eq!(
        Package::from_ipld(&Value::List(twice)),
        Err(IpldError::DuplicateName("id".to_string()))
    );
}

#[test]
fn package_block_survives_the_codec() {
    let x = id_package();
    let bytes = codec::encode(&x.to_ipld()).unwrap();
    let again = codec::encode(&id_package().to_ipld()).unwrap();
    assert_eq!(bytes, again);
    assert_eq!(x.cid(), id_package().cid());
    let back = codec::decode(&bytes).unwrap();
    assert_eq!(Package::from_ipld(&back), Ok(x));
}

#[test]
fn clones_are_equal() {
    assert_eq!(id_package().clone(), id_package());
    assert_eq!(id_entry().clone(), id_entry());
    let bad = Cid {
        version: Version::V0,
        codec: DAG_CBOR,
        hash: Multihash { code: BLAKE2B_256, digest: vec![1, 2, 3] },
    };
    assert_eq!(bad.clone(), bad);
}
