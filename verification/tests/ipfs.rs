use yatima_core::codec;
use yatima_core::ipfs::IpfsApi;
use yatima_core::ipld::Value;

#[test]
fn daemons() {
    assert_eq!(IpfsApi::ipfs_yatima_io().host(), "http://ipfs.yatima.io:5001");
    assert_eq!(IpfsApi::local_daemon().host(), "http://localhost:5001");
    assert_eq!(IpfsApi::local_daemon().clone().host(), "http://localhost:5001");
}

#[test]
fn request_addresses() {
    assert_eq!(
        IpfsApi::local_daemon().dag_put_url(),
        "http://localhost:5001/api/v0/dag/put?format=cbor&pin=true&input-enc=cbor&hash=blake2b-256"
    );
    assert_eq!(
        IpfsApi::ipfs_yatima_io().dag_get_url("bafy2bzaceabc"),
        "http://ipfs.yatima.io:5001/api/v0/block/get?arg=bafy2bzaceabc"
    );
}

#[test]
fn put_body_is_the_block() {
    let dag = Value::List(vec![Value::Integer(1), Value::String("a".to_string())]);
    assert_eq!(IpfsApi::dag_put_body(&dag), Ok(vec![0x82, 0x01, 0x61, 0x61]));
    let wide = Value::Integer(1i128 << 70);
    let why = IpfsApi::dag_put_body(&wide).unwrap_err();
    assert!(why.starts_with("encoding error: "));
    assert!(why.len() > "encoding error: ".len());
}

#[test]
fn put_answer_must_name_the_block() {
    let dag = Value::List(vec![Value::Integer(1), Value::String("a".to_string())]);
    let ours = codec::cid(&dag).to_text().unwrap();
    assert_eq!(IpfsApi::dag_put_answer(&dag, ours.clone()), Ok(ours.clone()));
    let theirs = codec::cid(&Value::Null).to_text().unwrap();
    assert_eq!(
        IpfsApi::dag_put_answer(&dag, theirs.clone()),
        Err(format!("CIDs are different {} != {}", theirs, ours))
    );
}

#[test]
fn get_answer_is_the_value() {
    assert_eq!(
        IpfsApi::dag_get_answer(&vec![0x82, 0x01, 0x61, 0x61]),
        Ok(Value::List(vec![Value::Integer(1), Value::String("a".to_string())]))
    );
    let why = IpfsApi::dag_get_answer(&vec![0x82, 0x01]).unwrap_err();
    assert!(why.starts_with("Invalid ipld cbor: "));
    let float = IpfsApi::dag_get_answer(&vec![0xfb, 0x3f, 0xf8, 0, 0, 0, 0, 0, 0]).unwrap_err();
    assert!(float.starts_with("Invalid ipld cbor: "));
}
